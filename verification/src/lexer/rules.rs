//! What scanning means: the tokens of a source text, as a pure function of
//! its characters. The scanner in [`crate::lexer`] is proved to compute
//! [`scan`]; the laws at the end of this file are proved of `scan` itself.

use vstd::prelude::*;
use vstd::utf8::{encode_scalar, encode_utf8};
use crate::error::{ErrorView, LineInfo};
use crate::lexer::token::TokenView;
use crate::lexer::ttype::TTypeView;

verus! {

pub open spec fn is_digit(c: char) -> bool {
    '0' <= c <= '9'
}

pub open spec fn is_alpha(c: char) -> bool {
    ('a' <= c <= 'z') || ('A' <= c <= 'Z') || c == '_'
}

/// The ASCII punctuation characters: `!` to `/`, `:` to `@`, `[` to `` ` ``
/// and `{` to `~`.
pub open spec fn is_punctuation(c: char) -> bool {
    ('!' <= c <= '/') || (':' <= c <= '@') || ('[' <= c <= '`') || ('{' <= c <= '~')
}

/// The characters that continue a word once a letter or an underscore has
/// begun it: letters, digits and every ASCII punctuation character.
pub open spec fn is_alphanumeric(c: char) -> bool {
    is_alpha(c) || is_digit(c) || is_punctuation(c)
}

/// The character at index `i`, and NUL where the text has none.
pub open spec fn char_at(src: Seq<char>, i: int) -> char {
    if 0 <= i < src.len() {
        src[i]
    } else {
        '\0'
    }
}

/// How many bytes `c` takes in UTF-8.
pub open spec fn width(c: char) -> nat {
    encode_scalar(c as u32).len()
}

/// The byte offset of the character with index `i`: the length in UTF-8 of
/// the `i` characters before it.
#[verifier::opaque]
pub open spec fn offset(src: Seq<char>, i: int) -> nat {
    encode_utf8(src.take(i)).len()
}

/// The classes of character that the scanner passes over in a run.
#[derive(Clone, Copy)]
pub enum Class {
    /// Decimal digits.
    Digit,
    /// What continues a word.
    Word,
    /// Anything but a line feed: the rest of a comment.
    Comment,
    /// Anything but a double quote: the inside of a string literal.
    Quoted,
}

pub open spec fn accepts(class: Class, c: char) -> bool {
    match class {
        Class::Digit => is_digit(c),
        Class::Word => is_alphanumeric(c),
        Class::Comment => c != '\n',
        Class::Quoted => c != '"',
    }
}

/// How many characters in a row, from index `from` on, belong to `class`.
pub open spec fn run(src: Seq<char>, from: int, class: Class) -> nat
    decreases src.len() - from,
{
    if 0 <= from < src.len() && accepts(class, src[from]) {
        1 + run(src, from + 1, class)
    } else {
        0
    }
}

/// How many line feeds `text` holds.
pub open spec fn newlines(text: Seq<char>) -> nat
    decreases text.len(),
{
    if text.len() == 0 {
        0
    } else {
        newlines(text.drop_last()) + if text.last() == '\n' {
            1nat
        } else {
            0nat
        }
    }
}

/// The keyword that `word` spells, if it spells one.
pub open spec fn keyword(word: Seq<char>) -> Option<TTypeView> {
    if word == "true"@ {
        Some(TTypeView::TRUE)
    } else if word == "false"@ {
        Some(TTypeView::FALSE)
    } else if word == "if"@ {
        Some(TTypeView::IF)
    } else if word == "else"@ {
        Some(TTypeView::ELSE)
    } else if word == "while"@ {
        Some(TTypeView::WHILE)
    } else if word == "for"@ {
        Some(TTypeView::FOR)
    } else if word == "in"@ {
        Some(TTypeView::IN)
    } else if word == "fn"@ {
        Some(TTypeView::FN)
    } else if word == "let"@ {
        Some(TTypeView::LET)
    } else if word == "return"@ {
        Some(TTypeView::RETURN)
    } else if word == "import"@ {
        Some(TTypeView::IMPORT)
    } else {
        None
    }
}

/// The kind of a word: its keyword, or an identifier of that name.
pub open spec fn word_kind(word: Seq<char>) -> TTypeView {
    match keyword(word) {
        Some(kind) => kind,
        None => TTypeView::Identifier(word),
    }
}

/// The position of the characters `from..to` on line `line`, in bytes.
pub open spec fn span(src: Seq<char>, from: int, to: int, line: nat) -> LineInfo {
    LineInfo {
        line: line as usize,
        start: offset(src, from) as usize,
        end: offset(src, to) as usize,
    }
}

/// The token of kind `ttype` that the characters `from..to` spell.
pub open spec fn token(src: Seq<char>, ttype: TTypeView, from: int, to: int, line: nat) -> TokenView {
    TokenView { ttype, lexeme: src.subrange(from, to), lineinfo: span(src, from, to, line) }
}

/// The marker that ends every token sequence: empty, at the end of the text.
pub open spec fn end_token(src: Seq<char>, line: nat) -> TokenView {
    token(src, TTypeView::EOF, src.len() as int, src.len() as int, line)
}

/// One step of the scanner.
pub struct Scanned {
    /// The token that was read; none for blank space and comments.
    pub token: Option<TokenView>,
    /// How many characters the step took: at least one.
    pub len: nat,
    /// The line on which the next step starts.
    pub line: nat,
}

/// A step that read the `len` characters at `pos` as a token of kind `ttype`.
pub open spec fn emit(src: Seq<char>, ttype: TTypeView, pos: int, len: nat, line: nat) -> Result<
    Scanned,
    ErrorView,
> {
    Ok(Scanned { token: Some(token(src, ttype, pos, pos + len, line)), len, line })
}

/// A step that passed over `len` characters and ended on line `line`.
pub open spec fn pass(len: nat, line: nat) -> Result<Scanned, ErrorView> {
    Ok(Scanned { token: None, len, line })
}

/// The kind for an operator that an `=` may follow: `joined` where one does.
pub open spec fn with_equals(src: Seq<char>, pos: int, bare: TTypeView, joined: TTypeView, line: nat)
    -> Result<Scanned, ErrorView> {
    if pos + 1 < src.len() && src[pos + 1] == '=' {
        emit(src, joined, pos, 2, line)
    } else {
        emit(src, bare, pos, 1, line)
    }
}

/// How many characters the numeral that starts with the digit at `pos` has:
/// its digits, and a point with the digits behind it where at least one
/// digit follows the point.
pub open spec fn numeral_len(src: Seq<char>, pos: int) -> nat {
    let whole = 1 + run(src, pos + 1, Class::Digit);
    if char_at(src, pos + whole) == '.' && is_digit(char_at(src, pos + whole + 1)) {
        whole + 2 + run(src, pos + whole + 2, Class::Digit)
    } else {
        whole
    }
}

/// The step at a `/`: a comment runs from two slashes to the end of the
/// line, the line feed left standing; one slash alone is the operator.
pub open spec fn slash_step(src: Seq<char>, pos: int, line: nat) -> Result<Scanned, ErrorView> {
    if pos + 1 < src.len() && src[pos + 1] == '/' {
        pass(2 + run(src, pos + 2, Class::Comment), line)
    } else {
        emit(src, TTypeView::SLASH, pos, 1, line)
    }
}

/// The step at a double quote: the string literal that runs to the next
/// double quote, whatever stands between the two; without a second quote,
/// the diagnostic, which spans the text from the opening quote to the end.
/// The token is what stands between the quotes: that is its lexeme, its
/// payload and its span. Lines that end inside the literal are counted, and
/// the token stands on the line of its closing quote.
pub open spec fn string_step(src: Seq<char>, pos: int, line: nat) -> Result<Scanned, ErrorView> {
    let inside = run(src, pos + 1, Class::Quoted);
    let last = line + newlines(src.subrange(pos + 1, pos + 1 + inside));
    if pos + 1 + inside >= src.len() {
        Err(ErrorView::plain(span(src, pos, src.len() as int, last), "Unterminated string"@))
    } else {
        Ok(
            Scanned {
                token: Some(
                    token(
                        src,
                        TTypeView::String(src.subrange(pos + 1, pos + 1 + inside)),
                        pos + 1,
                        pos + 1 + inside,
                        last,
                    ),
                ),
                len: inside + 2,
                line: last,
            },
        )
    }
}

/// The step at a digit: the numeral, which carries its own text.
pub open spec fn number_step(src: Seq<char>, pos: int, line: nat) -> Result<Scanned, ErrorView> {
    let len = numeral_len(src, pos);
    emit(src, TTypeView::Number(src.subrange(pos, pos + len)), pos, len, line)
}

/// The step at a letter or an underscore: the word that it begins, as a
/// keyword or an identifier.
pub open spec fn word_step(src: Seq<char>, pos: int, line: nat) -> Result<Scanned, ErrorView> {
    let len = 1 + run(src, pos + 1, Class::Word);
    emit(src, word_kind(src.subrange(pos, pos + len)), pos, len, line)
}

/// The diagnostic for a character that begins no token.
pub open spec fn unexpected(src: Seq<char>, pos: int, line: nat) -> ErrorView {
    ErrorView::plain(span(src, pos, pos + 1, line), "Unexpected character: "@.push(src[pos]))
}

/// The step that the scanner takes at the character with index `pos`, on
/// line `line`: the token it reads or the text it passes over, or the
/// diagnostic with which scanning ends.
pub open spec fn scan_token(src: Seq<char>, pos: int, line: nat) -> Result<Scanned, ErrorView>
    recommends
        0 <= pos < src.len(),
{
    let c = src[pos];
    if c == '(' {
        emit(src, TTypeView::LPAREN, pos, 1, line)
    } else if c == ')' {
        emit(src, TTypeView::RPAREN, pos, 1, line)
    } else if c == '{' {
        emit(src, TTypeView::LBRACE, pos, 1, line)
    } else if c == '}' {
        emit(src, TTypeView::RBRACE, pos, 1, line)
    } else if c == ',' {
        emit(src, TTypeView::COMMA, pos, 1, line)
    } else if c == '.' {
        emit(src, TTypeView::DOT, pos, 1, line)
    } else if c == '-' {
        emit(src, TTypeView::MINUS, pos, 1, line)
    } else if c == '+' {
        emit(src, TTypeView::PLUS, pos, 1, line)
    } else if c == ';' {
        emit(src, TTypeView::SEMICOLON, pos, 1, line)
    } else if c == '*' {
        emit(src, TTypeView::STAR, pos, 1, line)
    } else if c == ':' {
        emit(src, TTypeView::COLON, pos, 1, line)
    } else if c == '!' {
        with_equals(src, pos, TTypeView::BANG, TTypeView::BANGEQ, line)
    } else if c == '=' {
        with_equals(src, pos, TTypeView::EQ, TTypeView::EQEQ, line)
    } else if c == '<' {
        with_equals(src, pos, TTypeView::LT, TTypeView::LTEQ, line)
    } else if c == '>' {
        with_equals(src, pos, TTypeView::GT, TTypeView::GTEQ, line)
    } else if c == '/' {
        slash_step(src, pos, line)
    } else if c == ' ' || c == '\r' || c == '\t' {
        pass(1, line)
    } else if c == '\n' {
        pass(1, line + 1)
    } else if c == '"' {
        string_step(src, pos, line)
    } else if is_digit(c) {
        number_step(src, pos, line)
    } else if is_alpha(c) {
        word_step(src, pos, line)
    } else {
        Err(unexpected(src, pos, line))
    }
}

/// How many characters stand at index `pos` and behind it.
pub open spec fn remaining(src: Seq<char>, pos: int) -> nat {
    if pos < src.len() {
        (src.len() - pos) as nat
    } else {
        0
    }
}

/// The outcome of scanning `src` from the character with index `pos` on,
/// on line `line`, after the tokens `done`.
pub open spec fn scan_from(src: Seq<char>, pos: int, line: nat, done: Seq<TokenView>) -> Result<
    Seq<TokenView>,
    ErrorView,
>
    decreases remaining(src, pos),
{
    if 0 <= pos < src.len() {
        match scan_token(src, pos, line) {
            Err(error) => Err(error),
            Ok(step) => scan_from(
                src,
                pos + step.len,
                step.line,
                match step.token {
                    Some(token) => done.push(token),
                    None => done,
                },
            ),
        }
    } else {
        Ok(done.push(end_token(src, line)))
    }
}

/// The tokens of `src`, ended by the end marker; or the first diagnostic.
pub open spec fn scan(src: Seq<char>) -> Result<Seq<TokenView>, ErrorView> {
    scan_from(src, 0, 1, Seq::empty())
}

/// The UTF-8 encoding of a text is that of its parts, one after the other.
pub proof fn lemma_encode_concat(a: Seq<char>, b: Seq<char>)
    ensures
        encode_utf8(a + b) == encode_utf8(a) + encode_utf8(b),
    decreases a.len(),
{
    if a.len() == 0 {
        assert(a + b =~= b);
        assert(encode_utf8(a) + encode_utf8(b) =~= encode_utf8(b));
    } else {
        lemma_encode_concat(a.drop_first(), b);
        assert((a + b).drop_first() =~= a.drop_first() + b);
        assert(encode_utf8(a + b) =~= encode_utf8(a) + encode_utf8(b));
    }
}

/// A character takes one to four bytes.
pub proof fn lemma_width(c: char)
    ensures
        1 <= width(c) <= 4,
        width(c) == if (c as u32) < 0x80 {
            1nat
        } else if (c as u32) < 0x800 {
            2nat
        } else if (c as u32) < 0x10000 {
            3nat
        } else {
            4nat
        },
{
    vstd::utf8::char_is_scalar(c);
}

/// Going on by one character moves the byte offset by that character's width.
pub proof fn lemma_offset_step(src: Seq<char>, i: int)
    requires
        0 <= i < src.len(),
    ensures
        offset(src, i + 1) == offset(src, i) + width(src[i]),
{
    reveal(offset);
    let one = seq![src[i]];
    assert(src.take(i + 1) =~= src.take(i) + one);
    lemma_encode_concat(src.take(i), one);
    assert(one.drop_first() =~= Seq::<char>::empty());
    assert(encode_utf8(one) =~= encode_scalar(src[i] as u32)) by {
        reveal_with_fuel(encode_utf8, 2);
    }
}

/// The bytes of the characters `from..to` are the bytes of the text between
/// the two offsets.
pub proof fn lemma_encode_subrange(src: Seq<char>, from: int, to: int)
    requires
        0 <= from <= to <= src.len(),
    ensures
        offset(src, from) <= offset(src, to) <= encode_utf8(src).len(),
        offset(src, 0) == 0,
        offset(src, src.len() as int) == encode_utf8(src).len(),
        encode_utf8(src).subrange(offset(src, from) as int, offset(src, to) as int) == encode_utf8(
            src.subrange(from, to),
        ),
{
    reveal(offset);
    let head = src.take(from);
    let body = src.subrange(from, to);
    let tail = src.skip(to);
    assert(src.take(to) =~= head + body);
    assert(src =~= src.take(to) + tail);
    assert(src.take(src.len() as int) =~= src);
    assert(src.take(0) =~= Seq::<char>::empty());
    lemma_encode_concat(head, body);
    lemma_encode_concat(src.take(to), tail);
    assert(encode_utf8(src).subrange(offset(src, from) as int, offset(src, to) as int)
        =~= encode_utf8(body));
}

/// That `token` stands in `src` where its span says: the span lies inside
/// the text, and the bytes of the text between its two offsets are the
/// token's lexeme.
pub open spec fn placed(src: Seq<char>, token: TokenView) -> bool {
    let bytes = encode_utf8(src);
    &&& token.lineinfo.start <= token.lineinfo.end <= bytes.len()
    &&& bytes.subrange(token.lineinfo.start as int, token.lineinfo.end as int) == encode_utf8(
        token.lexeme,
    )
}

/// That `tokens` is a token sequence of `src`: every token is placed, the
/// last one is the end marker, and no other is.
pub open spec fn well_formed(src: Seq<char>, tokens: Seq<TokenView>) -> bool {
    &&& tokens.len() > 0
    &&& tokens.last().ttype is EOF
    &&& forall|i: int| 0 <= i < tokens.len() ==> placed(src, #[trigger] tokens[i])
    &&& forall|i: int| 0 <= i < tokens.len() - 1 ==> !((#[trigger] tokens[i]).ttype is EOF)
}

/// A run ends inside the text, and at a character that is not of its class.
pub proof fn lemma_run(src: Seq<char>, from: int, class: Class)
    requires
        0 <= from <= src.len(),
    ensures
        from + run(src, from, class) <= src.len(),
        from + run(src, from, class) < src.len() ==> !accepts(
            class,
            src[from + run(src, from, class)],
        ),
    decreases src.len() - from,
{
    if from < src.len() && accepts(class, src[from]) {
        lemma_run(src, from + 1, class);
    }
}

/// A token of characters that the text has is placed.
pub proof fn lemma_token_placed(src: Seq<char>, ttype: TTypeView, from: int, to: int, line: nat)
    requires
        0 <= from <= to <= src.len(),
        encode_utf8(src).len() <= usize::MAX,
    ensures
        placed(src, token(src, ttype, from, to, line)),
{
    lemma_encode_subrange(src, from, to);
}

/// A step takes at least one character and stays inside the text, and the
/// token it reads is placed and is not the end marker.
pub proof fn lemma_step(src: Seq<char>, pos: int, line: nat)
    requires
        0 <= pos < src.len(),
        encode_utf8(src).len() <= usize::MAX,
    ensures
        match scan_token(src, pos, line) {
            Ok(step) => {
                &&& 1 <= step.len
                &&& pos + step.len <= src.len()
                &&& step.token matches Some(token) ==> placed(src, token) && !(token.ttype is EOF)
            },
            Err(_) => true,
        },
{
    lemma_run(src, pos + 1, Class::Digit);
    lemma_run(src, pos + 1, Class::Word);
    lemma_run(src, pos + 1, Class::Quoted);
    if pos + 2 <= src.len() {
        lemma_run(src, pos + 2, Class::Comment);
    }
    let whole = 1 + run(src, pos + 1, Class::Digit);
    if pos + whole + 2 <= src.len() {
        lemma_run(src, pos + whole + 2, Class::Digit);
    }
    assert forall|ttype: TTypeView, from: int, to: int, on: nat|
        0 <= from <= to <= src.len() implies placed(
        src,
        #[trigger] token(src, ttype, from, to, on),
    ) by {
        lemma_token_placed(src, ttype, from, to, on);
    }
}

/// Scanning on from a place inside the text, after tokens that are placed and
/// hold no end marker, gives a well-formed sequence that begins with them.
pub proof fn lemma_scan_from(src: Seq<char>, pos: int, line: nat, done: Seq<TokenView>)
    requires
        0 <= pos <= src.len(),
        encode_utf8(src).len() <= usize::MAX,
        forall|i: int| 0 <= i < done.len() ==> placed(src, #[trigger] done[i]),
        forall|i: int| 0 <= i < done.len() ==> !((#[trigger] done[i]).ttype is EOF),
        scan_from(src, pos, line, done) is Ok,
    ensures
        well_formed(src, scan_from(src, pos, line, done)->Ok_0),
        done.len() < scan_from(src, pos, line, done)->Ok_0.len(),
    decreases remaining(src, pos),
{
    if pos < src.len() {
        lemma_step(src, pos, line);
        let step = scan_token(src, pos, line)->Ok_0;
        let next = match step.token {
            Some(token) => done.push(token),
            None => done,
        };
        lemma_scan_from(src, pos + step.len, step.line, next);
    } else {
        lemma_token_placed(src, TTypeView::EOF, src.len() as int, src.len() as int, line);
    }
}

/// The tokens of a text that fits in memory are well formed: each one's
/// lexeme is the text between the offsets of its span, which lies inside the
/// text, and the sequence ends with its only end marker.
pub proof fn lemma_scan_well_formed(src: Seq<char>)
    requires
        encode_utf8(src).len() <= usize::MAX,
        scan(src) is Ok,
    ensures
        well_formed(src, scan(src)->Ok_0),
{
    lemma_scan_from(src, 0, 1, Seq::empty());
}

} // verus!
