//! The scanner: source text to tokens.
//!
//! [`Lexer::scan_tokens`] walks the characters of the source once, left to
//! right, and is proved to return exactly what [`rules::scan`] describes.

pub mod rules;
pub mod token;
pub mod ttype;

use vstd::prelude::*;
use crate::same;
use vstd::utf8::encode_utf8;
use crate::error::{Error, ErrorView, LineInfo};
use crate::lexer::rules::{
    accepts, char_at, emit, lemma_encode_subrange, lemma_offset_step, lemma_width, newlines,
    lemma_scan_well_formed, number_step, offset, run, scan, scan_from, slash_step, string_step,
    well_formed, width, with_equals, word_step, Class, Scanned,
};
use crate::lexer::token::Token;
use crate::lexer::ttype::TType;

verus! {

/// A scanner over one source text.
pub struct Lexer {
    /// The source text.
    pub input: String,
    /// The characters of the text that is being scanned.
    chars: Vec<char>,
    /// Index of the character at which the current token starts.
    start: usize,
    /// Index of the character under the cursor.
    current: usize,
    /// Byte offset of the current token's start.
    start_byte: usize,
    /// Byte offset of the cursor.
    current_byte: usize,
    /// The line of the cursor, counted from 1.
    line: usize,
    tokens: Vec<Token>,
}

/// That `result` is what scanning `src` gives: the tokens that [`scan`]
/// describes, or its diagnostic.
pub open spec fn scanned(src: Seq<char>, result: Result<Vec<Token>, Error>) -> bool {
    match scan(src) {
        Ok(tokens) => result is Ok && result->Ok_0.deep_view() == tokens,
        Err(error) => result is Err && result->Err_0@ == error,
    }
}

/// Scanning depends on the text alone: whatever two scans of one text
/// return, both succeed with the same tokens or both fail with the same
/// diagnostic.
pub proof fn lemma_scan_is_repeatable(
    src: Seq<char>,
    first: Result<Vec<Token>, Error>,
    second: Result<Vec<Token>, Error>,
)
    requires
        scanned(src, first),
        scanned(src, second),
    ensures
        match (first, second) {
            (Ok(a), Ok(b)) => a.deep_view() == b.deep_view(),
            (Err(a), Err(b)) => a@ == b@,
            _ => false,
        },
{
}

/// The characters of `text`, in order.
fn chars_of(text: &str) -> (chars: Vec<char>)
    ensures
        chars@ == text@,
{
    let mut chars: Vec<char> = Vec::new();
    for c in it: text.chars()
        invariant
            it.seq() == text@,
            chars@ == it.seq().take(it.index() as int),
    {
        chars.push(c);
    }
    chars
}

/// The number of bytes that `c` takes in UTF-8.
fn utf8_width(c: char) -> (bytes: usize)
    ensures
        bytes == width(c),
{
    proof {
        lemma_width(c);
    }
    let code = c as u32;
    if code < 0x80 {
        1
    } else if code < 0x800 {
        2
    } else if code < 0x10000 {
        3
    } else {
        4
    }
}

/// The keyword that `word` spells, if it spells one.
fn keyword(word: &String) -> (kind: Option<TType>)
    ensures
        match kind {
            Some(kind) => rules::keyword(word@) == Some(kind@),
            None => rules::keyword(word@) is None,
        },
{
    if *word == String::from_str("true") {
        Some(TType::TRUE)
    } else if *word == String::from_str("false") {
        Some(TType::FALSE)
    } else if *word == String::from_str("if") {
        Some(TType::IF)
    } else if *word == String::from_str("else") {
        Some(TType::ELSE)
    } else if *word == String::from_str("while") {
        Some(TType::WHILE)
    } else if *word == String::from_str("for") {
        Some(TType::FOR)
    } else if *word == String::from_str("in") {
        Some(TType::IN)
    } else if *word == String::from_str("fn") {
        Some(TType::FN)
    } else if *word == String::from_str("let") {
        Some(TType::LET)
    } else if *word == String::from_str("return") {
        Some(TType::RETURN)
    } else if *word == String::from_str("import") {
        Some(TType::IMPORT)
    } else {
        None
    }
}

impl Lexer {
    /// The source text, as characters.
    pub closed spec fn source(&self) -> Seq<char> {
        self.input@
    }

    pub fn new(input: String) -> (lexer: Lexer)
        ensures
            lexer.source() == input@,
    {
        Lexer {
            input,
            chars: Vec::new(),
            start: 0,
            current: 0,
            start_byte: 0,
            current_byte: 0,
            line: 1,
            tokens: Vec::new(),
        }
    }

    /// The text under the cursor.
    spec fn src(&self) -> Seq<char> {
        self.chars@
    }

    /// The cursors are consistent with the text: the characters are those of
    /// the input, the byte offsets are those of the two indices, and the line
    /// counter cannot have run past the cursor.
    spec fn wf(&self) -> bool {
        &&& self.chars@ == self.input@
        &&& self.chars.len() < usize::MAX
        &&& encode_utf8(self.chars@).len() <= usize::MAX
        &&& self.start <= self.current <= self.chars.len()
        &&& self.start_byte == offset(self.chars@, self.start as int)
        &&& self.current_byte == offset(self.chars@, self.current as int)
        &&& 1 <= self.line <= self.current + 1
    }

    /// `self` is `before` with the cursor `by` characters further on.
    spec fn moved(&self, before: &Lexer, by: nat) -> bool {
        &&& self.wf()
        &&& self.input == before.input
        &&& self.chars == before.chars
        &&& self.start == before.start
        &&& self.start_byte == before.start_byte
        &&& self.tokens == before.tokens
        &&& self.current == before.current + by
    }

    /// `self` is `before` after the step `outcome`, taken from the start of
    /// the current token, and `result` is what that step returns. A step that
    /// fails leaves the tokens as they were.
    spec fn stepped(
        &self,
        before: &Lexer,
        outcome: Result<Scanned, ErrorView>,
        result: Result<(), Error>,
    ) -> bool {
        &&& self.input == before.input
        &&& self.chars == before.chars
        &&& match outcome {
            Ok(step) => {
                &&& result is Ok
                &&& self.wf()
                &&& self.current == before.start + step.len
                &&& self.line == step.line
                &&& self.tokens.deep_view() == match step.token {
                    Some(token) => before.tokens.deep_view().push(token),
                    None => before.tokens.deep_view(),
                }
            },
            Err(error) => {
                &&& result is Err
                &&& result->Err_0@ == error
                &&& self.tokens == before.tokens
            },
        }
    }

    /// `self` stands behind the first character of a token.
    spec fn opened(&self) -> bool {
        &&& self.wf()
        &&& self.current == self.start + 1
    }

    /// Scans the input from its first character and returns its tokens, the
    /// last of them the end marker; or the diagnostic of the first character
    /// sequence that is no token. Each call scans the whole input anew.
    pub fn scan_tokens(&mut self) -> (result: Result<Vec<Token>, Error>)
        requires
            old(self).source().len() < usize::MAX,
        ensures
            final(self).source() == old(self).source(),
            scanned(old(self).source(), result),
            result matches Ok(tokens) ==> well_formed(old(self).source(), tokens.deep_view()),
    {
        self.chars = chars_of(self.input.as_str());
        // The bytes of the text are counted by a `usize`, and so is every
        // offset into them.
        let _bytes: usize = self.input.as_str().as_bytes().len();
        self.start = 0;
        self.current = 0;
        self.start_byte = 0;
        self.current_byte = 0;
        self.line = 1;
        self.tokens = Vec::new();
        proof {
            lemma_encode_subrange(self.chars@, 0, 0);
            assert(self.tokens.deep_view() =~= Seq::empty());
        }
        while !self.is_at_end()
            invariant
                self.wf(),
                self.input == old(self).input,
                same(
                    scan(self.chars@),
                    scan_from(
                        self.chars@,
                        self.current as int,
                        self.line as nat,
                        self.tokens.deep_view(),
                    ),
                ),
            decreases self.chars.len() - self.current,
        {
            self.start = self.current;
            self.start_byte = self.current_byte;
            match self.scan_token() {
                Err(error) => {
                    return Err(error);
                },
                Ok(()) => {},
            }
        }
        let end = Token::new(
            TType::EOF,
            String::new(),
            LineInfo::new(self.line, self.current_byte, self.current_byte),
        );
        let ghost before = self.tokens.deep_view();
        self.tokens.push(end);
        let mut tokens: Vec<Token> = Vec::new();
        std::mem::swap(&mut tokens, &mut self.tokens);
        proof {
            assert(end@.lexeme =~= self.chars@.subrange(
                self.chars@.len() as int,
                self.chars@.len() as int,
            ));
            assert(tokens.deep_view() =~= before.push(end@));
            lemma_scan_well_formed(self.chars@);
        }
        Ok(tokens)
    }

    /// Reads one token, or passes over blank space or a comment, from the
    /// cursor on.
    fn scan_token(&mut self) -> (result: Result<(), Error>)
        requires
            old(self).wf(),
            old(self).start == old(self).current,
            old(self).current < old(self).chars.len(),
        ensures
            final(self).stepped(
                old(self),
                rules::scan_token(old(self).src(), old(self).start as int, old(self).line as nat),
                result,
            ),
    {
        let c = self.advance();
        if c == '(' {
            self.add_token(TType::LPAREN);
        } else if c == ')' {
            self.add_token(TType::RPAREN);
        } else if c == '{' {
            self.add_token(TType::LBRACE);
        } else if c == '}' {
            self.add_token(TType::RBRACE);
        } else if c == ',' {
            self.add_token(TType::COMMA);
        } else if c == '.' {
            self.add_token(TType::DOT);
        } else if c == '-' {
            self.add_token(TType::MINUS);
        } else if c == '+' {
            self.add_token(TType::PLUS);
        } else if c == ';' {
            self.add_token(TType::SEMICOLON);
        } else if c == '*' {
            self.add_token(TType::STAR);
        } else if c == ':' {
            self.add_token(TType::COLON);
        } else if c == '!' {
            self.operator(TType::BANG, TType::BANGEQ);
        } else if c == '=' {
            self.operator(TType::EQ, TType::EQEQ);
        } else if c == '<' {
            self.operator(TType::LT, TType::LTEQ);
        } else if c == '>' {
            self.operator(TType::GT, TType::GTEQ);
        } else if c == '/' {
            self.slash();
        } else if c == ' ' || c == '\r' || c == '\t' {
        } else if c == '\n' {
            self.line += 1;
        } else if c == '"' {
            return self.string();
        } else if Lexer::is_digit(c) {
            self.number();
        } else if Lexer::is_alpha(c) {
            self.word();
        } else {
            return Err(self.unexpected());
        }
        Ok(())
    }

    /// Reads an operator that an `=` may follow.
    fn operator(&mut self, bare: TType, joined: TType)
        requires
            old(self).opened(),
        ensures
            final(self).stepped(
                old(self),
                with_equals(
                    old(self).src(),
                    old(self).start as int,
                    bare@,
                    joined@,
                    old(self).line as nat,
                ),
                Ok(()),
            ),
    {
        let ttype = if self.match_char('=') {
            joined
        } else {
            bare
        };
        self.add_token(ttype);
    }

    /// Reads the operator `/`, or passes over a comment.
    fn slash(&mut self)
        requires
            old(self).opened(),
        ensures
            final(self).stepped(
                old(self),
                slash_step(old(self).src(), old(self).start as int, old(self).line as nat),
                Ok(()),
            ),
    {
        if self.match_char('/') {
            self.pass_run(Class::Comment);
        } else {
            self.add_token(TType::SLASH);
        }
    }

    /// Reads a string literal, whose opening quote the cursor has passed.
    fn string(&mut self) -> (result: Result<(), Error>)
        requires
            old(self).opened(),
            old(self).src()[old(self).start as int] == '"',
        ensures
            final(self).stepped(
                old(self),
                string_step(old(self).src(), old(self).start as int, old(self).line as nat),
                result,
            ),
    {
        self.pass_run(Class::Quoted);
        if self.is_at_end() {
            return Err(
                Error::new(
                    LineInfo::new(self.line, self.start_byte, self.current_byte),
                    String::from_str("Unterminated string"),
                ),
            );
        }
        proof {
            lemma_offset_step(self.chars@, self.start as int);
            lemma_width('"');
        }
        let value = self.text(self.start + 1, self.current);
        let token = Token::new(
            TType::String(value.clone()),
            value,
            LineInfo::new(self.line, self.start_byte + 1, self.current_byte),
        );
        self.advance();
        let ghost before = self.tokens.deep_view();
        self.tokens.push(token);
        assert(self.tokens.deep_view() =~= before.push(token@));
        Ok(())
    }

    /// Reads a numeral, whose first digit the cursor has passed.
    fn number(&mut self)
        requires
            old(self).opened(),
        ensures
            final(self).stepped(
                old(self),
                number_step(old(self).src(), old(self).start as int, old(self).line as nat),
                Ok(()),
            ),
    {
        self.pass_run(Class::Digit);
        if self.peek() == '.' && Lexer::is_digit(self.peek_next()) {
            self.advance();
            self.pass_run(Class::Digit);
        }
        let numeral = self.text(self.start, self.current);
        self.add_token(TType::Number(numeral));
    }

    /// Reads a keyword or an identifier, whose first character the cursor
    /// has passed.
    fn word(&mut self)
        requires
            old(self).opened(),
        ensures
            final(self).stepped(
                old(self),
                word_step(old(self).src(), old(self).start as int, old(self).line as nat),
                Ok(()),
            ),
    {
        self.pass_run(Class::Word);
        let word = self.text(self.start, self.current);
        let ttype = match keyword(&word) {
            Some(ttype) => ttype,
            None => TType::Identifier(word),
        };
        self.add_token(ttype);
    }

    /// The diagnostic for the character that the cursor has passed.
    fn unexpected(&self) -> (error: Error)
        requires
            self.opened(),
        ensures
            error@ == rules::unexpected(self.src(), self.start as int, self.line as nat),
    {
        let mut message = String::from_str("Unexpected character: ");
        message.append(self.input.as_str().substring_char(self.start, self.current));
        assert(message@ =~= "Unexpected character: "@.push(self.chars@[self.start as int]));
        Error::new(LineInfo::new(self.line, self.start_byte, self.current_byte), message)
    }

    /// Moves the cursor past the characters of `class` that stand in a row
    /// from it on, counting the lines that end among them.
    fn pass_run(&mut self, class: Class)
        requires
            old(self).wf(),
        ensures
            final(self).moved(old(self), run(old(self).src(), old(self).current as int, class)),
            final(self).line == old(self).line + newlines(
                old(self).src().subrange(old(self).current as int, final(self).current as int),
            ),
            !(class is Quoted) ==> final(self).line == old(self).line,
    {
        let ghost from = self.current as int;
        proof {
            assert(self.chars@.subrange(from, from) =~= Seq::<char>::empty());
        }
        while !self.is_at_end() && Lexer::in_class(class, self.peek())
            invariant
                self.moved(old(self), (self.current - from) as nat),
                from == old(self).current,
                run(self.chars@, from, class) == (self.current - from) + run(
                    self.chars@,
                    self.current as int,
                    class,
                ),
                self.line == old(self).line + newlines(
                    self.chars@.subrange(from, self.current as int),
                ),
                !(class is Quoted) ==> self.line == old(self).line,
            decreases self.chars.len() - self.current,
        {
            let ghost at = self.current as int;
            let c = self.advance();
            proof {
                assert(self.chars@.subrange(from, at + 1).drop_last() =~= self.chars@.subrange(
                    from,
                    at,
                ));
            }
            if c == '\n' {
                self.line += 1;
            }
        }
    }

    /// The characters `from..to` of the input, as a string.
    fn text(&self, from: usize, to: usize) -> (text: String)
        requires
            self.wf(),
            from <= to <= self.chars.len(),
        ensures
            text@ == self.src().subrange(from as int, to as int),
    {
        String::from_str(self.input.as_str().substring_char(from, to))
    }

    fn peek_next(&self) -> (c: char)
        requires
            self.wf(),
        ensures
            c == char_at(self.src(), self.current + 1),
    {
        if self.current + 1 >= self.chars.len() {
            '\0'
        } else {
            self.chars[self.current + 1]
        }
    }

    pub fn is_alpha(c: char) -> (yes: bool)
        ensures
            yes == rules::is_alpha(c),
    {
        (c >= 'a' && c <= 'z') || (c >= 'A' && c <= 'Z') || c == '_'
    }

    pub fn is_alphanumeric(c: char) -> (yes: bool)
        ensures
            yes == rules::is_alphanumeric(c),
    {
        Lexer::is_alpha(c) || Lexer::is_digit(c) || Lexer::is_punctuation(c)
    }

    pub fn is_digit(c: char) -> (yes: bool)
        ensures
            yes == rules::is_digit(c),
    {
        c >= '0' && c <= '9'
    }

    /// Whether `c` is an ASCII punctuation character.
    pub fn is_punctuation(c: char) -> (yes: bool)
        ensures
            yes == rules::is_punctuation(c),
    {
        (c >= '!' && c <= '/') || (c >= ':' && c <= '@') || (c >= '[' && c <= '`') || (c >= '{'
            && c <= '~')
    }

    fn in_class(class: Class, c: char) -> (yes: bool)
        ensures
            yes == accepts(class, c),
    {
        match class {
            Class::Digit => Lexer::is_digit(c),
            Class::Word => Lexer::is_alphanumeric(c),
            Class::Comment => c != '\n',
            Class::Quoted => c != '"',
        }
    }

    fn peek(&self) -> (c: char)
        requires
            self.wf(),
        ensures
            c == char_at(self.src(), self.current as int),
    {
        if self.is_at_end() {
            '\0'
        } else {
            self.chars[self.current]
        }
    }

    /// Moves past the character under the cursor if it is `expected`.
    fn match_char(&mut self, expected: char) -> (matched: bool)
        requires
            old(self).wf(),
        ensures
            matched == (char_at(old(self).src(), old(self).current as int) == expected && old(
                self,
            ).current < old(self).chars.len()),
            final(self).moved(
                old(self),
                if matched {
                    1nat
                } else {
                    0nat
                },
            ),
            final(self).line == old(self).line,
    {
        if self.is_at_end() {
            return false;
        }
        if self.chars[self.current] != expected {
            return false;
        }
        self.advance();
        true
    }

    /// Appends the token of kind `ttype` that spans the characters from the
    /// token's start to the cursor.
    fn add_token(&mut self, ttype: TType)
        requires
            old(self).wf(),
        ensures
            final(self).stepped(
                old(self),
                emit(
                    old(self).src(),
                    ttype@,
                    old(self).start as int,
                    (old(self).current - old(self).start) as nat,
                    old(self).line as nat,
                ),
                Ok(()),
            ),
    {
        let text = self.text(self.start, self.current);
        let token = Token::new(
            ttype,
            text,
            LineInfo::new(self.line, self.start_byte, self.current_byte),
        );
        let ghost before = self.tokens.deep_view();
        self.tokens.push(token);
        assert(self.tokens.deep_view() =~= before.push(token@));
    }

    /// Moves the cursor one character on and returns the character passed.
    fn advance(&mut self) -> (c: char)
        requires
            old(self).wf(),
            old(self).current < old(self).chars.len(),
        ensures
            c == old(self).src()[old(self).current as int],
            final(self).moved(old(self), 1),
            final(self).line == old(self).line,
    {
        let c = self.chars[self.current];
        proof {
            lemma_offset_step(self.chars@, self.current as int);
            lemma_width(c);
            lemma_encode_subrange(self.chars@, self.current + 1, self.chars@.len() as int);
        }
        self.current += 1;
        self.current_byte += utf8_width(c);
        c
    }

    fn is_at_end(&self) -> (at_end: bool)
        ensures
            at_end == (self.current >= self.chars.len()),
    {
        self.current >= self.chars.len()
    }
}

} // verus!
