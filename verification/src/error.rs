//! Positioned diagnostics, shared by the scanner and the parser.

use vstd::prelude::*;
use crate::text::{decimal, push_decimal};

verus! {

/// Where something stood in the source: a 1-based line, and the byte offsets
/// at which it starts and ends.
#[derive(Debug, Clone, Copy, PartialEq, Eq, Structural)]
pub struct LineInfo {
    pub line: usize,
    pub start: usize,
    pub end: usize,
}

impl LineInfo {
    pub fn new(line: usize, start: usize, end: usize) -> (info: LineInfo)
        ensures
            info == (LineInfo { line, start, end }),
    {
        LineInfo { line, start, end }
    }
}

/// A remark attached to a diagnostic.
#[derive(Debug, PartialEq)]
pub enum Note {
    Note(String),
    Expected(String),
}

/// What a [`Note`] says, as a mathematical value.
pub enum NoteView {
    Note(Seq<char>),
    Expected(Seq<char>),
}

impl View for Note {
    type V = NoteView;

    open spec fn view(&self) -> NoteView {
        match self {
            Note::Note(text) => NoteView::Note(text@),
            Note::Expected(text) => NoteView::Expected(text@),
        }
    }
}

impl DeepView for Note {
    type V = NoteView;

    open spec fn deep_view(&self) -> NoteView {
        self@
    }
}

/// One failure of the scanner or the parser.
#[derive(Debug, PartialEq)]
pub struct Error {
    pub line_info: LineInfo,
    pub message: String,
    pub notes: Vec<Note>,
}

/// What an [`Error`] says, as a mathematical value.
pub struct ErrorView {
    pub line_info: LineInfo,
    pub message: Seq<char>,
    pub notes: Seq<NoteView>,
}

impl ErrorView {
    /// A diagnostic without notes.
    pub open spec fn plain(line_info: LineInfo, message: Seq<char>) -> ErrorView {
        ErrorView { line_info, message, notes: Seq::empty() }
    }

    /// The one-line form `line:start-end: message`.
    pub open spec fn display(self) -> Seq<char> {
        decimal(self.line_info.line as nat) + seq![':'] + decimal(self.line_info.start as nat)
            + seq!['-'] + decimal(self.line_info.end as nat) + seq![':', ' '] + self.message
    }
}

impl View for Error {
    type V = ErrorView;

    open spec fn view(&self) -> ErrorView {
        ErrorView {
            line_info: self.line_info,
            message: self.message@,
            notes: self.notes.deep_view(),
        }
    }
}

impl Error {
    pub fn new(line_info: LineInfo, message: String) -> (error: Error)
        ensures
            error.line_info == line_info,
            error.message == message,
            error.notes@.len() == 0,
            error@ == ErrorView::plain(line_info, message@),
    {
        let error = Error { line_info, message, notes: Vec::new() };
        assert(error@.notes =~= Seq::empty());
        error
    }

    pub fn new_with_notes(line_info: LineInfo, message: String, notes: Vec<Note>) -> (error: Error)
        ensures
            error.line_info == line_info,
            error.message == message,
            error.notes == notes,
            error@ == (ErrorView { line_info, message: message@, notes: notes.deep_view() }),
    {
        Error { line_info, message, notes }
    }

    /// Renders the diagnostic as `line:start-end: message`.
    pub fn display(&self) -> (line: String)
        ensures
            line@ == self@.display(),
    {
        let mut line = String::new();
        push_decimal(&mut line, self.line_info.line as u64);
        line.append(":");
        push_decimal(&mut line, self.line_info.start as u64);
        line.append("-");
        push_decimal(&mut line, self.line_info.end as u64);
        line.append(": ");
        line.append(self.message.as_str());
        proof {
            reveal_strlit(":");
            reveal_strlit("-");
            reveal_strlit(": ");
            assert(line@ =~= self@.display());
        }
        line
    }
}

} // verus!
