//! The errors that the tag parser reports.

use vstd::prelude::*;

verus! {

/// What went wrong at the position where an [`Error`] points.
#[derive(Clone, Copy, PartialEq, Eq, Structural, Debug)]
pub enum ErrorKind {
    /// A `<` that no `>` closes.
    UnclosedTag,
    /// A single `>` outside a tag; `>>` writes a `>`.
    UnescapedGreaterThan,
    /// A `{` placeholder that no `}` closes.
    UnclosedPlaceholder,
    /// An empty tag, or an empty entry in a comma-separated tag.
    EmptyTag,
    /// A tag entry that names no style, color or link.
    UnknownTag,
    /// A closing tag while no tag is open.
    NothingToClose,
    /// A closing tag that differs from the innermost open tag.
    MismatchedCloseTag,
}

/// The message that the library attaches to each kind of error.
pub open spec fn message_of(kind: ErrorKind) -> Seq<char> {
    match kind {
        ErrorKind::UnclosedTag => "unclosed tag: a `>` is missing"@,
        ErrorKind::UnescapedGreaterThan => "unescaped `>`: write `>>` for a literal `>`"@,
        ErrorKind::UnclosedPlaceholder => "unclosed placeholder: a `}` is missing"@,
        ErrorKind::EmptyTag => "empty tag"@,
        ErrorKind::UnknownTag => "unknown tag"@,
        ErrorKind::NothingToClose => "closing tag while no tag is open"@,
        ErrorKind::MismatchedCloseTag => "closing tag does not match the last open tag"@,
    }
}

/// A human-readable explanation attached to an error, with the character of the input it
/// points at.
#[derive(Debug)]
pub struct ErrorDetail {
    /// The first character of the input where the error stands, or nothing at the end of input.
    pub input: String,
    pub message: String,
}

impl ErrorDetail {
    /// A detail that points at the start of `input`: only its first character is kept.
    pub fn new(input: &str, message: String) -> (detail: Self)
        requires
            input@.len() > 0 ==> (input@[0] as u32) < 128,
        ensures
            detail.input@ == input@.take(if input@.len() > 0 { 1int } else { 0int }),
            detail.message@ == message@,
    {
        let mut first = String::new();
        let mut it = input.chars();
        if let Some(c) = it.next() {
            first.push(c);
        }
        proof {
            if input@.len() > 0 {
                assert(first@ =~= input@.take(1));
            } else {
                assert(first@ =~= input@.take(0));
            }
        }
        ErrorDetail { input: first, message }
    }

    /// The text of the detail: its message.
    pub fn to_string(&self) -> (text: String)
        ensures
            text@ == self.message@,
    {
        self.message.clone()
    }
}

/// An error of the tag parser: where it happened (an index into the characters of the input),
/// what kind it is, and an explanation.
#[derive(Debug)]
pub struct Error {
    pub input: usize,
    pub code: ErrorKind,
    pub detail: Option<ErrorDetail>,
}

impl Error {
    pub fn new(input: usize, code: ErrorKind, detail: Option<ErrorDetail>) -> (error: Self)
        ensures
            error.input == input,
            error.code == code,
            error.detail == detail,
    {
        Error { input, code, detail }
    }

    /// The same error, with `detail` in place of its explanation.
    pub fn with_detail(&self, detail: ErrorDetail) -> (error: Self)
        ensures
            error.input == self.input,
            error.code == self.code,
            error.detail == Some(detail),
    {
        Error { input: self.input, code: self.code, detail: Some(detail) }
    }
}

/// `error` is the error `(position, kind)` of the parser on input `s`, with the message of its
/// kind and the character of `s` at `position` as its detail.
pub open spec fn describes(error: Error, s: Seq<char>, failure: (int, ErrorKind)) -> bool {
    &&& error.input == failure.0
    &&& error.code == failure.1
    &&& error.detail matches Some(d) && {
        &&& d.message@ == message_of(failure.1)
        &&& d.input@ == if 0 <= failure.0 < s.len() {
            seq![s[failure.0]]
        } else {
            Seq::empty()
        }
    }
}

/// The message of an error kind.
pub fn message(kind: ErrorKind) -> (m: String)
    ensures
        m@ == message_of(kind),
{
    match kind {
        ErrorKind::UnclosedTag => "unclosed tag: a `>` is missing".to_owned(),
        ErrorKind::UnescapedGreaterThan => "unescaped `>`: write `>>` for a literal `>`".to_owned(),
        ErrorKind::UnclosedPlaceholder => "unclosed placeholder: a `}` is missing".to_owned(),
        ErrorKind::EmptyTag => "empty tag".to_owned(),
        ErrorKind::UnknownTag => "unknown tag".to_owned(),
        ErrorKind::NothingToClose => "closing tag while no tag is open".to_owned(),
        ErrorKind::MismatchedCloseTag => "closing tag does not match the last open tag".to_owned(),
    }
}

/// The error `failure` of the parser on the characters `s`, with its explanation.
pub fn describe(s: &Vec<char>, failure: (usize, ErrorKind)) -> (e: Error)
    ensures
        describes(e, s@, (failure.0 as int, failure.1)),
{
    let mut input = String::new();
    if failure.0 < s.len() {
        input.push(s[failure.0]);
    }
    assert(input@ =~= if 0 <= failure.0 < s@.len() {
        seq![s@[failure.0 as int]]
    } else {
        Seq::<char>::empty()
    });
    Error {
        input: failure.0,
        code: failure.1,
        detail: Some(ErrorDetail { input, message: message(failure.1) }),
    }
}

} // verus!
