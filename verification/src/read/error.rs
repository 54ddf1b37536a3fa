use vstd::prelude::*;

verus! {

/// The low-level reason a parsing step rejected its input.
#[derive(Debug, Clone, Copy, PartialEq, Eq)]
pub enum ErrorKind {
    /// A fixed tag (the magic) did not match.
    Tag,
    /// A header field held a value that the archive kind does not allow.
    MapOpt,
    /// None of several alternatives matched.
    Alt,
    /// A byte run that must not start with a terminator did.
    IsNot,
    /// A repeated item did not match at least once, or consumed nothing.
    Many1,
    /// The input ended before a fixed-width field.
    Eof,
}

/// Why an archive could not be read.
#[derive(Debug, PartialEq, Eq)]
pub enum ParserErrorKind {
    /// An entry points outside the archive, or the header size is out of range.
    InvalidOffset,
    /// The magic is not that of any archive kind.
    InvalidMagic(String),
    /// The header's mode does not match the kind of archive being read.
    InvalidMode { expected: u32, found: u32 },
    /// The header's format version does not match the kind of archive being read.
    InvalidVersion { expected: u32, found: u32 },
    /// An entry name is empty, or no NUL byte ends it.
    StringOverflow,
    /// Any other rejection.
    Other(ErrorKind),
}

/// A rejection together with the input at which it happened.
#[derive(Debug)]
pub struct ParserError<'a>(pub &'a [u8], pub ParserErrorKind);

/// How a parse failed: `Error` lets an alternative or a repetition go on,
/// `Failure` ends the whole read.
#[derive(Debug)]
pub enum ReadError<'a> {
    Error(ParserError<'a>),
    Failure(ParserError<'a>),
}

impl<'a> ParserError<'a> {
    /// The error for `input` rejected for reason `kind`.
    pub fn from_error_kind(input: &'a [u8], kind: ErrorKind) -> (r: Self)
        ensures
            r == ParserError(input, ParserErrorKind::Other(kind)),
    {
        ParserError(input, ParserErrorKind::Other(kind))
    }

    /// Adding the context of an enclosing parser keeps the inner error as it is.
    pub fn append(_input: &'a [u8], _kind: ErrorKind, other: Self) -> (r: Self)
        ensures
            r == other,
    {
        other
    }
}

impl<'a> vstd::std_specs::convert::FromSpecImpl<(&'a [u8], ErrorKind)> for ParserError<'a> {
    open spec fn obeys_from_spec() -> bool {
        true
    }

    open spec fn from_spec(v: (&'a [u8], ErrorKind)) -> Self {
        ParserError(v.0, ParserErrorKind::Other(v.1))
    }
}

impl<'a> From<(&'a [u8], ErrorKind)> for ParserError<'a> {
    fn from(v: (&'a [u8], ErrorKind)) -> (r: Self) {
        Self::from_error_kind(v.0, v.1)
    }
}

} // verus!
