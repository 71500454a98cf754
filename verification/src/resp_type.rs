//! Values of the wire protocol and the reading of their first line.
//!
//! A value starts with a line whose first character says what it is and whose
//! rest, for a text or an array, is a size: the text follows on the next line,
//! the array's elements follow as values of their own.

use crate::text::first_char;
use crate::text::first_of;
use crate::text::parse_u64;
use crate::text::parsed_u64;
use crate::text::rest_of;
use crate::text::skip_first_char;
use crate::text::trim_end;
use crate::text::trimmed_end;
use vstd::prelude::*;

verus! {

/// A value of the wire protocol. Numbers with a fraction and keyed
/// collections are not represented.
#[derive(Debug)]
pub enum RespType {
    SimpleString(String),
    SimpleError(String),
    Integer(i64),
    /// A text with the size that its first line announced.
    BulkString(usize, String),
    Array(Vec<RespType>),
    Null,
    Boolean(bool),
    BulkError(usize, String),
    VerbatimString(usize, String, String),
    Push(usize),
}

/// What the first line of a value announces.
#[derive(Debug, PartialEq, Eq, Clone, Copy, Structural)]
pub enum Header {
    /// A text of this size follows on the next line.
    BulkString(usize),
    /// This many values follow.
    Array(usize),
}

/// Why the first line of a value could not be read.
#[derive(Debug, PartialEq, Eq, Clone, Copy, Structural)]
pub enum ParseError {
    /// The line is empty: the connection has ended.
    EmptyCommand,
    /// The line starts a kind of value that is not read.
    NotImplemented(char),
    /// What follows the first character is not a size.
    InvalidSize,
}

/// The size that a first line holds after its first character, where the
/// line, without its trailing whitespace, spells one that fits in a `usize`.
pub open spec fn size_of_line(line: Seq<char>) -> Option<usize> {
    match parsed_u64(rest_of(trimmed_end(line))) {
        Some(n) => if n <= usize::MAX {
            Some(n as usize)
        } else {
            None
        },
        None => None,
    }
}

/// What a first line announces: a text for `$`, an array for `*`.
pub open spec fn header_of_line(line: Seq<char>) -> Result<Header, ParseError> {
    match first_of(line) {
        None => Err(ParseError::EmptyCommand),
        Some(c) => if c == '$' {
            match size_of_line(line) {
                Some(size) => Ok(Header::BulkString(size)),
                None => Err(ParseError::InvalidSize),
            }
        } else if c == '*' {
            match size_of_line(line) {
                Some(size) => Ok(Header::Array(size)),
                None => Err(ParseError::InvalidSize),
            }
        } else {
            Err(ParseError::NotImplemented(c))
        },
    }
}

impl RespType {
    /// Reads the size from a first line: trailing whitespace and the first
    /// character are dropped, and the rest is read as a number.
    pub fn parse_size(command: &str) -> (r: Result<usize, ParseError>)
        ensures
            r == (match size_of_line(command@) {
                Some(size) => Ok::<usize, ParseError>(size),
                None => Err::<usize, ParseError>(ParseError::InvalidSize),
            }),
    {
        match parse_u64(skip_first_char(trim_end(command))) {
            Some(n) => {
                if n <= usize::MAX as u64 {
                    Ok(n as usize)
                } else {
                    Err(ParseError::InvalidSize)
                }
            },
            None => Err(ParseError::InvalidSize),
        }
    }

    /// Reads the first line of a value.
    pub fn parse_header(line: &str) -> (r: Result<Header, ParseError>)
        ensures
            r == header_of_line(line@),
    {
        match first_char(line) {
            None => Err(ParseError::EmptyCommand),
            Some(c) => {
                if c == '$' {
                    match RespType::parse_size(line) {
                        Ok(size) => Ok(Header::BulkString(size)),
                        Err(e) => Err(e),
                    }
                } else if c == '*' {
                    match RespType::parse_size(line) {
                        Ok(size) => Ok(Header::Array(size)),
                        Err(e) => Err(e),
                    }
                } else {
                    Err(ParseError::NotImplemented(c))
                }
            },
        }
    }
}

} // verus!
