//! What follows the reading of a file: its contents trimmed, and read as a
//! number.
//!
//! A file that does not exist is `None` throughout: the absence of a file
//! tells that the hardware lacks a feature, and is no error.

use vstd::prelude::*;
use vstd::string::*;
use crate::text::{i64_of, parse_i64, parse_u32, parse_u64, trim, trimmed, u32_of, u64_of};

verus! {

/// The contents of a file are no number of the kind asked for.
#[derive(Clone, Copy, Debug, PartialEq, Eq, Structural)]
pub struct ParseError;

/// The contents of a file, without the white space at their ends.
pub fn read(content: Option<&str>) -> (r: Option<String>)
    ensures
        match (content, r) {
            (Some(c), Some(t)) => t@ == trimmed(c@),
            (None, None) => true,
            _ => false,
        },
{
    match content {
        Some(c) => Some(trim(c)),
        None => None,
    }
}

/// The contents of a file as a `u64`: absent for an absent file, an error
/// where the trimmed contents are no such number.
pub fn read_n(content: Option<&str>) -> (r: Result<Option<u64>, ParseError>)
    ensures
        match content {
            None => r == Ok::<Option<u64>, ParseError>(None),
            Some(c) => match u64_of(trimmed(c@)) {
                Some(n) => r == Ok::<Option<u64>, ParseError>(Some(n)),
                None => r.is_err(),
            },
        },
{
    match content {
        None => Ok(None),
        Some(c) => {
            let text = trim(c);
            match parse_u64(text.as_str()) {
                Some(n) => Ok(Some(n)),
                None => Err(ParseError),
            }
        },
    }
}

/// The contents of a file as a `u64`, as [`read_n`] reads them.
pub fn read_u64(content: Option<&str>) -> (r: Result<Option<u64>, ParseError>)
    ensures
        match content {
            None => r == Ok::<Option<u64>, ParseError>(None),
            Some(c) => match u64_of(trimmed(c@)) {
                Some(n) => r == Ok::<Option<u64>, ParseError>(Some(n)),
                None => r.is_err(),
            },
        },
{
    read_n(content)
}

/// The contents of a file as a `u32`.
pub fn read_u32(content: Option<&str>) -> (r: Result<Option<u32>, ParseError>)
    ensures
        match content {
            None => r == Ok::<Option<u32>, ParseError>(None),
            Some(c) => match u32_of(trimmed(c@)) {
                Some(n) => r == Ok::<Option<u32>, ParseError>(Some(n)),
                None => r.is_err(),
            },
        },
{
    match content {
        None => Ok(None),
        Some(c) => {
            let text = trim(c);
            match parse_u32(text.as_str()) {
                Some(n) => Ok(Some(n)),
                None => Err(ParseError),
            }
        },
    }
}

/// The contents of a file as an `i64`.
pub fn read_i64(content: Option<&str>) -> (r: Result<Option<i64>, ParseError>)
    ensures
        match content {
            None => r == Ok::<Option<i64>, ParseError>(None),
            Some(c) => match i64_of(trimmed(c@)) {
                Some(n) => r == Ok::<Option<i64>, ParseError>(Some(n)),
                None => r.is_err(),
            },
        },
{
    match content {
        None => Ok(None),
        Some(c) => {
            let text = trim(c);
            match parse_i64(text.as_str()) {
                Some(n) => Ok(Some(n)),
                None => Err(ParseError),
            }
        },
    }
}

} // verus!
