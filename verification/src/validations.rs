//! Field validation (length bounds, special characters) and the refusals a
//! request can end in.
use vstd::prelude::*;
use vstd::string::*;
use vstd::utf8::encode_utf8;

use crate::middleware::MyError;

verus! {

// ---------------------------------------------------------------------------
// Refusals
// ---------------------------------------------------------------------------

/// A field is shorter than the minimum length.
#[derive(Debug, PartialEq, Eq, Structural, Clone, Copy)]
pub struct TooShortError;

/// A field is longer than the maximum length.
#[derive(Debug, PartialEq, Eq, Structural, Clone, Copy)]
pub struct TooLongError;

/// A field holds a character other than an ASCII letter or digit.
#[derive(Debug, PartialEq, Eq, Structural, Clone, Copy)]
pub struct SpecialCharachtersNotAllowed;

/// The database could not serve the request.
#[derive(Debug, PartialEq, Eq, Structural, Clone, Copy)]
pub struct DatabaseError;

/// A required query parameter is absent.
#[derive(Debug, PartialEq, Eq, Structural, Clone, Copy)]
pub struct MissingParameter;

/// No stored user matches the given credentials.
#[derive(Debug, PartialEq, Eq, Structural, Clone, Copy)]
pub struct NoMatchingUser;

/// Failures of the post and file operations.
#[derive(Debug, PartialEq, Eq, Structural, Clone, Copy)]
pub enum Errors {
    DatabaseError,
    InvalidJson,
    InvalidBase64String,
    InvalidFileType,
    FileNotFound,
}

/// What a request is refused with.
#[derive(Debug, PartialEq, Eq, Structural, Clone, Copy)]
pub enum Rejection {
    TooShort(TooShortError),
    TooLong(TooLongError),
    Database(DatabaseError),
    MissingParameter(MissingParameter),
    NoMatchingUser(NoMatchingUser),
    /// The request matched no route, or the operation gave up without a
    /// more specific reason.
    NotFound,
    FailAuth(crate::middleware::FailAuth),
    Posts(Errors),
    Auth(MyError),
}

// ---------------------------------------------------------------------------
// Regular expressions
// ---------------------------------------------------------------------------

/// Whether `regex::Regex::new` accepts a pattern.
pub uninterp spec fn regex_compiles(pattern: Seq<char>) -> bool;

/// Whether a compiled pattern matches somewhere in a haystack
/// (`regex::Regex::is_match`).
pub uninterp spec fn regex_finds(pattern: Seq<char>, haystack: Seq<char>) -> bool;

/// The pattern `[^a-zA-Z0-9]`: one character that is not an ASCII letter or
/// digit.
pub open spec fn non_alphanumeric_class() -> Seq<char> {
    seq!['[', '^', 'a', '-', 'z', 'A', '-', 'Z', '0', '-', '9', ']']
}

/// An ASCII letter or digit.
pub open spec fn is_ascii_alphanumeric(c: char) -> bool {
    ('a' <= c && c <= 'z') || ('A' <= c && c <= 'Z') || ('0' <= c && c <= '9')
}

/// Some character of `s` is not an ASCII letter or digit.
pub open spec fn has_special_char(s: Seq<char>) -> bool {
    exists|i: int| 0 <= i < s.len() && !is_ascii_alphanumeric(#[trigger] s[i])
}

/// Compiles `pattern` with `regex::Regex::new` and, when that succeeds,
/// searches `haystack` with `regex::Regex::is_match`. Claimed: the result is
/// present exactly when the pattern compiles, and then tells whether the
/// pattern matches somewhere in the haystack. For the negated class
/// `[^a-zA-Z0-9]` the regex syntax documentation gives both plainly: it
/// compiles, and it matches a haystack exactly when one of its characters is
/// none of the listed ranges.
#[verifier::external_body]
fn regex_search(pattern: &str, haystack: &str) -> (found: Option<bool>)
    ensures
        found is Some <==> regex_compiles(pattern@),
        found matches Some(b) ==> b == regex_finds(pattern@, haystack@),
        pattern@ == non_alphanumeric_class() ==> found == Some(has_special_char(haystack@)),
{
    regex::Regex::new(pattern).ok().map(|re| re.is_match(haystack))
}

// ---------------------------------------------------------------------------
// Field checks
// ---------------------------------------------------------------------------

/// Longest accepted field, in bytes.
pub const MAX_FIELD_LEN: usize = 15;

/// Shortest accepted field, in bytes.
pub const MIN_FIELD_LEN: usize = 4;

/// The number of bytes of the UTF-8 encoding of `s` (what `str::len` counts).
pub open spec fn byte_len(s: Seq<char>) -> nat {
    encode_utf8(s).len()
}

/// The verdict on a field: too long above `MAX_FIELD_LEN` bytes, else too
/// short below `MIN_FIELD_LEN` bytes, else accepted.
pub open spec fn field_check(s: Seq<char>) -> Result<(), Rejection> {
    if byte_len(s) > MAX_FIELD_LEN {
        Err(Rejection::TooLong(TooLongError))
    } else if byte_len(s) < MIN_FIELD_LEN {
        Err(Rejection::TooShort(TooShortError))
    } else {
        Ok(())
    }
}

/// The number of bytes of `field`.
fn field_byte_len(field: &str) -> (n: usize)
    ensures
        n == byte_len(field@),
{
    field.as_bytes().len()
}

/// Field validation rules.
pub struct Validations {}

impl Validations {
    /// Accepts a field of `MIN_FIELD_LEN` to `MAX_FIELD_LEN` bytes; a longer
    /// one is refused as too long, a shorter one as too short.
    pub fn validate(field: &str) -> (r: Result<(), Rejection>)
        ensures
            r == field_check(field@),
            r is Ok <==> MIN_FIELD_LEN <= byte_len(field@) <= MAX_FIELD_LEN,
    {
        let max_count = MAX_FIELD_LEN;
        let min_count = MIN_FIELD_LEN;
        if Self::bigger_than_max_charachters(field, max_count) {
            Err(Rejection::TooLong(TooLongError))
        } else if Self::smaller_than_min_charachters(field, min_count) {
            Err(Rejection::TooShort(TooShortError))
        } else {
            Ok(())
        }
    }

    /// Whether `field` has more than `count` bytes.
    pub fn bigger_than_max_charachters(field: &str, count: usize) -> (b: bool)
        ensures
            b == (byte_len(field@) > count),
    {
        field_byte_len(field) > count
    }

    /// Whether `field` has fewer than `count` bytes.
    pub fn smaller_than_min_charachters(field: &str, count: usize) -> (b: bool)
        ensures
            b == (byte_len(field@) < count),
    {
        field_byte_len(field) < count
    }

    /// Whether `field` holds a character that is not an ASCII letter or digit
    /// (a match of `[^a-zA-Z0-9]`).
    pub fn no_special_charachters(field: &str) -> (b: bool)
        ensures
            b == has_special_char(field@),
    {
        let pattern = "[^a-zA-Z0-9]";
        proof {
            reveal_strlit("[^a-zA-Z0-9]");
            assert(pattern@ =~= non_alphanumeric_class());
        }
        match regex_search(pattern, field) {
            Some(found) => found,
            None => {
                proof {
                    assert(false);
                }
                false
            },
        }
    }
}

} // verus!
