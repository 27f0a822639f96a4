//! The records of the blog.
use vstd::prelude::*;

verus! {

/// An author; the times are seconds since the epoch.
pub struct Author {
    id: i16,
    name: String,
    created_at: i64,
    updated_at: i64,
}

/// A post, with its author when known; the times are seconds since the
/// epoch.
pub struct Post {
    id: i16,
    title: String,
    body: String,
    author_id: Option<Author>,
    created_at: i64,
    updated_at: i64,
}

} // verus!
