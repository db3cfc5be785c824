//! Errors of the library.

use vstd::prelude::*;
use crate::head::HeadError;

verus! {

/// Why loading a post failed; each variant carries the post's path.
#[derive(Debug)]
pub enum Error {
    /// The post has no blank line separating head and body.
    PostOnlyOnePart(String),
    /// The post's head is empty.
    PostNoHead(String),
    /// The post's body is empty.
    PostNoBody(String),
    /// The post's head could not be read.
    PostHead(String, HeadError),
    /// The post's path names no file.
    PostPathInvalid(String),
}

} // verus!
