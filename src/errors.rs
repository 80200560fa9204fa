//! Errors of the note store and of the link resolver.
use vstd::prelude::*;

verus! {

/// Errors that concern a single note or the lookup of one.
#[derive(Debug)]
pub enum NoteError {
    /// The stored text does not split into header, metadata and body.
    Deserialization,
    /// No note file name starts with the given prefix.
    DoesNotExist(String),
}

} // verus!
