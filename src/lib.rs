//! A note store: notes are a metadata header and a body, kept one per file
//! and linked to earlier notes by named branches.
pub mod args;
pub mod create;
pub mod errors;
pub mod link;
pub mod metadata;
pub mod note;
pub mod text;
