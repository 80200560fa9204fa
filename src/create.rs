//! Building a new note and the file name it is stored under.
use crate::link::{is_note_name, note_ext};
use crate::metadata::{sha1_hex, Metadata, MetadataModel};
use crate::note::Note;
use vstd::prelude::*;

verus! {

/// Relies on `uuid::Uuid::new_v4` for a random identifier, written out by
/// its `Display`, which is the hyphenated form of 36 characters.
#[verifier::external_body]
fn new_note_id() -> (r: String)
    ensures
        r@.len() == 36,
{
    uuid::Uuid::new_v4().to_string()
}

/// The file name of the note with identifier `id`: the identifier and the
/// note extension.
pub fn note_file_name(id: &str) -> (r: String)
    ensures
        r@ == id@ + note_ext(),
        is_note_name(r@),
{
    let mut r = String::from_str(id);
    r.append(".md");
    proof {
        reveal_strlit(".md");
        assert(r@ =~= id@ + note_ext());
        assert(note_ext() =~= r@.subrange(r@.len() - 3, r@.len() as int));
    }
    r
}

/// A file name for a new note, made from a fresh random identifier.
pub fn fresh_note_file_name() -> (r: String)
    ensures
        is_note_name(r@),
        r@.len() == 39,
{
    let id = new_note_id();
    note_file_name(id.as_str())
}

/// A new note with the given name and body: its hash is the digest of the
/// body and it links to no other note.
pub fn new_note(name: String, content: String) -> (r: Note)
    ensures
        r.metadata.wf(),
        r@.metadata == (MetadataModel {
            name: name@,
            hash: sha1_hex(content@),
            prev: Map::empty(),
        }),
        r@.contents == content@,
{
    let metadata = Metadata::new(name, &content);
    Note::new(metadata, content)
}

/// The hash that a new note gets depends on its body alone: equal bodies
/// give equal hashes.
pub proof fn lemma_hash_depends_on_body(a: Seq<char>, b: Seq<char>)
    requires
        a == b,
    ensures
        sha1_hex(a) == sha1_hex(b),
{
}

} // verus!
