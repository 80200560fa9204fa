//! Finding notes by the start of their file names, and pointing a note's
//! branch at another note.
use crate::errors::NoteError;
use crate::metadata::MetadataModel;
use crate::note::{Note, NoteModel};
use crate::text::{ends_with, starts_with};
use vstd::prelude::*;

verus! {

/// The extension of a note file.
pub open spec fn note_ext() -> Seq<char> {
    seq!['.', 'm', 'd']
}

/// A directory entry of this name is a note file.
pub open spec fn is_note_name(s: Seq<char>) -> bool {
    note_ext().is_suffix_of(s)
}

/// The views of a list of strings.
pub open spec fn names_view(v: Seq<String>) -> Seq<Seq<char>> {
    v.map_values(|s: String| s@)
}

/// The first name in `names` that starts with `prefix`, if any.
pub open spec fn resolve(names: Seq<Seq<char>>, prefix: Seq<char>) -> Option<Seq<char>>
    decreases names.len(),
{
    if names.len() == 0 {
        None
    } else if prefix.is_prefix_of(names[0]) {
        Some(names[0])
    } else {
        resolve(names.drop_first(), prefix)
    }
}

/// The branch name `"default"`.
pub open spec fn default_branch() -> Seq<char> {
    seq!['d', 'e', 'f', 'a', 'u', 'l', 't']
}

/// The branch that a link goes under: the one given, else `"default"`.
pub open spec fn branch_name(branch: Option<Seq<char>>) -> Seq<char> {
    match branch {
        Some(b) => b,
        None => default_branch(),
    }
}

/// The view of an optional string.
pub open spec fn opt_view(o: Option<String>) -> Option<Seq<char>> {
    match o {
        Some(s) => Some(s@),
        None => None,
    }
}

/// A note after its branch `branch` (or `"default"`) is pointed at `target`.
pub open spec fn linked(n: NoteModel, branch: Option<Seq<char>>, target: Seq<char>) -> NoteModel {
    NoteModel {
        metadata: MetadataModel {
            prev: n.metadata.prev.insert(branch_name(branch), target),
            ..n.metadata
        },
        ..n
    }
}

/// The entries of a directory listing that are note files, in listing order.
pub fn select_note_names(entries: &Vec<String>) -> (r: Vec<String>)
    ensures
        names_view(r@) == names_view(entries@).filter(|s: Seq<char>| is_note_name(s)),
{
    let mut out: Vec<String> = Vec::new();
    let mut i: usize = 0;
    while i < entries.len()
        invariant
            i <= entries@.len(),
            names_view(out@) == names_view(entries@.subrange(0, i as int)).filter(
                |s: Seq<char>| is_note_name(s),
            ),
        decreases entries@.len() - i,
    {
        let keep = ends_with(entries[i].as_str(), ".md");
        proof {
            reveal_strlit(".md");
            let pred = |s: Seq<char>| is_note_name(s);
            let before = names_view(entries@.subrange(0, i as int));
            assert(names_view(entries@.subrange(0, i + 1)) =~= before.push(entries@[i as int]@));
            before.lemma_filter_push(entries@[i as int]@, pred);
        }
        if keep {
            let ghost old_out = out@;
            out.push(entries[i].clone());
            proof {
                assert(names_view(out@) =~= names_view(old_out).push(entries@[i as int]@));
            }
        }
        i = i + 1;
    }
    proof {
        assert(entries@.subrange(0, i as int) =~= entries@);
    }
    out
}

/// The first of `names` that starts with `prefix`; `DoesNotExist(prefix)`
/// when none does.
pub fn resolve_prefix(names: &Vec<String>, prefix: &str) -> (r: Result<String, NoteError>)
    ensures
        match r {
            Ok(n) => resolve(names_view(names@), prefix@) == Some(n@),
            Err(e) => resolve(names_view(names@), prefix@) is None && e is DoesNotExist
                && e->DoesNotExist_0@ == prefix@,
        },
{
    let ghost all = names_view(names@);
    let mut i: usize = 0;
    assert(all.skip(0) =~= all);
    while i < names.len()
        invariant
            i <= names@.len(),
            all == names_view(names@),
            resolve(all, prefix@) == resolve(all.skip(i as int), prefix@),
        decreases names@.len() - i,
    {
        let ghost rest = all.skip(i as int);
        assert(rest[0] == names@[i as int]@);
        if starts_with(names[i].as_str(), prefix) {
            return Ok(names[i].clone());
        }
        assert(rest.drop_first() =~= all.skip(i + 1));
        i = i + 1;
    }
    assert(all.skip(i as int).len() == 0);
    Err(NoteError::DoesNotExist(prefix.to_owned()))
}

/// The file names of the source and the target of a link: the first note
/// name that starts with each prefix. The source is resolved first.
pub fn resolve_link(names: &Vec<String>, source: &str, target: &str) -> (r: Result<
    (String, String),
    NoteError,
>)
    ensures
        match r {
            Ok((s, t)) => resolve(names_view(names@), source@) == Some(s@) && resolve(
                names_view(names@),
                target@,
            ) == Some(t@),
            Err(e) => e is DoesNotExist && if resolve(names_view(names@), source@) is None {
                e->DoesNotExist_0@ == source@
            } else {
                resolve(names_view(names@), target@) is None && e->DoesNotExist_0@ == target@
            },
        },
{
    let s = resolve_prefix(names, source)?;
    let t = resolve_prefix(names, target)?;
    Ok((s, t))
}

/// Points the note's branch (`"default"` when none is given) at `target`,
/// replacing the branch's earlier target.
pub fn apply_link(note: &mut Note, target: String, branch: Option<String>)
    requires
        old(note).metadata.wf(),
    ensures
        final(note).metadata.wf(),
        final(note)@ == linked(old(note)@, opt_view(branch), target@),
{
    let b = match branch {
        Some(name) => name,
        None => String::from_str("default"),
    };
    proof {
        reveal_strlit("default");
        assert(b@ =~= branch_name(opt_view(branch)));
    }
    note.metadata.insert_prev(b, target);
    assert(note@.metadata == linked(old(note)@, opt_view(branch), target@).metadata);
}

/// Linking twice with the same target and branch leaves the branch pointing
/// at that target, as one link does.
pub proof fn lemma_link_idempotent(n: NoteModel, branch: Option<Seq<char>>, target: Seq<char>)
    ensures
        linked(linked(n, branch, target), branch, target) == linked(n, branch, target),
        linked(n, branch, target).metadata.prev[branch_name(branch)] == target,
{
    assert(linked(linked(n, branch, target), branch, target).metadata.prev =~= linked(
        n,
        branch,
        target,
    ).metadata.prev);
}

/// A second link on the same branch replaces the first target entirely.
pub proof fn lemma_link_overwrites(
    n: NoteModel,
    branch: Option<Seq<char>>,
    first: Seq<char>,
    second: Seq<char>,
)
    ensures
        linked(linked(n, branch, first), branch, second) == linked(n, branch, second),
        linked(linked(n, branch, first), branch, second).metadata.prev[branch_name(branch)]
            == second,
{
    assert(linked(linked(n, branch, first), branch, second).metadata.prev =~= linked(
        n,
        branch,
        second,
    ).metadata.prev);
}

/// Linking without a branch is linking under the branch `"default"`.
pub proof fn lemma_default_branch(n: NoteModel, target: Seq<char>)
    ensures
        linked(n, None, target) == linked(n, Some(default_branch()), target),
{
}

} // verus!
