//! The metadata header of a note: its name, the digest of its body, and its
//! links to earlier notes, keyed by branch name.
use sha1::Digest;
use vstd::prelude::*;

verus! {

/// The SHA-1 digest of the UTF-8 bytes of a text, written as lowercase hex.
pub uninterp spec fn sha1_hex(s: Seq<char>) -> Seq<char>;

/// Relies on `sha1::Sha1` (through `digest::Digest`) for the digest of the
/// bytes, and on generic-array's `LowerHex`, which writes two lowercase hex
/// digits for each of its 20 bytes.
#[verifier::external_body]
fn digest_hex(content: &String) -> (r: String)
    ensures
        r@ == sha1_hex(content@),
        r@.len() == 40,
{
    let mut hasher = sha1::Sha1::new();
    hasher.update(content.as_bytes());
    format!("{:x}", hasher.finalize())
}

/// The branch-to-target mapping that a list of links describes: each entry
/// sets its branch, and a later entry for a branch replaces an earlier one.
pub open spec fn links_map(s: Seq<(String, String)>) -> Map<Seq<char>, Seq<char>>
    decreases s.len(),
{
    if s.len() == 0 {
        Map::empty()
    } else {
        links_map(s.drop_last()).insert(s.last().0@, s.last().1@)
    }
}

/// No branch name occurs twice in a list of links.
pub open spec fn unique_branches(s: Seq<(String, String)>) -> bool {
    forall|i: int, j: int| 0 <= i < j < s.len() ==> #[trigger] s[i].0@ != #[trigger] s[j].0@
}

/// What a `Metadata` stands for.
pub struct MetadataModel {
    pub name: Seq<char>,
    pub hash: Seq<char>,
    pub prev: Map<Seq<char>, Seq<char>>,
}

/// The metadata of a note. `prev` lists, for each branch name, the file name
/// of the note it points back to; a well-formed value names each branch once.
pub struct Metadata {
    /// The user's name for the note.
    pub name: String,
    /// The hex digest of the note's body when it was created.
    pub hash: String,
    /// Pairs of branch name and target note file name.
    pub prev: Vec<(String, String)>,
}

impl View for Metadata {
    type V = MetadataModel;

    open spec fn view(&self) -> MetadataModel {
        MetadataModel { name: self.name@, hash: self.hash@, prev: links_map(self.prev@) }
    }
}

/// Replacing the target of a branch that occurs once sets that branch in the
/// mapping and leaves the others.
proof fn lemma_links_map_update(s: Seq<(String, String)>, i: int, p: (String, String))
    requires
        unique_branches(s),
        0 <= i < s.len(),
        s[i].0@ == p.0@,
    ensures
        links_map(s.update(i, p)) == links_map(s).insert(p.0@, p.1@),
    decreases s.len(),
{
    let t = s.update(i, p);
    if i == s.len() - 1 {
        assert(t.drop_last() =~= s.drop_last());
        assert(links_map(t) =~= links_map(s).insert(p.0@, p.1@));
    } else {
        assert(t.drop_last() =~= s.drop_last().update(i, p));
        lemma_links_map_update(s.drop_last(), i, p);
        assert(s.last().0@ != p.0@);
        assert(links_map(t) =~= links_map(s).insert(p.0@, p.1@));
    }
}

impl Metadata {
    /// A well-formed value names each branch at most once.
    pub open spec fn wf(&self) -> bool {
        unique_branches(self.prev@)
    }

    /// Whether each branch is named once, so that the value is well formed.
    pub fn has_unique_branches(&self) -> (r: bool)
        ensures
            r == self.wf(),
    {
        let n = self.prev.len();
        let mut i: usize = 0;
        while i < n
            invariant
                n == self.prev@.len(),
                i <= n,
                forall|a: int, b: int|
                    0 <= a < b < n && a < i ==> #[trigger] self.prev@[a].0@ != #[trigger] self.prev@[b].0@,
            decreases n - i,
        {
            let mut j: usize = i + 1;
            while j < n
                invariant
                    n == self.prev@.len(),
                    i < n,
                    i < j <= n,
                    forall|a: int, b: int|
                        0 <= a < b < n && a < i ==> #[trigger] self.prev@[a].0@ != #[trigger] self.prev@[b].0@,
                    forall|b: int| i < b < j ==> self.prev@[i as int].0@ != #[trigger] self.prev@[b].0@,
                decreases n - j,
            {
                if self.prev[i].0 == self.prev[j].0 {
                    return false;
                }
                j = j + 1;
            }
            i = i + 1;
        }
        true
    }

    /// New metadata for a note with the given name and body: the hash is the
    /// digest of the body, and there are no links.
    pub fn new(name: String, content: &String) -> (r: Self)
        ensures
            r.wf(),
            r@.name == name@,
            r@.hash == sha1_hex(content@),
            r@.prev == Map::<Seq<char>, Seq<char>>::empty(),
    {
        let hash = digest_hex(content);
        Metadata { name, hash, prev: Vec::new() }
    }

    /// Points `branch` at `target`, replacing the target it had, if any.
    pub fn insert_prev(&mut self, branch: String, target: String)
        requires
            old(self).wf(),
        ensures
            final(self).wf(),
            final(self)@.name == old(self)@.name,
            final(self)@.hash == old(self)@.hash,
            final(self)@.prev == old(self)@.prev.insert(branch@, target@),
    {
        let mut i: usize = 0;
        while i < self.prev.len()
            invariant
                self.wf(),
                *self == *old(self),
                i <= self.prev@.len(),
                forall|j: int| 0 <= j < i ==> #[trigger] self.prev@[j].0@ != branch@,
            decreases self.prev@.len() - i,
        {
            if self.prev[i].0 == branch {
                let ghost before = self.prev@;
                self.prev.set(i, (branch, target));
                proof {
                    lemma_links_map_update(before, i as int, self.prev@[i as int]);
                    assert(self.prev@ == before.update(i as int, self.prev@[i as int]));
                }
                return;
            }
            i = i + 1;
        }
        let ghost before = self.prev@;
        self.prev.push((branch, target));
        proof {
            assert(self.prev@.drop_last() =~= before);
        }
    }

    /// Metadata from its parts; where `prev` names a branch more than once,
    /// the later entry wins.
    pub fn from_parts(name: String, hash: String, prev: Vec<(String, String)>) -> (r: Self)
        ensures
            r.wf(),
            r@.name == name@,
            r@.hash == hash@,
            r@.prev == links_map(prev@),
    {
        let mut m = Metadata { name, hash, prev: Vec::new() };
        let mut i: usize = 0;
        while i < prev.len()
            invariant
                m.wf(),
                m@.name == name@,
                m@.hash == hash@,
                i <= prev@.len(),
                m@.prev == links_map(prev@.subrange(0, i as int)),
            decreases prev@.len() - i,
        {
            let branch = prev[i].0.clone();
            let target = prev[i].1.clone();
            m.insert_prev(branch, target);
            proof {
                assert(prev@.subrange(0, i + 1).drop_last() =~= prev@.subrange(0, i as int));
            }
            i = i + 1;
        }
        proof {
            assert(prev@.subrange(0, i as int) =~= prev@);
        }
        m
    }
}

} // verus!
