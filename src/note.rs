//! A note and its stored text: a delimiter line, the metadata document, a
//! second delimiter line, then the body verbatim.
use crate::errors::NoteError;
use crate::metadata::{Metadata, MetadataModel};
use crate::text::chars_of;
use vstd::prelude::*;

verus! {

broadcast use vstd::string::group_string_axioms;

/// The delimiter line, `---` and a line break.
pub open spec fn delim() -> Seq<char> {
    seq!['-', '-', '-', '\n']
}

/// A delimiter line starts at position `i` of `s`.
pub open spec fn delim_at(s: Seq<char>, i: int) -> bool {
    &&& 0 <= i
    &&& i + 4 <= s.len()
    &&& s[i] == '-'
    &&& s[i + 1] == '-'
    &&& s[i + 2] == '-'
    &&& s[i + 3] == '\n'
}

/// `k` is the first position at or after `from` where a delimiter starts.
pub open spec fn first_delim(s: Seq<char>, from: int, k: int) -> bool {
    &&& from <= k
    &&& delim_at(s, k)
    &&& forall|j: int| from <= j < k ==> !#[trigger] delim_at(s, j)
}

/// No delimiter starts at or after `from`.
pub open spec fn no_delim_from(s: Seq<char>, from: int) -> bool {
    forall|j: int| from <= j ==> !#[trigger] delim_at(s, j)
}

/// Splitting `s` at every delimiter gives exactly three segments, the
/// delimiters standing at `i` and `j`.
pub open spec fn splits_in_three(s: Seq<char>, i: int, j: int) -> bool {
    &&& first_delim(s, 0, i)
    &&& first_delim(s, i + 4, j)
    &&& no_delim_from(s, j + 4)
}

/// The stored text of a note whose metadata document is `front`.
pub open spec fn frame(front: Seq<char>, body: Seq<char>) -> Seq<char> {
    delim() + front + seq!['\n'] + delim() + body
}

/// What a `Note` stands for.
pub struct NoteModel {
    pub metadata: MetadataModel,
    pub contents: Seq<char>,
}

/// A note: its metadata and its body.
pub struct Note {
    /// The note's metadata.
    pub metadata: Metadata,
    /// The body of the note.
    pub contents: String,
}

impl View for Note {
    type V = NoteModel;

    open spec fn view(&self) -> NoteModel {
        NoteModel { metadata: self.metadata@, contents: self.contents@ }
    }
}

/// The first delimiter at or after `from`, if there is one.
fn find_delim(a: &Vec<char>, from: usize) -> (r: Option<usize>)
    ensures
        match r {
            Some(k) => first_delim(a@, from as int, k as int),
            None => no_delim_from(a@, from as int),
        },
{
    let n = a.len();
    let mut k: usize = from;
    while k < n && n - k >= 4
        invariant
            n == a@.len(),
            from <= k,
            forall|j: int| from <= j < k ==> !#[trigger] delim_at(a@, j),
        decreases n - k,
    {
        if a[k] == '-' && a[k + 1] == '-' && a[k + 2] == '-' && a[k + 3] == '\n' {
            return Some(k);
        }
        k = k + 1;
    }
    None
}

impl Note {
    /// A note of the given metadata and body.
    pub fn new(metadata: Metadata, contents: String) -> (r: Self)
        ensures
            r.metadata == metadata,
            r@.contents == contents@,
    {
        Note { metadata, contents }
    }

    /// The body of the note.
    pub fn contents(&self) -> (r: &String)
        ensures
            r@ == self@.contents,
    {
        &self.contents
    }

    /// The stored text of the note, given its metadata written out as the
    /// document `frontmatter`.
    pub fn to_string(&self, frontmatter: &str) -> (r: String)
        ensures
            r@ == frame(frontmatter@, self@.contents),
    {
        let mut out = String::from_str("---\n");
        out.append(frontmatter);
        out.append("\n---\n");
        out.append(self.contents.as_str());
        proof {
            reveal_strlit("---\n");
            reveal_strlit("\n---\n");
            assert(out@ =~= frame(frontmatter@, self@.contents));
        }
        out
    }

    /// Splits stored text into its metadata document and its body. Fails
    /// with `Deserialization` unless the text holds exactly two delimiters.
    pub fn split_source(source: &str) -> (r: Result<(String, String), NoteError>)
        ensures
            match r {
                Ok((m, b)) => exists|i: int, j: int|
                    {
                        &&& splits_in_three(source@, i, j)
                        &&& m@ == source@.subrange(i + 4, j)
                        &&& b@ == source@.subrange(j + 4, source@.len() as int)
                    },
                Err(e) => e is Deserialization && !exists|i: int, j: int|
                    splits_in_three(source@, i, j),
            },
    {
        let a = chars_of(source);
        let n = a.len();
        let i = match find_delim(&a, 0) {
            Some(i) => i,
            None => {
                return Err(NoteError::Deserialization);
            },
        };
        let j = match find_delim(&a, i + 4) {
            Some(j) => j,
            None => {
                proof {
                    assert forall|x: int, y: int| !splits_in_three(source@, x, y) by {
                        if splits_in_three(source@, x, y) {
                            assert(x == i);
                            assert(delim_at(a@, y));
                        }
                    }
                }
                return Err(NoteError::Deserialization);
            },
        };
        match find_delim(&a, j + 4) {
            Some(k) => {
                proof {
                    assert forall|x: int, y: int| !splits_in_three(source@, x, y) by {
                        if splits_in_three(source@, x, y) {
                            assert(x == i);
                            assert(y == j);
                            assert(delim_at(a@, k as int));
                        }
                    }
                }
                Err(NoteError::Deserialization)
            },
            None => {
                let m = source.substring_char(i + 4, j).to_owned();
                let b = source.substring_char(j + 4, n).to_owned();
                assert(splits_in_three(source@, i as int, j as int));
                Ok((m, b))
            },
        }
    }
}

/// Writing a note's text and splitting it again gives back the metadata
/// document, with the line break that closes it, and the body, provided
/// neither holds a delimiter line of its own.
pub proof fn lemma_round_trip(front: Seq<char>, body: Seq<char>)
    requires
        no_delim_from(front + seq!['\n'], 0),
        no_delim_from(body, 0),
    ensures
        splits_in_three(frame(front, body), 0, front.len() + 5 as int),
        frame(front, body).subrange(4, front.len() + 5 as int) == front + seq!['\n'],
        frame(front, body).subrange(front.len() + 9 as int, frame(front, body).len() as int) == body,
{
    let g = front + seq!['\n'];
    let s = frame(front, body);
    let n: int = g.len() as int;
    assert(s =~= delim() + g + delim() + body);
    assert forall|j: int| 4 <= j < n + 4 implies !#[trigger] delim_at(s, j) by {
        if delim_at(s, j) {
            if j + 4 <= n + 4 {
                assert(delim_at(g, j - 4));
            } else {
                assert(s[j + 3] == delim()[j + 3 - n - 4]);
            }
        }
    }
    assert forall|j: int| n + 8 <= j implies !#[trigger] delim_at(s, j) by {
        if delim_at(s, j) {
            assert(delim_at(body, j - n - 8));
        }
    }
    assert(s.subrange(4, n + 4) =~= g);
    assert(s.subrange(n + 8, s.len() as int) =~= body);
}

/// Text with at most one delimiter line does not split into three segments.
pub proof fn lemma_missing_delimiter_rejected(s: Seq<char>)
    requires
        forall|i: int, j: int| delim_at(s, i) && delim_at(s, j) ==> i == j,
    ensures
        !exists|i: int, j: int| splits_in_three(s, i, j),
{
}

} // verus!
