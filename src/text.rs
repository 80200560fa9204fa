//! Character-level helpers on strings: their characters as a vector, and
//! prefix and suffix tests.
use vstd::prelude::*;
use vstd::std_specs::iter::IteratorSpec;

verus! {

broadcast use vstd::string::group_string_axioms;

/// The characters of `s`, in order.
pub fn chars_of(s: &str) -> (r: Vec<char>)
    ensures
        r@ == s@,
{
    let n = s.unicode_len();
    let mut it = s.chars();
    let mut out: Vec<char> = Vec::new();
    let mut i: usize = 0;
    while i < n
        invariant
            n == s@.len(),
            i <= n,
            it.obeys_prophetic_iter_laws(),
            it.remaining() == s@.subrange(i as int, n as int),
            out@ == s@.subrange(0, i as int),
        decreases n - i,
    {
        let ghost before = it;
        let next = it.next();
        proof {
            vstd::string::next_postcondition(&before, &it, next);
        }
        match next {
            Some(c) => {
                out.push(c);
            },
            None => {},
        }
        i = i + 1;
    }
    out
}

/// Whether `a`, from position `start` on, reads `pat`.
fn matches_at(a: &Vec<char>, start: usize, pat: &Vec<char>) -> (r: bool)
    requires
        start + pat@.len() <= a@.len(),
    ensures
        r == (a@.subrange(start as int, start + pat@.len()) == pat@),
{
    let n = a.len();
    let mut k: usize = 0;
    while k < pat.len()
        invariant
            start + pat@.len() <= a@.len(),
            n == a@.len(),
            k <= pat@.len(),
            a@.subrange(start as int, start + k) == pat@.subrange(0, k as int),
        decreases pat@.len() - k,
    {
        if a[start + k] != pat[k] {
            assert(a@.subrange(start as int, start + pat@.len())[k as int] != pat@[k as int]);
            return false;
        }
        assert(a@.subrange(start as int, start + k + 1) =~= a@.subrange(start as int, start + k).push(a@[start + k]));
        assert(pat@.subrange(0, k + 1) =~= pat@.subrange(0, k as int).push(pat@[k as int]));
        k = k + 1;
    }
    assert(pat@.subrange(0, k as int) =~= pat@);
    true
}

/// Whether `s` begins with `prefix`.
pub fn starts_with(s: &str, prefix: &str) -> (r: bool)
    ensures
        r == prefix@.is_prefix_of(s@),
{
    let a = chars_of(s);
    let p = chars_of(prefix);
    if p.len() > a.len() {
        return false;
    }
    let r = matches_at(&a, 0, &p);
    proof {
        if r {
            assert(p@ =~= a@.subrange(0, p@.len() as int));
        } else if p@.is_prefix_of(a@) {
            assert(p@ =~= a@.subrange(0, p@.len() as int));
        }
    }
    r
}

/// Whether `s` ends with `suffix`.
pub fn ends_with(s: &str, suffix: &str) -> (r: bool)
    ensures
        r == suffix@.is_suffix_of(s@),
{
    let a = chars_of(s);
    let p = chars_of(suffix);
    if p.len() > a.len() {
        return false;
    }
    let r = matches_at(&a, a.len() - p.len(), &p);
    proof {
        let lo = a@.len() - p@.len();
        if r {
            assert(p@ =~= a@.subrange(lo, a@.len() as int));
        } else if p@.is_suffix_of(a@) {
            assert(p@ =~= a@.subrange(lo, a@.len() as int));
        }
    }
    r
}

} // verus!
