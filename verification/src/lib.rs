//! A solver for a five-letter word-guessing game: per-position feedback
//! about a guess is turned into constraints that narrow a fixed
//! dictionary, round after round, until the game is won, the candidates
//! run out, or six rounds pass.

use vstd::prelude::*;

pub mod filter;
pub mod game;
pub mod hint;
pub mod words;

verus! {

/// `s.push(x)` holds exactly the elements of `s` and `x`.
pub(crate) proof fn lemma_push_contains<A>(s: Seq<A>, x: A)
    ensures
        forall|y: A| #[trigger] s.push(x).contains(y) <==> s.contains(y) || y == x,
{
    assert forall|y: A| #[trigger] s.push(x).contains(y) <==> s.contains(y) || y == x by {
        if s.push(x).contains(y) {
            let i = choose|i: int| 0 <= i < s.push(x).len() && s.push(x)[i] == y;
            if i < s.len() {
                assert(s[i] == y);
            }
        }
        if s.contains(y) {
            let i = choose|i: int| 0 <= i < s.len() && s[i] == y;
            assert(s.push(x)[i] == y);
        }
        if y == x {
            assert(s.push(x)[s.len() as int] == y);
        }
    }
}

/// Linear membership test over a vector of letters.
pub(crate) fn contains_byte(v: &Vec<u8>, x: u8) -> (r: bool)
    ensures
        r == v@.contains(x),
{
    let mut k: usize = 0;
    while k < v.len()
        invariant
            k <= v@.len(),
            forall|m: int| 0 <= m < k ==> v@[m] != x,
        decreases v@.len() - k,
    {
        if v[k] == x {
            return true;
        }
        k = k + 1;
    }
    false
}

/// Element-wise copy of a vector of plain values.
pub(crate) fn copy_vec<T: Copy>(v: &Vec<T>) -> (r: Vec<T>)
    ensures
        r@ == v@,
{
    let mut r: Vec<T> = Vec::new();
    let mut k: usize = 0;
    while k < v.len()
        invariant
            k <= v@.len(),
            r@ == v@.subrange(0, k as int),
        decreases v@.len() - k,
    {
        r.push(v[k]);
        assert(r@ =~= v@.subrange(0, k as int + 1));
        k = k + 1;
    }
    assert(r@ =~= v@);
    r
}

/// A dictionary entry: exactly five lowercase ASCII letters.
pub open spec fn wf_word(w: Seq<u8>) -> bool {
    w.len() == 5 && forall|p: int| 0 <= p < 5 ==> 97 <= #[trigger] w[p] <= 122
}

/// Runtime check that a byte string is a well-formed five-letter word.
pub fn is_wf_word(w: &Vec<u8>) -> (r: bool)
    ensures
        r == wf_word(w@),
{
    if w.len() != 5 {
        return false;
    }
    let mut p: usize = 0;
    while p < 5
        invariant
            0 <= p <= 5,
            w@.len() == 5,
            forall|q: int| 0 <= q < p ==> 97 <= #[trigger] w@[q] <= 122,
        decreases 5 - p,
    {
        let b = w[p];
        if b < 97 || b > 122 {
            return false;
        }
        p = p + 1;
    }
    true
}

/// Byte-wise equality of two words.
pub fn eq_word(a: &Vec<u8>, b: &Vec<u8>) -> (r: bool)
    ensures
        r == (a@ == b@),
{
    if a.len() != b.len() {
        return false;
    }
    let mut k: usize = 0;
    while k < a.len()
        invariant
            k <= a@.len(),
            a@.len() == b@.len(),
            forall|m: int| 0 <= m < k ==> a@[m] == b@[m],
        decreases a@.len() - k,
    {
        if a[k] != b[k] {
            return false;
        }
        k = k + 1;
    }
    assert(a@ =~= b@);
    true
}

/// Does the list hold this word?
pub fn has_word(list: &Vec<Vec<u8>>, w: &Vec<u8>) -> (r: bool)
    ensures
        r == exists|k: int| 0 <= k < list@.len() && #[trigger] list@[k]@ == w@,
{
    let mut j: usize = 0;
    while j < list.len()
        invariant
            j <= list@.len(),
            forall|m: int| 0 <= m < j ==> #[trigger] list@[m]@ != w@,
        decreases list@.len() - j,
    {
        if eq_word(&list[j], w) {
            return true;
        }
        j = j + 1;
    }
    false
}

} // verus!
