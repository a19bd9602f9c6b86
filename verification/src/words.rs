use vstd::prelude::*;
use crate::wf_word;
use crate::copy_vec;
use crate::lemma_push_contains;

verus! {

/// The dictionary together with its (letter, position) index.
pub struct Words {
    /// Dictionary words, in load order.
    pub list: Vec<Vec<u8>>,
    /// `index[l][p]` holds the indices of the words whose letter at
    /// position `p` is the `l`-th lowercase letter.
    pub index: Vec<Vec<Vec<usize>>>,
}

impl Words {
    /// The word stored at index `j`, as a byte sequence.
    pub open spec fn word(self, j: int) -> Seq<u8> {
        self.list@[j]@
    }

    /// Number of dictionary entries.
    pub open spec fn n(self) -> int {
        self.list@.len() as int
    }

    /// Every dictionary entry is a well-formed five-letter word.
    pub open spec fn wf_list(self) -> bool {
        forall|j: int| 0 <= j < self.n() ==> wf_word(#[trigger] self.list@[j]@)
    }

    /// A word index `j` lies in bucket `(l, p)` exactly when the word's
    /// letter at position `p` is the `l`-th lowercase letter.
    pub open spec fn wf_index(self) -> bool {
        &&& self.index@.len() == 26
        &&& forall|l: int| 0 <= l < 26 ==> #[trigger] self.index@[l]@.len() == 5
        &&& forall|l: int, p: int, j: usize|
            0 <= l < 26 && 0 <= p < 5 ==> (#[trigger] self.index@[l]@[p]@.contains(j) <==> j
                < self.n() && self.word(j as int)[p] == 97 + l)
    }

    pub open spec fn wf(self) -> bool {
        self.wf_list() && self.wf_index()
    }

    /// Build the index from a pre-filtered list of five-letter words.
    pub fn new(list: Vec<Vec<u8>>) -> (r: Words)
        requires
            forall|j: int| 0 <= j < list@.len() ==> wf_word(#[trigger] list@[j]@),
        ensures
            r.wf(),
            r.list@ == list@,
    {
        let mut index: Vec<Vec<Vec<usize>>> = Vec::new();
        let mut l: usize = 0;
        while l < 26
            invariant
                l <= 26,
                index@.len() == l,
                forall|j: int| 0 <= j < list@.len() ==> wf_word(#[trigger] list@[j]@),
                forall|l2: int| 0 <= l2 < l ==> #[trigger] index@[l2]@.len() == 5,
                forall|l2: int, p: int, j: usize|
                    0 <= l2 < l && 0 <= p < 5 ==> (#[trigger] index@[l2]@[p]@.contains(j) <==> j
                        < list@.len() && list@[j as int]@[p] == 97 + l2),
            decreases 26 - l,
        {
            let mut row: Vec<Vec<usize>> = Vec::new();
            let mut p: usize = 0;
            while p < 5
                invariant
                    p <= 5,
                    row@.len() == p,
                    l < 26,
                    forall|j: int| 0 <= j < list@.len() ==> wf_word(#[trigger] list@[j]@),
                    forall|p2: int, j: usize|
                        0 <= p2 < p ==> (#[trigger] row@[p2]@.contains(j) <==> j < list@.len()
                            && list@[j as int]@[p2] == 97 + l),
                decreases 5 - p,
            {
                let mut bucket: Vec<usize> = Vec::new();
                let mut j: usize = 0;
                while j < list.len()
                    invariant
                        j <= list@.len(),
                        p < 5,
                        l < 26,
                        forall|j2: int| 0 <= j2 < list@.len() ==> wf_word(#[trigger] list@[j2]@),
                        forall|j2: usize| #[trigger]
                            bucket@.contains(j2) <==> j2 < j && list@[j2 as int]@[p as int] == 97
                                + l,
                    decreases list@.len() - j,
                {
                    let w = &list[j];
                    assert(wf_word(w@));
                    let b = w[p];
                    if b == 97 + (l as u8) {
                        proof {
                            lemma_push_contains(bucket@, j);
                        }
                        bucket.push(j);
                    }
                    j = j + 1;
                }
                row.push(bucket);
                p = p + 1;
            }
            index.push(row);
            l = l + 1;
        }
        Words { list, index }
    }

    /// All indices of words carrying `letter` at `pos`: the index bucket,
    /// or nothing when `letter` is not a lowercase letter.
    pub fn with_letter_at(&self, letter: u8, pos: usize) -> (r: Vec<usize>)
        requires
            self.wf(),
            pos < 5,
        ensures
            forall|j: usize| #[trigger]
                r@.contains(j) <==> j < self.n() && self.word(j as int)[pos as int] == letter,
    {
        if letter < 97 || letter > 122 {
            let r: Vec<usize> = Vec::new();
            assert forall|j: usize| #[trigger]
                r@.contains(j) <==> j < self.n() && self.word(j as int)[pos as int]
                    == letter by {
                if j < self.n() {
                    assert(wf_word(self.list@[j as int]@));
                }
            }
            r
        } else {
            let l = (letter - 97) as usize;
            copy_vec(&self.index[l][pos])
        }
    }

    /// Does the word at index `j` carry `letter` at `pos`?  Answered from
    /// the index bucket alone.
    pub fn at_pos(&self, letter: u8, pos: usize, j: usize) -> (r: bool)
        requires
            self.wf(),
            pos < 5,
            j < self.n(),
        ensures
            r == (self.word(j as int)[pos as int] == letter),
    {
        if letter < 97 || letter > 122 {
            assert(wf_word(self.list@[j as int]@));
            false
        } else {
            let l = (letter - 97) as usize;
            contains_usize(&self.index[l][pos], j)
        }
    }

    /// An arbitrary dictionary word, or `None` when the dictionary is empty.
    pub fn random_word(&self) -> (r: Option<Vec<u8>>)
        ensures
            r is Some <==> self.list@.len() > 0,
            r matches Some(w) ==> exists|k: int| 0 <= k < self.list@.len() && w@ == self.list@[k]@,
    {
        if self.list.len() == 0 {
            None
        } else {
            let n = random_u64();
            let len = self.list.len() as u64;
            let k = (n % len) as usize;
            Some(copy_vec(&self.list[k]))
        }
    }
}

/// Relies on rand::random: draws an arbitrary 64-bit value; nothing is
/// promised of the result.
#[verifier::external_body]
fn random_u64() -> u64 {
    rand::random()
}

/// Linear membership test over a vector of indices.
fn contains_usize(v: &Vec<usize>, x: usize) -> (r: bool)
    ensures
        r == v@.contains(x),
{
    let mut k: usize = 0;
    while k < v.len()
        invariant
            k <= v@.len(),
            forall|m: int| 0 <= m < k ==> v@[m] != x,
        decreases v@.len() - k,
    {
        if v[k] == x {
            return true;
        }
        k = k + 1;
    }
    false
}

} // verus!
