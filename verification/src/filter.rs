use vstd::prelude::*;
use crate::hint::Hint;
use crate::words::Words;
use crate::contains_byte;
use crate::copy_vec;
use crate::lemma_push_contains;
use crate::wf_word;

verus! {

/// Stage one of the filter: at every position not pinned by `CorrectPos`,
/// the word carries no letter excluded so far.
pub open spec fn excluded_ok(w: Seq<u8>, hints: Seq<Hint>, excl: Seq<u8>) -> bool {
    forall|p: int| 0 <= p < 5 && !((#[trigger] hints[p]) is CorrectPos) ==> !excl.contains(w[p])
}

/// Stage two: the word carries each pinned letter at its pinned position.
pub open spec fn correct_ok(w: Seq<u8>, hints: Seq<Hint>) -> bool {
    forall|p: int| 0 <= p < 5 ==> ((#[trigger] hints[p]) matches Hint::CorrectPos(c) ==> w[p] == c)
}

/// A position may witness a misplaced letter unless a different letter is
/// pinned there.
pub open spec fn open_for(hints: Seq<Hint>, p: int, letter: u8) -> bool {
    hints[p] matches Hint::CorrectPos(d) ==> d == letter
}

/// The misplaced letter of hint position `i` occurs somewhere legitimate:
/// at another position where no different letter is pinned.
pub open spec fn wrong_ok_at(w: Seq<u8>, hints: Seq<Hint>, i: int, letter: u8) -> bool {
    exists|p: int| 0 <= p < 5 && p != i && w[p] == letter && #[trigger] open_for(hints, p, letter)
}

/// Stage three: every misplaced letter occurs somewhere legitimate.
pub open spec fn wrong_ok(w: Seq<u8>, hints: Seq<Hint>) -> bool {
    forall|i: int|
        0 <= i < 5 ==> ((#[trigger] hints[i]) matches Hint::WrongPos(c) ==> wrong_ok_at(
            w,
            hints,
            i,
            c,
        ))
}

/// A word consistent with a round's feedback and the letters excluded so far.
pub open spec fn consistent(w: Seq<u8>, hints: Seq<Hint>, excl: Seq<u8>) -> bool {
    excluded_ok(w, hints, excl) && correct_ok(w, hints) && wrong_ok(w, hints)
}

/// The dictionary entries consistent with the feedback, in dictionary order.
pub open spec fn candidates_spec(dict: Seq<Seq<u8>>, hints: Seq<Hint>, excl: Seq<u8>) -> Seq<
    Seq<u8>,
>
    decreases dict.len(),
{
    if dict.len() == 0 {
        Seq::empty()
    } else {
        let rest = candidates_spec(dict.drop_last(), hints, excl);
        if consistent(dict.last(), hints, excl) {
            rest.push(dict.last())
        } else {
            rest
        }
    }
}

/// A list of words as a sequence of byte sequences.
pub open spec fn views(list: Seq<Vec<u8>>) -> Seq<Seq<u8>> {
    Seq::new(list.len(), |k: int| list[k]@)
}

/// Stage one, decided at run time for the word at index `j`.
fn check_excluded(words: &Words, j: usize, hints: &Vec<Hint>, excl: &Vec<u8>) -> (r: bool)
    requires
        words.wf(),
        j < words.n(),
        hints@.len() == 5,
    ensures
        r == excluded_ok(words.word(j as int), hints@, excl@),
{
    let w = &words.list[j];
    assert(wf_word(w@));
    let mut p: usize = 0;
    while p < 5
        invariant
            p <= 5,
            w@.len() == 5,
            w@ == words.word(j as int),
            hints@.len() == 5,
            forall|q: int|
                0 <= q < p ==> ((#[trigger] hints@[q]) is CorrectPos || !excl@.contains(w@[q])),
        decreases 5 - p,
    {
        let pinned = match hints[p] {
            Hint::CorrectPos(_) => true,
            _ => false,
        };
        if !pinned {
            if contains_byte(excl, w[p]) {
                proof {
                    assert(!((hints@[p as int]) is CorrectPos));
                    assert(excl@.contains(words.word(j as int)[p as int]));
                    assert(!excluded_ok(words.word(j as int), hints@, excl@));
                }
                return false;
            }
        }
        p = p + 1;
    }
    true
}

/// Stage two, decided at run time through the index buckets.
fn check_correct(words: &Words, j: usize, hints: &Vec<Hint>) -> (r: bool)
    requires
        words.wf(),
        j < words.n(),
        hints@.len() == 5,
    ensures
        r == correct_ok(words.word(j as int), hints@),
{
    let mut p: usize = 0;
    while p < 5
        invariant
            p <= 5,
            words.wf(),
            j < words.n(),
            hints@.len() == 5,
            forall|q: int|
                0 <= q < p ==> ((#[trigger] hints@[q]) matches Hint::CorrectPos(c) ==> words.word(
                    j as int,
                )[q] == c),
        decreases 5 - p,
    {
        match hints[p] {
            Hint::CorrectPos(c) => {
                if !words.at_pos(c, p, j) {
                    assert(!correct_ok(words.word(j as int), hints@));
                    return false;
                }
            },
            _ => {},
        }
        p = p + 1;
    }
    true
}

/// Search a legitimate position for the misplaced letter of hint
/// position `i`.
fn search_wrong(words: &Words, j: usize, hints: &Vec<Hint>, i: usize, letter: u8) -> (r: bool)
    requires
        words.wf(),
        j < words.n(),
        hints@.len() == 5,
    ensures
        r == wrong_ok_at(words.word(j as int), hints@, i as int, letter),
{
    let w = &words.list[j];
    assert(wf_word(w@));
    let mut p: usize = 0;
    while p < 5
        invariant
            p <= 5,
            w@.len() == 5,
            w@ == words.word(j as int),
            hints@.len() == 5,
            forall|q: int|
                0 <= q < p ==> !(q != i && w@[q] == letter && #[trigger] open_for(
                    hints@,
                    q,
                    letter,
                )),
        decreases 5 - p,
    {
        if p != i && w[p] == letter {
            let open = match hints[p] {
                Hint::CorrectPos(d) => d == letter,
                _ => true,
            };
            if open {
                assert(open_for(hints@, p as int, letter));
                assert(wrong_ok_at(words.word(j as int), hints@, i as int, letter));
                return true;
            }
        }
        p = p + 1;
    }
    assert(!wrong_ok_at(words.word(j as int), hints@, i as int, letter));
    false
}

/// Stage three, decided at run time for the word at index `j`.
fn check_wrong(words: &Words, j: usize, hints: &Vec<Hint>) -> (r: bool)
    requires
        words.wf(),
        j < words.n(),
        hints@.len() == 5,
    ensures
        r == wrong_ok(words.word(j as int), hints@),
{
    let mut p: usize = 0;
    while p < 5
        invariant
            p <= 5,
            words.wf(),
            j < words.n(),
            hints@.len() == 5,
            forall|q: int|
                0 <= q < p ==> ((#[trigger] hints@[q]) matches Hint::WrongPos(c) ==> wrong_ok_at(
                    words.word(j as int),
                    hints@,
                    q,
                    c,
                )),
        decreases 5 - p,
    {
        match hints[p] {
            Hint::WrongPos(c) => {
                if !search_wrong(words, j, hints, p, c) {
                    assert(!wrong_ok(words.word(j as int), hints@));
                    return false;
                }
            },
            _ => {},
        }
        p = p + 1;
    }
    true
}

/// Recompute the candidate set from the whole dictionary: the words that
/// pass the exclusion stage, carry every pinned letter, and hold every
/// misplaced letter at a legitimate position.
pub fn filter_candidates(words: &Words, hints: &Vec<Hint>, excl: &Vec<u8>) -> (r: Vec<Vec<u8>>)
    requires
        words.wf(),
        hints@.len() == 5,
    ensures
        views(r@) == candidates_spec(views(words.list@), hints@, excl@),
{
    let ghost dict = views(words.list@);
    let mut out: Vec<Vec<u8>> = Vec::new();
    let mut j: usize = 0;
    while j < words.list.len()
        invariant
            j <= words.list@.len(),
            words.wf(),
            hints@.len() == 5,
            dict == views(words.list@),
            views(out@) == candidates_spec(dict.subrange(0, j as int), hints@, excl@),
        decreases words.list@.len() - j,
    {
        let keep = check_excluded(words, j, hints, excl) && check_correct(words, j, hints)
            && check_wrong(words, j, hints);
        proof {
            let pre = dict.subrange(0, j as int);
            let pre1 = dict.subrange(0, j as int + 1);
            assert(pre1.drop_last() =~= pre);
            assert(pre1.last() == words.word(j as int));
            assert(keep == consistent(words.word(j as int), hints@, excl@));
        }
        let ghost prev = views(out@);
        if keep {
            let w = copy_vec(&words.list[j]);
            out.push(w);
            proof {
                assert(views(out@) =~= prev.push(words.word(j as int)));
            }
        }
        j = j + 1;
    }
    proof {
        assert(dict.subrange(0, words.list@.len() as int) =~= dict);
    }
    out
}

/// A word stands among the candidates exactly when it stands in the
/// dictionary and is consistent with the feedback.
pub proof fn lemma_candidates_membership(dict: Seq<Seq<u8>>, hints: Seq<Hint>, excl: Seq<u8>)
    ensures
        forall|w: Seq<u8>| #[trigger]
            candidates_spec(dict, hints, excl).contains(w) <==> dict.contains(w) && consistent(
                w,
                hints,
                excl,
            ),
    decreases dict.len(),
{
    if dict.len() == 0 {
    } else {
        let dl = dict.drop_last();
        let la = dict.last();
        lemma_candidates_membership(dl, hints, excl);
        lemma_push_contains(dl, la);
        assert(dl.push(la) =~= dict);
        if consistent(la, hints, excl) {
            lemma_push_contains(candidates_spec(dl, hints, excl), la);
        }
        assert forall|w: Seq<u8>| #[trigger]
            candidates_spec(dict, hints, excl).contains(w) <==> dict.contains(w) && consistent(
            w,
            hints,
            excl,
        ) by {
            assert(dict.contains(w) <==> dl.contains(w) || w == la);
            if consistent(la, hints, excl) {
                assert(candidates_spec(dict, hints, excl) == candidates_spec(
                    dl,
                    hints,
                    excl,
                ).push(la));
                assert(candidates_spec(dict, hints, excl).contains(w) <==> candidates_spec(
                    dl,
                    hints,
                    excl,
                ).contains(w) || w == la);
            } else {
                assert(candidates_spec(dict, hints, excl) == candidates_spec(dl, hints, excl));
            }
        }
    }
}

/// Filter soundness: every candidate the filter keeps stands in the
/// dictionary and is consistent with every hint of the round.
pub proof fn lemma_filter_soundness(dict: Seq<Seq<u8>>, hints: Seq<Hint>, excl: Seq<u8>)
    ensures
        forall|w: Seq<u8>| #[trigger]
            candidates_spec(dict, hints, excl).contains(w) ==> dict.contains(w) && consistent(
                w,
                hints,
                excl,
            ),
{
    lemma_candidates_membership(dict, hints, excl);
}

/// A word consistent under the larger exclusion set is consistent under
/// the smaller one.
proof fn lemma_consistent_antitone(w: Seq<u8>, hints: Seq<Hint>, excl1: Seq<u8>, excl2: Seq<u8>)
    requires
        forall|l: u8| #[trigger] excl1.contains(l) ==> excl2.contains(l),
        consistent(w, hints, excl2),
    ensures
        consistent(w, hints, excl1),
{
    assert forall|p: int| 0 <= p < 5 && !((#[trigger] hints[p]) is CorrectPos) implies !excl1.contains(
        w[p],
    ) by {
        assert(!excl2.contains(w[p]));
    }
}

/// Monotonic narrowing: growing the set of excluded letters never grows
/// the candidate set, neither in membership nor in size.
pub proof fn lemma_monotonic_narrowing(
    dict: Seq<Seq<u8>>,
    hints: Seq<Hint>,
    excl1: Seq<u8>,
    excl2: Seq<u8>,
)
    requires
        forall|l: u8| #[trigger] excl1.contains(l) ==> excl2.contains(l),
    ensures
        candidates_spec(dict, hints, excl2).len() <= candidates_spec(dict, hints, excl1).len(),
        forall|w: Seq<u8>| #[trigger]
            candidates_spec(dict, hints, excl2).contains(w) ==> candidates_spec(
                dict,
                hints,
                excl1,
            ).contains(w),
    decreases dict.len(),
{
    lemma_candidates_membership(dict, hints, excl1);
    lemma_candidates_membership(dict, hints, excl2);
    assert forall|w: Seq<u8>| #[trigger]
        candidates_spec(dict, hints, excl2).contains(w) implies candidates_spec(
        dict,
        hints,
        excl1,
    ).contains(w) by {
        lemma_consistent_antitone(w, hints, excl1, excl2);
    }
    if dict.len() > 0 {
        lemma_monotonic_narrowing(dict.drop_last(), hints, excl1, excl2);
        if consistent(dict.last(), hints, excl2) {
            lemma_consistent_antitone(dict.last(), hints, excl1, excl2);
        }
    }
}

/// The candidate set never outgrows the dictionary.
pub proof fn lemma_candidates_within_dictionary(dict: Seq<Seq<u8>>, hints: Seq<Hint>, excl: Seq<u8>)
    ensures
        candidates_spec(dict, hints, excl).len() <= dict.len(),
        forall|w: Seq<u8>| #[trigger]
            candidates_spec(dict, hints, excl).contains(w) ==> dict.contains(w),
    decreases dict.len(),
{
    lemma_candidates_membership(dict, hints, excl);
    if dict.len() > 0 {
        lemma_candidates_within_dictionary(dict.drop_last(), hints, excl);
    }
}

/// The judge's true feedback for `guess` against `target`: the letter is
/// pinned where it matches, misplaced where it occurs elsewhere, and
/// excluded where it does not occur at all.
pub open spec fn true_hints(guess: Seq<u8>, target: Seq<u8>) -> Seq<Hint> {
    Seq::new(
        5,
        |i: int|
            if target[i] == guess[i] {
                Hint::CorrectPos(guess[i])
            } else if target.contains(guess[i]) {
                Hint::WrongPos(guess[i])
            } else {
                Hint::Excluded
            },
    )
}

/// Truthful feedback never incriminates the target itself: as long as
/// every letter excluded so far is absent from the target, the target is
/// consistent with its own true feedback.
pub proof fn lemma_target_consistent(guess: Seq<u8>, target: Seq<u8>, excl: Seq<u8>)
    requires
        wf_word(guess),
        wf_word(target),
        forall|l: u8| #[trigger] excl.contains(l) ==> !target.contains(l),
    ensures
        consistent(target, true_hints(guess, target), excl),
{
    let hints = true_hints(guess, target);
    assert forall|p: int| 0 <= p < 5 && !((#[trigger] hints[p]) is CorrectPos) implies !excl.contains(
        target[p],
    ) by {
        assert(target.contains(target[p]));
    }
    assert(correct_ok(target, hints));
    assert forall|i: int|
        0 <= i < 5 implies ((#[trigger] hints[i]) matches Hint::WrongPos(c) ==> wrong_ok_at(
        target,
        hints,
        i,
        c,
    )) by {
        match hints[i] {
            Hint::WrongPos(c) => {
                assert(c == guess[i]);
                assert(target.contains(c));
                let p = choose|p: int| 0 <= p < target.len() && target[p] == c;
                assert(target[i] != c);
                assert(p != i);
                assert(open_for(hints, p, c));
            },
            _ => {},
        }
    }
}

/// Filter completeness: a target still in the dictionary survives its own
/// true feedback.
pub proof fn lemma_filter_completeness(
    dict: Seq<Seq<u8>>,
    guess: Seq<u8>,
    target: Seq<u8>,
    excl: Seq<u8>,
)
    requires
        dict.contains(target),
        wf_word(guess),
        wf_word(target),
        forall|l: u8| #[trigger] excl.contains(l) ==> !target.contains(l),
    ensures
        candidates_spec(dict, true_hints(guess, target), excl).contains(target),
{
    lemma_target_consistent(guess, target, excl);
    lemma_candidates_membership(dict, true_hints(guess, target), excl);
}

} // verus!
