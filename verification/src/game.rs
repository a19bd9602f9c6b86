use vstd::prelude::*;
use crate::filter::candidates_spec;
use crate::filter::true_hints;
use crate::filter::filter_candidates;
use crate::filter::views;
use crate::hint::all_correct;
use crate::hint::hints_match;
use crate::hint::is_win;
use crate::hint::Hint;
use crate::words::Words;
use crate::contains_byte;
use crate::lemma_push_contains;
use crate::wf_word;

verus! {

/// The solver's position in a game.
#[derive(Clone, Copy, PartialEq, Eq, Structural, Debug)]
pub enum Phase {
    /// No guess made yet.
    AwaitingFirstGuess,
    /// A guess is out; its feedback has not arrived.
    AwaitingHint,
    /// Feedback is in and candidates remain; the next guess is being
    /// chosen.
    ChoosingNext,
    /// Terminal: every hint reported the correct position.
    Won,
    /// Terminal: no candidate was consistent with the feedback, or none
    /// was accepted as a guess.
    LostExhausted,
    /// Terminal: six rounds brought no win.
    LostRoundsExceeded,
}

/// What one round of feedback decided.
#[derive(Clone, Copy, PartialEq, Eq, Structural, Debug)]
pub enum RoundOutcome {
    Won,
    RoundsExceeded,
    Exhausted,
    Continue,
}

/// A letter some position of this round's feedback reported `Excluded`.
pub open spec fn newly_excluded(hints: Seq<Hint>, guess: Seq<u8>, l: u8) -> bool {
    exists|i: int| 0 <= i < 5 && (#[trigger] hints[i]) is Excluded && guess[i] == l
}

/// A letter that a round of true feedback excludes is really absent from
/// the target: across truthful rounds the accumulated exclusion set stays
/// disjoint from the target, so the target survives every recomputation.
pub proof fn lemma_true_feedback_excludes_only_absent(guess: Seq<u8>, target: Seq<u8>, l: u8)
    requires
        newly_excluded(true_hints(guess, target), guess, l),
    ensures
        !target.contains(l),
{
    let hints = true_hints(guess, target);
    let i = choose|i: int| 0 <= i < 5 && (#[trigger] hints[i]) is Excluded && guess[i] == l;
    assert(!target.contains(guess[i]));
}

/// One game: the dictionary, the exclusions gathered so far, the current
/// guess and the candidates surviving the last round.
pub struct Game {
    pub words: Words,
    pub excluded: Vec<u8>,
    pub round: usize,
    pub guess: Vec<u8>,
    pub cands: Vec<Vec<u8>>,
    pub phase: Phase,
}

impl Game {
    pub open spec fn wf(self) -> bool {
        &&& self.words.wf()
        &&& self.round <= 6
        &&& (self.phase == Phase::AwaitingHint ==> 1 <= self.round && wf_word(self.guess@))
        &&& (self.phase == Phase::ChoosingNext ==> 1 <= self.round < 6 && self.cands@.len() > 0)
    }

    /// A fresh game over the given dictionary.
    pub fn new(words: Words) -> (r: Game)
        requires
            words.wf(),
        ensures
            r.wf(),
            r.phase == Phase::AwaitingFirstGuess,
            r.excluded@.len() == 0,
            r.round == 0,
            r.words == words,
    {
        Game {
            words,
            excluded: Vec::new(),
            round: 0,
            guess: Vec::new(),
            cands: Vec::new(),
            phase: Phase::AwaitingFirstGuess,
        }
    }

    /// Issue the first guess: round one begins.
    pub fn start(&mut self, guess: Vec<u8>)
        requires
            old(self).wf(),
            old(self).phase == Phase::AwaitingFirstGuess,
            wf_word(guess@),
        ensures
            final(self).wf(),
            final(self).phase == Phase::AwaitingHint,
            final(self).round == 1,
            final(self).guess@ == guess@,
            final(self).excluded@ == old(self).excluded@,
            final(self).words == old(self).words,
    {
        self.guess = guess;
        self.round = 1;
        self.phase = Phase::AwaitingHint;
    }

    /// Consume one round of validated feedback: detect the win, the round
    /// limit and exhaustion; otherwise grow the exclusions and recompute
    /// the candidate set from the whole dictionary.
    pub fn apply_round(&mut self, hints: &Vec<Hint>) -> (r: RoundOutcome)
        requires
            old(self).wf(),
            old(self).phase == Phase::AwaitingHint,
            hints@.len() == 5,
            hints_match(hints@, old(self).guess@),
        ensures
            final(self).wf(),
            final(self).words == old(self).words,
            final(self).guess@ == old(self).guess@,
            final(self).round == old(self).round,
            all_correct(hints@) ==> r == RoundOutcome::Won && final(self).phase == Phase::Won
                && final(self).excluded@ == old(self).excluded@,
            !all_correct(hints@) && old(self).round == 6 ==> r == RoundOutcome::RoundsExceeded
                && final(self).phase == Phase::LostRoundsExceeded
                && final(self).excluded@ == old(self).excluded@,
            !all_correct(hints@) && old(self).round < 6 ==> ({
                &&& forall|l: u8|
                    final(self).excluded@.contains(l) <==> old(self).excluded@.contains(l)
                        || newly_excluded(hints@, old(self).guess@, l)
                &&& views(final(self).cands@) == candidates_spec(
                    views(old(self).words.list@),
                    hints@,
                    final(self).excluded@,
                )
                &&& (final(self).cands@.len() == 0 ==> r == RoundOutcome::Exhausted
                    && final(self).phase == Phase::LostExhausted)
                &&& (final(self).cands@.len() > 0 ==> r == RoundOutcome::Continue
                    && final(self).phase == Phase::ChoosingNext)
            }),
    {
        if is_win(hints) {
            self.phase = Phase::Won;
            return RoundOutcome::Won;
        }
        if self.round == 6 {
            self.phase = Phase::LostRoundsExceeded;
            return RoundOutcome::RoundsExceeded;
        }
        let mut i: usize = 0;
        while i < 5
            invariant
                i <= 5,
                hints@.len() == 5,
                self.words == old(self).words,
                self.guess@ == old(self).guess@,
                self.round == old(self).round,
                self.phase == old(self).phase,
                self.cands@ == old(self).cands@,
                wf_word(self.guess@),
                forall|l: u8|
                    old(self).excluded@.contains(l) ==> #[trigger] self.excluded@.contains(l),
                forall|k: int|
                    0 <= k < i && (#[trigger] hints@[k]) is Excluded ==> self.excluded@.contains(
                        self.guess@[k],
                    ),
                forall|l: u8| #[trigger]
                    self.excluded@.contains(l) ==> old(self).excluded@.contains(l)
                        || newly_excluded(hints@, self.guess@, l),
            decreases 5 - i,
        {
            let pinned = match hints[i] {
                Hint::Excluded => false,
                _ => true,
            };
            if !pinned {
                let g = self.guess[i];
                if !contains_byte(&self.excluded, g) {
                    proof {
                        lemma_push_contains(self.excluded@, g);
                        assert((hints@[i as int]) is Excluded && self.guess@[i as int] == g);
                        assert(newly_excluded(hints@, self.guess@, g));
                    }
                    self.excluded.push(g);
                }
            }
            i = i + 1;
        }
        assert forall|l: u8|
            self.excluded@.contains(l) <==> old(self).excluded@.contains(l) || newly_excluded(
            hints@,
            old(self).guess@,
            l,
        ) by {
            if newly_excluded(hints@, old(self).guess@, l) {
                let k = choose|k: int|
                    0 <= k < 5 && (#[trigger] hints@[k]) is Excluded && old(self).guess@[k] == l;
                assert(self.excluded@.contains(self.guess@[k]));
            }
        }
        let cands = filter_candidates(&self.words, hints, &self.excluded);
        self.cands = cands;
        if self.cands.len() == 0 {
            self.phase = Phase::LostExhausted;
            RoundOutcome::Exhausted
        } else {
            self.phase = Phase::ChoosingNext;
            RoundOutcome::Continue
        }
    }

    /// Adopt one of the surviving candidates as the next round's guess.
    pub fn choose_guess(&mut self, w: Vec<u8>)
        requires
            old(self).wf(),
            old(self).phase == Phase::ChoosingNext,
            wf_word(w@),
            exists|k: int| 0 <= k < old(self).cands@.len() && #[trigger] old(self).cands@[k]@ == w@,
        ensures
            final(self).wf(),
            final(self).phase == Phase::AwaitingHint,
            final(self).round == old(self).round + 1,
            final(self).guess@ == w@,
            final(self).excluded@ == old(self).excluded@,
            final(self).words == old(self).words,
            final(self).cands@ == old(self).cands@,
    {
        self.guess = w;
        self.round = self.round + 1;
        self.phase = Phase::AwaitingHint;
    }

    /// Record that no surviving candidate was accepted as a guess: the
    /// game ends exhausted.
    pub fn no_candidate_accepted(&mut self)
        requires
            old(self).wf(),
            old(self).phase == Phase::ChoosingNext,
        ensures
            final(self).wf(),
            final(self).phase == Phase::LostExhausted,
            final(self).words == old(self).words,
            final(self).excluded@ == old(self).excluded@,
            final(self).round == old(self).round,
    {
        self.phase = Phase::LostExhausted;
    }
}

} // verus!
