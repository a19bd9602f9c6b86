use vstd::prelude::*;

verus! {

/// Per-position feedback about one guessed letter.
#[derive(Clone, Copy, PartialEq, Eq, Structural, Debug)]
pub enum Hint {
    /// The letter does not occur in the target, outside positions pinned
    /// by `CorrectPos`.
    Excluded,
    /// The target carries this letter at this exact position.
    CorrectPos(u8),
    /// The target contains this letter, but not at this position.
    WrongPos(u8),
}

/// Rejection of hint input.
#[derive(Clone, Copy, PartialEq, Eq, Structural, Debug)]
pub enum HintError {
    /// The raw encoding is not exactly five valid hint characters.
    InvalidHintFormat,
    /// The hint at this position names a letter other than the guessed one.
    HintWordMismatch(usize),
}

/// A valid hint character: `-`, an uppercase letter, or a lowercase letter.
pub open spec fn valid_hint_byte(c: u8) -> bool {
    c == 45 || (65 <= c <= 90) || (97 <= c <= 122)
}

/// The hint a valid character encodes: `-` excludes, an uppercase letter
/// pins its lowercase form, a lowercase letter is present but misplaced.
pub open spec fn hint_of_byte(c: u8) -> Hint {
    if c == 45 {
        Hint::Excluded
    } else if 65 <= c <= 90 {
        Hint::CorrectPos((c + 32) as u8)
    } else {
        Hint::WrongPos(c)
    }
}

impl Hint {
    /// Decode one hint character.
    pub fn from_byte(c: u8) -> (r: Option<Hint>)
        ensures
            r is Some <==> valid_hint_byte(c),
            valid_hint_byte(c) ==> r == Some(hint_of_byte(c)),
    {
        if c == 45 {
            Some(Hint::Excluded)
        } else if 65 <= c && c <= 90 {
            Some(Hint::CorrectPos(c + 32))
        } else if 97 <= c && c <= 122 {
            Some(Hint::WrongPos(c))
        } else {
            None
        }
    }
}

/// Decode a raw hint line: exactly five valid hint characters, or
/// `InvalidHintFormat`.
pub fn parse_hints(raw: &Vec<u8>) -> (r: Result<Vec<Hint>, HintError>)
    ensures
        r is Ok <==> raw@.len() == 5 && (forall|i: int|
            0 <= i < 5 ==> valid_hint_byte(#[trigger] raw@[i])),
        r matches Ok(h) ==> h@.len() == 5 && (forall|i: int|
            0 <= i < 5 ==> h@[i] == hint_of_byte(#[trigger] raw@[i])),
        r matches Err(e) ==> e == HintError::InvalidHintFormat,
{
    if raw.len() != 5 {
        return Err(HintError::InvalidHintFormat);
    }
    let mut out: Vec<Hint> = Vec::new();
    let mut i: usize = 0;
    while i < 5
        invariant
            i <= 5,
            raw@.len() == 5,
            out@.len() == i,
            forall|k: int| 0 <= k < i ==> valid_hint_byte(#[trigger] raw@[k]),
            forall|k: int| 0 <= k < i ==> out@[k] == hint_of_byte(#[trigger] raw@[k]),
        decreases 5 - i,
    {
        match Hint::from_byte(raw[i]) {
            Some(h) => {
                out.push(h);
            },
            None => {
                return Err(HintError::InvalidHintFormat);
            },
        }
        i = i + 1;
    }
    Ok(out)
}

/// A hint describes the guessed letter at its position: `CorrectPos` and
/// `WrongPos` always carry the letter actually guessed there.
pub open spec fn hint_matches_guess(h: Hint, g: u8) -> bool {
    match h {
        Hint::Excluded => true,
        Hint::CorrectPos(c) => c == g,
        Hint::WrongPos(c) => c == g,
    }
}

/// Every hint of the round describes the guessed word.
pub open spec fn hints_match(hints: Seq<Hint>, guess: Seq<u8>) -> bool {
    forall|i: int| 0 <= i < 5 ==> hint_matches_guess(#[trigger] hints[i], guess[i])
}

/// Check a round's hints against the word actually guessed; the first
/// offending position is reported as `HintWordMismatch`.
pub fn validate_hints(hints: &Vec<Hint>, guess: &Vec<u8>) -> (r: Result<(), HintError>)
    requires
        hints@.len() == 5,
        guess@.len() == 5,
    ensures
        r is Ok <==> hints_match(hints@, guess@),
        r matches Err(e) ==> e is HintWordMismatch,
        r matches Err(HintError::HintWordMismatch(p)) ==> p < 5 && !hint_matches_guess(
            hints@[p as int],
            guess@[p as int],
        ) && (forall|q: int| 0 <= q < p ==> hint_matches_guess(#[trigger] hints@[q], guess@[q])),
{
    let mut i: usize = 0;
    while i < 5
        invariant
            i <= 5,
            hints@.len() == 5,
            guess@.len() == 5,
            forall|q: int| 0 <= q < i ==> hint_matches_guess(#[trigger] hints@[q], guess@[q]),
        decreases 5 - i,
    {
        let ok = match hints[i] {
            Hint::Excluded => true,
            Hint::CorrectPos(c) => c == guess[i],
            Hint::WrongPos(c) => c == guess[i],
        };
        if !ok {
            return Err(HintError::HintWordMismatch(i));
        }
        i = i + 1;
    }
    Ok(())
}

/// All five hints report the correct position: the round wins the game.
pub open spec fn all_correct(hints: Seq<Hint>) -> bool {
    forall|i: int| 0 <= i < 5 ==> (#[trigger] hints[i]) is CorrectPos
}

/// Runtime check for a winning round.
pub fn is_win(hints: &Vec<Hint>) -> (r: bool)
    requires
        hints@.len() == 5,
    ensures
        r == all_correct(hints@),
{
    let mut i: usize = 0;
    while i < 5
        invariant
            i <= 5,
            hints@.len() == 5,
            forall|q: int| 0 <= q < i ==> (#[trigger] hints@[q]) is CorrectPos,
        decreases 5 - i,
    {
        let correct = match hints[i] {
            Hint::CorrectPos(_) => true,
            _ => false,
        };
        if !correct {
            return false;
        }
        i = i + 1;
    }
    true
}

} // verus!
