//! Morse signalling: the code of each character, the signs of a whole
//! message, and how long the lamp is lit and dark for each sign.
//!
//! A message is sent character by character, a letter gap after each one,
//! and closes with three word gaps. A character without a code is sent as a
//! fixed glyph of its own, so the rhythm of the message is kept.

use vstd::prelude::*;
use crate::morse::Morse::{Dash, Dot, Letter, Word};

verus! {

/// One sign of the signal: the lamp is lit for a while, then dark for a while.
#[derive(Clone, Copy, PartialEq, Eq, Structural, Debug)]
pub enum Morse {
    /// Lit for three units, dark for one.
    Dash,
    /// Lit for one unit, dark for one.
    Dot,
    /// The gap after a character: dark for two units.
    Letter,
    /// The gap between words: dark for four units.
    Word,
}

impl Morse {
    /// The units for which the lamp is lit, and then dark.
    pub open spec fn units(self) -> (u32, u32) {
        match self {
            Dash => (3, 1),
            Dot => (1, 1),
            Letter => (0, 2),
            Word => (0, 4),
        }
    }

    /// The units for which the lamp is lit, and then dark.
    pub fn time(&self) -> (r: (u32, u32))
        ensures
            r == self.units(),
    {
        match self {
            Dash => (3, 1),
            Dot => (1, 1),
            Letter => (0, 2),
            Word => (0, 4),
        }
    }
}

/// The length of one unit, in core cycles.
pub const UNIT: u32 = 125_000;

/// How the lamp is driven for one sign: lit for `high` cycles, unless that is
/// zero, then dark for `low` cycles.
#[derive(Clone, Copy, PartialEq, Eq, Structural, Debug)]
pub struct Pulse {
    pub high: u32,
    pub low: u32,
}

pub const LETTER_A: [Morse; 2] = [Dot, Dash];
pub const LETTER_B: [Morse; 4] = [Dash, Dot, Dot, Dot];
pub const LETTER_C: [Morse; 4] = [Dash, Dot, Dash, Dot];
pub const LETTER_D: [Morse; 3] = [Dash, Dot, Dot];
pub const LETTER_E: [Morse; 1] = [Dot];
pub const LETTER_F: [Morse; 4] = [Dot, Dot, Dash, Dot];
pub const LETTER_G: [Morse; 3] = [Dash, Dash, Dot];
pub const LETTER_H: [Morse; 4] = [Dot, Dot, Dot, Dot];
pub const LETTER_I: [Morse; 2] = [Dot, Dot];
pub const LETTER_J: [Morse; 4] = [Dot, Dash, Dash, Dash];
pub const LETTER_K: [Morse; 3] = [Dash, Dot, Dash];
pub const LETTER_L: [Morse; 4] = [Dot, Dash, Dot, Dot];
pub const LETTER_M: [Morse; 2] = [Dash, Dash];
pub const LETTER_N: [Morse; 2] = [Dash, Dot];
pub const LETTER_O: [Morse; 3] = [Dash, Dash, Dash];
pub const LETTER_P: [Morse; 4] = [Dot, Dash, Dash, Dot];
pub const LETTER_Q: [Morse; 4] = [Dash, Dash, Dot, Dash];
pub const LETTER_R: [Morse; 3] = [Dot, Dash, Dot];
pub const LETTER_S: [Morse; 3] = [Dot, Dot, Dot];
pub const LETTER_T: [Morse; 1] = [Dash];
pub const LETTER_U: [Morse; 3] = [Dot, Dot, Dash];
pub const LETTER_V: [Morse; 4] = [Dot, Dot, Dot, Dash];
pub const LETTER_W: [Morse; 3] = [Dot, Dash, Dash];
pub const LETTER_X: [Morse; 4] = [Dash, Dot, Dot, Dash];
pub const LETTER_Y: [Morse; 4] = [Dash, Dot, Dash, Dash];
pub const LETTER_Z: [Morse; 4] = [Dash, Dash, Dot, Dot];
pub const DIGIT_1: [Morse; 5] = [Dot, Dash, Dash, Dash, Dash];
pub const DIGIT_2: [Morse; 5] = [Dot, Dot, Dash, Dash, Dash];
pub const DIGIT_3: [Morse; 5] = [Dot, Dot, Dot, Dash, Dash];
pub const DIGIT_4: [Morse; 5] = [Dot, Dot, Dot, Dot, Dash];
pub const DIGIT_5: [Morse; 5] = [Dot, Dot, Dot, Dot, Dot];
pub const DIGIT_6: [Morse; 5] = [Dash, Dot, Dot, Dot, Dot];
pub const DIGIT_7: [Morse; 5] = [Dash, Dash, Dot, Dot, Dot];
pub const DIGIT_8: [Morse; 5] = [Dash, Dash, Dash, Dot, Dot];
pub const DIGIT_9: [Morse; 5] = [Dash, Dash, Dash, Dash, Dot];
pub const DIGIT_0: [Morse; 5] = [Dash, Dash, Dash, Dash, Dash];
pub const PERIOD: [Morse; 6] = [Dot, Dash, Dot, Dash, Dot, Dash];
pub const COMMA: [Morse; 6] = [Dash, Dash, Dot, Dot, Dash, Dash];
pub const QUESTION: [Morse; 6] = [Dot, Dot, Dash, Dash, Dot, Dot];
pub const APOSTROPHE: [Morse; 6] = [Dot, Dash, Dash, Dash, Dash, Dot];

/// The space between two words.
pub const SPACE: [Morse; 1] = [Word];

/// The glyph sent in place of a character that has no code.
pub const UNMAPPABLE: [Morse; 3] = [Word, Dot, Word];

/// The code of a character, without the gap that follows it. Letters are
/// taken in either case.
pub open spec fn code(c: char) -> Seq<Morse> {
    match c {
        'A' | 'a' => LETTER_A@,
        'B' | 'b' => LETTER_B@,
        'C' | 'c' => LETTER_C@,
        'D' | 'd' => LETTER_D@,
        'E' | 'e' => LETTER_E@,
        'F' | 'f' => LETTER_F@,
        'G' | 'g' => LETTER_G@,
        'H' | 'h' => LETTER_H@,
        'I' | 'i' => LETTER_I@,
        'J' | 'j' => LETTER_J@,
        'K' | 'k' => LETTER_K@,
        'L' | 'l' => LETTER_L@,
        'M' | 'm' => LETTER_M@,
        'N' | 'n' => LETTER_N@,
        'O' | 'o' => LETTER_O@,
        'P' | 'p' => LETTER_P@,
        'Q' | 'q' => LETTER_Q@,
        'R' | 'r' => LETTER_R@,
        'S' | 's' => LETTER_S@,
        'T' | 't' => LETTER_T@,
        'U' | 'u' => LETTER_U@,
        'V' | 'v' => LETTER_V@,
        'W' | 'w' => LETTER_W@,
        'X' | 'x' => LETTER_X@,
        'Y' | 'y' => LETTER_Y@,
        'Z' | 'z' => LETTER_Z@,
        '1' => DIGIT_1@,
        '2' => DIGIT_2@,
        '3' => DIGIT_3@,
        '4' => DIGIT_4@,
        '5' => DIGIT_5@,
        '6' => DIGIT_6@,
        '7' => DIGIT_7@,
        '8' => DIGIT_8@,
        '9' => DIGIT_9@,
        '0' => DIGIT_0@,
        '.' => PERIOD@,
        ',' => COMMA@,
        '?' => QUESTION@,
        '\'' => APOSTROPHE@,
        ' ' => SPACE@,
        _ => UNMAPPABLE@,
    }
}

/// The signs of the characters of `text`, a letter gap after each.
pub open spec fn spelled(text: Seq<char>) -> Seq<Morse>
    decreases text.len(),
{
    if text.len() == 0 {
        Seq::empty()
    } else {
        spelled(text.drop_last()) + code(text.last()).push(Letter)
    }
}

/// The signs of a whole message: the text spelled out, then three word gaps.
pub open spec fn message(text: Seq<char>) -> Seq<Morse> {
    spelled(text) + seq![Word, Word, Word]
}

/// The pulse of a sign: its units, each `UNIT` cycles long.
pub open spec fn pulse(s: Morse) -> Pulse {
    Pulse { high: (s.units().0 * UNIT) as u32, low: (s.units().1 * UNIT) as u32 }
}

/// The code of a character, without the gap that follows it.
pub fn letter(c: char) -> (r: &'static [Morse])
    ensures
        r@ == code(c),
{
    match c {
        'A' | 'a' => &LETTER_A,
        'B' | 'b' => &LETTER_B,
        'C' | 'c' => &LETTER_C,
        'D' | 'd' => &LETTER_D,
        'E' | 'e' => &LETTER_E,
        'F' | 'f' => &LETTER_F,
        'G' | 'g' => &LETTER_G,
        'H' | 'h' => &LETTER_H,
        'I' | 'i' => &LETTER_I,
        'J' | 'j' => &LETTER_J,
        'K' | 'k' => &LETTER_K,
        'L' | 'l' => &LETTER_L,
        'M' | 'm' => &LETTER_M,
        'N' | 'n' => &LETTER_N,
        'O' | 'o' => &LETTER_O,
        'P' | 'p' => &LETTER_P,
        'Q' | 'q' => &LETTER_Q,
        'R' | 'r' => &LETTER_R,
        'S' | 's' => &LETTER_S,
        'T' | 't' => &LETTER_T,
        'U' | 'u' => &LETTER_U,
        'V' | 'v' => &LETTER_V,
        'W' | 'w' => &LETTER_W,
        'X' | 'x' => &LETTER_X,
        'Y' | 'y' => &LETTER_Y,
        'Z' | 'z' => &LETTER_Z,
        '1' => &DIGIT_1,
        '2' => &DIGIT_2,
        '3' => &DIGIT_3,
        '4' => &DIGIT_4,
        '5' => &DIGIT_5,
        '6' => &DIGIT_6,
        '7' => &DIGIT_7,
        '8' => &DIGIT_8,
        '9' => &DIGIT_9,
        '0' => &DIGIT_0,
        '.' => &PERIOD,
        ',' => &COMMA,
        '?' => &QUESTION,
        '\'' => &APOSTROPHE,
        ' ' => &SPACE,
        _ => &UNMAPPABLE,
    }
}

/// How the lamp is driven for the sign `s`.
pub fn blink_sign(s: Morse) -> (r: Pulse)
    ensures
        r == pulse(s),
        r.high == s.units().0 * UNIT,
        r.low == s.units().1 * UNIT,
{
    let (h, l) = s.time();
    Pulse { high: h * UNIT, low: l * UNIT }
}

/// The signs of the message `text`: each character's code, a letter gap after
/// each character, and three word gaps at the end.
pub fn blink_iter(text: &[char]) -> (r: Vec<Morse>)
    ensures
        r@ == message(text@),
{
    let mut signs: Vec<Morse> = Vec::new();
    let mut i: usize = 0;
    while i < text.len()
        invariant
            i <= text.len(),
            signs@ == spelled(text@.take(i as int)),
        decreases text.len() - i,
    {
        let c = letter(text[i]);
        let ghost before = signs@;
        let mut j: usize = 0;
        while j < c.len()
            invariant
                j <= c.len(),
                signs@ == before + c@.take(j as int),
            decreases c.len() - j,
        {
            signs.push(c[j]);
            j += 1;
        }
        signs.push(Letter);
        proof {
            assert(c@.take(c.len() as int) == c@);
            assert(text@.take(i + 1).drop_last() == text@.take(i as int));
            assert(signs@ == before + c@.push(Letter));
        }
        i += 1;
    }
    signs.push(Word);
    signs.push(Word);
    signs.push(Word);
    proof {
        assert(text@.take(text.len() as int) == text@);
        assert(signs@ == message(text@));
    }
    signs
}

/// The signs of the message `string`.
pub fn blink(string: &str) -> (r: Vec<Morse>)
    ensures
        r@ == message(string@),
{
    let mut chars: Vec<char> = Vec::new();
    for c in it: string.chars()
        invariant
            it.seq() == string@,
            chars@ == string@.take(it.index()),
    {
        chars.push(c);
    }
    proof {
        assert(string@.take(string@.len() as int) == string@);
    }
    blink_iter(chars.as_slice())
}

} // verus!
