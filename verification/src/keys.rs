//! The scan-code mask of the matrix keyboard and the three character tables.
//!
//! A scan delivers 32 bits, one per physical key. Five of them are modifiers
//! (both shifts, dollar, sharp and star); every other bit stands for one
//! printable character, looked up in the table that the modifiers select.
//! Where a shift and dollar are held together, the shift wins.

use vstd::prelude::*;
use vstd::std_specs::bits::{axiom_u32_trailing_zeros, u32_trailing_zeros};

verus! {

/// A set of keys held down at one moment, one bit per physical key.
#[derive(Clone, Copy, PartialEq, Eq, Structural, Debug, Hash)]
pub struct Keys {
    pub bits: u32,
}

/// Which of the five modifier keys are held.
#[derive(Clone, Copy, PartialEq, Eq, Structural, Debug)]
pub struct Modifier {
    pub star: bool,
    pub shift_l: bool,
    pub shift_r: bool,
    pub dollar: bool,
    pub sharp: bool,
}

impl Default for Modifier {
    fn default() -> (m: Modifier)
        ensures
            m == (Modifier {
                star: false,
                shift_l: false,
                shift_r: false,
                dollar: false,
                sharp: false,
            }),
    {
        Modifier { star: false, shift_l: false, shift_r: false, dollar: false, sharp: false }
    }
}

/// Characters of the keys with no modifier held, by bit position.
pub const KEYS_ALPHA: [char; 32] = [
    'q', 'w', 'e', 'r', 'd', 's', 'a', '^', '$', 'z', 'x', 'c', 'v', 'f', 't', 'y', 'g', 'u', 'h',
    'b', 'n', 'm', ' ', '#', '%', 'l', 'k', 'j', 'i', 'o', 'p', '*',
];

/// Characters of the keys with a shift held, by bit position.
pub const KEYS_CAPS: [char; 32] = [
    'Q', 'W', 'E', 'R', 'D', 'S', 'A', '^', '$', 'Z', 'X', 'C', 'V', 'F', 'T', 'Y', 'G', 'U', 'H',
    'B', 'N', 'M', ' ', '#', '%', 'L', 'K', 'J', 'I', 'O', 'P', '*',
];

/// Characters of the keys with dollar held, by bit position.
pub const KEYS_NUM: [char; 32] = [
    '1', '2', '3', '4', '"', '@', '&', '^', '$', ',', ';', '.', ':', '#', '5', '6', '(', '7', ')',
    '!', '?', '\'', '_', '#', '%', '%', '$', '=', '8', '9', '0', '*',
];

/// Legend of the numeric layer, as shown in the overlay while dollar is held.
pub const LAYOUT_NUM: &'static str = " 1 2 3 4 5 6 7 8 9 0 *\n  ^ & @ \" # ( ) = $ % ^^\n  $ , ; . : ! ? ' _ #";

#[allow(non_upper_case_globals)]
impl Keys {
    pub const Q: u32 = 0x0000_0001;
    pub const W: u32 = 0x0000_0002;
    pub const E: u32 = 0x0000_0004;
    pub const R: u32 = 0x0000_0008;
    pub const D: u32 = 0x0000_0010;
    pub const S: u32 = 0x0000_0020;
    pub const A: u32 = 0x0000_0040;
    pub const ShiftL: u32 = 0x0000_0080;
    pub const Dollar: u32 = 0x0000_0100;
    pub const Z: u32 = 0x0000_0200;
    pub const X: u32 = 0x0000_0400;
    pub const C: u32 = 0x0000_0800;
    pub const V: u32 = 0x0000_1000;
    pub const F: u32 = 0x0000_2000;
    pub const T: u32 = 0x0000_4000;
    pub const Y: u32 = 0x0000_8000;
    pub const G: u32 = 0x0001_0000;
    pub const U: u32 = 0x0002_0000;
    pub const H: u32 = 0x0004_0000;
    pub const B: u32 = 0x0008_0000;
    pub const N: u32 = 0x0010_0000;
    pub const M: u32 = 0x0020_0000;
    pub const Underscore: u32 = 0x0040_0000;
    pub const Sharp: u32 = 0x0080_0000;
    pub const ShiftR: u32 = 0x0100_0000;
    pub const L: u32 = 0x0200_0000;
    pub const K: u32 = 0x0400_0000;
    pub const J: u32 = 0x0800_0000;
    pub const I: u32 = 0x1000_0000;
    pub const O: u32 = 0x2000_0000;
    pub const P: u32 = 0x4000_0000;
    pub const Star: u32 = 0x8000_0000;

    /// Either shift key: `ShiftL | ShiftR`.
    pub const Shift: u32 = 0x0100_0080;

    /// Every modifier key: `Star | Shift | Dollar | Sharp`.
    pub const Modifiers: u32 = 0x8180_0180;

    /// The mask with no key held.
    pub fn none() -> (k: Keys)
        ensures
            k.bits == 0,
    {
        Keys { bits: 0 }
    }

    /// The underlying scan-code bits.
    pub fn bits(&self) -> (r: u32)
        ensures
            r == self.bits,
    {
        self.bits
    }

    /// True when no key is held.
    pub fn is_none(&self) -> (r: bool)
        ensures
            r == (self.bits == 0),
    {
        self.bits == 0
    }

    /// True when every key of `other` is held in `self`.
    pub fn contains(&self, other: Keys) -> (r: bool)
        ensures
            r == (self.bits & other.bits == other.bits),
    {
        (self.bits & other.bits) == other.bits
    }

    /// True when `self` and `other` share a key, or `other` holds none.
    pub fn intersects(&self, other: Keys) -> (r: bool)
        ensures
            r == (self.bits & other.bits != 0 || other.bits == 0),
    {
        (self.bits & other.bits) != 0 || other.bits == 0
    }

    /// The keys that are not held in `self`.
    pub fn not(self) -> (k: Keys)
        ensures
            k.bits == !self.bits,
    {
        Keys { bits: !self.bits }
    }

    /// The keys held in both masks.
    pub fn and(self, other: Keys) -> (k: Keys)
        ensures
            k.bits == self.bits & other.bits,
    {
        Keys { bits: self.bits & other.bits }
    }

    /// The keys held in either mask.
    pub fn or(self, other: Keys) -> (k: Keys)
        ensures
            k.bits == self.bits | other.bits,
    {
        Keys { bits: self.bits | other.bits }
    }

    /// The keys held in exactly one of the two masks.
    pub fn xor(self, other: Keys) -> (k: Keys)
        ensures
            k.bits == self.bits ^ other.bits,
    {
        Keys { bits: self.bits ^ other.bits }
    }

    /// The table that the held modifiers select: capitals under either shift,
    /// else the numeric layer under dollar, else the plain letters.
    pub open spec fn table(self) -> [char; 32] {
        if self.bits & Keys::Shift != 0 {
            KEYS_CAPS
        } else if self.bits & Keys::Dollar != 0 {
            KEYS_NUM
        } else {
            KEYS_ALPHA
        }
    }

    /// The character that this mask stands for, if it holds exactly one key
    /// besides the modifiers.
    pub open spec fn character(self) -> Option<char> {
        char_at(self.bits & !Keys::Modifiers, self.table()@)
    }

    /// Resolves the mask to its character: exactly one non-modifier key must
    /// be held, and the modifiers held with it pick the table.
    pub fn get_one_char(self) -> (r: Option<char>)
        ensures
            r == self.character(),
            r matches Some(c) ==> is_printable(c),
    {
        let no_mod = self.bits & !Keys::Modifiers;
        let r = if self.intersects(Keys { bits: Keys::Shift }) {
            get_one_char_from(no_mod, &KEYS_CAPS)
        } else if self.intersects(Keys { bits: Keys::Dollar }) {
            get_one_char_from(no_mod, &KEYS_NUM)
        } else {
            get_one_char_from(no_mod, &KEYS_ALPHA)
        };
        proof {
            lemma_tables_printable();
            if let Some(k) = sole_key(no_mod) {
                lemma_sole_key_in_range(no_mod);
            }
        }
        r
    }
}

impl From<u32> for Keys {
    fn from(val: u32) -> (k: Keys)
        ensures
            k.bits == val,
    {
        Keys { bits: val }
    }
}

impl vstd::std_specs::convert::FromSpecImpl<u32> for Keys {
    open spec fn obeys_from_spec() -> bool {
        true
    }

    open spec fn from_spec(val: u32) -> Keys {
        Keys { bits: val }
    }
}

/// The two compound masks are the unions that their names stand for.
pub proof fn lemma_compound_masks()
    ensures
        Keys::Shift == Keys::ShiftL | Keys::ShiftR,
        Keys::Modifiers == Keys::Star | Keys::Shift | Keys::Dollar | Keys::Sharp,
{
    assert(0x0100_0080u32 == 0x0000_0080u32 | 0x0100_0000u32) by (bit_vector);
    assert(0x8180_0180u32 == 0x8000_0000u32 | 0x0100_0080u32 | 0x0000_0100u32 | 0x0080_0000u32)
        by (bit_vector);
}

/// A character that the edit buffer can hold: ASCII and not NUL.
pub open spec fn is_printable(c: char) -> bool {
    0 < c as u32 && (c as u32) < 128
}

/// The position of the one bit set in `data`, if exactly one bit is set.
pub open spec fn sole_key(data: u32) -> Option<u32> {
    if exists|k: u32| k < 32 && data == 1u32 << k {
        Some(choose|k: u32| k < 32 && data == 1u32 << k)
    } else {
        None
    }
}

/// The entry of `source` at the one bit set in `data`, if exactly one is set.
pub open spec fn char_at(data: u32, source: Seq<char>) -> Option<char> {
    match sole_key(data) {
        Some(k) => Some(source[k as int]),
        None => None,
    }
}

/// A mask with the single bit `k` set resolves to position `k`.
pub proof fn lemma_sole_key(k: u32)
    requires
        k < 32,
    ensures
        sole_key(1u32 << k) == Some(k),
{
    let data = 1u32 << k;
    let j = choose|j: u32| j < 32 && data == 1u32 << j;
    assert(j < 32 && 1u32 << k == 1u32 << j ==> j == k) by (bit_vector)
        requires
            k < 32,
    ;
}

/// The position that `sole_key` reports lies below 32 and is the only bit set.
pub proof fn lemma_sole_key_in_range(data: u32)
    requires
        sole_key(data) is Some,
    ensures
        sole_key(data)->0 < 32,
        data == 1u32 << sole_key(data)->0,
{
}

/// A mask holds exactly one bit just when it is a non-zero power of two, and
/// that bit is then its lowest.
proof fn lemma_power_of_two(data: u32)
    ensures
        (data != 0 && data & ((data - 1) as u32) == 0) <==> sole_key(data) is Some,
        sole_key(data) is Some ==> sole_key(data) == Some(u32_trailing_zeros(data)),
{
    axiom_u32_trailing_zeros(data);
    let t = u32_trailing_zeros(data);
    if data != 0 && data & ((data - 1) as u32) == 0 {
        assert(data == 1u32 << t) by (bit_vector)
            requires
                data != 0,
                data & ((data - 1) as u32) == 0,
                t < 32,
                (data >> t) & 1u32 == 1u32,
        ;
        lemma_sole_key(t);
    }
    if sole_key(data) is Some {
        let k = sole_key(data)->0;
        assert(data != 0 && data & ((data - 1) as u32) == 0) by (bit_vector)
            requires
                k < 32,
                data == 1u32 << k,
        ;
    }
}

/// Every entry of the three tables is a printable ASCII character.
pub proof fn lemma_tables_printable()
    ensures
        forall|i: int| 0 <= i < 32 ==> is_printable(#[trigger] KEYS_ALPHA@[i]),
        forall|i: int| 0 <= i < 32 ==> is_printable(#[trigger] KEYS_CAPS@[i]),
        forall|i: int| 0 <= i < 32 ==> is_printable(#[trigger] KEYS_NUM@[i]),
{
}

/// True when every key of `key` is held in `data`.
pub fn is_key_pressed(data: Keys, key: Keys) -> (r: bool)
    ensures
        r == (data.bits & key.bits == key.bits),
{
    data.contains(key)
}

/// Looks `data` up in `source`: the entry at the one bit that is set, or
/// nothing when no bit or more than one is set.
pub fn get_one_char_from(data: u32, source: &[char; 32]) -> (r: Option<char>)
    ensures
        r == char_at(data, source@),
{
    proof {
        lemma_power_of_two(data);
        axiom_u32_trailing_zeros(data);
    }
    if data != 0 && data & (data - 1) == 0 {
        let k = data.trailing_zeros();
        Some(source[k as usize])
    } else {
        None
    }
}

/// Looks `data` up in the table of plain letters.
pub fn get_one_char(data: u32) -> (r: Option<char>)
    ensures
        r == char_at(data, KEYS_ALPHA@),
{
    get_one_char_from(data, &KEYS_ALPHA)
}

} // verus!
