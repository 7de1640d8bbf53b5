//! The keyboard behind its shift register, and a push button.
//!
//! The pins themselves are driven elsewhere; here is what is computed from
//! their levels: the word that a scan shifts in bit by bit, the mask of keys
//! it stands for, and the edge of a button press.

use vstd::prelude::*;
use crate::keys::Keys;

verus! {

/// A register that is read as one value, such as a shift register behind
/// three pins.
pub trait ReadRegister<VAL> {
    /// What one read may do: `after` is the register once `value` was read
    /// from `self`. A register that says nothing of its reads allows any.
    open spec fn reads(&self, after: &Self, value: VAL) -> bool {
        true
    }

    /// Reads the register.
    fn read(&mut self) -> (value: VAL)
        ensures
            old(self).reads(final(self), value),
    ;
}

/// The matrix keyboard, read through a 32-bit register.
pub struct Keyboard<T> where T: ReadRegister<u32> {
    reg: T,
}

impl<T> Keyboard<T> where T: ReadRegister<u32> {
    /// The register that the keyboard reads.
    pub closed spec fn register(&self) -> T {
        self.reg
    }

    /// The keyboard behind `reg`.
    pub fn new(reg: T) -> (r: Self)
        ensures
            r.register() == reg,
    {
        Keyboard { reg }
    }

    /// Scans the keyboard once: the mask is the value that the register read.
    pub fn get_keys(&mut self) -> (r: Keys)
        ensures
            old(self).register().reads(&final(self).register(), r.bits),
    {
        let value = self.reg.read();
        Keys::from(value)
    }
}

/// The word `value` after one more sampled bit was shifted in at its low end.
pub open spec fn shifted(value: u32, bit: bool) -> u32 {
    (value << 1) | (if bit {
        1u32
    } else {
        0u32
    })
}

/// Shifts one sampled bit into the word: the bits move up by one place, the
/// highest is lost, and `bit` becomes the lowest. A scan of 32 samples so
/// leaves the first sample in the highest bit.
pub fn shift_in(value: u32, bit: bool) -> (r: u32)
    ensures
        r == shifted(value, bit),
{
    let moved = value << 1;
    if bit {
        moved | 1
    } else {
        proof {
            assert(moved | 0u32 == moved) by (bit_vector);
        }
        moved
    }
}

/// The word that the samples `bits` give, the first sample highest.
pub open spec fn scanned(bits: Seq<bool>) -> u32
    decreases bits.len(),
{
    if bits.len() == 0 {
        0
    } else {
        shifted(scanned(bits.drop_last()), bits.last())
    }
}

/// Sample `i` of a scan of 32 samples is bit `31 - i` of the word.
pub proof fn lemma_scanned_bit(bits: Seq<bool>, i: int)
    requires
        bits.len() == 32,
        0 <= i < 32,
    ensures
        bits[i] == ((scanned(bits) >> ((31 - i) as u32)) & 1 == 1),
{
    assert(bits.take(32) =~= bits);
    lemma_scanned_prefix(bits, 32, i);
}

/// After `n` samples, sample `i` is bit `n - 1 - i` of the word.
proof fn lemma_scanned_prefix(bits: Seq<bool>, n: int, i: int)
    requires
        0 <= i < n <= bits.len(),
        n <= 32,
    ensures
        bits[i] == ((scanned(bits.take(n)) >> ((n - 1 - i) as u32)) & 1 == 1),
    decreases n,
{
    let word = scanned(bits.take(n));
    let before = scanned(bits.take(n - 1));
    let last = bits[n - 1];
    assert(bits.take(n).drop_last() =~= bits.take(n - 1));
    assert(bits.take(n).last() == last);
    assert(word == shifted(before, last));
    let low = if last {
        1u32
    } else {
        0u32
    };
    if i == n - 1 {
        assert((((before << 1) | low) >> 0u32) & 1 == low) by (bit_vector)
            requires
                low == 0 || low == 1,
        ;
    } else {
        lemma_scanned_prefix(bits, n - 1, i);
        let k = (n - 1 - i) as u32;
        let j = (n - 2 - i) as u32;
        assert((((before << 1) | low) >> k) & 1 == (before >> j) & 1) by (bit_vector)
            requires
                low == 0 || low == 1,
                1 <= k < 32,
                j == k - 1,
        ;
    }
}

/// A push button that reports a press once, when its pin goes low.
pub struct Button2 {
    state: bool,
}

impl Button2 {
    /// Whether the button was held at the last poll.
    pub closed spec fn held(&self) -> bool {
        self.state
    }

    /// A button that was not held so far.
    pub fn new() -> (r: Self)
        ensures
            !r.held(),
    {
        Button2 { state: false }
    }

    /// Takes the level of the pin at this poll, `low` meaning pressed. True
    /// only at the poll at which the button goes down.
    pub fn just_pressed(&mut self, low: bool) -> (r: bool)
        ensures
            r == (low && !old(self).held()),
            final(self).held() == low,
    {
        if low {
            if self.state {
                false
            } else {
                self.state = true;
                true
            }
        } else {
            self.state = false;
            false
        }
    }
}

} // verus!
