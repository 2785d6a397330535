//! A compact binary encoding for Morse code text.
//!
//! Text over a fixed 44-character alphabet (letters, digits, a few
//! punctuation marks and the space) is packed into bytes, two bits per
//! Morse symbol, four symbols per byte.  Each character's dit/dah
//! sequence is followed by a terminating `END` symbol; the space
//! character is encoded as a bare terminator.  Because `END` shares its
//! numeric value with the structural zero padding that fills the last
//! byte, a message whose final character is a space additionally carries
//! a single `MARK` symbol after its last terminator, so that trailing
//! spaces and padding never read back ambiguously.

use vstd::prelude::*;

pub mod decoding;
pub mod encoding;
pub mod laws;
pub mod table;

pub use crate::decoding::decode;
pub use crate::encoding::encode;

verus! {

/// A morse code dit, representing a short tap.
pub const DIT: u8 = 2;

/// A morse code dah, representing a long tap.
pub const DAH: u8 = 3;

/// The terminator closing one character's symbol sequence.
///
/// Its value is also the value of the zero padding left in the unused
/// trailing slots of the final byte, which is what makes trailing
/// spaces ambiguous without further help (see [`MARK`]).
pub const END: u8 = 0;

/// The message-end marker.
///
/// The encoder appends one `MARK` symbol after the last terminator
/// whenever the message ends with a space.  A run of `END` symbols
/// closed by `MARK` is a run of spaces; a run of `END` symbols that
/// simply reaches the end of the input is structural padding.  Messages
/// not ending in a space need no marker: their last character's
/// terminator follows a dit or a dah, and everything after it is
/// padding.
pub const MARK: u8 = 1;

/// The failures the codec can report.
#[derive(Clone, Copy, Debug, PartialEq, Eq)]
pub enum MorseError {
    /// The encoder met a character outside the supported alphabet.
    UnsupportedCharacter(char),
    /// The decoder accumulated a bit pattern that names no character.
    MalformedCode,
}

/// A 4-valued rotating position: which 2-bit slot of the current byte
/// is next to be read or written.
#[derive(Copy, Clone, PartialEq, Eq, Structural, Debug)]
pub enum Place {
    Zero,
    One,
    Two,
    Three,
}

/// The slot number (0 to 3) of a cursor position.
pub open spec fn place_idx(p: Place) -> int {
    match p {
        Place::Zero => 0,
        Place::One => 1,
        Place::Two => 2,
        Place::Three => 3,
    }
}

impl Place {
    /// Advance the cursor by one slot, wrapping at the byte boundary.
    pub fn incr(self) -> (r: Self)
        ensures
            place_idx(r) == (place_idx(self) + 1) % 4,
    {
        match self {
            Place::Zero => Place::One,
            Place::One => Place::Two,
            Place::Two => Place::Three,
            Place::Three => Place::Zero,
        }
    }

    /// Get the 2 bits at the place.
    ///
    /// Possible return values are 0, 1, 2 and 3.
    pub fn idx(self, b: u8) -> (r: u8)
        ensures
            r == slot(b, place_idx(self)),
            r <= 3,
    {
        match self {
            Place::Zero => b % 4,
            Place::One => (b / 4) % 4,
            Place::Two => (b / 16) % 4,
            Place::Three => b / 64,
        }
    }
}

/// The 2-bit value held in slot `k` (0 to 3) of byte `b`; slot 0 is the
/// least significant pair of bits.
pub open spec fn slot(b: u8, k: int) -> u8 {
    if k == 0 {
        (b as int % 4) as u8
    } else if k == 1 {
        ((b as int / 4) % 4) as u8
    } else if k == 2 {
        ((b as int / 16) % 4) as u8
    } else {
        (b as int / 64) as u8
    }
}

/// The symbol stream held by a byte sequence: four 2-bit slots per
/// byte, least significant slot first.
pub open spec fn unpack(bytes: Seq<u8>) -> Seq<u8> {
    Seq::new(bytes.len() * 4, |i: int| slot(bytes[i / 4], i % 4))
}

/// `bytes` is exactly `syms` packed four symbols per byte, the unused
/// trailing slots of the last byte left at the padding value.
pub open spec fn packs(bytes: Seq<u8>, syms: Seq<u8>) -> bool {
    &&& bytes.len() == (syms.len() + 3) / 4
    &&& forall|i: int| 0 <= i < syms.len() ==> unpack(bytes)[i] == syms[i]
    &&& forall|i: int| syms.len() <= i < bytes.len() * 4 ==> unpack(bytes)[i] == END
}

/// Every byte is the weighted sum of its four 2-bit slots.
pub proof fn lemma_byte_decomp(b: u8)
    ensures
        b as int == slot(b, 0) + 4 * slot(b, 1) + 16 * slot(b, 2) + 64 * slot(b, 3),
        slot(b, 0) <= 3,
        slot(b, 1) <= 3,
        slot(b, 2) <= 3,
        slot(b, 3) <= 3,
{
    let n = b as int;
    vstd::arithmetic::div_mod::lemma_fundamental_div_mod(n, 4);
    vstd::arithmetic::div_mod::lemma_fundamental_div_mod(n / 4, 4);
    vstd::arithmetic::div_mod::lemma_fundamental_div_mod(n / 16, 4);
    assert((n / 4) / 4 == n / 16) by {
        vstd::arithmetic::div_mod::lemma_div_denominator(n, 4, 4);
    }
    assert((n / 16) / 4 == n / 64) by {
        vstd::arithmetic::div_mod::lemma_div_denominator(n, 16, 4);
    }
}

} // verus!
