//! Little-endian 16-bit words as they lie in a byte buffer.

use byteorder::{ByteOrder, LittleEndian};
use vstd::prelude::*;

verus! {

/// The 16-bit word whose low byte is `lo` and whose high byte is `hi`.
pub open spec fn le_word(lo: u8, hi: u8) -> u16 {
    (lo + 256 * hi) as u16
}

/// The first fourteen little-endian words of `bytes`: word `i` is made of the
/// bytes at `2 * i` (low) and `2 * i + 1` (high).
pub open spec fn le_words(bytes: Seq<u8>) -> Seq<u16>
    recommends
        bytes.len() >= 28,
{
    Seq::new(14, |i: int| le_word(bytes[2 * i], bytes[2 * i + 1]))
}

/// Calls `byteorder::LittleEndian::read_u16`, which reads the first two bytes
/// of `buf` as a little-endian word and panics on a shorter buffer. The
/// contract claims exactly that: the result is the word with `buf[0]` as its
/// low byte and `buf[1]` as its high byte. It is believed, not proved.
#[verifier::external_body]
pub(crate) fn read_u16_le(buf: &[u8]) -> (word: u16)
    requires
        buf@.len() >= 2,
    ensures
        word == le_word(buf@[0], buf@[1]),
{
    LittleEndian::read_u16(buf)
}

} // verus!
