//! The optional trailer of a frame: a CRC-16/MODBUS checksum of the payload,
//! low byte first.

use crc::{Crc, CRC_16_MODBUS};
use vstd::prelude::*;

verus! {

/// The CRC-16/MODBUS checksum of a sequence of bytes, as the `crc` crate
/// computes it for its catalogue entry `CRC_16_MODBUS` (polynomial 0x8005,
/// initial value 0xFFFF, input and output reflected, no final xor).
pub uninterp spec fn crc16_modbus(bytes: Seq<u8>) -> u16;

/// Calls `crc::Crc::<u16>::checksum` of the algorithm `CRC_16_MODBUS`. The
/// checksum depends on the bytes alone; the contract gives it its name and
/// claims nothing else of it.
#[verifier::external_body]
fn modbus_checksum(bytes: &[u8]) -> (checksum: u16)
    ensures
        checksum == crc16_modbus(bytes@),
{
    Crc::<u16>::new(&CRC_16_MODBUS).checksum(bytes)
}

/// The two bytes that carry a checksum on the wire: low byte, then high byte.
pub open spec fn trailer(checksum: u16) -> Seq<u8> {
    seq![(checksum % 256) as u8, (checksum / 256) as u8]
}

/// The number that two bytes carry when the first is the low one.
pub open spec fn little_endian(low: u8, high: u8) -> int {
    low + 256 * high
}

/// A payload as it goes on the wire: followed by the trailer of its own
/// checksum when the checksum is enabled, unchanged when it is not.
pub open spec fn with_crc(bytes: Seq<u8>, enabled: bool) -> Seq<u8> {
    if enabled {
        bytes + trailer(crc16_modbus(bytes))
    } else {
        bytes
    }
}

/// Appends the trailer of the given checksum.
pub fn push_checksum(bytes: &mut Vec<u8>, checksum: u16)
    ensures
        final(bytes)@ == old(bytes)@ + trailer(checksum),
{
    bytes.push((checksum % 256) as u8);
    bytes.push((checksum / 256) as u8);
    assert(bytes@ =~= old(bytes)@ + trailer(checksum));
}

/// A buffer of bytes that can take the checksum trailer.
pub trait PushCrc: Sized {
    /// The bytes in the buffer.
    spec fn payload(&self) -> Seq<u8>;

    /// Appends the trailer to the buffer when `crc` is set, and returns a copy
    /// of the buffer as it then is.
    fn push_crc(&mut self, crc: bool) -> (framed: Self)
        ensures
            final(self).payload() == with_crc(old(self).payload(), crc),
            framed.payload() == final(self).payload(),
    ;
}

impl PushCrc for Vec<u8> {
    open spec fn payload(&self) -> Seq<u8> {
        self@
    }

    fn push_crc(&mut self, crc: bool) -> (framed: Self) {
        if crc {
            let checksum: u16 = modbus_checksum(self.as_slice());
            push_checksum(self, checksum);
        }
        self.clone()
    }
}

/// Gives the payload its trailer when `enabled` is set, and hands it back
/// unchanged when it is not.
pub fn append_crc(bytes: Vec<u8>, enabled: bool) -> (framed: Vec<u8>)
    ensures
        framed@ == with_crc(bytes@, enabled),
{
    let mut framed = bytes;
    if enabled {
        let checksum: u16 = modbus_checksum(framed.as_slice());
        push_checksum(&mut framed, checksum);
    }
    framed
}

/// Without the checksum a frame is its payload.
pub proof fn lemma_crc_disabled(bytes: Seq<u8>)
    ensures
        with_crc(bytes, false) == bytes,
{
}

/// With the checksum a frame is two bytes longer than its payload and starts
/// with it, and the two bytes at its end carry, low byte first, the checksum
/// of the bytes before them.
pub proof fn lemma_crc_enabled(bytes: Seq<u8>)
    ensures
        with_crc(bytes, true).len() == bytes.len() + 2,
        with_crc(bytes, true).take(bytes.len() as int) == bytes,
        crc16_modbus(with_crc(bytes, true).take(bytes.len() as int)) == little_endian(
            with_crc(bytes, true)[bytes.len() as int],
            with_crc(bytes, true)[bytes.len() as int + 1],
        ),
{
    let framed = with_crc(bytes, true);
    assert(framed.take(bytes.len() as int) =~= bytes);
}

} // verus!
