//! The frame codec: from the command that the user typed to the bytes that go
//! on the wire, and from the bytes that came back to the text that is shown.

use crate::checksum::{append_crc, with_crc};
use crate::error::PlcError;
use crate::hex::{hex_decode, str_to_hex};
use vstd::prelude::*;
use vstd::utf8::encode_utf8;

verus! {

/// How a typed command is turned into bytes.
#[derive(Copy, Clone, Debug, PartialEq, Eq, Structural)]
pub enum DataMode {
    /// The command lists the bytes in hexadecimal.
    Hex,
    /// The command is sent as it is written.
    Ascii,
}

impl Default for DataMode {
    fn default() -> (mode: Self)
        ensures
            mode == DataMode::Hex,
    {
        DataMode::Hex
    }
}

/// The payload of a command: in hexadecimal mode the bytes that its words
/// stand for, if all of them stand for one; in text mode the UTF-8 bytes of
/// the command, whatever it holds.
pub open spec fn payload(command: Seq<char>, mode: DataMode) -> Option<Seq<u8>> {
    match mode {
        DataMode::Hex => hex_decode(command),
        DataMode::Ascii => Some(encode_utf8(command)),
    }
}

/// Which frames carry the checksum trailer: those of commands in hexadecimal,
/// when the checksum is enabled. A command in text mode is sent without
/// trailer whatever `crc` says.
pub open spec fn trailer_applies(mode: DataMode, crc: bool) -> bool {
    crc && mode == DataMode::Hex
}

/// The frame of a command: its payload, followed by the checksum trailer
/// where [`trailer_applies`] says so.
pub open spec fn wire_frame(command: Seq<char>, mode: DataMode, crc: bool) -> Option<Seq<u8>> {
    match payload(command, mode) {
        Some(bytes) => Some(with_crc(bytes, trailer_applies(mode, crc))),
        None => None,
    }
}

/// Turns a command into its payload. Only a command in hexadecimal can fail,
/// and it fails as a whole: no part of it is returned.
pub fn encode(command: &str, mode: DataMode) -> (r: Result<Vec<u8>, PlcError>)
    ensures
        match r {
            Ok(bytes) => payload(command@, mode) == Some(bytes@),
            Err(e) => payload(command@, mode) is None && e == PlcError::CommandParse,
        },
{
    match mode {
        DataMode::Hex => str_to_hex(command),
        DataMode::Ascii => Ok(command.as_bytes_vec()),
    }
}

/// Builds the frame that a send puts on the wire. A command that has no
/// payload has no frame: nothing of it is sent.
pub fn frame(command: &str, mode: DataMode, crc: bool) -> (r: Result<Vec<u8>, PlcError>)
    ensures
        match r {
            Ok(bytes) => wire_frame(command@, mode, crc) == Some(bytes@),
            Err(e) => wire_frame(command@, mode, crc) is None && e == PlcError::CommandParse,
        },
{
    match encode(command, mode) {
        Ok(bytes) => Ok(append_crc(bytes, crc && mode == DataMode::Hex)),
        Err(e) => Err(e),
    }
}

/// The decimal digit for a value below 10.
pub open spec fn decimal_digit(value: u8) -> char
    recommends
        value < 10,
{
    ('0' as u8 + value) as char
}

/// A byte written in decimal, without leading zeros.
pub open spec fn decimal(byte: u8) -> Seq<char> {
    if byte < 10 {
        seq![decimal_digit(byte)]
    } else if byte < 100 {
        seq![decimal_digit(byte / 10), decimal_digit(byte % 10)]
    } else {
        seq![decimal_digit(byte / 100), decimal_digit(byte / 10 % 10), decimal_digit(byte % 10)]
    }
}

/// Bytes written in decimal, with a comma and a space between neighbours.
pub open spec fn listed(bytes: Seq<u8>) -> Seq<char>
    decreases bytes.len(),
{
    if bytes.len() == 0 {
        Seq::empty()
    } else if bytes.len() == 1 {
        decimal(bytes[0])
    } else {
        listed(bytes.drop_last()) + seq![',', ' '] + decimal(bytes.last())
    }
}

/// Received bytes as they are shown: the list of their values in square
/// brackets.
pub open spec fn display_text(bytes: Seq<u8>) -> Seq<char> {
    seq!['['] + listed(bytes) + seq![']']
}

/// Writes the decimal digit for a value below 10.
fn decimal_digit_of(value: u8) -> (c: char)
    requires
        value < 10,
    ensures
        c == decimal_digit(value),
{
    ('0' as u8 + value) as char
}

/// Appends a byte in decimal.
fn push_decimal(line: &mut String, byte: u8)
    ensures
        final(line)@ == old(line)@ + decimal(byte),
{
    if byte >= 100 {
        line.push(decimal_digit_of(byte / 100));
    }
    if byte >= 10 {
        line.push(decimal_digit_of(byte / 10 % 10));
    }
    line.push(decimal_digit_of(byte % 10));
    assert(line@ =~= old(line)@ + decimal(byte));
}

/// Renders received bytes for display. The bytes are shown as numbers: the
/// codec gives them no meaning.
pub fn decode_for_display(bytes: &[u8]) -> (line: String)
    ensures
        line@ == display_text(bytes@),
{
    let mut line = String::new();
    line.push('[');
    let n: usize = bytes.len();
    let mut i: usize = 0;
    while i < n
        invariant
            i <= n,
            n == bytes@.len(),
            line@ == seq!['['] + listed(bytes@.take(i as int)),
        decreases n - i,
    {
        let ghost before = line@;
        if i > 0 {
            line.push(',');
            line.push(' ');
        }
        push_decimal(&mut line, bytes[i]);
        proof {
            let next = bytes@.take(i + 1);
            assert(next.drop_last() =~= bytes@.take(i as int));
            assert(next.last() == bytes@[i as int]);
            if i > 0 {
                assert(line@ =~= before + seq![',', ' '] + decimal(bytes@[i as int]));
            }
            assert(line@ =~= seq!['['] + listed(next));
        }
        i = i + 1;
    }
    assert(bytes@.take(n as int) =~= bytes@);
    line.push(']');
    assert(line@ =~= display_text(bytes@));
    line
}

} // verus!
