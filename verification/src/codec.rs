//! Control-command wire framing.
//!
//! A command is framed as `[total length - 1][command bytes]['\n']`: the
//! buffer is laid out as a marker byte, the command, and a trailing newline,
//! and the marker byte is then overwritten with the frame length minus one.
//! The codec only frames bytes; it knows nothing of command semantics.

use vstd::prelude::*;

verus! {

/// The wire frame for a command: a length byte (total frame length minus
/// one), the command bytes, and a trailing newline.
pub open spec fn framed_command(cmd: Seq<u8>) -> Seq<u8>
    recommends
        cmd.len() + 2 <= 255,
{
    seq![(cmd.len() + 1) as u8] + cmd + seq![10u8]
}

/// Frame a control command for the device's control endpoint.
///
/// The frame is two bytes longer than the command, so the command must be
/// short enough for the length (frame length minus one) to fit in one byte.
pub fn encode_command(cmd: &[u8]) -> (frame: Vec<u8>)
    requires
        cmd@.len() + 2 <= 255,
    ensures
        frame@ == framed_command(cmd@),
{
    let mut buffer: Vec<u8> = Vec::with_capacity(cmd.len() + 2);
    buffer.push(0x58u8);
    buffer.extend_from_slice(cmd);
    buffer.push(0x0au8);
    let len_byte: u8 = (buffer.len() - 1) as u8;
    buffer[0] = len_byte;
    proof {
        assert(buffer@ =~= framed_command(cmd@));
    }
    buffer
}

} // verus!
