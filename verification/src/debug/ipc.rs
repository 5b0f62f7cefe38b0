//! Framing of diagnostic messages on the local socket: a 4-byte big-endian
//! length followed by the message.

use vstd::prelude::*;
use vstd::string::StringExecFns;

verus! {

/// The big-endian bytes of `v`.
pub open spec fn spec_be_bytes(v: u32) -> Seq<u8> {
    seq![
        (v / 0x100_0000) as u8,
        ((v / 0x1_0000) % 0x100) as u8,
        ((v / 0x100) % 0x100) as u8,
        (v % 0x100) as u8,
    ]
}

/// The length header of a frame whose message is `len` bytes long: the
/// length as a `u32` (its low 32 bits), big-endian.
pub fn frame_header(len: usize) -> (res: [u8; 4])
    ensures
        res@ == spec_be_bytes(len as u32),
{
    let v: u32 = len as u32;
    [(v / 0x100_0000) as u8, ((v / 0x1_0000) % 0x100) as u8, ((v / 0x100) % 0x100) as u8, (v % 0x100) as u8]
}

/// The message length announced by a frame header.
pub fn frame_len(header: [u8; 4]) -> (res: u32)
    ensures
        res == header@[0] * 0x100_0000 + header@[1] * 0x1_0000 + header@[2] * 0x100 + header@[3],
{
    (header[0] as u32) * 0x100_0000 + (header[1] as u32) * 0x1_0000 + (header[2] as u32) * 0x100 + (header[3] as u32)
}

/// Reading a header back gives the length that was written.
pub proof fn law_frame_roundtrip(v: u32)
    ensures
        ({
            let b = spec_be_bytes(v);
            b[0] * 0x100_0000 + b[1] * 0x1_0000 + b[2] * 0x100 + b[3] == v
        }),
{
    let b = spec_be_bytes(v);
    assert(b[0] * 0x100_0000 + b[1] * 0x1_0000 + b[2] * 0x100 + b[3] == v) by (nonlinear_arith)
        requires
            b[0] == v / 0x100_0000,
            b[1] == (v / 0x1_0000) % 0x100,
            b[2] == (v / 0x100) % 0x100,
            b[3] == v % 0x100,
            0 <= v < 0x1_0000_0000,
    ;
}

/// The file name of the diagnostic socket of session `session_id`.
pub fn diagnostic_socket_file_name(session_id: &str) -> (res: String)
    ensures
        res@ == "beach-debug-"@ + session_id@ + ".sock"@,
{
    let mut name = String::from_str("beach-debug-");
    name.append(session_id);
    name.append(".sock");
    name
}

} // verus!
