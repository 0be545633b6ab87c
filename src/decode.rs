//! Notification payloads: a 1-byte code or a 2-byte big-endian code.
use vstd::prelude::*;

verus! {

/// The code carried by one notification payload; the device firmware gives
/// each code its meaning (button, wheel step, dial).
#[derive(Debug, Clone, Copy, PartialEq, Eq, Structural)]
pub enum InputCode {
    Byte(u8),
    Word(u16),
}

/// The big-endian 16-bit value of two bytes.
pub open spec fn be16(hi: u8, lo: u8) -> u16 {
    (hi as int * 256 + lo as int) as u16
}

/// What a payload decodes to: by its exact length, nothing for any length
/// other than one or two.
pub open spec fn decode_spec(p: Seq<u8>) -> Option<InputCode> {
    if p.len() == 1 {
        Some(InputCode::Byte(p[0]))
    } else if p.len() == 2 {
        Some(InputCode::Word(be16(p[0], p[1])))
    } else {
        None
    }
}

/// Reads two bytes as a big-endian `u16`.
pub fn u16_from_be(hi: u8, lo: u8) -> (r: u16)
    ensures
        r == be16(hi, lo),
        r as int == hi as int * 256 + lo as int,
{
    (hi as u16) * 256 + (lo as u16)
}

/// Decodes one payload; a payload of any other length than one or two bytes
/// gives `None` and is to be discarded.
pub fn decode(payload: &[u8]) -> (r: Option<InputCode>)
    ensures
        r == decode_spec(payload@),
{
    if payload.len() == 1 {
        Some(InputCode::Byte(payload[0]))
    } else if payload.len() == 2 {
        Some(InputCode::Word(u16_from_be(payload[0], payload[1])))
    } else {
        None
    }
}

impl InputCode {
    /// The code as an integer: the byte, or the big-endian word.
    pub fn value(&self) -> (r: u16)
        ensures
            r == match *self {
                InputCode::Byte(b) => b as u16,
                InputCode::Word(w) => w,
            },
    {
        match *self {
            InputCode::Byte(b) => b as u16,
            InputCode::Word(w) => w,
        }
    }
}

/// Every one-byte payload decodes, to its byte.
pub proof fn lemma_one_byte_total(b: u8)
    ensures
        decode_spec(seq![b]) == Some(InputCode::Byte(b)),
{
}

/// Every two-byte payload decodes, to its big-endian word.
pub proof fn lemma_two_bytes_total(hi: u8, lo: u8)
    ensures
        decode_spec(seq![hi, lo]) == Some(InputCode::Word(be16(hi, lo))),
        be16(hi, lo) as int == hi as int * 256 + lo as int,
{
}

/// No payload of another length decodes.
pub proof fn lemma_other_lengths_rejected(p: Seq<u8>)
    requires
        p.len() != 1,
        p.len() != 2,
    ensures
        decode_spec(p) is None,
{
}

} // verus!
