//! The one-byte result flag heading every response: an ACK bit, an OK bit
//! and an ERR bit, of which exactly two compositions occur in traffic.

use vstd::prelude::*;

verus! {

/// The acknowledge bit.
pub const ACK: u8 = 0x80;

/// The success bit.
pub const OK: u8 = 0x40;

/// The failure bit.
pub const ERR: u8 = 0x20;

/// The flag heading a successful response.
pub const ACK_OK: u8 = 0xC0;

/// The flag heading an error response.
pub const ACK_ERR: u8 = 0xA0;

/// A result flag: a byte that uses only the three defined bits.
#[derive(Clone, Copy, Debug, PartialEq, Eq, Structural)]
pub struct ServerResult {
    bits: u8,
}

/// Whether a byte uses only the defined flag bits.
pub open spec fn known_bits(b: u8) -> bool {
    b & 0x1f == 0
}

impl ServerResult {
    /// Reads a flag byte, rejecting any byte with undefined bits.
    pub fn from_bits(b: u8) -> (r: Option<ServerResult>)
        ensures
            match r {
                Some(f) => known_bits(b) && f.spec_bits() == b,
                None => !known_bits(b),
            },
    {
        if b & 0x1f == 0 {
            Some(ServerResult { bits: b })
        } else {
            None
        }
    }

    /// The spec-level byte of this flag.
    pub closed spec fn spec_bits(&self) -> u8 {
        self.bits
    }

    /// The raw flag byte.
    pub fn bits(&self) -> (r: u8)
        ensures
            r == self.spec_bits(),
    {
        self.bits
    }

    /// Whether the acknowledge bit is set.
    pub fn contains_ack(&self) -> (r: bool)
        ensures
            r == (self.spec_bits() & ACK == ACK),
    {
        self.bits & ACK == ACK
    }
}

/// How a received flag byte is to be treated.
#[derive(Clone, Copy, Debug, PartialEq, Eq, Structural)]
pub enum FlagClass {
    /// A successful response follows.
    AckOk,
    /// A signed error reply follows.
    AckErr,
    /// Anything else is a fatal framing error.
    Malformed,
}

/// The class of each possible flag byte.
pub open spec fn flag_class(b: u8) -> FlagClass {
    if b == ACK_OK {
        FlagClass::AckOk
    } else if b == ACK_ERR {
        FlagClass::AckErr
    } else {
        FlagClass::Malformed
    }
}

/// Classifies a received flag byte: only `ACK|OK` and `ACK|ERR` are ever
/// sent; any other value is a protocol error.
pub fn classify_flag(b: u8) -> (r: FlagClass)
    ensures
        r == flag_class(b),
{
    if b == ACK_OK {
        FlagClass::AckOk
    } else if b == ACK_ERR {
        FlagClass::AckErr
    } else {
        FlagClass::Malformed
    }
}

/// The two flags seen in traffic are composed of the defined bits.
pub proof fn lemma_traffic_flags_known()
    ensures
        known_bits(ACK_OK),
        known_bits(ACK_ERR),
        ACK_OK == (ACK | OK),
        ACK_ERR == (ACK | ERR),
{
    assert(0xC0u8 & 0x1f == 0) by (bit_vector);
    assert(0xA0u8 & 0x1f == 0) by (bit_vector);
    assert(0xC0u8 == (0x80u8 | 0x40u8)) by (bit_vector);
    assert(0xA0u8 == (0x80u8 | 0x20u8)) by (bit_vector);
}

} // verus!
