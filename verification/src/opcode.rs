//! Operation identifiers: the canonical one-byte tag of each defined RPC
//! operation, and the legacy single-byte bit-set form.

use vstd::prelude::*;

verus! {

/// The legacy ARP bit.
pub const OPCODE_ARP: u8 = 0x80;

/// The legacy TEXT bit.
pub const OPCODE_TEXT: u8 = 0x01;

/// The legacy opcode byte: a bit-set with an ARP bit and a TEXT bit.
#[derive(Clone, Copy, Debug, PartialEq, Eq, Structural)]
pub struct Opcode {
    bits: u8,
}

impl Opcode {
    /// Reads a legacy opcode byte, rejecting undefined bits.
    pub fn from_bits(b: u8) -> (r: Option<Opcode>)
        ensures
            match r {
                Some(f) => b & 0x7e == 0 && f.spec_bits() == b,
                None => b & 0x7e != 0,
            },
    {
        if b & 0x7e == 0 {
            Some(Opcode { bits: b })
        } else {
            None
        }
    }

    /// The spec-level byte of this opcode.
    pub closed spec fn spec_bits(&self) -> u8 {
        self.bits
    }

    /// The raw opcode byte.
    pub fn bits(&self) -> (r: u8)
        ensures
            r == self.spec_bits(),
    {
        self.bits
    }
}

impl Default for Opcode {
    /// The default legacy opcode is TEXT.
    fn default() -> (r: Opcode)
        ensures
            r.spec_bits() == OPCODE_TEXT,
    {
        Opcode { bits: OPCODE_TEXT }
    }
}

/// One of the defined RPC operations, identified on the wire by its
/// position in this declaration.
#[derive(Clone, Copy, Debug, PartialEq, Eq, Structural)]
pub enum OpCode {
    GetAccountPrimary,
    SetAccountPrimary,
    DeleteAccountPrimary,
    GetAddress,
    SetAddress,
    DeleteAddress,
}

/// The canonical tag byte of each operation.
pub open spec fn opcode_byte(op: OpCode) -> u8 {
    match op {
        OpCode::GetAccountPrimary => 0,
        OpCode::SetAccountPrimary => 1,
        OpCode::DeleteAccountPrimary => 2,
        OpCode::GetAddress => 3,
        OpCode::SetAddress => 4,
        OpCode::DeleteAddress => 5,
    }
}

impl OpCode {
    /// The tag byte sent on the wire for this operation.
    pub fn to_byte(&self) -> (r: u8)
        ensures
            r == opcode_byte(*self),
    {
        match self {
            OpCode::GetAccountPrimary => 0,
            OpCode::SetAccountPrimary => 1,
            OpCode::DeleteAccountPrimary => 2,
            OpCode::GetAddress => 3,
            OpCode::SetAddress => 4,
            OpCode::DeleteAddress => 5,
        }
    }

    /// Reads an operation back from its tag byte; an unknown tag is a
    /// protocol error.
    pub fn from_byte(b: u8) -> (r: Option<OpCode>)
        ensures
            match r {
                Some(op) => opcode_byte(op) == b,
                None => forall|op: OpCode| opcode_byte(op) != b,
            },
    {
        match b {
            0 => Some(OpCode::GetAccountPrimary),
            1 => Some(OpCode::SetAccountPrimary),
            2 => Some(OpCode::DeleteAccountPrimary),
            3 => Some(OpCode::GetAddress),
            4 => Some(OpCode::SetAddress),
            5 => Some(OpCode::DeleteAddress),
            _ => None,
        }
    }
}

/// The tag byte pins the operation.
pub proof fn lemma_opcode_byte_injective(a: OpCode, b: OpCode)
    requires
        opcode_byte(a) == opcode_byte(b),
    ensures
        a == b,
{
}

} // verus!
