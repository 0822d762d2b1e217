//! The six registers and their wire encoding.

use crate::common::{Byte, ToBytes};
use vstd::prelude::*;

verus! {

/// One of the six registers of the machine.
#[derive(Eq, PartialEq, Debug, Clone, Copy, Structural)]
pub enum Register {
    A,
    B,
    C,
    D,
    IP,
    SP,
}

impl Register {
    /// The byte that encodes the register. `0x05` encodes none.
    pub open spec fn code(self) -> Byte {
        match self {
            Register::A => 0x00,
            Register::B => 0x01,
            Register::C => 0x02,
            Register::D => 0x03,
            Register::IP => 0x04,
            Register::SP => 0x06,
        }
    }

    /// The register that a byte encodes, if it encodes one.
    pub open spec fn decode(b: Byte) -> Option<Register> {
        if b == 0x00 {
            Some(Register::A)
        } else if b == 0x01 {
            Some(Register::B)
        } else if b == 0x02 {
            Some(Register::C)
        } else if b == 0x03 {
            Some(Register::D)
        } else if b == 0x04 {
            Some(Register::IP)
        } else if b == 0x06 {
            Some(Register::SP)
        } else {
            None
        }
    }

    /// Decodes a register from its wire code.
    pub fn from_byte(b: Byte) -> (r: Option<Register>)
        ensures
            r == Register::decode(b),
    {
        match b {
            0x00 => Some(Register::A),
            0x01 => Some(Register::B),
            0x02 => Some(Register::C),
            0x03 => Some(Register::D),
            0x04 => Some(Register::IP),
            0x06 => Some(Register::SP),
            _ => None,
        }
    }

    /// Decoding is the inverse of encoding: a byte decodes to a register
    /// exactly when it is that register's code.
    pub proof fn lemma_decode_inverts_code(b: Byte, r: Register)
        ensures
            Register::decode(b) == Some(r) <==> r.code() == b,
            Register::decode(r.code()) == Some(r),
    {
    }

    /// A byte decodes exactly when it is one of 0, 1, 2, 3, 4 and 6.
    pub proof fn lemma_decodable(b: Byte)
        ensures
            Register::decode(b) is Some <==> (b <= 0x04 || b == 0x06),
            Register::decode(0x05) is None,
    {
    }
}

impl ToBytes for Register {
    open spec fn encoding(self) -> Seq<Byte> {
        seq![self.code()]
    }

    fn to_bytes(self) -> (bytes: Vec<Byte>) {
        match self {
            Register::A => vec![0x00],
            Register::B => vec![0x01],
            Register::C => vec![0x02],
            Register::D => vec![0x03],
            Register::IP => vec![0x04],
            Register::SP => vec![0x06],
        }
    }
}

} // verus!
