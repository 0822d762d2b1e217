//! The byte type shared by data, addresses and opcodes, and its arithmetic.

use vstd::prelude::*;

verus! {

/// An 8-bit value. Registers, memory cells, addresses and opcodes are all bytes.
pub type Byte = u8;

/// The number of cells of the address space.
pub const RAM_SIZE: usize = 256;

/// The sum of two bytes modulo 256.
pub open spec fn wrapping_sum(a: Byte, b: Byte) -> Byte {
    ((a + b) % 256) as Byte
}

/// The difference of two bytes modulo 256.
pub open spec fn wrapping_difference(a: Byte, b: Byte) -> Byte {
    ((a - b) % 256) as Byte
}

/// The address `n` cells after `adr`; the address space is circular.
pub open spec fn advance(adr: Byte, n: int) -> Byte {
    ((adr + n) % 256) as Byte
}

/// Byte addition as the machine performs it: it wraps and never faults.
pub fn byte_add(a: Byte, b: Byte) -> (sum: Byte)
    ensures
        sum == wrapping_sum(a, b),
        sum == advance(a, b as int),
{
    a.wrapping_add(b)
}

/// Byte subtraction as the machine performs it: it wraps and never faults.
pub fn byte_sub(a: Byte, b: Byte) -> (difference: Byte)
    ensures
        difference == wrapping_difference(a, b),
{
    a.wrapping_sub(b)
}

/// A value with a wire encoding.
pub trait ToBytes: Sized {
    /// The bytes that encode the value.
    spec fn encoding(self) -> Seq<Byte>;

    fn to_bytes(self) -> (bytes: Vec<Byte>)
        ensures
            bytes@ == self.encoding(),
    ;
}

/// Advancing by `m` and then by `n` is advancing by `m + n`.
pub proof fn lemma_advance_twice(adr: Byte, m: int, n: int)
    ensures
        advance(advance(adr, m), n) == advance(adr, m + n),
{
}

/// Advancing by nothing stays in place, and a full turn of 256 cells comes back.
pub proof fn lemma_advance_circular(adr: Byte, n: int)
    ensures
        advance(adr, 0) == adr,
        advance(adr, n + 256) == advance(adr, n),
{
}

} // verus!
