//! The memory-reference instruction format and its decoder.

use vstd::prelude::*;

use crate::word::{is_address, is_word, ADDR_MASK};

verus! {

/// Logical and of the accumulator with C(Y).
pub const OP_AND: u32 = 1;

/// Inclusive or of the accumulator with C(Y).
pub const OP_IOR: u32 = 2;

/// Exclusive or of the accumulator with C(Y).
pub const OP_XOR: u32 = 3;

/// Execute the instruction held at Y.
pub const OP_XCT: u32 = 4;

/// Load the accumulator from Y.
pub const OP_LAC: u32 = 10;

/// Deposit the accumulator at Y.
pub const OP_DAC: u32 = 12;

/// Subtract C(Y) from the accumulator.
pub const OP_SUB: u32 = 21;

/// In-out transfer.
pub const OP_IOT: u32 = 35;

/// The three fields of a memory-reference instruction.
///
/// In a word the opcode takes the top five bits, the indirect bit the next one
/// and the address the low twelve.
#[derive(Clone, Copy, Debug, PartialEq, Eq, Structural)]
pub struct Instruction {
    /// The opcode.
    pub instruction: u32,
    /// The indirect bit: 1 when Y is read from memory at `address`.
    pub indirect: u32,
    /// The address field.
    pub address: u32,
}

impl Instruction {
    /// Each field fits in its bit width.
    pub open spec fn wf(self) -> bool {
        &&& self.instruction <= 31
        &&& self.indirect <= 1
        &&& is_address(self.address)
    }
}

/// The fields that the decoder reads out of a word.
pub open spec fn decode_spec(w: u32) -> Instruction {
    Instruction { instruction: w >> 13, indirect: (w >> 12) & 1, address: w & 0xFFF }
}

/// The word that holds the three fields of `ins`.
pub open spec fn encode_spec(ins: Instruction) -> u32 {
    (ins.instruction << 13) | (ins.indirect << 12) | ins.address
}

/// The fields of a word are within their widths.
pub proof fn lemma_decode_wf(w: u32)
    requires
        is_word(w),
    ensures
        decode_spec(w).wf(),
{
    assert(w >> 13 <= 31 && (w >> 12) & 1 <= 1 && w & 0xFFF <= 0xFFF) by (bit_vector)
        requires
            w <= 0x3FFFF,
    ;
}

/// Splits a word into opcode, indirect bit and address.
pub fn decode_instruction(ins: u32) -> (r: Instruction)
    ensures
        r == decode_spec(ins),
        is_word(ins) ==> r.wf(),
{
    proof {
        if is_word(ins) {
            lemma_decode_wf(ins);
        }
    }
    Instruction { instruction: ins >> 13, indirect: (ins >> 12) & 1, address: ins & ADDR_MASK }
}

/// Decoding is exact: the fields of a word put back together give the word,
/// and the fields of any well-formed instruction survive a trip through a
/// word.
pub proof fn lemma_decode_encode(w: u32, ins: Instruction)
    requires
        is_word(w),
        ins.wf(),
    ensures
        decode_spec(w).instruction == w >> 13,
        decode_spec(w).indirect == (w >> 12) & 1,
        decode_spec(w).address == w & 0xFFF,
        encode_spec(decode_spec(w)) == w,
        decode_spec(encode_spec(ins)) == ins,
        is_word(encode_spec(ins)),
{
    let (o, i, a) = (ins.instruction, ins.indirect, ins.address);
    assert(((w >> 13) << 13) | (((w >> 12) & 1) << 12) | (w & 0xFFF) == w) by (bit_vector)
        requires
            w <= 0x3FFFF,
    ;
    let e = (o << 13) | (i << 12) | a;
    assert(e >> 13 == o && (e >> 12) & 1 == i && e & 0xFFF == a && e <= 0x3FFFF) by (bit_vector)
        requires
            o <= 31,
            i <= 1,
            a <= 0xFFF,
            e == (o << 13) | (i << 12) | a,
    ;
}

} // verus!
