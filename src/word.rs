//! Machine words and addresses, and ones'-complement arithmetic on them.

use vstd::prelude::*;

verus! {

/// The 18 significant bits of a word.
pub const DATA_MASK: u32 = 0x3FFFF;

/// The 12 significant bits of an address.
pub const ADDR_MASK: u32 = 0xFFF;

/// The number of words of core memory.
pub const MEMORY_WORDS: usize = 4096;

/// The sign bit of a word.
pub const SIGN_BIT: u32 = 0x20000;

/// A value that fits in a word.
pub open spec fn is_word(w: u32) -> bool {
    w <= DATA_MASK
}

/// A value that fits in an address.
pub open spec fn is_address(a: u32) -> bool {
    a <= ADDR_MASK
}

/// A word is negative in ones' complement when its top bit is set.
pub open spec fn is_negative(w: u32) -> bool {
    w >= SIGN_BIT
}

/// The address after `a`, wrapping round the end of memory.
pub open spec fn next_address(a: u32) -> u32 {
    ((a + 1) % 4096) as u32
}

/// `ac - y` in ones' complement: the plain difference when it is not negative,
/// else the complement of its magnitude.
pub open spec fn ones_complement_difference(ac: u32, y: u32) -> u32 {
    if y <= ac {
        (ac - y) as u32
    } else {
        (DATA_MASK - (y - ac)) as u32
    }
}

/// A subtraction overflows when the minuend and the negated subtrahend have the
/// same sign and the result has the other.
pub open spec fn sub_overflows(ac: u32, y: u32) -> bool {
    is_negative(ac) != is_negative(y) && is_negative(ones_complement_difference(ac, y))
        != is_negative(ac)
}

/// The integer that a word stands for in ones' complement; both zeros stand
/// for 0.
pub open spec fn signed_value(w: u32) -> int {
    if is_negative(w) {
        w - DATA_MASK
    } else {
        w as int
    }
}

/// Ones'-complement subtraction is exact: without overflow the difference
/// stands for the integer difference of what the operands stand for, and in
/// every case it is congruent to it modulo `2^18 - 1`.
pub proof fn lemma_difference_exact(ac: u32, y: u32)
    requires
        is_word(ac),
        is_word(y),
    ensures
        is_word(ones_complement_difference(ac, y)),
        !sub_overflows(ac, y) ==> signed_value(ones_complement_difference(ac, y)) == signed_value(
            ac,
        ) - signed_value(y),
        (ones_complement_difference(ac, y) - (ac - y)) % (DATA_MASK as int) == 0,
{
}

/// Subtracts `y` from `ac` by complementing `ac`, adding `y` with an
/// end-around carry, and complementing the sum.
pub fn ones_complement_sub(ac: u32, y: u32) -> (r: u32)
    requires
        is_word(ac),
        is_word(y),
    ensures
        r == ones_complement_difference(ac, y),
        is_word(r),
{
    let complemented = ac ^ DATA_MASK;
    assert(complemented == DATA_MASK - ac) by (bit_vector)
        requires
            ac <= 0x3FFFF,
            complemented == ac ^ 0x3FFFF,
    ;
    let mut sum: u32 = complemented + y;
    if sum > DATA_MASK {
        let carried: u32 = sum + 1;
        sum = carried & DATA_MASK;
        assert(sum == carried - 0x40000) by (bit_vector)
            requires
                0x40000 < carried <= 0x7FFFF,
                sum == carried & 0x3FFFF,
        ;
    }
    let r = sum ^ DATA_MASK;
    assert(r == DATA_MASK - sum) by (bit_vector)
        requires
            sum <= 0x3FFFF,
            r == sum ^ 0x3FFFF,
    ;
    r
}

} // verus!
