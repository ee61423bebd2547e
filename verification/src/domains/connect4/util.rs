//! Counting and reading single bits of a 64-bit word.

use vstd::prelude::*;

verus! {

/// Whether bit number `index` of `value` is set. No bit is set outside
/// positions 0 to 63.
pub open spec fn bit_set(value: u64, index: int) -> bool {
    0 <= index < 64 && (value >> (index as u64)) & 1 == 1
}

/// How many of the `n` lowest bits of `value` are set.
pub open spec fn ones_below(value: u64, n: nat) -> nat
    decreases n,
{
    if n == 0 {
        0
    } else {
        ones_below(value, (n - 1) as nat) + if bit_set(value, n - 1) {
            1nat
        } else {
            0nat
        }
    }
}

/// How many bits of `value` are set.
pub open spec fn ones(value: u64) -> nat {
    ones_below(value, 64)
}

/// Testing a word against the one-bit mask of a position reads that bit.
pub proof fn lemma_bit_of_mask(value: u64, index: u64)
    requires
        index < 64,
    ensures
        (value & (1u64 << index) != 0) == bit_set(value, index as int),
        ((1u64 << index) & value != 0) == bit_set(value, index as int),
{
    assert((value & (1u64 << index) != 0) == ((value >> index) & 1 == 1) && ((1u64 << index)
        & value != 0) == ((value >> index) & 1 == 1)) by (bit_vector)
        requires
            index < 64,
    ;
}

/// Bit `index` of `a & b` is set exactly when it is set in both.
pub proof fn lemma_and_bit(a: u64, b: u64, index: int)
    ensures
        bit_set(a & b, index) == (bit_set(a, index) && bit_set(b, index)),
{
    if 0 <= index < 64 {
        let i = index as u64;
        assert((((a & b) >> i) & 1 == 1) == (((a >> i) & 1 == 1) && ((b >> i) & 1 == 1)))
            by (bit_vector)
            requires
                i < 64,
        ;
    }
}

/// Bit `index` of `a | b` is set exactly when it is set in one of them.
pub proof fn lemma_or_bit(a: u64, b: u64, index: int)
    ensures
        bit_set(a | b, index) == (bit_set(a, index) || bit_set(b, index)),
{
    if 0 <= index < 64 {
        let i = index as u64;
        assert((((a | b) >> i) & 1 == 1) == (((a >> i) & 1 == 1) || ((b >> i) & 1 == 1)))
            by (bit_vector)
            requires
                i < 64,
        ;
    }
}

/// Shifting right by `step` moves bit `index + step` down to `index`.
pub proof fn lemma_shift_bit(value: u64, step: u64, index: int)
    requires
        step < 64,
        0 <= index,
    ensures
        bit_set(value >> step, index) == bit_set(value, index + step),
{
    if index < 64 {
        let i = index as u64;
        if index + step < 64 {
            let j = (index + step) as u64;
            assert((((value >> step) >> i) & 1 == 1) == ((value >> j) & 1 == 1)) by (bit_vector)
                requires
                    step < 64,
                    i < 64,
                    j == i + step,
                    j < 64,
            ;
        } else {
            assert(((value >> step) >> i) & 1 == 0) by (bit_vector)
                requires
                    step < 64,
                    i < 64,
                    i + step >= 64,
            ;
        }
    }
}

/// Flipping bit `position` changes that bit and no other.
pub proof fn lemma_flip_bit(value: u64, position: u64, index: int)
    requires
        position < 64,
    ensures
        bit_set(value ^ (1u64 << position), index) == (if index == position {
            !bit_set(value, index)
        } else {
            bit_set(value, index)
        }),
{
    if 0 <= index < 64 {
        let i = index as u64;
        assert((((value ^ (1u64 << position)) >> i) & 1 == 1) == (if i == position {
            !((value >> i) & 1 == 1)
        } else {
            (value >> i) & 1 == 1
        })) by (bit_vector)
            requires
                position < 64,
                i < 64,
        ;
    }
}

/// A word with a bit set is not zero.
pub proof fn lemma_bit_implies_nonzero(value: u64, index: int)
    requires
        bit_set(value, index),
    ensures
        value != 0,
{
    let i = index as u64;
    assert(((value >> i) & 1 == 1) ==> value != 0) by (bit_vector);
}

/// A word that is not zero has a bit set: the function returns the position
/// of the lowest one.
pub proof fn lemma_nonzero_has_bit(value: u64) -> (index: int)
    requires
        value != 0,
    ensures
        bit_set(value, index),
    decreases value,
{
    if value & 1 == 1 {
        assert(value >> 0 == value) by (bit_vector);
        0
    } else {
        let rest = value >> 1;
        assert(rest != 0 && rest < value) by (bit_vector)
            requires
                value != 0,
                value & 1 != 1,
                rest == value >> 1,
        ;
        let below = lemma_nonzero_has_bit(rest);
        lemma_shift_bit(value, 1, below);
        below + 1
    }
}

/// A word that has no bit outside `mask` has each of its bits inside it.
pub proof fn lemma_bit_inside_mask(value: u64, mask: u64, index: int)
    requires
        value & !mask == 0,
        bit_set(value, index),
    ensures
        bit_set(mask, index),
{
    let i = index as u64;
    assert((value & !mask == 0 && (value >> i) & 1 == 1) ==> (mask >> i) & 1 == 1)
        by (bit_vector);
}

/// Setting a bit that was clear adds one to the count of the bits at or
/// below any position above it, and leaves the count of the bits below it.
pub proof fn lemma_ones_below_after_flip(value: u64, position: u64, n: nat)
    requires
        position < 64,
        !bit_set(value, position as int),
        n <= 64,
    ensures
        ones_below(value ^ (1u64 << position), n) == ones_below(value, n) + if position < n {
            1nat
        } else {
            0nat
        },
    decreases n,
{
    if n > 0 {
        lemma_ones_below_after_flip(value, position, (n - 1) as nat);
        lemma_flip_bit(value, position, n - 1);
    }
}

/// Setting a bit that was clear adds one to the number of set bits.
pub proof fn lemma_ones_after_flip(value: u64, position: u64)
    requires
        position < 64,
        !bit_set(value, position as int),
    ensures
        ones(value ^ (1u64 << position)) == ones(value) + 1,
{
    lemma_ones_below_after_flip(value, position, 64);
}

/// Counts the bits of `value` that are set.
pub fn count_ones(value: u64) -> (count: u8)
    ensures
        count == ones(value),
{
    let mut count: u8 = 0;
    let mut new_value: u64 = value;
    let mut k: u64 = 0;
    assert(value >> 0 == value) by (bit_vector);
    while k < 64
        invariant
            k <= 64,
            count == ones_below(value, k as nat),
            count <= k,
            k < 64 ==> new_value == value >> k,
        decreases 64 - k,
    {
        proof {
            if k < 63 {
                assert((value >> k) >> 1 == value >> ((k + 1) as u64)) by (bit_vector)
                    requires
                        k < 63,
                ;
            }
        }
        if new_value & 1 == 1 {
            count += 1;
        }
        new_value = new_value >> 1;
        k += 1;
    }
    count
}

} // verus!
