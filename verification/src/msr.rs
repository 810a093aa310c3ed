//! Codec for contiguous bit-fields of a 64-bit register value.
//!
//! A field is named by its highest and lowest bit index, both inclusive and
//! counted from zero. The meaning of the codec is stated over natural
//! numbers: a register value is a number below `2^64`, and a field of it is
//! a digit of that number in a mixed power-of-two base.

use vstd::arithmetic::power2::{
    lemma2_to64_rest, lemma_pow2_adds, lemma_pow2_pos, lemma_pow2_strictly_increases, pow2,
};
use vstd::bits::{
    lemma_u64_low_bits_mask_is_mod, lemma_u64_pow2_no_overflow, lemma_u64_shl_is_mul,
    lemma_u64_shr_is_div,
};
use vstd::prelude::*;

verus! {

/// Whether `high` and `low` name a field of a 64-bit register.
pub open spec fn is_field(high: nat, low: nat) -> bool {
    low <= high <= 63
}

/// Number of bits in the field `[low, high]`.
pub open spec fn field_width(high: nat, low: nat) -> nat {
    (high - low + 1) as nat
}

/// The unsigned number held by bits `[low, high]` of `value`.
pub open spec fn field_value(value: nat, high: nat, low: nat) -> nat {
    (value / pow2(low)) % pow2(field_width(high, low))
}

/// Whether bit `index` of `value` is set.
pub open spec fn bit_at(value: nat, index: nat) -> bool {
    (value / pow2(index)) % 2 == 1
}

/// `value` with the number in bits `[low, high]` replaced by `field`, reduced
/// modulo `2^width` so that it fits the field.
///
/// The field's old contribution `field_value * 2^low` never exceeds `value`,
/// so the difference below is a natural number.
pub open spec fn with_field(value: nat, high: nat, low: nat, field: nat) -> nat {
    (value - field_value(value, high, low) * pow2(low) + (field % pow2(field_width(high, low)))
        * pow2(low)) as nat
}

/// The number whose lowest `width` bits are set and no others. Every width
/// from 64 up gives the all-ones value.
pub open spec fn low_mask(width: u64) -> u64 {
    if width >= 64 {
        0xffff_ffff_ffff_ffffu64
    } else {
        ((1u64 << width) - 1) as u64
    }
}

/// The field `[low, high]` of `value`, written with shifts and masks.
pub open spec fn extract_bits(value: u64, high: u64, low: u64) -> u64 {
    (value >> low) & low_mask((high - low + 1) as u64)
}

/// `value` with the field `[low, high]` cleared and the low bits of `field`
/// put in its place, written with shifts and masks.
pub open spec fn splice_bits(value: u64, high: u64, low: u64, field: u64) -> u64 {
    (value & !(low_mask((high - low + 1) as u64) << low)) | ((field & low_mask(
        (high - low + 1) as u64,
    )) << low)
}

/// The mask of the lowest `width` bits is one less than `2^width`.
pub proof fn lemma_low_mask_is_pow2_minus_one(width: u64)
    requires
        width <= 64,
    ensures
        low_mask(width) as nat + 1 == pow2(width as nat),
{
    lemma2_to64_rest();
    if width < 64 {
        lemma_u64_pow2_no_overflow(width as nat);
        lemma_u64_shl_is_mul(1, width);
    }
}

/// Masking with the lowest `width` bits takes the remainder modulo `2^width`.
pub proof fn lemma_low_mask_is_mod(x: u64, width: u64)
    requires
        width <= 64,
    ensures
        (x & low_mask(width)) as nat == x as nat % pow2(width as nat),
{
    lemma_low_mask_is_pow2_minus_one(width);
    if width == 64 {
        lemma2_to64_rest();
        assert(x & 0xffff_ffff_ffff_ffffu64 == x) by (bit_vector);
    } else {
        lemma_u64_pow2_no_overflow(width as nat);
        lemma_u64_low_bits_mask_is_mod(x, width as nat);
    }
}

/// Shifting a number that fits in `width` bits left by `low` multiplies it by
/// `2^low`, as long as the field it lands in lies within the register.
proof fn lemma_field_shl_is_mul(x: u64, width: u64, low: u64)
    requires
        width + low <= 64,
        low < 64,
        x <= low_mask(width),
    ensures
        (x << low) as nat == x as nat * pow2(low as nat),
        x as nat * pow2(low as nat) + pow2(low as nat) <= pow2(64),
{
    let p = pow2(low as nat);
    let m = low_mask(width) as nat;
    lemma_low_mask_is_pow2_minus_one(width);
    lemma_pow2_pos(low as nat);
    lemma_pow2_adds(width as nat, low as nat);
    lemma2_to64_rest();
    if width + low < 64 {
        lemma_pow2_strictly_increases((width + low) as nat, 64);
    }
    assert(x as nat * p <= m * p) by (nonlinear_arith)
        requires
            x as nat <= m,
            p > 0,
    ;
    assert(m * p + p == (m + 1) * p) by (nonlinear_arith);
    lemma_u64_shl_is_mul(x, low);
}

/// The shift-and-mask reading of a field is the number that the field holds.
pub proof fn lemma_extract_bits(value: u64, high: u64, low: u64)
    requires
        is_field(high as nat, low as nat),
    ensures
        extract_bits(value, high, low) as nat == field_value(
            value as nat,
            high as nat,
            low as nat,
        ),
{
    lemma_u64_shr_is_div(value, low);
    lemma_low_mask_is_mod(value >> low, (high - low + 1) as u64);
}

/// The shift-and-mask splice of a field is the arithmetic replacement of the
/// number that the field holds.
pub proof fn lemma_splice_bits(value: u64, high: u64, low: u64, field: u64)
    requires
        is_field(high as nat, low as nat),
    ensures
        splice_bits(value, high, low, field) as nat == with_field(
            value as nat,
            high as nat,
            low as nat,
            field as nat,
        ),
{
    let width = (high - low + 1) as u64;
    let mask = low_mask(width);
    let kept = value & !(mask << low);
    let held = (value >> low) & mask;
    let put = field & mask;
    assert(held <= mask && put <= mask) by (bit_vector)
        requires
            held == (value >> low) & mask,
            put == field & mask,
    ;
    assert(kept + (held << low) == value) by (bit_vector)
        requires
            low < 64,
            kept == value & !(mask << low),
            held == (value >> low) & mask,
    ;
    assert(kept | (put << low) == kept + (put << low)) by (bit_vector)
        requires
            low < 64,
            kept == value & !(mask << low),
            put == field & mask,
    ;
    lemma_extract_bits(value, high, low);
    lemma_low_mask_is_mod(field, width);
    lemma_field_shl_is_mul(held, width, low);
    lemma_field_shl_is_mul(put, width, low);
}

/// Builds the mask of the lowest `width` bits without shifting by 64.
fn mask_of_width(width: u64) -> (mask: u64)
    requires
        1 <= width <= 64,
    ensures
        mask == low_mask(width),
{
    if width == 64 {
        u64::MAX
    } else {
        assert(1u64 << width >= 1) by (bit_vector)
            requires
                width < 64,
        ;
        (1u64 << width) - 1
    }
}

/// Reads the field `[low, high]` of `data`.
///
/// The field may be as narrow as one bit and as wide as the whole register.
pub fn extract_value(data: u64, high: u64, low: u64) -> (field: u64)
    requires
        is_field(high as nat, low as nat),
    ensures
        field as nat == field_value(data as nat, high as nat, low as nat),
        field == extract_bits(data, high, low),
{
    let bits: u64 = high - low + 1;
    let mask: u64 = mask_of_width(bits);
    proof {
        lemma_extract_bits(data, high, low);
    }
    (data >> low) & mask
}

/// Overwrites the field `[low, high]` of `data` with `value`, leaving every
/// other bit as it was.
///
/// A `value` too wide for the field is cut down to the field's width: only
/// its lowest `high - low + 1` bits are stored.
pub fn clear_and_set(data: &mut u64, high: u64, low: u64, value: u64)
    requires
        is_field(high as nat, low as nat),
    ensures
        *final(data) as nat == with_field(
            *old(data) as nat,
            high as nat,
            low as nat,
            value as nat,
        ),
        *final(data) == splice_bits(*old(data), high, low, value),
        forall|index: nat|
            index < 64 && !(low <= index <= high) ==> #[trigger] bit_at(
                *final(data) as nat,
                index,
            ) == bit_at(*old(data) as nat, index),
        forall|index: nat|
            low <= index <= high ==> #[trigger] bit_at(*final(data) as nat, index) == bit_at(
                value as nat,
                (index - low) as nat,
            ),
{
    let bits: u64 = high - low + 1;
    let mask: u64 = mask_of_width(bits);
    let clear_mask: u64 = !(mask << low);
    proof {
        lemma_splice_bits(*data, high, low, value);
        assert forall|index: nat| index < 64 implies #[trigger] bit_at(
            splice_bits(*data, high, low, value) as nat,
            index,
        ) == (if low <= index <= high {
            bit_at(value as nat, (index - low) as nat)
        } else {
            bit_at(*data as nat, index)
        }) by {
            lemma_set_bits(*data, high, low, value, index as u64);
        }
    }
    *data = (*data & clear_mask) | ((value & mask) << low);
}

/// A bit of a register value is the lowest bit of the value shifted down to
/// it.
pub proof fn lemma_bit_at_is_shifted_bit(value: u64, index: u64)
    requires
        index < 64,
    ensures
        bit_at(value as nat, index as nat) == ((value >> index) & 1 == 1),
{
    lemma_u64_shr_is_div(value, index);
    let shifted = value >> index;
    assert(shifted & 1 == shifted % 2) by (bit_vector);
}

/// Reading a field back after writing it gives what was written, reduced
/// modulo `2^width`.
pub proof fn lemma_extract_after_set(value: u64, high: u64, low: u64, field: u64)
    requires
        is_field(high as nat, low as nat),
    ensures
        field_value(
            with_field(value as nat, high as nat, low as nat, field as nat),
            high as nat,
            low as nat,
        ) == field as nat % pow2(field_width(high as nat, low as nat)),
{
    let written = splice_bits(value, high, low, field);
    assert(extract_bits(written, high, low) == field & low_mask((high - low + 1) as u64))
        by (bit_vector)
        requires
            low <= high <= 63,
            written == splice_bits(value, high, low, field),
    ;
    lemma_splice_bits(value, high, low, field);
    lemma_extract_bits(written, high, low);
    lemma_low_mask_is_mod(field, (high - low + 1) as u64);
}

/// Writing a field changes no bit outside `[low, high]`, and inside it
/// stores the bits of the written number, lowest bit first.
pub proof fn lemma_set_bits(value: u64, high: u64, low: u64, field: u64, index: u64)
    requires
        is_field(high as nat, low as nat),
        index < 64,
    ensures
        !(low <= index <= high) ==> bit_at(
            with_field(value as nat, high as nat, low as nat, field as nat),
            index as nat,
        ) == bit_at(value as nat, index as nat),
        low <= index <= high ==> bit_at(
            with_field(value as nat, high as nat, low as nat, field as nat),
            index as nat,
        ) == bit_at(field as nat, (index - low) as nat),
{
    let written = splice_bits(value, high, low, field);
    assert(!(low <= index <= high) ==> (written >> index) & 1 == (value >> index) & 1)
        by (bit_vector)
        requires
            low <= high <= 63,
            index < 64,
            written == splice_bits(value, high, low, field),
    ;
    assert(low <= index <= high ==> (written >> index) & 1 == (field >> ((index - low) as u64))
        & 1) by (bit_vector)
        requires
            low <= high <= 63,
            index < 64,
            written == splice_bits(value, high, low, field),
    ;
    lemma_splice_bits(value, high, low, field);
    lemma_bit_at_is_shifted_bit(written, index);
    lemma_bit_at_is_shifted_bit(value, index);
    if low <= index <= high {
        lemma_bit_at_is_shifted_bit(field, (index - low) as u64);
    }
}

/// Writing the same number into a field a second time changes nothing.
pub proof fn lemma_set_twice(value: u64, high: u64, low: u64, field: u64)
    requires
        is_field(high as nat, low as nat),
    ensures
        with_field(
            with_field(value as nat, high as nat, low as nat, field as nat),
            high as nat,
            low as nat,
            field as nat,
        ) == with_field(value as nat, high as nat, low as nat, field as nat),
{
    let once = splice_bits(value, high, low, field);
    assert(splice_bits(once, high, low, field) == once) by (bit_vector)
        requires
            low <= high <= 63,
            once == splice_bits(value, high, low, field),
    ;
    lemma_splice_bits(value, high, low, field);
    lemma_splice_bits(once, high, low, field);
}

/// Writing back the number that a field already holds leaves the register
/// value as it was.
pub proof fn lemma_set_extracted(value: u64, high: u64, low: u64)
    requires
        is_field(high as nat, low as nat),
    ensures
        with_field(
            value as nat,
            high as nat,
            low as nat,
            field_value(value as nat, high as nat, low as nat),
        ) == value as nat,
{
    let held = extract_bits(value, high, low);
    assert(splice_bits(value, high, low, held) == value) by (bit_vector)
        requires
            low <= high <= 63,
            held == extract_bits(value, high, low),
    ;
    lemma_extract_bits(value, high, low);
    lemma_splice_bits(value, high, low, held);
}

/// Writing one field leaves the number in any field that does not overlap it
/// as it was.
pub proof fn lemma_set_keeps_disjoint_field(
    value: u64,
    high: u64,
    low: u64,
    field: u64,
    other_high: u64,
    other_low: u64,
)
    requires
        is_field(high as nat, low as nat),
        is_field(other_high as nat, other_low as nat),
        other_high < low || high < other_low,
    ensures
        field_value(
            with_field(value as nat, high as nat, low as nat, field as nat),
            other_high as nat,
            other_low as nat,
        ) == field_value(value as nat, other_high as nat, other_low as nat),
{
    let written = splice_bits(value, high, low, field);
    assert(extract_bits(written, other_high, other_low) == extract_bits(
        value,
        other_high,
        other_low,
    )) by (bit_vector)
        requires
            low <= high <= 63,
            other_low <= other_high <= 63,
            other_high < low || high < other_low,
            written == splice_bits(value, high, low, field),
    ;
    lemma_splice_bits(value, high, low, field);
    lemma_extract_bits(written, other_high, other_low);
    lemma_extract_bits(value, other_high, other_low);
}

} // verus!
