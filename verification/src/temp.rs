//! Layout of the temperature-target register and the arithmetic that relates
//! its fields.
//!
//! The register holds the maximum safe temperature of the processor and a
//! calibration offset, both in degrees. The temperature at which the
//! processor starts to throttle is the maximum less the offset.

use crate::field::BitField;
use crate::msr::{
    clear_and_set, extract_value, field_value, lemma_extract_after_set,
    lemma_set_keeps_disjoint_field, with_field,
};
use vstd::arithmetic::power2::{lemma2_to64, pow2};
use vstd::prelude::*;

verus! {

/// Address of the temperature-target register in the per-CPU register space.
pub const MSR_TEMPERATURE_TARGET: u64 = 0x1a2;

/// Highest bit of the calibration-offset field.
pub const TJ_MAX_TCC_OFFSET_HIGH_BIT: u64 = 29;

/// Lowest bit of the calibration-offset field.
pub const TJ_MAX_TCC_OFFSET_LOW_BIT: u64 = 24;

/// Highest bit of the maximum-safe-temperature field.
pub const TJ_MAX_HIGH_BIT: u64 = 23;

/// Lowest bit of the maximum-safe-temperature field.
pub const TJ_MAX_LOW_BIT: u64 = 16;

/// The maximum safe temperature that the register value `raw` holds.
pub open spec fn tj_max_of(raw: nat) -> nat {
    field_value(raw, TJ_MAX_HIGH_BIT as nat, TJ_MAX_LOW_BIT as nat)
}

/// The calibration offset that the register value `raw` holds.
pub open spec fn tcc_offset_of(raw: nat) -> nat {
    field_value(raw, TJ_MAX_TCC_OFFSET_HIGH_BIT as nat, TJ_MAX_TCC_OFFSET_LOW_BIT as nat)
}

/// The calibration offset that brings a processor whose maximum safe
/// temperature is `tjmax` down to `target`: their difference, or zero when
/// the target is not below the maximum.
pub open spec fn offset_for(tjmax: nat, target: nat) -> nat {
    if target >= tjmax {
        0
    } else {
        (tjmax - target) as nat
    }
}

/// The descriptor of the calibration-offset field.
pub fn tcc_offset_field() -> (field: BitField)
    ensures
        field.high_bit() == TJ_MAX_TCC_OFFSET_HIGH_BIT,
        field.low_bit() == TJ_MAX_TCC_OFFSET_LOW_BIT,
{
    match BitField::new(TJ_MAX_TCC_OFFSET_HIGH_BIT, TJ_MAX_TCC_OFFSET_LOW_BIT) {
        Ok(field) => field,
        Err(_) => unreached(),
    }
}

/// The descriptor of the maximum-safe-temperature field.
pub fn tj_max_field() -> (field: BitField)
    ensures
        field.high_bit() == TJ_MAX_HIGH_BIT,
        field.low_bit() == TJ_MAX_LOW_BIT,
{
    match BitField::new(TJ_MAX_HIGH_BIT, TJ_MAX_LOW_BIT) {
        Ok(field) => field,
        Err(_) => unreached(),
    }
}

/// Computes the calibration offset for a desired target temperature.
///
/// A target at or above the maximum safe temperature cannot be requested from
/// the hardware; it is answered with an offset of zero rather than an error.
pub fn calculate_offset(tjmax: u64, target: u64) -> (offset: u64)
    ensures
        offset == offset_for(tjmax as nat, target as nat),
        target <= tjmax ==> tjmax - offset == target,
{
    if target >= tjmax {
        return 0;
    }
    tjmax - target
}

/// The two temperatures that a value of the temperature-target register
/// holds, in degrees.
#[derive(Clone, Copy, Debug, PartialEq, Eq)]
pub struct TargetReading {
    /// Maximum safe temperature of the processor.
    pub tj_max: u64,
    /// Calibration offset below the maximum.
    pub offset: u64,
}

impl TargetReading {
    /// The temperature at which the processor throttles: the maximum safe
    /// temperature less the offset. There is none when the offset exceeds the
    /// maximum.
    pub open spec fn target_of(self) -> Option<u64> {
        if self.offset <= self.tj_max {
            Some((self.tj_max - self.offset) as u64)
        } else {
            None
        }
    }

    /// Computes the temperature at which the processor throttles, if the
    /// reading has one.
    pub fn target(&self) -> (target: Option<u64>)
        ensures
            target == self.target_of(),
    {
        if self.offset <= self.tj_max {
            Some(self.tj_max - self.offset)
        } else {
            None
        }
    }
}

/// Decodes the fields of a value of the temperature-target register.
pub fn read_target(raw: u64) -> (reading: TargetReading)
    ensures
        reading.tj_max == tj_max_of(raw as nat),
        reading.offset == tcc_offset_of(raw as nat),
        reading.tj_max <= 255,
        reading.offset <= 63,
{
    proof {
        lemma2_to64();
    }
    TargetReading {
        tj_max: extract_value(raw, TJ_MAX_HIGH_BIT, TJ_MAX_LOW_BIT),
        offset: extract_value(raw, TJ_MAX_TCC_OFFSET_HIGH_BIT, TJ_MAX_TCC_OFFSET_LOW_BIT),
    }
}

/// The register value that asks for throttling at `target` degrees: `raw`
/// with the calibration-offset field replaced by the offset that `target`
/// calls for.
pub open spec fn retargeted(raw: nat, target: nat) -> nat {
    with_field(
        raw,
        TJ_MAX_TCC_OFFSET_HIGH_BIT as nat,
        TJ_MAX_TCC_OFFSET_LOW_BIT as nat,
        offset_for(tj_max_of(raw), target),
    )
}

/// A new value for the temperature-target register, and the calibration
/// offset that was asked of it.
#[derive(Clone, Copy, Debug, PartialEq, Eq)]
pub struct Retarget {
    /// Offset computed from the maximum safe temperature and the desired
    /// target.
    pub offset: u64,
    /// Register value to write.
    pub raw: u64,
}

/// Works out the register value that asks for throttling at `target`
/// degrees, starting from the current register value `raw`.
///
/// The offset is computed against the maximum safe temperature held in `raw`
/// and spliced into the calibration-offset field; every other bit of `raw` is
/// kept. The field is six bits wide: of an offset above 63 only the lowest
/// six bits are stored.
pub fn retarget(raw: u64, target: u64) -> (plan: Retarget)
    ensures
        plan.offset == offset_for(tj_max_of(raw as nat), target as nat),
        plan.raw == retargeted(raw as nat, target as nat),
        tj_max_of(plan.raw as nat) == tj_max_of(raw as nat),
        tcc_offset_of(plan.raw as nat) == plan.offset % 64,
{
    let tjmax: u64 = extract_value(raw, TJ_MAX_HIGH_BIT, TJ_MAX_LOW_BIT);
    let offset: u64 = calculate_offset(tjmax, target);
    let mut value: u64 = raw;
    clear_and_set(&mut value, TJ_MAX_TCC_OFFSET_HIGH_BIT, TJ_MAX_TCC_OFFSET_LOW_BIT, offset);
    proof {
        lemma2_to64();
        lemma_extract_after_set(
            raw,
            TJ_MAX_TCC_OFFSET_HIGH_BIT,
            TJ_MAX_TCC_OFFSET_LOW_BIT,
            offset,
        );
        lemma_set_keeps_disjoint_field(
            raw,
            TJ_MAX_TCC_OFFSET_HIGH_BIT,
            TJ_MAX_TCC_OFFSET_LOW_BIT,
            offset,
            TJ_MAX_HIGH_BIT,
            TJ_MAX_LOW_BIT,
        );
    }
    Retarget { offset, raw: value }
}

/// Retargeting reaches the temperature that was asked for whenever that
/// temperature does not exceed the maximum safe temperature and lies at most
/// 63 degrees below it: the new register value keeps the maximum and holds an
/// offset that brings it down to `target`.
pub proof fn lemma_retarget_reaches_target(raw: u64, target: u64)
    requires
        target <= tj_max_of(raw as nat) <= target + 63,
    ensures
        tj_max_of(retargeted(raw as nat, target as nat)) == tj_max_of(raw as nat),
        tj_max_of(retargeted(raw as nat, target as nat)) - tcc_offset_of(
            retargeted(raw as nat, target as nat),
        ) == target,
{
    lemma2_to64();
    let offset = offset_for(tj_max_of(raw as nat), target as nat) as u64;
    lemma_extract_after_set(raw, TJ_MAX_TCC_OFFSET_HIGH_BIT, TJ_MAX_TCC_OFFSET_LOW_BIT, offset);
    lemma_set_keeps_disjoint_field(
        raw,
        TJ_MAX_TCC_OFFSET_HIGH_BIT,
        TJ_MAX_TCC_OFFSET_LOW_BIT,
        offset,
        TJ_MAX_HIGH_BIT,
        TJ_MAX_LOW_BIT,
    );
    assert(offset as nat % pow2(6) == offset);
}

} // verus!
