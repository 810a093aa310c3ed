//! Validated descriptors of bit-fields.

use crate::msr::{bit_at, clear_and_set, extract_value, field_value, is_field, with_field};
use vstd::prelude::*;

verus! {

/// Why a pair of bit indices names no field of a 64-bit register.
#[derive(Clone, Copy, Debug, PartialEq, Eq)]
pub enum FieldError {
    /// One of the indices lies above bit 63.
    OutOfRange,
    /// Both indices lie within the register, but the high index is below the
    /// low index.
    Reversed,
}

/// What is wrong with the pair `(high, low)`, if anything. An index beyond
/// the register is reported before a reversed pair.
pub open spec fn field_error(high: u64, low: u64) -> Option<FieldError> {
    if high > 63 || low > 63 {
        Some(FieldError::OutOfRange)
    } else if high < low {
        Some(FieldError::Reversed)
    } else {
        None
    }
}

/// A contiguous range of bits of a 64-bit register, from `low` up to and
/// including `high`.
///
/// Every value of this type names a field that lies within the register, so
/// its methods accept any register value.
#[derive(Clone, Copy, Debug, PartialEq, Eq)]
pub struct BitField {
    high: u64,
    low: u64,
}

impl BitField {
    #[verifier::type_invariant]
    spec fn within_register(self) -> bool {
        is_field(self.high as nat, self.low as nat)
    }

    /// Index of the field's highest bit.
    pub closed spec fn high_bit(self) -> nat {
        self.high as nat
    }

    /// Index of the field's lowest bit.
    pub closed spec fn low_bit(self) -> nat {
        self.low as nat
    }

    /// Makes the descriptor of bits `[low, high]`, or says why there is no
    /// such field.
    pub fn new(high: u64, low: u64) -> (made: Result<BitField, FieldError>)
        ensures
            match made {
                Ok(field) => {
                    &&& field_error(high, low) is None
                    &&& field.high_bit() == high
                    &&& field.low_bit() == low
                },
                Err(error) => field_error(high, low) == Some(error),
            },
    {
        if high > 63 || low > 63 {
            Err(FieldError::OutOfRange)
        } else if high < low {
            Err(FieldError::Reversed)
        } else {
            Ok(BitField { high, low })
        }
    }

    /// Index of the field's highest bit.
    pub fn high(&self) -> (high: u64)
        ensures
            high == self.high_bit(),
            is_field(self.high_bit(), self.low_bit()),
    {
        proof {
            use_type_invariant(self);
        }
        self.high
    }

    /// Index of the field's lowest bit.
    pub fn low(&self) -> (low: u64)
        ensures
            low == self.low_bit(),
            is_field(self.high_bit(), self.low_bit()),
    {
        proof {
            use_type_invariant(self);
        }
        self.low
    }

    /// Number of bits in the field, from 1 to 64.
    pub fn width(&self) -> (width: u64)
        ensures
            width == self.high_bit() - self.low_bit() + 1,
            1 <= width <= 64,
    {
        proof {
            use_type_invariant(self);
        }
        self.high - self.low + 1
    }

    /// Reads this field of `data`.
    pub fn extract(&self, data: u64) -> (field: u64)
        ensures
            field as nat == field_value(data as nat, self.high_bit(), self.low_bit()),
    {
        proof {
            use_type_invariant(self);
        }
        extract_value(data, self.high, self.low)
    }

    /// Gives `data` with this field overwritten by `value` and every other
    /// bit as it was. Only the lowest `width` bits of `value` are stored.
    pub fn insert(&self, data: u64, value: u64) -> (written: u64)
        ensures
            written as nat == with_field(
                data as nat,
                self.high_bit(),
                self.low_bit(),
                value as nat,
            ),
            forall|index: nat|
                index < 64 && !(self.low_bit() <= index <= self.high_bit()) ==> #[trigger] bit_at(
                    written as nat,
                    index,
                ) == bit_at(data as nat, index),
            forall|index: nat|
                self.low_bit() <= index <= self.high_bit() ==> #[trigger] bit_at(
                    written as nat,
                    index,
                ) == bit_at(value as nat, (index - self.low_bit()) as nat),
    {
        proof {
            use_type_invariant(self);
        }
        let mut written: u64 = data;
        clear_and_set(&mut written, self.high, self.low, value);
        written
    }
}

} // verus!
