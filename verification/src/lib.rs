//! Bit-field access to the thermal-target model-specific register.
//!
//! [`msr`] holds the generic codec for contiguous bit-fields of a 64-bit
//! register value, and [`field`] the validated descriptors of such fields.
//! [`temp`] describes the layout of the temperature-target register and the
//! arithmetic that relates its fields. [`transport`] says where the register
//! device of a processor is found and what the bytes exchanged with it mean.

pub mod field;
pub mod msr;
pub mod temp;
pub mod transport;
