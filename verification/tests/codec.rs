use msr_temp::field::{BitField, FieldError};
use msr_temp::{msr, temp};

// Example value with tjmax 100 and offset 15 used
const TEST_REGISTER: u64 = 0xf640000;

// Example value with tjmax 100 and offset 16 used
const TEST_REGISTER2: u64 = 0x10640000;

#[test]
fn extract_offset() {
    let value = msr::extract_value(
        TEST_REGISTER,
        temp::TJ_MAX_TCC_OFFSET_HIGH_BIT,
        temp::TJ_MAX_TCC_OFFSET_LOW_BIT,
    );
    assert_eq!(15, value);
}

#[test]
fn extract_tjmax() {
    let value = msr::extract_value(TEST_REGISTER, temp::TJ_MAX_HIGH_BIT, temp::TJ_MAX_LOW_BIT);
    assert_eq!(100, value);
}

#[test]
fn test_change() {
    let mut register = TEST_REGISTER2;
    msr::clear_and_set(
        &mut register,
        temp::TJ_MAX_TCC_OFFSET_HIGH_BIT,
        temp::TJ_MAX_TCC_OFFSET_LOW_BIT,
        15,
    );
    assert_eq!(TEST_REGISTER, register);
}

#[test]
fn extract_single_bit() {
    assert_eq!(1, msr::extract_value(0b1000, 3, 3));
    assert_eq!(0, msr::extract_value(0b0111, 3, 3));
    assert_eq!(1, msr::extract_value(1 << 63, 63, 63));
    assert_eq!(1, msr::extract_value(1, 0, 0));
}

#[test]
fn extract_whole_register() {
    assert_eq!(u64::MAX, msr::extract_value(u64::MAX, 63, 0));
    assert_eq!(0x0123_4567_89ab_cdef, msr::extract_value(0x0123_4567_89ab_cdef, 63, 0));
    assert_eq!(0, msr::extract_value(0, 63, 0));
}

#[test]
fn extract_top_and_bottom_fields() {
    let value: u64 = 0xfedc_ba98_7654_3210;
    assert_eq!(0x10, msr::extract_value(value, 7, 0));
    assert_eq!(0xfe, msr::extract_value(value, 63, 56));
    assert_eq!(0xba98, msr::extract_value(value, 47, 32));
    assert_eq!(0x7edc_ba98_7654_3210, msr::extract_value(value, 62, 0));
}

#[test]
fn set_single_bit() {
    let mut register: u64 = 0;
    msr::clear_and_set(&mut register, 5, 5, 1);
    assert_eq!(0b10_0000, register);
    msr::clear_and_set(&mut register, 5, 5, 0);
    assert_eq!(0, register);
    let mut top: u64 = 0;
    msr::clear_and_set(&mut top, 63, 63, 1);
    assert_eq!(1 << 63, top);
}

#[test]
fn set_whole_register() {
    let mut register: u64 = 0xdead_beef_0000_ffff;
    msr::clear_and_set(&mut register, 63, 0, 0x0123_4567_89ab_cdef);
    assert_eq!(0x0123_4567_89ab_cdef, register);
    msr::clear_and_set(&mut register, 63, 0, u64::MAX);
    assert_eq!(u64::MAX, register);
}

#[test]
fn set_cuts_wide_value_to_field_width() {
    // 0x5f needs seven bits; the six-bit field keeps 0x1f.
    let mut register = TEST_REGISTER;
    msr::clear_and_set(&mut register, 29, 24, 0x5f);
    assert_eq!(0x1f64_0000, register);
    assert_eq!(0x5f % 64, msr::extract_value(register, 29, 24));

    let mut ones: u64 = 0;
    msr::clear_and_set(&mut ones, 11, 8, u64::MAX);
    assert_eq!(0xf00, ones);
}

#[test]
fn read_back_gives_written_value_modulo_width() {
    let values: [u64; 4] = [0, TEST_REGISTER, u64::MAX, 0x0123_4567_89ab_cdef];
    let fields: [(u64, u64); 5] = [(0, 0), (29, 24), (23, 16), (63, 0), (63, 60)];
    let writes: [u64; 5] = [0, 1, 15, 0x1234, u64::MAX];
    for value in values {
        for (high, low) in fields {
            for written in writes {
                let mut register = value;
                msr::clear_and_set(&mut register, high, low, written);
                let width = high - low + 1;
                let expected = if width == 64 { written } else { written % (1u64 << width) };
                assert_eq!(expected, msr::extract_value(register, high, low));
            }
        }
    }
}

#[test]
fn set_leaves_other_bits_alone() {
    let values: [u64; 3] = [0, u64::MAX, 0x0123_4567_89ab_cdef];
    let fields: [(u64, u64); 4] = [(0, 0), (29, 24), (62, 1), (63, 63)];
    for value in values {
        for (high, low) in fields {
            let mut register = value;
            msr::clear_and_set(&mut register, high, low, 0xaaaa_aaaa_aaaa_aaaa);
            for index in 0..64u64 {
                if index < low || index > high {
                    assert_eq!((value >> index) & 1, (register >> index) & 1);
                } else {
                    let bit = (0xaaaa_aaaa_aaaa_aaaau64 >> (index - low)) & 1;
                    assert_eq!(bit, (register >> index) & 1);
                }
            }
        }
    }
}

#[test]
fn set_twice_is_set_once() {
    let mut once = TEST_REGISTER2;
    msr::clear_and_set(&mut once, 29, 24, 0x2a);
    let mut twice = once;
    msr::clear_and_set(&mut twice, 29, 24, 0x2a);
    assert_eq!(once, twice);
    assert_eq!(0x2a64_0000, twice);
}

#[test]
fn set_extracted_value_changes_nothing() {
    let values: [u64; 3] = [TEST_REGISTER, u64::MAX, 0x0123_4567_89ab_cdef];
    let fields: [(u64, u64); 4] = [(0, 0), (29, 24), (63, 0), (40, 13)];
    for value in values {
        for (high, low) in fields {
            let held = msr::extract_value(value, high, low);
            let mut register = value;
            msr::clear_and_set(&mut register, high, low, held);
            assert_eq!(value, register);
        }
    }
}

#[test]
fn set_keeps_neighbouring_field() {
    let mut register = TEST_REGISTER;
    msr::clear_and_set(&mut register, 29, 24, 63);
    assert_eq!(100, msr::extract_value(register, 23, 16));
    assert_eq!(63, msr::extract_value(register, 29, 24));
    msr::clear_and_set(&mut register, 23, 16, 0);
    assert_eq!(63, msr::extract_value(register, 29, 24));
    assert_eq!(0x3f00_0000, register);
}

#[test]
fn descriptor_of_valid_field() {
    let field = BitField::new(29, 24).unwrap();
    assert_eq!(29, field.high());
    assert_eq!(24, field.low());
    assert_eq!(6, field.width());
    assert_eq!(15, field.extract(TEST_REGISTER));
    assert_eq!(TEST_REGISTER, field.insert(TEST_REGISTER2, 15));
}

#[test]
fn descriptor_of_widest_and_narrowest_field() {
    let whole = BitField::new(63, 0).unwrap();
    assert_eq!(64, whole.width());
    assert_eq!(u64::MAX, whole.extract(u64::MAX));
    assert_eq!(7, whole.insert(u64::MAX, 7));
    let bit = BitField::new(0, 0).unwrap();
    assert_eq!(1, bit.width());
    assert_eq!(1, bit.extract(3));
    assert_eq!(2, bit.insert(3, 0));
}

#[test]
fn descriptor_refuses_reversed_pair() {
    assert_eq!(Err(FieldError::Reversed), BitField::new(3, 4));
    assert_eq!(Err(FieldError::Reversed), BitField::new(0, 63));
}

#[test]
fn descriptor_refuses_index_beyond_register() {
    assert_eq!(Err(FieldError::OutOfRange), BitField::new(64, 0));
    assert_eq!(Err(FieldError::OutOfRange), BitField::new(u64::MAX, 63));
    // An index beyond the register is reported before a reversed pair.
    assert_eq!(Err(FieldError::OutOfRange), BitField::new(3, 64));
    assert_eq!(Err(FieldError::OutOfRange), BitField::new(100, 200));
}

#[test]
fn descriptor_insert_cuts_wide_value() {
    let field = BitField::new(3, 2).unwrap();
    assert_eq!(0b1000, field.insert(0, 0b110));
    assert_eq!(0b10, field.extract(0b1000));
}
