//! What the register device exchanges: where it is found and how a register
//! value is laid out in the eight bytes that are moved.
//!
//! Opening, seeking, reading and writing are left to the caller. This module
//! decides what path to open and what the bytes mean.

use vstd::prelude::*;

verus! {

/// Number of bytes that one register exchange moves.
pub const REGISTER_SIZE: usize = 8;

/// A register exchange moved some other number of bytes than
/// [`REGISTER_SIZE`].
#[derive(Clone, Copy, Debug, PartialEq, Eq)]
pub struct WrongLength {
    /// Number of bytes that were moved.
    pub found: usize,
}

/// The number that eight bytes stand for, lowest byte first.
pub open spec fn le_u64(bytes: Seq<u8>) -> nat
    recommends
        bytes.len() == 8,
{
    (bytes[0] as nat) + (bytes[1] as nat) * 0x100 + (bytes[2] as nat) * 0x1_0000 + (
    bytes[3] as nat) * 0x100_0000 + (bytes[4] as nat) * 0x1_0000_0000 + (bytes[5] as nat)
        * 0x100_0000_0000 + (bytes[6] as nat) * 0x1_0000_0000_0000 + (bytes[7] as nat)
        * 0x100_0000_0000_0000
}

/// The eight bytes that stand for `value`, lowest byte first. Each byte is a
/// digit of `value` in base 256.
pub open spec fn le_bytes(value: nat) -> Seq<u8> {
    seq![
        (value % 0x100) as u8,
        (value / 0x100 % 0x100) as u8,
        (value / 0x1_0000 % 0x100) as u8,
        (value / 0x100_0000 % 0x100) as u8,
        (value / 0x1_0000_0000 % 0x100) as u8,
        (value / 0x100_0000_0000 % 0x100) as u8,
        (value / 0x1_0000_0000_0000 % 0x100) as u8,
        (value / 0x100_0000_0000_0000 % 0x100) as u8,
    ]
}

/// Decides whether an exchange that moved `moved` bytes is complete. An
/// exchange of one register moves exactly [`REGISTER_SIZE`] bytes or has
/// failed as a whole.
pub fn check_moved(moved: usize) -> (checked: Result<(), WrongLength>)
    ensures
        match checked {
            Ok(_) => moved == REGISTER_SIZE,
            Err(error) => moved != REGISTER_SIZE && error.found == moved,
        },
{
    if moved == REGISTER_SIZE {
        Ok(())
    } else {
        Err(WrongLength { found: moved })
    }
}

/// Turns what a read of the register device delivered into the register
/// value.
///
/// Anything but exactly eight bytes is refused: a short read is never padded
/// with zeros.
pub fn register_from_bytes(bytes: &[u8]) -> (decoded: Result<u64, WrongLength>)
    ensures
        match decoded {
            Ok(value) => bytes@.len() == 8 && value as nat == le_u64(bytes@),
            Err(error) => bytes@.len() != 8 && error.found == bytes@.len(),
        },
{
    match check_moved(bytes.len()) {
        Ok(_) => {},
        Err(error) => {
            return Err(error);
        },
    }
    let b0: u64 = bytes[0] as u64;
    let b1: u64 = bytes[1] as u64;
    let b2: u64 = bytes[2] as u64;
    let b3: u64 = bytes[3] as u64;
    let b4: u64 = bytes[4] as u64;
    let b5: u64 = bytes[5] as u64;
    let b6: u64 = bytes[6] as u64;
    let b7: u64 = bytes[7] as u64;
    Ok(
        b0 + b1 * 0x100 + b2 * 0x1_0000 + b3 * 0x100_0000 + b4 * 0x1_0000_0000 + b5
            * 0x100_0000_0000 + b6 * 0x1_0000_0000_0000 + b7 * 0x100_0000_0000_0000,
    )
}

/// Lays a register value out in the eight bytes that a write to the register
/// device sends, lowest byte first.
pub fn register_to_bytes(value: u64) -> (bytes: [u8; 8])
    ensures
        bytes@ == le_bytes(value as nat),
        le_u64(bytes@) == value,
{
    let d0: u64 = value % 0x100;
    let d1: u64 = value / 0x100 % 0x100;
    let d2: u64 = value / 0x1_0000 % 0x100;
    let d3: u64 = value / 0x100_0000 % 0x100;
    let d4: u64 = value / 0x1_0000_0000 % 0x100;
    let d5: u64 = value / 0x100_0000_0000 % 0x100;
    let d6: u64 = value / 0x1_0000_0000_0000 % 0x100;
    let d7: u64 = value / 0x100_0000_0000_0000 % 0x100;
    let bytes: [u8; 8] = [
        d0 as u8,
        d1 as u8,
        d2 as u8,
        d3 as u8,
        d4 as u8,
        d5 as u8,
        d6 as u8,
        d7 as u8,
    ];
    proof {
        assert(bytes@ =~= le_bytes(value as nat));
        assert(d0 + d1 * 0x100 + d2 * 0x1_0000 + d3 * 0x100_0000 + d4 * 0x1_0000_0000 + d5
            * 0x100_0000_0000 + d6 * 0x1_0000_0000_0000 + d7 * 0x100_0000_0000_0000 == value)
            by (bit_vector)
            requires
                d0 == value % 0x100,
                d1 == value / 0x100 % 0x100,
                d2 == value / 0x1_0000 % 0x100,
                d3 == value / 0x100_0000 % 0x100,
                d4 == value / 0x1_0000_0000 % 0x100,
                d5 == value / 0x100_0000_0000 % 0x100,
                d6 == value / 0x1_0000_0000_0000 % 0x100,
                d7 == value / 0x100_0000_0000_0000 % 0x100,
        ;
    }
    bytes
}

/// Laying a register value out in bytes and reading the bytes back gives the
/// value again.
pub proof fn lemma_value_survives_bytes(value: u64)
    ensures
        le_bytes(value as nat).len() == 8,
        le_u64(le_bytes(value as nat)) == value,
{
    let d0: u64 = value % 0x100;
    let d1: u64 = value / 0x100 % 0x100;
    let d2: u64 = value / 0x1_0000 % 0x100;
    let d3: u64 = value / 0x100_0000 % 0x100;
    let d4: u64 = value / 0x1_0000_0000 % 0x100;
    let d5: u64 = value / 0x100_0000_0000 % 0x100;
    let d6: u64 = value / 0x1_0000_0000_0000 % 0x100;
    let d7: u64 = value / 0x100_0000_0000_0000 % 0x100;
    assert(d0 + d1 * 0x100 + d2 * 0x1_0000 + d3 * 0x100_0000 + d4 * 0x1_0000_0000 + d5
        * 0x100_0000_0000 + d6 * 0x1_0000_0000_0000 + d7 * 0x100_0000_0000_0000 == value)
        by (bit_vector)
        requires
            d0 == value % 0x100,
            d1 == value / 0x100 % 0x100,
            d2 == value / 0x1_0000 % 0x100,
            d3 == value / 0x100_0000 % 0x100,
            d4 == value / 0x1_0000_0000 % 0x100,
            d5 == value / 0x100_0000_0000 % 0x100,
            d6 == value / 0x1_0000_0000_0000 % 0x100,
            d7 == value / 0x100_0000_0000_0000 % 0x100,
    ;
}

/// Eight bytes stand for a number below `2^64`, and laying that number out
/// gives the same eight bytes: no two byte strings stand for one value.
pub proof fn lemma_bytes_survive_value(bytes: Seq<u8>)
    requires
        bytes.len() == 8,
    ensures
        le_u64(bytes) <= u64::MAX,
        le_bytes(le_u64(bytes)) == bytes,
{
    let b0: u8 = bytes[0];
    let b1: u8 = bytes[1];
    let b2: u8 = bytes[2];
    let b3: u8 = bytes[3];
    let b4: u8 = bytes[4];
    let b5: u8 = bytes[5];
    let b6: u8 = bytes[6];
    let b7: u8 = bytes[7];
    let value: u64 = le_u64(bytes) as u64;
    assert({
        &&& value % 0x100 == b0
        &&& value / 0x100 % 0x100 == b1
        &&& value / 0x1_0000 % 0x100 == b2
        &&& value / 0x100_0000 % 0x100 == b3
        &&& value / 0x1_0000_0000 % 0x100 == b4
        &&& value / 0x100_0000_0000 % 0x100 == b5
        &&& value / 0x1_0000_0000_0000 % 0x100 == b6
        &&& value / 0x100_0000_0000_0000 % 0x100 == b7
    }) by (bit_vector)
        requires
            value == b0 + b1 * 0x100 + b2 * 0x1_0000 + b3 * 0x100_0000 + b4 * 0x1_0000_0000 + b5
                * 0x100_0000_0000 + b6 * 0x1_0000_0000_0000 + b7 * 0x100_0000_0000_0000,
    ;
    assert(le_bytes(le_u64(bytes)) =~= bytes);
}

/// The character that writes the decimal digit `digit`.
pub open spec fn digit_char(digit: nat) -> char
    recommends
        digit < 10,
{
    seq!['0', '1', '2', '3', '4', '5', '6', '7', '8', '9'][digit as int]
}

/// The decimal numeral of `number`, without sign or leading zeros.
pub open spec fn decimal(number: nat) -> Seq<char>
    decreases number,
{
    if number < 10 {
        seq![digit_char(number)]
    } else {
        decimal(number / 10).push(digit_char(number % 10))
    }
}

/// The path of the register device of processor `cpu`.
pub open spec fn device_path_of(cpu: nat) -> Seq<char> {
    "/dev/cpu/"@ + decimal(cpu) + "/msr"@
}

/// The one-character text of a decimal digit.
fn digit_text(digit: usize) -> (text: &'static str)
    requires
        digit < 10,
    ensures
        text@ == seq![digit_char(digit as nat)],
{
    proof {
        reveal_strlit("0");
        reveal_strlit("1");
        reveal_strlit("2");
        reveal_strlit("3");
        reveal_strlit("4");
        reveal_strlit("5");
        reveal_strlit("6");
        reveal_strlit("7");
        reveal_strlit("8");
        reveal_strlit("9");
    }
    let text = match digit {
        0 => "0",
        1 => "1",
        2 => "2",
        3 => "3",
        4 => "4",
        5 => "5",
        6 => "6",
        7 => "7",
        8 => "8",
        _ => "9",
    };
    assert(text@ =~= seq![digit_char(digit as nat)]);
    text
}

/// Appends the decimal numeral of `number` to `text`.
fn append_decimal(text: &mut String, number: usize)
    ensures
        final(text)@ == old(text)@ + decimal(number as nat),
    decreases number,
{
    if number >= 10 {
        append_decimal(text, number / 10);
    }
    text.append(digit_text(number % 10));
    assert(text@ =~= old(text)@ + decimal(number as nat));
}

/// Names the register device of processor `cpu`.
///
/// The processor index is written in decimal. Whether such a processor exists
/// is for the operating system to say when the path is opened.
pub fn device_path(cpu: usize) -> (path: String)
    ensures
        path@ == device_path_of(cpu as nat),
{
    let mut path = String::from_str("/dev/cpu/");
    append_decimal(&mut path, cpu);
    path.append("/msr");
    path
}

} // verus!
