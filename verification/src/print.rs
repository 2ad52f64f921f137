//! Integer formatting for diagnostics: decimal and hexadecimal digits.
//!
//! In an environment with no formatting machinery, these render integers
//! into ASCII bytes; the hexadecimal printers append their digits to the
//! UART transmit log.

use vstd::prelude::*;

use crate::pl011::UartPl011;
use crate::pl011::print;

verus! {

/// The ASCII decimal digits of `num`, most significant first, with no
/// leading zeroes; zero itself renders as one digit.
pub open spec fn spec_decimal(num: u32) -> Seq<u8>
    decreases num,
{
    if num < 10 {
        seq![('0' as u8 + num) as u8]
    } else {
        spec_decimal(num / 10).push(('0' as u8 + num % 10) as u8)
    }
}

/// Renders `num` as ASCII decimal digits, most significant first.
pub fn u32_to_str(num: u32) -> (v: Vec<u8>)
    ensures
        v@ == spec_decimal(num),
    decreases num,
{
    if num < 10 {
        let v: Vec<u8> = vec![('0' as u8) + (num as u8)];
        proof {
            assert(v@ =~= spec_decimal(num));
        }
        v
    } else {
        let mut v = u32_to_str(num / 10);
        v.push(('0' as u8) + ((num % 10) as u8));
        v
    }
}

/// The lower-case ASCII hexadecimal digit for a value below sixteen.
pub open spec fn spec_hex_lower(nib: u8) -> u8 {
    if nib < 10 {
        ('0' as u8 + nib) as u8
    } else {
        ('a' as u8 + (nib - 10)) as u8
    }
}

/// The upper-case ASCII hexadecimal digit for a value below sixteen.
pub open spec fn spec_hex_upper(nib: u8) -> u8 {
    if nib < 10 {
        ('0' as u8 + nib) as u8
    } else {
        ('A' as u8 + (nib - 10)) as u8
    }
}

/// Digit `k` of `value` rendered as sixteen lower-case hexadecimal digits,
/// most significant first.
pub open spec fn spec_hex_u64_digit(value: u64, k: int) -> u8 {
    spec_hex_lower((((value >> (((15 - k) * 4) as u64)) & 0xf) as u8))
}

/// The sixteen-digit zero-padded lower-case hexadecimal rendering of `value`.
pub open spec fn spec_hex_u64(value: u64) -> Seq<u8> {
    Seq::new(16, |k: int| spec_hex_u64_digit(value, k))
}

/// The two-digit zero-padded upper-case hexadecimal rendering of `value`.
pub open spec fn spec_hex_u8(value: u8) -> Seq<u8> {
    seq![spec_hex_upper((value >> 4) & 0xf), spec_hex_upper(value & 0xf)]
}

/// Renders `value` as sixteen zero-padded lower-case hexadecimal digits.
pub fn hex_u64_digits(value: u64) -> (v: Vec<u8>)
    ensures
        v@ == spec_hex_u64(value),
{
    let mut v: Vec<u8> = Vec::new();
    let mut i: usize = 0;
    while i < 16
        invariant
            0 <= i <= 16,
            v@.len() == i,
            forall|k: int| 0 <= k < i ==> v@[k] == spec_hex_u64_digit(value, k),
        decreases 16 - i,
    {
        let shift = ((15 - i) * 4) as u64;
        let nib = ((value >> shift) & 0xf) as u8;
        proof {
            let s = shift;
            assert((value >> s) & 0xf < 16) by (bit_vector);
        }
        let ch = if nib < 10 {
            ('0' as u8) + nib
        } else {
            ('a' as u8) + (nib - 10)
        };
        v.push(ch);
        i = i + 1;
    }
    proof {
        assert(v@ =~= spec_hex_u64(value));
    }
    v
}

/// Renders `value` as two zero-padded upper-case hexadecimal digits.
pub fn hex_u8_digits(value: u8) -> (v: Vec<u8>)
    ensures
        v@ == spec_hex_u8(value),
{
    let hi = (value >> 4) & 0xf;
    let lo = value & 0xf;
    proof {
        assert((value >> 4) & 0xf < 16) by (bit_vector);
        assert(value & 0xf < 16) by (bit_vector);
    }
    let hi_ch = if hi < 10 {
        ('0' as u8) + hi
    } else {
        ('A' as u8) + (hi - 10)
    };
    let lo_ch = if lo < 10 {
        ('0' as u8) + lo
    } else {
        ('A' as u8) + (lo - 10)
    };
    let v: Vec<u8> = vec![hi_ch, lo_ch];
    proof {
        assert(v@ =~= spec_hex_u8(value));
    }
    v
}

/// Prints `value` to the UART as sixteen zero-padded lower-case hexadecimal
/// digits.
pub fn print_hex_u64(uart: &mut UartPl011, value: u64)
    ensures
        final(uart).tx@ == old(uart).tx@ + spec_hex_u64(value),
{
    let digits = hex_u64_digits(value);
    print(uart, digits.as_slice());
}

/// Prints `value` to the UART as two zero-padded upper-case hexadecimal
/// digits.
pub fn print_hex_u8(uart: &mut UartPl011, val: u8)
    ensures
        final(uart).tx@ == old(uart).tx@ + spec_hex_u8(val),
{
    let digits = hex_u8_digits(val);
    print(uart, digits.as_slice());
}

} // verus!
