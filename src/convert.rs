//! The two integer conversions between Fahrenheit and Celsius.

use vstd::prelude::*;

verus! {

/// Integer division that rounds toward zero, as Rust's `/` does on integers.
pub open spec fn div_toward_zero(a: int, d: int) -> int
    recommends
        d > 0,
{
    if a >= 0 {
        a / d
    } else {
        -((-a) / d)
    }
}

/// `(f - 32) * 5 / 9`, the product taken before the division, which truncates.
pub open spec fn fahrenheit_to_celsius(f: int) -> int {
    div_toward_zero((f - 32) * 5, 9)
}

/// `c * (9 / 5) + 32`, where `9 / 5` is itself an integer division, that is 1.
pub open spec fn celsius_to_fahrenheit(c: int) -> int {
    c * (9int / 5int) + 32
}

/// Converts a Fahrenheit reading to Celsius. Readings below 32 give a
/// negative result, which is why the result is signed.
pub fn f_to_c(temp_to_convert: u32) -> (r: i64)
    ensures
        r == fahrenheit_to_celsius(temp_to_convert as int),
{
    if temp_to_convert >= 32 {
        let above: u64 = (temp_to_convert - 32) as u64;
        (above * 5 / 9) as i64
    } else {
        let below: u64 = (32 - temp_to_convert) as u64;
        -((below * 5 / 9) as i64)
    }
}

/// Converts a Celsius reading to Fahrenheit with the scale factor `9 / 5`
/// taken as an integer division, so that the result is `c + 32`.
pub fn c_to_f(temp_to_convert: u32) -> (r: u64)
    ensures
        r == celsius_to_fahrenheit(temp_to_convert as int),
        r == temp_to_convert + 32,
{
    let factor: u64 = 9 / 5;
    assert(factor == 1);
    (temp_to_convert as u64) * factor + 32
}

} // verus!
