//! Checks of option values as they are typed on a command line.
//!
//! Each check takes the text of a value and answers `Ok(())` where the value
//! is acceptable, or the complaint to show otherwise.

use vstd::prelude::*;
use crate::decimal::{parse_decimal, parse_unsigned};
use crate::fixture::{fixture_of, Fixture};
use crate::text::lowercase_of;

verus! {

/// What [`is_numeric_min`] answers: the text must read as a number that
/// fits a `usize`, and the number must not be below `min`.
pub open spec fn numeric_min(min: usize, v: Seq<char>) -> Result<(), Seq<char>> {
    match parse_unsigned(v, usize::MAX as nat) {
        None => Err("must be numeric"@),
        Some(n) => if n < min {
            Err("must be > 0"@)
        } else {
            Ok(())
        },
    }
}

/// What [`is_positive_u8`] answers: the text must read as a number from 1
/// to 255.
pub open spec fn positive_u8(v: Seq<char>) -> Result<(), Seq<char>> {
    match parse_unsigned(v, u8::MAX as nat) {
        None => Err("must be numeric"@),
        Some(n) => if n > 0 {
            Ok(())
        } else {
            Err("must be > 0"@)
        },
    }
}

/// What [`is_u8_min`] answers: the text must read as a number that fits a
/// `u8`, and the number must not be below `min`.
pub open spec fn u8_min(min: u8, v: Seq<char>) -> Result<(), Seq<char>> {
    match parse_unsigned(v, u8::MAX as nat) {
        None => Err("must be numeric"@),
        Some(n) => if n < min {
            Err("must be > 0"@)
        } else {
            Ok(())
        },
    }
}

/// What [`is_numeric`] answers: the text must read as a number that fits a
/// `u64`.
pub open spec fn numeric(v: Seq<char>) -> Result<(), Seq<char>> {
    match parse_unsigned(v, u64::MAX as nat) {
        None => Err("must be numeric"@),
        Some(_) => Ok(()),
    }
}

/// What [`is_bb_fixture`] answers: the text must name a fixture.
pub open spec fn bb_fixture(v: Seq<char>) -> Result<(), Seq<char>> {
    match fixture_of(lowercase_of(v)) {
        None => Err("invalid fixture"@),
        Some(_) => Ok(()),
    }
}

/// Whether an answer and its statement agree.
pub open spec fn answers(answer: Result<(), String>, stated: Result<(), Seq<char>>) -> bool {
    match answer {
        Ok(_) => stated is Ok,
        Err(complaint) => stated == Err::<(), Seq<char>>(complaint@),
    }
}

/// Accepts a non-negative whole number that is at least `min`.
pub fn is_numeric_min(min: usize, v: String) -> (answer: Result<(), String>)
    ensures
        answers(answer, numeric_min(min, v@)),
{
    match parse_decimal(v.as_str(), usize::MAX as u64) {
        None => Err("must be numeric".to_owned()),
        Some(val) => {
            if val < min as u64 {
                Err("must be > 0".to_owned())
            } else {
                Ok(())
            }
        },
    }
}

/// Accepts a whole number from 1 to 255.
pub fn is_positive_u8(v: String) -> (answer: Result<(), String>)
    ensures
        answers(answer, positive_u8(v@)),
{
    match parse_decimal(v.as_str(), 255) {
        None => Err("must be numeric".to_owned()),
        Some(val) => {
            if val > 0 {
                Ok(())
            } else {
                Err("must be > 0".to_owned())
            }
        },
    }
}

/// Accepts a whole number from `min` to 255.
pub fn is_u8_min(min: u8, v: String) -> (answer: Result<(), String>)
    ensures
        answers(answer, u8_min(min, v@)),
{
    match parse_decimal(v.as_str(), 255) {
        None => Err("must be numeric".to_owned()),
        Some(val) => {
            if val < min as u64 {
                Err("must be > 0".to_owned())
            } else {
                Ok(())
            }
        },
    }
}

/// Accepts a non-negative whole number that fits 64 bits.
pub fn is_numeric(v: String) -> (answer: Result<(), String>)
    ensures
        answers(answer, numeric(v@)),
{
    match parse_decimal(v.as_str(), u64::MAX) {
        None => Err("must be numeric".to_owned()),
        Some(_) => Ok(()),
    }
}

/// Accepts the name of a fixture.
pub fn is_bb_fixture(v: String) -> (answer: Result<(), String>)
    ensures
        answers(answer, bb_fixture(v@)),
{
    match Fixture::from_name(v.as_str()) {
        Ok(_) => Ok(()),
        Err(_) => Err("invalid fixture".to_owned()),
    }
}

} // verus!
