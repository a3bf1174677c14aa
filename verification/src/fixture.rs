//! Named areas with preset bounds.

use vstd::prelude::*;
use crate::text::{lowercase_of, starts_with, to_lowercase};

verus! {

/// A known geographic region: a country, a city.
#[derive(Clone, Copy, Debug, PartialEq, Eq, Structural)]
pub enum Fixture {
    USA,
    AachenGermany,
}

/// The fixture that a lowercase name stands for: any name beginning with
/// `us` is the USA, any beginning with `aachen` is Aachen.
pub open spec fn fixture_of(lower: Seq<char>) -> Option<Fixture> {
    if "us"@.is_prefix_of(lower) {
        Some(Fixture::USA)
    } else if "aachen"@.is_prefix_of(lower) {
        Some(Fixture::AachenGermany)
    } else {
        None
    }
}

impl Fixture {
    /// The fixture that the lowercase name `lower` stands for.
    pub fn from_lowercase(lower: &str) -> (fixture: Result<Fixture, &'static str>)
        ensures
            match fixture {
                Ok(f) => fixture_of(lower@) == Some(f),
                Err(e) => fixture_of(lower@) is None && e@ == "unrecognized fixture"@,
            },
    {
        if starts_with(lower, "us") {
            Ok(Fixture::USA)
        } else if starts_with(lower, "aachen") {
            Ok(Fixture::AachenGermany)
        } else {
            Err("unrecognized fixture")
        }
    }

    /// The fixture that `name` stands for, whatever the case of its letters.
    pub fn from_name(name: &str) -> (fixture: Result<Fixture, &'static str>)
        ensures
            match fixture {
                Ok(f) => fixture_of(lowercase_of(name@)) == Some(f),
                Err(e) => fixture_of(lowercase_of(name@)) is None && e@
                    == "unrecognized fixture"@,
            },
    {
        let lower = to_lowercase(name);
        Fixture::from_lowercase(lower.as_str())
    }
}

impl std::str::FromStr for Fixture {
    type Err = &'static str;

    /// The fixture that `s` stands for, whatever the case of its letters.
    fn from_str(s: &str) -> (fixture: Result<Fixture, &'static str>)
        ensures
            match fixture {
                Ok(f) => fixture_of(lowercase_of(s@)) == Some(f),
                Err(e) => fixture_of(lowercase_of(s@)) is None && e@ == "unrecognized fixture"@,
            },
    {
        Fixture::from_name(s)
    }
}

} // verus!
