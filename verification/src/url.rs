//! Tile addresses rendered from a URL template.
//!
//! A template may hold the tokens `{x}`, `{y}` and `{z}`, which stand for a
//! tile's column, row and zoom level in decimal, and `{s}`, which stands for
//! a subdomain. Subdomains are taken in turn from `a`, `b`, `c`, one step per
//! rendered address, so that requests spread over the mirrors of a server.
//! A count of the rendered addresses is kept beside the turn.

use std::collections::HashMap;
use strfmt::FmtError;
use vstd::prelude::*;
use vstd::string::*;
use crate::decimal::{decimal, to_decimal};
use crate::tile::Tile;

verus! {

/// Why a template could not be rendered, as contracts see it.
pub enum Fault {
    /// The template is malformed.
    Invalid(Seq<char>),
    /// The template names a token that has no value.
    KeyError(Seq<char>),
    /// The template asks for a format that a text value does not have.
    TypeError(Seq<char>),
}

/// A template that could not be rendered: it names a token other than `x`,
/// `y`, `z` and `s`, or it is malformed. Each kind of failure carries the
/// formatter's words on it.
#[derive(Debug, PartialEq, Eq)]
pub enum TemplateError {
    /// The template is malformed.
    Invalid(String),
    /// The template names a token that has no value.
    KeyError(String),
    /// The template asks for a format that a text value does not have.
    TypeError(String),
}

impl View for TemplateError {
    type V = Fault;

    open spec fn view(&self) -> Fault {
        match self {
            TemplateError::Invalid(words) => Fault::Invalid(words@),
            TemplateError::KeyError(words) => Fault::KeyError(words@),
            TemplateError::TypeError(words) => Fault::TypeError(words@),
        }
    }
}

impl Fault {
    /// The failure as a line of text.
    pub open spec fn message(self) -> Seq<char> {
        match self {
            Fault::Invalid(words) => "failed formatting URL: Invalid("@ + words + ")"@,
            Fault::KeyError(words) => "failed formatting URL: KeyError("@ + words + ")"@,
            Fault::TypeError(words) => "failed formatting URL: TypeError("@ + words + ")"@,
        }
    }
}

impl TemplateError {
    /// The error as a line of text.
    pub fn message(&self) -> (text: String)
        ensures
            text@ == self@.message(),
    {
        let (mut text, words) = match self {
            TemplateError::Invalid(words) => (
                String::from_str("failed formatting URL: Invalid("),
                words,
            ),
            TemplateError::KeyError(words) => (
                String::from_str("failed formatting URL: KeyError("),
                words,
            ),
            TemplateError::TypeError(words) => (
                String::from_str("failed formatting URL: TypeError("),
                words,
            ),
        };
        text.append(words.as_str());
        text.append(")");
        text
    }
}

/// What `strfmt::strfmt` returns for a template and a list of variables,
/// each a key and its value: the formatted text, or its error. Where a key
/// occurs twice in the list, the later value counts.
pub uninterp spec fn strfmt_outcome(
    template: Seq<char>,
    vars: Seq<(Seq<char>, Seq<char>)>,
) -> Result<Seq<char>, Fault>;

/// Calls `strfmt::strfmt` on `template` with `vars` as its map of variables.
///
/// Not proved: that the outcome is the one named by [`strfmt_outcome`], that
/// is, that it depends on the template and the variables alone. On success
/// the outcome is the formatted text; on failure it is the variant of
/// `strfmt::FmtError` that came back, with its words. A template can ask for
/// padding of any width, and the formatted text is then that long.
#[verifier::external_body]
fn strfmt_call(template: &str, vars: &Vec<(String, String)>) -> (outcome: Result<
    String,
    TemplateError,
>)
    ensures
        match outcome {
            Ok(text) => strfmt_outcome(template@, vars.deep_view()) == Ok::<Seq<char>, Fault>(
                text@,
            ),
            Err(e) => strfmt_outcome(template@, vars.deep_view()) == Err::<Seq<char>, Fault>(e@),
        },
{
    let map: HashMap<String, String> = vars.iter().cloned().collect();
    match strfmt::strfmt(template, &map) {
        Ok(text) => Ok(text),
        Err(FmtError::Invalid(words)) => Err(TemplateError::Invalid(words)),
        Err(FmtError::KeyError(words)) => Err(TemplateError::KeyError(words)),
        Err(FmtError::TypeError(words)) => Err(TemplateError::TypeError(words)),
    }
}

/// Number of subdomains that take turns.
pub const SUBDOMAINS: u8 = 3;

/// The subdomain whose turn it is at `slot`.
pub open spec fn subdomain(slot: nat) -> Seq<char> {
    if slot == 0 {
        "a"@
    } else if slot == 1 {
        "b"@
    } else {
        "c"@
    }
}

/// The variables that a template can name, with their values for `tile`
/// when it is the turn of the subdomain at `slot`.
pub open spec fn variables(slot: nat, tile: Tile) -> Seq<(Seq<char>, Seq<char>)> {
    seq![
        ("s"@, subdomain(slot)),
        ("x"@, decimal(tile.x as nat)),
        ("y"@, decimal(tile.y as nat)),
        ("z"@, decimal(tile.z as nat)),
    ]
}

/// The address of `tile` under `template` at `slot`, or the cause of the
/// failure to render it.
pub open spec fn render(template: Seq<char>, slot: nat, tile: Tile) -> Result<Seq<char>, Fault> {
    strfmt_outcome(template, variables(slot, tile))
}

/// The highest count that a renderer can hold. Once there, the count stays;
/// the subdomains go on taking turns all the same.
pub const COUNT_MAX: u64 = u64::MAX;

/// The count that follows `count`: one more, as long as the counter can hold
/// it.
pub open spec fn count_after(count: nat) -> nat {
    if count < COUNT_MAX {
        count + 1
    } else {
        count
    }
}

/// The slot that follows `slot`: the next of the three, in a cycle.
pub open spec fn slot_after(slot: nat) -> nat {
    (slot + 1) % 3
}

/// The count that a fresh renderer has reached after `calls` addresses.
pub open spec fn count_at(calls: nat) -> nat
    decreases calls,
{
    if calls == 0 {
        0
    } else {
        count_after(count_at((calls - 1) as nat))
    }
}

/// The slot that is up in a fresh renderer after `calls` addresses.
pub open spec fn slot_at(calls: nat) -> nat
    decreases calls,
{
    if calls == 0 {
        0
    } else {
        slot_after(slot_at((calls - 1) as nat))
    }
}

/// The count of a fresh renderer is the number of addresses rendered so
/// far, for as many as the counter can hold, and it never goes down. The
/// subdomains take turns in a cycle of three without end: the address
/// rendered after `calls` earlier ones gets the subdomain `a`, `b` or `c` as
/// `calls` leaves the remainder 0, 1 or 2 when divided by three.
pub proof fn lemma_round_robin(calls: nat)
    ensures
        calls <= COUNT_MAX ==> count_at(calls) == calls,
        calls > COUNT_MAX ==> count_at(calls) == COUNT_MAX,
        slot_at(calls) == calls % 3,
        subdomain(slot_at(calls)) == if calls % 3 == 0 {
            "a"@
        } else if calls % 3 == 1 {
            "b"@
        } else {
            "c"@
        },
    decreases calls,
{
    if calls > 0 {
        lemma_round_robin((calls - 1) as nat);
    }
}

/// How many addresses have been rendered, and whose turn it is.
#[derive(Clone, Copy, Debug)]
struct Counter {
    inc: u64,
    turn: u8,
}

/// A URL template together with the count of the addresses rendered from
/// it and the subdomain whose turn it is.
#[derive(Debug)]
pub struct UrlFormat {
    counter: Counter,
    format_str: String,
}

impl UrlFormat {
    #[verifier::type_invariant]
    spec fn inv(&self) -> bool {
        &&& self.counter.turn < SUBDOMAINS
        &&& self.counter.inc < COUNT_MAX ==> self.counter.turn == self.counter.inc % 3
    }

    /// The template.
    pub closed spec fn template(&self) -> Seq<char> {
        self.format_str@
    }

    /// How many addresses have been rendered.
    pub closed spec fn count(&self) -> nat {
        self.counter.inc as nat
    }

    /// Whose turn it is: 0, 1 or 2.
    pub closed spec fn slot(&self) -> nat {
        self.counter.turn as nat
    }

    /// A renderer for the template `format_str`, with nothing rendered yet
    /// and so `a` the first subdomain to have its turn.
    pub fn from_string(format_str: String) -> (format: UrlFormat)
        ensures
            format.template() == format_str@,
            format.count() == 0,
            format.slot() == 0,
    {
        UrlFormat { counter: Counter { inc: 0, turn: 0 }, format_str }
    }

    /// Hands out the count and moves it on by one, and with it the turn.
    /// Below `COUNT_MAX` the turn is the count's remainder when divided by
    /// three.
    pub fn get_inc(&mut self) -> (count: u64)
        ensures
            count == old(self).count(),
            old(self).count() < COUNT_MAX ==> old(self).slot() == old(self).count() % 3,
            final(self).count() == count_after(old(self).count()),
            final(self).slot() == slot_after(old(self).slot()),
            final(self).template() == old(self).template(),
    {
        proof {
            use_type_invariant(&*self);
        }
        let count = self.counter.inc;
        let turn = (self.counter.turn + 1) % SUBDOMAINS;
        let inc = if count < COUNT_MAX {
            count + 1
        } else {
            count
        };
        self.counter = Counter { inc, turn };
        count
    }

    /// Renders the address of `tile` and moves the count on by one, which
    /// passes the turn to the next subdomain, whether or not the template
    /// could be rendered.
    pub fn tile_url(&mut self, tile: &Tile) -> (url: Result<String, TemplateError>)
        ensures
            final(self).template() == old(self).template(),
            final(self).count() == count_after(old(self).count()),
            final(self).slot() == slot_after(old(self).slot()),
            match url {
                Ok(text) => render(old(self).template(), old(self).slot(), *tile) == Ok::<
                    Seq<char>,
                    Fault,
                >(text@),
                Err(e) => render(old(self).template(), old(self).slot(), *tile) == Err::<
                    Seq<char>,
                    Fault,
                >(e@),
            },
    {
        proof {
            use_type_invariant(&*self);
        }
        let slot = self.counter.turn;
        self.get_inc();
        let mut vars: Vec<(String, String)> = Vec::new();
        vars.push((String::from_str("s"), String::from_str(subdomain_str(slot))));
        vars.push((String::from_str("x"), to_decimal(tile.x as u64)));
        vars.push((String::from_str("y"), to_decimal(tile.y as u64)));
        vars.push((String::from_str("z"), to_decimal(tile.z as u64)));
        assert(vars.deep_view() =~= variables(slot as nat, *tile));
        strfmt_call(self.format_str.as_str(), &vars)
    }
}

impl PartialEq for UrlFormat {
    /// Two renderers are equal where their templates are, whoever's turn it
    /// is.
    fn eq(&self, other: &Self) -> (equal: bool) {
        self.format_str == other.format_str
    }
}

impl vstd::std_specs::cmp::PartialEqSpecImpl for UrlFormat {
    open spec fn obeys_eq_spec() -> bool {
        true
    }

    open spec fn eq_spec(&self, other: &Self) -> bool {
        self.template() == other.template()
    }
}

/// The text of the subdomain at `slot`.
fn subdomain_str(slot: u8) -> (text: &'static str)
    requires
        slot < SUBDOMAINS,
    ensures
        text@ == subdomain(slot as nat),
{
    if slot == 0 {
        "a"
    } else if slot == 1 {
        "b"
    } else {
        "c"
    }
}

} // verus!
