//! How the service is set up by its environment.

use vstd::prelude::*;

use crate::text::{opt_text, parse_unsigned, unsigned_value};

verus! {

/// The variables that set up the service. One that is unset or is no text is absent.
#[derive(Debug)]
pub struct ServiceVars {
    /// `WEBHOOK_SECRET`
    pub secret: Option<String>,
    /// `DATABASE_URL`
    pub db_url: Option<String>,
    /// `BIND_ADDR`
    pub bind: Option<String>,
    /// `WORKERS`
    pub workers: Option<String>,
}

/// How the service is set up.
#[derive(Debug)]
pub struct ServiceSettings {
    /// The secret that is shared with the provider.
    pub secret: String,
    /// Where the store is.
    pub db_url: String,
    /// The address to listen on.
    pub bind: String,
    /// How many workers to start.
    pub workers: usize,
}

/// The text, or the other one where it is absent.
pub open spec fn text_or(text: Option<Seq<char>>, other: Seq<char>) -> Seq<char> {
    match text {
        Some(t) => t,
        None => other,
    }
}

/// The number that the text writes, or `other` where it is absent, is no number or is above
/// `max`.
pub open spec fn number_or(text: Option<Seq<char>>, max: int, other: int) -> int {
    match text {
        Some(t) => match unsigned_value(t) {
            Some(v) => if v <= max {
                v as int
            } else {
                other
            },
            None => other,
        },
        None => other,
    }
}

/// The text, or `other` where it is absent.
fn string_or(text: Option<String>, other: &str) -> (t: String)
    ensures
        t@ == text_or(opt_text(text), other@),
{
    match text {
        Some(t) => t,
        None => other.to_owned(),
    }
}

/// The number in the text, or `other` where there is none up to `max`.
pub fn unsigned_or(text: &Option<String>, max: u64, other: u64) -> (n: u64)
    ensures
        n == number_or(opt_text(*text), max as int, other as int),
{
    match text {
        Some(t) => match parse_unsigned(t.as_str(), max) {
            Some(n) => n,
            None => other,
        },
        None => other,
    }
}

impl ServiceSettings {
    /// Reads the settings. Only the secret has no default: without it there are none.
    pub fn from_env(vars: ServiceVars) -> (settings: Option<ServiceSettings>)
        ensures
            settings is Some <==> vars.secret is Some,
            settings matches Some(s) ==> {
                &&& Some(s.secret@) == opt_text(vars.secret)
                &&& s.db_url@ == text_or(opt_text(vars.db_url), "sqlite://webhook.db"@)
                &&& s.bind@ == text_or(opt_text(vars.bind), "0.0.0.0:3000"@)
                &&& s.workers == number_or(opt_text(vars.workers), usize::MAX as int, 4)
            },
    {
        let workers: u64 = unsigned_or(&vars.workers, usize::MAX as u64, 4);
        match vars.secret {
            Some(secret) => Some(
                ServiceSettings {
                    secret,
                    db_url: string_or(vars.db_url, "sqlite://webhook.db"),
                    bind: string_or(vars.bind, "0.0.0.0:3000"),
                    workers: workers as usize,
                },
            ),
            None => None,
        }
    }
}

/// A text that is there counts as it is, an empty one too, and one that is absent counts as the
/// other.
pub proof fn law_absent_text_has_a_default(text: Seq<char>, other: Seq<char>)
    ensures
        text_or(Some(text), other) == text,
        text_or(None, other) == other,
{
}

/// A number that is written and not above the most counts as it is; anything else counts as the
/// other.
pub proof fn law_unreadable_number_has_a_default(text: Seq<char>, max: int, other: int)
    ensures
        number_or(None, max, other) == other,
        unsigned_value(text) is None ==> number_or(Some(text), max, other) == other,
        unsigned_value(text) matches Some(v) ==> (v > max ==> number_or(Some(text), max, other)
            == other) && (v <= max ==> number_or(Some(text), max, other) == v),
{
}

} // verus!
