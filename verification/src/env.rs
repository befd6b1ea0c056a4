//! Settings that come as text, one per name.
use vstd::prelude::*;

use crate::decimal::{number, parse_up_to};
use crate::table::Table;
use crate::text::{opt_view, trim, trimmed};

verus! {

/// The value of the setting `name`, where it is set.
pub open spec fn var(env: Map<Seq<char>, Seq<char>>, name: Seq<char>) -> Option<Seq<char>> {
    if env.contains_key(name) {
        Some(env[name])
    } else {
        None
    }
}

/// The value of the setting `name`, where it is set.
pub fn var_of(env: &Table, name: &str) -> (r: Option<String>)
    ensures
        opt_view(r) == var(env@, name@),
{
    env.get(name)
}

/// The number that a setting writes once trimmed; `default` where it is missing, zero, more
/// than fits, or no number.
pub open spec fn positive_or(value: Option<Seq<char>>, default: u64) -> u64 {
    match value {
        Some(s) => match number(trim(s), u64::MAX as nat) {
            Some(n) => if n > 0 {
                n as u64
            } else {
                default
            },
            None => default,
        },
        None => default,
    }
}

/// The positive number that the setting `name` writes, or `default`.
pub fn positive_var(env: &Table, name: &str, default: u64) -> (r: u64)
    ensures
        r == positive_or(var(env@, name@), default),
{
    match env.get(name) {
        Some(s) => match parse_up_to(trimmed(s.as_str()).as_str(), u64::MAX) {
            Some(n) => if n > 0 {
                n
            } else {
                default
            },
            None => default,
        },
        None => default,
    }
}

/// The value of the setting `name`, or `default` where it is not set.
pub open spec fn text_or(value: Option<Seq<char>>, default: Seq<char>) -> Seq<char> {
    match value {
        Some(s) => s,
        None => default,
    }
}

/// The value of the setting `name`, or `default` where it is not set.
pub fn text_var(env: &Table, name: &str, default: &str) -> (r: String)
    ensures
        r@ == text_or(var(env@, name@), default@),
{
    match env.get(name) {
        Some(s) => s,
        None => default.to_owned(),
    }
}

/// The number, at most `max`, that a value writes as it stands; `default` where it is missing or
/// writes none.
pub open spec fn number_or(value: Option<Seq<char>>, max: nat, default: nat) -> nat {
    match value {
        Some(s) => match number(s, max) {
            Some(n) => n,
            None => default,
        },
        None => default,
    }
}

/// The number, at most `max`, that `value` writes as it stands, or `default`.
pub fn number_in(value: Option<String>, max: u64, default: u64) -> (r: u64)
    requires
        default <= max,
    ensures
        r == number_or(opt_view(value), max as nat, default as nat),
        r <= max,
{
    match value {
        Some(s) => match parse_up_to(s.as_str(), max) {
            Some(n) => n,
            None => default,
        },
        None => default,
    }
}

/// The number, at most `max`, that the setting `name` writes as it stands, or `default`.
pub fn number_var(env: &Table, name: &str, max: u64, default: u64) -> (r: u64)
    requires
        default <= max,
    ensures
        r == number_or(var(env@, name@), max as nat, default as nat),
        r <= max,
{
    number_in(var_of(env, name), max, default)
}

/// A setting is what the environment says under its own name, and missing where it says nothing.
pub proof fn law_settings_are_read_by_name(
    env: Map<Seq<char>, Seq<char>>,
    name: Seq<char>,
    other: Seq<char>,
    value: Seq<char>,
)
    ensures
        var(env.insert(name, value), name) == Some(value),
        other != name ==> var(env.insert(name, value), other) == var(env, other),
        !env.contains_key(name) ==> var(env, name) is None,
{
}

/// A positive number that is written, with or without white space around it, is taken; zero, a text
/// that is no number and a missing one are the default.
pub proof fn law_positive_numbers_are_taken(text: Seq<char>, n: nat, default: u64)
    ensures
        number(trim(text), u64::MAX as nat) == Some(n) && n > 0 ==> positive_or(Some(text), default)
            == n,
        number(trim(text), u64::MAX as nat) == Some(0nat) ==> positive_or(Some(text), default)
            == default,
        number(trim(text), u64::MAX as nat) is None ==> positive_or(Some(text), default) == default,
        positive_or(None, default) == default,
{
    crate::decimal::law_numbers_are_digits(trim(text), u64::MAX as nat);
}

/// A number that is written as it stands is taken, zero too; any other value is the default.
pub proof fn law_numbers_are_taken(text: Seq<char>, max: nat, default: nat)
    ensures
        number(text, max) is Some ==> number_or(Some(text), max, default) == number(text, max)->0,
        number(text, max) is None ==> number_or(Some(text), max, default) == default,
        number_or(None, max, default) == default,
{
}

/// A text that is set is taken as it stands; a missing one is the default.
pub proof fn law_texts_are_taken(text: Seq<char>, default: Seq<char>)
    ensures
        text_or(Some(text), default) == text,
        text_or(None, default) == default,
{
}

} // verus!
