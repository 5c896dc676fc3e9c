use vstd::prelude::*;
use crate::text::decimal;

verus! {

/// The JSON text that serde_json writes for the string `s`: quoted, with the
/// characters that JSON asks for escaped.
pub uninterp spec fn json_quoted(s: Seq<char>) -> Seq<char>;

/// Relies on `serde_json::to_string` for `u64`: an unsigned integer is written
/// as its plain decimal digits.
#[verifier::external_body]
pub(crate) fn u64_to_json(n: u64) -> (r: String)
    ensures
        r@ == decimal(n as nat),
{
    match serde_json::to_string(&n) {
        Ok(text) => text,
        Err(e) => e.to_string(),
    }
}

/// Relies on `serde_json::from_str` for `u64`: the decimal digits of a `u64`
/// read back as that number. A failure is handed on as its message.
#[verifier::external_body]
pub(crate) fn u64_from_json(text: &str) -> (r: Result<u64, String>)
    ensures
        forall|n: u64| #[trigger] decimal(n as nat) == text@ ==> (r is Ok && r->Ok_0 == n),
{
    match serde_json::from_str::<u64>(text) {
        Ok(n) => Ok(n),
        Err(e) => Err(e.to_string()),
    }
}

/// Relies on `serde_json::to_string` for `str`: the quoted JSON text of `s`.
#[verifier::external_body]
pub(crate) fn string_to_json(s: &str) -> (r: String)
    ensures
        r@ == json_quoted(s@),
{
    match serde_json::to_string(s) {
        Ok(text) => text,
        Err(e) => e.to_string(),
    }
}

/// Relies on `serde_json::from_str` for `String`: a quoted text that
/// serde_json wrote reads back as the string it quoted, and a JSON number is
/// no string. A failure is handed on as its message.
#[verifier::external_body]
pub(crate) fn string_from_json(text: &str) -> (r: Result<String, String>)
    ensures
        forall|s: Seq<char>| #[trigger] json_quoted(s) == text@ ==> (r is Ok && r->Ok_0@ == s),
        forall|n: u64| #[trigger] decimal(n as nat) == text@ ==> r is Err,
{
    match serde_json::from_str::<String>(text) {
        Ok(s) => Ok(s),
        Err(e) => Err(e.to_string()),
    }
}

/// Relies on serde's `de::Error::invalid_value` as serde_json renders it: the
/// message for an unsigned integer `value` that is not what `expected` says.
#[verifier::external_body]
pub(crate) fn invalid_unsigned_message(value: u64, expected: &str) -> (r: String)
{
    <serde_json::Error as serde::de::Error>::invalid_value(
        serde::de::Unexpected::Unsigned(value),
        &expected,
    ).to_string()
}

} // verus!
