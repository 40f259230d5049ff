use vstd::prelude::*;
use std::collections::HashMap;

verus! {

/// What a configuration text reads as: `None` when the text is not
/// well-formed JSON; otherwise, for each of the keys `instant_scan`,
/// `start_after_duration` and `scan_duration` in turn, `None` when the key
/// is absent and otherwise the value's boolean or integer reading. The
/// outcome depends on the text alone.
pub uninterp spec fn cfg_readings_of(s: Seq<char>) -> Option<
    (Option<Option<bool>>, Option<Option<u64>>, Option<Option<u64>>),
>;

/// Relies on `serde_json::from_str` (None exactly when the text is not
/// well-formed JSON), `Value::get` (the value under a key of the top-level
/// object, None when absent), `Value::as_bool` and `Value::as_u64` (Some
/// exactly for a boolean, resp. an integer fitting `u64`): the three
/// recognized key readings of a configuration text, named `cfg_readings_of`
/// because they are a function of the text alone.
#[verifier::external_body]
pub(crate) fn read_config_text(s: &str) -> (r: Option<
    (Option<Option<bool>>, Option<Option<u64>>, Option<Option<u64>>),
>)
    ensures
        r == cfg_readings_of(s@),
{
    let v: serde_json::Value = match serde_json::from_str(s) {
        Ok(v) => v,
        Err(_) => return None,
    };
    Some((
        v.get("instant_scan").map(|x| x.as_bool()),
        v.get("start_after_duration").map(|x| x.as_u64()),
        v.get("scan_duration").map(|x| x.as_u64()),
    ))
}

/// Relies on `serde_json::to_string` on a map from numeric identifiers to
/// byte blocks: the flattened text of the vendor-specific data. A returned
/// text is a JSON object, so it holds at least its two braces, and an empty
/// map serializes as exactly `{}`.
#[verifier::external_body]
pub(crate) fn manufacturer_data_to_json(m: &HashMap<u16, Vec<u8>>) -> (r: Option<String>)
    ensures
        r matches Some(s) ==> s@.len() >= 2 && (m@.len() == 0 ==> s@ == "{}"@),
        r is None ==> m@.len() != 0,
{
    serde_json::to_string(m).ok()
}

/// Relies on `serde_json::to_string` on a map from service identifiers to
/// byte blocks: the flattened text of the advertised service data. A
/// returned text is a JSON object, so it holds at least its two braces, and
/// an empty map serializes as exactly `{}`.
#[verifier::external_body]
pub(crate) fn service_data_to_json(m: &HashMap<String, Vec<u8>>) -> (r: Option<String>)
    ensures
        r matches Some(s) ==> s@.len() >= 2 && (m@.len() == 0 ==> s@ == "{}"@),
        r is None ==> m@.len() != 0,
{
    serde_json::to_string(m).ok()
}

} // verus!
