//! Reading texts out of JSON.
use serde_json::Value;
use vstd::prelude::*;

verus! {

/// What `serde_json` makes of `body`: the text that the member `key` of the
/// value holds, nothing if it holds none, or why `body` is no JSON.
pub uninterp spec fn json_member(
    body: Seq<u8>,
    key: Seq<char>,
) -> Result<Option<Seq<char>>, Seq<char>>;

/// What `serde_json` makes of `body`: for each item of the list the text that
/// its member `key` holds, or why `body` is no JSON list.
pub uninterp spec fn json_list_members(
    body: Seq<u8>,
    key: Seq<char>,
) -> Result<Seq<Option<Seq<char>>>, Seq<char>>;

/// What `serde_json` makes of `body`: the texts in the list that the member
/// `key` of the value holds, nothing if it holds none, or why `body` is no JSON.
pub uninterp spec fn json_member_texts(
    body: Seq<u8>,
    key: Seq<char>,
) -> Result<Option<Seq<Option<Seq<char>>>>, Seq<char>>;

/// What `serde_json` makes of `body`: the integer that the member `key` of the
/// value holds, nothing if it holds none, or why `body` is no JSON.
pub uninterp spec fn json_member_int(
    body: Seq<u8>,
    key: Seq<char>,
) -> Result<Option<i64>, Seq<char>>;

/// A text that may be missing, as a value.
pub open spec fn opt_text(text: Option<String>) -> Option<Seq<char>> {
    match text {
        Some(text) => Some(text@),
        None => None,
    }
}

/// Texts that may be missing, as values.
pub open spec fn opt_texts(texts: Seq<Option<String>>) -> Seq<Option<Seq<char>>> {
    Seq::new(texts.len(), |i: int| opt_text(texts[i]))
}

/// The text that the member `key` of a JSON value holds.
///
/// Calls `from_slice`, `Value::get` and `Value::as_str` of `serde_json`.
/// Trusted: text and error text are a function of the bytes and the key alone.
#[verifier::external_body]
pub(crate) fn member(body: &[u8], key: &str) -> (text: Result<Option<String>, String>)
    ensures
        match text {
            Ok(text) => json_member(body@, key@) == Ok::<Option<Seq<char>>, Seq<char>>(
                opt_text(text),
            ),
            Err(error) => json_member(body@, key@) == Err::<Option<Seq<char>>, Seq<char>>(error@),
        },
{
    match serde_json::from_slice::<Value>(body) {
        Ok(value) => Ok(value.get(key).and_then(Value::as_str).map(str::to_owned)),
        Err(error) => Err(error.to_string()),
    }
}

/// The texts that the members `key` of the items of a JSON list hold.
///
/// Calls `from_slice`, `Value::get` and `Value::as_str` of `serde_json`.
/// Trusted: texts and error text are a function of the bytes and the key alone.
#[verifier::external_body]
pub(crate) fn list_members(body: &[u8], key: &str) -> (texts: Result<Vec<Option<String>>, String>)
    ensures
        match texts {
            Ok(texts) => json_list_members(body@, key@) == Ok::<
                Seq<Option<Seq<char>>>,
                Seq<char>,
            >(opt_texts(texts@)),
            Err(error) => json_list_members(body@, key@) == Err::<
                Seq<Option<Seq<char>>>,
                Seq<char>,
            >(error@),
        },
{
    match serde_json::from_slice::<Vec<Value>>(body) {
        Ok(items) => Ok(
            items.iter().map(|v| v.get(key).and_then(Value::as_str).map(str::to_owned)).collect(),
        ),
        Err(error) => Err(error.to_string()),
    }
}

/// The texts in the list that the member `key` of a JSON value holds.
///
/// Calls `from_slice`, `Value::get`, `Value::as_array` and `Value::as_str` of
/// `serde_json`. Trusted: texts and error text are a function of the bytes and
/// the key alone.
#[verifier::external_body]
pub(crate) fn member_texts(body: &[u8], key: &str) -> (texts: Result<
    Option<Vec<Option<String>>>,
    String,
>)
    ensures
        match texts {
            Ok(texts) => json_member_texts(body@, key@) == Ok::<
                Option<Seq<Option<Seq<char>>>>,
                Seq<char>,
            >(
                match texts {
                    Some(texts) => Some(opt_texts(texts@)),
                    None => None,
                },
            ),
            Err(error) => json_member_texts(body@, key@) == Err::<
                Option<Seq<Option<Seq<char>>>>,
                Seq<char>,
            >(error@),
        },
{
    let value: Value = serde_json::from_slice(body).map_err(|error| error.to_string())?;
    let items = value.get(key).and_then(Value::as_array);
    Ok(items.map(|items| items.iter().map(|v| v.as_str().map(str::to_owned)).collect()))
}

/// The integer that the member `key` of a JSON value holds.
///
/// Calls `from_slice`, `Value::get` and `Value::as_i64` of `serde_json`.
/// Trusted: integer and error text are a function of the bytes and the key
/// alone.
#[verifier::external_body]
pub(crate) fn member_int(body: &[u8], key: &str) -> (number: Result<Option<i64>, String>)
    ensures
        match number {
            Ok(number) => json_member_int(body@, key@) == Ok::<Option<i64>, Seq<char>>(number),
            Err(error) => json_member_int(body@, key@) == Err::<Option<i64>, Seq<char>>(error@),
        },
{
    match serde_json::from_slice::<Value>(body) {
        Ok(value) => Ok(value.get(key).and_then(Value::as_i64)),
        Err(error) => Err(error.to_string()),
    }
}

/// Texts that may be missing are taken as they are.
pub proof fn missing_texts_stay_missing(text: Option<String>, texts: Seq<Option<String>>, i: int)
    ensures
        text is None ==> opt_text(text) is None,
        text matches Some(text) ==> opt_text(Some(text)) == Some(text@),
        opt_texts(texts).len() == texts.len(),
        0 <= i < texts.len() ==> opt_texts(texts)[i] == opt_text(texts[i]),
{
}

} // verus!
