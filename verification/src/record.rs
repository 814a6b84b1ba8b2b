//! Parsing one line as one JSON record.

use vstd::prelude::*;

verus! {

/// A parsed JSON value of `serde_json`, carried as an opaque value.
#[verifier::external_type_specification]
#[verifier::external_body]
pub struct ExJsonValue(serde_json::Value);

/// The parse error of `serde_json`, carried as an opaque value.
#[verifier::external_type_specification]
#[verifier::external_body]
pub struct ExJsonError(serde_json::Error);

/// Whether `serde_json::from_slice` reads `line` as exactly one JSON value.
/// The answer is a function of the bytes alone.
pub uninterp spec fn json_well_formed(line: Seq<u8>) -> bool;

/// The parsed value of one line. The pipeline never looks inside.
pub struct Record {
    value: serde_json::Value,
}

/// The line is not one syntactically valid JSON value.
#[derive(Clone, Copy, Debug, PartialEq, Eq)]
pub struct ParseError {}

/// Calls `serde_json::from_slice` at the type `serde_json::Value`. Trusted:
/// the call succeeds exactly on the byte strings that `json_well_formed` names,
/// which says no more than that the outcome depends on the bytes alone.
#[verifier::external_body]
fn json_from_slice(line: &[u8]) -> (r: Result<serde_json::Value, serde_json::Error>)
    ensures
        r is Ok <==> json_well_formed(line@),
{
    serde_json::from_slice::<serde_json::Value>(line)
}

impl Record {
    /// Hands out the parsed value.
    pub fn into_value(self) -> (value: serde_json::Value)
        ensures
            value == self.held(),
    {
        self.value
    }

    /// The parsed value that the record holds.
    pub closed spec fn held(&self) -> serde_json::Value {
        self.value
    }
}

/// Parses `line` as one record. Stateless: the outcome depends on `line` alone.
pub fn parse(line: &[u8]) -> (r: Result<Record, ParseError>)
    ensures
        r is Ok <==> json_well_formed(line@),
{
    match json_from_slice(line) {
        Ok(value) => Ok(Record { value }),
        Err(_) => Err(ParseError {  }),
    }
}

} // verus!
