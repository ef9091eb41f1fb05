//! Service definitions as they arrive on the bus: raw payload bytes that must
//! be UTF-8 JSON text with a string under `id.value`.
use json::JsonValue;
use vstd::prelude::*;
use vstd::string::StringSliceAdditionalSpecFns;
use vstd::utf8::{decode_utf8, decode_utf8_encode_utf8, encode_utf8, valid_utf8};

verus! {

#[verifier::external_type_specification]
#[verifier::external_body]
pub struct ExJsonValue(json::JsonValue);

#[verifier::external_type_specification]
#[verifier::external_body]
pub struct ExJsonError(json::Error);

/// The longest run of ASCII digits that json's parser is given. It counts the
/// exponent of a fraction in an `i16` and lowers it once per fractional
/// digit, so a longer run could overflow it.
pub const MAX_DIGIT_RUN: usize = 32768;

pub open spec fn is_ascii_digit(b: u8) -> bool {
    48 <= b && b <= 57
}

/// The number of ASCII digits at the end of `s`.
pub open spec fn trailing_digits(s: Seq<u8>) -> nat
    decreases s.len(),
{
    if s.len() > 0 && is_ascii_digit(s.last()) {
        trailing_digits(s.drop_last()) + 1
    } else {
        0
    }
}

/// Whether no run of ASCII digits in `s` is longer than `n`.
pub open spec fn digit_runs_within(s: Seq<u8>, n: nat) -> bool {
    forall|k: int| 0 <= k <= s.len() ==> #[trigger] trailing_digits(s.take(k)) <= n
}

/// Whether `json::parse` accepts the text as a JSON document.
pub uninterp spec fn json_accepts(text: Seq<char>) -> bool;

/// The string that the JSON document `text` holds under `outer`, then
/// `inner`, if it is one.
pub uninterp spec fn json_member_str(text: Seq<char>, outer: Seq<char>, inner: Seq<char>) -> Option<
    Seq<char>,
>;

/// Relies on `json::parse`: whether it succeeds depends on the text alone.
/// Texts with a longer run of digits than `MAX_DIGIT_RUN` are left out.
pub assume_specification[ json::parse ](source: &str) -> (r: Result<JsonValue, json::Error>)
    requires
        digit_runs_within(source.spec_bytes(), MAX_DIGIT_RUN as nat),
    ensures
        r is Ok <==> json_accepts(source@),
;

/// Relies on `json::parse`, json's `Index<&str>` for `JsonValue` (the member
/// under a key of an object, else null) and `JsonValue::as_str` (the text of
/// a string value, else nothing): the lookup depends on its arguments alone,
/// and finds something only in a document that parses.
#[verifier::external_body]
fn member_str(text: &str, outer: &str, inner: &str) -> (r: Option<String>)
    requires
        digit_runs_within(text.spec_bytes(), MAX_DIGIT_RUN as nat),
    ensures
        match r {
            Some(s) => json_member_str(text@, outer@, inner@) == Some(s@),
            None => json_member_str(text@, outer@, inner@) is None,
        },
        r is Some ==> json_accepts(text@),
{
    json::parse(text).ok().and_then(|v| v[outer][inner].as_str().map(|s| s.to_string()))
}

/// Relies on `std::str::from_utf8`: it succeeds exactly on valid UTF-8 and
/// then holds the decoded text.
#[verifier::external_body]
fn utf8_text(bytes: &Vec<u8>) -> (r: Option<String>)
    ensures
        r is Some <==> valid_utf8(bytes@),
        r matches Some(t) ==> t@ == decode_utf8(bytes@),
{
    std::str::from_utf8(bytes.as_slice()).ok().map(|t| t.to_string())
}

/// Whether no run of ASCII digits in `bytes` is longer than `MAX_DIGIT_RUN`.
pub fn digit_runs_short(bytes: &Vec<u8>) -> (r: bool)
    ensures
        r == digit_runs_within(bytes@, MAX_DIGIT_RUN as nat),
{
    let mut run: usize = 0;
    let mut i: usize = 0;
    assert(bytes@.take(0) =~= Seq::<u8>::empty());
    while i < bytes.len()
        invariant
            0 <= i <= bytes@.len(),
            run == trailing_digits(bytes@.take(i as int)),
            run <= MAX_DIGIT_RUN,
            forall|k: int| 0 <= k <= i ==> #[trigger] trailing_digits(bytes@.take(k)) <= MAX_DIGIT_RUN,
        decreases bytes@.len() - i,
    {
        assert(bytes@.take(i + 1).drop_last() =~= bytes@.take(i as int));
        assert(bytes@.take(i + 1).last() == bytes@[i as int]);
        if 48 <= bytes[i] && bytes[i] <= 57 {
            if run == MAX_DIGIT_RUN {
                assert(trailing_digits(bytes@.take(i + 1)) > MAX_DIGIT_RUN);
                return false;
            }
            run = run + 1;
        } else {
            run = 0;
        }
        i = i + 1;
    }
    true
}

/// A well-formed service definition: its identity and its payload unchanged.
#[derive(Clone, Debug)]
pub struct ServiceDefinition {
    pub identity: String,
    pub payload: Vec<u8>,
}

/// Why a message was dropped as malformed.
#[derive(Clone, Copy, Debug, PartialEq, Eq, Structural)]
pub enum DecodeError {
    NotUtf8,
    /// A run of digits longer than the JSON parser is given.
    DigitRunTooLong,
    NotJson,
    MissingIdentity,
}

/// Why `payload` is not a service definition, if it is not one.
pub open spec fn decode_error(payload: Seq<u8>) -> Option<DecodeError> {
    let text = decode_utf8(payload);
    if !valid_utf8(payload) {
        Some(DecodeError::NotUtf8)
    } else if !digit_runs_within(payload, MAX_DIGIT_RUN as nat) {
        Some(DecodeError::DigitRunTooLong)
    } else if !json_accepts(text) {
        Some(DecodeError::NotJson)
    } else if json_member_str(text, "id"@, "value"@) is None {
        Some(DecodeError::MissingIdentity)
    } else {
        None
    }
}

/// The identity of a service definition: the string under `id.value`.
pub open spec fn identity_in(payload: Seq<u8>) -> Seq<char> {
    json_member_str(decode_utf8(payload), "id"@, "value"@).unwrap()
}

/// The outcome of decoding `payload`.
pub open spec fn decoded_from(payload: Seq<u8>, r: Result<ServiceDefinition, DecodeError>) -> bool {
    match decode_error(payload) {
        Some(e) => r == Err::<ServiceDefinition, DecodeError>(e),
        None => r matches Ok(d) && d.identity@ == identity_in(payload) && d.payload@ == payload,
    }
}

/// Decodes a message of the service-definition topic: UTF-8 text, parsed as
/// JSON, whose `id.value` is a string.
pub fn decode_service_definition(payload: Vec<u8>) -> (r: Result<ServiceDefinition, DecodeError>)
    ensures
        decoded_from(payload@, r),
{
    let text = match utf8_text(&payload) {
        Some(t) => t,
        None => return Err(DecodeError::NotUtf8),
    };
    if !digit_runs_short(&payload) {
        return Err(DecodeError::DigitRunTooLong);
    }
    let t = text.as_str();
    proof {
        decode_utf8_encode_utf8(payload@);
        assert(t.spec_bytes() == payload@);
    }
    match member_str(t, "id", "value") {
        Some(id) => Ok(ServiceDefinition { identity: id, payload }),
        None => match json::parse(t) {
            Ok(_) => Err(DecodeError::MissingIdentity),
            Err(_) => Err(DecodeError::NotJson),
        },
    }
}

} // verus!
