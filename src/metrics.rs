//! The metrics threshold evaluator: the time-windowed selector it sends to the
//! bus and the verdict it draws from the replies.
use crate::comparison::{comparison_of, compare_values_to_threshold, kpi_met, UnsupportedComparison};
use std::cmp::Ordering;
use vstd::prelude::*;
use vstd::string::StringExecFns;

verus! {

/// What one reply of a metrics query yielded.
#[derive(Clone, Copy, Debug)]
pub enum Reading {
    /// A numeric sample, given by how it orders against the threshold.
    Sample(Option<Ordering>),
    /// A reply whose payload is not a number.
    Unparseable,
    /// A reply that carried a delivery error instead of a sample.
    TransportError,
}

/// Why an evaluation request failed.
#[derive(Clone, Copy, Debug, PartialEq, Eq, Structural)]
pub enum EvaluationError {
    UnsupportedComparison,
    /// The first reply that held no number is at this position.
    MalformedSample(usize),
}

/// The samples among the readings, in order; delivery errors are skipped.
pub open spec fn samples_of(readings: Seq<Reading>) -> Seq<Option<Ordering>>
    decreases readings.len(),
{
    if readings.len() == 0 {
        Seq::empty()
    } else {
        let rest = samples_of(readings.drop_last());
        match readings.last() {
            Reading::Sample(o) => rest.push(o),
            _ => rest,
        }
    }
}

/// Whether some reading could not be parsed as a number.
pub open spec fn has_unparseable(readings: Seq<Reading>) -> bool {
    exists|i: int| 0 <= i < readings.len() && readings[i] == Reading::Unparseable
}

/// The verdict of a metrics query: an unsupported operator or an unparseable
/// reply fails the request; otherwise the operator is evaluated over every
/// sample received, delivery errors aside.
pub fn evaluate_readings(comparison: &str, readings: &Vec<Reading>) -> (r: Result<
    bool,
    EvaluationError,
>)
    ensures
        comparison_of(comparison@) is None ==> r == Err::<bool, EvaluationError>(
            EvaluationError::UnsupportedComparison,
        ),
        comparison_of(comparison@) is Some ==> (r is Err <==> has_unparseable(readings@)),
        r matches Err(EvaluationError::MalformedSample(i)) ==> i < readings@.len()
            && readings@[i as int] == Reading::Unparseable && forall|j: int|
            0 <= j < i ==> readings@[j] != Reading::Unparseable,
        r matches Ok(met) ==> met == kpi_met(comparison_of(comparison@).unwrap(), samples_of(readings@)),
{
    let mut samples: Vec<Option<Ordering>> = Vec::new();
    let mut i: usize = 0;
    let mut malformed: Option<usize> = None;
    while i < readings.len()
        invariant
            0 <= i <= readings@.len(),
            samples@ == samples_of(readings@.take(i as int)),
            malformed is None ==> forall|j: int| 0 <= j < i ==> readings@[j] != Reading::Unparseable,
            malformed matches Some(k) ==> k < i && readings@[k as int] == Reading::Unparseable
                && forall|j: int| 0 <= j < k ==> readings@[j] != Reading::Unparseable,
        decreases readings@.len() - i,
    {
        assert(readings@.take(i + 1).drop_last() =~= readings@.take(i as int));
        match readings[i] {
            Reading::Sample(o) => samples.push(o),
            Reading::Unparseable => {
                if malformed.is_none() {
                    malformed = Some(i);
                }
            },
            Reading::TransportError => {},
        }
        i = i + 1;
    }
    assert(readings@.take(readings@.len() as int) =~= readings@);
    match compare_values_to_threshold(comparison, &samples) {
        Err(UnsupportedComparison) => Err(EvaluationError::UnsupportedComparison),
        Ok(met) => match malformed {
            Some(k) => Err(EvaluationError::MalformedSample(k)),
            None => Ok(met),
        },
    }
}

/// The decimal digits of `n`, most significant first.
pub open spec fn decimal(n: nat) -> Seq<char>
    decreases n,
{
    if n < 10 {
        seq![digit_char(n)]
    } else {
        decimal(n / 10).push(digit_char(n % 10))
    }
}

pub open spec fn digit_char(d: nat) -> char {
    if d < 10 { (('0' as u8) + d) as char } else { '?' }
}

fn digit_str(d: u64) -> (r: &'static str)
    requires
        d < 10,
    ensures
        r@ == seq![digit_char(d as nat)],
{
    proof { reveal_strlit("0"); reveal_strlit("1"); reveal_strlit("2"); reveal_strlit("3");
        reveal_strlit("4"); reveal_strlit("5"); reveal_strlit("6"); reveal_strlit("7");
        reveal_strlit("8"); reveal_strlit("9"); }
    let r = match d {
        0 => "0",
        1 => "1",
        2 => "2",
        3 => "3",
        4 => "4",
        5 => "5",
        6 => "6",
        7 => "7",
        8 => "8",
        _ => "9",
    };
    assert(r@ =~= seq![digit_char(d as nat)]);
    r
}

/// Writes `n` in decimal.
pub fn decimal_string(n: u64) -> (r: String)
    ensures
        r@ == decimal(n as nat),
    decreases n,
{
    if n < 10 {
        String::from_str(digit_str(n))
    } else {
        let mut s = decimal_string(n / 10);
        s.append(digit_str(n % 10));
        s
    }
}

/// The selector of every sample of `key` published in the trailing window of
/// `amount` units of `unit`.
pub open spec fn selector_text(key: Seq<char>, amount: nat, unit: Seq<char>) -> Seq<char> {
    key + "?_time=[now(-"@ + decimal(amount) + unit + ")..]"@
}

/// Builds the query selector of a metrics request: the key followed by a
/// time-range filter over the trailing window.
pub fn metrics_selector(key: &str, amount: u64, unit: &str) -> (r: String)
    ensures
        r@ == selector_text(key@, amount as nat, unit@),
{
    let mut s = String::from_str(key);
    s.append("?_time=[now(-");
    let digits = decimal_string(amount);
    s.append(digits.as_str());
    s.append(unit);
    s.append(")..]");
    s
}

} // verus!
