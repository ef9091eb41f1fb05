//! Comparison operators of a key performance indicator and their aggregation
//! over every sample of a window.
use std::cmp::Ordering;
use vstd::prelude::*;

verus! {

/// The comparison that every sample must satisfy against the threshold.
#[derive(Clone, Copy, Debug, PartialEq, Eq, Structural)]
pub enum Comparison {
    LessThan,
    GreaterThan,
    GreaterOrEqual,
    LessOrEqual,
}

/// An operator string that names none of `<`, `>`, `>=`, `<=`.
#[derive(Clone, Copy, Debug, PartialEq, Eq, Structural)]
pub struct UnsupportedComparison;

/// The operator that `s` spells, if any.
pub open spec fn comparison_of(s: Seq<char>) -> Option<Comparison> {
    if s == seq!['<'] {
        Some(Comparison::LessThan)
    } else if s == seq!['>'] {
        Some(Comparison::GreaterThan)
    } else if s == seq!['>', '='] {
        Some(Comparison::GreaterOrEqual)
    } else if s == seq!['<', '='] {
        Some(Comparison::LessOrEqual)
    } else {
        None
    }
}

/// Whether a sample that orders as `order` against the threshold satisfies
/// `op`. An unordered sample (`None`, a NaN) satisfies no operator.
pub open spec fn holds(op: Comparison, order: Option<Ordering>) -> bool {
    match op {
        Comparison::LessThan => order == Some(Ordering::Less),
        Comparison::GreaterThan => order == Some(Ordering::Greater),
        Comparison::GreaterOrEqual => order == Some(Ordering::Greater) || order
            == Some(Ordering::Equal),
        Comparison::LessOrEqual => order == Some(Ordering::Less) || order == Some(
            Ordering::Equal,
        ),
    }
}

/// The indicator is met when there is at least one sample and every sample
/// satisfies the operator.
pub open spec fn kpi_met(op: Comparison, orders: Seq<Option<Ordering>>) -> bool {
    orders.len() > 0 && forall|i: int| 0 <= i < orders.len() ==> holds(op, #[trigger] orders[i])
}

/// Reads the operator spelled by `comparison`.
pub fn parse_comparison(comparison: &str) -> (r: Result<Comparison, UnsupportedComparison>)
    ensures
        match comparison_of(comparison@) {
            Some(op) => r == Ok::<Comparison, UnsupportedComparison>(op),
            None => r == Err::<Comparison, UnsupportedComparison>(UnsupportedComparison),
        },
{
    let n = comparison.unicode_len();
    if n == 1 {
        let c = comparison.get_char(0);
        assert(comparison@ =~= seq![c]);
        if c == '<' {
            return Ok(Comparison::LessThan);
        } else if c == '>' {
            return Ok(Comparison::GreaterThan);
        }
    } else if n == 2 {
        let c0 = comparison.get_char(0);
        let c1 = comparison.get_char(1);
        assert(comparison@ =~= seq![c0, c1]);
        if c0 == '>' && c1 == '=' {
            return Ok(Comparison::GreaterOrEqual);
        } else if c0 == '<' && c1 == '=' {
            return Ok(Comparison::LessOrEqual);
        }
    }
    Err(UnsupportedComparison)
}

/// Whether one sample satisfies `op`.
pub fn sample_holds(op: Comparison, order: Option<Ordering>) -> (r: bool)
    ensures
        r == holds(op, order),
{
    match op {
        Comparison::LessThan => matches!(order, Some(Ordering::Less)),
        Comparison::GreaterThan => matches!(order, Some(Ordering::Greater)),
        Comparison::GreaterOrEqual => matches!(order, Some(Ordering::Greater) | Some(Ordering::Equal)),
        Comparison::LessOrEqual => matches!(order, Some(Ordering::Less) | Some(Ordering::Equal)),
    }
}

/// Evaluates `op` over every sample; no sample means the indicator is not met.
pub fn evaluate(op: Comparison, orders: &Vec<Option<Ordering>>) -> (r: bool)
    ensures
        r == kpi_met(op, orders@),
{
    if orders.len() == 0 {
        return false;
    }
    let mut i: usize = 0;
    while i < orders.len()
        invariant
            0 <= i <= orders@.len(),
            forall|j: int| 0 <= j < i ==> holds(op, #[trigger] orders@[j]),
        decreases orders@.len() - i,
    {
        if !sample_holds(op, orders[i]) {
            return false;
        }
        i = i + 1;
    }
    true
}

/// Evaluates the operator spelled by `comparison_str` over the orderings of
/// the samples against the threshold. An unsupported operator is an error,
/// whether or not there are samples.
pub fn compare_values_to_threshold(comparison_str: &str, orders: &Vec<Option<Ordering>>) -> (r:
    Result<bool, UnsupportedComparison>)
    ensures
        match comparison_of(comparison_str@) {
            Some(op) => r == Ok::<bool, UnsupportedComparison>(kpi_met(op, orders@)),
            None => r == Err::<bool, UnsupportedComparison>(UnsupportedComparison),
        },
{
    match parse_comparison(comparison_str) {
        Ok(op) => Ok(evaluate(op, orders)),
        Err(e) => Err(e),
    }
}

/// Over a non-empty window the indicator is met exactly when each sample,
/// taken alone, satisfies the operator.
pub proof fn law_met_iff_every_sample_holds(op: Comparison, orders: Seq<Option<Ordering>>)
    requires
        orders.len() > 0,
    ensures
        kpi_met(op, orders) <==> forall|i: int| 0 <= i < orders.len() ==> holds(op, orders[i]),
{
}

/// An empty window never meets the indicator, whatever the operator.
pub proof fn law_empty_window_not_met(op: Comparison)
    ensures
        !kpi_met(op, Seq::<Option<Ordering>>::empty()),
{
}

} // verus!
