//! Predicates over an email's fields, passed into the query operations.
//!
//! A [`Filter`] is a boolean expression over the stored fields; the store
//! evaluates it row by row. [`filter_matches`] is the meaning of a filter on
//! one row, and every query contract is stated over it.

use vstd::prelude::*;
use crate::email::Email;
use crate::email::opt_bool_eq;

verus! {

/// A boolean expression over an email's fields.
pub enum Filter {
    /// Matches every row.
    Any,
    /// The natural key equals the given string.
    ValueEq(String),
    /// The synthetic id equals the given id.
    IdEq(i32),
    /// The stored hidden-flag equals the given flag.
    Unscoped(bool),
    /// The validity attribute equals the given value (`None` matches rows
    /// where the attribute is unset).
    ValidEq(Option<bool>),
    Not(Box<Filter>),
    And(Box<Filter>, Box<Filter>),
    Or(Box<Filter>, Box<Filter>),
}

/// What it means for one stored row to match a filter.
pub open spec fn filter_matches(f: Filter, e: Email) -> bool
    decreases f,
{
    match f {
        Filter::Any => true,
        Filter::ValueEq(v) => e.value@ == v@,
        Filter::IdEq(id) => e.id == id,
        Filter::Unscoped(u) => e.unscoped == u,
        Filter::ValidEq(v) => e.valid == v,
        Filter::Not(g) => !filter_matches(*g, e),
        Filter::And(g, h) => filter_matches(*g, e) && filter_matches(*h, e),
        Filter::Or(g, h) => filter_matches(*g, e) || filter_matches(*h, e),
    }
}

/// Whether a filter is blind to the hidden-flag: matching is then unaffected
/// by scoping and unscoping rows.
pub open spec fn scope_blind(f: Filter) -> bool
    decreases f,
{
    match f {
        Filter::Any => true,
        Filter::ValueEq(_) => true,
        Filter::IdEq(_) => true,
        Filter::Unscoped(_) => false,
        Filter::ValidEq(_) => true,
        Filter::Not(g) => scope_blind(*g),
        Filter::And(g, h) => scope_blind(*g) && scope_blind(*h),
        Filter::Or(g, h) => scope_blind(*g) && scope_blind(*h),
    }
}

impl Filter {
    /// Evaluates the filter on one stored row.
    pub fn eval(&self, e: &Email) -> (r: bool)
        ensures
            r == filter_matches(*self, *e),
        decreases *self,
    {
        match self {
            Filter::Any => true,
            Filter::ValueEq(v) => strings_eq(v, &e.value),
            Filter::IdEq(id) => e.id == *id,
            Filter::Unscoped(u) => e.unscoped == *u,
            Filter::ValidEq(v) => opt_bool_eq(&e.valid, v),
            Filter::Not(g) => !g.eval(e),
            Filter::And(g, h) => g.eval(e) && h.eval(e),
            Filter::Or(g, h) => g.eval(e) || h.eval(e),
        }
    }
}

/// Equality of two strings, by their characters.
fn strings_eq(a: &String, b: &String) -> (r: bool)
    ensures
        r == (a@ == b@),
{
    a.eq(b)
}

} // verus!
