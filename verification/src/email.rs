//! The email entity and its construction and delta records.
//!
//! An [`Email`] row carries a synthetic immutable `id`, the natural key
//! `value` (unique among emails), the inverted visibility flag `unscoped`,
//! and one nullable derived attribute, the tri-state validity flag `valid`.

use vstd::prelude::*;

verus! {

/// A stored email entity.
#[derive(Debug, PartialEq)]
pub struct Email {
    /// Synthetic id, assigned on insert and never reassigned.
    pub id: i32,
    /// The natural key: the address itself.
    pub value: String,
    /// Inverted visibility: `true` means hidden from default views.
    pub unscoped: bool,
    /// Derived attribute: whether the address was found deliverable.
    pub valid: Option<bool>,
}

/// Construction data for a not-yet-stored email: natural key plus the
/// attributes settable at creation time. Carries no id.
#[derive(Debug, PartialEq)]
pub struct NewEmail {
    pub value: String,
    pub valid: Option<bool>,
}

/// A field-level delta against a previously fetched [`Email`]. An absent
/// attribute is an explicit no-op, not a zero value.
#[derive(Clone, Copy, Debug, PartialEq)]
pub struct EmailUpdate {
    pub id: i32,
    pub valid: Option<bool>,
}

/// A delta record wrapped for generic handling, one variant per entity type.
#[derive(Debug, PartialEq)]
pub enum Update {
    Email(EmailUpdate),
}

/// The delta for one optional attribute: the proposed value where it differs
/// from the stored one, and an explicit no-op where the two are equal.
pub open spec fn upsert_delta(proposed: Option<bool>, stored: Option<bool>) -> Option<bool> {
    if proposed == stored {
        None
    } else {
        proposed
    }
}

/// Whether a delta record has at least one attribute set.
pub open spec fn spec_dirty(u: EmailUpdate) -> bool {
    u.valid is Some
}

impl Clone for Email {
    fn clone(&self) -> (r: Self)
        ensures
            r == *self,
    {
        Email {
            id: self.id,
            value: self.value.clone(),
            unscoped: self.unscoped,
            valid: self.valid,
        }
    }
}

impl Email {
    /// The synthetic id.
    pub fn id(&self) -> (r: i32)
        ensures
            r == self.id,
    {
        self.id
    }

    /// The natural key.
    pub fn value(&self) -> (r: &str)
        ensures
            r@ == self.value@,
    {
        self.value.as_str()
    }

    /// The natural key as an owned string.
    pub fn to_string(&self) -> (r: String)
        ensures
            r@ == self.value@,
    {
        self.value.clone()
    }

    /// Effective visibility: the negation of the stored hidden-flag.
    pub fn scoped(&self) -> (r: bool)
        ensures
            r == !self.unscoped,
    {
        !self.unscoped
    }
}

impl Clone for NewEmail {
    fn clone(&self) -> (r: Self)
        ensures
            r == *self,
    {
        NewEmail { value: self.value.clone(), valid: self.valid }
    }
}

impl NewEmail {
    /// The natural key the record would be stored under.
    pub fn value(&self) -> (r: &str)
        ensures
            r@ == self.value@,
    {
        self.value.as_str()
    }

    /// Diffs this construction record against a previously fetched entity of
    /// the same natural key: each optional attribute is set in the resulting
    /// delta only where it differs from the stored value, and cleared where
    /// the two are equal.
    pub fn upsert(self, existing: &Email) -> (r: EmailUpdate)
        ensures
            r.id == existing.id,
            r.valid == upsert_delta(self.valid, existing.valid),
    {
        EmailUpdate { id: existing.id, valid: upsert_opt(self.valid, &existing.valid) }
    }
}

/// The executable form of [`upsert_delta`].
fn upsert_opt(proposed: Option<bool>, stored: &Option<bool>) -> (r: Option<bool>)
    ensures
        r == upsert_delta(proposed, *stored),
{
    if opt_bool_eq(&proposed, stored) {
        None
    } else {
        proposed
    }
}

/// Equality of two optional booleans.
pub fn opt_bool_eq(a: &Option<bool>, b: &Option<bool>) -> (r: bool)
    ensures
        r == (*a == *b),
{
    match (a, b) {
        (Option::None, Option::None) => true,
        (Option::Some(x), Option::Some(y)) => *x == *y,
        _ => false,
    }
}

impl EmailUpdate {
    /// Whether at least one attribute is set: callers check this before
    /// applying a delta, to avoid wasted writes.
    pub fn is_dirty(&self) -> (r: bool)
        ensures
            r == spec_dirty(*self),
    {
        self.valid.is_some()
    }

    /// Wraps the delta for generic handling across entity types.
    pub fn generic(self) -> (r: Update)
        ensures
            r == Update::Email(self),
    {
        Update::Email(self)
    }

    /// Clears every attribute that equals the stored value, so that the
    /// record carries only genuine changes against `existing`.
    pub fn changeset(&mut self, existing: &Email)
        ensures
            final(self).id == old(self).id,
            final(self).valid == (if old(self).valid == existing.valid {
                None::<bool>
            } else {
                old(self).valid
            }),
    {
        if opt_bool_eq(&self.valid, &existing.valid) {
            self.valid = None;
        }
    }

    /// Appends a human-readable audit entry per set attribute, in the shape
    /// `field -> new value`; cleared attributes are omitted.
    pub fn fmt(&self, updates: &mut Vec<String>)
        ensures
            final(updates)@.len() == old(updates)@.len() + (if self.valid is Some {
                1int
            } else {
                0int
            }),
            forall|i: int|
                0 <= i < old(updates)@.len() ==> final(updates)@[i] == old(updates)@[i],
            self.valid == Some(true) ==> final(updates)@.last()@ == "valid -> true"@,
            self.valid == Some(false) ==> final(updates)@.last()@ == "valid -> false"@,
    {
        match self.valid {
            Option::Some(true) => updates.push("valid -> true".to_owned()),
            Option::Some(false) => updates.push("valid -> false".to_owned()),
            Option::None => (),
        }
    }
}

} // verus!
