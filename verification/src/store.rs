//! The relational store and the entity access layer.
//!
//! [`Database`] models the backing store: one table of email entities, one
//! table of breach entities (the related exemplar type), and one table of
//! association rows linking the two, each with an optional per-relation
//! payload. Every operation below is a single store statement: atomic on its
//! own, with no implicit cross-call transaction.
//!
//! [`StoreModel`] is the mathematical view of the store; every contract in
//! this module is stated over it. [`StoreModel::wf`] is the store-enforced
//! invariant: synthetic ids are unique and below the id counters, and the
//! natural key of an email is unique. Association rows are deliberately not
//! constrained: a referenced row can be deleted out from under them, which is
//! exactly the corruption that relationship resolution reports as
//! [`Error::IntegrityFault`].

use vstd::prelude::*;
use crate::email::Email;
use crate::email::EmailUpdate;
use crate::email::NewEmail;
use crate::email::spec_dirty;
use crate::errors::Error;
use crate::filter::Filter;
use crate::filter::filter_matches;

verus! {

/// A stored breach entity: the related exemplar type that email entities are
/// associated with.
#[derive(Debug, PartialEq)]
pub struct Breach {
    /// Synthetic id, assigned on insert and never reassigned.
    pub id: i32,
    /// The natural key: the breach name.
    pub value: String,
}

/// An association row linking a breach to an email, optionally carrying a
/// per-relation payload (a compromised credential).
#[derive(Debug, PartialEq)]
pub struct BreachEmail {
    pub breach_id: i32,
    pub email_id: i32,
    pub password: Option<String>,
}

impl Clone for Breach {
    fn clone(&self) -> (r: Self)
        ensures
            r == *self,
    {
        Breach { id: self.id, value: self.value.clone() }
    }
}

impl Clone for BreachEmail {
    fn clone(&self) -> (r: Self)
        ensures
            r == *self,
    {
        BreachEmail {
            breach_id: self.breach_id,
            email_id: self.email_id,
            password: clone_opt_string(&self.password),
        }
    }
}

/// Clones an optional credential string.
pub(crate) fn clone_opt_string(o: &Option<String>) -> (r: Option<String>)
    ensures
        r == *o,
{
    match o {
        Option::Some(s) => Option::Some(s.clone()),
        Option::None => Option::None,
    }
}

/// The backing store.
pub struct Database {
    emails: Vec<Email>,
    breaches: Vec<Breach>,
    links: Vec<BreachEmail>,
    next_email_id: i32,
    next_breach_id: i32,
}

/// The mathematical view of the store.
pub struct StoreModel {
    pub emails: Seq<Email>,
    pub breaches: Seq<Breach>,
    pub links: Seq<BreachEmail>,
    pub next_email_id: i32,
    pub next_breach_id: i32,
}

/// No two email rows share an id or a natural key.
pub open spec fn unique_emails(s: Seq<Email>) -> bool {
    forall|i: int, j: int|
        0 <= i < j < s.len() ==> (#[trigger] s[i]).id != (#[trigger] s[j]).id && s[i].value@
            != s[j].value@
}

/// Every email id was assigned below the id counter.
pub open spec fn email_ids_below(s: Seq<Email>, bound: i32) -> bool {
    forall|i: int| 0 <= i < s.len() ==> 1 <= (#[trigger] s[i]).id < bound
}

/// No two breach rows share an id.
pub open spec fn unique_breaches(s: Seq<Breach>) -> bool {
    forall|i: int, j: int| 0 <= i < j < s.len() ==> (#[trigger] s[i]).id != (#[trigger] s[j]).id
}

/// Every breach id was assigned below the id counter.
pub open spec fn breach_ids_below(s: Seq<Breach>, bound: i32) -> bool {
    forall|i: int| 0 <= i < s.len() ==> 1 <= (#[trigger] s[i]).id < bound
}

impl StoreModel {
    /// The store-enforced invariant.
    pub open spec fn wf(self) -> bool {
        &&& 1 <= self.next_email_id
        &&& 1 <= self.next_breach_id
        &&& unique_emails(self.emails)
        &&& email_ids_below(self.emails, self.next_email_id)
        &&& unique_breaches(self.breaches)
        &&& breach_ids_below(self.breaches, self.next_breach_id)
    }
}

impl View for Database {
    type V = StoreModel;

    closed spec fn view(&self) -> StoreModel {
        StoreModel {
            emails: self.emails@,
            breaches: self.breaches@,
            links: self.links@,
            next_email_id: self.next_email_id,
            next_breach_id: self.next_breach_id,
        }
    }
}

/// Whether some email row carries the given natural key.
pub open spec fn contains_value(s: Seq<Email>, v: Seq<char>) -> bool {
    exists|i: int| 0 <= i < s.len() && (#[trigger] s[i]).value@ == v
}

/// Whether some email row carries the given id.
pub open spec fn contains_id(s: Seq<Email>, id: i32) -> bool {
    exists|i: int| 0 <= i < s.len() && (#[trigger] s[i]).id == id
}

/// The first email row satisfying a predicate, if any.
pub open spec fn find_first(s: Seq<Email>, p: spec_fn(Email) -> bool) -> Option<Email>
    decreases s.len(),
{
    if s.len() == 0 {
        None
    } else if p(s[0]) {
        Some(s[0])
    } else {
        find_first(s.drop_first(), p)
    }
}

/// The first email row with the given natural key, if any.
pub open spec fn find_by_value(s: Seq<Email>, v: Seq<char>) -> Option<Email> {
    find_first(s, |e: Email| e.value@ == v)
}

/// The first email row with the given id, if any.
pub open spec fn find_by_id(s: Seq<Email>, id: i32) -> Option<Email> {
    find_first(s, |e: Email| e.id == id)
}

/// The first breach row with the given id, if any.
pub open spec fn find_breach(s: Seq<Breach>, id: i32) -> Option<Breach>
    decreases s.len(),
{
    if s.len() == 0 {
        None
    } else if s[0].id == id {
        Some(s[0])
    } else {
        find_breach(s.drop_first(), id)
    }
}

/// The first matching breach row is the one at the first matching index.
proof fn lemma_find_breach_at(s: Seq<Breach>, id: i32, i: int)
    requires
        0 <= i < s.len(),
        s[i].id == id,
        forall|k: int| 0 <= k < i ==> (#[trigger] s[k]).id != id,
    ensures
        find_breach(s, id) == Some(s[i]),
    decreases i,
{
    if i > 0 {
        assert(forall|k: int| 0 <= k < i - 1 ==> s.drop_first()[k] == s[k + 1]);
        lemma_find_breach_at(s.drop_first(), id, i - 1);
    }
}

/// Where no breach row carries the id, nothing is found.
proof fn lemma_find_breach_none(s: Seq<Breach>, id: i32)
    requires
        forall|k: int| 0 <= k < s.len() ==> (#[trigger] s[k]).id != id,
    ensures
        find_breach(s, id) is None,
    decreases s.len(),
{
    if s.len() > 0 {
        assert(forall|k: int| 0 <= k < s.len() - 1 ==> s.drop_first()[k] == s[k + 1]);
        lemma_find_breach_none(s.drop_first(), id);
    }
}

/// A found first match is the match at the first matching index.
proof fn lemma_find_first_at(s: Seq<Email>, p: spec_fn(Email) -> bool, i: int)
    requires
        0 <= i < s.len(),
        p(s[i]),
        forall|k: int| 0 <= k < i ==> !p(#[trigger] s[k]),
    ensures
        find_first(s, p) == Some(s[i]),
    decreases i,
{
    if i > 0 {
        assert(!p(s[0]));
        assert(forall|k: int| 0 <= k < i - 1 ==> s.drop_first()[k] == s[k + 1]);
        lemma_find_first_at(s.drop_first(), p, i - 1);
    }
}

/// Where no row matches, nothing is found.
proof fn lemma_find_first_none(s: Seq<Email>, p: spec_fn(Email) -> bool)
    requires
        forall|k: int| 0 <= k < s.len() ==> !p(#[trigger] s[k]),
    ensures
        find_first(s, p) is None,
    decreases s.len(),
{
    if s.len() > 0 {
        assert(forall|k: int| 0 <= k < s.len() - 1 ==> s.drop_first()[k] == s[k + 1]);
        lemma_find_first_none(s.drop_first(), p);
    }
}

/// What a found first match says of the sequence, and what an empty result
/// says: there is no match at all.
pub proof fn lemma_find_first_props(s: Seq<Email>, p: spec_fn(Email) -> bool)
    ensures
        match find_first(s, p) {
            Some(e) => s.contains(e) && p(e),
            None => forall|k: int| 0 <= k < s.len() ==> !p(#[trigger] s[k]),
        },
    decreases s.len(),
{
    if s.len() > 0 {
        lemma_find_first_props(s.drop_first(), p);
        if !p(s[0]) {
            match find_first(s.drop_first(), p) {
                Some(e) => {
                    let k = choose|k: int|
                        0 <= k < s.drop_first().len() && s.drop_first()[k] == e;
                    assert(s[k + 1] == e);
                },
                None => {
                    assert forall|k: int| 0 <= k < s.len() implies !p(s[k]) by {
                        if k > 0 {
                            assert(s.drop_first()[k - 1] == s[k]);
                        }
                    }
                },
            }
        }
    }
}

/// The rows of `s` matching `f`, in store order.
pub open spec fn matching(s: Seq<Email>, f: Filter) -> Seq<Email>
    decreases s.len(),
{
    if s.len() == 0 {
        Seq::empty()
    } else {
        let rest = matching(s.drop_last(), f);
        if filter_matches(f, s.last()) {
            rest.push(s.last())
        } else {
            rest
        }
    }
}

/// The rows of `s` not matching `f`, in store order: what a filtered delete
/// keeps.
pub open spec fn rejecting(s: Seq<Email>, f: Filter) -> Seq<Email>
    decreases s.len(),
{
    if s.len() == 0 {
        Seq::empty()
    } else {
        let rest = rejecting(s.drop_last(), f);
        if filter_matches(f, s.last()) {
            rest
        } else {
            rest.push(s.last())
        }
    }
}

/// What a filtered delete keeps is drawn from the original rows, so it stays
/// no longer, and it inherits unique ids, unique natural keys and the id
/// bound.
proof fn lemma_rejecting_props(s: Seq<Email>, f: Filter, bound: i32)
    ensures
        rejecting(s, f).len() <= s.len(),
        forall|e: Email| #[trigger] rejecting(s, f).contains(e) ==> s.contains(e),
        unique_emails(s) ==> unique_emails(rejecting(s, f)),
        unique_emails(s) && email_ids_below(s, bound) ==> email_ids_below(rejecting(s, f), bound),
    decreases s.len(),
{
    if s.len() > 0 {
        let d = s.drop_last();
        let r = rejecting(s, f);
        let rd = rejecting(d, f);
        lemma_rejecting_props(d, f, bound);
        assert(forall|k: int| 0 <= k < d.len() ==> #[trigger] d[k] == s[k]);
        assert forall|e: Email| #[trigger] r.contains(e) implies s.contains(e) by {
            let k = choose|k: int| 0 <= k < r.len() && r[k] == e;
            if k < rd.len() {
                assert(rd.contains(e));
                let j = choose|j: int| 0 <= j < d.len() && d[j] == e;
                assert(s[j] == e);
            } else {
                assert(e == s.last());
                assert(s[s.len() - 1] == e);
            }
        }
        if unique_emails(s) {
            assert(unique_emails(d));
            if !filter_matches(f, s.last()) {
                assert forall|i: int, j: int| 0 <= i < j < r.len() implies (#[trigger] r[i]).id
                    != (#[trigger] r[j]).id && r[i].value@ != r[j].value@ by {
                    if j < rd.len() {
                        assert(rd[i].id != rd[j].id && rd[i].value@ != rd[j].value@);
                    } else {
                        assert(r[j] == s.last());
                        assert(rd.contains(rd[i]));
                        let m = choose|m: int| 0 <= m < d.len() && d[m] == rd[i];
                        assert(s[m] == rd[i]);
                        assert(s[m].id != s[s.len() - 1].id && s[m].value@ != s[s.len()
                            - 1].value@);
                    }
                }
            }
            if email_ids_below(s, bound) {
                assert forall|i: int| 0 <= i < r.len() implies 1 <= (#[trigger] r[i]).id
                    < bound by {
                    assert(r.contains(r[i]));
                    let m = choose|m: int| 0 <= m < s.len() && s[m] == r[i];
                    assert(1 <= s[m].id < bound);
                }
            }
        }
    }
}

/// The breach rows of `s` whose id is not `id`: what deleting a breach keeps.
pub open spec fn rejecting_breaches(s: Seq<Breach>, id: i32) -> Seq<Breach>
    decreases s.len(),
{
    if s.len() == 0 {
        Seq::empty()
    } else {
        let rest = rejecting_breaches(s.drop_last(), id);
        if s.last().id == id {
            rest
        } else {
            rest.push(s.last())
        }
    }
}

/// What deleting a breach keeps is drawn from the original rows and inherits
/// unique ids and the id bound.
proof fn lemma_rejecting_breaches_props(s: Seq<Breach>, id: i32, bound: i32)
    ensures
        rejecting_breaches(s, id).len() <= s.len(),
        forall|b: Breach| #[trigger] rejecting_breaches(s, id).contains(b) ==> s.contains(b),
        unique_breaches(s) ==> unique_breaches(rejecting_breaches(s, id)),
        unique_breaches(s) && breach_ids_below(s, bound) ==> breach_ids_below(
            rejecting_breaches(s, id),
            bound,
        ),
    decreases s.len(),
{
    if s.len() > 0 {
        let d = s.drop_last();
        let r = rejecting_breaches(s, id);
        let rd = rejecting_breaches(d, id);
        lemma_rejecting_breaches_props(d, id, bound);
        assert(forall|k: int| 0 <= k < d.len() ==> #[trigger] d[k] == s[k]);
        assert forall|b: Breach| #[trigger] r.contains(b) implies s.contains(b) by {
            let k = choose|k: int| 0 <= k < r.len() && r[k] == b;
            if k < rd.len() {
                assert(rd.contains(b));
                let j = choose|j: int| 0 <= j < d.len() && d[j] == b;
                assert(s[j] == b);
            } else {
                assert(b == s.last());
                assert(s[s.len() - 1] == b);
            }
        }
        if unique_breaches(s) {
            assert(unique_breaches(d));
            if s.last().id != id {
                assert forall|i: int, j: int| 0 <= i < j < r.len() implies (#[trigger] r[i]).id
                    != (#[trigger] r[j]).id by {
                    if j < rd.len() {
                        assert(rd[i].id != rd[j].id);
                    } else {
                        assert(r[j] == s.last());
                        assert(rd.contains(rd[i]));
                        let m = choose|m: int| 0 <= m < d.len() && d[m] == rd[i];
                        assert(s[m] == rd[i]);
                        assert(s[m].id != s[s.len() - 1].id);
                    }
                }
            }
            if breach_ids_below(s, bound) {
                assert forall|i: int| 0 <= i < r.len() implies 1 <= (#[trigger] r[i]).id
                    < bound by {
                    assert(r.contains(r[i]));
                    let m = choose|m: int| 0 <= m < s.len() && s[m] == r[i];
                    assert(1 <= s[m].id < bound);
                }
            }
        }
    }
}

/// The association rows referencing the given email, in store order.
pub open spec fn links_of(links: Seq<BreachEmail>, email_id: i32) -> Seq<BreachEmail>
    decreases links.len(),
{
    if links.len() == 0 {
        Seq::empty()
    } else {
        let rest = links_of(links.drop_last(), email_id);
        if links.last().email_id == email_id {
            rest.push(links.last())
        } else {
            rest
        }
    }
}

/// What one optional-field delta does to one row: a set attribute replaces
/// the stored one, a cleared attribute is an explicit no-op.
pub open spec fn apply_delta(e: Email, u: EmailUpdate) -> Email {
    Email {
        id: e.id,
        value: e.value,
        unscoped: e.unscoped,
        valid: if u.valid is Some {
            u.valid
        } else {
            e.valid
        },
    }
}

/// What applying a delta record does to the email table: the row carrying the
/// delta's id takes the set attributes, every other row is untouched.
pub open spec fn apply_all(s: Seq<Email>, u: EmailUpdate) -> Seq<Email> {
    s.map_values(
        |e: Email|
            if e.id == u.id {
                apply_delta(e, u)
            } else {
                e
            },
    )
}

/// Hiding or unhiding one row, with every other field kept.
pub open spec fn set_scoped(e: Email, hidden: bool) -> Email {
    Email { id: e.id, value: e.value, unscoped: hidden, valid: e.valid }
}

/// What a bulk scoping statement does: every row matching `f` gets its
/// hidden-flag set to `hidden`, every other row is untouched.
pub open spec fn scope_all(s: Seq<Email>, f: Filter, hidden: bool) -> Seq<Email> {
    s.map_values(
        |e: Email|
            if filter_matches(f, e) {
                set_scoped(e, hidden)
            } else {
                e
            },
    )
}

/// One bulk update statement: sets the hidden-flag to `hidden` on every row
/// matching the filter and returns how many rows it touched.
fn scope_rows(db: &mut Database, filter: &Filter, hidden: bool) -> (r: usize)
    requires
        old(db)@.wf(),
    ensures
        final(db)@.wf(),
        final(db)@.breaches == old(db)@.breaches,
        final(db)@.links == old(db)@.links,
        final(db)@.next_email_id == old(db)@.next_email_id,
        final(db)@.next_breach_id == old(db)@.next_breach_id,
        final(db)@.emails == scope_all(old(db)@.emails, *filter, hidden),
        r == matching(old(db)@.emails, *filter).len(),
{
    let n = db.emails.len();
    let mut updated: Vec<Email> = Vec::new();
    let mut count: usize = 0;
    let mut i: usize = 0;
    while i < n
        invariant
            *db == *old(db),
            n == db.emails.len(),
            0 <= i <= n,
            updated@ == scope_all(db.emails@.subrange(0, i as int), *filter, hidden),
            count == matching(db.emails@.subrange(0, i as int), *filter).len(),
            count <= i,
        decreases n - i,
    {
        proof {
            assert(db.emails@.subrange(0, i + 1 as int).drop_last() =~= db.emails@.subrange(
                0,
                i as int,
            ));
            assert(db.emails@.subrange(0, i + 1 as int).last() == db.emails@[i as int]);
        }
        let e = &db.emails[i];
        if filter.eval(e) {
            updated.push(Email { id: e.id, value: e.value.clone(), unscoped: hidden, valid: e.valid });
            count = count + 1;
        } else {
            updated.push(e.clone());
        }
        proof {
            assert(updated@ =~= scope_all(db.emails@.subrange(0, i + 1 as int), *filter, hidden));
        }
        i = i + 1;
    }
    proof {
        assert(db.emails@.subrange(0, n as int) =~= db@.emails);
        let s = db@.emails;
        let mapped = scope_all(s, *filter, hidden);
        assert forall|a: int, b: int| 0 <= a < b < mapped.len() implies (#[trigger] mapped[a]).id
            != (#[trigger] mapped[b]).id && mapped[a].value@ != mapped[b].value@ by {
            assert(mapped[a].id == s[a].id && mapped[a].value@ == s[a].value@);
            assert(mapped[b].id == s[b].id && mapped[b].value@ == s[b].value@);
        }
        assert forall|a: int| 0 <= a < mapped.len() implies 1 <= (#[trigger] mapped[a]).id < db@.next_email_id by {
            assert(mapped[a].id == s[a].id);
            assert(1 <= s[a].id < db@.next_email_id);
        }
    }
    db.emails = updated;
    count
}

impl Database {
    /// An empty store with fresh id counters.
    pub fn new() -> (r: Database)
        ensures
            r@.wf(),
            r@.emails == Seq::<Email>::empty(),
            r@.breaches == Seq::<Breach>::empty(),
            r@.links == Seq::<BreachEmail>::empty(),
            r@.next_email_id == 1,
            r@.next_breach_id == 1,
    {
        Database {
            emails: Vec::new(),
            breaches: Vec::new(),
            links: Vec::new(),
            next_email_id: 1,
            next_breach_id: 1,
        }
    }
}

impl Email {
    /// All stored email rows, in store order (no ordering is promised to
    /// callers).
    pub fn list(db: &Database) -> (r: Result<Vec<Email>, Error>)
        ensures
            match r {
                Ok(v) => v@ == db@.emails,
                Err(_) => false,
            },
    {
        let n = db.emails.len();
        let mut out: Vec<Email> = Vec::new();
        let mut i: usize = 0;
        while i < n
            invariant
                n == db.emails.len(),
                0 <= i <= n,
                out@ == db.emails@.subrange(0, i as int),
            decreases n - i,
        {
            out.push(db.emails[i].clone());
            proof {
                assert(out@ =~= db.emails@.subrange(0, i + 1 as int));
            }
            i = i + 1;
        }
        proof {
            assert(out@ =~= db@.emails);
        }
        Ok(out)
    }

    /// The stored email rows matching a filter, in store order.
    pub fn filter(db: &Database, filter: &Filter) -> (r: Result<Vec<Email>, Error>)
        ensures
            match r {
                Ok(v) => v@ == matching(db@.emails, *filter),
                Err(_) => false,
            },
    {
        let n = db.emails.len();
        let mut out: Vec<Email> = Vec::new();
        let mut i: usize = 0;
        while i < n
            invariant
                n == db.emails.len(),
                0 <= i <= n,
                out@ == matching(db.emails@.subrange(0, i as int), *filter),
            decreases n - i,
        {
            proof {
                assert(db.emails@.subrange(0, i + 1 as int).drop_last() =~= db.emails@.subrange(
                    0,
                    i as int,
                ));
                assert(db.emails@.subrange(0, i + 1 as int).last() == db.emails@[i as int]);
            }
            if filter.eval(&db.emails[i]) {
                out.push(db.emails[i].clone());
            }
            i = i + 1;
        }
        proof {
            assert(db.emails@.subrange(0, n as int) =~= db@.emails);
        }
        Ok(out)
    }

    /// Removes every row matching the filter, in one statement, and returns
    /// how many rows went away.
    pub fn delete(db: &mut Database, filter: &Filter) -> (r: Result<usize, Error>)
        requires
            old(db)@.wf(),
        ensures
            final(db)@.wf(),
            final(db)@.breaches == old(db)@.breaches,
            final(db)@.links == old(db)@.links,
            final(db)@.next_email_id == old(db)@.next_email_id,
            final(db)@.next_breach_id == old(db)@.next_breach_id,
            match r {
                Ok(n) => final(db)@.emails == rejecting(old(db)@.emails, *filter)
                    && n + final(db)@.emails.len() == old(db)@.emails.len(),
                Err(_) => false,
            },
    {
        let n = db.emails.len();
        let mut kept: Vec<Email> = Vec::new();
        let mut i: usize = 0;
        while i < n
            invariant
                *db == *old(db),
                n == db.emails.len(),
                0 <= i <= n,
                kept@ == rejecting(db.emails@.subrange(0, i as int), *filter),
                kept@.len() <= i,
            decreases n - i,
        {
            proof {
                assert(db.emails@.subrange(0, i + 1 as int).drop_last() =~= db.emails@.subrange(
                    0,
                    i as int,
                ));
                assert(db.emails@.subrange(0, i + 1 as int).last() == db.emails@[i as int]);
            }
            if !filter.eval(&db.emails[i]) {
                kept.push(db.emails[i].clone());
            }
            i = i + 1;
        }
        proof {
            assert(db.emails@.subrange(0, n as int) =~= db@.emails);
            lemma_rejecting_props(db@.emails, *filter, db@.next_email_id);
        }
        let removed = n - kept.len();
        db.emails = kept;
        Ok(removed)
    }

    /// Removes the row with the given id, if any, and returns how many rows
    /// went away.
    pub fn delete_id(db: &mut Database, my_id: i32) -> (r: Result<usize, Error>)
        requires
            old(db)@.wf(),
        ensures
            final(db)@.wf(),
            final(db)@.breaches == old(db)@.breaches,
            final(db)@.links == old(db)@.links,
            final(db)@.next_email_id == old(db)@.next_email_id,
            final(db)@.next_breach_id == old(db)@.next_breach_id,
            match r {
                Ok(n) => final(db)@.emails == rejecting(old(db)@.emails, Filter::IdEq(my_id)) && n
                    + final(db)@.emails.len() == old(db)@.emails.len(),
                Err(_) => false,
            },
    {
        Email::delete(db, &Filter::IdEq(my_id))
    }

    /// Marks every row matching the filter default-visible, in one statement,
    /// and returns how many rows the statement touched.
    pub fn scope(db: &mut Database, filter: &Filter) -> (r: Result<usize, Error>)
        requires
            old(db)@.wf(),
        ensures
            final(db)@.wf(),
            final(db)@.breaches == old(db)@.breaches,
            final(db)@.links == old(db)@.links,
            final(db)@.next_email_id == old(db)@.next_email_id,
            final(db)@.next_breach_id == old(db)@.next_breach_id,
            match r {
                Ok(n) => final(db)@.emails == scope_all(old(db)@.emails, *filter, false) && n
                    == matching(old(db)@.emails, *filter).len(),
                Err(_) => false,
            },
    {
        Ok(scope_rows(db, filter, false))
    }

    /// Marks every row matching the filter default-hidden, in one statement,
    /// and returns how many rows the statement touched. The rows stay stored:
    /// scoping never destroys data.
    pub fn noscope(db: &mut Database, filter: &Filter) -> (r: Result<usize, Error>)
        requires
            old(db)@.wf(),
        ensures
            final(db)@.wf(),
            final(db)@.breaches == old(db)@.breaches,
            final(db)@.links == old(db)@.links,
            final(db)@.next_email_id == old(db)@.next_email_id,
            final(db)@.next_breach_id == old(db)@.next_breach_id,
            match r {
                Ok(n) => final(db)@.emails == scope_all(old(db)@.emails, *filter, true) && n
                    == matching(old(db)@.emails, *filter).len(),
                Err(_) => false,
            },
    {
        Ok(scope_rows(db, filter, true))
    }

    /// Looks an email up by natural key; an absent key is a [`Error::NotFound`]
    /// failure.
    pub fn get(db: &Database, query: &str) -> (r: Result<Email, Error>)
        ensures
            match r {
                Ok(e) => find_by_value(db@.emails, query@) == Some(e) && db@.emails.contains(e)
                    && e.value@ == query@,
                Err(err) => err == Error::NotFound && !contains_value(db@.emails, query@),
            },
    {
        match Email::get_opt(db, query) {
            Ok(Some(e)) => {
                proof {
                    lemma_find_first_props(db@.emails, |e: Email| e.value@ == query@);
                }
                Ok(e)
            },
            Ok(None) => {
                proof {
                    lemma_find_first_props(db@.emails, |e: Email| e.value@ == query@);
                }
                Err(Error::NotFound)
            },
            Err(e) => Err(e),
        }
    }

    /// The same lookup as [`Email::get`], returning an empty option instead
    /// of failing on an absent key.
    pub fn get_opt(db: &Database, query: &str) -> (r: Result<Option<Email>, Error>)
        ensures
            match r {
                Ok(opt) => opt == find_by_value(db@.emails, query@),
                Err(_) => false,
            },
    {
        let ghost p = |e: Email| e.value@ == query@;
        let q: String = query.to_owned();
        let n = db.emails.len();
        let mut i: usize = 0;
        while i < n
            invariant
                n == db.emails.len(),
                0 <= i <= n,
                q@ == query@,
                forall|k: int| 0 <= k < i ==> !p(#[trigger] db.emails@[k]),
                p == (|e: Email| e.value@ == query@),
            decreases n - i,
        {
            if db.emails[i].value.eq(&q) {
                proof {
                    lemma_find_first_at(db@.emails, p, i as int);
                }
                return Ok(Some(db.emails[i].clone()));
            }
            i = i + 1;
        }
        proof {
            lemma_find_first_none(db@.emails, p);
        }
        Ok(None)
    }

    /// Looks an email up by synthetic id; an absent id is a
    /// [`Error::NotFound`] failure.
    pub fn by_id(db: &Database, my_id: i32) -> (r: Result<Email, Error>)
        ensures
            match r {
                Ok(e) => find_by_id(db@.emails, my_id) == Some(e) && e.id == my_id
                    && db@.emails.contains(e),
                Err(err) => err == Error::NotFound && !contains_id(db@.emails, my_id),
            },
    {
        let ghost p = |e: Email| e.id == my_id;
        let n = db.emails.len();
        let mut i: usize = 0;
        while i < n
            invariant
                n == db.emails.len(),
                0 <= i <= n,
                forall|k: int| 0 <= k < i ==> !p(#[trigger] db.emails@[k]),
                p == (|e: Email| e.id == my_id),
            decreases n - i,
        {
            if db.emails[i].id == my_id {
                proof {
                    lemma_find_first_at(db@.emails, p, i as int);
                    lemma_find_first_props(db@.emails, p);
                }
                return Ok(db.emails[i].clone());
            }
            i = i + 1;
        }
        proof {
            lemma_find_first_none(db@.emails, p);
        }
        Err(Error::NotFound)
    }
}

/// Whether some stored email row carries the given natural key.
fn has_value(emails: &Vec<Email>, q: &str) -> (r: bool)
    ensures
        r == contains_value(emails@, q@),
{
    let qs: String = q.to_owned();
    let n = emails.len();
    let mut i: usize = 0;
    while i < n
        invariant
            n == emails.len(),
            0 <= i <= n,
            qs@ == q@,
            forall|k: int| 0 <= k < i ==> (#[trigger] emails@[k]).value@ != q@,
        decreases n - i,
    {
        if emails[i].value.eq(&qs) {
            return true;
        }
        i = i + 1;
    }
    false
}

/// The first stored breach row with the given id, if any.
fn lookup_breach(breaches: &Vec<Breach>, id: i32) -> (r: Option<Breach>)
    ensures
        r == find_breach(breaches@, id),
{
    let n = breaches.len();
    let mut i: usize = 0;
    while i < n
        invariant
            n == breaches.len(),
            0 <= i <= n,
            forall|k: int| 0 <= k < i ==> (#[trigger] breaches@[k]).id != id,
        decreases n - i,
    {
        if breaches[i].id == id {
            proof {
                lemma_find_breach_at(breaches@, id, i as int);
            }
            return Some(breaches[i].clone());
        }
        i = i + 1;
    }
    proof {
        lemma_find_breach_none(breaches@, id);
    }
    None
}

impl NewEmail {
    /// Stores the construction record as a new entity. An already-stored
    /// natural key is a [`Error::ConstraintViolation`] failure; existing rows
    /// are never mutated; no generated id is returned — a caller needing the
    /// id re-fetches by natural key.
    pub fn insert(&self, db: &mut Database) -> (r: Result<(), Error>)
        requires
            old(db)@.wf(),
        ensures
            final(db)@.wf(),
            final(db)@.breaches == old(db)@.breaches,
            final(db)@.links == old(db)@.links,
            final(db)@.next_breach_id == old(db)@.next_breach_id,
            match r {
                Ok(()) => !contains_value(old(db)@.emails, self.value@) && old(db)@.next_email_id
                    < i32::MAX && final(db)@.emails == old(db)@.emails.push(
                    Email {
                        id: old(db)@.next_email_id,
                        value: self.value,
                        unscoped: false,
                        valid: self.valid,
                    },
                ) && final(db)@.next_email_id == old(db)@.next_email_id + 1,
                Err(e) => final(db)@ == old(db)@ && match e {
                    Error::ConstraintViolation => contains_value(old(db)@.emails, self.value@),
                    Error::Store(_) => !contains_value(old(db)@.emails, self.value@) && old(db)@.next_email_id == i32::MAX,
                    _ => false,
                },
            },
    {
        if has_value(&db.emails, self.value.as_str()) {
            return Err(Error::ConstraintViolation);
        }
        if db.next_email_id == i32::MAX {
            return Err(Error::Store("email id space exhausted".to_owned()));
        }
        let id = db.next_email_id;
        let row = Email { id, value: self.value.clone(), unscoped: false, valid: self.valid };
        db.emails.push(row);
        db.next_email_id = id + 1;
        proof {
            let s = old(db)@.emails;
            let t = db@.emails;
            assert forall|i: int, j: int| 0 <= i < j < t.len() implies (#[trigger] t[i]).id
                != (#[trigger] t[j]).id && t[i].value@ != t[j].value@ by {
                if j < s.len() {
                    assert(s[i].id != s[j].id && s[i].value@ != s[j].value@);
                } else {
                    assert(t[j] == t.last());
                    assert(t[i] == s[i]);
                    assert(1 <= s[i].id < id);
                    assert(s[i].value@ != self.value@);
                }
            }
            assert forall|i: int| 0 <= i < t.len() implies 1 <= (#[trigger] t[i]).id < db@.next_email_id by {
                if i < s.len() {
                    assert(t[i] == s[i]);
                }
            }
        }
        Ok(())
    }
}

impl EmailUpdate {
    /// Applies the delta to the row carrying its id, in one statement, and
    /// returns that id. A delta with no set attribute leaves the store
    /// unchanged. An absent id is a [`Error::NotFound`] failure.
    pub fn apply(&self, db: &mut Database) -> (r: Result<i32, Error>)
        requires
            old(db)@.wf(),
        ensures
            final(db)@.wf(),
            final(db)@.breaches == old(db)@.breaches,
            final(db)@.links == old(db)@.links,
            final(db)@.next_email_id == old(db)@.next_email_id,
            final(db)@.next_breach_id == old(db)@.next_breach_id,
            !spec_dirty(*self) ==> final(db)@ == old(db)@,
            match r {
                Ok(id) => id == self.id && contains_id(old(db)@.emails, self.id) && final(db)@.emails == apply_all(old(db)@.emails, *self),
                Err(e) => e == Error::NotFound && !contains_id(old(db)@.emails, self.id) && final(db)@ == old(db)@,
            },
    {
        let n = db.emails.len();
        let mut updated: Vec<Email> = Vec::new();
        let mut found = false;
        let mut i: usize = 0;
        while i < n
            invariant
                *db == *old(db),
                n == db.emails.len(),
                0 <= i <= n,
                updated@ == apply_all(db.emails@.subrange(0, i as int), *self),
                found ==> contains_id(db.emails@, self.id),
                !found ==> forall|k: int| 0 <= k < i ==> (#[trigger] db.emails@[k]).id != self.id,
            decreases n - i,
        {
            let e = &db.emails[i];
            if e.id == self.id {
                updated.push(
                    Email {
                        id: e.id,
                        value: e.value.clone(),
                        unscoped: e.unscoped,
                        valid: if self.valid.is_some() {
                            self.valid
                        } else {
                            e.valid
                        },
                    },
                );
                found = true;
            } else {
                updated.push(e.clone());
            }
            proof {
                assert(updated@ =~= apply_all(db.emails@.subrange(0, i + 1 as int), *self));
            }
            i = i + 1;
        }
        if !found {
            proof {
                assert(!contains_id(db@.emails, self.id));
            }
            return Err(Error::NotFound);
        }
        proof {
            assert(db.emails@.subrange(0, n as int) =~= db@.emails);
            let s = db@.emails;
            let t = apply_all(s, *self);
            assert forall|a: int, b: int| 0 <= a < b < t.len() implies (#[trigger] t[a]).id
                != (#[trigger] t[b]).id && t[a].value@ != t[b].value@ by {
                assert(t[a].id == s[a].id && t[a].value@ == s[a].value@);
                assert(t[b].id == s[b].id && t[b].value@ == s[b].value@);
            }
            assert forall|a: int| 0 <= a < t.len() implies 1 <= (#[trigger] t[a]).id < db@.next_email_id by {
                assert(t[a].id == s[a].id);
                assert(1 <= s[a].id < db@.next_email_id);
            }
            if !spec_dirty(*self) {
                assert(updated@ =~= db@.emails);
            }
        }
        db.emails = updated;
        Ok(self.id)
    }
}

impl Email {
    /// Resolves the association rows referencing this email into the breach
    /// entities they point at, threading each row's optional credential
    /// payload through unchanged. A referenced breach missing from the store
    /// is a [`Error::IntegrityFault`] failure, never silently skipped: it
    /// signals corrupted association data.
    pub fn breaches(&self, db: &Database) -> (r: Result<Vec<(Breach, Option<String>)>, Error>)
        ensures
            match r {
                Ok(v) => {
                    let ls = links_of(db@.links, self.id);
                    &&& v@.len() == ls.len()
                    &&& forall|i: int|
                        0 <= i < ls.len() ==> find_breach(db@.breaches, ls[i].breach_id) == Some(
                            (#[trigger] v@[i]).0,
                        ) && v@[i].1 == ls[i].password
                },
                Err(e) => match e {
                    Error::IntegrityFault(bid) => find_breach(db@.breaches, bid) is None && exists|
                        i: int,
                    |
                        0 <= i < links_of(db@.links, self.id).len() && (#[trigger] links_of(
                            db@.links,
                            self.id,
                        )[i]).breach_id == bid,
                    _ => false,
                },
            },
    {
        let n = db.links.len();
        let mut rows: Vec<BreachEmail> = Vec::new();
        let mut i: usize = 0;
        while i < n
            invariant
                n == db.links.len(),
                0 <= i <= n,
                rows@ == links_of(db.links@.subrange(0, i as int), self.id),
            decreases n - i,
        {
            proof {
                assert(db.links@.subrange(0, i + 1 as int).drop_last() =~= db.links@.subrange(
                    0,
                    i as int,
                ));
                assert(db.links@.subrange(0, i + 1 as int).last() == db.links@[i as int]);
            }
            if db.links[i].email_id == self.id {
                rows.push(db.links[i].clone());
            }
            i = i + 1;
        }
        proof {
            assert(db.links@.subrange(0, n as int) =~= db@.links);
        }
        let m = rows.len();
        let mut out: Vec<(Breach, Option<String>)> = Vec::new();
        let mut j: usize = 0;
        while j < m
            invariant
                m == rows.len(),
                0 <= j <= m,
                rows@ == links_of(db@.links, self.id),
                out@.len() == j,
                forall|k: int|
                    0 <= k < j ==> find_breach(db@.breaches, rows@[k].breach_id) == Some(
                        (#[trigger] out@[k]).0,
                    ) && out@[k].1 == rows@[k].password,
            decreases m - j,
        {
            match lookup_breach(&db.breaches, rows[j].breach_id) {
                Some(b) => {
                    out.push((b, clone_opt_string(&rows[j].password)));
                },
                None => {
                    return Err(Error::IntegrityFault(rows[j].breach_id));
                },
            }
            j = j + 1;
        }
        Ok(out)
    }
}

impl Database {
    /// Stores a breach row (the related exemplar entity) and returns its
    /// assigned id.
    pub fn insert_breach(&mut self, value: &str) -> (r: Result<i32, Error>)
        requires
            old(self)@.wf(),
        ensures
            final(self)@.wf(),
            final(self)@.emails == old(self)@.emails,
            final(self)@.links == old(self)@.links,
            final(self)@.next_email_id == old(self)@.next_email_id,
            match r {
                Ok(id) => id == old(self)@.next_breach_id && old(self)@.next_breach_id < i32::MAX
                    && final(self)@.breaches.drop_last() == old(self)@.breaches && final(self)@.breaches.len() == old(self)@.breaches.len() + 1 && final(self)@.breaches.last().id == id && final(self)@.breaches.last().value@ == value@
                    && final(self)@.next_breach_id == old(self)@.next_breach_id + 1,
                Err(e) => final(self)@ == old(self)@ && (e matches Error::Store(_))
                    && old(self)@.next_breach_id == i32::MAX,
            },
    {
        if self.next_breach_id == i32::MAX {
            return Err(Error::Store("breach id space exhausted".to_owned()));
        }
        let id = self.next_breach_id;
        self.breaches.push(Breach { id, value: value.to_owned() });
        self.next_breach_id = id + 1;
        proof {
            let s = old(self)@.breaches;
            let t = self@.breaches;
            assert(t.drop_last() =~= s);
            assert forall|i: int, j: int| 0 <= i < j < t.len() implies (#[trigger] t[i]).id
                != (#[trigger] t[j]).id by {
                if j < s.len() {
                    assert(s[i].id != s[j].id);
                } else {
                    assert(t[i] == s[i]);
                    assert(1 <= s[i].id < id);
                }
            }
            assert forall|i: int| 0 <= i < t.len() implies 1 <= (#[trigger] t[i]).id < self@.next_breach_id by {
                if i < s.len() {
                    assert(t[i] == s[i]);
                }
            }
        }
        Ok(id)
    }

    /// Stores an association row linking a breach to an email, with an
    /// optional credential payload. The store enforces no referential
    /// integrity here: a row may dangle once its breach is deleted, and
    /// relationship resolution reports that as corruption.
    pub fn link_breach_email(&mut self, breach_id: i32, email_id: i32, password: Option<String>)
        requires
            old(self)@.wf(),
        ensures
            final(self)@.wf(),
            final(self)@.emails == old(self)@.emails,
            final(self)@.breaches == old(self)@.breaches,
            final(self)@.next_email_id == old(self)@.next_email_id,
            final(self)@.next_breach_id == old(self)@.next_breach_id,
            final(self)@.links == old(self)@.links.push(
                BreachEmail { breach_id, email_id, password },
            ),
    {
        self.links.push(BreachEmail { breach_id, email_id, password });
    }

    /// Removes the breach row with the given id (a hard delete) and returns
    /// how many rows went away. Association rows referencing it are left
    /// behind, dangling.
    pub fn delete_breach(&mut self, id: i32) -> (r: usize)
        requires
            old(self)@.wf(),
        ensures
            final(self)@.wf(),
            final(self)@.emails == old(self)@.emails,
            final(self)@.links == old(self)@.links,
            final(self)@.next_email_id == old(self)@.next_email_id,
            final(self)@.next_breach_id == old(self)@.next_breach_id,
            final(self)@.breaches == rejecting_breaches(old(self)@.breaches, id),
            r + final(self)@.breaches.len() == old(self)@.breaches.len(),
    {
        let n = self.breaches.len();
        let mut kept: Vec<Breach> = Vec::new();
        let mut i: usize = 0;
        while i < n
            invariant
                *self == *old(self),
                n == self.breaches.len(),
                0 <= i <= n,
                kept@ == rejecting_breaches(self.breaches@.subrange(0, i as int), id),
                kept@.len() <= i,
            decreases n - i,
        {
            proof {
                assert(self.breaches@.subrange(0, i + 1 as int).drop_last()
                    =~= self.breaches@.subrange(0, i as int));
                assert(self.breaches@.subrange(0, i + 1 as int).last() == self.breaches@[i as int]);
            }
            if self.breaches[i].id != id {
                kept.push(self.breaches[i].clone());
            }
            i = i + 1;
        }
        proof {
            assert(self.breaches@.subrange(0, n as int) =~= self@.breaches);
            lemma_rejecting_breaches_props(self@.breaches, id, self@.next_breach_id);
        }
        let removed = n - kept.len();
        self.breaches = kept;
        removed
    }
}

} // verus!
