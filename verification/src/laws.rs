//! The general laws of the layer, proved once over the spec functions that
//! the operation contracts are stated with.

use vstd::prelude::*;
use crate::email::Email;
use crate::email::EmailUpdate;
use crate::email::NewEmail;
use crate::email::spec_dirty;
use crate::email::upsert_delta;
use crate::filter::Filter;
use crate::filter::filter_matches;
use crate::filter::scope_blind;
use crate::store::apply_all;
use crate::store::contains_value;
use crate::store::find_by_value;
use crate::store::scope_all;
use crate::store::set_scoped;

verus! {

/// Diffing a construction record against a stored entity of the same natural
/// key yields a dirty delta exactly when the proposed attributes differ from
/// the stored ones. Stated for the records that can express their difference:
/// a construction record whose attribute is unset cannot clear a stored
/// value, so against a set stored attribute it yields a clean delta although
/// the two differ.
pub proof fn lemma_upsert_dirty(n: NewEmail, e: Email)
    requires
        n.value@ == e.value@,
        n.valid is Some || e.valid is None,
    ensures
        spec_dirty(EmailUpdate { id: e.id, valid: upsert_delta(n.valid, e.valid) }) <==> n.valid
            != e.valid,
{
}

/// A delta with no set attribute is a guaranteed no-op: applying it maps the
/// email table to itself, so a re-fetch after the apply sees every row
/// unchanged.
pub proof fn lemma_clean_apply_noop(s: Seq<Email>, u: EmailUpdate)
    requires
        !spec_dirty(u),
    ensures
        apply_all(s, u) == s,
{
    assert(apply_all(s, u) =~= s);
}

/// The optional lookup comes back empty exactly where the failing lookup
/// misses with a not-found error: the first clause below is what
/// `Email::get_opt` returning an empty option means, the second is what
/// `Email::get` failing means, and they are two faces of one store fact.
pub proof fn lemma_get_opt_empty_iff_get_not_found(s: Seq<Email>, key: Seq<char>)
    ensures
        (find_by_value(s, key) is None) <==> !contains_value(s, key),
    decreases s.len(),
{
    if s.len() == 0 {
    } else if s[0].value@ == key {
        assert(contains_value(s, key));
    } else {
        let d = s.drop_first();
        lemma_get_opt_empty_iff_get_not_found(d, key);
        assert(forall|k: int| 0 <= k < d.len() ==> #[trigger] d[k] == s[k + 1]);
        if contains_value(s, key) {
            let i = choose|i: int| 0 <= i < s.len() && s[i].value@ == key;
            assert(d[i - 1] == s[i]);
            assert(contains_value(d, key));
        }
        if contains_value(d, key) {
            let i = choose|i: int| 0 <= i < d.len() && d[i].value@ == key;
            assert(s[i + 1].value@ == key);
            assert(contains_value(s, key));
        }
    }
}

/// A flag-blind filter matches a row the same before and after the row's
/// hidden-flag is rewritten.
proof fn lemma_scope_blind_matches(f: Filter, e: Email, hidden: bool)
    requires
        scope_blind(f),
    ensures
        filter_matches(f, set_scoped(e, hidden)) == filter_matches(f, e),
    decreases f,
{
    match f {
        Filter::Not(g) => lemma_scope_blind_matches(*g, e, hidden),
        Filter::And(g, h) => {
            lemma_scope_blind_matches(*g, e, hidden);
            lemma_scope_blind_matches(*h, e, hidden);
        },
        Filter::Or(g, h) => {
            lemma_scope_blind_matches(*g, e, hidden);
            lemma_scope_blind_matches(*h, e, hidden);
        },
        _ => {},
    }
}

/// For a sequence of bulk scoping statements with one flag-blind predicate,
/// only the last statement counts: the rows end up as if it alone had run.
/// With `first == last` this is idempotence of `Email::scope` and
/// `Email::noscope`; with `first != last` it says the later statement
/// overrides the earlier one.
pub proof fn lemma_scope_last_wins(s: Seq<Email>, f: Filter, first: bool, last: bool)
    requires
        scope_blind(f),
    ensures
        scope_all(scope_all(s, f, first), f, last) == scope_all(s, f, last),
{
    let t = scope_all(s, f, first);
    assert forall|i: int| 0 <= i < s.len() implies scope_all(t, f, last)[i] == scope_all(
        s,
        f,
        last,
    )[i] by {
        lemma_scope_blind_matches(f, s[i], first);
    }
    assert(scope_all(scope_all(s, f, first), f, last) =~= scope_all(s, f, last));
}

} // verus!
