use vstd::prelude::*;

use crate::filter::CallFilter;
use crate::registry::{add_outcome, covered, holds_grant, is_grant, without, ProxyDefinition};

verus! {

/// A registration never takes the registry past its bound, and once the
/// registry is full, a grant that no registered grant covers is refused with
/// `TooManyProxies` and leaves the registry as it was.
pub proof fn lemma_add_within_bound<A, F: CallFilter>(
    s: Seq<ProxyDefinition<A, F>>,
    max: nat,
    proxy: A,
    filter: F,
)
    requires
        s.len() <= max,
    ensures
        add_outcome(s, max, proxy, filter).0.len() <= max,
        s.len() == max && !covered(s, proxy, filter) ==> add_outcome(s, max, proxy, filter) == (
        s,
        Err::<(), crate::registry::Error>(crate::registry::Error::TooManyProxies),
        ),
{
}

/// Registering the same grant twice in a row: the second registration
/// changes nothing and returns what the first returned.
pub proof fn lemma_add_twice<A, F: CallFilter>(
    s: Seq<ProxyDefinition<A, F>>,
    max: nat,
    proxy: A,
    filter: F,
)
    ensures
        add_outcome(add_outcome(s, max, proxy, filter).0, max, proxy, filter) == add_outcome(
            s,
            max,
            proxy,
            filter,
        ),
{
    let first = add_outcome(s, max, proxy, filter);
    if !covered(s, proxy, filter) && s.len() < max {
        filter.lemma_supersedes_self();
        let t = first.0;
        assert(t[s.len() as int].proxy == proxy);
        assert(t[s.len() as int].filter.supersedes(&filter));
        assert(covered(t, proxy, filter));
    }
}

/// Removing a grant that is not registered leaves the registry unchanged.
pub proof fn lemma_remove_absent<A, F>(s: Seq<ProxyDefinition<A, F>>, proxy: A, filter: F)
    requires
        !holds_grant(s, proxy, filter),
    ensures
        without(s, proxy, filter) == s,
    decreases s.len(),
{
    reveal(Seq::filter);
    if s.len() > 0 {
        let rest = s.drop_last();
        assert forall|i: int| 0 <= i < rest.len() implies !#[trigger] is_grant(
            rest[i],
            proxy,
            filter,
        ) by {
            assert(rest[i] == s[i]);
        }
        lemma_remove_absent(rest, proxy, filter);
        assert(!is_grant(s[s.len() - 1], proxy, filter));
        assert(s =~= rest.push(s.last()));
    }
}

/// Registering a grant that is not registered and then removing it restores
/// the registry exactly, whether the registration added it or not.
pub proof fn lemma_add_remove_round_trip<A, F: CallFilter>(
    s: Seq<ProxyDefinition<A, F>>,
    max: nat,
    proxy: A,
    filter: F,
)
    requires
        !holds_grant(s, proxy, filter),
    ensures
        without(add_outcome(s, max, proxy, filter).0, proxy, filter) == s,
{
    lemma_remove_absent(s, proxy, filter);
    if !covered(s, proxy, filter) && s.len() < max {
        let t = s.push(ProxyDefinition { proxy, filter });
        reveal(Seq::filter);
        assert(t.drop_last() =~= s);
        assert(is_grant(t.last(), proxy, filter));
    }
}

} // verus!
