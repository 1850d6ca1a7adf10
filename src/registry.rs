use vstd::prelude::*;

use crate::account::Account;
use crate::filter::CallFilter;

verus! {

/// The parameters under which an account may act on behalf of the collective.
#[derive(Clone, Copy, Debug, PartialEq, Eq)]
pub struct ProxyDefinition<A, F> {
    /// The account which may act on behalf of the collective.
    pub proxy: A,
    /// The subset of calls that it is allowed to make.
    pub filter: F,
}

/// Why an operation on the registry, or a dispatch, was refused.
#[derive(Clone, Copy, Debug, PartialEq, Eq, Structural)]
pub enum Error {
    /// The caller does not hold the authority that the operation needs.
    BadOrigin,
    /// The registry is full.
    TooManyProxies,
    /// No grant is registered for the proxy.
    NotFound,
}

/// Whether some grant of `proxy` already permits at least what `filter` does.
pub open spec fn covered<A, F: CallFilter>(s: Seq<ProxyDefinition<A, F>>, proxy: A, filter: F) -> bool {
    exists|i: int| 0 <= i < s.len() && s[i].proxy == proxy && #[trigger] s[i].filter.supersedes(&filter)
}

/// Whether `d` is exactly the grant `(proxy, filter)`.
pub open spec fn is_grant<A, F>(d: ProxyDefinition<A, F>, proxy: A, filter: F) -> bool {
    d.proxy == proxy && d.filter == filter
}

/// Whether the registry holds the grant `(proxy, filter)` exactly.
pub open spec fn holds_grant<A, F>(s: Seq<ProxyDefinition<A, F>>, proxy: A, filter: F) -> bool {
    exists|i: int| 0 <= i < s.len() && #[trigger] is_grant(s[i], proxy, filter)
}

/// The registry after an authorized caller registers `(proxy, filter)`, and
/// what that registration returns: unchanged where a grant of `proxy` already
/// supersedes `filter`, extended where there is room, refused otherwise.
pub open spec fn add_outcome<A, F: CallFilter>(
    s: Seq<ProxyDefinition<A, F>>,
    max: nat,
    proxy: A,
    filter: F,
) -> (Seq<ProxyDefinition<A, F>>, Result<(), Error>) {
    if covered(s, proxy, filter) {
        (s, Ok(()))
    } else if s.len() < max {
        (s.push(ProxyDefinition { proxy, filter }), Ok(()))
    } else {
        (s, Err(Error::TooManyProxies))
    }
}

/// The registry with every grant equal to `(proxy, filter)` taken out, in order.
pub open spec fn without<A, F>(s: Seq<ProxyDefinition<A, F>>, proxy: A, filter: F) -> Seq<
    ProxyDefinition<A, F>,
> {
    s.filter(|d: ProxyDefinition<A, F>| !is_grant(d, proxy, filter))
}

/// Whether some grant is registered for `proxy`.
pub open spec fn has_proxy<A, F>(s: Seq<ProxyDefinition<A, F>>, proxy: A) -> bool {
    exists|i: int| 0 <= i < s.len() && #[trigger] s[i].proxy == proxy
}

/// Whether `i` is the position of the first grant for `proxy`.
pub open spec fn is_first_of<A, F>(s: Seq<ProxyDefinition<A, F>>, proxy: A, i: int) -> bool {
    &&& 0 <= i < s.len()
    &&& s[i].proxy == proxy
    &&& forall|j: int| 0 <= j < i ==> #[trigger] s[j].proxy != proxy
}

/// The grant registry of a collective: grants in order of registration,
/// never more than a fixed bound.
pub struct Pallet<A, F> {
    proxies: Vec<ProxyDefinition<A, F>>,
    max_proxies: u32,
}

impl<A: Account, F: CallFilter> Pallet<A, F> {
    /// The grants, in order of registration.
    pub closed spec fn grants(&self) -> Seq<ProxyDefinition<A, F>> {
        self.proxies@
    }

    /// The most grants the registry may hold.
    pub closed spec fn bound(&self) -> nat {
        self.max_proxies as nat
    }

    /// The registry never holds more grants than its bound.
    pub open spec fn wf(&self) -> bool {
        self.grants().len() <= self.bound()
    }

    /// An empty registry that may hold up to `max_proxies` grants.
    pub fn new(max_proxies: u32) -> (r: Self)
        ensures
            r.wf(),
            r.grants() == Seq::<ProxyDefinition<A, F>>::empty(),
            r.bound() == max_proxies as nat,
    {
        Pallet { proxies: Vec::new(), max_proxies }
    }

    /// The grants, in order of registration.
    pub fn proxies(&self) -> (r: &Vec<ProxyDefinition<A, F>>)
        ensures
            r@ == self.grants(),
    {
        &self.proxies
    }

    /// The most grants the registry may hold.
    pub fn max_proxies(&self) -> (r: u32)
        ensures
            r as nat == self.bound(),
    {
        self.max_proxies
    }

    /// Registers `proxy` with `filter`, where the caller holds the admin
    /// authority (`admin_ok`). Nothing changes where a grant of `proxy`
    /// already supersedes `filter`; a new grant is refused where the registry
    /// is full.
    pub fn add_proxy(&mut self, admin_ok: bool, proxy: A, filter: F) -> (r: Result<(), Error>)
        requires
            old(self).wf(),
        ensures
            final(self).wf(),
            final(self).bound() == old(self).bound(),
            !admin_ok ==> r == Err::<(), Error>(Error::BadOrigin) && final(self).grants()
                == old(self).grants(),
            admin_ok ==> (final(self).grants(), r) == add_outcome(
                old(self).grants(),
                old(self).bound(),
                proxy,
                filter,
            ),
    {
        if !admin_ok {
            return Err(Error::BadOrigin);
        }
        let mut found = false;
        let mut i: usize = 0;
        while i < self.proxies.len()
            invariant
                self.wf(),
                self.grants() == old(self).grants(),
                self.bound() == old(self).bound(),
                0 <= i <= self.proxies.len(),
                found == exists|k: int|
                    0 <= k < i && self.proxies@[k].proxy == proxy
                        && #[trigger] self.proxies@[k].filter.supersedes(&filter),
            decreases self.proxies.len() - i,
        {
            let d = &self.proxies[i];
            if d.proxy.same_account(&proxy) && d.filter.is_superset(&filter) {
                found = true;
            }
            i = i + 1;
        }
        if found {
            return Ok(());
        }
        if self.proxies.len() < self.max_proxies as usize {
            self.proxies.push(ProxyDefinition { proxy, filter });
            Ok(())
        } else {
            Err(Error::TooManyProxies)
        }
    }

    /// Unregisters every grant equal to `(proxy, filter)`, where the caller
    /// holds the admin authority (`admin_ok`). Succeeds also where no such
    /// grant exists; the other grants keep their order.
    pub fn remove_proxy(&mut self, admin_ok: bool, proxy: A, filter: F) -> (r: Result<(), Error>)
        requires
            old(self).wf(),
        ensures
            final(self).wf(),
            final(self).bound() == old(self).bound(),
            !admin_ok ==> r == Err::<(), Error>(Error::BadOrigin) && final(self).grants()
                == old(self).grants(),
            admin_ok ==> r == Ok::<(), Error>(()) && final(self).grants() == without(
                old(self).grants(),
                proxy,
                filter,
            ),
    {
        if !admin_ok {
            return Err(Error::BadOrigin);
        }
        let ghost s = self.proxies@;
        let ghost keep = |d: ProxyDefinition<A, F>| !is_grant(d, proxy, filter);
        let mut kept: Vec<ProxyDefinition<A, F>> = Vec::new();
        let mut i: usize = 0;
        while i < self.proxies.len()
            invariant
                self.proxies@ == s,
                s == old(self).grants(),
                keep == (|d: ProxyDefinition<A, F>| !is_grant(d, proxy, filter)),
                0 <= i <= s.len(),
                kept@ == s.take(i as int).filter(keep),
            decreases s.len() - i,
        {
            let d = &self.proxies[i];
            proof {
                lemma_filter_take_step(s, keep, i as int);
            }
            if !(d.proxy.same_account(&proxy) && d.filter.same_as(&filter)) {
                kept.push(ProxyDefinition { proxy: d.proxy.duplicate(), filter: d.filter.duplicate() });
            }
            i = i + 1;
        }
        proof {
            assert(s.take(s.len() as int) =~= s);
            s.lemma_filter_len(keep);
        }
        self.proxies = kept;
        Ok(())
    }

    /// The first grant registered for `proxy`.
    pub fn find_proxy(&self, proxy: A) -> (r: Result<ProxyDefinition<A, F>, Error>)
        ensures
            r is Err <==> !has_proxy(self.grants(), proxy),
            r is Err ==> r == Err::<ProxyDefinition<A, F>, Error>(Error::NotFound),
            r is Ok ==> exists|i: int|
                is_first_of(self.grants(), proxy, i) && r->Ok_0 == #[trigger] self.grants()[i],
    {
        let mut i: usize = 0;
        while i < self.proxies.len()
            invariant
                0 <= i <= self.proxies.len(),
                forall|j: int| 0 <= j < i ==> #[trigger] self.proxies@[j].proxy != proxy,
            decreases self.proxies.len() - i,
        {
            let d = &self.proxies[i];
            if d.proxy.same_account(&proxy) {
                let found = ProxyDefinition { proxy: d.proxy.duplicate(), filter: d.filter.duplicate() };
                assert(is_first_of(self.grants(), proxy, i as int));
                return Ok(found);
            }
            i = i + 1;
        }
        Err(Error::NotFound)
    }
}

/// Filtering the first `i + 1` items adds the `i`-th one, where it passes,
/// to the filtered first `i` items.
proof fn lemma_filter_take_step<A>(s: Seq<A>, keep: spec_fn(A) -> bool, i: int)
    requires
        0 <= i < s.len(),
    ensures
        s.take(i + 1).filter(keep) == if keep(s[i]) {
            s.take(i).filter(keep).push(s[i])
        } else {
            s.take(i).filter(keep)
        },
{
    reveal(Seq::filter);
    assert(s.take(i + 1).drop_last() =~= s.take(i));
}

} // verus!
