use vstd::prelude::*;

use crate::account::Account;
use crate::filter::CallFilter;
use crate::registry::{has_proxy, is_first_of, Error, Pallet, ProxyDefinition};

verus! {

/// The context that a delegated call runs in: it acts as the proxy's account,
/// and every call made under it must pass the proxy's filter.
#[derive(Clone, Copy, Debug, PartialEq, Eq)]
pub struct RestrictedOrigin<A, F> {
    /// The account the call acts as: the grant's proxy, never the caller.
    pub account: A,
    /// The filter that each call made under this context must pass.
    pub filter: F,
}

impl<A, F: CallFilter> RestrictedOrigin<A, F> {
    /// Whether `call` may be issued under this context.
    pub fn permits(&self, call: &F::Call) -> (r: bool)
        ensures
            r == self.filter.permits(call),
    {
        self.filter.filter(call)
    }
}

/// Notifications published by the collective's proxy.
#[derive(Debug, PartialEq, Eq)]
pub enum Event<E> {
    /// A delegated call was dispatched; `result` is its outcome.
    CollectiveProxyExecuted { result: Result<(), E> },
}

impl<A: Account, F: CallFilter> Pallet<A, F> {
    /// Prepares the dispatch of a call on behalf of `proxy`, where the caller
    /// holds the executor authority (`origin_ok`): resolves the first grant of
    /// `proxy` and returns the context that the call must run in.
    ///
    /// The host dispatches the call under that context, publishes
    /// [`dispatched`] of its outcome, and reports the operation as a success
    /// whatever that outcome was.
    pub fn execute_call(&self, origin_ok: bool, proxy: A) -> (r: Result<RestrictedOrigin<A, F>, Error>)
        ensures
            !origin_ok ==> r == Err::<RestrictedOrigin<A, F>, Error>(Error::BadOrigin),
            origin_ok ==> (r is Ok <==> has_proxy(self.grants(), proxy)),
            origin_ok && r is Err ==> r == Err::<RestrictedOrigin<A, F>, Error>(Error::NotFound),
            r is Ok ==> r->Ok_0.account == proxy,
            r is Ok ==> exists|i: int|
                is_first_of(self.grants(), proxy, i) && r->Ok_0.account == self.grants()[i].proxy
                    && r->Ok_0.filter == #[trigger] self.grants()[i].filter,
    {
        if !origin_ok {
            return Err(Error::BadOrigin);
        }
        match self.find_proxy(proxy) {
            Ok(def) => {
                let ProxyDefinition { proxy: account, filter } = def;
                Ok(RestrictedOrigin { account, filter })
            },
            Err(e) => Err(e),
        }
    }
}

/// The notification for a dispatched call: its outcome, with what the call
/// returned on success dropped and its error kept.
pub fn dispatched<T, E>(outcome: Result<T, E>) -> (r: Event<E>)
    ensures
        r == (Event::CollectiveProxyExecuted {
            result: match outcome {
                Ok(_) => Ok(()),
                Err(e) => Err(e),
            },
        }),
{
    match outcome {
        Ok(_) => Event::CollectiveProxyExecuted { result: Ok(()) },
        Err(e) => Event::CollectiveProxyExecuted { result: Err(e) },
    }
}

} // verus!
