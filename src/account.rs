use vstd::prelude::*;

verus! {

/// The identity of an account that may be granted a proxy, supplied by the
/// host runtime.
pub trait Account: Sized {
    /// Decides whether two accounts are the same value.
    fn same_account(&self, other: &Self) -> (r: bool)
        ensures
            r == (*self == *other),
    ;

    /// Returns an identical copy of this account.
    fn duplicate(&self) -> (r: Self)
        ensures
            r == *self,
    ;
}

impl Account for u64 {
    fn same_account(&self, other: &u64) -> (r: bool) {
        *self == *other
    }

    fn duplicate(&self) -> (r: u64) {
        *self
    }
}

} // verus!
