use vstd::prelude::*;

verus! {

/// A capability predicate over calls, supplied by the host runtime.
///
/// Implementors prove that "supersedes" is reflexive and that it really means
/// "permits at least every call that the other filter permits".
pub trait CallFilter: Sized {
    /// The calls that this filter rules on.
    type Call;

    /// Whether this filter lets `call` through.
    spec fn permits(&self, call: &Self::Call) -> bool;

    /// Whether this filter is at least as permissive as `other`.
    spec fn supersedes(&self, other: &Self) -> bool;

    /// Decides whether `call` may be made under this filter.
    fn filter(&self, call: &Self::Call) -> (r: bool)
        ensures
            r == self.permits(call),
    ;

    /// Decides whether this filter is at least as permissive as `other`.
    fn is_superset(&self, other: &Self) -> (r: bool)
        ensures
            r == self.supersedes(other),
    ;

    /// Decides whether two filters are the same value.
    fn same_as(&self, other: &Self) -> (r: bool)
        ensures
            r == (*self == *other),
    ;

    /// Returns an identical copy of this filter.
    fn duplicate(&self) -> (r: Self)
        ensures
            r == *self,
    ;

    /// Every filter is at least as permissive as itself.
    proof fn lemma_supersedes_self(&self)
        ensures
            self.supersedes(self),
    ;

    /// A filter that supersedes another permits every call the other permits.
    proof fn lemma_supersedes_permits(&self, other: &Self, call: &Self::Call)
        requires
            self.supersedes(other),
            other.permits(call),
        ensures
            self.permits(call),
    ;
}

} // verus!
