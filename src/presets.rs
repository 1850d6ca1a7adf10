use vstd::prelude::*;

use crate::filter::CallFilter;

verus! {

/// A call that a proxy may ask to make.
#[derive(Clone, Copy, Debug, PartialEq, Eq, Structural)]
pub enum Call {
    /// Moves `amount` to the account `dest`.
    Transfer { dest: u64, amount: u64 },
    /// Records a note on chain; moves no funds.
    Remark { tag: u64 },
}

/// The kinds of grant a collective can hand out.
#[derive(Clone, Copy, Debug, PartialEq, Eq, Structural)]
pub enum ProxyType {
    /// Every call is permitted.
    Any,
    /// Every call but a transfer is permitted.
    NonTransfer,
}

impl Call {
    pub open spec fn is_transfer(&self) -> bool {
        self is Transfer
    }
}

impl CallFilter for ProxyType {
    type Call = Call;

    open spec fn permits(&self, call: &Call) -> bool {
        match *self {
            ProxyType::Any => true,
            ProxyType::NonTransfer => !call.is_transfer(),
        }
    }

    open spec fn supersedes(&self, other: &ProxyType) -> bool {
        *self == ProxyType::Any || *self == *other
    }

    fn filter(&self, call: &Call) -> (r: bool) {
        match self {
            ProxyType::Any => true,
            ProxyType::NonTransfer => !matches!(call, Call::Transfer { .. }),
        }
    }

    fn is_superset(&self, other: &ProxyType) -> (r: bool) {
        *self == ProxyType::Any || *self == *other
    }

    fn same_as(&self, other: &ProxyType) -> (r: bool) {
        *self == *other
    }

    fn duplicate(&self) -> (r: ProxyType) {
        *self
    }

    proof fn lemma_supersedes_self(&self) {
    }

    proof fn lemma_supersedes_permits(&self, other: &ProxyType, call: &Call) {
    }
}

} // verus!
