//! Delegated call authorization for a collective: a bounded registry of proxy
//! grants, each restricted by a capability filter, with gated registration and
//! gated dispatch on behalf of a registered proxy.

pub mod account;
pub mod filter;
pub mod presets;
pub mod registry;
pub mod dispatch;
pub mod laws;
