//! A retained tree of native user-interface elements, driven from outside
//! through a fixed set of node operations, together with the event table that
//! routes interactions back to bound callbacks, the per-frame tree walk, and
//! a cycle-safe formatter for diagnostic dumps of dynamic values.
//!
//! Every function in this crate carries a contract that Verus proves; the few
//! calls into other crates are isolated in small wrappers whose contracts are
//! taken on trust and documented as such.

pub mod bridge;
pub mod dispatch;
pub mod element;
pub mod error;
pub mod events;
pub mod flush;
pub mod host;
pub mod inspect;
pub mod outline;
pub mod paint;
pub mod seq_facts;
pub mod text;
pub mod walker;
