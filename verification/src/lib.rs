//! The decision core of a load-time interposer: it answers one property
//! lookup from a cached value and forwards every other call untouched.

pub mod cache;
pub mod config;
pub mod dispatch;
pub mod key;
pub mod ledger;
pub mod rebind;
