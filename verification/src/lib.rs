//! Operating-system introspection of a Windows x64 guest.
//!
//! Every kernel structure offset comes from a Volatility 3 symbol profile, so the walkers hold no
//! build-specific layout. The guest itself is never touched from here: a query runs over the
//! answers recorded in a [`guest::Guest`] and either finishes or names the one read of guest
//! memory that it is waiting for.

pub mod compressed;
pub mod dump;
pub mod guest;
pub mod handles;
pub mod kernel;
pub mod laws;
pub mod lists;
pub mod objects;
pub mod pandbox_compat;
pub mod process;
pub mod profile;
pub mod reads;
pub mod strace;
pub mod surface;
pub mod text;
