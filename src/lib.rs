//! Guardian-based account recovery.
//!
//! An account names a set of guardians; anyone may open a recovery request
//! that replaces the account's public key, the guardians approve it, and once
//! enough of them have approved and the time lock has run out the request is
//! handed to an external account manager. The outcome comes back through a
//! callback that either completes the request or leaves it open for a retry.
pub mod error;
pub mod laws;
pub mod model;
pub mod recovery;
pub mod request_id;
pub mod store;
