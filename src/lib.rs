//! Zero-knowledge proof that an age lies in a range, bound to one account and
//! one policy threshold, and the subscription ledger that consumes it.
//!
//! - `bytes`: little-endian integer encodings and their meaning.
//! - `public_input`: the public-input vector `[threshold, account low,
//!   account high]` and its wire form.
//! - `gate`: the range gate's row layout, the constraints a verifier checks,
//!   and the laws they give: completeness, identity and policy binding,
//!   non-malleability.
//! - `setup`: shape checks and the framing of setup and verifying-key blobs.
//! - `proofs`: the minimum-age engine for a fixed policy.
//! - `subscriptions`: the ledger's rules, as state transitions that return
//!   the transfers and events for the host to perform.
pub mod bytes;
pub mod gate;
pub mod proofs;
pub mod public_input;
pub mod setup;
pub mod subscriptions;
