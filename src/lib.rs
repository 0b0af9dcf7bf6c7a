//! A verified state machine for commissioning research on a shared ledger:
//! a requester posts a task, one researcher commits to a methodology and
//! submits a report, and any number of verifiers attest to it.
pub mod address;
pub mod state;
pub mod store;
pub mod ledger;
pub mod program;
pub mod laws;
