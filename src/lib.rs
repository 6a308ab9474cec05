//! A crowdfunding ledger entry: an administrator opens a campaign record in a
//! program-owned storage account, donors move value into it, and the
//! administrator withdraws what lies above the rent-exemption floor.
pub mod account;
pub mod codec;
pub mod error;
pub mod laws;
pub mod processor;
