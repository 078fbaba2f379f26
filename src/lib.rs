//! The state-touching instructions of an Ethereum-style interpreter: storage,
//! logs, account and block queries, hashing, return data, self-destruct, and
//! the nested call and create instructions, each with exact gas metering.

pub mod dispatch;
pub mod ext;
pub mod gas;
pub mod host;
pub mod machine;
pub mod system;
pub mod word;
