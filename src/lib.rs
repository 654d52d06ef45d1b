//! Naming layer of a decentralized network: public names are registered once,
//! services are published under them, and a (name, service) pair resolves to
//! the directory that holds the service's content.

pub mod assoc;
pub mod error;
pub mod directory_key;
pub mod record;
pub mod store;
pub mod retry;
pub mod request;
pub mod laws;
