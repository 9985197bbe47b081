pub mod credentials;
pub mod crypto;
pub mod error;
pub mod kraken_futures;
pub mod rate_limit;
pub mod requests;
pub mod time;
pub mod trade;
