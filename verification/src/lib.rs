//! A validating gateway in front of a shared key-value and publish/subscribe
//! store: the key grammar, the schema registry, the request protocol, the
//! dispatch decisions and the framing of a connection's byte stream.

pub mod bytes;
pub mod key;
pub mod schema;
pub mod protocol;
pub mod dispatch;
pub mod framing;
pub mod config;
pub mod laws;
