//! Verified core of an ICMP Echo (ping) exchange: the RFC 1071 Internet
//! checksum, Echo Request construction, reply parsing and validation, and
//! the probe session that correlates replies with outstanding requests.
//!
//! Socket I/O is deliberately outside this crate: callers hand in received
//! datagrams as plain byte slices and send the byte buffers produced here.

pub mod checksum;
pub mod packet;
pub mod parser;
pub mod session;
