//! A Trivial File Transfer Protocol (TFTP, RFC 1350) library: a binary
//! packet codec for the five TFTP message types and a lock-step transfer
//! engine that drives a single get or put to completion, with timeout-based
//! retransmission over an unreliable transport.

pub mod client;
pub mod connection;
pub mod netascii;
pub mod packet;

use vstd::prelude::*;

verus! {

/// How a transfer recovers from packet loss: how long each wait for a
/// response lasts, and how many times the last packet may be sent again
/// before the transfer fails. Read-only once a transfer begins.
#[derive(Clone, Copy, Debug)]
pub struct RetransmissionConfig {
    /// How long one blocking receive may wait, in milliseconds.
    pub timeout_millis: u64,
    /// Cap on retransmissions per wait; `None` means retry without bound.
    pub max_retransmissions: Option<u32>,
}

} // verus!
