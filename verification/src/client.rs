//! A client-side connection to a TFTP server. Implementors can use this
//! to build a more fully-featured client application.
//!
//! The builder here carries the values the protocol logic reads: the
//! locally chosen Transfer ID (the port this end will bind) and the
//! retransmission policy. Binding the socket to that port, resolving the
//! server's address and moving the bytes belong to the embedding code,
//! which hands received frames to the engines in [`crate::connection`].

use vstd::prelude::*;

use crate::RetransmissionConfig;
use crate::connection::MIN_PORT_NUMBER;

verus! {

/// Relies on rand::random (which draws from the thread-local generator):
/// it returns some value of the type; nothing is assumed about which one.
pub assume_specification<T>[ rand::random::<T> ]() -> (r: T)
    where
        rand::distributions::Standard: rand::distributions::Distribution<T>,
;

/// Builds a `Client`: fixes this end's Transfer ID and the retransmission
/// policy before a transfer begins.
pub struct Builder {
    /// The freshly chosen Transfer ID: the port this end binds.
    pub port: u16,
    /// The transfer's retransmission policy; `None` blocks forever with
    /// unlimited retries.
    pub retransmission_config: Option<RetransmissionConfig>,
}

impl Builder {
    /// Generates a Transfer ID: a port drawn from the range that is open
    /// for ephemeral use, never a well-known one.
    pub fn new(retransmission_config: Option<RetransmissionConfig>) -> (r: Builder)
        ensures
            MIN_PORT_NUMBER <= r.port < u16::MAX,
            r.retransmission_config == retransmission_config,
    {
        let raw: u16 = rand::random::<u16>();
        let port: u16 = MIN_PORT_NUMBER + raw % (u16::MAX - MIN_PORT_NUMBER);
        Builder { port, retransmission_config }
    }

    /// Creates an instance with a different Transfer ID from the original
    /// instance, keeping its retransmission policy: an independent port for
    /// a separate connection attempt, never a shared one.
    pub fn try_clone(&self) -> (r: Builder)
        ensures
            MIN_PORT_NUMBER <= r.port < u16::MAX,
            r.retransmission_config == self.retransmission_config,
    {
        Builder::new(self.retransmission_config)
    }
}

} // verus!
