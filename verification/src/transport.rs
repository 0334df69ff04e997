//! What the library asks of transports.

use vstd::prelude::*;

verus! {

/// The outcome of polling work that may not be done yet.
#[derive(Debug)]
pub enum Polled<T, E> {
    /// Not done; the task will be woken.
    Pending,
    /// Done.
    Ready(T),
    /// Failed.
    Failed(E),
}

/// A transport stream.
pub trait TransportIo: Send + Sync + 'static {
    /// The ALPN protocol that was negotiated, if any.
    fn alpn_protocol(&self) -> (r: Option<&[u8]>)
        default_ensures
            r is None,
    {
        None
    }
}

} // verus!
