//! What the client asks of an async runtime.

use std::future::Future;

use vstd::prelude::*;

verus! {

/// The async runtime capabilities that the client needs.
///
/// This keeps the client runtime-agnostic.
pub trait AsyncRuntime: Send + Sync + 'static {
    /// Spawns a future onto the background runtime, to run on its own for the lifetime of
    /// the session or connection.
    fn spawn<F>(&self, future: F) where F: Future<Output = ()> + Send + 'static;
}

} // verus!
