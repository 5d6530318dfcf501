//! The relay pairing handed to the transport loop.
//!
//! The loop that owns the two UDP sockets is an external collaborator: it
//! forwards raw bytes in both directions and calls into the codec purely
//! for inspection. [`MITM`] pairs the two per-direction inspection
//! callbacks it drives.

use vstd::prelude::*;

verus! {

/// A man-in-the-middle pairing: one inspection callback for each direction
/// of traffic. The transport loop calls `to_server` on datagrams arriving
/// from the client and `to_client` on datagrams arriving from the server,
/// and forwards whatever bytes they hand back.
#[derive(Debug)]
pub struct MITM<C, S> {
    pub to_client: C,
    pub to_server: S,
}

impl<C, S> MITM<C, S> {
    /// Pairs the two directions' callbacks.
    pub fn new(to_client: C, to_server: S) -> (r: Self)
        ensures
            r.to_client == to_client,
            r.to_server == to_server,
    {
        Self { to_client, to_server }
    }
}

} // verus!
