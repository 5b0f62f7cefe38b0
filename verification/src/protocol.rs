//! Messages the client sends to the host.

use vstd::prelude::*;

verus! {

/// A control message from a client.
#[derive(Debug)]
pub enum ControlMessage {
    /// Keyboard input from client `client_id`, numbered `client_seq`.
    Input { client_id: String, client_seq: u64, bytes: Vec<u8> },
}

} // verus!
