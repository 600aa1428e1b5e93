//! Wire protocol engine for pushing a text payload from a client to a server.
//!
//! One exchange on a connection is:
//!
//! ```text
//! client ----------- Open[] -----------> server
//! client <-------- Open[nonce] --------- server
//! client ------ Message[bytes] --------> server   sealed under nonce
//! client ------ Message[bytes] --------> server   sealed under nonce + 1
//! client ----------- Close[] ----------> server   sealed under the next nonce
//! ```
//!
//! The library holds the frame codec, the nonce sequence, the cipher context
//! and the two state machines. It performs no I/O: a driver reads the bytes
//! of a frame, hands them to the state machine, and writes what comes back.
use vstd::prelude::*;

pub mod cipher;
pub mod client;
pub mod config;
pub mod exchange;
pub mod frame;
pub mod nonce;
pub mod server;

pub use cipher::Cipher;
pub use frame::{FrameError, NetFrame, NetFrameType};
pub use nonce::Nonce;

verus! {

/// Version of the wire format. A change that breaks the format bumps it.
pub const PROTOCOL_VERSION: u32 = 1;

/// Length of a nonce in bytes.
pub const NOUNCE_SIZE: usize = 12;

/// Length of the pre-shared secret in bytes.
pub const KEY_SIZE: usize = 32;

/// What a close frame holds once it is deciphered.
pub const CLOSE_PAYLOAD: [u8; 1] = [99];

/// Where a connection stands in its life, as contracts see it.
pub enum StateView {
    New,
    Opened(Seq<u8>),
    Closed,
}

/// One end of a connection, as contracts see it: the key of its cipher
/// context and where it stands.
pub struct ConnectionView {
    pub key: Seq<u8>,
    pub state: StateView,
}

impl ConnectionView {
    /// What holds of every connection: its key has `KEY_SIZE` bytes, and the
    /// nonce that it is at, if any, has `NOUNCE_SIZE`.
    pub open spec fn wf(self) -> bool {
        &&& self.key.len() == KEY_SIZE
        &&& self.state matches StateView::Opened(nonce) ==> nonce.len() == NOUNCE_SIZE
    }
}

/// The close marker as a byte string.
pub open spec fn close_marker() -> Seq<u8> {
    seq![99u8]
}

/// Where a connection stands in its life.
#[derive(Debug)]
pub enum ConnectionState {
    /// Nothing was exchanged yet.
    New,
    /// The handshake is done; the nonce is the one the next frame is sealed under.
    Opened(Nonce),
    /// The close frame went out or came in.
    Closed,
}

impl View for ConnectionState {
    type V = StateView;

    open spec fn view(&self) -> StateView {
        match *self {
            ConnectionState::New => StateView::New,
            ConnectionState::Opened(nonce) => StateView::Opened(nonce@),
            ConnectionState::Closed => StateView::Closed,
        }
    }
}

} // verus!
