//! What ends a connection on the server's side.
use vstd::prelude::*;

use crate::frame::FrameError;

verus! {

/// Each of these is fatal to the connection it arose on, and to nothing else.
#[derive(Debug, Clone, Copy, PartialEq, Eq, Structural)]
pub enum ServerError {
    /// The bytes read are no frame.
    Io(FrameError),
    /// The frame is not allowed where the connection stands, or a close
    /// frame did not hold the close marker.
    InvalidState,
    /// The cipher refused the payload.
    Decryption,
}

} // verus!
