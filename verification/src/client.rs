//! The client's side of the protocol.
//!
//! The driver connects, sends the Open frame, reads the bytes of the
//! server's reply and hands them to `send`, which gives back what is to be
//! written before the stream is flushed.
use vstd::prelude::*;

use crate::cipher::{sealable, sealed, seals, Cipher};
use crate::frame::{decode, FrameError, FrameView, NetFrame, NetFrameType};
use crate::nonce::{successor, Nonce};
use crate::{close_marker, ConnectionState, ConnectionView, StateView, CLOSE_PAYLOAD, KEY_SIZE, NOUNCE_SIZE};

verus! {

/// What ends a client's exchange.
#[derive(Debug)]
pub enum ClientError {
    /// The bytes read are no frame.
    Io(FrameError),
    /// The server's reply does not hold a nonce.
    ParsingError,
    /// The step is not allowed where the connection stands.
    InvalidState(String),
    /// The cipher refused a payload that came in.
    Decryption,
    /// The cipher refused a payload that was to go out.
    Encryption,
}

/// The result is the error of a step that the state does not allow, with
/// this text.
pub open spec fn refused<T>(result: Result<T, ClientError>, text: Seq<char>) -> bool {
    result matches Err(ClientError::InvalidState(s)) && s@ == text
}

/// The message frame that a client with `key` sends at `nonce`.
pub open spec fn message_frame(key: Seq<u8>, nonce: Seq<u8>, message: Seq<u8>) -> Seq<u8> {
    FrameView::of(NetFrameType::CopyMessage, sealed(key, nonce, message)).encode()
}

/// The close frame that a client with `key` sends at `nonce`.
pub open spec fn closing_frame(key: Seq<u8>, nonce: Seq<u8>) -> Seq<u8> {
    FrameView::of(NetFrameType::Close, sealed(key, nonce, close_marker())).encode()
}

/// What sending a message does to a client with `key`: the state that it
/// moves to and the frame that it writes. `None` where the message is not
/// sent: the connection is not opened, or the cipher does not take a message
/// of that length.
pub open spec fn sent(key: Seq<u8>, state: StateView, message: Seq<u8>) -> Option<
    (StateView, Seq<u8>),
> {
    match state {
        StateView::Opened(nonce) => if sealable(message.len()) {
            Some((StateView::Opened(successor(nonce)), message_frame(key, nonce, message)))
        } else {
            None
        },
        _ => None,
    }
}

/// A client: the server's address, a cipher context and the state of the
/// one connection that it makes.
pub struct Client<'a> {
    pub address: &'a str,
    cipher: Cipher,
    state: ConnectionState,
}

impl<'a> View for Client<'a> {
    type V = ConnectionView;

    closed spec fn view(&self) -> ConnectionView {
        ConnectionView { key: self.cipher@, state: self.state@ }
    }
}

impl<'a> Client<'a> {
    /// The address of the server.
    pub closed spec fn peer(&self) -> Seq<char> {
        self.address@
    }

    /// Every client is well-formed.
    pub proof fn lemma_wf(&self)
        ensures
            self@.wf(),
    {
        broadcast use Nonce::lemma_len, Cipher::lemma_len;

    }

    /// A client for the server at `address`, with the secret `key`.
    pub fn new(address: &'a str, key: &[u8]) -> (client: Client<'a>)
        requires
            key@.len() == KEY_SIZE,
        ensures
            client.peer() == address@,
            client@ == (ConnectionView { key: key@, state: StateView::New }),
    {
        let cipher = Cipher::new(key);
        Client { address, cipher, state: ConnectionState::New }
    }

    /// Where the connection stands.
    pub fn state(&self) -> (state: &ConnectionState)
        ensures
            state@ == self@.state,
    {
        &self.state
    }

    /// The whole exchange after the Open frame went out: `response` holds the
    /// bytes of the server's reply, and the result is what the client writes
    /// next, the message frame and then the close frame. The first step that
    /// fails ends the exchange with its error.
    pub fn send(&mut self, response: &[u8], message: &[u8]) -> (output: Result<
        Vec<u8>,
        ClientError,
    >)
        ensures
            final(self).peer() == old(self).peer(),
            final(self)@.key == old(self)@.key,
            match decode(response@) {
                Err(error) => {
                    &&& output matches Err(ClientError::Io(e)) && e == error
                    &&& final(self)@.state == old(self)@.state
                },
                Ok(frame) => if !(old(self)@.state is New && frame.frame_type is Open) {
                    &&& refused(output, "Invalid state while opening connection"@)
                    &&& final(self)@.state == old(self)@.state
                } else if frame.payload.len() != NOUNCE_SIZE {
                    &&& output matches Err(ClientError::ParsingError)
                    &&& final(self)@.state == old(self)@.state
                } else if !sealable(message@.len()) {
                    &&& output matches Err(ClientError::Encryption)
                    &&& final(self)@.state == StateView::Opened(frame.payload)
                } else {
                    &&& output matches Ok(bytes) && bytes@ == message_frame(
                        old(self)@.key,
                        frame.payload,
                        message@,
                    ) + closing_frame(old(self)@.key, successor(frame.payload))
                    &&& seals(
                        old(self)@.key,
                        frame.payload,
                        message@,
                        sealed(old(self)@.key, frame.payload, message@),
                    )
                    &&& seals(
                        old(self)@.key,
                        successor(frame.payload),
                        close_marker(),
                        sealed(old(self)@.key, successor(frame.payload), close_marker()),
                    )
                    &&& final(self)@.state == StateView::Closed
                },
            },
    {
        let frame = match self.next_frame(response) {
            Ok(frame) => frame,
            Err(error) => {
                return Err(error);
            },
        };
        match self.handle_open(&frame) {
            Ok(()) => {},
            Err(error) => {
                return Err(error);
            },
        }
        let mut output = match self.send_message(message) {
            Ok(bytes) => bytes,
            Err(error) => {
                return Err(error);
            },
        };
        let mut closing = match self.send_close() {
            Ok(bytes) => bytes,
            Err(error) => {
                return Err(error);
            },
        };
        output.append(&mut closing);
        Ok(output)
    }

    /// The frame at the front of the bytes that were read.
    pub fn next_frame(&self, input: &[u8]) -> (frame: Result<NetFrame, ClientError>)
        ensures
            match decode(input@) {
                Ok(f) => frame matches Ok(g) && g@ == f,
                Err(error) => frame matches Err(ClientError::Io(e)) && e == error,
            },
    {
        match NetFrame::from_net(input) {
            Ok(frame) => Ok(frame),
            Err(error) => Err(ClientError::Io(error)),
        }
    }

    /// The server's reply to the Open frame: an Open frame whose payload is
    /// the nonce of the connection. Legal on a new connection only; a frame
    /// of another type is out of place there.
    pub fn handle_open(&mut self, frame: &NetFrame) -> (done: Result<(), ClientError>)
        ensures
            final(self).peer() == old(self).peer(),
            final(self)@.key == old(self)@.key,
            if !(old(self)@.state is New && frame@.frame_type is Open) {
                &&& refused(done, "Invalid state while opening connection"@)
                &&& final(self)@.state == old(self)@.state
            } else if frame@.payload.len() != NOUNCE_SIZE {
                &&& done matches Err(ClientError::ParsingError)
                &&& final(self)@.state == old(self)@.state
            } else {
                &&& done is Ok
                &&& final(self)@.state == StateView::Opened(frame@.payload)
            },
    {
        match (&self.state, frame.frame_type) {
            (ConnectionState::New, NetFrameType::Open) => {},
            _ => {
                return Err(
                    ClientError::InvalidState("Invalid state while opening connection".to_owned()),
                );
            },
        }
        let nonce = match Nonce::try_from(frame.payload.clone()) {
            Ok(nonce) => nonce,
            Err(_) => {
                return Err(ClientError::ParsingError);
            },
        };
        self.state = ConnectionState::Opened(nonce);
        Ok(())
    }

    /// The close frame: the close marker, sealed under the current nonce.
    /// Legal on an opened connection only, which is closed afterwards.
    pub fn send_close(&mut self) -> (output: Result<Vec<u8>, ClientError>)
        ensures
            final(self).peer() == old(self).peer(),
            final(self)@.key == old(self)@.key,
            match old(self)@.state {
                StateView::Opened(nonce) => {
                    &&& output matches Ok(bytes) && bytes@ == closing_frame(old(self)@.key, nonce)
                    &&& seals(
                        old(self)@.key,
                        nonce,
                        close_marker(),
                        sealed(old(self)@.key, nonce, close_marker()),
                    )
                    &&& final(self)@.state == StateView::Closed
                },
                _ => {
                    &&& refused(output, "Invalid state while sending closing frame"@)
                    &&& final(self)@.state == old(self)@.state
                },
            },
    {
        let nonce = match &self.state {
            ConnectionState::Opened(n) => *n,
            _ => {
                return Err(
                    ClientError::InvalidState(
                        "Invalid state while sending closing frame".to_owned(),
                    ),
                );
            },
        };
        assert(CLOSE_PAYLOAD@ =~= close_marker());
        let cipher_payload = match self.cipher.encrypt(&nonce, CLOSE_PAYLOAD.as_slice()) {
            Ok(bytes) => bytes,
            Err(_) => {
                return Err(ClientError::Encryption);
            },
        };
        let output = NetFrame::close_frame(cipher_payload).to_net();
        self.state = ConnectionState::Closed;
        Ok(output)
    }

    /// A message frame: `message`, sealed under the current nonce. Legal on
    /// an opened connection only, which moves on to the next nonce.
    pub fn send_message(&mut self, message: &[u8]) -> (output: Result<Vec<u8>, ClientError>)
        ensures
            final(self).peer() == old(self).peer(),
            final(self)@.key == old(self)@.key,
            match sent(old(self)@.key, old(self)@.state, message@) {
                Some((next, frame)) => (output matches Ok(bytes) && bytes@ == frame)
                    && final(self)@.state == next,
                None => output is Err && final(self)@.state == old(self)@.state,
            },
            match old(self)@.state {
                StateView::Opened(nonce) => if sealable(message@.len()) {
                    &&& output matches Ok(bytes) && bytes@ == message_frame(
                        old(self)@.key,
                        nonce,
                        message@,
                    )
                    &&& seals(
                        old(self)@.key,
                        nonce,
                        message@,
                        sealed(old(self)@.key, nonce, message@),
                    )
                    &&& final(self)@.state == StateView::Opened(successor(nonce))
                } else {
                    &&& output matches Err(ClientError::Encryption)
                    &&& final(self)@.state == old(self)@.state
                },
                _ => {
                    &&& refused(output, "Invalid state while sending message"@)
                    &&& final(self)@.state == old(self)@.state
                },
            },
    {
        let nonce = match &self.state {
            ConnectionState::Opened(n) => *n,
            _ => {
                return Err(
                    ClientError::InvalidState("Invalid state while sending message".to_owned()),
                );
            },
        };
        let cipher_message = match self.cipher.encrypt(&nonce, message) {
            Ok(bytes) => bytes,
            Err(_) => {
                return Err(ClientError::Encryption);
            },
        };
        let message_frame = NetFrame::new(NetFrameType::CopyMessage, cipher_message);
        let output = message_frame.to_net();
        self.state = ConnectionState::Opened(nonce.consume());
        Ok(output)
    }
}

} // verus!
