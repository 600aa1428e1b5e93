//! The state machine of one accepted connection.
//!
//! The driver reads the bytes of one frame and hands them to `next`; it
//! writes back what an Open brings, passes on an event, and stops at the end
//! of the sequence or at an error.
use vstd::prelude::*;
use vstd::utf8::{decode_utf8, valid_utf8};

use crate::cipher::{unsealed, Cipher};
use crate::frame::{decode, FrameView, NetFrame, NetFrameType};
use crate::nonce::{successor, Nonce};
use crate::server::error::ServerError;
use crate::{close_marker, ConnectionState, ConnectionView, StateView, CLOSE_PAYLOAD};

verus! {

/// The text that `String::from_utf8_lossy` makes of `bytes` that are not
/// valid UTF-8, with a replacement character for each part that is not.
pub uninterp spec fn lossy_text(bytes: Seq<u8>) -> Seq<char>;

/// The text of a message: the text that the bytes encode in UTF-8, or else
/// what a lossy conversion makes of them.
pub open spec fn text_of(bytes: Seq<u8>) -> Seq<char> {
    if valid_utf8(bytes) {
        decode_utf8(bytes)
    } else {
        lossy_text(bytes)
    }
}

/// `String::from_utf8_lossy`, made an owned string.
///
/// Taken on trust: bytes that are valid UTF-8 come out as the text they
/// encode; of other bytes the text is a function, named `lossy_text`.
#[verifier::external_body]
fn utf8_lossy(bytes: &[u8]) -> (text: String)
    ensures
        text@ == if valid_utf8(bytes@) {
            decode_utf8(bytes@)
        } else {
            lossy_text(bytes@)
        },
{
    String::from_utf8_lossy(bytes).into_owned()
}

/// A message for the clipboard.
#[derive(Debug)]
pub struct PasteEvent {
    pub payload: String,
}

/// A message for the configured command.
#[derive(Debug)]
pub struct ExecEvent {
    pub payload: String,
}

/// What a connection yields to its caller.
#[derive(Debug)]
pub enum Event {
    PasteEvent(PasteEvent),
    ExecEvent(ExecEvent),
}

impl Clone for PasteEvent {
    fn clone(&self) -> (event: PasteEvent)
        ensures
            event.payload@ == self.payload@,
    {
        PasteEvent { payload: self.payload.clone() }
    }
}

impl Clone for ExecEvent {
    fn clone(&self) -> (event: ExecEvent)
        ensures
            event.payload@ == self.payload@,
    {
        ExecEvent { payload: self.payload.clone() }
    }
}

impl Clone for Event {
    fn clone(&self) -> (event: Event)
        ensures
            match (*self, event) {
                (Event::PasteEvent(a), Event::PasteEvent(b)) => a.payload@ == b.payload@,
                (Event::ExecEvent(a), Event::ExecEvent(b)) => a.payload@ == b.payload@,
                _ => false,
            },
    {
        match self {
            Event::PasteEvent(e) => Event::PasteEvent(e.clone()),
            Event::ExecEvent(e) => Event::ExecEvent(e.clone()),
        }
    }
}

/// What one frame brought about.
#[derive(Debug)]
pub enum FrameEvent {
    /// The connection is open; the bytes are the reply that names the nonce.
    Open(Vec<u8>),
    Message(PasteEvent),
    Exec(ExecEvent),
    Closed,
}

/// What one pull on the event sequence gives.
#[derive(Debug)]
pub enum Pull {
    /// No event yet: send these bytes to the peer and pull again.
    Again(Vec<u8>),
    /// The next item. An error is the last one.
    Item(Result<Event, ServerError>),
    /// The sequence is over: the peer closed the connection, or the item
    /// before was an error.
    End,
}

/// What one frame brings about, as contracts see it.
pub enum Outcome {
    Reply(Seq<u8>),
    Paste(Seq<char>),
    Exec(Seq<char>),
    Closed,
    Failed(ServerError),
}

/// The outcome that a handler's result stands for.
pub open spec fn outcome_of(result: Result<FrameEvent, ServerError>) -> Outcome {
    match result {
        Ok(FrameEvent::Open(reply)) => Outcome::Reply(reply@),
        Ok(FrameEvent::Message(event)) => Outcome::Paste(event.payload@),
        Ok(FrameEvent::Exec(event)) => Outcome::Exec(event.payload@),
        Ok(FrameEvent::Closed) => Outcome::Closed,
        Err(error) => Outcome::Failed(error),
    }
}

/// The outcome that a pull stands for.
pub open spec fn outcome_of_pull(pull: Pull) -> Outcome {
    match pull {
        Pull::Again(reply) => Outcome::Reply(reply@),
        Pull::Item(Ok(Event::PasteEvent(event))) => Outcome::Paste(event.payload@),
        Pull::Item(Ok(Event::ExecEvent(event))) => Outcome::Exec(event.payload@),
        Pull::End => Outcome::Closed,
        Pull::Item(Err(error)) => Outcome::Failed(error),
    }
}

/// An Open frame is legal on a new connection only. It is answered with an
/// Open frame that holds the nonce `fresh`, which the connection then is at.
pub open spec fn on_open(state: StateView, fresh: Seq<u8>) -> (StateView, Outcome) {
    match state {
        StateView::New => (
            StateView::Opened(fresh),
            Outcome::Reply(FrameView::of(NetFrameType::Open, fresh).encode()),
        ),
        _ => (state, Outcome::Failed(ServerError::InvalidState)),
    }
}

/// A message is legal on an opened connection only. Its payload is opened
/// under the current nonce, and the connection moves on to the next one.
pub open spec fn on_message(key: Seq<u8>, state: StateView, payload: Seq<u8>) -> Result<
    (StateView, Seq<char>),
    ServerError,
> {
    match state {
        StateView::Opened(nonce) => match unsealed(key, nonce, payload) {
            Some(message) => Ok((StateView::Opened(successor(nonce)), text_of(message))),
            None => Err(ServerError::Decryption),
        },
        _ => Err(ServerError::InvalidState),
    }
}

/// A Close frame is legal on an opened connection only, and must hold the
/// close marker, sealed under the current nonce.
pub open spec fn on_close(key: Seq<u8>, state: StateView, payload: Seq<u8>) -> (
    StateView,
    Outcome,
) {
    match state {
        StateView::Opened(nonce) => match unsealed(key, nonce, payload) {
            Some(message) => if message == close_marker() {
                (StateView::Closed, Outcome::Closed)
            } else {
                (state, Outcome::Failed(ServerError::InvalidState))
            },
            None => (state, Outcome::Failed(ServerError::Decryption)),
        },
        _ => (state, Outcome::Failed(ServerError::InvalidState)),
    }
}

/// What a frame does to a connection, and what comes of it. An error leaves
/// the connection where it stood.
pub open spec fn on_frame(key: Seq<u8>, state: StateView, frame: FrameView, fresh: Seq<u8>) -> (
    StateView,
    Outcome,
) {
    match frame.frame_type {
        NetFrameType::Open => on_open(state, fresh),
        NetFrameType::CopyMessage => match on_message(key, state, frame.payload) {
            Ok((next, text)) => (next, Outcome::Paste(text)),
            Err(error) => (state, Outcome::Failed(error)),
        },
        NetFrameType::ExecMessage => match on_message(key, state, frame.payload) {
            Ok((next, text)) => (next, Outcome::Exec(text)),
            Err(error) => (state, Outcome::Failed(error)),
        },
        NetFrameType::Close => on_close(key, state, frame.payload),
    }
}

/// What the bytes of one frame do to a connection.
pub open spec fn on_bytes(key: Seq<u8>, state: StateView, bytes: Seq<u8>, fresh: Seq<u8>) -> (
    StateView,
    Outcome,
) {
    match decode(bytes) {
        Ok(frame) => on_frame(key, state, frame, fresh),
        Err(error) => (state, Outcome::Failed(ServerError::Io(error))),
    }
}

/// The nonce that a connection is at; empty where it has none.
pub open spec fn nonce_of(state: StateView) -> Seq<u8> {
    match state {
        StateView::Opened(nonce) => nonce,
        _ => Seq::empty(),
    }
}

/// The outcome ends the event sequence: the peer closed the connection, or
/// an error arose, which is fatal to it.
pub open spec fn ends(outcome: Outcome) -> bool {
    outcome is Closed || outcome is Failed
}

/// One accepted connection: a cipher context of its own, its state, and
/// whether its event sequence is over.
pub struct Connection {
    cipher: Cipher,
    state: ConnectionState,
    finished: bool,
}

impl View for Connection {
    type V = ConnectionView;

    closed spec fn view(&self) -> ConnectionView {
        ConnectionView { key: self.cipher@, state: self.state@ }
    }
}

impl Connection {
    /// Every connection is well-formed.
    pub proof fn lemma_wf(&self)
        ensures
            self@.wf(),
    {
        broadcast use Nonce::lemma_len, Cipher::lemma_len;

    }

    /// The event sequence of the connection is over.
    pub closed spec fn finished(&self) -> bool {
        self.finished
    }

    /// A connection on which nothing was exchanged yet.
    pub fn new(cipher: Cipher) -> (connection: Connection)
        ensures
            connection@ == (ConnectionView { key: cipher@, state: StateView::New }),
            !connection.finished(),
    {
        Connection { cipher, state: ConnectionState::New, finished: false }
    }

    /// Whether the event sequence is over: nothing more is to be read then.
    pub fn is_finished(&self) -> (finished: bool)
        ensures
            finished == self.finished(),
    {
        self.finished
    }

    /// Where the connection stands.
    pub fn state(&self) -> (state: &ConnectionState)
        ensures
            state@ == self@.state,
    {
        &self.state
    }

    /// Takes the bytes of one frame and lets the frame act on the connection.
    /// The nonce that an Open is answered with is drawn at random: it is the
    /// one the connection is at afterwards.
    pub fn next_frame(&mut self, input: &[u8]) -> (event: Result<FrameEvent, ServerError>)
        ensures
            final(self)@.key == old(self)@.key,
            final(self).finished() == old(self).finished(),
            (final(self)@.state, outcome_of(event)) == on_bytes(
                old(self)@.key,
                old(self)@.state,
                input@,
                nonce_of(final(self)@.state),
            ),
    {
        let frame = match NetFrame::from_net(input) {
            Ok(frame) => frame,
            Err(error) => {
                return Err(ServerError::Io(error));
            },
        };
        match frame.frame_type {
            NetFrameType::Open => self.handle_open(&frame),
            NetFrameType::CopyMessage => self.handle_copy_message(&frame),
            NetFrameType::ExecMessage => self.handle_exec_message(&frame),
            NetFrameType::Close => self.handle_close(&frame),
        }
    }

    /// The peer closes the connection.
    pub fn handle_close(&mut self, frame: &NetFrame) -> (event: Result<FrameEvent, ServerError>)
        ensures
            final(self)@.key == old(self)@.key,
            final(self).finished() == old(self).finished(),
            (final(self)@.state, outcome_of(event)) == on_close(
                old(self)@.key,
                old(self)@.state,
                frame@.payload,
            ),
    {
        let nounce = match &self.state {
            ConnectionState::Opened(nounce) => *nounce,
            _ => {
                return Err(ServerError::InvalidState);
            },
        };
        let message = match self.cipher.decrypt(&nounce, frame.payload.as_slice()) {
            Ok(message) => message,
            Err(_) => {
                return Err(ServerError::Decryption);
            },
        };
        if message.len() != 1 || message[0] != CLOSE_PAYLOAD[0] {
            assert(message@ != close_marker());
            return Err(ServerError::InvalidState);
        }
        assert(message@ =~= close_marker());
        self.state = ConnectionState::Closed;
        Ok(FrameEvent::Closed)
    }

    /// The peer asks for the connection: it gets a nonce drawn at random.
    pub fn handle_open(&mut self, _frame: &NetFrame) -> (event: Result<FrameEvent, ServerError>)
        ensures
            final(self)@.key == old(self)@.key,
            final(self).finished() == old(self).finished(),
            (final(self)@.state, outcome_of(event)) == on_open(
                old(self)@.state,
                nonce_of(final(self)@.state),
            ),
    {
        self.grant(Nonce::default())
    }

    /// Opens the connection at `nounce` and makes the reply that names it.
    pub fn grant(&mut self, nounce: Nonce) -> (event: Result<FrameEvent, ServerError>)
        ensures
            final(self)@.key == old(self)@.key,
            final(self).finished() == old(self).finished(),
            (final(self)@.state, outcome_of(event)) == on_open(old(self)@.state, nounce@),
    {
        match &self.state {
            ConnectionState::New => {},
            _ => {
                return Err(ServerError::InvalidState);
            },
        }
        let nounce_frame = NetFrame::nounce_frame(&nounce);
        let reply = nounce_frame.to_net();
        self.state = ConnectionState::Opened(nounce);
        Ok(FrameEvent::Open(reply))
    }

    /// A message for the clipboard.
    pub fn handle_copy_message(&mut self, frame: &NetFrame) -> (event: Result<
        FrameEvent,
        ServerError,
    >)
        ensures
            final(self)@.key == old(self)@.key,
            final(self).finished() == old(self).finished(),
            match on_message(old(self)@.key, old(self)@.state, frame@.payload) {
                Ok((next, text)) => final(self)@.state == next && outcome_of(event)
                    == Outcome::Paste(text),
                Err(error) => final(self)@.state == old(self)@.state && outcome_of(event)
                    == Outcome::Failed(error),
            },
    {
        let payload = match self.parse_message(frame) {
            Ok(payload) => payload,
            Err(error) => {
                return Err(error);
            },
        };
        Ok(FrameEvent::Message(PasteEvent { payload }))
    }

    /// A message for the configured command.
    pub fn handle_exec_message(&mut self, frame: &NetFrame) -> (event: Result<
        FrameEvent,
        ServerError,
    >)
        ensures
            final(self)@.key == old(self)@.key,
            final(self).finished() == old(self).finished(),
            match on_message(old(self)@.key, old(self)@.state, frame@.payload) {
                Ok((next, text)) => final(self)@.state == next && outcome_of(event)
                    == Outcome::Exec(text),
                Err(error) => final(self)@.state == old(self)@.state && outcome_of(event)
                    == Outcome::Failed(error),
            },
    {
        let payload = match self.parse_message(frame) {
            Ok(payload) => payload,
            Err(error) => {
                return Err(error);
            },
        };
        Ok(FrameEvent::Exec(ExecEvent { payload }))
    }

    /// Opens the payload of a message frame under the current nonce and
    /// moves on to the next nonce. The conversion to text is lossy, in case
    /// the peer's clipboard did not hold UTF-8.
    pub fn parse_message(&mut self, frame: &NetFrame) -> (text: Result<String, ServerError>)
        ensures
            final(self)@.key == old(self)@.key,
            final(self).finished() == old(self).finished(),
            match on_message(old(self)@.key, old(self)@.state, frame@.payload) {
                Ok((next, content)) => final(self)@.state == next && (text matches Ok(s) && s@
                    == content),
                Err(error) => final(self)@.state == old(self)@.state && text == Err::<
                    String,
                    ServerError,
                >(error),
            },
    {
        let nounce = match &self.state {
            ConnectionState::Opened(nounce) => *nounce,
            _ => {
                return Err(ServerError::InvalidState);
            },
        };
        let message = match self.cipher.decrypt(&nounce, frame.payload.as_slice()) {
            Ok(message) => message,
            Err(_) => {
                return Err(ServerError::Decryption);
            },
        };
        self.state = ConnectionState::Opened(nounce.consume());
        Ok(utf8_lossy(message.as_slice()))
    }

    /// One pull on the event sequence, with the bytes of the frame that was
    /// read for it. An Open yields no event: its reply is to be sent, and the
    /// sequence pulled again. A Close ends the sequence; an error is its last
    /// item. Once the sequence is over it stays so: every further pull gives
    /// the end, and leaves the connection alone.
    pub fn next(&mut self, input: &[u8]) -> (pull: Pull)
        ensures
            final(self)@.key == old(self)@.key,
            old(self).finished() ==> pull is End && final(self)@.state == old(self)@.state
                && final(self).finished(),
            !old(self).finished() ==> {
                &&& (final(self)@.state, outcome_of_pull(pull)) == on_bytes(
                    old(self)@.key,
                    old(self)@.state,
                    input@,
                    nonce_of(final(self)@.state),
                )
                &&& final(self).finished() == ends(outcome_of_pull(pull))
            },
    {
        if self.finished {
            return Pull::End;
        }
        let frame_event = match self.next_frame(input) {
            Ok(event) => event,
            Err(error) => {
                self.finished = true;
                return Pull::Item(Err(error));
            },
        };
        match frame_event {
            FrameEvent::Closed => {
                self.finished = true;
                Pull::End
            },
            FrameEvent::Open(reply) => Pull::Again(reply),
            FrameEvent::Message(m) => Pull::Item(Ok(Event::PasteEvent(m))),
            FrameEvent::Exec(m) => Pull::Item(Ok(Event::ExecEvent(m))),
        }
    }
}

} // verus!
