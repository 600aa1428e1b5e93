//! What holds of a client and a server that talk to each other, and a whole
//! exchange between the two without a network in between.
use vstd::prelude::*;
use vstd::slice::slice_subrange;
use vstd::string::StringSliceAdditionalSpecFns;
use vstd::utf8::{encode_utf8, encode_utf8_decode_utf8, encode_utf8_valid_utf8};

use crate::cipher::{sealable, sealed, seals, unsealed, Cipher, TAG_SIZE};
use crate::client::{closing_frame, message_frame, sent, Client, ClientError};
use crate::frame::{
    decode, lemma_decode_encode, lemma_encode_len, FrameError, FrameView, NetFrame,
    NetFrameType, HEADER_SIZE,
};
use crate::nonce::{be_value, lemma_consume_twice, lemma_successor_differs, pow256, successor};
use crate::server::connection::{
    ends, nonce_of, on_bytes, on_frame, on_message, Connection, Event, Outcome, Pull,
};
use crate::server::error::ServerError;
use crate::{close_marker, StateView, KEY_SIZE, NOUNCE_SIZE};

verus! {

/// A message frame that arrives before the handshake is refused as out of
/// place: the connection stays new and nothing is yielded.
pub proof fn lemma_message_before_open(key: Seq<u8>, frame: FrameView, fresh: Seq<u8>)
    requires
        frame.frame_type is CopyMessage || frame.frame_type is ExecMessage,
    ensures
        on_frame(key, StateView::New, frame, fresh) == (
            StateView::New,
            Outcome::Failed(ServerError::InvalidState),
        ),
{
}

/// No frame is accepted on a closed connection, and a second Open is refused
/// on an opened one.
pub proof fn lemma_out_of_place(key: Seq<u8>, state: StateView, frame: FrameView, fresh: Seq<u8>)
    requires
        state is Closed || (state is Opened && frame.frame_type is Open),
    ensures
        on_frame(key, state, frame, fresh) == (state, Outcome::Failed(ServerError::InvalidState)),
{
}

/// A frame either fails and leaves the connection where it stood, or moves
/// it forward: from new to opened, from opened to the next nonce or to
/// closed. A message is yielded only by an opened connection, which then
/// stands at the next nonce.
pub proof fn lemma_step(key: Seq<u8>, state: StateView, frame: FrameView, fresh: Seq<u8>)
    ensures
        ({
            let (next, outcome) = on_frame(key, state, frame, fresh);
            match outcome {
                Outcome::Failed(_) => next == state,
                Outcome::Reply(_) => state is New && next == StateView::Opened(fresh),
                Outcome::Paste(_) | Outcome::Exec(_) => state matches StateView::Opened(nonce)
                    && next == StateView::Opened(successor(nonce)),
                Outcome::Closed => state is Opened && next is Closed,
            }
        }),
{
}

/// A frame whose payload the cipher refuses ends in a decryption error:
/// nothing of the payload is yielded, the connection stays at its nonce, and
/// the event sequence is over with that error. This holds of the frame and of
/// every byte string that decodes to it. That the cipher refuses a payload
/// of which a byte was changed is the cipher's own property, and is not
/// claimed here.
pub proof fn lemma_refused_message(
    key: Seq<u8>,
    nonce: Seq<u8>,
    frame: FrameView,
    bytes: Seq<u8>,
    fresh: Seq<u8>,
)
    requires
        frame.frame_type is CopyMessage || frame.frame_type is ExecMessage || frame.frame_type
            is Close,
        unsealed(key, nonce, frame.payload) is None,
        decode(bytes) == Ok::<FrameView, FrameError>(frame),
    ensures
        on_frame(key, StateView::Opened(nonce), frame, fresh) == (
            StateView::Opened(nonce),
            Outcome::Failed(ServerError::Decryption),
        ),
        on_bytes(key, StateView::Opened(nonce), bytes, fresh) == (
            StateView::Opened(nonce),
            Outcome::Failed(ServerError::Decryption),
        ),
        ends(on_bytes(key, StateView::Opened(nonce), bytes, fresh).1),
{
}

/// The handshake: a new server answers the client's Open frame with an Open
/// frame that holds the nonce it is at from then on, and the client reads
/// that nonce back from the answer.
pub proof fn lemma_handshake(key: Seq<u8>, nonce: Seq<u8>)
    requires
        nonce.len() == NOUNCE_SIZE,
    ensures
        ({
            let request = FrameView::of(NetFrameType::Open, Seq::empty()).encode();
            let answer = FrameView::of(NetFrameType::Open, nonce);
            &&& on_bytes(key, StateView::New, request, nonce) == (
                StateView::Opened(nonce),
                Outcome::Reply(answer.encode()),
            )
            &&& decode(answer.encode()) == Ok::<FrameView, FrameError>(answer)
        }),
{
    let request = FrameView::of(NetFrameType::Open, Seq::empty());
    let answer = FrameView::of(NetFrameType::Open, nonce);
    lemma_decode_encode(request, Seq::empty());
    lemma_decode_encode(answer, Seq::empty());
}

/// Two messages in a row are opened under two nonces that differ, the second
/// the successor of the first; after them the counter stands two higher,
/// modulo 2^96.
pub proof fn lemma_nonces_advance(
    key: Seq<u8>,
    nonce: Seq<u8>,
    first: Seq<u8>,
    second: Seq<u8>,
)
    requires
        nonce.len() == NOUNCE_SIZE,
        unsealed(key, nonce, first) is Some,
        unsealed(key, successor(nonce), second) is Some,
    ensures
        successor(nonce) != nonce,
        on_message(key, StateView::Opened(nonce), first) matches Ok((after_first, _)) && {
            &&& after_first == StateView::Opened(successor(nonce))
            &&& on_message(key, after_first, second) matches Ok((after_second, _))
            &&& after_second == StateView::Opened(successor(successor(nonce)))
        },
        be_value(successor(successor(nonce))) == (be_value(nonce) + 2) % pow256(12),
{
    lemma_successor_differs(nonce);
    lemma_consume_twice(nonce);
}

/// Two messages that a client sends in a row, each within the length that
/// the cipher takes, are both sent. The first frame holds the first message
/// sealed under the nonce, the second frame the second message sealed under
/// its successor, which is another nonce; the client then stands two steps
/// on.
pub proof fn lemma_two_messages(key: Seq<u8>, nonce: Seq<u8>, first: Seq<u8>, second: Seq<u8>)
    requires
        nonce.len() == NOUNCE_SIZE,
        sealable(first.len()),
        sealable(second.len()),
    ensures
        successor(nonce) != nonce,
        sent(key, StateView::Opened(nonce), first) == Some(
            (
                StateView::Opened(successor(nonce)),
                FrameView::of(NetFrameType::CopyMessage, sealed(key, nonce, first)).encode(),
            ),
        ),
        sent(key, StateView::Opened(successor(nonce)), second) == Some(
            (
                StateView::Opened(successor(successor(nonce))),
                FrameView::of(
                    NetFrameType::CopyMessage,
                    sealed(key, successor(nonce), second),
                ).encode(),
            ),
        ),
        be_value(successor(successor(nonce))) == (be_value(nonce) + 2) % pow256(12),
{
    lemma_successor_differs(nonce);
    lemma_consume_twice(nonce);
}

/// A frame that is taken once and then comes again, byte for byte, meets a
/// server that has moved on to the next nonce. Where the cipher refuses the
/// payload under that nonce, the second arrival ends in a decryption error
/// and yields nothing. That the cipher refuses it is the cipher's own
/// property, and is not claimed here.
pub proof fn lemma_replayed_message(key: Seq<u8>, nonce: Seq<u8>, frame: FrameView, fresh: Seq<u8>)
    requires
        nonce.len() == NOUNCE_SIZE,
        frame.frame_type is CopyMessage || frame.frame_type is ExecMessage,
        unsealed(key, nonce, frame.payload) is Some,
        unsealed(key, successor(nonce), frame.payload) is None,
    ensures
        successor(nonce) != nonce,
        ({
            let (after_first, first) = on_frame(key, StateView::Opened(nonce), frame, fresh);
            let (after_second, second) = on_frame(key, after_first, frame, fresh);
            &&& first is Paste || first is Exec
            &&& after_first == StateView::Opened(successor(nonce))
            &&& second == Outcome::Failed(ServerError::Decryption)
            &&& after_second == after_first
        }),
{
    lemma_successor_differs(nonce);
}

/// The message frame and the close frame that a client at `nonce` sends for
/// a text, taken in turn by a server at the same nonce and with the same key,
/// yield that text once, for the clipboard, and then the end of the sequence.
/// The cipher is taken to open what it sealed, as `Client::send` says of
/// every output that it returns.
pub proof fn lemma_exchange(key: Seq<u8>, nonce: Seq<u8>, text: Seq<char>, fresh: Seq<u8>)
    requires
        nonce.len() == NOUNCE_SIZE,
        sealable(encode_utf8(text).len()),
        seals(key, nonce, encode_utf8(text), sealed(key, nonce, encode_utf8(text))),
        seals(
            key,
            successor(nonce),
            close_marker(),
            sealed(key, successor(nonce), close_marker()),
        ),
    ensures
        ({
            let message = encode_utf8(text);
            let output = message_frame(key, nonce, message) + closing_frame(
                key,
                successor(nonce),
            );
            let (after_message, yielded) = on_bytes(key, StateView::Opened(nonce), output, fresh);
            let rest = output.subrange(
                message_frame(key, nonce, message).len() as int,
                output.len() as int,
            );
            let (after_close, end) = on_bytes(key, after_message, rest, fresh);
            &&& yielded == Outcome::Paste(text)
            &&& after_message == StateView::Opened(successor(nonce))
            &&& rest == closing_frame(key, successor(nonce))
            &&& end == Outcome::Closed
            &&& after_close == StateView::Closed
        }),
{
    let message = encode_utf8(text);
    let first = FrameView::of(NetFrameType::CopyMessage, sealed(key, nonce, message));
    let last = FrameView::of(
        NetFrameType::Close,
        sealed(key, successor(nonce), close_marker()),
    );
    let output = first.encode() + last.encode();
    assert(first.canonical());
    assert(last.canonical());
    lemma_decode_encode(first, last.encode());
    lemma_decode_encode(last, Seq::empty());
    assert(output.subrange(first.encode().len() as int, output.len() as int) =~= last.encode());
    encode_utf8_valid_utf8(text);
    encode_utf8_decode_utf8(text);
}

/// What a whole exchange came to on the server's side.
#[derive(Debug)]
pub struct Delivery {
    /// The events that the server yielded, in their order.
    pub events: Vec<Event>,
    /// The server's event sequence ended with the close frame.
    pub closed: bool,
}

/// One whole exchange in memory: a client with the secret `key` sends
/// `message` to a server with the same secret, and each end is handed what
/// the other wrote. The server yields the message once, as a paste event, and
/// then its event sequence ends on the close frame. Only a message that the
/// cipher refuses for its length makes the exchange fail.
pub fn loopback(key: &[u8], message: &str) -> (delivered: Result<Delivery, ClientError>)
    requires
        key@.len() == KEY_SIZE,
    ensures
        sealable(encode_utf8(message@).len()) ==> (delivered matches Ok(delivery) && {
            &&& delivery.events@.len() == 1
            &&& delivery.events@[0] matches Event::PasteEvent(event) && event.payload@ == message@
            &&& delivery.closed
        }),
        !sealable(encode_utf8(message@).len()) ==> delivered matches Err(ClientError::Encryption),
{
    let mut client = Client::new("loopback", key);
    let mut connection = Connection::new(Cipher::new(key));
    let mut events: Vec<Event> = Vec::new();

    let request = NetFrame::open_frame().to_net();
    proof {
        lemma_decode_encode(FrameView::of(NetFrameType::Open, Seq::empty()), Seq::empty());
    }
    let response = match connection.next(request.as_slice()) {
        Pull::Again(reply) => reply,
        // Never taken: a new connection answers an Open frame.
        _ => {
            return Err(ClientError::ParsingError);
        },
    };
    let ghost nonce = nonce_of(connection@.state);
    let ghost text = encode_utf8(message@);
    proof {
        connection.lemma_wf();
        lemma_handshake(key@, nonce);
        assert(decode(response@) == Ok::<FrameView, FrameError>(
            FrameView::of(NetFrameType::Open, nonce),
        ));
    }
    let output = match client.send(response.as_slice(), message.as_bytes()) {
        Ok(output) => output,
        Err(error) => {
            return Err(error);
        },
    };
    assert(sealable(text.len()));
    assert(output@ == message_frame(key@, nonce, text) + closing_frame(key@, successor(nonce)));
    proof {
        lemma_exchange(key@, nonce, message@, nonce);
        lemma_encode_len(FrameView::of(NetFrameType::CopyMessage, sealed(key@, nonce, text)));
        assert(message_frame(key@, nonce, text).len() == HEADER_SIZE + text.len() + TAG_SIZE);
        assert(output@.len() >= HEADER_SIZE + text.len() + TAG_SIZE);
    }
    match connection.next(output.as_slice()) {
        Pull::Item(Ok(event)) => {
            events.push(event);
        },
        _ => {},
    }
    let sent = HEADER_SIZE + message.as_bytes().len() + TAG_SIZE;
    let rest = slice_subrange(output.as_slice(), sent, output.len());
    let closed = match connection.next(rest) {
        Pull::End => true,
        _ => false,
    };
    Ok(Delivery { events, closed })
}

} // verus!
