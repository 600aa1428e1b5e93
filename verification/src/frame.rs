//! The frame codec: a fixed header of sixteen bytes, then the payload.
//!
//! ```text
//! | 0 | 1 | 2 | 3 | 4 | 5 | 6 | 7 |
//! | ----------------------------- |
//! | prot version  | frame_size... |
//! | ...frame_size | frame_type    |
//! | ----------------------------- |
//! |             payload           |
//! | ----------------------------- |
//! ```
//!
//! Integers are little-endian. `frame_size` counts the header and the payload.
use vstd::prelude::*;
use vstd::slice::{slice_subrange, slice_to_vec};

use crate::nonce::{pow256, Nonce};
use crate::{NOUNCE_SIZE, PROTOCOL_VERSION};

verus! {

/// Width of the protocol version on the wire.
pub const PROTOCOL_VERSION_SIZE: usize = 4;

/// Width of the frame size on the wire.
pub const FRAME_SIZE_SIZE: usize = 8;

/// Width of the frame type on the wire.
pub const FRAME_TYPE_SIZE: usize = 4;

/// Width of the whole header.
pub const HEADER_SIZE: usize = 16;

/// The `len` bytes that spell `value` in base 256, the first byte least
/// significant.
pub open spec fn le_bytes(value: nat, len: nat) -> Seq<u8>
    decreases len,
{
    if len == 0 {
        Seq::empty()
    } else {
        seq![(value % 256) as u8] + le_bytes(value / 256, (len - 1) as nat)
    }
}

/// The number that `bytes` spell in base 256, the first byte least significant.
pub open spec fn le_value(bytes: Seq<u8>) -> nat
    decreases bytes.len(),
{
    if bytes.len() == 0 {
        0
    } else {
        bytes[0] as nat + 256 * le_value(bytes.drop_first())
    }
}

pub proof fn lemma_le_bytes_len(value: nat, len: nat)
    ensures
        le_bytes(value, len).len() == len,
    decreases len,
{
    if len > 0 {
        lemma_le_bytes_len(value / 256, (len - 1) as nat);
    }
}

pub proof fn lemma_le_value_bound(bytes: Seq<u8>)
    ensures
        le_value(bytes) < pow256(bytes.len()),
    decreases bytes.len(),
{
    if bytes.len() > 0 {
        lemma_le_value_bound(bytes.drop_first());
    }
}

/// Reading the spelling of a value that fits gives the value back.
pub proof fn lemma_le_value_of_bytes(value: nat, len: nat)
    requires
        value < pow256(len),
    ensures
        le_value(le_bytes(value, len)) == value,
    decreases len,
{
    if len > 0 {
        let rest = le_bytes(value / 256, (len - 1) as nat);
        lemma_le_value_of_bytes(value / 256, (len - 1) as nat);
        assert(le_bytes(value, len).drop_first() =~= rest);
    }
}

/// What a frame is for.
#[derive(Debug, Clone, Copy, PartialEq, Eq, Structural)]
pub enum NetFrameType {
    /// Open a new connection.
    Open,
    /// Close the connection.
    Close,
    /// A message for the clipboard.
    CopyMessage,
    /// A message for the configured command.
    ExecMessage,
}

impl NetFrameType {
    /// The number that stands for the type on the wire.
    pub open spec fn code(self) -> u32 {
        match self {
            NetFrameType::Open => 0,
            NetFrameType::Close => 1,
            NetFrameType::CopyMessage => 2,
            NetFrameType::ExecMessage => 3,
        }
    }

    /// The type that a number stands for, if any.
    pub open spec fn of_code(code: nat) -> Option<NetFrameType> {
        if code == 0 {
            Some(NetFrameType::Open)
        } else if code == 1 {
            Some(NetFrameType::Close)
        } else if code == 2 {
            Some(NetFrameType::CopyMessage)
        } else if code == 3 {
            Some(NetFrameType::ExecMessage)
        } else {
            None
        }
    }

    pub fn to_u32(&self) -> (code: u32)
        ensures
            code == self.code(),
    {
        match self {
            NetFrameType::Open => 0,
            NetFrameType::Close => 1,
            NetFrameType::CopyMessage => 2,
            NetFrameType::ExecMessage => 3,
        }
    }

    pub fn from_u32(code: u32) -> (frame_type: Option<NetFrameType>)
        ensures
            frame_type == NetFrameType::of_code(code as nat),
    {
        match code {
            0 => Some(NetFrameType::Open),
            1 => Some(NetFrameType::Close),
            2 => Some(NetFrameType::CopyMessage),
            3 => Some(NetFrameType::ExecMessage),
            _ => None,
        }
    }
}

/// Why a byte string is not a frame.
#[derive(Debug, Clone, Copy, PartialEq, Eq, Structural)]
pub enum FrameError {
    /// The bytes end before the header or the declared payload does.
    EndOfStream,
    /// The peer speaks another version of the protocol.
    UnsupportedVersion,
    /// The declared size is smaller than a header.
    InvalidFrameSize,
    /// The type code stands for no frame type.
    InvalidFrameType,
}

/// A frame as contracts see it.
pub struct FrameView {
    pub protocol_version: u32,
    pub frame_size: u64,
    pub frame_type: NetFrameType,
    pub payload: Seq<u8>,
}

impl FrameView {
    /// The frame of the current protocol version whose size is that of its
    /// header and payload.
    pub open spec fn of(frame_type: NetFrameType, payload: Seq<u8>) -> FrameView {
        FrameView {
            protocol_version: PROTOCOL_VERSION,
            frame_size: (HEADER_SIZE + payload.len()) as u64,
            frame_type,
            payload,
        }
    }

    /// The frame is one that the constructors make.
    pub open spec fn canonical(self) -> bool {
        &&& self.protocol_version == PROTOCOL_VERSION
        &&& self.frame_size == HEADER_SIZE + self.payload.len()
    }

    /// The frame on the wire.
    pub open spec fn encode(self) -> Seq<u8> {
        le_bytes(self.protocol_version as nat, 4) + le_bytes(self.frame_size as nat, 8) + le_bytes(
            self.frame_type.code() as nat,
            4,
        ) + self.payload
    }
}

/// The protocol version that a header declares.
pub open spec fn header_version(bytes: Seq<u8>) -> nat {
    le_value(bytes.subrange(0, 4))
}

/// The frame size that a header declares.
pub open spec fn header_frame_size(bytes: Seq<u8>) -> nat {
    le_value(bytes.subrange(4, 12))
}

/// The type code that a header declares.
pub open spec fn header_type_code(bytes: Seq<u8>) -> nat {
    le_value(bytes.subrange(12, 16))
}

/// The frame at the front of `bytes`, or why there is none. What follows the
/// frame is left alone.
pub open spec fn decode(bytes: Seq<u8>) -> Result<FrameView, FrameError> {
    if bytes.len() < HEADER_SIZE {
        Err(FrameError::EndOfStream)
    } else if header_version(bytes) != PROTOCOL_VERSION {
        Err(FrameError::UnsupportedVersion)
    } else if header_frame_size(bytes) < HEADER_SIZE {
        Err(FrameError::InvalidFrameSize)
    } else if bytes.len() < header_frame_size(bytes) {
        Err(FrameError::EndOfStream)
    } else {
        match NetFrameType::of_code(header_type_code(bytes)) {
            None => Err(FrameError::InvalidFrameType),
            Some(frame_type) => Ok(
                FrameView {
                    protocol_version: PROTOCOL_VERSION,
                    frame_size: header_frame_size(bytes) as u64,
                    frame_type,
                    payload: bytes.subrange(HEADER_SIZE as int, header_frame_size(bytes) as int),
                },
            ),
        }
    }
}

proof fn lemma_pow256_values()
    ensures
        pow256(4) == 0x1_0000_0000,
        pow256(7) == 0x100_0000_0000_0000,
        pow256(8) == 0x1_0000_0000_0000_0000,
{
    reveal_with_fuel(pow256, 9);
}

proof fn lemma_pow256_monotonic(a: nat, b: nat)
    requires
        a <= b,
    ensures
        pow256(a) <= pow256(b),
    decreases b,
{
    if a < b {
        lemma_pow256_monotonic(a, (b - 1) as nat);
    }
}

/// Each header field fits the integer type that the frame holds it in.
pub proof fn lemma_header_bounds(bytes: Seq<u8>)
    requires
        bytes.len() >= HEADER_SIZE,
    ensures
        header_version(bytes) <= u32::MAX,
        header_frame_size(bytes) <= u64::MAX,
        header_type_code(bytes) <= u32::MAX,
{
    lemma_pow256_values();
    lemma_le_value_bound(bytes.subrange(0, 4));
    lemma_le_value_bound(bytes.subrange(4, 12));
    lemma_le_value_bound(bytes.subrange(12, 16));
}

/// An encoded frame is a header longer than its payload.
pub proof fn lemma_encode_len(frame: FrameView)
    ensures
        frame.encode().len() == HEADER_SIZE + frame.payload.len(),
{
    lemma_le_bytes_len(frame.protocol_version as nat, 4);
    lemma_le_bytes_len(frame.frame_size as nat, 8);
    lemma_le_bytes_len(frame.frame_type.code() as nat, 4);
}

// The header fields of an encoded frame followed by anything.
proof fn lemma_header_of_encoding(frame: FrameView, rest: Seq<u8>)
    ensures
        (frame.encode() + rest).len() == HEADER_SIZE + frame.payload.len() + rest.len(),
        header_version(frame.encode() + rest) == frame.protocol_version,
        header_frame_size(frame.encode() + rest) == frame.frame_size,
        header_type_code(frame.encode() + rest) == frame.frame_type.code(),
        (frame.encode() + rest).subrange(
            HEADER_SIZE as int,
            HEADER_SIZE + frame.payload.len(),
        ) == frame.payload,
{
    let version = le_bytes(frame.protocol_version as nat, 4);
    let size = le_bytes(frame.frame_size as nat, 8);
    let code = le_bytes(frame.frame_type.code() as nat, 4);
    let bytes = frame.encode() + rest;
    lemma_le_bytes_len(frame.protocol_version as nat, 4);
    lemma_le_bytes_len(frame.frame_size as nat, 8);
    lemma_le_bytes_len(frame.frame_type.code() as nat, 4);
    lemma_pow256_values();
    lemma_le_value_of_bytes(frame.protocol_version as nat, 4);
    lemma_le_value_of_bytes(frame.frame_size as nat, 8);
    lemma_le_value_of_bytes(frame.frame_type.code() as nat, 4);
    assert(bytes.subrange(0, 4) =~= version);
    assert(bytes.subrange(4, 12) =~= size);
    assert(bytes.subrange(12, 16) =~= code);
    assert(bytes.subrange(HEADER_SIZE as int, HEADER_SIZE + frame.payload.len())
        =~= frame.payload);
}

/// Decoding an encoded frame gives the frame back, whatever follows it on the
/// wire. This holds of every frame type and of the empty payload.
pub proof fn lemma_decode_encode(frame: FrameView, rest: Seq<u8>)
    requires
        frame.canonical(),
    ensures
        decode(frame.encode() + rest) == Ok::<FrameView, FrameError>(frame),
        decode(frame.encode()) == Ok::<FrameView, FrameError>(frame),
{
    lemma_header_of_encoding(frame, rest);
    lemma_header_of_encoding(frame, Seq::empty());
    assert(frame.encode() + Seq::<u8>::empty() =~= frame.encode());
    assert(NetFrameType::of_code(frame.frame_type.code() as nat) == Some(frame.frame_type));
}

/// A frame cut short, in its header or in its payload, decodes to the end of
/// the stream.
pub proof fn lemma_decode_truncated(frame: FrameView, kept: int)
    requires
        frame.canonical(),
        0 <= kept < frame.encode().len(),
    ensures
        decode(frame.encode().subrange(0, kept)) == Err::<FrameView, FrameError>(
            FrameError::EndOfStream,
        ),
{
    let whole = frame.encode();
    let cut = whole.subrange(0, kept);
    lemma_header_of_encoding(frame, Seq::empty());
    assert(whole + Seq::<u8>::empty() =~= whole);
    if kept >= HEADER_SIZE {
        assert(cut.subrange(0, 4) =~= whole.subrange(0, 4));
        assert(cut.subrange(4, 12) =~= whole.subrange(4, 12));
    }
}

// Appends the `width` low bytes of `value`, least significant first.
fn push_le(out: &mut Vec<u8>, value: u64, width: usize)
    ensures
        final(out)@ == old(out)@ + le_bytes(value as nat, width as nat),
{
    let mut rest: u64 = value;
    let mut done: usize = 0;
    while done < width
        invariant
            done <= width,
            out@ + le_bytes(rest as nat, (width - done) as nat) == old(out)@ + le_bytes(
                value as nat,
                width as nat,
            ),
        decreases width - done,
    {
        let ghost before = out@;
        let ghost tail = le_bytes((rest / 256) as nat, (width - done - 1) as nat);
        out.push((rest % 256) as u8);
        assert(out@ + tail =~= before + le_bytes(rest as nat, (width - done) as nat));
        rest = rest / 256;
        done += 1;
    }
    assert(out@ + le_bytes(rest as nat, 0) =~= out@);
}

// Reads `width` bytes at `offset`, least significant first.
fn read_le(bytes: &[u8], offset: usize, width: usize) -> (value: u64)
    requires
        width <= 8,
        offset + width <= bytes@.len(),
    ensures
        value == le_value(bytes@.subrange(offset as int, offset + width)),
{
    let total = bytes.len();
    let mut value: u64 = 0;
    let mut left: usize = width;
    while left > 0
        invariant
            left <= width <= 8,
            offset + width <= total == bytes@.len(),
            value == le_value(bytes@.subrange(offset + left, offset + width)),
        decreases left,
    {
        let ghost higher = bytes@.subrange(offset + left, offset + width);
        left -= 1;
        let ghost lower = bytes@.subrange(offset + left, offset + width);
        proof {
            lemma_le_value_bound(higher);
            lemma_pow256_monotonic(higher.len(), 7);
            lemma_pow256_values();
            assert(lower.drop_first() =~= higher);
        }
        value = value * 256 + bytes[offset + left] as u64;
    }
    value
}

/// The protocol version at the front of a header. It must be the current one.
pub fn read_protocol_version(header: &[u8]) -> (version: Result<u32, FrameError>)
    ensures
        version == if header@.len() < PROTOCOL_VERSION_SIZE {
            Err::<u32, FrameError>(FrameError::EndOfStream)
        } else if header_version(header@) != PROTOCOL_VERSION {
            Err::<u32, FrameError>(FrameError::UnsupportedVersion)
        } else {
            Ok::<u32, FrameError>(PROTOCOL_VERSION)
        },
{
    if header.len() < PROTOCOL_VERSION_SIZE {
        return Err(FrameError::EndOfStream);
    }
    let protocol_version = read_le(header, 0, PROTOCOL_VERSION_SIZE);
    if protocol_version != PROTOCOL_VERSION as u64 {
        Err(FrameError::UnsupportedVersion)
    } else {
        Ok(PROTOCOL_VERSION)
    }
}

/// The frame size that a header declares, behind the protocol version: the
/// length of the header and of the payload that follows it, whatever it is.
pub fn read_frame_size(header: &[u8]) -> (size: Result<u64, FrameError>)
    ensures
        size == if header@.len() < PROTOCOL_VERSION_SIZE + FRAME_SIZE_SIZE {
            Err::<u64, FrameError>(FrameError::EndOfStream)
        } else {
            Ok::<u64, FrameError>(header_frame_size(header@) as u64)
        },
{
    if header.len() < PROTOCOL_VERSION_SIZE + FRAME_SIZE_SIZE {
        return Err(FrameError::EndOfStream);
    }
    Ok(read_le(header, PROTOCOL_VERSION_SIZE, FRAME_SIZE_SIZE))
}

/// The frame type that the first bytes of `payload` spell: what follows the
/// protocol version and the frame size on the wire.
pub fn read_frame_type(payload: &[u8]) -> (frame_type: Result<NetFrameType, FrameError>)
    ensures
        frame_type == if payload@.len() < FRAME_TYPE_SIZE {
            Err::<NetFrameType, FrameError>(FrameError::EndOfStream)
        } else {
            match NetFrameType::of_code(le_value(payload@.subrange(0, 4))) {
                Some(t) => Ok::<NetFrameType, FrameError>(t),
                None => Err::<NetFrameType, FrameError>(FrameError::InvalidFrameType),
            }
        },
{
    if payload.len() < FRAME_TYPE_SIZE {
        return Err(FrameError::EndOfStream);
    }
    let frame_type_num = read_le(payload, 0, FRAME_TYPE_SIZE);
    proof {
        lemma_pow256_values();
        lemma_le_value_bound(payload@.subrange(0, 4));
    }
    match NetFrameType::from_u32(frame_type_num as u32) {
        Some(ft) => Ok(ft),
        None => Err(FrameError::InvalidFrameType),
    }
}

/// The number of payload bytes that follow a header: what the declared frame
/// size leaves once the header is taken off. The header must be whole and of
/// the current version, and the size no smaller than a header.
pub fn read_payload_size(header: &[u8]) -> (size: Result<u64, FrameError>)
    ensures
        size == if header@.len() < HEADER_SIZE {
            Err::<u64, FrameError>(FrameError::EndOfStream)
        } else if header_version(header@) != PROTOCOL_VERSION {
            Err::<u64, FrameError>(FrameError::UnsupportedVersion)
        } else if header_frame_size(header@) < HEADER_SIZE {
            Err::<u64, FrameError>(FrameError::InvalidFrameSize)
        } else {
            Ok::<u64, FrameError>((header_frame_size(header@) - HEADER_SIZE) as u64)
        },
{
    if header.len() < HEADER_SIZE {
        return Err(FrameError::EndOfStream);
    }
    proof {
        lemma_header_bounds(header@);
    }
    match read_protocol_version(header) {
        Ok(_) => {},
        Err(e) => {
            return Err(e);
        },
    }
    let frame_size = match read_frame_size(header) {
        Ok(s) => s,
        Err(e) => {
            return Err(e);
        },
    };
    if frame_size < HEADER_SIZE as u64 {
        return Err(FrameError::InvalidFrameSize);
    }
    Ok(frame_size - HEADER_SIZE as u64)
}

/// The unit of transmission.
#[derive(Debug)]
pub struct NetFrame {
    /// Version of the protocol that the frame is written in.
    pub protocol_version: u32,
    /// Length of the header and the payload.
    pub frame_size: u64,
    /// What the frame is for.
    pub frame_type: NetFrameType,
    /// Empty, a nonce or a ciphertext, by the frame type.
    pub payload: Vec<u8>,
}

impl View for NetFrame {
    type V = FrameView;

    open spec fn view(&self) -> FrameView {
        FrameView {
            protocol_version: self.protocol_version,
            frame_size: self.frame_size,
            frame_type: self.frame_type,
            payload: self.payload@,
        }
    }
}

impl NetFrame {
    /// A frame of the current protocol version around `payload`.
    pub fn new(frame_type: NetFrameType, payload: Vec<u8>) -> (frame: NetFrame)
        requires
            HEADER_SIZE + payload@.len() <= u64::MAX,
        ensures
            frame@ == FrameView::of(frame_type, payload@),
            frame@.canonical(),
    {
        NetFrame {
            protocol_version: PROTOCOL_VERSION,
            frame_size: NetFrame::compute_frame_size(payload.as_slice()),
            frame_type,
            payload,
        }
    }

    /// The frame as the bytes that go on the wire.
    pub fn to_net(&self) -> (bytes: Vec<u8>)
        ensures
            bytes@ == self@.encode(),
    {
        let mut vector: Vec<u8> = Vec::new();
        push_le(&mut vector, self.protocol_version as u64, PROTOCOL_VERSION_SIZE);
        push_le(&mut vector, self.frame_size, FRAME_SIZE_SIZE);
        push_le(&mut vector, self.frame_type.to_u32() as u64, FRAME_TYPE_SIZE);
        let mut i: usize = 0;
        while i < self.payload.len()
            invariant
                i <= self.payload@.len(),
                vector@ == le_bytes(self.protocol_version as nat, 4) + le_bytes(
                    self.frame_size as nat,
                    8,
                ) + le_bytes(self.frame_type.code() as nat, 4) + self.payload@.subrange(0, i as int),
            decreases self.payload@.len() - i,
        {
            vector.push(self.payload[i]);
            i += 1;
        }
        assert(self.payload@.subrange(0, i as int) =~= self.payload@);
        vector
    }

    /// Reads the frame at the front of `bytes`: the header, then as many
    /// payload bytes as the header declares. Bytes behind the frame are not
    /// looked at.
    pub fn from_net(bytes: &[u8]) -> (frame: Result<NetFrame, FrameError>)
        ensures
            decode(bytes@) == match frame {
                Ok(f) => Ok::<FrameView, FrameError>(f@),
                Err(e) => Err::<FrameView, FrameError>(e),
            },
    {
        if bytes.len() < HEADER_SIZE {
            return Err(FrameError::EndOfStream);
        }
        proof {
            lemma_header_bounds(bytes@);
        }
        let protocol_version = match read_protocol_version(bytes) {
            Ok(v) => v,
            Err(e) => {
                return Err(e);
            },
        };
        let frame_size = match read_frame_size(bytes) {
            Ok(s) => s,
            Err(e) => {
                return Err(e);
            },
        };
        if frame_size < HEADER_SIZE as u64 {
            return Err(FrameError::InvalidFrameSize);
        }
        if frame_size > bytes.len() as u64 {
            return Err(FrameError::EndOfStream);
        }
        let behind_size = slice_subrange(
            bytes,
            PROTOCOL_VERSION_SIZE + FRAME_SIZE_SIZE,
            bytes.len(),
        );
        assert(behind_size@.subrange(0, 4) =~= bytes@.subrange(12, 16));
        let frame_type = match read_frame_type(behind_size) {
            Ok(t) => t,
            Err(e) => {
                return Err(e);
            },
        };
        let payload = slice_to_vec(slice_subrange(bytes, HEADER_SIZE, frame_size as usize));
        Ok(NetFrame { protocol_version, frame_size, frame_type, payload })
    }

    /// The frame that ends a connection. Its payload is the sealed close marker.
    pub fn close_frame(payload: Vec<u8>) -> (frame: NetFrame)
        requires
            HEADER_SIZE + payload@.len() <= u64::MAX,
        ensures
            frame@ == FrameView::of(NetFrameType::Close, payload@),
    {
        NetFrame {
            protocol_version: PROTOCOL_VERSION,
            frame_size: NetFrame::compute_frame_size(payload.as_slice()),
            frame_type: NetFrameType::Close,
            payload,
        }
    }

    /// The frame by which a client asks for a connection.
    pub fn open_frame() -> (frame: NetFrame)
        ensures
            frame@ == FrameView::of(NetFrameType::Open, Seq::empty()),
    {
        let payload: Vec<u8> = Vec::new();
        NetFrame {
            protocol_version: PROTOCOL_VERSION,
            frame_size: NetFrame::compute_frame_size(payload.as_slice()),
            frame_type: NetFrameType::Open,
            payload,
        }
    }

    /// The frame by which a server grants a connection and names its nonce.
    pub fn nounce_frame(nounce: &Nonce) -> (frame: NetFrame)
        ensures
            frame@ == FrameView::of(NetFrameType::Open, nounce@),
            frame@.payload.len() == NOUNCE_SIZE,
    {
        broadcast use Nonce::lemma_len;

        let payload = slice_to_vec(nounce.cipher_nonce().as_slice());
        NetFrame {
            protocol_version: PROTOCOL_VERSION,
            frame_size: NetFrame::compute_frame_size(payload.as_slice()),
            frame_type: NetFrameType::Open,
            payload,
        }
    }

    /// The length of a frame around `payload`.
    pub fn compute_frame_size(payload: &[u8]) -> (size: u64)
        requires
            HEADER_SIZE + payload@.len() <= u64::MAX,
        ensures
            size == HEADER_SIZE + payload@.len(),
    {
        (PROTOCOL_VERSION_SIZE + FRAME_TYPE_SIZE + FRAME_SIZE_SIZE) as u64 + payload.len() as u64
    }
}

} // verus!
