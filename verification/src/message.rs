//! Length-prefixed message framing over an in-memory byte stream.
//!
//! A frame is an 8-byte big-endian length followed by exactly that many
//! payload bytes.  Each protocol message has a payload encoding, written
//! down as a spec function, and the exec code is proved to produce and
//! consume exactly those bytes.  The spec-level reader `spec_read_frame`
//! is total: every exec read is pinned to it, including every failure.

use vstd::prelude::*;

use crate::types::ClientMessage;
use crate::types::ConnectionMessage;
use crate::types::Endpoint;
use crate::types::ServerMessage;

verus! {

/// Why a wire operation failed.
#[derive(Clone, Copy, PartialEq, Eq, Structural, Debug)]
pub enum WireError {
    /// The stream held fewer bytes than one whole frame.
    ShortRead,
    /// The length prefix declares more than this platform can address.
    Oversized,
    /// The frame's payload does not decode as the expected message type.
    Malformed,
    /// The payload is too large to frame.
    TooLarge,
}

// ---------------------------------------------------------------------------
// Big-endian byte encodings of the fixed-width integers the wire format uses.
// ---------------------------------------------------------------------------

pub open spec fn spec_u16_to_be_bytes(x: u16) -> Seq<u8> {
    seq![((x >> 8) & 0xff) as u8, (x & 0xff) as u8]
}

pub open spec fn spec_u16_from_be_bytes(s: Seq<u8>) -> u16
    recommends
        s.len() == 2,
{
    ((s[0] as u16) << 8) | (s[1] as u16)
}

pub open spec fn spec_u32_to_be_bytes(x: u32) -> Seq<u8> {
    seq![
        ((x >> 24) & 0xff) as u8,
        ((x >> 16) & 0xff) as u8,
        ((x >> 8) & 0xff) as u8,
        (x & 0xff) as u8,
    ]
}

pub open spec fn spec_u32_from_be_bytes(s: Seq<u8>) -> u32
    recommends
        s.len() == 4,
{
    ((s[0] as u32) << 24) | ((s[1] as u32) << 16) | ((s[2] as u32) << 8) | (s[3] as u32)
}

pub open spec fn spec_u64_to_be_bytes(x: u64) -> Seq<u8> {
    seq![
        ((x >> 56) & 0xff) as u8,
        ((x >> 48) & 0xff) as u8,
        ((x >> 40) & 0xff) as u8,
        ((x >> 32) & 0xff) as u8,
        ((x >> 24) & 0xff) as u8,
        ((x >> 16) & 0xff) as u8,
        ((x >> 8) & 0xff) as u8,
        (x & 0xff) as u8,
    ]
}

pub open spec fn spec_u64_from_be_bytes(s: Seq<u8>) -> u64
    recommends
        s.len() == 8,
{
    ((s[0] as u64) << 56) | ((s[1] as u64) << 48) | ((s[2] as u64) << 40) | ((s[3] as u64) << 32)
        | ((s[4] as u64) << 24) | ((s[5] as u64) << 16) | ((s[6] as u64) << 8) | (s[7] as u64)
}

pub proof fn lemma_u16_be_bytes_roundtrip(x: u16)
    ensures
        spec_u16_to_be_bytes(x).len() == 2,
        spec_u16_from_be_bytes(spec_u16_to_be_bytes(x)) == x,
{
    assert(((((x >> 8) & 0xff) as u8 as u16) << 8) | ((x & 0xff) as u8 as u16) == x)
        by (bit_vector);
}

pub proof fn lemma_u16_be_bytes_inverse(s: Seq<u8>)
    requires
        s.len() == 2,
    ensures
        spec_u16_to_be_bytes(spec_u16_from_be_bytes(s)) == s,
{
    let b0 = s[0];
    let b1 = s[1];
    let x = spec_u16_from_be_bytes(s);
    assert(((x >> 8) & 0xff) as u8 == b0 && (x & 0xff) as u8 == b1) by (bit_vector)
        requires
            x == ((b0 as u16) << 8) | (b1 as u16),
    ;
    assert(spec_u16_to_be_bytes(x) =~= s);
}

pub proof fn lemma_u32_be_bytes_roundtrip(x: u32)
    ensures
        spec_u32_to_be_bytes(x).len() == 4,
        spec_u32_from_be_bytes(spec_u32_to_be_bytes(x)) == x,
{
    assert(((((x >> 24) & 0xff) as u8 as u32) << 24) | ((((x >> 16) & 0xff) as u8 as u32) << 16)
        | ((((x >> 8) & 0xff) as u8 as u32) << 8) | ((x & 0xff) as u8 as u32) == x)
        by (bit_vector);
}

pub proof fn lemma_u32_be_bytes_inverse(s: Seq<u8>)
    requires
        s.len() == 4,
    ensures
        spec_u32_to_be_bytes(spec_u32_from_be_bytes(s)) == s,
{
    let b0 = s[0];
    let b1 = s[1];
    let b2 = s[2];
    let b3 = s[3];
    let x = spec_u32_from_be_bytes(s);
    assert(((x >> 24) & 0xff) as u8 == b0 && ((x >> 16) & 0xff) as u8 == b1 && ((x >> 8) & 0xff)
        as u8 == b2 && (x & 0xff) as u8 == b3) by (bit_vector)
        requires
            x == ((b0 as u32) << 24) | ((b1 as u32) << 16) | ((b2 as u32) << 8) | (b3 as u32),
    ;
    assert(spec_u32_to_be_bytes(x) =~= s);
}

pub proof fn lemma_u64_be_bytes_roundtrip(x: u64)
    ensures
        spec_u64_to_be_bytes(x).len() == 8,
        spec_u64_from_be_bytes(spec_u64_to_be_bytes(x)) == x,
{
    assert(((((x >> 56) & 0xff) as u8 as u64) << 56) | ((((x >> 48) & 0xff) as u8 as u64) << 48)
        | ((((x >> 40) & 0xff) as u8 as u64) << 40) | ((((x >> 32) & 0xff) as u8 as u64) << 32)
        | ((((x >> 24) & 0xff) as u8 as u64) << 24) | ((((x >> 16) & 0xff) as u8 as u64) << 16)
        | ((((x >> 8) & 0xff) as u8 as u64) << 8) | ((x & 0xff) as u8 as u64) == x)
        by (bit_vector);
}

// ---------------------------------------------------------------------------
// Frames.
// ---------------------------------------------------------------------------

/// The bytes of one frame carrying `payload`.
pub open spec fn frame_of(payload: Seq<u8>) -> Seq<u8>
    recommends
        payload.len() <= u64::MAX,
{
    spec_u64_to_be_bytes(payload.len() as u64) + payload
}

/// The total reader for a stream `s`: either one frame's payload and the
/// bytes after it, or the exact reason nothing can be read.
pub open spec fn spec_read_frame(s: Seq<u8>) -> Result<(Seq<u8>, Seq<u8>), WireError> {
    if s.len() < 8 {
        Err(WireError::ShortRead)
    } else {
        let n = spec_u64_from_be_bytes(s.subrange(0, 8)) as int;
        if n > usize::MAX as int {
            Err(WireError::Oversized)
        } else if s.len() < 8 + n {
            Err(WireError::ShortRead)
        } else {
            Ok((s.subrange(8, 8 + n), s.subrange(8 + n, s.len() as int)))
        }
    }
}

/// Reading a stream that begins with a whole frame yields that frame's
/// payload and leaves exactly the bytes after it.
pub proof fn lemma_read_frame_of(payload: Seq<u8>, rest: Seq<u8>)
    requires
        payload.len() <= usize::MAX,
    ensures
        spec_read_frame(frame_of(payload) + rest) == Ok::<(Seq<u8>, Seq<u8>), WireError>(
            (payload, rest),
        ),
{
    let len64 = payload.len() as u64;
    let s = frame_of(payload) + rest;
    lemma_u64_be_bytes_roundtrip(len64);
    assert(s.subrange(0, 8) =~= spec_u64_to_be_bytes(len64));
    let n = spec_u64_from_be_bytes(s.subrange(0, 8)) as int;
    assert(n == payload.len());
    assert(s.subrange(8, 8 + n) =~= payload);
    assert(s.subrange(8 + n, s.len() as int) =~= rest);
}

/// Short-read rejection: a stream holding any strict prefix of a frame is
/// refused with `ShortRead` — never answered with a truncated payload.
pub proof fn lemma_short_read_rejected(payload: Seq<u8>, k: int)
    requires
        payload.len() <= usize::MAX,
        0 <= k < frame_of(payload).len(),
    ensures
        spec_read_frame(frame_of(payload).subrange(0, k)) == Err::<(Seq<u8>, Seq<u8>), WireError>(
            WireError::ShortRead,
        ),
{
    let s = frame_of(payload).subrange(0, k);
    if k >= 8 {
        let len64 = payload.len() as u64;
        lemma_u64_be_bytes_roundtrip(len64);
        assert(s.subrange(0, 8) =~= spec_u64_to_be_bytes(len64));
        let n = spec_u64_from_be_bytes(s.subrange(0, 8)) as int;
        assert(n == payload.len());
        assert(s.len() < 8 + n);
    }
}

// ---------------------------------------------------------------------------
// Exec helpers for the integer encodings.
// ---------------------------------------------------------------------------

fn push_u64_be(out: &mut Vec<u8>, x: u64)
    ensures
        final(out)@ == old(out)@ + spec_u64_to_be_bytes(x),
{
    out.push(((x >> 56) & 0xff) as u8);
    out.push(((x >> 48) & 0xff) as u8);
    out.push(((x >> 40) & 0xff) as u8);
    out.push(((x >> 32) & 0xff) as u8);
    out.push(((x >> 24) & 0xff) as u8);
    out.push(((x >> 16) & 0xff) as u8);
    out.push(((x >> 8) & 0xff) as u8);
    out.push((x & 0xff) as u8);
    proof {
        assert(out@ =~= old(out)@ + spec_u64_to_be_bytes(x));
    }
}

fn push_u32_be(out: &mut Vec<u8>, x: u32)
    ensures
        final(out)@ == old(out)@ + spec_u32_to_be_bytes(x),
{
    out.push(((x >> 24) & 0xff) as u8);
    out.push(((x >> 16) & 0xff) as u8);
    out.push(((x >> 8) & 0xff) as u8);
    out.push((x & 0xff) as u8);
    proof {
        assert(out@ =~= old(out)@ + spec_u32_to_be_bytes(x));
    }
}

fn push_u16_be(out: &mut Vec<u8>, x: u16)
    ensures
        final(out)@ == old(out)@ + spec_u16_to_be_bytes(x),
{
    out.push(((x >> 8) & 0xff) as u8);
    out.push((x & 0xff) as u8);
    proof {
        assert(out@ =~= old(out)@ + spec_u16_to_be_bytes(x));
    }
}

fn read_u64_be(s: &Vec<u8>, off: usize) -> (x: u64)
    requires
        off + 8 <= s@.len(),
    ensures
        x == spec_u64_from_be_bytes(s@.subrange(off as int, off as int + 8)),
{
    proof {
        assert(s.len() == s@.len());
    }
    let x = ((s[off] as u64) << 56) | ((s[off + 1] as u64) << 48) | ((s[off + 2] as u64) << 40)
        | ((s[off + 3] as u64) << 32) | ((s[off + 4] as u64) << 24) | ((s[off + 5] as u64) << 16)
        | ((s[off + 6] as u64) << 8) | (s[off + 7] as u64);
    proof {
        let t = s@.subrange(off as int, off as int + 8);
        assert(forall|i: int| 0 <= i < 8 ==> t[i] == s@[off + i]);
    }
    x
}

fn read_u32_be(s: &Vec<u8>, off: usize) -> (x: u32)
    requires
        off + 4 <= s@.len(),
    ensures
        x == spec_u32_from_be_bytes(s@.subrange(off as int, off as int + 4)),
{
    proof {
        assert(s.len() == s@.len());
    }
    let x = ((s[off] as u32) << 24) | ((s[off + 1] as u32) << 16) | ((s[off + 2] as u32) << 8) | (
    s[off + 3] as u32);
    proof {
        let t = s@.subrange(off as int, off as int + 4);
        assert(forall|i: int| 0 <= i < 4 ==> t[i] == s@[off + i]);
    }
    x
}

fn read_u16_be(s: &Vec<u8>, off: usize) -> (x: u16)
    requires
        off + 2 <= s@.len(),
    ensures
        x == spec_u16_from_be_bytes(s@.subrange(off as int, off as int + 2)),
{
    proof {
        assert(s.len() == s@.len());
    }
    let x = ((s[off] as u16) << 8) | (s[off + 1] as u16);
    proof {
        let t = s@.subrange(off as int, off as int + 2);
        assert(forall|i: int| 0 <= i < 2 ==> t[i] == s@[off + i]);
    }
    x
}

// ---------------------------------------------------------------------------
// The in-memory byte stream.
// ---------------------------------------------------------------------------

/// A reliable, ordered byte stream held in memory: bytes written and not
/// yet read.  The framing is defined against this queue; code around a
/// real socket feeds received bytes in at the back and the codec consumes
/// whole frames from the front.
pub struct ByteStream {
    data: Vec<u8>,
}

impl View for ByteStream {
    type V = Seq<u8>;

    closed spec fn view(&self) -> Seq<u8> {
        self.data@
    }
}

impl ByteStream {
    /// An empty stream.
    pub fn new() -> (r: Self)
        ensures
            r@ == Seq::<u8>::empty(),
    {
        ByteStream { data: Vec::new() }
    }

    /// A stream whose unread content is exactly `data`.
    pub fn from_bytes(data: Vec<u8>) -> (r: Self)
        ensures
            r@ == data@,
    {
        ByteStream { data }
    }

    /// The unread bytes, surrendered.
    pub fn into_bytes(self) -> (r: Vec<u8>)
        ensures
            r@ == self@,
    {
        self.data
    }

    /// The unread bytes, borrowed.
    pub fn as_bytes(&self) -> (r: &Vec<u8>)
        ensures
            r@ == self@,
    {
        &self.data
    }

    /// How many bytes are unread.
    pub fn len(&self) -> (r: usize)
        ensures
            r == self@.len(),
    {
        self.data.len()
    }

    /// Append one frame carrying `payload`; returns the number of bytes
    /// added, prefix included.
    pub fn write_frame(&mut self, payload: Vec<u8>) -> (r: Result<usize, WireError>)
        ensures
            payload@.len() <= usize::MAX - 8 ==> (r matches Ok(n) && n == 8 + payload@.len()
                && final(self)@ == old(self)@ + frame_of(payload@)),
            payload@.len() > usize::MAX - 8 ==> (r matches Err(e) && e == WireError::TooLarge
                && final(self)@ == old(self)@),
    {
        let n = payload.len();
        if n > usize::MAX - 8 {
            return Err(WireError::TooLarge);
        }
        let len64: u64 = n as u64;
        push_u64_be(&mut self.data, len64);
        let mut p = payload;
        self.data.append(&mut p);
        Ok(8 + n)
    }

    /// Take one whole frame off the front of the stream.  The result, and
    /// the state the stream is left in, are exactly `spec_read_frame` of
    /// the unread bytes: a stream shorter than its declared frame is
    /// refused and left untouched.
    pub fn read_frame(&mut self) -> (r: Result<Vec<u8>, WireError>)
        ensures
            match spec_read_frame(old(self)@) {
                Ok(pr) => r matches Ok(v) && v@ == pr.0 && final(self)@ == pr.1,
                Err(e) => r matches Err(e2) && e2 == e && final(self)@ == old(self)@,
            },
    {
        let total = self.data.len();
        if total < 8 {
            return Err(WireError::ShortRead);
        }
        let n64 = read_u64_be(&self.data, 0);
        if n64 > (usize::MAX as u64) {
            return Err(WireError::Oversized);
        }
        let n = n64 as usize;
        if total - 8 < n {
            return Err(WireError::ShortRead);
        }
        let mut tail = self.data.split_off(8);
        let rest = tail.split_off(n);
        self.data = rest;
        proof {
            let s = old(self)@;
            let nn = spec_u64_from_be_bytes(s.subrange(0, 8)) as int;
            assert(tail@ =~= s.subrange(8, 8 + nn));
            assert(self@ =~= s.subrange(8 + nn, s.len() as int));
        }
        Ok(tail)
    }
}

// ---------------------------------------------------------------------------
// The message codec.
// ---------------------------------------------------------------------------

/// A message family with a payload encoding on the wire.
///
/// `encoding_of` gives the payload bytes of a value, `decoded` is the
/// exact decoder, and the two laws tie them together: decoding inverts
/// encoding, and only encodings decode.
pub trait WireFormat: View + Sized {
    /// The payload bytes that stand for the value `v` on the wire.
    spec fn encoding_of(v: Self::V) -> Seq<u8>;

    /// The exact decoder: `Some(v)` when `payload` is precisely the
    /// encoding of `v`, `None` otherwise.
    spec fn decoded(payload: Seq<u8>) -> Option<Self::V>;

    /// Round trip at the payload level: decoding an encoding yields the
    /// value back.
    proof fn lemma_decoded_encoding(v: Self::V)
        ensures
            Self::decoded(Self::encoding_of(v)) == Some(v),
    ;

    /// Exactness: a payload that decodes at all is the encoding of what
    /// it decodes to.
    proof fn lemma_encoding_decoded(payload: Seq<u8>)
        ensures
            Self::decoded(payload) matches Some(v) ==> Self::encoding_of(v) == payload,
    ;
}

/// Serializing a message as one frame onto a byte stream.
pub trait MessageWrite: WireFormat {
    /// Append `self`, framed, to `stream`; returns the total bytes
    /// written, length prefix included.
    fn write_message(&self, stream: &mut ByteStream) -> (r: Result<usize, WireError>)
        ensures
            Self::encoding_of(self@).len() <= usize::MAX - 8 ==> (r matches Ok(n) && n == 8
                + Self::encoding_of(self@).len() && final(stream)@ == old(stream)@ + frame_of(
                Self::encoding_of(self@),
            )),
            Self::encoding_of(self@).len() > usize::MAX - 8 ==> (r matches Err(e) && e
                == WireError::TooLarge && final(stream)@ == old(stream)@),
    ;
}

/// Parsing one framed message off the front of a byte stream.
pub trait MessageRead: WireFormat {
    /// Read one frame and decode its payload.  Result and final stream
    /// state are pinned to `spec_read_frame` and `decoded`: a short or
    /// oversized frame is an error with the stream untouched, an
    /// undecodable payload is `Malformed` with the frame consumed.
    fn read_message(stream: &mut ByteStream) -> (r: Result<Self, WireError>)
        ensures
            match spec_read_frame(old(stream)@) {
                Ok(pr) => final(stream)@ == pr.1 && (match Self::decoded(pr.0) {
                    Some(v) => r matches Ok(m) && m@ == v,
                    None => r matches Err(e) && e == WireError::Malformed,
                }),
                Err(e) => r matches Err(e2) && e2 == e && final(stream)@ == old(stream)@,
            },
    ;
}

/// Framing round trip for any message family: a stream holding a written
/// frame, followed by anything, reads back as exactly the written value.
pub proof fn lemma_message_round_trip<M: WireFormat>(v: M::V, rest: Seq<u8>)
    requires
        M::encoding_of(v).len() <= usize::MAX,
    ensures
        spec_read_frame(frame_of(M::encoding_of(v)) + rest) == Ok::<(Seq<u8>, Seq<u8>), WireError>(
            (M::encoding_of(v), rest),
        ),
        M::decoded(M::encoding_of(v)) == Some(v),
{
    lemma_read_frame_of(M::encoding_of(v), rest);
    M::lemma_decoded_encoding(v);
}

impl WireFormat for ClientMessage {
    open spec fn encoding_of(v: ClientMessage) -> Seq<u8> {
        match v {
            ClientMessage::Ready => seq![0u8],
            ClientMessage::ReadyToListen => seq![1u8],
        }
    }

    open spec fn decoded(payload: Seq<u8>) -> Option<ClientMessage> {
        if payload.len() == 1 && payload[0] == 0 {
            Some(ClientMessage::Ready)
        } else if payload.len() == 1 && payload[0] == 1 {
            Some(ClientMessage::ReadyToListen)
        } else {
            None
        }
    }

    proof fn lemma_decoded_encoding(v: ClientMessage) {
    }

    proof fn lemma_encoding_decoded(payload: Seq<u8>) {
        if payload.len() == 1 && payload[0] == 0 {
            assert(payload =~= seq![0u8]);
        } else if payload.len() == 1 && payload[0] == 1 {
            assert(payload =~= seq![1u8]);
        }
    }
}

fn client_payload(m: &ClientMessage) -> (r: Vec<u8>)
    ensures
        r@ == <ClientMessage as WireFormat>::encoding_of(*m),
{
    let mut v: Vec<u8> = Vec::new();
    match m {
        ClientMessage::Ready => {
            v.push(0u8);
        },
        ClientMessage::ReadyToListen => {
            v.push(1u8);
        },
    }
    proof {
        assert(v@ =~= <ClientMessage as WireFormat>::encoding_of(*m));
    }
    v
}

impl MessageWrite for ClientMessage {
    fn write_message(&self, stream: &mut ByteStream) -> (r: Result<usize, WireError>) {
        let payload = client_payload(self);
        stream.write_frame(payload)
    }
}

impl MessageRead for ClientMessage {
    fn read_message(stream: &mut ByteStream) -> (r: Result<Self, WireError>) {
        let payload = match stream.read_frame() {
            Ok(p) => p,
            Err(e) => {
                return Err(e);
            },
        };
        if payload.len() == 1 {
            let b = payload[0];
            if b == 0 {
                return Ok(ClientMessage::Ready);
            }
            if b == 1 {
                return Ok(ClientMessage::ReadyToListen);
            }
        }
        Err(WireError::Malformed)
    }
}

impl WireFormat for ServerMessage {
    open spec fn encoding_of(v: ServerMessage) -> Seq<u8> {
        match v {
            ServerMessage::YouListen => seq![0u8],
            ServerMessage::YouConnect { address } => seq![1u8] + spec_u32_to_be_bytes(address.ip)
                + spec_u16_to_be_bytes(address.port),
        }
    }

    open spec fn decoded(payload: Seq<u8>) -> Option<ServerMessage> {
        if payload.len() == 1 && payload[0] == 0 {
            Some(ServerMessage::YouListen)
        } else if payload.len() == 7 && payload[0] == 1 {
            Some(
                ServerMessage::YouConnect {
                    address: Endpoint {
                        ip: spec_u32_from_be_bytes(payload.subrange(1, 5)),
                        port: spec_u16_from_be_bytes(payload.subrange(5, 7)),
                    },
                },
            )
        } else {
            None
        }
    }

    proof fn lemma_decoded_encoding(v: ServerMessage) {
        match v {
            ServerMessage::YouListen => {
            },
            ServerMessage::YouConnect { address } => {
                let p = Self::encoding_of(v);
                lemma_u32_be_bytes_roundtrip(address.ip);
                lemma_u16_be_bytes_roundtrip(address.port);
                assert(p.subrange(1, 5) =~= spec_u32_to_be_bytes(address.ip));
                assert(p.subrange(5, 7) =~= spec_u16_to_be_bytes(address.port));
                assert(p.len() == 7 && p[0] == 1);
            },
        }
    }

    proof fn lemma_encoding_decoded(payload: Seq<u8>) {
        if payload.len() == 1 && payload[0] == 0 {
            assert(payload =~= seq![0u8]);
        } else if payload.len() == 7 && payload[0] == 1 {
            lemma_u32_be_bytes_inverse(payload.subrange(1, 5));
            lemma_u16_be_bytes_inverse(payload.subrange(5, 7));
            let v = Self::decoded(payload)->Some_0;
            assert(Self::encoding_of(v) =~= payload);
        }
    }
}

fn server_payload(m: &ServerMessage) -> (r: Vec<u8>)
    ensures
        r@ == <ServerMessage as WireFormat>::encoding_of(*m),
{
    let mut v: Vec<u8> = Vec::new();
    match m {
        ServerMessage::YouListen => {
            v.push(0u8);
        },
        ServerMessage::YouConnect { address } => {
            v.push(1u8);
            push_u32_be(&mut v, address.ip);
            push_u16_be(&mut v, address.port);
        },
    }
    proof {
        assert(v@ =~= <ServerMessage as WireFormat>::encoding_of(*m));
    }
    v
}

impl MessageWrite for ServerMessage {
    fn write_message(&self, stream: &mut ByteStream) -> (r: Result<usize, WireError>) {
        let payload = server_payload(self);
        stream.write_frame(payload)
    }
}

impl MessageRead for ServerMessage {
    fn read_message(stream: &mut ByteStream) -> (r: Result<Self, WireError>) {
        let payload = match stream.read_frame() {
            Ok(p) => p,
            Err(e) => {
                return Err(e);
            },
        };
        if payload.len() == 1 && payload[0] == 0 {
            return Ok(ServerMessage::YouListen);
        }
        if payload.len() == 7 && payload[0] == 1 {
            let ip = read_u32_be(&payload, 1);
            let port = read_u16_be(&payload, 5);
            return Ok(ServerMessage::YouConnect { address: Endpoint { ip, port } });
        }
        Err(WireError::Malformed)
    }
}

impl WireFormat for ConnectionMessage {
    open spec fn encoding_of(v: Seq<u8>) -> Seq<u8> {
        seq![0u8] + v
    }

    open spec fn decoded(payload: Seq<u8>) -> Option<Seq<u8>> {
        if payload.len() >= 1 && payload[0] == 0 {
            Some(payload.subrange(1, payload.len() as int))
        } else {
            None
        }
    }

    proof fn lemma_decoded_encoding(v: Seq<u8>) {
        let p = Self::encoding_of(v);
        assert(p.subrange(1, p.len() as int) =~= v);
    }

    proof fn lemma_encoding_decoded(payload: Seq<u8>) {
        if payload.len() >= 1 && payload[0] == 0 {
            assert(Self::encoding_of(payload.subrange(1, payload.len() as int)) =~= payload);
        }
    }
}

fn connection_payload(m: &ConnectionMessage) -> (r: Vec<u8>)
    ensures
        r@ == <ConnectionMessage as WireFormat>::encoding_of(m@),
{
    let mut v: Vec<u8> = Vec::new();
    v.push(0u8);
    match m {
        ConnectionMessage::DataLoad { data } => {
            let mut i: usize = 0;
            while i < data.len()
                invariant
                    i <= data@.len(),
                    v@ == seq![0u8] + data@.subrange(0, i as int),
                decreases data@.len() - i,
            {
                v.push(data[i]);
                proof {
                    assert(v@ =~= seq![0u8] + data@.subrange(0, i + 1));
                }
                i = i + 1;
            }
            proof {
                assert(data@.subrange(0, data@.len() as int) =~= data@);
            }
        },
    }
    v
}

impl MessageWrite for ConnectionMessage {
    fn write_message(&self, stream: &mut ByteStream) -> (r: Result<usize, WireError>) {
        let payload = connection_payload(self);
        stream.write_frame(payload)
    }
}

impl MessageRead for ConnectionMessage {
    fn read_message(stream: &mut ByteStream) -> (r: Result<Self, WireError>) {
        let payload = match stream.read_frame() {
            Ok(p) => p,
            Err(e) => {
                return Err(e);
            },
        };
        if payload.len() >= 1 && payload[0] == 0 {
            let mut data = payload;
            let _tag = data.remove(0);
            proof {
                assert(data@ =~= spec_read_frame(old(stream)@)->Ok_0.0.subrange(
                    1,
                    spec_read_frame(old(stream)@)->Ok_0.0.len() as int,
                ));
            }
            return Ok(ConnectionMessage::DataLoad { data });
        }
        Err(WireError::Malformed)
    }
}

/// Decode a frame's 8-byte length prefix: how many payload bytes follow.
/// A reader that fetches frames from a raw stream reads 8 bytes, asks
/// this how many more to fetch, then reads exactly that many.
pub fn frame_body_len(prefix: &Vec<u8>) -> (r: Result<usize, WireError>)
    ensures
        prefix@.len() != 8 ==> (r matches Err(e) && e == WireError::ShortRead),
        prefix@.len() == 8 ==> (match r {
            Ok(n) => spec_u64_from_be_bytes(prefix@) <= usize::MAX && n == spec_u64_from_be_bytes(
                prefix@,
            ),
            Err(e) => e == WireError::Oversized && spec_u64_from_be_bytes(prefix@) > usize::MAX,
        }),
{
    if prefix.len() != 8 {
        return Err(WireError::ShortRead);
    }
    let n64 = read_u64_be(prefix, 0);
    proof {
        assert(prefix@.subrange(0, 8) =~= prefix@);
    }
    if n64 > (usize::MAX as u64) {
        return Err(WireError::Oversized);
    }
    Ok(n64 as usize)
}

} // verus!
