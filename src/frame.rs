//! The length-prefixed envelope used on the ingress socket:
//! one tag byte, a big-endian 32-bit length, then that many bytes of JSON.

use vstd::prelude::*;

verus! {

/// The largest body this codec accepts on input, in bytes.
pub const MAX_FRAME_LEN: u32 = 1048576;

#[derive(PartialEq, Eq, Structural, Debug, Clone, Copy)]
pub enum FrameType {
    Invalid,
    Json,
}

/// The frame type that a wire tag stands for.
pub open spec fn frame_type_of(tag: u8) -> FrameType {
    if tag == 1 {
        FrameType::Json
    } else {
        FrameType::Invalid
    }
}

/// The wire tag written for a frame type.
pub open spec fn tag_of(t: FrameType) -> u8 {
    match t {
        FrameType::Invalid => 0,
        FrameType::Json => 1,
    }
}

impl From<u8> for FrameType {
    fn from(source: u8) -> (r: FrameType)
        ensures
            r == frame_type_of(source),
    {
        if source == 1 {
            FrameType::Json
        } else {
            FrameType::Invalid
        }
    }
}

impl vstd::std_specs::convert::FromSpecImpl<u8> for FrameType {
    open spec fn obeys_from_spec() -> bool {
        true
    }

    open spec fn from_spec(v: u8) -> FrameType {
        frame_type_of(v)
    }
}

impl From<FrameType> for u8 {
    fn from(t: FrameType) -> (r: u8)
        ensures
            r == tag_of(t),
    {
        match t {
            FrameType::Invalid => 0,
            FrameType::Json => 1,
        }
    }
}

impl vstd::std_specs::convert::FromSpecImpl<FrameType> for u8 {
    open spec fn obeys_from_spec() -> bool {
        true
    }

    open spec fn from_spec(v: FrameType) -> u8 {
        tag_of(v)
    }
}


/// The four bytes of `n`, most significant first.
pub open spec fn be_bytes(n: u32) -> Seq<u8> {
    seq![(n >> 24u32) as u8, (n >> 16u32) as u8, (n >> 8u32) as u8, n as u8]
}

/// The number that four bytes spell, most significant first.
pub open spec fn be_value(b0: u8, b1: u8, b2: u8, b3: u8) -> u32 {
    ((b0 as u32) << 24u32) | ((b1 as u32) << 16u32) | ((b2 as u32) << 8u32) | (b3 as u32)
}

/// The length declared by a frame header, read from bytes 1 to 4.
pub open spec fn declared_len(b: Seq<u8>) -> u32
    recommends
        b.len() >= 5,
{
    be_value(b[1], b[2], b[3], b[4])
}

/// The wire form of a frame: tag, big-endian length, body.
pub open spec fn frame_bytes(typ: FrameType, data: Seq<u8>) -> Seq<u8>
    recommends
        data.len() <= u32::MAX,
{
    seq![tag_of(typ)] + be_bytes(data.len() as u32) + data
}

/// What reading one frame from the front of `b` yields: the frame's type,
/// its body and the number of bytes it took, or the reason it failed.
pub open spec fn decode_view(b: Seq<u8>) -> Result<(FrameType, Seq<u8>, int), FrameError> {
    if b.len() == 0 {
        Err(FrameError::Truncated)
    } else if b[0] != 1 {
        Err(FrameError::InvalidFrameType(b[0]))
    } else if b.len() < 5 {
        Err(FrameError::Truncated)
    } else if declared_len(b) > MAX_FRAME_LEN {
        Err(FrameError::TooLong(declared_len(b)))
    } else if b.len() < 5 + declared_len(b) {
        Err(FrameError::Truncated)
    } else {
        Ok((FrameType::Json, b.subrange(5, 5 + declared_len(b)), 5 + declared_len(b)))
    }
}

/// Why a frame could not be read or interpreted.
#[derive(Debug)]
pub enum FrameError {
    /// The tag byte names no frame type that may appear on the wire,
    /// or the frame is not of the type asked for.
    InvalidFrameType(u8),
    /// The input ended before the frame did.
    Truncated,
    /// The declared length is above `MAX_FRAME_LEN`.
    TooLong(u32),
    /// The body is not the JSON that was asked for; holds the parser's message.
    Json(String),
    /// The stream failed; holds the system's message.
    Io(String),
}

#[verifier::external_type_specification]
#[verifier::external_body]
pub struct ExJsonValue(serde_json::Value);

#[verifier::external_type_specification]
#[verifier::external_body]
pub struct ExJsonError(serde_json::Error);

/// Whether serde_json reads the bytes as one JSON document.
pub uninterp spec fn is_json_text(b: Seq<u8>) -> bool;

/// Relies on serde_json::from_slice into a `Value`: it succeeds exactly when
/// the bytes hold one JSON document, which depends on the bytes alone.
#[verifier::external_body]
fn parse_json(b: &[u8]) -> (r: Result<serde_json::Value, serde_json::Error>)
    ensures
        r is Ok <==> is_json_text(b@),
{
    serde_json::from_slice(b)
}

/// Relies on the `Debug` form of serde_json::Error for the parser's message.
#[verifier::external_body]
fn json_error_message(e: &serde_json::Error) -> String {
    format!("{:?}", e)
}

/// The compact JSON text that serde_json writes for a value.
pub uninterp spec fn json_text_of(v: serde_json::Value) -> Seq<u8>;

/// Relies on serde_json's `Display` for `Value`, which writes compact JSON;
/// objects are ordered maps, so the text depends on the value alone.
#[verifier::external_body]
fn json_text(v: &serde_json::Value) -> (r: Vec<u8>)
    ensures
        r@ == json_text_of(*v),
{
    v.to_string().into_bytes()
}

/// A frame: its type and its body.
#[derive(Debug)]
pub struct Frame {
    pub typ: FrameType,
    pub data: Vec<u8>,
}

pub proof fn lemma_be_round_trip(n: u32)
    ensures
        be_value(be_bytes(n)[0], be_bytes(n)[1], be_bytes(n)[2], be_bytes(n)[3]) == n,
{
    let b0 = (n >> 24u32) as u8;
    let b1 = (n >> 16u32) as u8;
    let b2 = (n >> 8u32) as u8;
    let b3 = n as u8;
    assert(((b0 as u32) << 24u32) | ((b1 as u32) << 16u32) | ((b2 as u32) << 8u32) | (b3 as u32)
        == n) by (bit_vector)
        requires
            b0 == (n >> 24u32) as u8,
            b1 == (n >> 16u32) as u8,
            b2 == (n >> 8u32) as u8,
            b3 == n as u8,
    ;
}

impl Frame {
    pub fn new(typ: FrameType, data: Vec<u8>) -> (r: Frame)
        ensures
            r.typ == typ,
            r.data@ == data@,
    {
        Frame { typ, data }
    }

    /// Builds a JSON frame whose body is the compact text of `json`.
    pub fn from_json(json: &serde_json::Value) -> (r: Frame)
        ensures
            r.typ == FrameType::Json,
            r.data@ == json_text_of(*json),
    {
        Frame { typ: FrameType::Json, data: json_text(json) }
    }

    /// Reads the body of a JSON frame as a JSON value.
    pub fn json(&self) -> (r: Result<serde_json::Value, FrameError>)
        ensures
            self.typ != FrameType::Json ==> (r matches Err(FrameError::InvalidFrameType(t)) && t
                == tag_of(self.typ)),
            self.typ == FrameType::Json ==> (r is Ok <==> is_json_text(self.data@)),
            self.typ == FrameType::Json && r is Err ==> r->Err_0 is Json,
    {
        if self.typ != FrameType::Json {
            return Err(FrameError::InvalidFrameType(u8::from(self.typ)));
        }
        match parse_json(self.data.as_slice()) {
            Ok(v) => Ok(v),
            Err(e) => Err(FrameError::Json(json_error_message(&e))),
        }
    }

    /// The body of a JSON frame, for reading it as a typed value.
    pub fn json_body(&self) -> (r: Result<&[u8], FrameError>)
        ensures
            self.typ == FrameType::Json ==> (r matches Ok(b) && b@ == self.data@),
            self.typ != FrameType::Json ==> (r matches Err(FrameError::InvalidFrameType(t)) && t
                == tag_of(self.typ)),
    {
        if self.typ != FrameType::Json {
            return Err(FrameError::InvalidFrameType(u8::from(self.typ)));
        }
        Ok(self.data.as_slice())
    }

    /// Checks the tag byte that starts a frame.
    pub fn parse_tag(tag: u8) -> (r: Result<FrameType, FrameError>)
        ensures
            tag == 1 ==> r == Ok::<FrameType, FrameError>(FrameType::Json),
            tag != 1 ==> r == Err::<FrameType, FrameError>(FrameError::InvalidFrameType(tag)),
    {
        if tag == 1 {
            Ok(FrameType::Json)
        } else {
            Err(FrameError::InvalidFrameType(tag))
        }
    }

    /// Reads the big-endian body length from the four bytes that follow the tag.
    pub fn parse_length(b: &[u8]) -> (r: Result<usize, FrameError>)
        ensures
            b@.len() < 4 ==> r == Err::<usize, FrameError>(FrameError::Truncated),
            b@.len() >= 4 && be_value(b@[0], b@[1], b@[2], b@[3]) > MAX_FRAME_LEN ==> r
                == Err::<usize, FrameError>(
                FrameError::TooLong(be_value(b@[0], b@[1], b@[2], b@[3])),
            ),
            b@.len() >= 4 && be_value(b@[0], b@[1], b@[2], b@[3]) <= MAX_FRAME_LEN ==> r
                == Ok::<usize, FrameError>(be_value(b@[0], b@[1], b@[2], b@[3]) as usize),
    {
        if b.len() < 4 {
            return Err(FrameError::Truncated);
        }
        let n: u32 = ((b[0] as u32) << 24u32) | ((b[1] as u32) << 16u32) | ((b[2] as u32) << 8u32)
            | (b[3] as u32);
        if n > MAX_FRAME_LEN {
            Err(FrameError::TooLong(n))
        } else {
            Ok(n as usize)
        }
    }

    /// Reads one frame from the front of `bytes`, returning it with the
    /// number of bytes it took.
    pub fn decode(bytes: &[u8]) -> (r: Result<(Frame, usize), FrameError>)
        ensures
            decode_view(bytes@) == match r {
                Ok((f, used)) => Ok((f.typ, f.data@, used as int)),
                Err(e) => Err::<(FrameType, Seq<u8>, int), FrameError>(e),
            },
    {
        if bytes.len() == 0 {
            return Err(FrameError::Truncated);
        }
        let typ = match Frame::parse_tag(bytes[0]) {
            Ok(t) => t,
            Err(e) => return Err(e),
        };
        if bytes.len() < 5 {
            return Err(FrameError::Truncated);
        }
        let head = vstd::slice::slice_subrange(bytes, 1, 5);
        let n = match Frame::parse_length(head) {
            Ok(n) => n,
            Err(e) => return Err(e),
        };
        if bytes.len() - 5 < n {
            return Err(FrameError::Truncated);
        }
        let mut data: Vec<u8> = Vec::with_capacity(n);
        let mut i: usize = 0;
        while i < n
            invariant
                i <= n,
                5 + n <= bytes.len(),
                data@ == bytes@.subrange(5, 5 + i as int),
            decreases n - i,
        {
            data.push(bytes[5 + i]);
            i = i + 1;
        }
        Ok((Frame { typ, data }, 5 + n))
    }

    /// The wire form of this frame.
    pub fn encode(&self) -> (r: Vec<u8>)
        requires
            self.data@.len() <= u32::MAX,
        ensures
            r@ == frame_bytes(self.typ, self.data@),
    {
        let n = self.data.len() as u32;
        let mut out: Vec<u8> = Vec::new();
        out.push(u8::from(self.typ));
        out.push(#[verifier::truncate] ((n >> 24u32) as u8));
        out.push(#[verifier::truncate] ((n >> 16u32) as u8));
        out.push(#[verifier::truncate] ((n >> 8u32) as u8));
        out.push(#[verifier::truncate] (n as u8));
        let mut i: usize = 0;
        while i < self.data.len()
            invariant
                i <= self.data@.len(),
                n == self.data@.len(),
                out@ == seq![tag_of(self.typ)] + be_bytes(n) + self.data@.subrange(0, i as int),
            decreases self.data@.len() - i,
        {
            out.push(self.data[i]);
            i = i + 1;
        }
        assert(self.data@.subrange(0, self.data@.len() as int) == self.data@);
        out
    }
}

/// A frame whose first byte is not the JSON tag is refused, naming that byte.
pub proof fn lemma_unknown_tag(b: Seq<u8>)
    requires
        b.len() > 0,
        b[0] != 1,
    ensures
        decode_view(b) == Err::<(FrameType, Seq<u8>, int), FrameError>(
            FrameError::InvalidFrameType(b[0]),
        ),
{
}

/// Encoding a JSON frame and reading it back gives the same frame and
/// consumes exactly its bytes; the length travels big-endian.
pub proof fn lemma_frame_round_trip(data: Seq<u8>)
    requires
        data.len() <= MAX_FRAME_LEN,
    ensures
        decode_view(frame_bytes(FrameType::Json, data)) == Ok::<
            (FrameType, Seq<u8>, int),
            FrameError,
        >((FrameType::Json, data, 5 + data.len() as int)),
{
    let b = frame_bytes(FrameType::Json, data);
    let n = data.len() as u32;
    lemma_be_round_trip(n);
    assert(b[1] == be_bytes(n)[0] && b[2] == be_bytes(n)[1] && b[3] == be_bytes(n)[2] && b[4]
        == be_bytes(n)[3]);
    assert(declared_len(b) == n);
    assert(b.subrange(5, 5 + n) =~= data);
}

} // verus!
