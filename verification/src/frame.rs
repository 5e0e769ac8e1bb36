use vstd::prelude::*;

use crate::errors::FrameError;
use vstd::arithmetic::div_mod::{
    lemma_div_denominator, lemma_div_is_ordered, lemma_div_pos_is_pos,
    lemma_fundamental_div_mod, lemma_mod_division_less_than_divisor,
};

verus! {

/// The schema version that every frame on the wire starts with.
pub const FRAME_VERSION: u8 = 1;

/// One request message: a single text payload, held as its UTF-8 bytes.
#[derive(Debug, PartialEq, Eq)]
pub struct RequestFrame {
    pub message: Vec<u8>,
}

impl View for RequestFrame {
    type V = Seq<u8>;

    open spec fn view(&self) -> Seq<u8> {
        self.message@
    }
}

/// One response message: a single text payload, held as its UTF-8 bytes.
#[derive(Debug, PartialEq, Eq)]
pub struct ResponseFrame {
    pub message: Vec<u8>,
}

impl View for ResponseFrame {
    type V = Seq<u8>;

    open spec fn view(&self) -> Seq<u8> {
        self.message@
    }
}

/// The four big-endian bytes of a 32-bit length.
pub open spec fn be32(n: u32) -> Seq<u8> {
    seq![
        ((n as int / 0x1000000) % 0x100) as u8,
        ((n as int / 0x10000) % 0x100) as u8,
        ((n as int / 0x100) % 0x100) as u8,
        ((n as int) % 0x100) as u8,
    ]
}

/// The value of four big-endian length bytes.
pub open spec fn be32_val(b: Seq<u8>) -> int
    recommends
        b.len() == 4,
{
    ((b[0] * 0x100 + b[1]) * 0x100 + b[2]) * 0x100 + b[3]
}

/// What `encode` produces: a version byte, the big-endian payload length,
/// then the payload itself.
pub open spec fn encode_spec(msg: Seq<u8>) -> Seq<u8> {
    seq![FRAME_VERSION] + be32(msg.len() as u32) + msg
}

/// What `decode` makes of a byte buffer holding exactly one frame, checked in
/// this order: enough bytes for a header, a known version, a length within
/// `max`, and a payload of exactly the announced length.
pub open spec fn decode_spec(bytes: Seq<u8>, max: int) -> Result<Seq<u8>, FrameError> {
    if bytes.len() < 5 {
        Err(FrameError::Truncated)
    } else if bytes[0] != FRAME_VERSION {
        Err(FrameError::SchemaMismatch)
    } else {
        let n = be32_val(bytes.subrange(1, 5));
        if n > max {
            Err(FrameError::SizeLimitExceeded)
        } else if bytes.len() < 5 + n {
            Err(FrameError::Truncated)
        } else if bytes.len() > 5 + n {
            Err(FrameError::SchemaMismatch)
        } else {
            Ok(bytes.subrange(5, 5 + n))
        }
    }
}

/// Reading the four length bytes back gives the length they were made from.
pub proof fn lemma_be32_roundtrip(n: u32)
    ensures
        be32_val(be32(n)) == n,
{
    let x = n as int;
    lemma_div_pos_is_pos(x, 0x100);
    lemma_div_pos_is_pos(x, 0x10000);
    lemma_div_pos_is_pos(x, 0x1000000);
    lemma_div_denominator(x, 0x100, 0x100);
    lemma_div_denominator(x, 0x10000, 0x100);
    lemma_fundamental_div_mod(x, 0x100);
    lemma_fundamental_div_mod(x / 0x100, 0x100);
    lemma_fundamental_div_mod(x / 0x10000, 0x100);
    lemma_div_is_ordered(x, 0xFFFFFFFF, 0x1000000);
    lemma_mod_division_less_than_divisor(x / 0x1000000, 0x100);
    lemma_mod_division_less_than_divisor(x / 0x10000, 0x100);
    lemma_mod_division_less_than_divisor(x / 0x100, 0x100);
    lemma_mod_division_less_than_divisor(x, 0x100);
}

/// Round trip: a frame whose payload is within the configured maximum decodes
/// back to exactly the payload it was encoded from.
pub proof fn lemma_frame_round_trip(msg: Seq<u8>, max: u32)
    requires
        msg.len() <= max,
    ensures
        decode_spec(encode_spec(msg), max as int) == Ok::<Seq<u8>, FrameError>(msg),
{
    let e = encode_spec(msg);
    let n: u32 = msg.len() as u32;
    lemma_be32_roundtrip(n);
    assert(e.subrange(1, 5) =~= be32(n));
    assert(e.subrange(5, 5 + n as int) =~= msg);
}

/// A length prefix above the configured maximum is refused as
/// `SizeLimitExceeded`, whatever follows the header: no payload need be read.
pub proof fn lemma_frame_size_limit(bytes: Seq<u8>, max: u32)
    requires
        bytes.len() >= 5,
        bytes[0] == FRAME_VERSION,
        be32_val(bytes.subrange(1, 5)) > max,
    ensures
        decode_spec(bytes, max as int) == Err::<Seq<u8>, FrameError>(FrameError::SizeLimitExceeded),
{
}

/// Copy of the bytes of `v` from `i` (inclusive) to `j` (exclusive).
pub fn copy_range(v: &Vec<u8>, i: usize, j: usize) -> (r: Vec<u8>)
    requires
        i <= j <= v@.len(),
    ensures
        r@ == v@.subrange(i as int, j as int),
{
    let mut out: Vec<u8> = Vec::new();
    let mut k: usize = i;
    while k < j
        invariant
            i <= k <= j <= v@.len(),
            out@ == v@.subrange(i as int, k as int),
        decreases j - k,
    {
        out.push(v[k]);
        proof {
            assert(v@.subrange(i as int, k as int + 1) =~= v@.subrange(i as int, k as int)
                + seq![v@[k as int]]);
        }
        k = k + 1;
    }
    out
}

/// The frame codec with its configured maximum payload length.
pub struct FrameCodec {
    pub max_len: u32,
}

impl FrameCodec {
    pub fn new(max_len: u32) -> (r: FrameCodec)
        ensures
            r.max_len == max_len,
    {
        FrameCodec { max_len }
    }

    fn encode_message(msg: &Vec<u8>) -> (r: Vec<u8>)
        requires
            msg@.len() <= 0xFFFFFFFF,
        ensures
            r@ == encode_spec(msg@),
    {
        let n: u32 = msg.len() as u32;
        let mut out: Vec<u8> = Vec::new();
        out.push(FRAME_VERSION);
        out.push(((n / 0x1000000) % 0x100) as u8);
        out.push(((n / 0x10000) % 0x100) as u8);
        out.push(((n / 0x100) % 0x100) as u8);
        out.push((n % 0x100) as u8);
        proof {
            assert(out@ =~= seq![FRAME_VERSION] + be32(n) + msg@.subrange(0, 0));
        }
        let mut i: usize = 0;
        while i < msg.len()
            invariant
                i <= msg@.len(),
                n == msg@.len(),
                out@ == seq![FRAME_VERSION] + be32(n) + msg@.subrange(0, i as int),
            decreases msg@.len() - i,
        {
            out.push(msg[i]);
            proof {
                assert(out@ =~= seq![FRAME_VERSION] + be32(n)
                    + msg@.subrange(0, i as int + 1));
            }
            i = i + 1;
        }
        proof {
            assert(msg@.subrange(0, msg@.len() as int) =~= msg@);
        }
        out
    }

    fn decode_message(bytes: &Vec<u8>, max: u32) -> (r: Result<Vec<u8>, FrameError>)
        ensures
            (match r {
                Ok(m) => decode_spec(bytes@, max as int) == Ok::<Seq<u8>, FrameError>(m@),
                Err(e) => decode_spec(bytes@, max as int) == Err::<Seq<u8>, FrameError>(e),
            }),
    {
        if bytes.len() < 5 {
            return Err(FrameError::Truncated);
        }
        if bytes[0] != FRAME_VERSION {
            return Err(FrameError::SchemaMismatch);
        }
        let n: u32 = (((bytes[1] as u32) * 0x100 + (bytes[2] as u32)) * 0x100 + (bytes[3] as u32))
            * 0x100 + (bytes[4] as u32);
        proof {
            assert(n as int == be32_val(bytes@.subrange(1, 5)));
        }
        if n > max {
            return Err(FrameError::SizeLimitExceeded);
        }
        let body: usize = bytes.len() - 5;
        if (n as usize) > body {
            return Err(FrameError::Truncated);
        }
        if (n as usize) < body {
            return Err(FrameError::SchemaMismatch);
        }
        let payload = copy_range(bytes, 5, bytes.len());
        Ok(payload)
    }

    /// Encode one request for the wire.
    pub fn encode_request(&self, frame: &RequestFrame) -> (r: Vec<u8>)
        requires
            frame@.len() <= self.max_len,
        ensures
            r@ == encode_spec(frame@),
    {
        Self::encode_message(&frame.message)
    }

    /// Decode the bytes of one request frame.
    pub fn decode_request(&self, bytes: &Vec<u8>) -> (r: Result<RequestFrame, FrameError>)
        ensures
            (match r {
                Ok(f) => decode_spec(bytes@, self.max_len as int) == Ok::<Seq<u8>, FrameError>(f@),
                Err(e) => decode_spec(bytes@, self.max_len as int) == Err::<Seq<u8>, FrameError>(e),
            }),
    {
        match Self::decode_message(bytes, self.max_len) {
            Ok(m) => Ok(RequestFrame { message: m }),
            Err(e) => Err(e),
        }
    }

    /// Encode one response for the wire.
    pub fn encode_response(&self, frame: &ResponseFrame) -> (r: Vec<u8>)
        requires
            frame@.len() <= self.max_len,
        ensures
            r@ == encode_spec(frame@),
    {
        Self::encode_message(&frame.message)
    }

    /// Decode the bytes of one response frame.
    pub fn decode_response(&self, bytes: &Vec<u8>) -> (r: Result<ResponseFrame, FrameError>)
        ensures
            (match r {
                Ok(f) => decode_spec(bytes@, self.max_len as int) == Ok::<Seq<u8>, FrameError>(f@),
                Err(e) => decode_spec(bytes@, self.max_len as int) == Err::<Seq<u8>, FrameError>(e),
            }),
    {
        match Self::decode_message(bytes, self.max_len) {
            Ok(m) => Ok(ResponseFrame { message: m }),
            Err(e) => Err(e),
        }
    }

    /// Judge a frame header alone, so that a caller reading from a stream can
    /// refuse an oversized announced length before buffering any payload.
    pub fn frame_payload_len(&self, header: &Vec<u8>) -> (r: Result<u32, FrameError>)
        requires
            header@.len() == 5,
        ensures
            (match r {
                Ok(n) => header@[0] == FRAME_VERSION && n as int == be32_val(
                    header@.subrange(1, 5),
                ) && n <= self.max_len,
                Err(e) => (e == FrameError::SchemaMismatch && header@[0] != FRAME_VERSION) || (e
                    == FrameError::SizeLimitExceeded && header@[0] == FRAME_VERSION && be32_val(
                    header@.subrange(1, 5),
                ) > self.max_len),
            }),
    {
        if header[0] != FRAME_VERSION {
            return Err(FrameError::SchemaMismatch);
        }
        let n: u32 = (((header[1] as u32) * 0x100 + (header[2] as u32)) * 0x100 + (header[3]
            as u32)) * 0x100 + (header[4] as u32);
        proof {
            assert(n as int == be32_val(header@.subrange(1, 5)));
        }
        if n > self.max_len {
            return Err(FrameError::SizeLimitExceeded);
        }
        Ok(n)
    }
}

} // verus!
