//! The container's wire format, stated on byte sequences.
//!
//! A stream is a 12-byte envelope (container magic, declared size, format
//! magic) followed by chunks. A chunk is a 4-byte tag, a little-endian 32-bit
//! length, that many bytes of body, and one pad byte where the length is odd.

use crate::endian::le_u32;
use crate::error::{Signature, WebPError};
use crate::tag::{chunk_kind, lemma_unsupported_tags, ChunkKind, Feature, RIFF, WEBP};
use vstd::prelude::*;

verus! {

/// Number of bytes that the body of a chunk of declared length `len` takes up
/// in the stream: `len` rounded up to the next even number.
pub open spec fn padded_len(len: u32) -> nat {
    if len % 2 == 0 {
        len as nat
    } else {
        (len + 1) as nat
    }
}

/// Validation of the envelope at the head of `stream`: the declared size, or
/// the first failure met when the three fields are read in order.
pub open spec fn envelope<C>(stream: Seq<u8>) -> Result<u32, WebPError<C>> {
    if stream.len() < 4 {
        Err(WebPError::IoTruncated)
    } else if stream.subrange(0, 4) != RIFF@ {
        Err(WebPError::MalformedEnvelope(Signature::Outer))
    } else if stream.len() < 12 {
        Err(WebPError::IoTruncated)
    } else if stream.subrange(8, 12) != WEBP@ {
        Err(WebPError::MalformedEnvelope(Signature::Format))
    } else {
        Ok(le_u32(stream.subrange(4, 8)))
    }
}

/// Where a chunk walk ended successfully.
pub struct PayloadHeader {
    /// The length that the payload chunk declares.
    pub len: u32,
    /// The bytes that follow the payload chunk's header.
    pub rest: Seq<u8>,
}

/// The walk over `chunks`, a stream positioned at a chunk boundary: the header
/// of the first payload chunk, provided that only ignorable chunks, each
/// present in full, come before it.
pub open spec fn find_payload<C>(chunks: Seq<u8>) -> Result<PayloadHeader, WebPError<C>>
    decreases chunks.len(),
{
    if chunks.len() < 4 {
        Err(WebPError::IoTruncated)
    } else {
        match chunk_kind(chunks.subrange(0, 4)) {
            ChunkKind::Unsupported(feature) => Err(WebPError::UnsupportedFeature(feature)),
            ChunkKind::Payload => if chunks.len() < 8 {
                Err(WebPError::IoTruncated)
            } else {
                Ok(PayloadHeader { len: le_u32(chunks.subrange(4, 8)), rest: chunks.skip(8) })
            },
            ChunkKind::Ignorable => if chunks.len() < 8 {
                Err(WebPError::IoTruncated)
            } else {
                let body = padded_len(le_u32(chunks.subrange(4, 8)));
                if chunks.len() - 8 < body {
                    Err(WebPError::IoTruncated)
                } else {
                    find_payload(chunks.skip(8 + body as int))
                }
            },
        }
    }
}

/// A payload located in a stream.
pub struct Located {
    /// The payload chunk's body, without any pad byte.
    pub payload: Seq<u8>,
    /// The bytes of the stream that were not read.
    pub rest: Seq<u8>,
}

/// The whole container layer on `stream`: validate the envelope, walk the
/// chunks, and take as many bytes as the payload chunk declares.
pub open spec fn locate<C>(stream: Seq<u8>) -> Result<Located, WebPError<C>> {
    match envelope::<C>(stream) {
        Err(e) => Err(e),
        Ok(_) => match find_payload::<C>(stream.skip(12)) {
            Err(e) => Err(e),
            Ok(header) => if header.rest.len() < header.len {
                Err(WebPError::IoTruncated)
            } else {
                Ok(
                    Located {
                        payload: header.rest.take(header.len as int),
                        rest: header.rest.skip(header.len as int),
                    },
                )
            },
        },
    }
}

/// `chunks` is made of ignorable chunks and nothing else, each present in
/// full with its pad byte.
pub open spec fn only_ignorable(chunks: Seq<u8>) -> bool
    decreases chunks.len(),
{
    chunks.len() == 0 || {
        &&& chunks.len() >= 8
        &&& chunk_kind(chunks.subrange(0, 4)) is Ignorable
        &&& chunks.len() - 8 >= padded_len(le_u32(chunks.subrange(4, 8)))
        &&& only_ignorable(chunks.skip(8 + padded_len(le_u32(chunks.subrange(4, 8))) as int))
    }
}

/// The body of a chunk takes up an even number of bytes: its declared length,
/// and one more where that is odd.
pub proof fn lemma_padded_len(len: u32)
    ensures
        padded_len(len) % 2 == 0,
        padded_len(len) == len + len % 2,
{
}

/// The envelope is decided by the first twelve bytes of a stream.
pub proof fn lemma_envelope_is_a_prefix<C>(head: Seq<u8>, tail: Seq<u8>)
    requires
        head.len() >= 12,
    ensures
        envelope::<C>(head + tail) == envelope::<C>(head),
{
    let stream = head + tail;
    assert(stream.subrange(0, 4) =~= head.subrange(0, 4));
    assert(stream.subrange(4, 8) =~= head.subrange(4, 8));
    assert(stream.subrange(8, 12) =~= head.subrange(8, 12));
}

/// A stream that does not begin with the container magic is malformed,
/// whatever follows its first four bytes.
pub proof fn lemma_foreign_magic_is_malformed<C>(stream: Seq<u8>)
    requires
        stream.len() >= 4,
        stream.subrange(0, 4) != RIFF@,
    ensures
        locate::<C>(stream) == Err::<Located, WebPError<C>>(
            WebPError::MalformedEnvelope(Signature::Outer),
        ),
{
}

/// A feature chunk right after a valid envelope is rejected under the name of
/// its feature, whatever follows its tag, even nothing.
pub proof fn lemma_feature_after_envelope_is_rejected<C>(stream: Seq<u8>, feature: Feature)
    requires
        envelope::<C>(stream) is Ok,
        stream.len() >= 16,
        stream.subrange(12, 16) == feature.spec_tag(),
    ensures
        locate::<C>(stream) == Err::<Located, WebPError<C>>(WebPError::UnsupportedFeature(feature)),
{
    lemma_unsupported_tags(feature.spec_tag(), feature);
    assert(stream.skip(12).subrange(0, 4) =~= stream.subrange(12, 16));
}

/// A walk over ignorable chunks alone runs into the end of the stream: it
/// never reports a payload that is not there.
pub proof fn lemma_only_ignorable_is_truncated<C>(chunks: Seq<u8>)
    requires
        only_ignorable(chunks),
    ensures
        find_payload::<C>(chunks) == Err::<PayloadHeader, WebPError<C>>(WebPError::IoTruncated),
    decreases chunks.len(),
{
    if chunks.len() != 0 {
        lemma_only_ignorable_is_truncated::<C>(
            chunks.skip(8 + padded_len(le_u32(chunks.subrange(4, 8))) as int),
        );
    }
}

/// A valid envelope followed by ignorable chunks alone is a truncated stream.
pub proof fn lemma_no_payload_is_truncated<C>(stream: Seq<u8>)
    requires
        envelope::<C>(stream) is Ok,
        only_ignorable(stream.skip(12)),
    ensures
        locate::<C>(stream) == Err::<Located, WebPError<C>>(WebPError::IoTruncated),
{
    lemma_only_ignorable_is_truncated::<C>(stream.skip(12));
}

/// The walk passes over an ignorable chunk in full: header, body and, where
/// the declared length is odd, the pad byte. What it finds is what it finds
/// in the chunks that follow.
pub proof fn lemma_ignorable_chunk_is_skipped<C>(chunk: Seq<u8>, rest: Seq<u8>)
    requires
        chunk.len() >= 8,
        chunk_kind(chunk.subrange(0, 4)) is Ignorable,
        chunk.len() == 8 + padded_len(le_u32(chunk.subrange(4, 8))),
    ensures
        find_payload::<C>(chunk + rest) == find_payload::<C>(rest),
{
    let chunks = chunk + rest;
    assert(chunks.subrange(0, 4) =~= chunk.subrange(0, 4));
    assert(chunks.subrange(4, 8) =~= chunk.subrange(4, 8));
    assert(chunks.skip(chunk.len() as int) =~= rest);
}

/// An ignorable chunk between a valid envelope and the chunks that follow
/// changes neither the payload that is located nor what is left unread.
pub proof fn lemma_locate_skips_ignorable_chunk<C>(head: Seq<u8>, chunk: Seq<u8>, rest: Seq<u8>)
    requires
        head.len() == 12,
        envelope::<C>(head) is Ok,
        chunk.len() >= 8,
        chunk_kind(chunk.subrange(0, 4)) is Ignorable,
        chunk.len() == 8 + padded_len(le_u32(chunk.subrange(4, 8))),
    ensures
        locate::<C>(head + chunk + rest) == locate::<C>(head + rest),
{
    lemma_envelope_is_a_prefix::<C>(head, chunk + rest);
    lemma_envelope_is_a_prefix::<C>(head, rest);
    lemma_ignorable_chunk_is_skipped::<C>(chunk, rest);
    assert(head + chunk + rest =~= head + (chunk + rest));
    assert((head + (chunk + rest)).skip(12) =~= chunk + rest);
    assert((head + rest).skip(12) =~= rest);
}

} // verus!
