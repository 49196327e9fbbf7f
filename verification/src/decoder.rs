//! The decoder: runs the container layer once, hands the payload to a
//! bitstream decoder, and answers queries from the frame that came back.

use crate::container::{envelope, find_payload, locate, Located};
use crate::error::{Signature, WebPError};
use crate::frame::{Frame, FrameView};
use crate::reader::WebpReader;
use crate::source::ByteSource;
use crate::tag::{classify, same_tag, ChunkKind, RIFF, WEBP};
use vstd::prelude::*;

verus! {

/// Whether the one-shot metadata extraction has run.
enum FrameState {
    Uninitialized,
    Ready(Frame),
}

/// What a decoder holds, as plain values.
pub struct DecoderView {
    /// The bytes of the source that have not been read.
    pub unread: Seq<u8>,
    /// The frame, once metadata extraction has succeeded.
    pub frame: Option<FrameView>,
}

/// WebP image decoder. Only the luma plane of the lossy format is produced,
/// so decoded images are grayscale.
pub struct WebPDecoder {
    source: ByteSource,
    state: FrameState,
}

impl View for WebPDecoder {
    type V = DecoderView;

    closed spec fn view(&self) -> DecoderView {
        DecoderView {
            unread: self.source@,
            frame: match self.state {
                FrameState::Uninitialized => None,
                FrameState::Ready(frame) => Some(frame@),
            },
        }
    }
}

impl DecoderView {
    /// Width of the frame; zero while there is none.
    pub open spec fn width(self) -> nat {
        match self.frame {
            Some(frame) => frame.width,
            None => 0,
        }
    }

    /// Height of the frame; zero while there is none.
    pub open spec fn height(self) -> nat {
        match self.frame {
            Some(frame) => frame.height,
            None => 0,
        }
    }

    /// The luma plane of the frame; empty while there is none.
    pub open spec fn luma(self) -> Seq<u8> {
        match self.frame {
            Some(frame) => frame.luma,
            None => Seq::empty(),
        }
    }
}

/// The color model of a decoded image.
#[derive(Debug, Clone, Copy, PartialEq, Eq)]
pub enum ColorType {
    /// One channel of 8-bit luma.
    L8,
}

/// `out` is something that `decode` may return when it is handed `payload`.
pub open spec fn decodes_to<C, F: FnOnce(Vec<u8>) -> Result<Frame, C>>(
    decode: F,
    payload: Seq<u8>,
    out: Result<Frame, C>,
) -> bool {
    exists|bytes: Vec<u8>| bytes@ == payload && #[trigger] decode.ensures((bytes,), out)
}

/// What extraction yields once the container layer has located `at` and the
/// bitstream decoder has answered `out`.
pub open spec fn delivered<C>(at: Located, out: Result<Frame, C>) -> Result<
    DecoderView,
    WebPError<C>,
> {
    match out {
        Ok(frame) => Ok(DecoderView { unread: at.rest, frame: Some(frame@) }),
        Err(cause) => Err(WebPError::UnderlyingDecodeFailed(cause)),
    }
}

/// `result` is what metadata extraction yields on `stream` with `decode` as
/// the bitstream decoder: the container layer's error where it has one, and
/// otherwise what follows from some answer of `decode` to exactly the payload.
pub open spec fn extraction<C, F: FnOnce(Vec<u8>) -> Result<Frame, C>>(
    stream: Seq<u8>,
    decode: F,
    result: Result<DecoderView, WebPError<C>>,
) -> bool {
    match locate::<C>(stream) {
        Err(e) => result == Err::<DecoderView, WebPError<C>>(e),
        Ok(at) => exists|out: Result<Frame, C>| #[trigger]
            decodes_to(decode, at.payload, out) && result == delivered(at, out),
    }
}

/// Where the container layer fails, extraction fails with the same error,
/// whatever the bitstream decoder would have answered.
pub proof fn lemma_container_failure_is_final<C, F: FnOnce(Vec<u8>) -> Result<Frame, C>>(
    stream: Seq<u8>,
    decode: F,
    result: Result<DecoderView, WebPError<C>>,
)
    requires
        extraction(stream, decode, result),
        locate::<C>(stream) is Err,
    ensures
        result is Err,
        result->Err_0 == locate::<C>(stream)->Err_0,
{
}

/// Where extraction succeeds, the stream held a payload, the frame is one
/// that the bitstream decoder gave for exactly that payload, and nothing
/// behind the payload was read.
pub proof fn lemma_success_is_delivered<C, F: FnOnce(Vec<u8>) -> Result<Frame, C>>(
    stream: Seq<u8>,
    decode: F,
    result: Result<DecoderView, WebPError<C>>,
)
    requires
        extraction(stream, decode, result),
        result is Ok,
    ensures
        locate::<C>(stream) matches Ok(at) && result->Ok_0.unread == at.rest && exists|
            frame: Frame,
        | #[trigger]
            decodes_to(decode, at.payload, Ok::<Frame, C>(frame)) && result->Ok_0.frame == Some(
                frame@,
            ),
{
    let at = locate::<C>(stream)->Ok_0;
    let out = choose|out: Result<Frame, C>| #[trigger]
        decodes_to(decode, at.payload, out) && result == delivered(at, out);
    assert(decodes_to(decode, at.payload, Ok::<Frame, C>(out->Ok_0)));
}

impl WebPDecoder {
    /// Creates a decoder over `source` and extracts the frame at once, with
    /// `decode` as the bitstream decoder. The source is consumed.
    pub fn new<C, F: FnOnce(Vec<u8>) -> Result<Frame, C>>(source: ByteSource, decode: F) -> (made:
        Result<WebPDecoder, WebPError<C>>)
        requires
            forall|payload: Vec<u8>| decode.requires((payload,)),
        ensures
            extraction(
                source@,
                decode,
                match made {
                    Ok(decoder) => Ok(decoder@),
                    Err(e) => Err(e),
                },
            ),
            made matches Ok(decoder) ==> decoder@.frame is Some,
    {
        let mut decoder = WebPDecoder { source, state: FrameState::Uninitialized };
        match decoder.read_metadata(decode) {
            Ok(()) => Ok(decoder),
            Err(e) => Err(e),
        }
    }

    /// Validates the envelope and returns the size it declares. The size is
    /// not held against the length of the stream.
    fn read_riff_header<C>(&mut self) -> (size: Result<u32, WebPError<C>>)
        ensures
            final(self)@.frame == old(self)@.frame,
            size == envelope::<C>(old(self)@.unread),
            size is Ok ==> final(self)@.unread == old(self)@.unread.skip(12),
    {
        let ghost stream = self.source@;
        let riff = match self.source.read_tag() {
            Some(tag) => tag,
            None => {
                return Err(WebPError::IoTruncated);
            },
        };
        if !same_tag(&riff, &RIFF) {
            return Err(WebPError::MalformedEnvelope(Signature::Outer));
        }
        let size = match self.source.read_u32_le() {
            Some(size) => size,
            None => {
                return Err(WebPError::IoTruncated);
            },
        };
        let webp = match self.source.read_tag() {
            Some(tag) => tag,
            None => {
                return Err(WebPError::IoTruncated);
            },
        };
        proof {
            assert(stream.skip(4).subrange(0, 4) =~= stream.subrange(4, 8));
            assert(stream.skip(4).skip(4).subrange(0, 4) =~= stream.subrange(8, 12));
            assert(stream.skip(4).skip(4).skip(4) =~= stream.skip(12));
        }
        if !same_tag(&webp, &WEBP) {
            return Err(WebPError::MalformedEnvelope(Signature::Format));
        }
        Ok(size)
    }

    /// Walks the chunks up to the payload chunk and returns the length it
    /// declares. Ignorable chunks are skipped, pad byte included; a feature
    /// chunk ends the walk.
    fn read_vp8_header<C>(&mut self) -> (len: Result<u32, WebPError<C>>)
        ensures
            final(self)@.frame == old(self)@.frame,
            match find_payload::<C>(old(self)@.unread) {
                Ok(header) => len == Ok::<u32, WebPError<C>>(header.len) && final(self)@.unread
                    == header.rest,
                Err(e) => len == Err::<u32, WebPError<C>>(e),
            },
    {
        loop
            invariant
                self@.frame == old(self)@.frame,
                find_payload::<C>(self@.unread) == find_payload::<C>(old(self)@.unread),
            decreases self@.unread.len(),
        {
            let ghost chunks = self.source@;
            let tag = match self.source.read_tag() {
                Some(tag) => tag,
                None => {
                    return Err(WebPError::IoTruncated);
                },
            };
            match classify(&tag) {
                ChunkKind::Payload => {
                    let len = match self.source.read_u32_le() {
                        Some(len) => len,
                        None => {
                            return Err(WebPError::IoTruncated);
                        },
                    };
                    proof {
                        assert(chunks.skip(4).subrange(0, 4) =~= chunks.subrange(4, 8));
                        assert(chunks.skip(4).skip(4) =~= chunks.skip(8));
                    }
                    return Ok(len);
                },
                ChunkKind::Unsupported(feature) => {
                    return Err(WebPError::UnsupportedFeature(feature));
                },
                ChunkKind::Ignorable => {
                    let len = match self.source.read_u32_le() {
                        Some(len) => len,
                        None => {
                            return Err(WebPError::IoTruncated);
                        },
                    };
                    // A chunk of odd length is followed by one pad byte.
                    let body: u64 = if len % 2 != 0 {
                        len as u64 + 1
                    } else {
                        len as u64
                    };
                    proof {
                        assert(chunks.skip(4).subrange(0, 4) =~= chunks.subrange(4, 8));
                        assert(chunks.skip(4).skip(4).len() == chunks.len() - 8);
                    }
                    if !self.source.discard(body) {
                        return Err(WebPError::IoTruncated);
                    }
                    proof {
                        assert(chunks.skip(4).skip(4).skip(body as int) =~= chunks.skip(
                            8 + body as int,
                        ));
                    }
                },
            }
        }
    }

    /// Reads `len` bytes of payload, hands them to `decode`, and keeps the
    /// frame that comes back.
    fn read_frame<C, F: FnOnce(Vec<u8>) -> Result<Frame, C>>(&mut self, len: u32, decode: F) -> (done:
        Result<(), WebPError<C>>)
        requires
            forall|payload: Vec<u8>| decode.requires((payload,)),
        ensures
            done is Err ==> final(self)@.frame == old(self)@.frame,
            old(self)@.unread.len() < len ==> done == Err::<(), WebPError<C>>(
                WebPError::IoTruncated,
            ),
            old(self)@.unread.len() >= len ==> exists|out: Result<Frame, C>| #[trigger]
                decodes_to(decode, old(self)@.unread.take(len as int), out) && delivered(
                    Located {
                        payload: old(self)@.unread.take(len as int),
                        rest: old(self)@.unread.skip(len as int),
                    },
                    out,
                ) == match done {
                    Ok(()) => Ok::<DecoderView, WebPError<C>>(final(self)@),
                    Err(e) => Err(e),
                },
    {
        let framedata = match self.source.read_bytes(len) {
            Some(bytes) => bytes,
            None => {
                return Err(WebPError::IoTruncated);
            },
        };
        let out = decode(framedata);
        proof {
            assert(decodes_to(decode, old(self)@.unread.take(len as int), out));
        }
        match out {
            Ok(frame) => {
                self.state = FrameState::Ready(frame);
                Ok(())
            },
            Err(cause) => Err(WebPError::UnderlyingDecodeFailed(cause)),
        }
    }

    /// Extracts the frame unless that has been done: validates the envelope,
    /// walks the chunks, reads the payload and has it decoded. On a decoder
    /// that holds its frame this reads nothing and changes nothing.
    pub fn read_metadata<C, F: FnOnce(Vec<u8>) -> Result<Frame, C>>(&mut self, decode: F) -> (done:
        Result<(), WebPError<C>>)
        requires
            forall|payload: Vec<u8>| decode.requires((payload,)),
        ensures
            old(self)@.frame is Some ==> done is Ok && *final(self) == *old(self),
            old(self)@.frame is None ==> extraction(
                old(self)@.unread,
                decode,
                match done {
                    Ok(()) => Ok(final(self)@),
                    Err(e) => Err(e),
                },
            ),
            done is Err ==> final(self)@.frame == old(self)@.frame,
            done is Ok ==> final(self)@.frame is Some,
    {
        match self.state {
            FrameState::Ready(_) => {
                return Ok(());
            },
            FrameState::Uninitialized => {},
        }
        match self.read_riff_header::<C>() {
            Ok(_) => {},
            Err(e) => {
                return Err(e);
            },
        }
        let len = match self.read_vp8_header::<C>() {
            Ok(len) => len,
            Err(e) => {
                return Err(e);
            },
        };
        let ghost rest = self@.unread;
        let done = self.read_frame(len, decode);
        proof {
            if rest.len() >= len {
                let at = Located { payload: rest.take(len as int), rest: rest.skip(len as int) };
                assert(locate::<C>(old(self)@.unread) == Ok::<Located, WebPError<C>>(at));
                let out = choose|out: Result<Frame, C>| #[trigger]
                    decodes_to(decode, at.payload, out) && delivered(at, out) == match done {
                        Ok(()) => Ok::<DecoderView, WebPError<C>>(self@),
                        Err(e) => Err(e),
                    };
                assert(decodes_to(decode, at.payload, out));
            }
        }
        done
    }

    /// The byte source, positioned after whatever extraction has read.
    pub fn source(&self) -> (source: &ByteSource)
        ensures
            source@ == self@.unread,
    {
        &self.source
    }

    /// Width and height of the image.
    pub fn dimensions(&self) -> (dimensions: (u32, u32))
        ensures
            dimensions.0 == self@.width(),
            dimensions.1 == self@.height(),
    {
        match &self.state {
            FrameState::Ready(frame) => (frame.width() as u32, frame.height() as u32),
            FrameState::Uninitialized => (0, 0),
        }
    }

    /// The color model of the image: always single-channel 8-bit luma.
    pub fn color_type(&self) -> (color: ColorType)
        ensures
            color == ColorType::L8,
    {
        ColorType::L8
    }

    /// Number of bytes in the decoded image: one per pixel.
    pub fn total_bytes(&self) -> (bytes: u64)
        ensures
            bytes == self@.width() * self@.height(),
            bytes == self@.luma().len(),
    {
        match &self.state {
            FrameState::Ready(frame) => {
                let luma = frame.luma();
                luma.len() as u64
            },
            FrameState::Uninitialized => 0,
        }
    }

    /// Turns the decoder into a reader over the decoded plane.
    pub fn into_reader(self) -> (reader: WebpReader)
        ensures
            reader@ == self@.luma(),
    {
        match self.state {
            FrameState::Ready(frame) => WebpReader::new(frame.into_luma()),
            FrameState::Uninitialized => WebpReader::new(Vec::new()),
        }
    }

    /// Copies the decoded plane into `buf`, which must have room for exactly
    /// `total_bytes()` bytes.
    pub fn read_image(self, buf: &mut [u8])
        requires
            old(buf)@.len() == self@.width() * self@.height(),
        ensures
            final(buf)@ == self@.luma(),
    {
        match self.state {
            FrameState::Ready(frame) => {
                let luma = frame.luma();
                let mut i: usize = 0;
                while i < luma.len()
                    invariant
                        i <= luma@.len(),
                        buf@.len() == luma@.len(),
                        forall|j: int| 0 <= j < i ==> buf@[j] == luma@[j],
                    decreases luma@.len() - i,
                {
                    buf[i] = luma[i];
                    i += 1;
                }
                proof {
                    assert(buf@ =~= luma@);
                }
            },
            FrameState::Uninitialized => {
                proof {
                    assert(buf@ =~= Seq::<u8>::empty());
                }
            },
        }
    }
}

} // verus!
