//! Four-byte RIFF tags and how the reader treats each of them.

use vstd::prelude::*;

verus! {

/// Container magic, `"RIFF"`: the first four bytes of the envelope.
pub const RIFF: [u8; 4] = [0x52, 0x49, 0x46, 0x46];

/// Format magic, `"WEBP"`: the last four bytes of the envelope.
pub const WEBP: [u8; 4] = [0x57, 0x45, 0x42, 0x50];

/// `"VP8 "`: the chunk that carries the lossy bitstream.
pub const VP8: [u8; 4] = [0x56, 0x50, 0x38, 0x20];

/// `"ALPH"`: alpha channel data.
pub const ALPH: [u8; 4] = [0x41, 0x4C, 0x50, 0x48];

/// `"VP8L"`: a lossless bitstream.
pub const VP8L: [u8; 4] = [0x56, 0x50, 0x38, 0x4C];

/// `"ANIM"`: animation control.
pub const ANIM: [u8; 4] = [0x41, 0x4E, 0x49, 0x4D];

/// `"ANMF"`: one frame of an animation.
pub const ANMF: [u8; 4] = [0x41, 0x4E, 0x4D, 0x46];

/// A coding mode that the container format knows and this reader rejects.
#[derive(Debug, Clone, Copy, PartialEq, Eq)]
pub enum Feature {
    Alpha,
    Lossless,
    AnimationControl,
    AnimationFrame,
}

impl Feature {
    /// The chunk tag that announces the feature.
    pub open spec fn spec_tag(self) -> Seq<u8> {
        match self {
            Feature::Alpha => ALPH@,
            Feature::Lossless => VP8L@,
            Feature::AnimationControl => ANIM@,
            Feature::AnimationFrame => ANMF@,
        }
    }

    /// The chunk tag that announces the feature.
    pub fn tag(&self) -> (tag: [u8; 4])
        ensures
            tag@ == self.spec_tag(),
    {
        match self {
            Feature::Alpha => ALPH,
            Feature::Lossless => VP8L,
            Feature::AnimationControl => ANIM,
            Feature::AnimationFrame => ANMF,
        }
    }
}

/// What the chunk walker does with a chunk, decided by its tag alone.
#[derive(Debug, Clone, Copy, PartialEq, Eq)]
pub enum ChunkKind {
    /// The one chunk the reader understands.
    Payload,
    /// A chunk whose presence ends the walk with a rejection.
    Unsupported(Feature),
    /// Any other chunk: skipped without being interpreted.
    Ignorable,
}

/// The kind of the chunk whose tag is `tag`.
pub open spec fn chunk_kind(tag: Seq<u8>) -> ChunkKind {
    if tag == VP8@ {
        ChunkKind::Payload
    } else if tag == ALPH@ {
        ChunkKind::Unsupported(Feature::Alpha)
    } else if tag == VP8L@ {
        ChunkKind::Unsupported(Feature::Lossless)
    } else if tag == ANIM@ {
        ChunkKind::Unsupported(Feature::AnimationControl)
    } else if tag == ANMF@ {
        ChunkKind::Unsupported(Feature::AnimationFrame)
    } else {
        ChunkKind::Ignorable
    }
}

/// Whether two tags hold the same four bytes.
pub fn same_tag(a: &[u8; 4], b: &[u8; 4]) -> (same: bool)
    ensures
        same == (a@ == b@),
{
    let same = a[0] == b[0] && a[1] == b[1] && a[2] == b[2] && a[3] == b[3];
    proof {
        if same {
            assert(a@ =~= b@);
        }
    }
    same
}

/// Classifies a chunk by its tag.
pub fn classify(tag: &[u8; 4]) -> (kind: ChunkKind)
    ensures
        kind == chunk_kind(tag@),
{
    if same_tag(tag, &VP8) {
        ChunkKind::Payload
    } else if same_tag(tag, &ALPH) {
        ChunkKind::Unsupported(Feature::Alpha)
    } else if same_tag(tag, &VP8L) {
        ChunkKind::Unsupported(Feature::Lossless)
    } else if same_tag(tag, &ANIM) {
        ChunkKind::Unsupported(Feature::AnimationControl)
    } else if same_tag(tag, &ANMF) {
        ChunkKind::Unsupported(Feature::AnimationFrame)
    } else {
        ChunkKind::Ignorable
    }
}

/// A tag is rejected exactly when it is the tag of some feature, and then the
/// rejection names that feature.
pub proof fn lemma_unsupported_tags(tag: Seq<u8>, feature: Feature)
    ensures
        chunk_kind(tag) == ChunkKind::Unsupported(feature) <==> tag == feature.spec_tag(),
{
    assert(VP8@[3] != ALPH@[3] && VP8@[3] != VP8L@[3] && VP8@[3] != ANIM@[3] && VP8@[3] != ANMF@[3]);
    assert(ALPH@[2] != VP8L@[2] && ALPH@[2] != ANIM@[2] && ALPH@[2] != ANMF@[2]);
    assert(VP8L@[0] != ANIM@[0] && VP8L@[0] != ANMF@[0]);
    assert(ANIM@[2] != ANMF@[2]);
}

} // verus!
