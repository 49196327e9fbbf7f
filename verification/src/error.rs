//! The single taxonomy of failures that the reader reports.

use crate::tag::Feature;
use vstd::prelude::*;

verus! {

/// Which of the two envelope tags did not hold its magic.
#[derive(Debug, Clone, Copy, PartialEq, Eq)]
pub enum Signature {
    /// The container magic at the very start of the stream.
    Outer,
    /// The format magic that follows the declared size.
    Format,
}

impl Signature {
    /// The reason given for a malformed envelope, as text.
    pub open spec fn spec_reason(self) -> Seq<char> {
        match self {
            Signature::Outer => "invalid outer signature"@,
            Signature::Format => "invalid format signature"@,
        }
    }

    /// The reason given for a malformed envelope, as text.
    pub fn reason(&self) -> (text: &'static str)
        ensures
            text@ == self.spec_reason(),
    {
        match self {
            Signature::Outer => "invalid outer signature",
            Signature::Format => "invalid format signature",
        }
    }
}

/// Why no frame could be extracted. `C` is the cause that the bitstream
/// decoder reports; the reader forwards it without looking inside.
#[derive(Debug, PartialEq, Eq)]
pub enum WebPError<C> {
    /// One of the envelope's two magic tags does not match.
    MalformedEnvelope(Signature),
    /// The byte source ended before a required field or a declared length
    /// could be read in full.
    IoTruncated,
    /// A chunk announced a coding mode that the reader does not implement.
    UnsupportedFeature(Feature),
    /// The bitstream decoder rejected the payload.
    UnderlyingDecodeFailed(C),
}

} // verus!
