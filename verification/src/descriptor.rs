//! Full and partial parameter sets describing a signal or stream, with the
//! merge and finalize rules. Merge is commutative: a field set on both sides
//! to different values always fails rather than silently picking one side.

use vstd::prelude::*;

use crate::codec::KnownCodec;
use crate::error::SyphonError;

verus! {

/// The in-memory layout of one sample. Purely a dispatch key: the sample
/// data moved by the copy loops is opaque to the descriptor layer.
#[derive(Clone, Copy, Debug, PartialEq, Eq, Hash, Structural)]
pub enum SampleFormat {
    Uint8,
    Int16,
    Int32,
    Int64,
}

/// How many bytes one sample of the given format occupies.
pub open spec fn spec_byte_width(f: SampleFormat) -> u32 {
    match f {
        SampleFormat::Uint8 => 1,
        SampleFormat::Int16 => 2,
        SampleFormat::Int32 => 4,
        SampleFormat::Int64 => 8,
    }
}

impl SampleFormat {
    /// The size of one sample of this format in bytes.
    pub fn byte_width(&self) -> (r: u32)
        ensures
            r == spec_byte_width(*self),
            1 <= r <= 8,
    {
        match self {
            SampleFormat::Uint8 => 1,
            SampleFormat::Int16 => 2,
            SampleFormat::Int32 => 4,
            SampleFormat::Int64 => 8,
        }
    }
}

/// Immutable descriptor of a decoded signal: sample format, sample rate in
/// frames per second, and interleaved channel count. Two signals are
/// compatible iff every field matches exactly.
#[derive(Clone, Copy, Debug, PartialEq, Eq, Hash, Structural)]
pub struct SignalSpec {
    pub sample_format: SampleFormat,
    pub sample_rate: u32,
    pub n_channels: u16,
}

/// A signal descriptor that the copy and duration layers can work with:
/// at least one channel, so that per-frame quantities are well defined.
pub open spec fn signal_spec_valid(s: SignalSpec) -> bool {
    s.n_channels >= 1
}

/// Immutable descriptor of an encoded stream: the codec tag plus the
/// parameters of the signal it encodes and the block alignment, the number
/// of bytes in one full multi-channel frame of the encoded representation.
#[derive(Clone, Copy, Debug, PartialEq, Eq, Hash, Structural)]
pub struct StreamSpec {
    pub codec: KnownCodec,
    pub sample_format: SampleFormat,
    pub sample_rate: u32,
    pub n_channels: u16,
    pub block_align: u32,
}

/// A stream descriptor that the copy and duration layers can work with:
/// a positive block alignment and at least one channel.
pub open spec fn stream_spec_valid(s: StreamSpec) -> bool {
    s.n_channels >= 1 && s.block_align >= 1
}

impl StreamSpec {
    /// Merges two full descriptors. With every field already set on both
    /// sides, this succeeds exactly when the two are equal; any differing
    /// field is a parameter mismatch.
    pub fn merged(&self, other: &StreamSpec) -> (r: Result<StreamSpec, SyphonError>)
        ensures
            *self == *other ==> r == Ok::<StreamSpec, SyphonError>(*self),
            *self != *other ==> r == Err::<StreamSpec, SyphonError>(SyphonError::ParamMismatch),
    {
        if self == other {
            Ok(*self)
        } else {
            Err(SyphonError::ParamMismatch)
        }
    }

    /// The partial descriptor holding exactly this descriptor's fields.
    pub fn to_builder(&self) -> (r: StreamSpecBuilder)
        ensures
            r == spec_builder_of(*self),
    {
        StreamSpecBuilder {
            codec: Some(self.codec),
            sample_format: Some(self.sample_format),
            sample_rate: Some(self.sample_rate),
            n_channels: Some(self.n_channels),
            block_align: Some(self.block_align),
        }
    }
}

/// The partial descriptor whose set fields are exactly those of `s`.
pub open spec fn spec_builder_of(s: StreamSpec) -> StreamSpecBuilder {
    StreamSpecBuilder {
        codec: Some(s.codec),
        sample_format: Some(s.sample_format),
        sample_rate: Some(s.sample_rate),
        n_channels: Some(s.n_channels),
        block_align: Some(s.block_align),
    }
}

/// Field-optional form of [`StreamSpec`], used while a descriptor is being
/// discovered from headers or caller hints. All transitions are pure: they
/// return a new value rather than mutating in place.
#[derive(Clone, Copy, Debug, PartialEq, Eq)]
pub struct StreamSpecBuilder {
    pub codec: Option<KnownCodec>,
    pub sample_format: Option<SampleFormat>,
    pub sample_rate: Option<u32>,
    pub n_channels: Option<u16>,
    pub block_align: Option<u32>,
}

/// The union of one optional field from each side: `None` marks a conflict
/// (both sides set, to different values), `Some(f)` the merged field.
pub open spec fn spec_merged_field<T>(a: Option<T>, b: Option<T>) -> Option<Option<T>> {
    match (a, b) {
        (Some(x), Some(y)) => if x == y {
            Some(a)
        } else {
            None
        },
        (Some(_), None) => Some(a),
        (None, _) => Some(b),
    }
}

/// What merging two partial descriptors yields: the field-wise union, or a
/// parameter mismatch as soon as any field is set on both sides to
/// different values.
pub open spec fn spec_merge(
    a: StreamSpecBuilder,
    b: StreamSpecBuilder,
) -> Result<StreamSpecBuilder, SyphonError> {
    if spec_merged_field(a.codec, b.codec) is None
        || spec_merged_field(a.sample_format, b.sample_format) is None
        || spec_merged_field(a.sample_rate, b.sample_rate) is None
        || spec_merged_field(a.n_channels, b.n_channels) is None
        || spec_merged_field(a.block_align, b.block_align) is None {
        Err(SyphonError::ParamMismatch)
    } else {
        Ok(StreamSpecBuilder {
            codec: spec_merged_field(a.codec, b.codec)->Some_0,
            sample_format: spec_merged_field(a.sample_format, b.sample_format)->Some_0,
            sample_rate: spec_merged_field(a.sample_rate, b.sample_rate)->Some_0,
            n_channels: spec_merged_field(a.n_channels, b.n_channels)->Some_0,
            block_align: spec_merged_field(a.block_align, b.block_align)->Some_0,
        })
    }
}

/// All five fields are set.
pub open spec fn spec_builder_complete(b: StreamSpecBuilder) -> bool {
    b.codec is Some && b.sample_format is Some && b.sample_rate is Some && b.n_channels is Some
        && b.block_align is Some
}

/// The full descriptor a complete partial descriptor finalizes to.
pub open spec fn spec_finalized(b: StreamSpecBuilder) -> StreamSpec {
    StreamSpec {
        codec: b.codec->Some_0,
        sample_format: b.sample_format->Some_0,
        sample_rate: b.sample_rate->Some_0,
        n_channels: b.n_channels->Some_0,
        block_align: b.block_align->Some_0,
    }
}

impl StreamSpecBuilder {
    /// The partial descriptor with no field set.
    pub fn new() -> (r: StreamSpecBuilder)
        ensures
            r.codec is None,
            r.sample_format is None,
            r.sample_rate is None,
            r.n_channels is None,
            r.block_align is None,
    {
        StreamSpecBuilder {
            codec: None,
            sample_format: None,
            sample_rate: None,
            n_channels: None,
            block_align: None,
        }
    }

    /// Merges two partial descriptors: unset fields take the other side's
    /// value; a field set on both sides to different values fails with a
    /// parameter mismatch rather than silently picking one side.
    pub fn merge(&self, other: &StreamSpecBuilder) -> (r: Result<
        StreamSpecBuilder,
        SyphonError,
    >)
        ensures
            r == spec_merge(*self, *other),
    {
        let codec = match (self.codec, other.codec) {
            (Some(x), Some(y)) => if x == y {
                Some(x)
            } else {
                return Err(SyphonError::ParamMismatch);
            },
            (Some(x), None) => Some(x),
            (None, y) => y,
        };
        let sample_format = match (self.sample_format, other.sample_format) {
            (Some(x), Some(y)) => if x == y {
                Some(x)
            } else {
                return Err(SyphonError::ParamMismatch);
            },
            (Some(x), None) => Some(x),
            (None, y) => y,
        };
        let sample_rate = match (self.sample_rate, other.sample_rate) {
            (Some(x), Some(y)) => if x == y {
                Some(x)
            } else {
                return Err(SyphonError::ParamMismatch);
            },
            (Some(x), None) => Some(x),
            (None, y) => y,
        };
        let n_channels = match (self.n_channels, other.n_channels) {
            (Some(x), Some(y)) => if x == y {
                Some(x)
            } else {
                return Err(SyphonError::ParamMismatch);
            },
            (Some(x), None) => Some(x),
            (None, y) => y,
        };
        let block_align = match (self.block_align, other.block_align) {
            (Some(x), Some(y)) => if x == y {
                Some(x)
            } else {
                return Err(SyphonError::ParamMismatch);
            },
            (Some(x), None) => Some(x),
            (None, y) => y,
        };
        Ok(StreamSpecBuilder { codec, sample_format, sample_rate, n_channels, block_align })
    }

    /// Succeeds with the full descriptor exactly when every field is set;
    /// otherwise the descriptor is still missing data.
    pub fn try_finalize(&self) -> (r: Result<StreamSpec, SyphonError>)
        ensures
            spec_builder_complete(*self) ==> r == Ok::<StreamSpec, SyphonError>(
                spec_finalized(*self),
            ),
            !spec_builder_complete(*self) ==> r == Err::<StreamSpec, SyphonError>(
                SyphonError::MissingData,
            ),
    {
        match (self.codec, self.sample_format, self.sample_rate, self.n_channels,
            self.block_align) {
            (Some(codec), Some(sample_format), Some(sample_rate), Some(n_channels),
                Some(block_align)) => Ok(
                StreamSpec { codec, sample_format, sample_rate, n_channels, block_align },
            ),
            _ => Err(SyphonError::MissingData),
        }
    }
}

/// Merging partial descriptors is commutative, failures included: whichever
/// side a merge starts from, the result is the same.
pub proof fn lemma_merge_commutative(a: StreamSpecBuilder, b: StreamSpecBuilder)
    ensures
        spec_merge(a, b) == spec_merge(b, a),
{
}

/// Merging partial descriptors is associative on any three descriptors with
/// no conflicting fields: grouping does not matter, and the merges succeed.
pub proof fn lemma_merge_associative(a: StreamSpecBuilder, b: StreamSpecBuilder, c: StreamSpecBuilder)
    requires
        spec_merge(a, b) is Ok,
        spec_merge(b, c) is Ok,
        spec_merge(a, c) is Ok,
    ensures
        spec_merge(spec_merge(a, b)->Ok_0, c) is Ok,
        spec_merge(a, spec_merge(b, c)->Ok_0) is Ok,
        spec_merge(spec_merge(a, b)->Ok_0, c) == spec_merge(a, spec_merge(b, c)->Ok_0),
{
}

} // verus!
