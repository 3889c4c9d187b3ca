//! The closed codec tag enumeration and its dispatch table: spec inference
//! and encoder/decoder construction over type-erased signal and stream
//! handles. Adding a codec means adding a variant and its dispatch arms,
//! checked by exhaustiveness rather than a runtime registry.

use vstd::prelude::*;

use crate::descriptor::{
    spec_byte_width, SampleFormat, SignalSpec, StreamSpec, StreamSpecBuilder,
};
use crate::error::SyphonError;

verus! {

/// Identity of a codec family. A tag owns no data; it is purely the key the
/// dispatch table below routes on. Every stream descriptor carries exactly
/// one tag.
#[derive(Clone, Copy, Debug, PartialEq, Eq, Hash, Structural)]
#[non_exhaustive]
pub enum KnownCodec {
    PcmLE,
    PcmBE,
}

/// A type-erased handle to a concrete signal implementation, carrying its
/// descriptor. The handle exclusively stands for the underlying signal for
/// its lifetime; concrete codec internals stay behind it.
#[derive(Clone, Copy, Debug, PartialEq, Eq, Structural)]
pub struct TaggedSignal {
    pub signal_spec: SignalSpec,
}

/// A type-erased handle to a concrete stream implementation, carrying its
/// descriptor, codec tag included.
#[derive(Clone, Copy, Debug, PartialEq, Eq, Structural)]
pub struct TaggedStream {
    pub stream_spec: StreamSpec,
}

/// What PCM spec inference yields on a partial descriptor carrying the tag
/// `tag`: the format, rate and channel count must already be known, and the
/// block alignment — the one field PCM itself defines — is filled in as
/// bytes-per-sample times channels, or checked against that product where
/// the caller set it.
pub open spec fn spec_infer_pcm(tag: KnownCodec, b: StreamSpecBuilder) -> Result<
    StreamSpec,
    SyphonError,
> {
    if b.sample_format is None || b.sample_rate is None || b.n_channels is None {
        Err(SyphonError::MissingData)
    } else {
        let ba = spec_byte_width(b.sample_format->Some_0) * b.n_channels->Some_0;
        if b.block_align is Some && b.block_align->Some_0 != ba {
            Err(SyphonError::ParamMismatch)
        } else {
            Ok(
                StreamSpec {
                    codec: tag,
                    sample_format: b.sample_format->Some_0,
                    sample_rate: b.sample_rate->Some_0,
                    n_channels: b.n_channels->Some_0,
                    block_align: ba as u32,
                },
            )
        }
    }
}

/// What spec inference yields: the partial descriptor's own tag routes to
/// the matching codec's rule, and a descriptor with no tag is missing data.
pub open spec fn spec_infer(b: StreamSpecBuilder) -> Result<StreamSpec, SyphonError> {
    match b.codec {
        Some(tag) => spec_infer_pcm(tag, b),
        None => Err(SyphonError::MissingData),
    }
}

/// The stream descriptor that encoding a signal with descriptor `s` under
/// `tag` produces.
pub open spec fn spec_encoded_spec(tag: KnownCodec, s: SignalSpec) -> StreamSpec {
    StreamSpec {
        codec: tag,
        sample_format: s.sample_format,
        sample_rate: s.sample_rate,
        n_channels: s.n_channels,
        block_align: (spec_byte_width(s.sample_format) * s.n_channels) as u32,
    }
}

/// The signal descriptor that decoding a stream with descriptor `s` yields.
pub open spec fn spec_decoded_spec(s: StreamSpec) -> SignalSpec {
    SignalSpec {
        sample_format: s.sample_format,
        sample_rate: s.sample_rate,
        n_channels: s.n_channels,
    }
}

/// PCM spec inference: deterministic and side-effect-free, it completes the
/// one field PCM defines — the block alignment — from the fields present,
/// and rejects a descriptor that contradicts it.
pub fn infer_pcm_spec(tag: KnownCodec, builder: &StreamSpecBuilder) -> (r: Result<
    StreamSpec,
    SyphonError,
>)
    ensures
        r == spec_infer_pcm(tag, *builder),
{
    let (sample_format, sample_rate, n_channels) = match (builder.sample_format,
        builder.sample_rate, builder.n_channels) {
        (Some(f), Some(sr), Some(ch)) => (f, sr, ch),
        _ => {
            return Err(SyphonError::MissingData);
        },
    };
    let ba = sample_format.byte_width() * (n_channels as u32);
    match builder.block_align {
        Some(given) => {
            if given != ba {
                return Err(SyphonError::ParamMismatch);
            }
        },
        None => {},
    }
    Ok(StreamSpec { codec: tag, sample_format, sample_rate, n_channels, block_align: ba })
}

/// What inferring a partial descriptor under a proposed tag yields: the tag
/// is merged in first — a different tag already stored is a parameter
/// mismatch — and the codec's own inference rule then completes the rest.
pub open spec fn spec_infer_with(b: StreamSpecBuilder, tag: KnownCodec) -> Result<
    StreamSpec,
    SyphonError,
> {
    if b.codec is Some && b.codec->Some_0 != tag {
        Err(SyphonError::ParamMismatch)
    } else {
        spec_infer_pcm(tag, b)
    }
}

impl StreamSpecBuilder {
    /// Completes this partial descriptor under the proposed `tag`,
    /// delegating to the codec it identifies. A different tag already
    /// stored is a parameter mismatch; the inference itself is
    /// deterministic and side-effect-free.
    pub fn infer(&self, tag: KnownCodec) -> (r: Result<StreamSpec, SyphonError>)
        ensures
            r == spec_infer_with(*self, tag),
    {
        match self.codec {
            Some(stored) => {
                if stored != tag {
                    return Err(SyphonError::ParamMismatch);
                }
            },
            None => {},
        }
        infer_pcm_spec(tag, self)
    }
}

impl KnownCodec {
    /// Routes a partial descriptor to the codec its tag names and completes
    /// it; a descriptor with no tag set is missing data. Deterministic:
    /// the same partial descriptor always yields the same full descriptor
    /// or the same failure.
    pub fn infer_spec(builder: StreamSpecBuilder) -> (r: Result<StreamSpec, SyphonError>)
        ensures
            r == spec_infer(builder),
    {
        match builder.codec {
            Some(KnownCodec::PcmLE) => infer_pcm_spec(KnownCodec::PcmLE, &builder),
            Some(KnownCodec::PcmBE) => infer_pcm_spec(KnownCodec::PcmBE, &builder),
            None => Err(SyphonError::MissingData),
        }
    }

    /// Wraps a signal as a stream encoded under this tag: the stream's
    /// descriptor keeps the signal's format, rate and channel count, and
    /// takes the codec-defined block alignment. Dispatch is exhaustive over
    /// the tag enumeration, so a new tag without an arm is a compile-time
    /// gap, not a silent no-op.
    pub fn encoder(&self, signal: TaggedSignal) -> (r: Result<TaggedStream, SyphonError>)
        ensures
            r == Ok::<TaggedStream, SyphonError>(
                TaggedStream { stream_spec: spec_encoded_spec(*self, signal.signal_spec) },
            ),
    {
        match self {
            KnownCodec::PcmLE | KnownCodec::PcmBE => {
                let s = signal.signal_spec;
                let ba = s.sample_format.byte_width() * (s.n_channels as u32);
                Ok(
                    TaggedStream {
                        stream_spec: StreamSpec {
                            codec: *self,
                            sample_format: s.sample_format,
                            sample_rate: s.sample_rate,
                            n_channels: s.n_channels,
                            block_align: ba,
                        },
                    },
                )
            },
        }
    }

    /// Unwraps a stream into the signal it decodes to, routed by the tag
    /// the stream itself carries, not a caller-supplied one.
    pub fn decoder(stream: TaggedStream) -> (r: Result<TaggedSignal, SyphonError>)
        ensures
            r == Ok::<TaggedSignal, SyphonError>(
                TaggedSignal { signal_spec: spec_decoded_spec(stream.stream_spec) },
            ),
    {
        match stream.stream_spec.codec {
            KnownCodec::PcmLE | KnownCodec::PcmBE => {
                let s = stream.stream_spec;
                Ok(
                    TaggedSignal {
                        signal_spec: SignalSpec {
                            sample_format: s.sample_format,
                            sample_rate: s.sample_rate,
                            n_channels: s.n_channels,
                        },
                    },
                )
            },
        }
    }
}

/// Round trip: encoding a signal under any tag and then decoding the
/// resulting stream yields a signal whose descriptor equals the original's
/// — sample rate, channels and format are preserved.
pub proof fn lemma_encode_decode_roundtrip(tag: KnownCodec, s: SignalSpec)
    ensures
        spec_decoded_spec(spec_encoded_spec(tag, s)) == s,
{
}

/// Spec inference never invents parameters: whatever full descriptor it
/// returns agrees with every field the partial descriptor had set, and
/// carries the tag that routed it.
pub proof fn lemma_infer_consistent(b: StreamSpecBuilder)
    requires
        spec_infer(b) is Ok,
    ensures
        b.codec == Some(spec_infer(b)->Ok_0.codec),
        b.sample_format == Some(spec_infer(b)->Ok_0.sample_format),
        b.sample_rate == Some(spec_infer(b)->Ok_0.sample_rate),
        b.n_channels == Some(spec_infer(b)->Ok_0.n_channels),
        b.block_align is Some ==> b.block_align == Some(spec_infer(b)->Ok_0.block_align),
{
}

} // verus!
