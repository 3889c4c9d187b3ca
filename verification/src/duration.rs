//! A unit-tagged quantity of audio data, convertible relative to a
//! descriptor into the unit an operation iterates over: interleaved samples
//! for signal copies, bytes for stream copies. A byte quantity must be an
//! exact multiple of the frame size; a violation is a caller bug, excluded
//! by precondition rather than detected at run time.

use vstd::prelude::*;

use crate::descriptor::{
    signal_spec_valid, spec_byte_width, stream_spec_valid, SignalSpec, StreamSpec,
};

verus! {

/// How much data to move: a count of multi-channel sample frames, a count
/// of encoded bytes, or a wall-clock length in whole seconds.
#[derive(Clone, Copy, Debug, PartialEq, Eq, Hash, Structural)]
pub enum Duration {
    Frames(u64),
    Bytes(u64),
    Seconds(u64),
}

/// Bytes in one full multi-channel frame of a raw signal.
pub open spec fn spec_signal_frame_bytes(s: SignalSpec) -> int {
    spec_byte_width(s.sample_format) * s.n_channels
}

/// Whether a duration can be converted to a sample count under `s`: the
/// spec must describe at least one channel, a byte quantity must align to
/// whole frames, and the resulting count must fit the unit type.
pub open spec fn signal_duration_valid(d: Duration, s: SignalSpec) -> bool {
    signal_spec_valid(s) && match d {
        Duration::Frames(f) => f * s.n_channels <= u64::MAX,
        Duration::Bytes(b) => b as int % spec_signal_frame_bytes(s) == 0,
        Duration::Seconds(sec) => sec * s.sample_rate * s.n_channels <= u64::MAX,
    }
}

/// The number of interleaved samples a duration denotes under `s`.
pub open spec fn spec_n_samples(d: Duration, s: SignalSpec) -> int {
    match d {
        Duration::Frames(f) => f * s.n_channels,
        Duration::Bytes(b) => b as int / spec_byte_width(s.sample_format) as int,
        Duration::Seconds(sec) => sec * s.sample_rate * s.n_channels,
    }
}

/// Whether a duration can be converted to a byte count under `s`: the spec
/// must have a positive block alignment, a byte quantity must align to
/// whole blocks, and the resulting count must fit the unit type.
pub open spec fn stream_duration_valid(d: Duration, s: StreamSpec) -> bool {
    stream_spec_valid(s) && match d {
        Duration::Frames(f) => f * s.block_align <= u64::MAX,
        Duration::Bytes(b) => b as int % s.block_align as int == 0,
        Duration::Seconds(sec) => sec * s.sample_rate * s.block_align <= u64::MAX,
    }
}

/// The number of encoded bytes a duration denotes under `s`.
pub open spec fn spec_n_bytes(d: Duration, s: StreamSpec) -> int {
    match d {
        Duration::Frames(f) => f * s.block_align,
        Duration::Bytes(b) => b as int,
        Duration::Seconds(sec) => sec * s.sample_rate * s.block_align,
    }
}

impl Duration {
    /// Converts this duration into the count of interleaved samples it
    /// denotes for a signal described by `s`.
    pub fn into_n_samples(self, s: &SignalSpec) -> (r: u64)
        requires
            signal_duration_valid(self, *s),
        ensures
            r == spec_n_samples(self, *s),
    {
        match self {
            Duration::Frames(f) => f * (s.n_channels as u64),
            Duration::Bytes(b) => {
                let width = s.sample_format.byte_width();
                b / (width as u64)
            },
            Duration::Seconds(sec) => {
                proof {
                    assert(sec * s.sample_rate <= sec * s.sample_rate * s.n_channels) by (
                    nonlinear_arith)
                        requires
                            s.n_channels >= 1,
                            sec >= 0,
                            s.sample_rate >= 0,
                    ;
                }
                sec * (s.sample_rate as u64) * (s.n_channels as u64)
            },
        }
    }

    /// Converts this duration into the count of encoded bytes it denotes
    /// for a stream described by `s`.
    pub fn into_n_bytes(self, s: &StreamSpec) -> (r: u64)
        requires
            stream_duration_valid(self, *s),
        ensures
            r == spec_n_bytes(self, *s),
    {
        match self {
            Duration::Frames(f) => f * (s.block_align as u64),
            Duration::Bytes(b) => b,
            Duration::Seconds(sec) => {
                proof {
                    assert(sec * s.sample_rate <= sec * s.sample_rate * s.block_align) by (
                    nonlinear_arith)
                        requires
                            s.block_align >= 1,
                            sec >= 0,
                            s.sample_rate >= 0,
                    ;
                }
                sec * (s.sample_rate as u64) * (s.block_align as u64)
            },
        }
    }
}

} // verus!
