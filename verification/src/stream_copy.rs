//! Blocking copy loops over encoded streams: the byte-level counterparts
//! of the signal copies, with the same retry and termination policy. The
//! two stream descriptors are merged — which, both being full, means
//! checked for equality, codec tag included — before any byte moves.

use vstd::prelude::*;

use crate::copy::{lemma_copy_accounting, lemma_extend_take_skip, lemma_prefix_reflexive,
    lemma_unchanged_accounting, read_step, seq_is_prefix, write_failure_outcome, ReadStep};
use crate::duration::{spec_n_bytes, stream_duration_valid, Duration};
use crate::error::SyphonError;
use crate::stream::{StreamReader, StreamWriter};

verus! {

/// The bytes `r` has produced beyond the first `before` of them.
pub open spec fn stream_produced_from<R: StreamReader>(r: R, before: nat) -> Seq<u8> {
    r.produced().skip(before as int)
}

/// The bytes `w` has accepted beyond the first `before` of them.
pub open spec fn stream_written_from<W: StreamWriter>(w: W, before: nat) -> Seq<u8> {
    w.written().skip(before as int)
}

/// Copies exactly the requested duration of bytes from `reader` to
/// `writer` through the caller's scratch buffer, retrying transient read
/// errors in place. It succeeds only having moved every byte: a source
/// that runs out first is out of bounds, and everything the writer
/// accepted is exactly what the reader produced, in order.
pub fn copy_stream_exact<R: StreamReader, W: StreamWriter>(
    reader: &mut R,
    writer: &mut W,
    duration: Duration,
    buf: &mut Vec<u8>,
) -> (r: Result<(), SyphonError>)
    requires
        old(reader).spec_of() == old(writer).spec_of() ==> stream_duration_valid(
            duration,
            old(reader).spec_of(),
        ),
    ensures
        final(reader).spec_of() == old(reader).spec_of(),
        final(writer).spec_of() == old(writer).spec_of(),
        final(buf)@.len() == old(buf)@.len(),
        seq_is_prefix(old(reader).produced(), final(reader).produced()),
        seq_is_prefix(old(writer).written(), final(writer).written()),
        seq_is_prefix(
            stream_written_from(*final(writer), old(writer).written().len()),
            stream_produced_from(*final(reader), old(reader).produced().len()),
        ),
        old(reader).spec_of() != old(writer).spec_of() ==> r == Err::<(), SyphonError>(
            SyphonError::ParamMismatch,
        ) && final(reader).produced() == old(reader).produced() && final(writer).written() == old(
            writer,
        ).written(),
        r is Ok ==> old(reader).spec_of() == old(writer).spec_of() && stream_produced_from(
            *final(reader),
            old(reader).produced().len(),
        ).len() == spec_n_bytes(duration, old(reader).spec_of()) && stream_written_from(
            *final(writer),
            old(writer).written().len(),
        ) == stream_produced_from(*final(reader), old(reader).produced().len()),
        old(reader).spec_of() == old(writer).spec_of() && spec_n_bytes(
            duration,
            old(reader).spec_of(),
        ) == 0 ==> r is Ok,
        old(reader).spec_of() == old(writer).spec_of() ==> stream_produced_from(
            *final(reader),
            old(reader).produced().len(),
        ).len() <= spec_n_bytes(duration, old(reader).spec_of()),
{
    let rspec = reader.stream_spec();
    let merged = match rspec.merged(&writer.stream_spec()) {
        Ok(m) => m,
        Err(e) => {
            proof {
                lemma_unchanged_accounting(reader.produced(), writer.written());
            }
            return Err(e);
        },
    };
    let n_bytes = duration.into_n_bytes(&merged);
    let ghost p0 = reader.produced();
    let ghost w0 = writer.written();
    let mut n: u64 = 0;
    while n < n_bytes
        invariant
            reader.spec_of() == old(reader).spec_of(),
            writer.spec_of() == old(writer).spec_of(),
            old(reader).spec_of() == old(writer).spec_of(),
            n_bytes == spec_n_bytes(duration, old(reader).spec_of()),
            n <= n_bytes,
            buf@.len() == old(buf)@.len(),
            p0 == old(reader).produced(),
            w0 == old(writer).written(),
            reader.produced().len() == p0.len() + n,
            reader.produced().take(p0.len() as int) == p0,
            writer.written() == w0 + reader.produced().skip(p0.len() as int),
        decreases n_bytes - n, reader.fuel(),
    {
        let remaining = n_bytes - n;
        let len = if (buf.len() as u64) <= remaining {
            buf.len()
        } else {
            remaining as usize
        };
        let ghost pre = reader.produced();
        let res = reader.read(buf, len);
        let k = match read_step(res, true) {
            ReadStep::Retry => {
                continue ;
            },
            ReadStep::Stop(out) => {
                proof {
                    lemma_prefix_reflexive(pre);
                    lemma_copy_accounting(p0, pre, w0, reader.produced(), writer.written());
                }
                return out;
            },
            ReadStep::Advance(k) => k,
        };
        proof {
            lemma_extend_take_skip(pre, buf@.subrange(0, k as int), p0.len());
        }
        match writer.write_exact(buf, k) {
            Ok(_) => {},
            Err(e) => {
                proof {
                    assert(seq_is_prefix(pre, reader.produced())) by {
                        assert(reader.produced().take(pre.len() as int) =~= pre);
                    }
                    lemma_copy_accounting(p0, pre, w0, reader.produced(), writer.written());
                }
                return write_failure_outcome(e, false);
            },
        }
        proof {
            assert(writer.written() =~= w0 + reader.produced().skip(p0.len() as int));
        }
        n = n + (k as u64);
    }
    proof {
        lemma_prefix_reflexive(reader.produced());
        lemma_copy_accounting(p0, reader.produced(), w0, reader.produced(), writer.written());
    }
    Ok(())
}

/// Copies bytes from `reader` to `writer` until the reader reports
/// exhaustion, retrying transient read errors in place. A sink that fills
/// up mid-way (`OutOfBounds` from a write) ends the copy successfully —
/// this variant is best-effort — while every other write error surfaces
/// unchanged.
pub fn copy_stream_all<R: StreamReader, W: StreamWriter>(
    reader: &mut R,
    writer: &mut W,
    buf: &mut Vec<u8>,
) -> (r: Result<(), SyphonError>)
    ensures
        final(reader).spec_of() == old(reader).spec_of(),
        final(writer).spec_of() == old(writer).spec_of(),
        final(buf)@.len() == old(buf)@.len(),
        seq_is_prefix(old(reader).produced(), final(reader).produced()),
        seq_is_prefix(old(writer).written(), final(writer).written()),
        seq_is_prefix(
            stream_written_from(*final(writer), old(writer).written().len()),
            stream_produced_from(*final(reader), old(reader).produced().len()),
        ),
        old(reader).spec_of() != old(writer).spec_of() ==> r == Err::<(), SyphonError>(
            SyphonError::ParamMismatch,
        ) && final(reader).produced() == old(reader).produced() && final(writer).written() == old(
            writer,
        ).written(),
        r is Ok ==> old(reader).spec_of() == old(writer).spec_of(),
{
    let rspec = reader.stream_spec();
    match rspec.merged(&writer.stream_spec()) {
        Ok(_) => {},
        Err(e) => {
            proof {
                lemma_unchanged_accounting(reader.produced(), writer.written());
            }
            return Err(e);
        },
    }
    let ghost p0 = reader.produced();
    let ghost w0 = writer.written();
    loop
        invariant
            reader.spec_of() == old(reader).spec_of(),
            writer.spec_of() == old(writer).spec_of(),
            old(reader).spec_of() == old(writer).spec_of(),
            buf@.len() == old(buf)@.len(),
            p0 == old(reader).produced(),
            w0 == old(writer).written(),
            p0.len() <= reader.produced().len(),
            reader.produced().take(p0.len() as int) == p0,
            writer.written() == w0 + reader.produced().skip(p0.len() as int),
        decreases reader.fuel(),
    {
        let len = buf.len();
        let ghost pre = reader.produced();
        let res = reader.read(buf, len);
        let k = match read_step(res, false) {
            ReadStep::Retry => {
                continue ;
            },
            ReadStep::Stop(out) => {
                proof {
                    lemma_prefix_reflexive(pre);
                    lemma_copy_accounting(p0, pre, w0, reader.produced(), writer.written());
                }
                return out;
            },
            ReadStep::Advance(k) => k,
        };
        proof {
            lemma_extend_take_skip(pre, buf@.subrange(0, k as int), p0.len());
        }
        match writer.write_exact(buf, k) {
            Ok(_) => {},
            Err(e) => {
                proof {
                    assert(seq_is_prefix(pre, reader.produced())) by {
                        assert(reader.produced().take(pre.len() as int) =~= pre);
                    }
                    lemma_copy_accounting(p0, pre, w0, reader.produced(), writer.written());
                }
                return write_failure_outcome(e, true);
            },
        }
        proof {
            assert(writer.written() =~= w0 + reader.produced().skip(p0.len() as int));
        }
    }
}

} // verus!
