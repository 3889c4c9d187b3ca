//! Blocking copy and pipe loops over signals. All variants share one
//! policy: reads and writes strictly alternate; `Interrupted` and
//! `NotReady` from a read are retried without advancing; every other error
//! surfaces unchanged. Compatibility of the two descriptors is checked
//! before any read occurs.

use vstd::prelude::*;

use crate::duration::{signal_duration_valid, spec_n_samples, Duration};
use crate::error::{is_transient, SyphonError};
use crate::signal::{BufferedSignalWriter, SignalReader, SignalWriter};

verus! {

/// `a` is an initial segment of `b`.
pub open spec fn seq_is_prefix<T>(a: Seq<T>, b: Seq<T>) -> bool {
    a.len() <= b.len() && a == b.take(a.len() as int)
}

/// What a copy loop does with the outcome of one read: retry a transient
/// error in place, advance on data, or stop the copy with exactly this
/// result.
#[derive(Debug, PartialEq, Eq)]
pub enum ReadStep {
    /// The read reported a transient condition: retry it without
    /// advancing.
    Retry,
    /// The read produced this many units: hand them to the writer and
    /// advance.
    Advance(usize),
    /// The copy is over: end it with exactly this result.
    Stop(Result<(), SyphonError>),
}

/// The shared read policy of every copy loop. A transient error is
/// retried; data advances; any other error surfaces unchanged; and a
/// zero-unit read is exhaustion — a hard `OutOfBounds` while an exact copy
/// (`exact`) still owes units, normal termination for a best-effort one.
pub open spec fn spec_read_step(r: Result<usize, SyphonError>, exact: bool) -> ReadStep {
    match r {
        Ok(n) => if n > 0 {
            ReadStep::Advance(n)
        } else if exact {
            ReadStep::Stop(Err(SyphonError::OutOfBounds))
        } else {
            ReadStep::Stop(Ok(()))
        },
        Err(e) => if is_transient(e) {
            ReadStep::Retry
        } else {
            ReadStep::Stop(Err(e))
        },
    }
}

/// Applies the shared read policy to one read outcome.
pub fn read_step(r: Result<usize, SyphonError>, exact: bool) -> (s: ReadStep)
    ensures
        s == spec_read_step(r, exact),
{
    match r {
        Ok(n) => if n > 0 {
            ReadStep::Advance(n)
        } else if exact {
            ReadStep::Stop(Err(SyphonError::OutOfBounds))
        } else {
            ReadStep::Stop(Ok(()))
        },
        Err(SyphonError::Interrupted) => ReadStep::Retry,
        Err(SyphonError::NotReady) => ReadStep::Retry,
        Err(e) => ReadStep::Stop(Err(e)),
    }
}

/// The read policy of `pipe`: the best-effort policy, except that an
/// explicit end-of-stream signal from the reader also ends the pipe
/// successfully.
pub open spec fn spec_pipe_read_step(r: Result<usize, SyphonError>) -> ReadStep {
    if r is Err && r->Err_0 is EndOfStream {
        ReadStep::Stop(Ok(()))
    } else {
        spec_read_step(r, false)
    }
}

/// Applies the pipe read policy to one read outcome.
pub fn pipe_read_step(r: Result<usize, SyphonError>) -> (s: ReadStep)
    ensures
        s == spec_pipe_read_step(r),
{
    match r {
        Err(SyphonError::EndOfStream) => ReadStep::Stop(Ok(())),
        _ => read_step(r, false),
    }
}

/// What a copy ends with when a write fails: a best-effort copy
/// (`best_effort`) swallows a full sink — `OutOfBounds` — as successful
/// termination, while an exact copy or pipe treats that same condition as
/// a hard failure; every other write error surfaces unchanged either way.
/// This is the deliberate asymmetry between the exact and the
/// until-exhaustion variants.
pub open spec fn spec_write_failure_outcome(e: SyphonError, best_effort: bool) -> Result<
    (),
    SyphonError,
> {
    if best_effort && e is OutOfBounds {
        Ok(())
    } else {
        Err(e)
    }
}

/// Applies the shared write-failure policy.
pub fn write_failure_outcome(e: SyphonError, best_effort: bool) -> (r: Result<(), SyphonError>)
    ensures
        r == spec_write_failure_outcome(e, best_effort),
{
    if best_effort {
        match e {
            SyphonError::OutOfBounds => {
                return Ok(());
            },
            _ => {},
        }
    }
    Err(e)
}

/// The samples `r` has produced beyond the first `before` of them.
pub open spec fn produced_from<R: SignalReader>(r: R, before: nat) -> Seq<i32> {
    r.produced().skip(before as int)
}

/// The samples `w` has accepted beyond the first `before` of them.
pub open spec fn written_from<W: SignalWriter>(w: W, before: nat) -> Seq<i32> {
    w.written().skip(before as int)
}

/// Copies exactly the requested duration from `reader` to `writer` through
/// the caller's scratch buffer, retrying transient read errors in place.
/// It succeeds only having moved every unit: a source that runs out first
/// is out of bounds, and everything the writer accepted is exactly what the
/// reader produced, in order — nothing is dropped silently.
pub fn copy_exact<R: SignalReader, W: SignalWriter>(
    reader: &mut R,
    writer: &mut W,
    duration: Duration,
    buf: &mut Vec<i32>,
) -> (r: Result<(), SyphonError>)
    requires
        old(reader).spec_of() == old(writer).spec_of() ==> signal_duration_valid(
            duration,
            old(reader).spec_of(),
        ),
    ensures
        final(reader).spec_of() == old(reader).spec_of(),
        final(writer).spec_of() == old(writer).spec_of(),
        final(buf)@.len() == old(buf)@.len(),
        seq_is_prefix(old(reader).produced(), final(reader).produced()),
        seq_is_prefix(old(writer).written(), final(writer).written()),
        seq_is_prefix(
            written_from(*final(writer), old(writer).written().len()),
            produced_from(*final(reader), old(reader).produced().len()),
        ),
        old(reader).spec_of() != old(writer).spec_of() ==> r == Err::<(), SyphonError>(
            SyphonError::ParamMismatch,
        ) && final(reader).produced() == old(reader).produced() && final(writer).written() == old(
            writer,
        ).written(),
        r is Ok ==> old(reader).spec_of() == old(writer).spec_of() && produced_from(
            *final(reader),
            old(reader).produced().len(),
        ).len() == spec_n_samples(duration, old(reader).spec_of()) && written_from(
            *final(writer),
            old(writer).written().len(),
        ) == produced_from(*final(reader), old(reader).produced().len()),
        old(reader).spec_of() == old(writer).spec_of() && spec_n_samples(
            duration,
            old(reader).spec_of(),
        ) == 0 ==> r is Ok,
        old(reader).spec_of() == old(writer).spec_of() ==> produced_from(
            *final(reader),
            old(reader).produced().len(),
        ).len() <= spec_n_samples(duration, old(reader).spec_of()),
{
    let rspec = reader.signal_spec();
    if rspec != writer.signal_spec() {
        proof {
            lemma_unchanged_accounting(reader.produced(), writer.written());
        }
        return Err(SyphonError::ParamMismatch);
    }
    let n_samples = duration.into_n_samples(&rspec);
    let ghost p0 = reader.produced();
    let ghost w0 = writer.written();
    let mut n: u64 = 0;
    while n < n_samples
        invariant
            reader.spec_of() == old(reader).spec_of(),
            writer.spec_of() == old(writer).spec_of(),
            old(reader).spec_of() == old(writer).spec_of(),
            n_samples == spec_n_samples(duration, old(reader).spec_of()),
            n <= n_samples,
            buf@.len() == old(buf)@.len(),
            p0 == old(reader).produced(),
            w0 == old(writer).written(),
            reader.produced().len() == p0.len() + n,
            reader.produced().take(p0.len() as int) == p0,
            writer.written() == w0 + reader.produced().skip(p0.len() as int),
        decreases n_samples - n, reader.fuel(),
    {
        let remaining = n_samples - n;
        let len = if (buf.len() as u64) <= remaining {
            buf.len()
        } else {
            remaining as usize
        };
        let ghost pre = reader.produced();
        let res = reader.read(buf, len);
        let k = match read_step(res, true) {
            ReadStep::Retry => {
                continue ;
            },
            ReadStep::Stop(out) => {
                proof {
                    lemma_prefix_reflexive(pre);
                    lemma_copy_accounting(p0, pre, w0, reader.produced(), writer.written());
                }
                return out;
            },
            ReadStep::Advance(k) => k,
        };
        proof {
            lemma_extend_take_skip(pre, buf@.subrange(0, k as int), p0.len());
        }
        match writer.write_exact(buf, k) {
            Ok(_) => {},
            Err(e) => {
                proof {
                    assert(seq_is_prefix(pre, reader.produced())) by {
                        assert(reader.produced().take(pre.len() as int) =~= pre);
                    }
                    lemma_copy_accounting(p0, pre, w0, reader.produced(), writer.written());
                }
                return write_failure_outcome(e, false);
            },
        }
        proof {
            assert(writer.written() =~= w0 + reader.produced().skip(p0.len() as int));
        }
        n = n + (k as u64);
    }
    proof {
        lemma_prefix_reflexive(reader.produced());
        lemma_copy_accounting(p0, reader.produced(), w0, reader.produced(), writer.written());
    }
    Ok(())
}

/// The samples `w` has had committed beyond the first `before` of them.
pub open spec fn committed_from<W: BufferedSignalWriter>(w: W, before: nat) -> Seq<i32> {
    w.committed().skip(before as int)
}

/// Copies exactly the requested duration from `reader` into the writer's
/// own pending buffer, committing what each read produced — no scratch
/// buffer and no intermediate copy. When the pending buffer has less room
/// than one full multi-channel frame, the writer is flushed before reading
/// on; a writer whose buffer is gone is out of bounds. The retry and
/// termination rules are those of the unbuffered variant.
pub fn copy_exact_buffered<R: SignalReader, W: BufferedSignalWriter>(
    reader: &mut R,
    writer: &mut W,
    duration: Duration,
) -> (r: Result<(), SyphonError>)
    requires
        old(reader).spec_of() == old(writer).spec_of() ==> signal_duration_valid(
            duration,
            old(reader).spec_of(),
        ) && old(writer).capacity() >= old(reader).spec_of().n_channels,
    ensures
        final(reader).spec_of() == old(reader).spec_of(),
        final(writer).spec_of() == old(writer).spec_of(),
        seq_is_prefix(old(reader).produced(), final(reader).produced()),
        seq_is_prefix(old(writer).committed(), final(writer).committed()),
        seq_is_prefix(
            committed_from(*final(writer), old(writer).committed().len()),
            produced_from(*final(reader), old(reader).produced().len()),
        ),
        old(reader).spec_of() != old(writer).spec_of() ==> r == Err::<(), SyphonError>(
            SyphonError::ParamMismatch,
        ) && final(reader).produced() == old(reader).produced() && final(writer).committed()
            == old(writer).committed(),
        r is Ok ==> old(reader).spec_of() == old(writer).spec_of() && produced_from(
            *final(reader),
            old(reader).produced().len(),
        ).len() == spec_n_samples(duration, old(reader).spec_of()) && committed_from(
            *final(writer),
            old(writer).committed().len(),
        ) == produced_from(*final(reader), old(reader).produced().len()),
        old(reader).spec_of() == old(writer).spec_of() && spec_n_samples(
            duration,
            old(reader).spec_of(),
        ) == 0 ==> r is Ok,
        old(reader).spec_of() == old(writer).spec_of() ==> produced_from(
            *final(reader),
            old(reader).produced().len(),
        ).len() <= spec_n_samples(duration, old(reader).spec_of()),
        old(reader).spec_of() == old(writer).spec_of() && !old(writer).has_buffer()
            && spec_n_samples(duration, old(reader).spec_of()) > 0 ==> r == Err::<
            (),
            SyphonError,
        >(SyphonError::OutOfBounds) && final(reader).produced() == old(reader).produced()
            && final(writer).committed() == old(writer).committed(),
{
    let rspec = reader.signal_spec();
    if rspec != writer.signal_spec() {
        proof {
            lemma_unchanged_accounting(reader.produced(), writer.committed());
        }
        return Err(SyphonError::ParamMismatch);
    }
    let n_channels = rspec.n_channels;
    let n_samples = duration.into_n_samples(&rspec);
    let ghost p0 = reader.produced();
    let ghost w0 = writer.committed();
    let mut n: u64 = 0;
    while n < n_samples
        invariant
            reader.spec_of() == old(reader).spec_of(),
            writer.spec_of() == old(writer).spec_of(),
            old(reader).spec_of() == old(writer).spec_of(),
            writer.capacity() == old(writer).capacity(),
            writer.has_buffer() == old(writer).has_buffer(),
            !old(writer).has_buffer() ==> reader.produced() == old(reader).produced()
                && writer.committed() == old(writer).committed(),
            n_channels == old(reader).spec_of().n_channels,
            writer.capacity() >= n_channels,
            n_samples == spec_n_samples(duration, old(reader).spec_of()),
            n <= n_samples,
            p0 == old(reader).produced(),
            w0 == old(writer).committed(),
            reader.produced().len() == p0.len() + n,
            reader.produced().take(p0.len() as int) == p0,
            writer.committed() == w0 + reader.produced().skip(p0.len() as int),
        decreases
                n_samples - n,
                reader.fuel(),
                (if writer.room() < n_channels {
                    1int
                } else {
                    0int
                }),
    {
        let mut b = match writer.take_buffer() {
            None => {
                proof {
                    lemma_prefix_reflexive(reader.produced());
                    lemma_copy_accounting(p0, reader.produced(), w0, reader.produced(),
                        writer.committed());
                }
                return Err(SyphonError::OutOfBounds);
            },
            Some(b) => b,
        };
        if b.len() < n_channels as usize {
            match writer.flush_blocking() {
                Ok(_) => {},
                Err(e) => {
                    proof {
                        lemma_prefix_reflexive(reader.produced());
                        lemma_copy_accounting(p0, reader.produced(), w0, reader.produced(),
                            writer.committed());
                    }
                    return Err(e);
                },
            }
            continue ;
        }
        let remaining = n_samples - n;
        let len = if (b.len() as u64) <= remaining {
            b.len()
        } else {
            remaining as usize
        };
        let ghost pre = reader.produced();
        let res = reader.read(&mut b, len);
        let k = match read_step(res, true) {
            ReadStep::Retry => {
                continue ;
            },
            ReadStep::Stop(out) => {
                proof {
                    lemma_prefix_reflexive(pre);
                    lemma_copy_accounting(p0, pre, w0, reader.produced(), writer.committed());
                }
                return out;
            },
            ReadStep::Advance(k) => k,
        };
        proof {
            lemma_extend_take_skip(pre, b@.subrange(0, k as int), p0.len());
        }
        writer.commit(&b, k);
        proof {
            assert(writer.committed() =~= w0 + reader.produced().skip(p0.len() as int));
        }
        n = n + (k as u64);
    }
    proof {
        lemma_prefix_reflexive(reader.produced());
        lemma_copy_accounting(p0, reader.produced(), w0, reader.produced(), writer.committed());
    }
    Ok(())
}

/// Copies from `reader` into the writer's own pending buffer until the
/// reader reports exhaustion or the writer's buffer is gone — this variant
/// is best-effort, so a withdrawn buffer ends the copy successfully. The
/// flush, retry and termination rules are those of `copy_exact_buffered`.
pub fn copy_all_buffered<R: SignalReader, W: BufferedSignalWriter>(
    reader: &mut R,
    writer: &mut W,
) -> (r: Result<(), SyphonError>)
    requires
        old(reader).spec_of() == old(writer).spec_of() ==> old(writer).capacity() >= old(
            reader,
        ).spec_of().n_channels,
    ensures
        final(reader).spec_of() == old(reader).spec_of(),
        final(writer).spec_of() == old(writer).spec_of(),
        seq_is_prefix(old(reader).produced(), final(reader).produced()),
        seq_is_prefix(old(writer).committed(), final(writer).committed()),
        seq_is_prefix(
            committed_from(*final(writer), old(writer).committed().len()),
            produced_from(*final(reader), old(reader).produced().len()),
        ),
        old(reader).spec_of() != old(writer).spec_of() ==> r == Err::<(), SyphonError>(
            SyphonError::ParamMismatch,
        ) && final(reader).produced() == old(reader).produced() && final(writer).committed()
            == old(writer).committed(),
        r is Ok ==> old(reader).spec_of() == old(writer).spec_of(),
        old(reader).spec_of() == old(writer).spec_of() && !old(writer).has_buffer() ==> r is Ok
            && final(reader).produced() == old(reader).produced() && final(writer).committed()
            == old(writer).committed(),
{
    let rspec = reader.signal_spec();
    if rspec != writer.signal_spec() {
        proof {
            lemma_unchanged_accounting(reader.produced(), writer.committed());
        }
        return Err(SyphonError::ParamMismatch);
    }
    let n_channels = rspec.n_channels;
    let ghost p0 = reader.produced();
    let ghost w0 = writer.committed();
    loop
        invariant
            reader.spec_of() == old(reader).spec_of(),
            writer.spec_of() == old(writer).spec_of(),
            old(reader).spec_of() == old(writer).spec_of(),
            writer.capacity() == old(writer).capacity(),
            writer.has_buffer() == old(writer).has_buffer(),
            !old(writer).has_buffer() ==> reader.produced() == old(reader).produced()
                && writer.committed() == old(writer).committed(),
            n_channels == old(reader).spec_of().n_channels,
            writer.capacity() >= n_channels,
            p0 == old(reader).produced(),
            w0 == old(writer).committed(),
            p0.len() <= reader.produced().len(),
            reader.produced().take(p0.len() as int) == p0,
            writer.committed() == w0 + reader.produced().skip(p0.len() as int),
        decreases
                reader.fuel(),
                (if writer.room() < n_channels {
                    1int
                } else {
                    0int
                }),
    {
        let mut b = match writer.take_buffer() {
            None => {
                proof {
                    lemma_prefix_reflexive(reader.produced());
                    lemma_copy_accounting(p0, reader.produced(), w0, reader.produced(),
                        writer.committed());
                }
                return Ok(());
            },
            Some(b) => b,
        };
        if b.len() < n_channels as usize {
            match writer.flush_blocking() {
                Ok(_) => {},
                Err(e) => {
                    proof {
                        lemma_prefix_reflexive(reader.produced());
                        lemma_copy_accounting(p0, reader.produced(), w0, reader.produced(),
                            writer.committed());
                    }
                    return Err(e);
                },
            }
            continue ;
        }
        let len = b.len();
        let ghost pre = reader.produced();
        let res = reader.read(&mut b, len);
        let k = match read_step(res, false) {
            ReadStep::Retry => {
                continue ;
            },
            ReadStep::Stop(out) => {
                proof {
                    lemma_prefix_reflexive(pre);
                    lemma_copy_accounting(p0, pre, w0, reader.produced(), writer.committed());
                }
                return out;
            },
            ReadStep::Advance(k) => k,
        };
        proof {
            lemma_extend_take_skip(pre, b@.subrange(0, k as int), p0.len());
        }
        writer.commit(&b, k);
        proof {
            assert(writer.committed() =~= w0 + reader.produced().skip(p0.len() as int));
        }
    }
}

/// Copies from `reader` to `writer` until the reader reports exhaustion,
/// retrying transient read errors in place. A sink that fills up mid-way
/// (`OutOfBounds` from a write) ends the copy successfully — this variant
/// is best-effort — while every other write error surfaces unchanged.
/// Everything the writer accepted is a prefix of what the reader produced,
/// in order.
pub fn copy_all<R: SignalReader, W: SignalWriter>(
    reader: &mut R,
    writer: &mut W,
    buf: &mut Vec<i32>,
) -> (r: Result<(), SyphonError>)
    ensures
        final(reader).spec_of() == old(reader).spec_of(),
        final(writer).spec_of() == old(writer).spec_of(),
        final(buf)@.len() == old(buf)@.len(),
        seq_is_prefix(old(reader).produced(), final(reader).produced()),
        seq_is_prefix(old(writer).written(), final(writer).written()),
        seq_is_prefix(
            written_from(*final(writer), old(writer).written().len()),
            produced_from(*final(reader), old(reader).produced().len()),
        ),
        old(reader).spec_of() != old(writer).spec_of() ==> r == Err::<(), SyphonError>(
            SyphonError::ParamMismatch,
        ) && final(reader).produced() == old(reader).produced() && final(writer).written() == old(
            writer,
        ).written(),
        r is Ok ==> old(reader).spec_of() == old(writer).spec_of(),
{
    let rspec = reader.signal_spec();
    if rspec != writer.signal_spec() {
        proof {
            lemma_unchanged_accounting(reader.produced(), writer.written());
        }
        return Err(SyphonError::ParamMismatch);
    }
    let ghost p0 = reader.produced();
    let ghost w0 = writer.written();
    loop
        invariant
            reader.spec_of() == old(reader).spec_of(),
            writer.spec_of() == old(writer).spec_of(),
            old(reader).spec_of() == old(writer).spec_of(),
            buf@.len() == old(buf)@.len(),
            p0 == old(reader).produced(),
            w0 == old(writer).written(),
            p0.len() <= reader.produced().len(),
            reader.produced().take(p0.len() as int) == p0,
            writer.written() == w0 + reader.produced().skip(p0.len() as int),
        decreases reader.fuel(),
    {
        let len = buf.len();
        let ghost pre = reader.produced();
        let res = reader.read(buf, len);
        let k = match read_step(res, false) {
            ReadStep::Retry => {
                continue ;
            },
            ReadStep::Stop(out) => {
                proof {
                    lemma_prefix_reflexive(pre);
                    lemma_copy_accounting(p0, pre, w0, reader.produced(), writer.written());
                }
                return out;
            },
            ReadStep::Advance(k) => k,
        };
        proof {
            lemma_extend_take_skip(pre, buf@.subrange(0, k as int), p0.len());
        }
        match writer.write_exact(buf, k) {
            Ok(_) => {},
            Err(e) => {
                proof {
                    assert(seq_is_prefix(pre, reader.produced())) by {
                        assert(reader.produced().take(pre.len() as int) =~= pre);
                    }
                    lemma_copy_accounting(p0, pre, w0, reader.produced(), writer.written());
                }
                return write_failure_outcome(e, true);
            },
        }
        proof {
            assert(writer.written() =~= w0 + reader.produced().skip(p0.len() as int));
        }
    }
}

/// Single-pass compatibility loop: moves samples from `reader` to `writer`
/// until the reader reports exhaustion, either as a zero-length read or as
/// an explicit end-of-stream signal. Transient read errors are retried in
/// place; every write error, sink-fullness included, surfaces unchanged, so
/// on success the writer accepted exactly what the reader produced.
pub fn pipe<R: SignalReader, W: SignalWriter>(
    reader: &mut R,
    writer: &mut W,
    buf: &mut Vec<i32>,
) -> (r: Result<(), SyphonError>)
    ensures
        final(reader).spec_of() == old(reader).spec_of(),
        final(writer).spec_of() == old(writer).spec_of(),
        final(buf)@.len() == old(buf)@.len(),
        seq_is_prefix(old(reader).produced(), final(reader).produced()),
        seq_is_prefix(old(writer).written(), final(writer).written()),
        seq_is_prefix(
            written_from(*final(writer), old(writer).written().len()),
            produced_from(*final(reader), old(reader).produced().len()),
        ),
        old(reader).spec_of() != old(writer).spec_of() ==> r == Err::<(), SyphonError>(
            SyphonError::SignalMismatch,
        ) && final(reader).produced() == old(reader).produced() && final(writer).written() == old(
            writer,
        ).written(),
        r is Ok ==> old(reader).spec_of() == old(writer).spec_of() && written_from(
            *final(writer),
            old(writer).written().len(),
        ) == produced_from(*final(reader), old(reader).produced().len()),
{
    let rspec = reader.signal_spec();
    if rspec != writer.signal_spec() {
        proof {
            lemma_unchanged_accounting(reader.produced(), writer.written());
        }
        return Err(SyphonError::SignalMismatch);
    }
    let ghost p0 = reader.produced();
    let ghost w0 = writer.written();
    loop
        invariant
            reader.spec_of() == old(reader).spec_of(),
            writer.spec_of() == old(writer).spec_of(),
            old(reader).spec_of() == old(writer).spec_of(),
            buf@.len() == old(buf)@.len(),
            p0 == old(reader).produced(),
            w0 == old(writer).written(),
            p0.len() <= reader.produced().len(),
            reader.produced().take(p0.len() as int) == p0,
            writer.written() == w0 + reader.produced().skip(p0.len() as int),
        decreases reader.fuel(),
    {
        let len = buf.len();
        let ghost pre = reader.produced();
        let res = reader.read(buf, len);
        let k = match pipe_read_step(res) {
            ReadStep::Retry => {
                continue ;
            },
            ReadStep::Stop(out) => {
                proof {
                    lemma_prefix_reflexive(pre);
                    lemma_copy_accounting(p0, pre, w0, reader.produced(), writer.written());
                }
                return out;
            },
            ReadStep::Advance(k) => k,
        };
        proof {
            lemma_extend_take_skip(pre, buf@.subrange(0, k as int), p0.len());
        }
        match writer.write_exact(buf, k) {
            Ok(_) => {},
            Err(e) => {
                proof {
                    assert(seq_is_prefix(pre, reader.produced())) by {
                        assert(reader.produced().take(pre.len() as int) =~= pre);
                    }
                    lemma_copy_accounting(p0, pre, w0, reader.produced(), writer.written());
                }
                return write_failure_outcome(e, false);
            },
        }
        proof {
            assert(writer.written() =~= w0 + reader.produced().skip(p0.len() as int));
        }
    }
}

/// `take` of a concatenation at the boundary gives back the left side, and
/// `skip` the right side.
pub(crate) proof fn lemma_extend_take_skip<T>(a: Seq<T>, b: Seq<T>, m: nat)
    requires
        m <= a.len(),
    ensures
        (a + b).take(m as int).len() == m,
        a.take(m as int) == (a + b).take(m as int).take(m as int),
        (a + b).skip(m as int) == a.skip(m as int) + b,
        (a + b).take(m as int) == a.take(m as int),
{
    assert((a + b).skip(m as int) =~= a.skip(m as int) + b);
    assert((a + b).take(m as int) =~= a.take(m as int));
    assert(a.take(m as int) =~= (a + b).take(m as int).take(m as int));
}

/// Every sequence is a prefix of itself.
pub(crate) proof fn lemma_prefix_reflexive<T>(a: Seq<T>)
    ensures
        seq_is_prefix(a, a),
{
    assert(a == a.take(a.len() as int)) by {
        assert(a =~= a.take(a.len() as int));
    }
}

/// The accounting facts of a copy that moved nothing: each history is a
/// prefix of itself, and the writer's empty growth is a prefix of the
/// reader's empty growth.
pub(crate) proof fn lemma_unchanged_accounting<T>(p: Seq<T>, w: Seq<T>)
    ensures
        seq_is_prefix(p, p),
        seq_is_prefix(w, w),
        seq_is_prefix(w.skip(w.len() as int), p.skip(p.len() as int)),
{
    lemma_prefix_reflexive(p);
    lemma_prefix_reflexive(w);
    assert(w.skip(w.len() as int) =~= Seq::<T>::empty());
    assert(p.skip(p.len() as int) =~= Seq::<T>::empty());
    assert(Seq::<T>::empty().take(0) =~= Seq::<T>::empty());
}

/// From the loop invariant of the copy loops — the reader's history `p`
/// grew from `p0`, and the writer's history `wr` from `w0` by a prefix of
/// that growth — derive the prefix facts the copy contracts state.
pub(crate) proof fn lemma_copy_accounting<T>(p0: Seq<T>, pcur: Seq<T>, w0: Seq<T>, p: Seq<T>, wr: Seq<T>)
    requires
        p0.len() <= pcur.len(),
        pcur.take(p0.len() as int) == p0,
        seq_is_prefix(pcur, p),
        wr == w0 + pcur.skip(p0.len() as int),
    ensures
        seq_is_prefix(p0, p),
        seq_is_prefix(w0, wr),
        seq_is_prefix(wr.skip(w0.len() as int), p.skip(p0.len() as int)),
{
    assert(pcur == p.take(pcur.len() as int));
    assert(p0 =~= p.take(p0.len() as int)) by {
        assert(forall|i: int|
            0 <= i < p0.len() ==> p0[i] == pcur[i] && pcur[i] == p.take(pcur.len() as int)[i]);
    }
    assert(seq_is_prefix(p0, p));
    assert(w0 =~= wr.take(w0.len() as int));
    assert(seq_is_prefix(w0, wr));
    let dw = wr.skip(w0.len() as int);
    let dr = p.skip(p0.len() as int);
    assert(dw =~= pcur.skip(p0.len() as int));
    assert(dw.len() <= dr.len());
    assert(dw =~= dr.take(dw.len() as int)) by {
        assert(forall|i: int| 0 <= i < dw.len() ==> dw[i] == pcur[p0.len() + i]);
        assert(forall|i: int|
            0 <= i < dw.len() ==> dr.take(dw.len() as int)[i] == p[p0.len() + i]);
        assert(forall|i: int| 0 <= i < pcur.len() ==> pcur[i] == p[i]);
    }
    assert(seq_is_prefix(dw, dr));
}

} // verus!
