//! The contracts a signal source and a signal sink must satisfy, and
//! in-memory implementations of them. Sample data moves as plain `i32`
//! units; the descriptor says how a collaborator interprets them.

use vstd::prelude::*;

use crate::descriptor::SignalSpec;
use crate::error::{is_transient, SyphonError};

verus! {

/// A blocking signal source. Beyond its descriptor, a reader models two
/// ghost quantities: the samples it has handed out so far, and a finite
/// bound (`fuel`) on how many more calls it will answer with either data or
/// a transient error before reporting exhaustion. The bound is what makes
/// the copy loops provably terminating: a blocking reader may stall, but
/// not forever.
pub trait SignalReader: Sized {
    /// The descriptor of the signal this reader produces.
    spec fn spec_of(&self) -> SignalSpec;

    /// Every sample this reader has handed out so far, in order.
    spec fn produced(&self) -> Seq<i32>;

    /// An upper bound on the remaining calls that return data or a
    /// transient error.
    spec fn fuel(&self) -> nat;

    /// The descriptor of the signal this reader produces.
    fn signal_spec(&self) -> (s: SignalSpec)
        ensures
            s == self.spec_of(),
    ;

    /// Blocking read of at most `len` samples into the front of `buf`.
    /// `Ok(0)` reports exhaustion; a transient error reports no progress
    /// and is safe to retry immediately. Neither consumes nor produces any
    /// sample except on `Ok(n)` with `n > 0`, where the first `n` slots of
    /// `buf` hold exactly the samples produced.
    fn read(&mut self, buf: &mut Vec<i32>, len: usize) -> (r: Result<usize, SyphonError>)
        requires
            len <= old(buf).len(),
        ensures
            final(buf)@.len() == old(buf)@.len(),
            final(self).spec_of() == old(self).spec_of(),
            match r {
                Ok(n) => n <= len && (n > 0 ==> final(self).fuel() < old(self).fuel()
                    && final(self).produced() == old(self).produced() + final(buf)@.subrange(
                    0,
                    n as int,
                )) && (n == 0 ==> final(self).produced() == old(self).produced()),
                Err(e) => final(self).produced() == old(self).produced() && (is_transient(e)
                    ==> final(self).fuel() < old(self).fuel()),
            },
    ;
}

/// A blocking signal sink with an exact-write contract: a write either
/// accepts every sample offered or fails having accepted none.
pub trait SignalWriter: Sized {
    /// The descriptor of the signal this writer accepts.
    spec fn spec_of(&self) -> SignalSpec;

    /// Every sample this writer has accepted so far, in order.
    spec fn written(&self) -> Seq<i32>;

    /// The descriptor of the signal this writer accepts.
    fn signal_spec(&self) -> (s: SignalSpec)
        ensures
            s == self.spec_of(),
    ;

    /// Blocking all-or-fail write of the first `n` samples of `buf`.
    fn write_exact(&mut self, buf: &Vec<i32>, n: usize) -> (r: Result<(), SyphonError>)
        requires
            n <= buf.len(),
        ensures
            final(self).spec_of() == old(self).spec_of(),
            match r {
                Ok(_) => final(self).written() == old(self).written() + buf@.subrange(
                    0,
                    n as int,
                ),
                Err(_) => final(self).written() == old(self).written(),
            },
    ;
}

/// A blocking signal sink that exposes its pending internal buffer, so a
/// copy loop can read straight into it and then commit what was read. The
/// buffer is an exclusive, time-bounded loan: it is taken, filled, and
/// given back with a commit count before the next call into the writer.
pub trait BufferedSignalWriter: Sized {
    /// The descriptor of the signal this writer accepts.
    spec fn spec_of(&self) -> SignalSpec;

    /// Every sample committed to this writer so far, in order.
    spec fn committed(&self) -> Seq<i32>;

    /// The writable space currently left in the pending buffer.
    spec fn room(&self) -> nat;

    /// The size of the pending buffer right after a flush.
    spec fn capacity(&self) -> nat;

    /// Whether the writer still has a pending buffer at all; once it does
    /// not, it can accept nothing more.
    spec fn has_buffer(&self) -> bool;

    /// The descriptor of the signal this writer accepts.
    fn signal_spec(&self) -> (s: SignalSpec)
        ensures
            s == self.spec_of(),
    ;

    /// Loans out the writable part of the pending buffer, sized to the
    /// current room, or reports that the writer can accept nothing more.
    fn take_buffer(&self) -> (r: Option<Vec<i32>>)
        ensures
            r is Some <==> self.has_buffer(),
            r is Some ==> r->Some_0@.len() == self.room(),
    ;

    /// Returns the loaned buffer, committing its first `n` samples.
    fn commit(&mut self, buf: &Vec<i32>, n: usize)
        requires
            n <= buf.len(),
            n <= old(self).room(),
            old(self).has_buffer(),
        ensures
            final(self).spec_of() == old(self).spec_of(),
            final(self).capacity() == old(self).capacity(),
            final(self).has_buffer() == old(self).has_buffer(),
            final(self).committed() == old(self).committed() + buf@.subrange(0, n as int),
            final(self).room() == old(self).room() - n,
    ;

    /// Blocking flush of everything committed so far, making the whole
    /// pending buffer writable again on success.
    fn flush_blocking(&mut self) -> (r: Result<(), SyphonError>)
        ensures
            final(self).spec_of() == old(self).spec_of(),
            final(self).capacity() == old(self).capacity(),
            final(self).has_buffer() == old(self).has_buffer(),
            final(self).committed() == old(self).committed(),
            r is Ok ==> final(self).room() == final(self).capacity(),
    ;
}

/// An in-memory signal source: a fixed sample sequence handed out in order,
/// preceded by a scripted queue of errors, one per read call, so that
/// transient and terminal conditions can be exercised deterministically.
pub struct MemSignalReader {
    sig_spec: SignalSpec,
    samples: Vec<i32>,
    pos: usize,
    errors: Vec<SyphonError>,
}

impl MemSignalReader {
    /// A reader over `samples` that first answers one read call per entry
    /// of `errors` (drained from the back) with that error.
    pub fn new(sig_spec: SignalSpec, samples: Vec<i32>, errors: Vec<SyphonError>) -> (r:
        MemSignalReader)
        ensures
            r.spec_of() == sig_spec,
            r.produced() == Seq::<i32>::empty(),
    {
        let r = MemSignalReader { sig_spec, samples, pos: 0, errors };
        proof {
            assert(r.produced() =~= Seq::<i32>::empty());
        }
        r
    }
}

impl MemSignalReader {
    /// The fixed sample sequence this reader draws from. The scripted
    /// errors appear nowhere in it.
    pub closed spec fn source(&self) -> Seq<i32> {
        self.samples@
    }
}

/// Retry transparency, at the model level: an in-memory reader's produced
/// history is always an initial segment of its fixed source, and its error
/// script never enters it — two readers over the same source that have
/// produced equally much have produced exactly the same samples, whatever
/// transient errors either reported along the way. Together with the copy
/// contracts, which pin the writer's final content to the reader's produced
/// samples alone, a reader that reports `Interrupted` once and then
/// succeeds gives the same final result as one that never reported it.
pub proof fn lemma_retry_transparency(a: MemSignalReader, b: MemSignalReader)
    requires
        a.source() == b.source(),
        a.produced().len() == b.produced().len(),
    ensures
        a.produced() == b.produced(),
        a.produced() == a.source().take(a.produced().len() as int),
{
    assert(a.produced() =~= a.source().take(a.produced().len() as int));
    assert(b.produced() =~= b.source().take(b.produced().len() as int));
}

impl SignalReader for MemSignalReader {
    closed spec fn spec_of(&self) -> SignalSpec {
        self.sig_spec
    }

    closed spec fn produced(&self) -> Seq<i32> {
        if self.pos <= self.samples@.len() {
            self.samples@.take(self.pos as int)
        } else {
            self.samples@
        }
    }

    closed spec fn fuel(&self) -> nat {
        self.errors@.len() + if self.pos <= self.samples@.len() {
            (self.samples@.len() - self.pos) as nat
        } else {
            0
        }
    }

    fn signal_spec(&self) -> (s: SignalSpec) {
        self.sig_spec
    }

    fn read(&mut self, buf: &mut Vec<i32>, len: usize) -> (r: Result<usize, SyphonError>) {
        if self.errors.len() > 0 {
            let e = self.errors.pop().unwrap();
            return Err(e);
        }
        let ghost pos0 = self.pos as int;
        let avail = if self.pos <= self.samples.len() {
            self.samples.len() - self.pos
        } else {
            0
        };
        let n = if len <= avail {
            len
        } else {
            avail
        };
        if n == 0 {
            return Ok(0);
        }
        let mut i: usize = 0;
        while i < n
            invariant
                i <= n,
                n <= avail,
                avail == self.samples@.len() - pos0,
                self.samples@.len() <= usize::MAX,
                self.pos == pos0,
                n <= buf@.len(),
                buf@.len() == old(buf)@.len(),
                self == old(self),
                forall|j: int| 0 <= j < i ==> buf@[j] == self.samples@[pos0 + j],
            decreases n - i,
        {
            let v = self.samples[self.pos + i];
            buf[i] = v;
            i += 1;
        }
        self.pos = self.pos + n;
        proof {
            assert(self.produced() =~= old(self).produced() + buf@.subrange(0, n as int));
        }
        Ok(n)
    }
}

/// An in-memory signal sink: accepted samples accumulate in order, bounded
/// by an optional capacity past which an exact write fails `OutOfBounds`
/// having accepted nothing. It also counts its successful writes, so a test
/// can observe how many read/write cycles a copy performed.
pub struct MemSignalWriter {
    sig_spec: SignalSpec,
    data: Vec<i32>,
    cap: Option<usize>,
    write_calls: u64,
}

impl MemSignalWriter {
    /// A sink that accepts samples without bound.
    pub fn new(sig_spec: SignalSpec) -> (r: MemSignalWriter)
        ensures
            r.spec_of() == sig_spec,
            r.written() == Seq::<i32>::empty(),
            r.calls() == 0,
    {
        let r = MemSignalWriter { sig_spec, data: Vec::new(), cap: None, write_calls: 0 };
        proof {
            assert(r.written() =~= Seq::<i32>::empty());
        }
        r
    }

    /// A sink that holds at most `cap` samples in total.
    pub fn with_capacity(sig_spec: SignalSpec, cap: usize) -> (r: MemSignalWriter)
        ensures
            r.spec_of() == sig_spec,
            r.written() == Seq::<i32>::empty(),
            r.calls() == 0,
    {
        let r = MemSignalWriter { sig_spec, data: Vec::new(), cap: Some(cap), write_calls: 0 };
        proof {
            assert(r.written() =~= Seq::<i32>::empty());
        }
        r
    }

    /// The samples accepted so far.
    pub fn contents(&self) -> (r: &Vec<i32>)
        ensures
            r@ == self.written(),
    {
        &self.data
    }

    /// How many writes have been accepted so far, saturating at the
    /// counter's top.
    pub closed spec fn calls(&self) -> u64 {
        self.write_calls
    }

    /// How many writes have been accepted, saturating at the counter's top.
    pub fn write_count(&self) -> (r: u64)
        ensures
            r == self.calls(),
    {
        self.write_calls
    }
}

impl SignalWriter for MemSignalWriter {
    closed spec fn spec_of(&self) -> SignalSpec {
        self.sig_spec
    }

    closed spec fn written(&self) -> Seq<i32> {
        self.data@
    }

    fn signal_spec(&self) -> (s: SignalSpec) {
        self.sig_spec
    }

    fn write_exact(&mut self, buf: &Vec<i32>, n: usize) -> (r: Result<(), SyphonError>)
        ensures
            r is Ok && old(self).calls() < u64::MAX ==> final(self).calls() == old(self).calls()
                + 1,
            r is Ok && old(self).calls() == u64::MAX ==> final(self).calls() == old(self).calls(),
            r is Err ==> final(self).calls() == old(self).calls(),
    {
        match self.cap {
            Some(c) => {
                if self.data.len() > c || n > c - self.data.len() {
                    return Err(SyphonError::OutOfBounds);
                }
            },
            None => {},
        }
        let mut i: usize = 0;
        while i < n
            invariant
                i <= n,
                n <= buf@.len(),
                self.sig_spec == old(self).sig_spec,
                self.cap == old(self).cap,
                self.write_calls == old(self).write_calls,
                self.data@ == old(self).data@ + buf@.subrange(0, i as int),
            decreases n - i,
        {
            let v = buf[i];
            self.data.push(v);
            i += 1;
            proof {
                assert(self.data@ =~= old(self).data@ + buf@.subrange(0, i as int));
            }
        }
        if self.write_calls < u64::MAX {
            self.write_calls = self.write_calls + 1;
        }
        Ok(())
    }
}

/// An in-memory buffered signal sink: committed samples accumulate in
/// order; the pending buffer has a fixed capacity that a flush makes fully
/// writable again; closing it withdraws the buffer for good.
pub struct BufferedMemWriter {
    sig_spec: SignalSpec,
    data: Vec<i32>,
    room_left: usize,
    cap: usize,
    open: bool,
}

impl BufferedMemWriter {
    /// A buffered sink whose pending buffer holds `cap` samples.
    pub fn new(sig_spec: SignalSpec, cap: usize) -> (r: BufferedMemWriter)
        ensures
            r.spec_of() == sig_spec,
            r.committed() == Seq::<i32>::empty(),
            r.capacity() == cap,
            r.room() == cap,
            r.has_buffer(),
    {
        let r = BufferedMemWriter { sig_spec, data: Vec::new(), room_left: cap, cap, open: true };
        proof {
            assert(r.committed() =~= Seq::<i32>::empty());
        }
        r
    }

    /// Withdraws the pending buffer: the sink accepts nothing more.
    pub fn close(&mut self)
        ensures
            final(self).spec_of() == old(self).spec_of(),
            final(self).committed() == old(self).committed(),
            final(self).capacity() == old(self).capacity(),
            !final(self).has_buffer(),
    {
        self.open = false;
    }

    /// The samples committed so far.
    pub fn contents(&self) -> (r: &Vec<i32>)
        ensures
            r@ == self.committed(),
    {
        &self.data
    }
}

impl BufferedSignalWriter for BufferedMemWriter {
    closed spec fn spec_of(&self) -> SignalSpec {
        self.sig_spec
    }

    closed spec fn committed(&self) -> Seq<i32> {
        self.data@
    }

    closed spec fn room(&self) -> nat {
        self.room_left as nat
    }

    closed spec fn capacity(&self) -> nat {
        self.cap as nat
    }

    closed spec fn has_buffer(&self) -> bool {
        self.open
    }

    fn signal_spec(&self) -> (s: SignalSpec) {
        self.sig_spec
    }

    fn take_buffer(&self) -> (r: Option<Vec<i32>>) {
        if self.open {
            Some(vec![0i32; self.room_left])
        } else {
            None
        }
    }

    fn commit(&mut self, buf: &Vec<i32>, n: usize) {
        let mut i: usize = 0;
        while i < n
            invariant
                i <= n,
                n <= buf@.len(),
                self.sig_spec == old(self).sig_spec,
                self.cap == old(self).cap,
                self.open == old(self).open,
                self.room_left == old(self).room_left,
                self.data@ == old(self).data@ + buf@.subrange(0, i as int),
            decreases n - i,
        {
            let v = buf[i];
            self.data.push(v);
            i += 1;
            proof {
                assert(self.data@ =~= old(self).data@ + buf@.subrange(0, i as int));
            }
        }
        self.room_left = self.room_left - n;
    }

    fn flush_blocking(&mut self) -> (r: Result<(), SyphonError>) {
        self.room_left = self.cap;
        Ok(())
    }
}

} // verus!
