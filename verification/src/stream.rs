//! The contracts an encoded-stream source and sink must satisfy, and
//! in-memory implementations of them. Stream data moves as plain bytes;
//! the descriptor, codec tag included, says how they are interpreted.

use vstd::prelude::*;

use crate::descriptor::StreamSpec;
use crate::error::{is_transient, SyphonError};

verus! {

/// A blocking byte source for encoded streams. The ghost model matches the
/// signal reader's: the bytes handed out so far, and a finite bound on the
/// calls still answered with progress or a transient error, which is what
/// makes the copy loops provably terminating.
pub trait StreamReader: Sized {
    /// The descriptor of the stream this reader produces.
    spec fn spec_of(&self) -> StreamSpec;

    /// Every byte this reader has handed out so far, in order.
    spec fn produced(&self) -> Seq<u8>;

    /// An upper bound on the remaining calls that return data or a
    /// transient error.
    spec fn fuel(&self) -> nat;

    /// The descriptor of the stream this reader produces.
    fn stream_spec(&self) -> (s: StreamSpec)
        ensures
            s == self.spec_of(),
    ;

    /// Blocking read of at most `len` bytes into the front of `buf`.
    /// `Ok(0)` reports exhaustion; a transient error reports no progress
    /// and is safe to retry immediately.
    fn read(&mut self, buf: &mut Vec<u8>, len: usize) -> (r: Result<usize, SyphonError>)
        requires
            len <= old(buf).len(),
        ensures
            final(buf)@.len() == old(buf)@.len(),
            final(self).spec_of() == old(self).spec_of(),
            match r {
                Ok(n) => n <= len && (n > 0 ==> final(self).fuel() < old(self).fuel()
                    && final(self).produced() == old(self).produced() + final(buf)@.subrange(
                    0,
                    n as int,
                )) && (n == 0 ==> final(self).produced() == old(self).produced()),
                Err(e) => final(self).produced() == old(self).produced() && (is_transient(e)
                    ==> final(self).fuel() < old(self).fuel()),
            },
    ;
}

/// A blocking byte sink for encoded streams with an exact-write contract:
/// a write either accepts every byte offered or fails having accepted
/// none.
pub trait StreamWriter: Sized {
    /// The descriptor of the stream this writer accepts.
    spec fn spec_of(&self) -> StreamSpec;

    /// Every byte this writer has accepted so far, in order.
    spec fn written(&self) -> Seq<u8>;

    /// The descriptor of the stream this writer accepts.
    fn stream_spec(&self) -> (s: StreamSpec)
        ensures
            s == self.spec_of(),
    ;

    /// Blocking all-or-fail write of the first `n` bytes of `buf`.
    fn write_exact(&mut self, buf: &Vec<u8>, n: usize) -> (r: Result<(), SyphonError>)
        requires
            n <= buf.len(),
        ensures
            final(self).spec_of() == old(self).spec_of(),
            match r {
                Ok(_) => final(self).written() == old(self).written() + buf@.subrange(
                    0,
                    n as int,
                ),
                Err(_) => final(self).written() == old(self).written(),
            },
    ;
}

/// An in-memory stream source: a fixed byte sequence handed out in order,
/// preceded by a scripted queue of errors, one per read call, so transient
/// and terminal conditions can be exercised deterministically.
pub struct MemStreamReader {
    st_spec: StreamSpec,
    bytes: Vec<u8>,
    pos: usize,
    errors: Vec<SyphonError>,
}

impl MemStreamReader {
    /// A reader over `bytes` that first answers one read call per entry of
    /// `errors` (drained from the back) with that error.
    pub fn new(st_spec: StreamSpec, bytes: Vec<u8>, errors: Vec<SyphonError>) -> (r:
        MemStreamReader)
        ensures
            r.spec_of() == st_spec,
            r.produced() == Seq::<u8>::empty(),
    {
        let r = MemStreamReader { st_spec, bytes, pos: 0, errors };
        proof {
            assert(r.produced() =~= Seq::<u8>::empty());
        }
        r
    }
}

impl StreamReader for MemStreamReader {
    closed spec fn spec_of(&self) -> StreamSpec {
        self.st_spec
    }

    closed spec fn produced(&self) -> Seq<u8> {
        if self.pos <= self.bytes@.len() {
            self.bytes@.take(self.pos as int)
        } else {
            self.bytes@
        }
    }

    closed spec fn fuel(&self) -> nat {
        self.errors@.len() + if self.pos <= self.bytes@.len() {
            (self.bytes@.len() - self.pos) as nat
        } else {
            0
        }
    }

    fn stream_spec(&self) -> (s: StreamSpec) {
        self.st_spec
    }

    fn read(&mut self, buf: &mut Vec<u8>, len: usize) -> (r: Result<usize, SyphonError>) {
        if self.errors.len() > 0 {
            let e = self.errors.pop().unwrap();
            return Err(e);
        }
        let ghost pos0 = self.pos as int;
        let avail = if self.pos <= self.bytes.len() {
            self.bytes.len() - self.pos
        } else {
            0
        };
        let n = if len <= avail {
            len
        } else {
            avail
        };
        if n == 0 {
            return Ok(0);
        }
        let mut i: usize = 0;
        while i < n
            invariant
                i <= n,
                n <= avail,
                avail == self.bytes@.len() - pos0,
                self.bytes@.len() <= usize::MAX,
                self.pos == pos0,
                n <= buf@.len(),
                buf@.len() == old(buf)@.len(),
                self == old(self),
                forall|j: int| 0 <= j < i ==> buf@[j] == self.bytes@[pos0 + j],
            decreases n - i,
        {
            let v = self.bytes[self.pos + i];
            buf[i] = v;
            i += 1;
        }
        self.pos = self.pos + n;
        proof {
            assert(self.produced() =~= old(self).produced() + buf@.subrange(0, n as int));
        }
        Ok(n)
    }
}

/// An in-memory stream sink: accepted bytes accumulate in order, bounded
/// by an optional capacity past which an exact write fails `OutOfBounds`
/// having accepted nothing.
pub struct MemStreamWriter {
    st_spec: StreamSpec,
    data: Vec<u8>,
    cap: Option<usize>,
    write_calls: u64,
}

impl MemStreamWriter {
    /// A sink that accepts bytes without bound.
    pub fn new(st_spec: StreamSpec) -> (r: MemStreamWriter)
        ensures
            r.spec_of() == st_spec,
            r.written() == Seq::<u8>::empty(),
            r.calls() == 0,
    {
        let r = MemStreamWriter { st_spec, data: Vec::new(), cap: None, write_calls: 0 };
        proof {
            assert(r.written() =~= Seq::<u8>::empty());
        }
        r
    }

    /// A sink that holds at most `cap` bytes in total.
    pub fn with_capacity(st_spec: StreamSpec, cap: usize) -> (r: MemStreamWriter)
        ensures
            r.spec_of() == st_spec,
            r.written() == Seq::<u8>::empty(),
            r.calls() == 0,
    {
        let r = MemStreamWriter { st_spec, data: Vec::new(), cap: Some(cap), write_calls: 0 };
        proof {
            assert(r.written() =~= Seq::<u8>::empty());
        }
        r
    }

    /// The bytes accepted so far.
    pub fn contents(&self) -> (r: &Vec<u8>)
        ensures
            r@ == self.written(),
    {
        &self.data
    }

    /// How many writes have been accepted so far, saturating at the
    /// counter's top.
    pub closed spec fn calls(&self) -> u64 {
        self.write_calls
    }

    /// How many writes have been accepted, saturating at the counter's top.
    pub fn write_count(&self) -> (r: u64)
        ensures
            r == self.calls(),
    {
        self.write_calls
    }
}

impl StreamWriter for MemStreamWriter {
    closed spec fn spec_of(&self) -> StreamSpec {
        self.st_spec
    }

    closed spec fn written(&self) -> Seq<u8> {
        self.data@
    }

    fn stream_spec(&self) -> (s: StreamSpec) {
        self.st_spec
    }

    fn write_exact(&mut self, buf: &Vec<u8>, n: usize) -> (r: Result<(), SyphonError>)
        ensures
            r is Ok && old(self).calls() < u64::MAX ==> final(self).calls() == old(self).calls()
                + 1,
            r is Ok && old(self).calls() == u64::MAX ==> final(self).calls() == old(self).calls(),
            r is Err ==> final(self).calls() == old(self).calls(),
    {
        match self.cap {
            Some(c) => {
                if self.data.len() > c || n > c - self.data.len() {
                    return Err(SyphonError::OutOfBounds);
                }
            },
            None => {},
        }
        let mut i: usize = 0;
        while i < n
            invariant
                i <= n,
                n <= buf@.len(),
                self.st_spec == old(self).st_spec,
                self.cap == old(self).cap,
                self.write_calls == old(self).write_calls,
                self.data@ == old(self).data@ + buf@.subrange(0, i as int),
            decreases n - i,
        {
            let v = buf[i];
            self.data.push(v);
            i += 1;
            proof {
                assert(self.data@ =~= old(self).data@ + buf@.subrange(0, i as int));
            }
        }
        if self.write_calls < u64::MAX {
            self.write_calls = self.write_calls + 1;
        }
        Ok(())
    }
}

} // verus!
