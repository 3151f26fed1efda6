use vstd::prelude::*;
use crate::error::Error;

verus! {

#[verifier::external_type_specification]
#[verifier::external_body]
pub struct ExIoError(std::io::Error);

/// The smaller of two lengths.
pub open spec fn min_len(a: int, b: int) -> int {
    if a < b {
        a
    } else {
        b
    }
}

/// A read of the stream `s` into a buffer that held `before` and now holds `after`,
/// answered with `r`, left the stream as `rest`: it succeeded with as many of the
/// stream's first bytes as fit, wrote them to the front of the buffer, left the rest
/// of the buffer alone, and took them off the stream.
pub open spec fn takes_from(
    s: Seq<u8>,
    before: Seq<u8>,
    after: Seq<u8>,
    r: std::io::Result<usize>,
    rest: Option<Seq<u8>>,
) -> bool {
    &&& r matches Ok(n)
    &&& r->Ok_0 == min_len(before.len() as int, s.len() as int)
    &&& after.len() == before.len()
    &&& after.subrange(0, r->Ok_0 as int) == s.subrange(0, r->Ok_0 as int)
    &&& after.subrange(r->Ok_0 as int, after.len() as int) == before.subrange(
        r->Ok_0 as int,
        before.len() as int,
    )
    &&& rest == Some(s.subrange(r->Ok_0 as int, s.len() as int))
}

/// A source of bytes that fills a caller's buffer, in the manner of `std::io::Read`:
/// on success it reports how many leading bytes of the buffer it wrote, never more
/// than the buffer holds.
pub trait ByteSource {
    /// The bytes still to come, for a source that holds them all and never fails:
    /// each read then hands out as many of them as fit. `None` for a source about
    /// which nothing more is known.
    open spec fn contents(&self) -> Option<Seq<u8>> {
        None
    }

    fn read(&mut self, buf: &mut [u8]) -> (r: std::io::Result<usize>)
        ensures
            final(buf)@.len() == old(buf)@.len(),
            r matches Ok(n) ==> n <= old(buf)@.len(),
            old(self).contents() matches Some(s) ==> takes_from(
                s,
                old(buf)@,
                final(buf)@,
                r,
                final(self).contents(),
            ),
    ;
}

/// An in-memory byte source: each read hands out the next bytes of `data`.
pub struct BytesReader {
    data: Vec<u8>,
    pos: usize,
}

impl BytesReader {
    #[verifier::type_invariant]
    closed spec fn wf(&self) -> bool {
        self.pos <= self.data@.len()
    }

    /// The bytes that later reads will hand out.
    pub closed spec fn remaining(&self) -> Seq<u8> {
        self.data@.subrange(self.pos as int, self.data@.len() as int)
    }

    pub fn new(data: Vec<u8>) -> (r: BytesReader)
        ensures
            r.remaining() == data@,
    {
        let r = BytesReader { data, pos: 0 };
        assert(r.remaining() =~= r.data@);
        r
    }

    /// Copies as many of the remaining bytes as fit into `buf`.
    pub fn read_bytes(&mut self, buf: &mut [u8]) -> (n: usize)
        ensures
            n == if old(buf)@.len() < old(self).remaining().len() {
                old(buf)@.len()
            } else {
                old(self).remaining().len()
            },
            final(buf)@.len() == old(buf)@.len(),
            final(buf)@.subrange(0, n as int) == old(self).remaining().subrange(0, n as int),
            final(buf)@.subrange(n as int, old(buf)@.len() as int) == old(buf)@.subrange(
                n as int,
                old(buf)@.len() as int,
            ),
            final(self).remaining() == old(self).remaining().subrange(
                n as int,
                old(self).remaining().len() as int,
            ),
    {
        proof {
            use_type_invariant(&*self);
        }
        let avail = self.data.len() - self.pos;
        let n = if buf.len() < avail {
            buf.len()
        } else {
            avail
        };
        let pos = self.pos;
        let len = self.data.len();
        let mut i: usize = 0;
        while i < n
            invariant
                self.wf(),
                self.pos == old(self).pos,
                self.data@ == old(self).data@,
                n <= buf@.len(),
                pos == self.pos,
                len == self.data@.len(),
                pos + n <= self.data@.len(),
                i <= n,
                buf@.len() == old(buf)@.len(),
                forall|j: int| 0 <= j < i ==> buf@[j] == self.data@[self.pos + j],
                forall|j: int| i <= j < buf@.len() ==> buf@[j] == old(buf)@[j],
            decreases n - i,
        {
            let b = self.data[pos + i];
            buf[i] = b;
            i = i + 1;
        }
        self.pos = self.pos + n;
        assert(buf@.subrange(0, n as int) =~= old(self).remaining().subrange(0, n as int));
        assert(buf@.subrange(n as int, old(buf)@.len() as int) =~= old(buf)@.subrange(
            n as int,
            old(buf)@.len() as int,
        ));
        assert(self.remaining() =~= old(self).remaining().subrange(
            n as int,
            old(self).remaining().len() as int,
        ));
        n
    }
}

impl ByteSource for BytesReader {
    /// Everything that is left to read; reading from memory never fails.
    open spec fn contents(&self) -> Option<Seq<u8>> {
        Some(self.remaining())
    }

    fn read(&mut self, buf: &mut [u8]) -> (r: std::io::Result<usize>)
        ensures
            r matches Ok(n) && n == if old(buf)@.len() < old(self).remaining().len() {
                old(buf)@.len()
            } else {
                old(self).remaining().len()
            },
            final(buf)@.subrange(0, r->Ok_0 as int) == old(self).remaining().subrange(
                0,
                r->Ok_0 as int,
            ),
            final(self).remaining() == old(self).remaining().subrange(
                r->Ok_0 as int,
                old(self).remaining().len() as int,
            ),
    {
        let n = self.read_bytes(buf);
        Ok(n)
    }
}

} // verus!

verus! {

/// What an exact reader answers once a read has delivered `n` more bytes, having
/// delivered `read_before` bytes before it out of the `total` that are expected.
pub open spec fn exact_read_outcome(read_before: int, total: int, n: int) -> Result<usize, Error> {
    if read_before + n > total {
        Err(Error::ErrExpectEOF)
    } else if read_before + n < total && n == 0 {
        Err(Error::ErrShortRead)
    } else {
        Ok(n as usize)
    }
}

/// Reads a stream that must hold exactly `total_bytes` bytes: reading past that
/// many is an error, and so is an end of stream before it.
pub struct ExactReaderCloser<R: ByteSource> {
    rc: R,
    br: i64,
    total_bytes: i64,
}

impl<R: ByteSource> ExactReaderCloser<R> {
    /// The count of delivered bytes never goes below zero.
    pub closed spec fn wf(&self) -> bool {
        self.br >= 0
    }

    /// The bytes delivered so far.
    pub closed spec fn bytes_read(&self) -> int {
        self.br as int
    }

    /// The number of bytes that the stream must hold.
    pub closed spec fn total(&self) -> int {
        self.total_bytes as int
    }

    /// What the underlying source still holds, where that is known.
    pub closed spec fn source_contents(&self) -> Option<Seq<u8>> {
        self.rc.contents()
    }

    pub fn new(rc: R, total_bytes: i64) -> (r: Self)
        ensures
            r.wf(),
            r.bytes_read() == 0,
            r.total() == total_bytes,
            r.source_contents() == rc.contents(),
    {
        ExactReaderCloser { rc, br: 0, total_bytes }
    }

    /// Counts `n` freshly delivered bytes and says whether the stream is still
    /// within its announced length.
    pub fn record_read(&mut self, n: usize) -> (r: Result<usize, Error>)
        requires
            old(self).wf(),
            old(self).bytes_read() + n <= i64::MAX,
        ensures
            final(self).wf(),
            final(self).bytes_read() == old(self).bytes_read() + n,
            final(self).total() == old(self).total(),
            final(self).source_contents() == old(self).source_contents(),
            r == exact_read_outcome(old(self).bytes_read(), old(self).total(), n as int),
    {
        self.br = self.br + n as i64;
        if self.br > self.total_bytes {
            return Err(Error::ErrExpectEOF);
        }
        if self.br < self.total_bytes && n == 0 {
            return Err(Error::ErrShortRead);
        }
        Ok(n)
    }

    /// Reads into `p` from the underlying source and checks the running count
    /// against the expected total. A failure of the source delivers no bytes. From a
    /// source whose contents are known, the read takes as many of them as fit into
    /// `p`, and the count goes up by that many.
    pub fn read(&mut self, p: &mut [u8]) -> (r: Result<usize, Error>)
        requires
            old(self).wf(),
            old(self).bytes_read() + old(p)@.len() <= i64::MAX,
        ensures
            final(self).wf(),
            final(p)@.len() == old(p)@.len(),
            final(self).total() == old(self).total(),
            exists|n: usize|
                n <= old(p)@.len() && final(self).bytes_read() == old(self).bytes_read() + n
                    && r == exact_read_outcome(old(self).bytes_read(), old(self).total(), n as int),
            old(self).source_contents() matches Some(s) ==> {
                let n = min_len(old(p)@.len() as int, s.len() as int);
                &&& final(self).bytes_read() == old(self).bytes_read() + n
                &&& r == exact_read_outcome(old(self).bytes_read(), old(self).total(), n)
                &&& final(p)@.subrange(0, n) == s.subrange(0, n)
                &&& final(p)@.subrange(n, old(p)@.len() as int) == old(p)@.subrange(
                    n,
                    old(p)@.len() as int,
                )
                &&& final(self).source_contents() == Some(s.subrange(n, s.len() as int))
            },
    {
        let n = match self.rc.read(p) {
            Ok(n) => n,
            Err(_) => 0,
        };
        let r = self.record_read(n);
        assert(n <= old(p)@.len() && self.bytes_read() == old(self).bytes_read() + n
            && r == exact_read_outcome(old(self).bytes_read(), old(self).total(), n as int));
        r
    }
}

/// Caps each read of the underlying source at `n` bytes.
pub struct LimitedBufferReader<R: ByteSource> {
    r: R,
    n: usize,
}

impl<R: ByteSource> LimitedBufferReader<R> {
    /// The largest number of bytes that one read may deliver.
    pub closed spec fn limit(&self) -> usize {
        self.n
    }

    /// What the underlying source still holds, where that is known.
    pub closed spec fn source_contents(&self) -> Option<Seq<u8>> {
        self.r.contents()
    }

    pub fn new(r: R, n: usize) -> (res: Self)
        ensures
            res.limit() == n,
            res.source_contents() == r.contents(),
    {
        LimitedBufferReader { r, n }
    }

    /// Hands the first `limit()` bytes of `p` (all of `p` when it is shorter) to the
    /// underlying source's read, and answers what that read answered; the rest of `p`
    /// is left as it was. From a source whose contents are known, the read takes as
    /// many of them as fit into that part of `p`.
    pub fn read(&mut self, p: &mut [u8]) -> (res: std::io::Result<usize>)
        ensures
            final(self).limit() == old(self).limit(),
            final(p)@.len() == old(p)@.len(),
            res matches Ok(k) ==> k <= old(p)@.len() && k <= old(self).limit(),
            old(p)@.len() > old(self).limit() ==> final(p)@.subrange(
                old(self).limit() as int,
                old(p)@.len() as int,
            ) == old(p)@.subrange(old(self).limit() as int, old(p)@.len() as int),
            old(self).source_contents() matches Some(s) ==> {
                let k = min_len(
                    min_len(old(p)@.len() as int, old(self).limit() as int),
                    s.len() as int,
                );
                &&& res == std::io::Result::<usize>::Ok(k as usize)
                &&& final(p)@.subrange(0, k) == s.subrange(0, k)
                &&& final(p)@.subrange(k, old(p)@.len() as int) == old(p)@.subrange(
                    k,
                    old(p)@.len() as int,
                )
                &&& final(self).source_contents() == Some(s.subrange(k, s.len() as int))
            },
    {
        if p.len() > self.n {
            let ghost p0 = p@;
            let lim = self.n;
            let (head, tail) = p.split_at_mut(lim);
            let ghost h0 = head@;
            let res = self.r.read(head);
            proof {
                let t = p0.subrange(lim as int, p0.len() as int);
                assert(tail@ == t);
                let h1 = head@;
                assert(h0 == p0.subrange(0, lim as int));
                let whole = h1 + t;
                assert(whole.subrange(lim as int, whole.len() as int) =~= t);
                if let Some(sc) = old(self).source_contents() {
                    let k = res->Ok_0 as int;
                    assert(whole.subrange(0, k) =~= h1.subrange(0, k));
                    assert(whole.subrange(k, whole.len() as int) =~= h1.subrange(k, lim as int)
                        + t);
                    assert(p0.subrange(k, p0.len() as int) =~= h0.subrange(k, lim as int) + t);
                }
            }
            res
        } else {
            self.r.read(p)
        }
    }
}

} // verus!
