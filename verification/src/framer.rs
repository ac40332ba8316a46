use vstd::prelude::*;

use crate::error::Error;

verus! {

/// True when position `i` of `s` ends a request head: a newline whose
/// preceding byte is a newline, or whose preceding byte is a carriage
/// return that itself follows a newline. The scan never looks at the
/// first two positions, so a terminator needs an index of at least two.
pub open spec fn term_at(s: Seq<u8>, i: int) -> bool {
    &&& 2 <= i < s.len()
    &&& s[i] == 10u8
    &&& (s[i - 1] == 10u8 || (s[i - 1] == 13u8 && s[i - 2] == 10u8))
}

pub open spec fn has_term(s: Seq<u8>) -> bool {
    exists|i: int| term_at(s, i)
}

/// What one round of feeding bytes into the framer produced.
pub enum FeedResult {
    /// A head terminator was found: the head ends just before offset
    /// `head_end`, and `total` bytes are buffered in all.
    Found { head_end: usize, total: usize },
    /// The source delivered no bytes: it closed before a terminator.
    Closed,
    /// Bytes were buffered but no terminator was seen yet.
    More,
}

/// Reads a raw byte stream into a bounded buffer until a full request
/// head is delimited. The caller owns the read loop and hands each
/// chunk the source delivered to `feed`.
pub struct HeaderFramer {
    buf: Vec<u8>,
    cap: usize,
}

impl HeaderFramer {
    /// The bytes buffered so far.
    pub closed spec fn data(&self) -> Seq<u8> {
        self.buf@
    }

    /// The fixed buffer capacity.
    pub closed spec fn capacity(&self) -> nat {
        self.cap as nat
    }

    /// Holds between rounds: the buffer is within capacity and no
    /// terminator stands in the bytes buffered so far.
    pub open spec fn wf(&self) -> bool {
        &&& self.data().len() <= self.capacity()
        &&& !has_term(self.data())
    }

    /// A fresh framer buffers nothing: every connection starts the
    /// state machine over with an empty buffer.
    pub fn new(cap: usize) -> (r: HeaderFramer)
        ensures
            r.data() == Seq::<u8>::empty(),
            r.capacity() == cap as nat,
            r.wf(),
    {
        HeaderFramer { buf: Vec::new(), cap }
    }

    /// True once the buffer has reached its capacity, so that no
    /// further byte can be read into it.
    pub fn full(&self) -> (r: bool)
        ensures
            r == (self.data().len() >= self.capacity()),
    {
        self.buf.len() >= self.cap
    }

    /// How many bytes may still be fed.
    pub fn space(&self) -> (r: usize)
        requires
            self.data().len() <= self.capacity(),
        ensures
            r as nat == self.capacity() - self.data().len(),
    {
        self.cap - self.buf.len()
    }

    /// Hands the buffered bytes to the caller once framing is done.
    pub fn take_bytes(self) -> (r: Vec<u8>)
        ensures
            r@ == self.data(),
    {
        self.buf
    }

    /// Appends what the source delivered and scans only the region the
    /// new bytes could complete. `Found` reports the offset just past
    /// the first terminator of the whole buffer and the total bytes
    /// buffered; an empty chunk means the source closed.
    pub fn feed(&mut self, chunk: &[u8]) -> (r: FeedResult)
        requires
            old(self).wf(),
            chunk@.len() <= old(self).capacity() - old(self).data().len(),
        ensures
            final(self).data() == old(self).data() + chunk@,
            final(self).capacity() == old(self).capacity(),
            match r {
                FeedResult::Found { head_end, total } => {
                    &&& total == final(self).data().len()
                    &&& 3 <= head_end <= total
                    &&& term_at(final(self).data(), head_end - 1)
                    &&& forall|j: int| j < head_end - 1 ==> !term_at(final(self).data(), j)
                },
                FeedResult::Closed => chunk@.len() == 0 && final(self).wf(),
                FeedResult::More => chunk@.len() > 0 && final(self).wf(),
            },
    {
        let old_len = self.buf.len();
        let mut k: usize = 0;
        while k < chunk.len()
            invariant
                k <= chunk@.len(),
                self.buf@ == old(self).data() + chunk@.take(k as int),
                self.cap == old(self).cap,
            decreases chunk@.len() - k,
        {
            self.buf.push(chunk[k]);
            k += 1;
            proof {
                assert(self.buf@ =~= old(self).data() + chunk@.take(k as int));
            }
        }
        proof {
            assert(self.buf@ =~= old(self).data() + chunk@);
        }
        if chunk.len() == 0 {
            proof {
                assert(self.buf@ =~= old(self).data());
            }
            return FeedResult::Closed;
        }
        let new_len = self.buf.len();
        let mut idx: usize = if old_len < 2 {
            2
        } else {
            old_len
        };
        proof {
            assert forall|j: int| j < idx as int implies !term_at(self.buf@, j) by {
                if 2 <= j && j < old_len as int {
                    assert(!term_at(old(self).data(), j));
                    assert(self.buf@[j] == old(self).data()[j]);
                    assert(self.buf@[j - 1] == old(self).data()[j - 1]);
                    assert(self.buf@[j - 2] == old(self).data()[j - 2]);
                }
            }
        }
        while idx < new_len
            invariant
                2 <= idx,
                new_len == self.buf@.len(),
                self.buf@ == old(self).data() + chunk@,
                self.cap == old(self).cap,
                forall|j: int| j < idx as int ==> !term_at(self.buf@, j),
            decreases new_len - idx,
        {
            if self.buf[idx] == 10u8 {
                let p1 = self.buf[idx - 1];
                if p1 == 10u8 {
                    return FeedResult::Found { head_end: idx + 1, total: new_len };
                }
                if p1 == 13u8 && self.buf[idx - 2] == 10u8 {
                    return FeedResult::Found { head_end: idx + 1, total: new_len };
                }
            }
            idx += 1;
        }
        FeedResult::More
    }
}

/// The bytes of `data` that a buffer of capacity `cap` can ever hold.
pub open spec fn frame_prefix(data: Seq<u8>, cap: nat) -> Seq<u8> {
    if data.len() <= cap {
        data
    } else {
        data.take(cap as int)
    }
}

/// Frames the request head out of an in-memory source: repeatedly
/// reads as much of `data` as still fits into a buffer of capacity
/// `cap` until a terminator is found, the buffer fills, or the source
/// is exhausted. Returns the offset just past the first terminator and
/// the total bytes buffered.
pub fn read_header(data: &[u8], cap: usize) -> (r: Result<(usize, usize), Error>)
    ensures
        ({
            let pre = frame_prefix(data@, cap as nat);
            match r {
                Ok(p) => {
                    &&& p.1 == pre.len()
                    &&& 3 <= p.0 <= p.1
                    &&& term_at(pre, p.0 - 1)
                    &&& forall|j: int| j < p.0 - 1 ==> !term_at(pre, j)
                },
                Err(e) => {
                    &&& !has_term(pre)
                    &&& (e == Error::ReadHeaderBufferOverflow <==> data@.len() >= cap as nat)
                    &&& (e == Error::ReadHeaderIncorrectRequest <==> data@.len() < cap as nat)
                },
            }
        }),
{
    let mut fr = HeaderFramer::new(cap);
    if fr.full() {
        return Err(Error::ReadHeaderBufferOverflow);
    }
    let m: usize = if data.len() < cap {
        data.len()
    } else {
        cap
    };
    let chunk = &data[0..m];
    proof {
        assert(chunk@ =~= frame_prefix(data@, cap as nat));
        assert(Seq::<u8>::empty() + chunk@ =~= chunk@);
    }
    match fr.feed(chunk) {
        FeedResult::Found { head_end, total } => Ok((head_end, total)),
        FeedResult::Closed => Err(Error::ReadHeaderIncorrectRequest),
        FeedResult::More => {
            if fr.full() {
                Err(Error::ReadHeaderBufferOverflow)
            } else {
                Err(Error::ReadHeaderIncorrectRequest)
            }
        },
    }
}

/// The frame that `read_header` reports is a function of the source
/// bytes and the capacity alone: two runs whose results both satisfy
/// its contract agree. A connection never inherits framing state from
/// an earlier one — each starts from `HeaderFramer::new` — so re-running
/// the state machine on the same source always re-frames the same head.
pub proof fn lemma_frame_unique(pre: Seq<u8>, h1: int, t1: int, h2: int, t2: int)
    requires
        t1 == pre.len(),
        t2 == pre.len(),
        term_at(pre, h1 - 1),
        forall|j: int| j < h1 - 1 ==> !term_at(pre, j),
        term_at(pre, h2 - 1),
        forall|j: int| j < h2 - 1 ==> !term_at(pre, j),
    ensures
        h1 == h2,
        t1 == t2,
{
    if h1 < h2 {
        assert(!term_at(pre, h1 - 1));
    }
    if h2 < h1 {
        assert(!term_at(pre, h2 - 1));
    }
}

} // verus!
