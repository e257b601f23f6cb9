//! An ordered pool of line buffers. The parser pushes every line it reads and
//! periodically truncates the pool to a bounded context window, so that the
//! most recent lines stay available for diagnostics. Recycled buffers are kept
//! in a bounded free list, preferring small ones.

use vstd::prelude::*;

verus! {

/// The maximum capacity of a pooled buffer: the pool serves mostly short
/// lines, so larger buffers are dropped instead of recycled.
pub const MAX_BUF_CAPACITY: usize = 512;

/// The maximum number of free buffers retained for reuse.
pub const MAX_FREE_CAPACITY: usize = 1024;

/// The views of a sequence of byte vectors.
pub open spec fn views_of(s: Seq<Vec<u8>>) -> Seq<Seq<u8>> {
    s.map(|i: int, b: Vec<u8>| b@)
}

/// Mapping views over a push appends the pushed buffer's view.
pub proof fn lemma_views_of_push(s: Seq<Vec<u8>>, b: Vec<u8>)
    ensures
        views_of(s.push(b)) == views_of(s).push(b@),
{
    assert(views_of(s.push(b)) =~= views_of(s).push(b@));
}

/// An ordered pool of byte buffers, oldest first.
pub struct BufPool {
    live: Vec<Vec<u8>>,
    free: Vec<Vec<u8>>,
}

impl BufPool {
    /// The buffers currently live, oldest first.
    pub closed spec fn view(&self) -> Seq<Seq<u8>> {
        views_of(self.live@)
    }

    /// The free list never exceeds its capacity cap.
    pub closed spec fn wf(&self) -> bool {
        self.free@.len() <= MAX_FREE_CAPACITY
    }

    /// Creates an empty pool.
    pub fn new() -> (r: BufPool)
        ensures
            r.wf(),
            r@ == Seq::<Seq<u8>>::empty(),
    {
        let r = BufPool { live: Vec::new(), free: Vec::new() };
        proof {
            assert(r@ =~= Seq::<Seq<u8>>::empty());
        }
        r
    }

    /// Appends `buf` as the newest buffer of the pool.
    pub fn push_back(&mut self, buf: Vec<u8>)
        requires
            old(self).wf(),
        ensures
            final(self).wf(),
            final(self)@ == old(self)@.push(buf@),
    {
        // Reuse a pooled allocation when one is available.
        let mut slot: Vec<u8> = match self.free.pop() {
            Some(b) => b,
            None => Vec::new(),
        };
        slot.clear();
        slot.extend_from_slice(buf.as_slice());
        proof {
            assert(slot@ =~= buf@);
        }
        self.live.push(slot);
        proof {
            assert(self@ =~= old(self)@.push(buf@));
        }
    }

    /// The newest buffer of the pool, if any.
    pub fn back(&self) -> (r: Option<&Vec<u8>>)
        ensures
            match r {
                Some(b) => self@.len() > 0 && b@ == self@.last(),
                None => self@.len() == 0,
            },
    {
        if self.live.len() == 0 {
            None
        } else {
            Some(&self.live[self.live.len() - 1])
        }
    }

    /// Number of live buffers.
    pub fn len(&self) -> (r: usize)
        ensures
            r == self@.len(),
    {
        self.live.len()
    }

    /// The live buffer at index `i`, oldest first.
    pub fn get(&self, i: usize) -> (r: &Vec<u8>)
        requires
            i < self@.len(),
        ensures
            r@ == self@[i as int],
    {
        &self.live[i]
    }

    /// Drops all but the newest `len` buffers. Dropped buffers no larger than
    /// the size cap are recycled while the free list has room.
    pub fn truncate_back(&mut self, len: usize)
        requires
            old(self).wf(),
        ensures
            final(self).wf(),
            final(self)@ == if old(self)@.len() <= len {
                old(self)@
            } else {
                old(self)@.subrange(old(self)@.len() - len, old(self)@.len() as int)
            },
    {
        proof {
            assert(old(self)@.subrange(0, old(self)@.len() as int) =~= old(self)@);
        }
        while self.live.len() > len
            invariant
                self.wf(),
                self@.len() <= old(self)@.len(),
                old(self)@.len() <= len ==> self@.len() == old(self)@.len(),
                self@.len() >= len || self@.len() == old(self)@.len(),
                self@ == old(self)@.subrange(
                    old(self)@.len() - self@.len(),
                    old(self)@.len() as int,
                ),
            decreases self.live.len(),
        {
            let ghost prev = self@;
            let buf = self.live.remove(0);
            if self.free.len() < MAX_FREE_CAPACITY && buf.len() <= MAX_BUF_CAPACITY {
                self.free.push(buf);
            }
            proof {
                assert(self@ =~= prev.subrange(1, prev.len() as int));
                assert(self@ =~= old(self)@.subrange(
                    old(self)@.len() - self@.len(),
                    old(self)@.len() as int,
                ));
            }
        }
    }

    /// The live buffers as fresh vectors, oldest first.
    pub fn iter(&self) -> (r: Vec<Vec<u8>>)
        ensures
            views_of(r@) == self@,
    {
        let mut out: Vec<Vec<u8>> = Vec::new();
        let mut i: usize = 0;
        while i < self.live.len()
            invariant
                i <= self.live.len(),
                views_of(out@) == self@.subrange(0, i as int),
            decreases self.live.len() - i,
        {
            let b = crate::bytes::subvec(&self.live[i], 0, self.live[i].len());
            proof {
                assert(b@ =~= self.live@[i as int]@);
            }
            let ghost prev_out = out@;
            out.push(b);
            proof {
                lemma_views_of_push(prev_out, out@[out@.len() - 1]);
                assert(self@.subrange(0, i as int).push(self@[i as int]) =~= self@.subrange(
                    0,
                    i + 1 as int,
                ));
            }
            i += 1;
        }
        proof {
            assert(self@.subrange(0, self@.len() as int) =~= self@);
        }
        out
    }
}

} // verus!
