use vstd::prelude::*;

verus! {

/// How many requests the rate queue remembers.
pub const QUEUE_CAPACITY: isize = 200;

/// One request that went out: when it was sent (in nanoseconds since the Unix
/// epoch) and how many bytes it carried.
#[derive(Clone, Copy)]
pub struct RequestState {
    sending_time: i64,
    size: isize,
}

impl RequestState {
    pub closed spec fn spec_size(&self) -> isize {
        self.size
    }

    pub closed spec fn spec_sending_time(&self) -> i64 {
        self.sending_time
    }

    pub fn new(st: i64, size: isize) -> (r: Self)
        ensures
            r.spec_size() == size,
            r.spec_sending_time() == st,
    {
        RequestState { sending_time: st, size }
    }

    pub fn size(&self) -> (r: isize)
        ensures
            r == self.spec_size(),
    {
        self.size
    }

    pub fn sending_time(&self) -> (r: i64)
        ensures
            r == self.spec_sending_time(),
    {
        self.sending_time
    }
}

/// The sum of the sizes of a run of requests.
pub open spec fn total_size(s: Seq<RequestState>) -> int
    decreases s.len(),
{
    if s.len() == 0 {
        0
    } else {
        total_size(s.drop_last()) + s.last().spec_size()
    }
}

proof fn lemma_total_size_drop_first(s: Seq<RequestState>)
    requires
        s.len() > 0,
    ensures
        total_size(s) == s[0].spec_size() + total_size(s.drop_first()),
    decreases s.len(),
{
    if s.len() > 1 {
        lemma_total_size_drop_first(s.drop_last());
        assert(s.drop_last().drop_first() =~= s.drop_first().drop_last());
        assert(s.drop_first().last() == s.last());
        assert(total_size(s.drop_first()) == total_size(s.drop_first().drop_last())
            + s.drop_first().last().spec_size());
    } else {
        assert(s.drop_first().len() == 0);
        assert(s.drop_last().len() == 0);
        assert(total_size(s.drop_last()) == 0);
        assert(total_size(s.drop_first()) == 0);
    }
}

/// The position in the ring of the `i`-th request after the one at `front`.
pub open spec fn ring_slot(front: int, i: int) -> int {
    (front + i) % (QUEUE_CAPACITY as int)
}

/// The `size` requests held in `items` from position `front` on, wrapping round.
pub open spec fn ring_window(items: Seq<Option<RequestState>>, front: int, size: int) -> Seq<
    RequestState,
> {
    Seq::new(size as nat, |i: int| items[ring_slot(front, i)]->Some_0)
}

/// Every position of the window exists and holds a request.
#[verifier::opaque]
pub open spec fn ring_filled(items: Seq<Option<RequestState>>, front: int, size: int) -> bool {
    forall|i: int|
        0 <= i < size ==> {
            &&& #[trigger] ring_slot(front, i) < items.len()
            &&& items[ring_slot(front, i)] is Some
        }
}

proof fn lemma_ring_push(
    items0: Seq<Option<RequestState>>,
    front: int,
    size: int,
    slot: int,
    p: RequestState,
)
    requires
        0 <= front < QUEUE_CAPACITY,
        0 <= size < QUEUE_CAPACITY,
        slot == ring_slot(front, size),
        slot < items0.len(),
        ring_filled(items0, front, size),
    ensures
        ring_filled(items0.update(slot, Some(p)), front, size + 1),
        ring_window(items0.update(slot, Some(p)), front, size + 1) == ring_window(
            items0,
            front,
            size,
        ).push(p),
{
    reveal(ring_filled);
    let items1 = items0.update(slot, Some(p));
    assert forall|i: int| 0 <= i < size + 1 implies {
        &&& #[trigger] ring_slot(front, i) < items1.len()
        &&& items1[ring_slot(front, i)] is Some
    } by {
        if i < size {
            assert(ring_slot(front, i) != slot);
        }
    }
    assert forall|i: int| 0 <= i < size + 1 implies #[trigger] ring_window(items1, front, size + 1)[i]
        == ring_window(items0, front, size).push(p)[i] by {
        if i < size {
            assert(ring_slot(front, i) != slot);
        }
    }
    assert(ring_window(items1, front, size + 1) =~= ring_window(items0, front, size).push(p));
}

proof fn lemma_ring_rotate(items0: Seq<Option<RequestState>>, front: int, p: RequestState)
    requires
        0 <= front < QUEUE_CAPACITY,
        front < items0.len(),
        ring_filled(items0, front, QUEUE_CAPACITY as int),
    ensures
        ring_filled(
            items0.update(front, Some(p)),
            (front + 1) % QUEUE_CAPACITY as int,
            QUEUE_CAPACITY as int,
        ),
        ring_window(
            items0.update(front, Some(p)),
            (front + 1) % QUEUE_CAPACITY as int,
            QUEUE_CAPACITY as int,
        ) == ring_window(items0, front, QUEUE_CAPACITY as int).drop_first().push(p),
{
    reveal(ring_filled);
    let items1 = items0.update(front, Some(p));
    let f1 = (front + 1) % QUEUE_CAPACITY as int;
    let w0 = ring_window(items0, front, QUEUE_CAPACITY as int);
    assert forall|i: int| 0 <= i < QUEUE_CAPACITY implies {
        &&& #[trigger] ring_slot(f1, i) < items1.len()
        &&& items1[ring_slot(f1, i)] is Some
    } by {
        if i < QUEUE_CAPACITY - 1 {
            assert(ring_slot(f1, i) == ring_slot(front, i + 1));
        } else {
            assert(ring_slot(f1, i) == front);
        }
    }
    assert forall|i: int| 0 <= i < QUEUE_CAPACITY implies #[trigger] ring_window(
        items1,
        f1,
        QUEUE_CAPACITY as int,
    )[i] == w0.drop_first().push(p)[i] by {
        if i < QUEUE_CAPACITY - 1 {
            assert(ring_slot(f1, i) == ring_slot(front, i + 1));
        } else {
            assert(ring_slot(f1, i) == front);
        }
    }
    assert(ring_window(items1, f1, QUEUE_CAPACITY as int) =~= w0.drop_first().push(p));
}

proof fn lemma_ring_filled_at(items: Seq<Option<RequestState>>, front: int, size: int, i: int)
    requires
        ring_filled(items, front, size),
        0 <= i < size,
    ensures
        ring_slot(front, i) < items.len(),
        items[ring_slot(front, i)] is Some,
{
    reveal(ring_filled);
}

/// The window that an insert of `r` leaves behind `w`: `r` is appended, and the oldest
/// request goes once `QUEUE_CAPACITY` are held.
pub open spec fn window_step(w: Seq<RequestState>, r: RequestState) -> Seq<RequestState> {
    if w.len() < QUEUE_CAPACITY {
        w.push(r)
    } else {
        w.drop_first().push(r)
    }
}

/// The window after the requests `rs` were inserted in turn into a queue holding `w`.
pub open spec fn window_after(w: Seq<RequestState>, rs: Seq<RequestState>) -> Seq<
    RequestState,
>
    decreases rs.len(),
{
    if rs.len() == 0 {
        w
    } else {
        window_step(window_after(w, rs.drop_last()), rs.last())
    }
}

/// The last `QUEUE_CAPACITY` requests of `s`, or all of them where there are fewer.
pub open spec fn newest_requests(s: Seq<RequestState>) -> Seq<RequestState> {
    if s.len() <= QUEUE_CAPACITY {
        s
    } else {
        s.subrange(s.len() - QUEUE_CAPACITY, s.len() as int)
    }
}

/// However many requests are inserted, one after another, the queue holds the newest
/// `QUEUE_CAPACITY` of all it was given, oldest first: so its length is the smaller
/// of that capacity and the count, its front is the oldest of those kept, its back the
/// last one inserted, and its size sum runs over exactly those kept.
pub proof fn law_queue_keeps_newest(w: Seq<RequestState>, rs: Seq<RequestState>)
    requires
        w.len() <= QUEUE_CAPACITY,
    ensures
        window_after(w, rs) == newest_requests(w + rs),
        window_after(w, rs).len() == if w.len() + rs.len() < QUEUE_CAPACITY {
            (w.len() + rs.len()) as int
        } else {
            QUEUE_CAPACITY as int
        },
        rs.len() > 0 ==> window_after(w, rs).last() == rs.last(),
    decreases rs.len(),
{
    if rs.len() == 0 {
        assert(w + rs =~= w);
    } else {
        law_queue_keeps_newest(w, rs.drop_last());
        let s = w + rs;
        let n = s.len() as int;
        assert(w + rs.drop_last() =~= s.drop_last());
        let v = window_after(w, rs.drop_last());
        if v.len() < QUEUE_CAPACITY {
            assert(v =~= s.drop_last());
            assert(v.push(rs.last()) =~= s);
        } else {
            assert(v =~= s.subrange(n - 1 - QUEUE_CAPACITY, n - 1));
            assert(v.drop_first().push(rs.last()) =~= s.subrange(n - QUEUE_CAPACITY, n));
        }
    }
}

/// A ring buffer of the last `QUEUE_CAPACITY` requests, with the sum of their sizes.
pub struct BaseStateQueue {
    items: Vec<Option<RequestState>>,
    size: isize,
    front: isize,
    back: isize,
    total_req_size: isize,
}

impl BaseStateQueue {
    /// The positions in use hold requests, oldest at `front` and newest at `back`,
    /// and `total_req_size` is the sum of their sizes.
    pub closed spec fn wf(&self) -> bool {
        &&& 0 <= self.size <= QUEUE_CAPACITY
        &&& self.size == 0 ==> self.front == 0 && self.back == -1
        &&& self.size > 0 ==> {
            &&& 0 <= self.front < QUEUE_CAPACITY
            &&& self.back == ring_slot(self.front as int, self.size - 1)
        }
        &&& ring_filled(self.items@, self.front as int, self.size as int)
        &&& self.total_req_size == total_size(self.window())
    }

    /// The remembered requests, oldest first.
    pub closed spec fn window(&self) -> Seq<RequestState> {
        ring_window(self.items@, self.front as int, self.size as int)
    }

    /// The number of slots that the ring holds so far.
    pub closed spec fn slots(&self) -> nat {
        self.items@.len()
    }

    /// The slot that the next request will be written to.
    pub closed spec fn next_slot(&self) -> int {
        (self.back + 1) % QUEUE_CAPACITY as int
    }

    /// An empty queue whose ring has all its `QUEUE_CAPACITY` slots, none of them
    /// filled in yet.
    pub fn new() -> (q: Self)
        ensures
            q.wf(),
            q.window() == Seq::<RequestState>::empty(),
            q.slots() == QUEUE_CAPACITY,
    {
        let mut items: Vec<Option<RequestState>> = Vec::with_capacity(QUEUE_CAPACITY as usize);
        let mut i: usize = 0;
        while i < QUEUE_CAPACITY as usize
            invariant
                i <= QUEUE_CAPACITY,
                items@.len() == i,
            decreases QUEUE_CAPACITY - i,
        {
            items.push(None);
            i = i + 1;
        }
        let q = BaseStateQueue { items, size: 0, front: 0, back: -1, total_req_size: 0 };
        reveal(ring_filled);
        assert(q.window() =~= Seq::<RequestState>::empty());
        q
    }

    pub fn len(&self) -> (r: isize)
        requires
            self.wf(),
        ensures
            r == self.window().len(),
    {
        self.size
    }

    pub fn req_size(&self) -> (r: isize)
        requires
            self.wf(),
        ensures
            r == total_size(self.window()),
    {
        self.total_req_size
    }

    /// The oldest and the newest request, or neither when the queue is empty.
    pub fn front_and_back(&self) -> (r: (Option<RequestState>, Option<RequestState>))
        requires
            self.wf(),
        ensures
            self.window().len() == 0 ==> r == (None::<RequestState>, None::<RequestState>),
            self.window().len() > 0 ==> r == (
                Some(self.window()[0]),
                Some(self.window().last()),
            ),
    {
        if self.size != 0 {
            proof {
                lemma_ring_filled_at(self.items@, self.front as int, self.size as int, 0);
                lemma_ring_filled_at(
                    self.items@,
                    self.front as int,
                    self.size as int,
                    self.size - 1,
                );
            }
            return (self.items[self.front as usize], self.items[self.back as usize]);
        }
        (None, None)
    }

    /// Appends a request; once the ring is full the oldest one is dropped.
    pub fn insert(&mut self, p: Option<RequestState>)
        requires
            old(self).wf(),
            p is Some,
            old(self).next_slot() < old(self).slots(),
            old(self).window().len() == QUEUE_CAPACITY ==> isize::MIN <= total_size(
                old(self).window().drop_first(),
            ) <= isize::MAX,
            isize::MIN <= total_size(old(self).window()) - (if old(self).window().len()
                == QUEUE_CAPACITY {
                old(self).window()[0].spec_size() as int
            } else {
                0int
            }) + p->Some_0.spec_size() <= isize::MAX,
        ensures
            final(self).wf(),
            final(self).slots() == old(self).slots(),
            old(self).window().len() < QUEUE_CAPACITY ==> final(self).window() == old(
                self,
            ).window().push(p->Some_0),
            old(self).window().len() == QUEUE_CAPACITY ==> final(self).window() == old(
                self,
            ).window().drop_first().push(p->Some_0),
            final(self).window() == window_step(old(self).window(), p->Some_0),
    {
        let ghost w0 = self.window();
        let ghost f0 = self.front as int;
        let ghost s0 = self.size as int;
        let ghost items0 = self.items@;
        self.back = (self.back + 1) % QUEUE_CAPACITY;
        if self.size == QUEUE_CAPACITY {
            proof {
                lemma_ring_filled_at(items0, f0, s0, 0);
            }
            let first = self.items[self.front as usize];
            proof {
                lemma_total_size_drop_first(w0);
            }
            self.total_req_size = self.total_req_size - first.unwrap().size;
            self.front = (self.back + 1) % QUEUE_CAPACITY;
        } else {
            self.size = self.size + 1;
        }
        let bi = self.back as usize;
        self.items.set(bi, p);
        let cur = self.items[bi];
        proof {
            if s0 == QUEUE_CAPACITY {
                lemma_ring_rotate(items0, f0, p->Some_0);
                assert(self.window().drop_last() =~= w0.drop_first());
            } else {
                lemma_ring_push(items0, f0, s0, bi as int, p->Some_0);
                assert(self.window().drop_last() =~= w0);
            }
        }
        self.total_req_size = self.total_req_size + cur.unwrap().size;
    }

    /// Whether `insert` can take `p`: it is a request, the ring already holds the slot
    /// that it goes to, and the running sum of sizes stays within `isize`.
    pub fn insert_fits(&self, p: &Option<RequestState>) -> (r: bool)
        requires
            self.wf(),
        ensures
            r == ({
                &&& p is Some
                &&& self.next_slot() < self.slots()
                &&& self.window().len() == QUEUE_CAPACITY ==> isize::MIN <= total_size(
                    self.window().drop_first(),
                ) <= isize::MAX
                &&& isize::MIN <= total_size(self.window()) - (if self.window().len()
                    == QUEUE_CAPACITY {
                    self.window()[0].spec_size() as int
                } else {
                    0int
                }) + p->Some_0.spec_size() <= isize::MAX
            }),
    {
        let q = match p {
            Some(q) => q,
            None => {
                return false;
            },
        };
        let next = ((self.back + 1) % QUEUE_CAPACITY) as usize;
        if next >= self.items.len() {
            return false;
        }
        let total = self.total_req_size as i128;
        let mut dropped: i128 = 0;
        if self.size == QUEUE_CAPACITY {
            proof {
                lemma_ring_filled_at(self.items@, self.front as int, self.size as int, 0);
                lemma_total_size_drop_first(self.window());
            }
            let first = self.items[self.front as usize];
            dropped = first.unwrap().size as i128;
            let rest = total - dropped;
            if rest < isize::MIN as i128 || rest > isize::MAX as i128 {
                return false;
            }
        }
        let after = total - dropped + q.size as i128;
        after >= isize::MIN as i128 && after <= isize::MAX as i128
    }

    /// Forgets every remembered request.
    pub fn clear(&mut self)
        requires
            old(self).wf(),
        ensures
            final(self).wf(),
            final(self).window() == Seq::<RequestState>::empty(),
            final(self).slots() == old(self).slots(),
    {
        self.back = -1;
        self.front = 0;
        self.size = 0;
        self.total_req_size = 0;
        reveal(ring_filled);
        assert(self.window() =~= Seq::<RequestState>::empty());
    }
}

} // verus!
