use ringbuf::{HeapRb, Rb};
use vstd::math::min;
use vstd::prelude::*;

verus! {

/// Bounded first-in first-out store of raw audio sample words, held in a
/// `ringbuf::HeapRb`. Verus sees it only through `store_contents` and
/// `store_capacity`.
#[verifier::external_body]
pub struct SampleStore {
    rb: HeapRb<u32>,
}

/// The samples held by a store, oldest first.
pub uninterp spec fn store_contents(s: SampleStore) -> Seq<u32>;

/// The capacity a store was created with.
pub uninterp spec fn store_capacity(s: SampleStore) -> nat;

/// Relies on `HeapRb::new`: an empty ring of exactly `capacity` slots
/// (it panics on a zero capacity, which `requires` leaves out).
#[verifier::external_body]
fn store_new(capacity: usize) -> (r: SampleStore)
    requires
        capacity > 0,
    ensures
        store_contents(r) == Seq::<u32>::empty(),
        store_capacity(r) == capacity as nat,
{
    SampleStore { rb: HeapRb::new(capacity) }
}

/// Relies on `Rb::len`: the number of items stored.
#[verifier::external_body]
fn store_len(s: &SampleStore) -> (r: usize)
    ensures
        r as nat == store_contents(*s).len(),
{
    s.rb.len()
}

/// Relies on `Rb::push`: appends at the back when the ring is not full,
/// otherwise hands the item back and leaves the ring as it was.
#[verifier::external_body]
fn store_push(s: &mut SampleStore, x: u32) -> (r: bool)
    ensures
        store_capacity(*final(s)) == store_capacity(*old(s)),
        r == (store_contents(*old(s)).len() < store_capacity(*old(s))),
        r ==> store_contents(*final(s)) == store_contents(*old(s)).push(x),
        !r ==> store_contents(*final(s)) == store_contents(*old(s)),
{
    s.rb.push(x).is_ok()
}

/// Relies on `Rb::pop`: removes and returns the oldest item, or `None` when
/// the ring is empty.
#[verifier::external_body]
fn store_pop(s: &mut SampleStore) -> (r: Option<u32>)
    ensures
        store_capacity(*final(s)) == store_capacity(*old(s)),
        store_contents(*old(s)).len() == 0 ==> r is None && store_contents(*final(s))
            == store_contents(*old(s)),
        store_contents(*old(s)).len() > 0 ==> r == Some(store_contents(*old(s))[0])
            && store_contents(*final(s)) == store_contents(*old(s)).drop_first(),
{
    s.rb.pop()
}

/// What a sequence of writes leaves in a ring of capacity `cap` that held
/// `contents`: each sample is appended while there is room, and a sample that
/// finds the ring full is dropped.
pub open spec fn after_writes(contents: Seq<u32>, cap: nat, xs: Seq<u32>) -> Seq<u32>
    decreases xs.len(),
{
    if xs.len() == 0 {
        contents
    } else {
        let c = after_writes(contents, cap, xs.drop_last());
        if c.len() < cap {
            c.push(xs.last())
        } else {
            c
        }
    }
}

/// Writes never take a ring past its capacity: from any state that holds at
/// most `cap` samples, any sequence of writes leaves at most `cap` samples.
pub proof fn lemma_writes_stay_bounded(contents: Seq<u32>, cap: nat, xs: Seq<u32>)
    requires
        contents.len() <= cap,
    ensures
        after_writes(contents, cap, xs).len() <= cap,
    decreases xs.len(),
{
    if xs.len() > 0 {
        lemma_writes_stay_bounded(contents, cap, xs.drop_last());
    }
}

/// Writing `xs` into an empty ring of capacity `cap` keeps the first
/// `min(|xs|, cap)` samples written and drops the rest.
pub proof fn lemma_writes_keep_oldest(cap: nat, xs: Seq<u32>)
    ensures
        after_writes(Seq::<u32>::empty(), cap, xs) == xs.subrange(0, min(xs.len() as int, cap as int)),
    decreases xs.len(),
{
    if xs.len() > 0 {
        lemma_writes_keep_oldest(cap, xs.drop_last());
        let n = xs.len() as int;
        if n - 1 < cap {
            assert(xs.drop_last().subrange(0, n - 1).push(xs.last()) =~= xs.subrange(0, n));
        } else {
            assert(xs.drop_last().subrange(0, cap as int) =~= xs.subrange(0, cap as int));
        }
    }
}

/// Filling an empty ring of capacity `cap` with `cap + k` samples and then
/// reading `cap` samples yields the last `cap` samples written. Since a full
/// ring drops the incoming sample, this holds when nothing overflowed
/// (`k == 0`).
pub proof fn lemma_fill_then_read(cap: nat, k: nat, xs: Seq<u32>)
    requires
        xs.len() == cap + k,
        k == 0,
    ensures
        after_writes(Seq::<u32>::empty(), cap, xs).subrange(0, cap as int)
            == xs.subrange(k as int, (cap + k) as int),
{
    lemma_writes_keep_oldest(cap, xs);
}

/// Bounded audio sample ring: writes that find it full are dropped (the
/// samples already held are kept), reads take the oldest samples first and
/// never wait.
pub struct RingBuffer {
    store: SampleStore,
}

impl RingBuffer {
    pub closed spec fn contents(&self) -> Seq<u32> {
        store_contents(self.store)
    }

    pub closed spec fn cap(&self) -> nat {
        store_capacity(self.store)
    }

    pub open spec fn wf(&self) -> bool {
        0 < self.cap() && self.contents().len() <= self.cap()
    }

    /// An empty ring holding at most `capacity` samples.
    pub fn new(capacity: usize) -> (r: RingBuffer)
        requires
            capacity > 0,
        ensures
            r.wf(),
            r.contents() == Seq::<u32>::empty(),
            r.cap() == capacity as nat,
    {
        RingBuffer { store: store_new(capacity) }
    }

    /// Number of samples that a read can take now.
    pub fn len(&self) -> (r: usize)
        ensures
            r as nat == self.contents().len(),
    {
        store_len(&self.store)
    }

    /// Appends one sample if there is room; returns whether it was kept.
    pub fn push(&mut self, x: u32) -> (r: bool)
        requires
            old(self).wf(),
        ensures
            final(self).wf(),
            final(self).cap() == old(self).cap(),
            r == (old(self).contents().len() < old(self).cap()),
            final(self).contents() == after_writes(old(self).contents(), old(self).cap(), seq![x]),
    {
        let r = store_push(&mut self.store, x);
        proof {
            assert(seq![x].drop_last() =~= Seq::<u32>::empty());
            assert(after_writes(old(self).contents(), old(self).cap(), Seq::<u32>::empty())
                == old(self).contents());
        }
        r
    }

    /// Writes `samples` in order, dropping each one that finds the ring full.
    /// Returns how many were kept.
    pub fn write(&mut self, samples: &[u32]) -> (r: usize)
        requires
            old(self).wf(),
        ensures
            final(self).wf(),
            final(self).cap() == old(self).cap(),
            final(self).contents() == after_writes(old(self).contents(), old(self).cap(), samples@),
            r as nat == final(self).contents().len() - old(self).contents().len(),
    {
        let mut kept: usize = 0;
        let mut i: usize = 0;
        while i < samples.len()
            invariant
                i <= samples.len(),
                self.wf(),
                self.cap() == old(self).cap(),
                self.contents() == after_writes(old(self).contents(), old(self).cap(), samples@.subrange(0, i as int)),
                kept as nat == self.contents().len() - old(self).contents().len(),
                kept <= i,
            decreases samples.len() - i,
        {
            let x = samples[i];
            let ok = store_push(&mut self.store, x);
            if ok {
                kept = kept + 1;
            }
            proof {
                assert(samples@.subrange(0, i + 1).drop_last() =~= samples@.subrange(0, i as int));
            }
            i = i + 1;
        }
        proof {
            assert(samples@.subrange(0, samples@.len() as int) =~= samples@);
        }
        kept
    }

    /// Takes the oldest sample, if any.
    pub fn pop(&mut self) -> (r: Option<u32>)
        requires
            old(self).wf(),
        ensures
            final(self).wf(),
            final(self).cap() == old(self).cap(),
            old(self).contents().len() == 0 ==> r is None && final(self).contents() == old(self).contents(),
            old(self).contents().len() > 0 ==> r == Some(old(self).contents()[0])
                && final(self).contents() == old(self).contents().drop_first(),
    {
        store_pop(&mut self.store)
    }

    /// Moves up to `buffer.len()` of the oldest samples into the front of
    /// `buffer`, without waiting; returns how many were moved, which is
    /// `min(buffer.len(), len())`.
    pub fn read(&mut self, buffer: &mut [u32]) -> (r: usize)
        requires
            old(self).wf(),
        ensures
            final(self).wf(),
            final(self).cap() == old(self).cap(),
            r as nat == min(old(buffer)@.len() as int, old(self).contents().len() as int),
            final(buffer)@.len() == old(buffer)@.len(),
            final(buffer)@.subrange(0, r as int) == old(self).contents().subrange(0, r as int),
            final(buffer)@.subrange(r as int, final(buffer)@.len() as int)
                == old(buffer)@.subrange(r as int, old(buffer)@.len() as int),
            final(self).contents() == old(self).contents().subrange(r as int, old(self).contents().len() as int),
    {
        let avail = store_len(&self.store);
        let count: usize = if buffer.len() < avail { buffer.len() } else { avail };
        let mut i: usize = 0;
        while i < count
            invariant
                count as int == min(old(buffer)@.len() as int, old(self).contents().len() as int),
                i <= count,
                self.wf(),
                self.cap() == old(self).cap(),
                self.contents() == old(self).contents().subrange(i as int, old(self).contents().len() as int),
                buffer@.len() == old(buffer)@.len(),
                buffer@.subrange(0, i as int) == old(self).contents().subrange(0, i as int),
                buffer@.subrange(i as int, buffer@.len() as int)
                    == old(buffer)@.subrange(i as int, old(buffer)@.len() as int),
            decreases count - i,
        {
            let ghost prev = buffer@;
            let x = store_pop(&mut self.store);
            match x {
                Some(v) => {
                    buffer[i] = v;
                }
                None => {
                    assert(false);
                }
            }
            proof {
                assert(buffer@.subrange(0, i + 1) =~= old(self).contents().subrange(0, i + 1));
                assert(self.contents() =~= old(self).contents().subrange(i + 1, old(self).contents().len() as int));
                assert forall|k: int| i + 1 <= k < buffer@.len() implies buffer@[k] == old(buffer)@[k] by {
                    assert(buffer@[k] == prev[k]);
                    assert(prev.subrange(i as int, prev.len() as int)[k - i] == prev[k]);
                }
                assert(buffer@.subrange(i + 1, buffer@.len() as int)
                    =~= old(buffer)@.subrange(i + 1, old(buffer)@.len() as int));
            }
            i = i + 1;
        }
        count
    }
}

} // verus!
