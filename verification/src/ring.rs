//! The two ends of the lock-free sample ring buffer between the capture
//! thread and the screens, and the only calls into ringbuf.
//!
//! Each end keeps a ghost account of the calls made through it: the sink
//! records every sample handed to `try_push` and every outcome, the feed
//! records every count that `pop_slice` returned and the samples it moved.
//! Only the wrappers below (and the constructor, which starts the accounts
//! empty) write these accounts.
use vstd::prelude::*;
use ringbuf::storage::Heap;
use ringbuf::traits::Consumer;
use ringbuf::traits::Producer;
use ringbuf::traits::Split;
use ringbuf::wrap::caching::Caching;
use ringbuf::HeapRb;
use ringbuf::SharedRb;
use std::sync::Arc;

verus! {

/// ringbuf's caching producer over a heap ring buffer.
#[verifier::external_body]
#[verifier::reject_recursive_types(T)]
struct RawSink<T> {
    prod: Caching<Arc<SharedRb<Heap<T>>>, true, false>,
}

/// ringbuf's caching consumer over a heap ring buffer.
#[verifier::external_body]
#[verifier::reject_recursive_types(T)]
struct RawFeed<T> {
    cons: Caching<Arc<SharedRb<Heap<T>>>, false, true>,
}

/// The capture end of a sample ring buffer.
#[verifier::reject_recursive_types(T)]
pub struct SampleSink<T> {
    raw: RawSink<T>,
    offered: Ghost<Seq<T>>,
    outcomes: Ghost<Seq<bool>>,
}

/// The screen end of a sample ring buffer.
#[verifier::reject_recursive_types(T)]
pub struct SampleFeed<T> {
    raw: RawFeed<T>,
    pops: Ghost<Seq<usize>>,
    received: Ghost<Seq<T>>,
}

/// Number of `true` entries in `s`.
pub open spec fn count_true(s: Seq<bool>) -> nat
    decreases s.len(),
{
    if s.len() == 0 {
        0
    } else {
        count_true(s.drop_last()) + if s.last() { 1nat } else { 0nat }
    }
}

impl<T> SampleSink<T> {
    /// Every sample this end has handed to the buffer, in order.
    pub closed spec fn offered(&self) -> Seq<T> {
        self.offered@
    }

    /// For each offer, whether the buffer took the sample.
    pub closed spec fn outcomes(&self) -> Seq<bool> {
        self.outcomes@
    }

    /// How many of the offered samples the buffer took.
    pub open spec fn accepted(&self) -> nat {
        count_true(self.outcomes())
    }
}

impl<T> SampleFeed<T> {
    /// Every count a pop from the buffer returned, in order.
    pub closed spec fn pops(&self) -> Seq<usize> {
        self.pops@
    }

    /// Every sample this end has taken out of the buffer, in order.
    pub closed spec fn received(&self) -> Seq<T> {
        self.received@
    }
}

/// Largest capacity that ringbuf accepts for a ring buffer.
pub open spec fn max_capacity() -> usize {
    (usize::MAX / 2) as usize
}

/// Makes a heap ring buffer of `capacity` slots with ringbuf's
/// `HeapRb::new` and splits it into its two ends with `Split::split`.
/// `HeapRb::new` panics on a capacity of zero or above half the address
/// space, which `requires` leaves out (a failed allocation still aborts);
/// nothing is stated of the ends, which start empty.
#[verifier::external_body]
fn split_heap_rb<T>(capacity: usize) -> (ends: (RawSink<T>, RawFeed<T>))
    requires
        0 < capacity <= max_capacity(),
{
    let (prod, cons) = HeapRb::<T>::new(capacity).split();
    (RawSink { prod }, RawFeed { cons })
}

/// Opens a sample ring buffer of `capacity` slots and hands out its two
/// ends, neither of which has moved a sample yet; no buffer comes out for a
/// capacity of zero or one above half the address space.
pub fn sample_channel<T>(capacity: usize) -> (ends: Option<(SampleSink<T>, SampleFeed<T>)>)
    ensures
        ends is Some <==> 0 < capacity <= max_capacity(),
        ends matches Some(e) ==> e.0.offered() == Seq::<T>::empty() && e.0.outcomes() == Seq::<
            bool,
        >::empty() && e.1.pops() == Seq::<usize>::empty() && e.1.received() == Seq::<T>::empty(),
{
    if capacity == 0 || capacity > usize::MAX / 2 {
        None
    } else {
        let (raw_sink, raw_feed) = split_heap_rb(capacity);
        let sink = SampleSink {
            raw: raw_sink,
            offered: Ghost(Seq::empty()),
            outcomes: Ghost(Seq::empty()),
        };
        let feed = SampleFeed {
            raw: raw_feed,
            pops: Ghost(Seq::empty()),
            received: Ghost(Seq::empty()),
        };
        Some((sink, feed))
    }
}

/// Hands one sample to ringbuf's `Producer::try_push`; `true` when the
/// buffer took it, `false` when it was full and the sample was dropped.
/// The sink's account records the sample and the outcome. Which outcome
/// comes is not stated: the screen thread pops concurrently.
#[verifier::external_body]
pub(crate) fn try_push_one<T>(sink: &mut SampleSink<T>, x: T) -> (taken: bool)
    ensures
        final(sink).offered() == old(sink).offered().push(x),
        final(sink).outcomes() == old(sink).outcomes().push(taken),
{
    sink.raw.prod.try_push(x).is_ok()
}

/// Moves items out of the ring buffer into `buf` from index `start` on, as
/// many as are there and fit, with ringbuf's `Consumer::pop_slice`. It
/// returns how many it moved: those land in `buf[start..start + n]` and
/// nothing else in `buf` changes; the feed's account records the count and
/// the samples moved. Which items they are is not stated: the capture
/// thread pushes concurrently, so what the buffer holds is no function of
/// anything this side sees.
#[verifier::external_body]
pub(crate) fn pop_into<T: Copy>(feed: &mut SampleFeed<T>, buf: &mut Vec<T>, start: usize) -> (n:
    usize)
    requires
        start <= old(buf)@.len(),
    ensures
        n <= old(buf)@.len() - start,
        final(buf)@.len() == old(buf)@.len(),
        forall|k: int|
            0 <= k < start || start + n <= k < old(buf)@.len() ==> #[trigger] final(buf)@[k] == old(
                buf,
            )@[k],
        final(feed).pops() == old(feed).pops().push(n),
        final(feed).received() == old(feed).received() + final(buf)@.subrange(
            start as int,
            start + n,
        ),
{
    feed.raw.cons.pop_slice(&mut buf[start..])
}

} // verus!
