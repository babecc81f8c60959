//! Moving samples through the ring buffer: the capture side offers a batch,
//! a screen drains the newest samples into its window once per frame.
use vstd::prelude::*;
use crate::ring::{count_true, pop_into, try_push_one};
pub use crate::ring::{sample_channel, SampleFeed, SampleSink};

verus! {

/// The running count of taken offers after one more offer whose outcome
/// is `taken`.
pub fn tally(count: usize, taken: bool) -> (c: usize)
    requires
        taken ==> count < usize::MAX,
    ensures
        c == count + if taken { 1int } else { 0int },
{
    if taken { count + 1 } else { count }
}

proof fn lemma_count_true_push(s: Seq<bool>, b: bool)
    ensures
        count_true(s.push(b)) == count_true(s) + if b { 1nat } else { 0nat },
{
    assert(s.push(b).drop_last() =~= s);
}

/// Offers each sample of `samples` to the ring buffer once, in order, never
/// waiting: a sample that finds the buffer full is dropped. Returns how
/// many the buffer took.
pub fn offer_all<T: Copy>(sink: &mut SampleSink<T>, samples: &Vec<T>) -> (taken: usize)
    ensures
        final(sink).offered() == old(sink).offered() + samples@,
        final(sink).outcomes().len() == old(sink).outcomes().len() + samples@.len(),
        final(sink).outcomes().subrange(0, old(sink).outcomes().len() as int) == old(
            sink,
        ).outcomes(),
        taken == count_true(
            final(sink).outcomes().subrange(
                old(sink).outcomes().len() as int,
                final(sink).outcomes().len() as int,
            ),
        ),
        final(sink).accepted() == old(sink).accepted() + taken,
        taken <= samples@.len(),
{
    let ghost offered0 = sink.offered();
    let ghost outcomes0 = sink.outcomes();
    let mut taken: usize = 0;
    let mut i: usize = 0;
    while i < samples.len()
        invariant
            i <= samples@.len(),
            taken <= i,
            sink.offered() == offered0 + samples@.subrange(0, i as int),
            sink.outcomes().len() == outcomes0.len() + i,
            sink.outcomes().subrange(0, outcomes0.len() as int) == outcomes0,
            taken == count_true(
                sink.outcomes().subrange(outcomes0.len() as int, sink.outcomes().len() as int),
            ),
            count_true(sink.outcomes()) == count_true(outcomes0) + taken,
        decreases samples@.len() - i,
    {
        let x = samples[i];
        let ghost before = sink.outcomes();
        let ok = try_push_one(sink, x);
        proof {
            let mine = before.subrange(outcomes0.len() as int, before.len() as int);
            assert(sink.outcomes().subrange(outcomes0.len() as int, sink.outcomes().len() as int)
                =~= mine.push(ok));
            lemma_count_true_push(mine, ok);
            lemma_count_true_push(before, ok);
            assert(sink.outcomes().subrange(0, outcomes0.len() as int) =~= before.subrange(
                0,
                outcomes0.len() as int,
            ));
            assert(samples@.subrange(0, i + 1) =~= samples@.subrange(0, i as int).push(x));
        }
        taken = tally(taken, ok);
        i = i + 1;
    }
    assert(samples@.subrange(0, samples@.len() as int) =~= samples@);
    taken
}

/// Sum of a run of pop counts.
pub open spec fn count_sum(s: Seq<usize>) -> int
    decreases s.len(),
{
    if s.len() == 0 {
        0
    } else {
        count_sum(s.drop_last()) + s.last()
    }
}

/// The fill of the window after a pop that moved `popped` samples into a
/// window of `len` holding `filled`, and whether to pop again: only after
/// a pop that moved something and left room.
pub fn drain_step(filled: usize, popped: usize, len: usize) -> (r: (usize, bool))
    requires
        filled + popped <= usize::MAX,
    ensures
        r.0 == filled + popped,
        r.1 == (popped > 0 && filled + popped < len),
{
    let f = filled + popped;
    (f, popped > 0 && f < len)
}

/// The pops made between two states of a feed's account.
pub open spec fn pops_since(before: Seq<usize>, after: Seq<usize>) -> Seq<usize> {
    after.subrange(before.len() as int, after.len() as int)
}

/// Fills `buf` from its start with what the ring buffer holds and returns
/// how many samples it took. It pops into `buf` from the current fill on,
/// again after every pop that moved something and left room: so it pops at
/// least once, every pop but the last moved samples, the last moved none
/// exactly when the window came back short (or has no room at all), and
/// the counts add up to the result. The samples taken, `buf[..total]`,
/// extend what the feed has received; the entries past them are left as
/// they were.
pub fn drain_window<T: Copy>(feed: &mut SampleFeed<T>, buf: &mut Vec<T>) -> (total: usize)
    ensures
        total <= old(buf)@.len(),
        final(buf)@.len() == old(buf)@.len(),
        forall|k: int| total <= k < old(buf)@.len() ==> #[trigger] final(buf)@[k] == old(buf)@[k],
        final(feed).received() == old(feed).received() + final(buf)@.subrange(0, total as int),
        final(feed).pops().len() > old(feed).pops().len(),
        final(feed).pops().subrange(0, old(feed).pops().len() as int) == old(feed).pops(),
        ({
            let p = pops_since(old(feed).pops(), final(feed).pops());
            &&& forall|k: int| 0 <= k < p.len() - 1 ==> #[trigger] p[k] > 0
            &&& count_sum(p) == total
            &&& (p.last() == 0 <==> (total < old(buf)@.len() || old(buf)@.len() == 0))
        }),
{
    let len = buf.len();
    let ghost start_buf = buf@;
    let ghost received0 = feed.received();
    let ghost pops0 = feed.pops();
    let mut total: usize = 0;
    loop
        invariant_except_break
            len == buf@.len(),
            len == start_buf.len(),
            total <= len,
            total < len || len == 0,
            forall|k: int| total <= k < len ==> #[trigger] buf@[k] == start_buf[k],
            feed.received() == received0 + buf@.subrange(0, total as int),
            feed.pops().len() >= pops0.len(),
            feed.pops().subrange(0, pops0.len() as int) == pops0,
            forall|k: int|
                0 <= k < pops_since(pops0, feed.pops()).len() ==> #[trigger] pops_since(
                    pops0,
                    feed.pops(),
                )[k] > 0,
            count_sum(pops_since(pops0, feed.pops())) == total,
        ensures
            len == buf@.len(),
            total <= len,
            forall|k: int| total <= k < len ==> #[trigger] buf@[k] == start_buf[k],
            feed.received() == received0 + buf@.subrange(0, total as int),
            feed.pops().len() > pops0.len(),
            feed.pops().subrange(0, pops0.len() as int) == pops0,
            ({
                let p = pops_since(pops0, feed.pops());
                &&& forall|k: int| 0 <= k < p.len() - 1 ==> #[trigger] p[k] > 0
                &&& count_sum(p) == total
                &&& (p.last() == 0 <==> (total < len || len == 0))
            }),
        decreases len - total,
    {
        let ghost buf_before = buf@;
        let ghost pops_before = feed.pops();
        let n = pop_into(feed, buf, total);
        let (filled, again) = drain_step(total, n, len);
        proof {
            let p_before = pops_since(pops0, pops_before);
            let p_after = pops_since(pops0, feed.pops());
            assert(p_after =~= p_before.push(n));
            assert(p_after.drop_last() =~= p_before);
            assert(feed.pops().subrange(0, pops0.len() as int) =~= pops_before.subrange(
                0,
                pops0.len() as int,
            ));
            assert(buf@.subrange(0, total as int) =~= buf_before.subrange(0, total as int));
            assert(buf@.subrange(0, filled as int) =~= buf@.subrange(0, total as int)
                + buf@.subrange(total as int, filled as int));
        }
        total = filled;
        if !again {
            break;
        }
    }
    total
}

} // verus!
