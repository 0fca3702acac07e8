//! The bounded sample histories behind the charts: each keeps the latest samples,
//! oldest first, and drops the oldest when it is full.
use std::collections::VecDeque;
use vstd::prelude::*;

verus! {

/// Samples kept per chart.
pub const HISTORY_SIZE: usize = 120;

/// The samples after recording `x` in a history holding `h`, capped at `cap`: the
/// oldest sample is dropped first when the history is full.
pub open spec fn after_push<T>(h: Seq<T>, x: T, cap: nat) -> Seq<T> {
    if h.len() >= cap && h.len() > 0 {
        h.drop_first().push(x)
    } else {
        h.push(x)
    }
}

/// Records a sample, dropping the oldest one when the history holds `cap` or more.
pub fn push_bounded<T>(history: &mut VecDeque<T>, x: T, cap: usize)
    ensures
        final(history)@ == after_push(old(history)@, x, cap as nat),
{
    if history.len() >= cap {
        let _ = history.pop_front();
    }
    history.push_back(x);
    proof {
        if old(history)@.len() > 0 && old(history)@.len() >= cap {
            assert(old(history)@.subrange(1, old(history)@.len() as int) =~= old(history)@.drop_first());
        }
    }
}

/// A history that holds at most `cap` samples still does after a sample is recorded,
/// and its newest sample is the one recorded last.
pub proof fn law_push_keeps_bound<T>(h: Seq<T>, x: T, cap: nat)
    requires
        cap >= 1,
        h.len() <= cap,
    ensures
        after_push(h, x, cap).len() <= cap,
        after_push(h, x, cap).last() == x,
        after_push(h, x, cap).len() >= 1,
{
}

/// The samples held by each history of a list.
pub open spec fn contents<T>(hs: Seq<VecDeque<T>>) -> Seq<Seq<T>> {
    hs.map_values(|h: VecDeque<T>| h@)
}

/// A list of histories resized to `n`: the first ones kept, new ones empty.
pub open spec fn resized<T>(hs: Seq<Seq<T>>, n: nat) -> Seq<Seq<T>> {
    Seq::new(n, |i: int| if i < hs.len() { hs[i] } else { Seq::<T>::empty() })
}

/// A list of histories after `samples[i]` is recorded in history `i`, for every
/// history that has a sample.
pub open spec fn after_samples<T>(hs: Seq<Seq<T>>, samples: Seq<T>, cap: nat) -> Seq<Seq<T>> {
    Seq::new(
        hs.len(),
        |i: int|
            if i < samples.len() {
                after_push(hs[i], samples[i], cap)
            } else {
                hs[i]
            },
    )
}

/// Resizes a list of histories to `n`: kept histories are unchanged and new ones are
/// empty.
pub fn resize_histories<T>(histories: &mut Vec<VecDeque<T>>, n: usize)
    ensures
        contents(final(histories)@) == resized(contents(old(histories)@), n as nat),
        final(histories)@.len() == n,
        forall|i: int|
            0 <= i < n && i < old(histories)@.len() ==> (#[trigger] final(histories)@[i]) == old(
                histories,
            )@[i],
        forall|i: int|
            old(histories)@.len() <= i < n ==> (#[trigger] final(histories)@[i])@ == Seq::<
                T,
            >::empty(),
{
    if histories.len() > n {
        histories.truncate(n);
    } else {
        while histories.len() < n
            invariant
                old(histories)@.len() <= histories@.len() <= n,
                forall|i: int|
                    0 <= i < old(histories)@.len() ==> (#[trigger] histories@[i]) == old(
                        histories,
                    )@[i],
                forall|i: int|
                    old(histories)@.len() <= i < histories@.len() ==> (
                    #[trigger] histories@[i])@ == Seq::<T>::empty(),
            decreases n - histories@.len(),
        {
            histories.push(VecDeque::new());
        }
    }
    assert(contents(histories@) =~= resized(contents(old(histories)@), n as nat));
}

/// A list of counters resized to `n`: the first ones kept, new ones zero.
pub open spec fn zero_extended(ts: Seq<u64>, n: nat) -> Seq<u64> {
    Seq::new(n, |i: int| if i < ts.len() { ts[i] } else { 0u64 })
}

/// Resizes a list of counters to `n`: kept counters are unchanged and new ones are
/// zero.
pub fn resize_counters(counters: &mut Vec<u64>, n: usize)
    ensures
        final(counters)@ == zero_extended(old(counters)@, n as nat),
{
    if counters.len() > n {
        counters.truncate(n);
    } else {
        while counters.len() < n
            invariant
                old(counters)@.len() <= counters@.len() <= n,
                forall|i: int|
                    0 <= i < old(counters)@.len() ==> (#[trigger] counters@[i]) == old(
                        counters,
                    )@[i],
                forall|i: int| old(counters)@.len() <= i < counters@.len() ==> (
                #[trigger] counters@[i]) == 0,
            decreases n - counters@.len(),
        {
            counters.push(0);
        }
    }
    assert(counters@ =~= zero_extended(old(counters)@, n as nat));
}

/// Keeps one history and one engine-time counter per GPU: when the number of
/// histories differs from the number of GPUs, both lists are resized to it.
pub fn sync_gpu_tracking<T>(histories: &mut Vec<VecDeque<T>>, times: &mut Vec<u64>, gpu_count: usize)
    ensures
        contents(final(histories)@) == resized(contents(old(histories)@), gpu_count as nat),
        final(histories)@.len() == gpu_count,
        old(histories)@.len() == gpu_count ==> final(times)@ == old(times)@,
        old(histories)@.len() != gpu_count ==> final(times)@ == zero_extended(
            old(times)@,
            gpu_count as nat,
        ),
{
    if histories.len() != gpu_count {
        resize_histories(histories, gpu_count);
        resize_counters(times, gpu_count);
    } else {
        assert(resized(contents(histories@), gpu_count as nat) =~= contents(histories@));
    }
}

/// Records `samples[i]` in `histories[i]` for every GPU that has a history.
pub fn record_samples<T: Copy>(histories: &mut Vec<VecDeque<T>>, samples: &Vec<T>, cap: usize)
    ensures
        contents(final(histories)@) == after_samples(contents(old(histories)@), samples@, cap as nat),
        final(histories)@.len() == old(histories)@.len(),
        forall|i: int|
            0 <= i < old(histories)@.len() ==> (#[trigger] final(histories)@[i])@ == if i
                < samples@.len() {
                after_push(old(histories)@[i]@, samples@[i], cap as nat)
            } else {
                old(histories)@[i]@
            },
{
    let n = histories.len();
    let mut i: usize = 0;
    while i < samples.len() && i < n
        invariant
            n == old(histories)@.len(),
            histories@.len() == n,
            i <= n,
            forall|j: int|
                0 <= j < n ==> (#[trigger] histories@[j])@ == if j < i && j < samples@.len() {
                    after_push(old(histories)@[j]@, samples@[j], cap as nat)
                } else {
                    old(histories)@[j]@
                },
        decreases n - i,
    {
        push_bounded(&mut histories[i], samples[i], cap);
        i = i + 1;
    }
    assert(contents(histories@) =~= after_samples(contents(old(histories)@), samples@, cap as nat));
}

/// Each refresh keeps one history per GPU: after the list is resized to the GPUs and
/// their samples are recorded, there is one history per sample, none holds more than
/// the cap, and each ends with its GPU's newest sample.
pub proof fn law_gpu_histories_stay_bounded<T>(hs: Seq<Seq<T>>, samples: Seq<T>, cap: nat)
    requires
        cap >= 1,
        forall|i: int| 0 <= i < hs.len() ==> (#[trigger] hs[i]).len() <= cap,
    ensures
        ({
            let after = after_samples(resized(hs, samples.len()), samples, cap);
            &&& after.len() == samples.len()
            &&& forall|i: int|
                0 <= i < samples.len() ==> (#[trigger] after[i]).len() <= cap && after[i].last()
                    == samples[i]
        }),
{
    let r = resized(hs, samples.len());
    assert forall|i: int| 0 <= i < samples.len() implies (#[trigger] after_samples(r, samples, cap)[i]).len()
        <= cap && after_samples(r, samples, cap)[i].last() == samples[i] by {
        assert(r[i].len() <= cap);
        law_push_keeps_bound(r[i], samples[i], cap);
    }
}

/// Recording a sample keeps the earlier samples in order and adds the new one last;
/// only when the history is full is its oldest sample dropped.
pub proof fn law_push_keeps_newest<T>(h: Seq<T>, x: T, cap: nat)
    ensures
        after_push(h, x, cap).last() == x,
        h.len() < cap ==> after_push(h, x, cap).drop_last() == h,
        h.len() >= cap && h.len() > 0 ==> after_push(h, x, cap).drop_last() == h.skip(1),
{
    assert(h.push(x).drop_last() =~= h);
    if h.len() > 0 {
        assert(h.drop_first().push(x).drop_last() =~= h.skip(1));
    }
}

/// Resizing keeps the first histories as they were and starts the added ones empty;
/// recording samples changes only the histories that get a sample.
pub proof fn law_resize_and_record<T>(hs: Seq<Seq<T>>, n: nat, samples: Seq<T>, cap: nat)
    ensures
        resized(hs, n).len() == n,
        forall|i: int| 0 <= i < n && i < hs.len() ==> #[trigger] resized(hs, n)[i] == hs[i],
        forall|i: int| hs.len() <= i < n ==> (#[trigger] resized(hs, n)[i]).len() == 0,
        after_samples(hs, samples, cap).len() == hs.len(),
        forall|i: int|
            samples.len() <= i < hs.len() ==> #[trigger] after_samples(hs, samples, cap)[i] == hs[i],
        forall|i: int|
            0 <= i < hs.len() && i < samples.len() ==> (#[trigger] after_samples(hs, samples, cap)[i]).last()
                == samples[i],
{
}

} // verus!
