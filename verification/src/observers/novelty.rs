//! The model of a novelty stream: the values seen so far, the queue of those
//! not yet drained, and the count of novel values dropped for want of room.
use vstd::prelude::*;

verus! {

/// The observable state of a novelty stream: (seen, pending, overflows).
pub type StreamState<T> = (Set<T>, Seq<T>, u64);

/// The state after offering `x` to a stream whose queue holds at most `cap`
/// values: a value already forwarded changes nothing; a new one is queued and
/// recorded as forwarded when there is room, else it is counted (wrapping) as
/// an overflow and stays unrecorded, so that a later offer can queue it.
pub open spec fn offer<T>(st: StreamState<T>, x: T, cap: nat) -> StreamState<T> {
    let (seen, pending, overflows) = st;
    if seen.contains(x) {
        st
    } else if pending.len() < cap {
        (seen.insert(x), pending.push(x), overflows)
    } else {
        (seen, pending, overflows.wrapping_add(1))
    }
}

/// The state after offering the values of `xs`, in order.
pub open spec fn offer_all<T>(st: StreamState<T>, xs: Seq<T>, cap: nat) -> StreamState<T>
    decreases xs.len(),
{
    if xs.len() == 0 {
        st
    } else {
        offer(offer_all(st, xs.drop_last(), cap), xs.last(), cap)
    }
}

/// Offering values never forgets one that was forwarded.
pub proof fn lemma_offer_all_seen_grows<T>(st: StreamState<T>, xs: Seq<T>, cap: nat)
    ensures
        st.0.subset_of(offer_all(st, xs, cap).0),
    decreases xs.len(),
{
    if xs.len() > 0 {
        lemma_offer_all_seen_grows(st, xs.drop_last(), cap);
    }
}

/// What a stream forwards: each value at most once, and never one it had
/// seen before. Offering any values to a stream whose queue holds seen values
/// only, none twice, keeps that so, keeps the queue's front, every value
/// added to the queue is one the stream had not seen, and the values recorded
/// as forwarded grow by exactly those added to the queue.
pub proof fn law_offer_all_forwards_once<T>(st: StreamState<T>, xs: Seq<T>, cap: nat)
    requires
        st.1.no_duplicates(),
        forall|i: int| 0 <= i < st.1.len() ==> st.0.contains(#[trigger] st.1[i]),
    ensures
        offer_all(st, xs, cap).1.no_duplicates(),
        forall|i: int|
            0 <= i < offer_all(st, xs, cap).1.len() ==> offer_all(st, xs, cap).0.contains(
                #[trigger] offer_all(st, xs, cap).1[i],
            ),
        st.1.len() <= offer_all(st, xs, cap).1.len(),
        offer_all(st, xs, cap).1.subrange(0, st.1.len() as int) == st.1,
        forall|i: int|
            st.1.len() <= i < offer_all(st, xs, cap).1.len() ==> !st.0.contains(
                #[trigger] offer_all(st, xs, cap).1[i],
            ),
        offer_all(st, xs, cap).0 == st.0.union(
            offer_all(st, xs, cap).1.subrange(
                st.1.len() as int,
                offer_all(st, xs, cap).1.len() as int,
            ).to_set(),
        ),
    decreases xs.len(),
{
    if xs.len() > 0 {
        let prev = offer_all(st, xs.drop_last(), cap);
        law_offer_all_forwards_once(st, xs.drop_last(), cap);
        lemma_offer_all_seen_grows(st, xs.drop_last(), cap);
        let x = xs.last();
        let next = offer(prev, x, cap);
        assert(next == offer_all(st, xs, cap));
        if !prev.0.contains(x) && prev.1.len() < cap {
            assert(!prev.1.contains(x));
            assert forall|i: int, j: int|
                0 <= i < next.1.len() && 0 <= j < next.1.len() && i != j implies next.1[i]
                != next.1[j] by {
                if i < prev.1.len() && j < prev.1.len() {
                } else if i < prev.1.len() {
                    assert(next.1[i] == prev.1[i]);
                } else {
                    assert(next.1[j] == prev.1[j]);
                }
            }
            assert(!st.0.contains(x));
            assert(next.1.subrange(0, st.1.len() as int) =~= prev.1.subrange(0, st.1.len() as int));
            let added = prev.1.subrange(st.1.len() as int, prev.1.len() as int);
            assert(next.1.subrange(st.1.len() as int, next.1.len() as int) =~= added.push(x));
            added.lemma_push_to_set_commute(x);
            assert(next.0 =~= st.0.union(added.push(x).to_set()));
        }
    } else {
        assert(st.1.subrange(0, st.1.len() as int) =~= st.1);
        assert(st.1.subrange(st.1.len() as int, st.1.len() as int).to_set() =~= Set::<T>::empty());
        assert(st.0.union(Set::<T>::empty()) =~= st.0);
    }
}

/// One event in the life of a novelty stream.
#[derive(Debug, Clone, Copy)]
pub enum StreamEvent<T> {
    /// A value is offered to the stream.
    Offer(T),
    /// Everything queued is taken out.
    Drain,
}

/// The state after the events of `events`, in order, and everything that
/// the drains among them took out, in the order it was taken.
pub open spec fn run<T>(st: StreamState<T>, events: Seq<StreamEvent<T>>, cap: nat) -> (
    StreamState<T>,
    Seq<T>,
)
    decreases events.len(),
{
    if events.len() == 0 {
        (st, Seq::<T>::empty())
    } else {
        let (s, out) = run(st, events.drop_last(), cap);
        match events.last() {
            StreamEvent::Offer(x) => (offer(s, x, cap), out),
            StreamEvent::Drain => ((s.0, Seq::<T>::empty(), s.2), out + s.1),
        }
    }
}

/// Over the whole life of a stream, each value is forwarded at most once.
/// Take a stream whose queue holds forwarded values only, none twice, and
/// any events: what the drains took out, followed by what is still queued,
/// begins with the queue as it was, holds no value twice, and every value
/// after that beginning was offered among the events and had not been
/// forwarded before them. The values recorded as forwarded grow by exactly
/// those values.
pub proof fn law_stream_forwards_once<T>(st: StreamState<T>, events: Seq<StreamEvent<T>>, cap: nat)
    requires
        st.1.no_duplicates(),
        forall|i: int| 0 <= i < st.1.len() ==> st.0.contains(#[trigger] st.1[i]),
    ensures
        ({
            let (fin, out) = run(st, events, cap);
            let total = out + fin.1;
            &&& total.no_duplicates()
            &&& st.1.len() <= total.len()
            &&& total.subrange(0, st.1.len() as int) == st.1
            &&& forall|i: int|
                st.1.len() <= i < total.len() ==> !st.0.contains(#[trigger] total[i])
            &&& forall|i: int|
                st.1.len() <= i < total.len() ==> exists|j: int|
                    0 <= j < events.len() && events[j] == StreamEvent::Offer(#[trigger] total[i])
            &&& fin.0 == st.0.union(total.subrange(st.1.len() as int, total.len() as int).to_set())
            &&& forall|i: int| 0 <= i < fin.1.len() ==> fin.0.contains(#[trigger] fin.1[i])
        }),
    decreases events.len(),
{
    let (fin, out) = run(st, events, cap);
    let total = out + fin.1;
    if events.len() == 0 {
        assert(total =~= st.1);
        assert(total.subrange(0, st.1.len() as int) =~= st.1);
        assert(total.subrange(st.1.len() as int, total.len() as int).to_set() =~= Set::<T>::empty());
        assert(st.0.union(Set::<T>::empty()) =~= st.0);
    } else {
        let prefix = events.drop_last();
        law_stream_forwards_once(st, prefix, cap);
        let (s, o) = run(st, prefix, cap);
        let tp = o + s.1;
        assert forall|i: int| st.1.len() <= i < tp.len() implies exists|j: int|
            0 <= j < events.len() && events[j] == StreamEvent::Offer(#[trigger] tp[i]) by {
            let j = choose|j: int| 0 <= j < prefix.len() && prefix[j] == StreamEvent::Offer(tp[i]);
            assert(events[j] == prefix[j]);
        }
        match events.last() {
            StreamEvent::Offer(x) => {
                if !s.0.contains(x) && s.1.len() < cap {
                    assert(total =~= tp.push(x));
                    assert(!tp.contains(x)) by {
                        if tp.contains(x) {
                            let k = choose|k: int| 0 <= k < tp.len() && tp[k] == x;
                            if k < st.1.len() {
                                assert(tp.subrange(0, st.1.len() as int)[k] == st.1[k]);
                                assert(st.0.contains(st.1[k]));
                            } else {
                                let added = tp.subrange(st.1.len() as int, tp.len() as int);
                                assert(added[k - st.1.len()] == x);
                                assert(added.contains(x));
                                assert(added.to_set().contains(x));
                            }
                        }
                    }
                    assert forall|a: int, b: int|
                        0 <= a < total.len() && 0 <= b < total.len() && a != b implies total[a]
                        != total[b] by {
                        if a < tp.len() && b < tp.len() {
                            assert(total[a] == tp[a] && total[b] == tp[b]);
                        } else if a < tp.len() {
                            assert(total[a] == tp[a]);
                        } else {
                            assert(total[b] == tp[b]);
                        }
                    }
                    assert(total.subrange(0, st.1.len() as int) =~= tp.subrange(
                        0,
                        st.1.len() as int,
                    ));
                    assert(!st.0.contains(x));
                    assert forall|i: int| st.1.len() <= i < total.len() implies exists|j: int|
                        0 <= j < events.len() && events[j] == StreamEvent::Offer(
                            #[trigger] total[i],
                        ) by {
                        if i < tp.len() {
                            assert(total[i] == tp[i]);
                        } else {
                            assert(events[events.len() - 1] == StreamEvent::Offer(total[i]));
                        }
                    }
                    let added = tp.subrange(st.1.len() as int, tp.len() as int);
                    assert(total.subrange(st.1.len() as int, total.len() as int) =~= added.push(x));
                    added.lemma_push_to_set_commute(x);
                    assert(fin.0 =~= st.0.union(added.push(x).to_set()));
                    assert forall|i: int| 0 <= i < fin.1.len() implies fin.0.contains(
                        #[trigger] fin.1[i],
                    ) by {
                        if i < s.1.len() {
                            assert(fin.1[i] == s.1[i]);
                        }
                    }
                } else {
                    assert(total =~= tp);
                }
            },
            StreamEvent::Drain => {
                assert(total =~= tp);
            },
        }
    }
}

} // verus!
