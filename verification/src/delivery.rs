//! The delivery channel's fan-in model and its guarantees.
//!
//! Every per-host unit feeds one shared multi-producer, single-consumer
//! channel. The channel serializes concurrent sends into one receipt order;
//! all the engine may assume of that order is that it is *some* interleaving
//! of the producers' traces: each producer's entries appear in producer
//! order, nothing is lost, nothing is invented. A schedule — which producer
//! the channel served at each position — captures one such interleaving.
//!
//! Over that model this module proves the fan-in guarantees: within one
//! host's stream the delivered order is the produced order; every message
//! keeps the tag of the unit that produced it, under arbitrary
//! interleavings; and one host's failure never loses another host's output.

use vstd::prelude::*;

use crate::stream::ChannelEvent;
use crate::stream::chunk_payloads;

verus! {

/// How many of the first `k` schedule positions are served from source `h`.
pub open spec fn occurrences_before(sched: Seq<int>, h: int, k: int) -> nat
    decreases k,
{
    if k <= 0 {
        0
    } else {
        occurrences_before(sched, h, k - 1) + (if sched[k - 1] == h {
            1nat
        } else {
            0nat
        })
    }
}

/// The schedule only ever serves a source that still has entries left: at
/// every position it names a real source, of which fewer entries have been
/// served than its trace holds.
pub open spec fn schedule_in_bounds<T>(sched: Seq<int>, traces: Seq<Seq<T>>) -> bool {
    forall|k: int|
        0 <= k < sched.len() ==> 0 <= #[trigger] sched[k] < traces.len() && occurrences_before(
            sched,
            sched[k],
            k,
        ) < traces[sched[k]].len()
}

/// The schedule serves every source to the end of its trace: nothing a unit
/// sent is dropped by the channel.
pub open spec fn schedule_complete<T>(sched: Seq<int>, traces: Seq<Seq<T>>) -> bool {
    forall|h: int|
        0 <= h < traces.len() ==> occurrences_before(sched, h, sched.len() as int) == (
        #[trigger] traces[h]).len()
}

/// The one stream the consumer sees: at each position, the next entry of the
/// source the schedule served there.
pub open spec fn merged<T>(sched: Seq<int>, traces: Seq<Seq<T>>) -> Seq<T> {
    Seq::new(
        sched.len(),
        |k: int| traces[sched[k]][occurrences_before(sched, sched[k], k) as int],
    )
}

/// Serving more positions never serves fewer entries of a source.
pub proof fn lemma_occurrences_monotone(sched: Seq<int>, h: int, k1: int, k2: int)
    requires
        0 <= k1 <= k2,
    ensures
        occurrences_before(sched, h, k1) <= occurrences_before(sched, h, k2),
    decreases k2,
{
    if k1 < k2 {
        lemma_occurrences_monotone(sched, h, k1, k2 - 1);
    }
}

/// Among any `k` schedule positions that have already served `i + 1` or more
/// entries of source `h`, some earlier position served exactly entry `i`.
pub proof fn lemma_occurrence_position(sched: Seq<int>, h: int, i: int, k: int)
    requires
        0 <= k,
        0 <= i,
        i < occurrences_before(sched, h, k),
    ensures
        exists|p: int|
            0 <= p < k && #[trigger] sched[p] == h && occurrences_before(sched, h, p) == i,
    decreases k,
{
    if sched[k - 1] == h && occurrences_before(sched, h, k - 1) == i {
        assert(0 <= k - 1 < k && sched[k - 1] == h && occurrences_before(sched, h, k - 1) == i);
    } else {
        lemma_occurrence_position(sched, h, i, k - 1);
        let p = choose|p: int|
            0 <= p < k - 1 && #[trigger] sched[p] == h && occurrences_before(sched, h, p) == i;
        assert(0 <= p < k && sched[p] == h && occurrences_before(sched, h, p) == i);
    }
}

/// Relative order within one source is preserved exactly: of two merged
/// positions served from the same source, the earlier one carries an earlier
/// entry of that source's trace, and each carries exactly the entry the
/// source produced at that point.
pub proof fn lemma_per_source_order<T>(sched: Seq<int>, traces: Seq<Seq<T>>, k1: int, k2: int)
    requires
        schedule_in_bounds(sched, traces),
        0 <= k1 < k2 < sched.len(),
        sched[k1] == sched[k2],
    ensures
        occurrences_before(sched, sched[k1], k1) < occurrences_before(sched, sched[k1], k2),
        merged(sched, traces)[k1] == traces[sched[k1]][occurrences_before(
            sched,
            sched[k1],
            k1,
        ) as int],
        merged(sched, traces)[k2] == traces[sched[k1]][occurrences_before(
            sched,
            sched[k1],
            k2,
        ) as int],
{
    lemma_occurrences_monotone(sched, sched[k1], k1 + 1, k2);
    assert(occurrences_before(sched, sched[k1], k1 + 1) == occurrences_before(
        sched,
        sched[k1],
        k1,
    ) + 1);
}

/// Nothing a source produced is lost: under a complete in-bounds schedule,
/// every entry of every trace stands somewhere in the merged stream, at a
/// position served from that source.
pub proof fn lemma_all_delivered<T>(sched: Seq<int>, traces: Seq<Seq<T>>, h: int, i: int)
    requires
        schedule_in_bounds(sched, traces),
        schedule_complete(sched, traces),
        0 <= h < traces.len(),
        0 <= i < traces[h].len(),
    ensures
        exists|k: int|
            0 <= k < sched.len() && #[trigger] sched[k] == h && occurrences_before(sched, h, k)
                == i && merged(sched, traces)[k] == traces[h][i],
{
    lemma_occurrence_position(sched, h, i, sched.len() as int);
    let k = choose|k: int|
        0 <= k < sched.len() && #[trigger] sched[k] == h && occurrences_before(sched, h, k) == i;
    assert(merged(sched, traces)[k] == traces[h][i]);
}

/// Every entry of the trace carries the given identity tag.
pub open spec fn trace_tagged(trace: Seq<(Seq<char>, Seq<u8>)>, id: Seq<char>) -> bool {
    forall|i: int| 0 <= i < trace.len() ==> (#[trigger] trace[i]).0 == id
}

/// Tagging correctness: when every unit tags its own trace with its own
/// identity, then under an arbitrary interleaving every entry of the merged
/// stream carries the identity of exactly the unit the channel served there
/// — no chunk is ever attributed to a host that did not produce it.
pub proof fn lemma_tagging_correct(
    sched: Seq<int>,
    traces: Seq<Seq<(Seq<char>, Seq<u8>)>>,
    ids: Seq<Seq<char>>,
)
    requires
        ids.len() == traces.len(),
        schedule_in_bounds(sched, traces),
        forall|h: int| 0 <= h < traces.len() ==> trace_tagged(#[trigger] traces[h], ids[h]),
    ensures
        forall|k: int|
            0 <= k < sched.len() ==> (#[trigger] merged(sched, traces)[k]).0 == ids[sched[k]],
{
    assert forall|k: int|
        0 <= k < sched.len() implies (#[trigger] merged(sched, traces)[k]).0 == ids[sched[k]] by {
        let h = sched[k];
        let i = occurrences_before(sched, h, k) as int;
        assert(merged(sched, traces)[k] == traces[h][i]);
        assert(trace_tagged(traces[h], ids[h]));
    }
}

/// How one unit's run came out, seen from the channel: its connection
/// attempt failed before anything was sent, or it streamed the given events.
pub enum UnitOutcome {
    ConnectFailed,
    Ran(Seq<ChannelEvent>),
}

/// What one unit feeds into the channel: nothing at all when its connection
/// failed, otherwise each data payload of its stream, in stream order,
/// tagged with the unit's own identity.
pub open spec fn unit_trace(id: Seq<char>, outcome: UnitOutcome) -> Seq<(Seq<char>, Seq<u8>)> {
    match outcome {
        UnitOutcome::ConnectFailed => Seq::empty(),
        UnitOutcome::Ran(events) => chunk_payloads(events).map(|i: int, d: Seq<u8>| (id, d)),
    }
}

/// The traces of a whole fleet, one per unit.
pub open spec fn traces_of(ids: Seq<Seq<char>>, outcomes: Seq<UnitOutcome>) -> Seq<
    Seq<(Seq<char>, Seq<u8>)>,
> {
    Seq::new(ids.len(), |j: int| unit_trace(ids[j], outcomes[j]))
}

/// The entry stands somewhere in the merged stream.
pub open spec fn delivered<T>(sched: Seq<int>, traces: Seq<Seq<T>>, entry: T) -> bool {
    exists|k: int| 0 <= k < sched.len() && #[trigger] merged(sched, traces)[k] == entry
}

/// Failure isolation: with host `h` failing to connect, every chunk of
/// every other host still stands in the merged stream — one host's failure
/// never blocks or loses its siblings' output.
pub proof fn lemma_failure_isolation(
    ids: Seq<Seq<char>>,
    outcomes: Seq<UnitOutcome>,
    h: int,
    sched: Seq<int>,
)
    requires
        ids.len() == outcomes.len(),
        0 <= h < outcomes.len(),
        outcomes[h] is ConnectFailed,
        schedule_in_bounds(sched, traces_of(ids, outcomes)),
        schedule_complete(sched, traces_of(ids, outcomes)),
    ensures
        forall|j: int, i: int|
            0 <= j < ids.len() && j != h && 0 <= i < unit_trace(ids[j], outcomes[j]).len()
                ==> delivered(
                sched,
                traces_of(ids, outcomes),
                #[trigger] unit_trace(ids[j], outcomes[j])[i],
            ),
{
    assert forall|j: int, i: int|
        0 <= j < ids.len() && j != h && 0 <= i < unit_trace(ids[j], outcomes[j]).len() implies
    delivered(sched, traces_of(ids, outcomes), #[trigger] unit_trace(ids[j], outcomes[j])[i]) by {
        assert(traces_of(ids, outcomes)[j] == unit_trace(ids[j], outcomes[j]));
        lemma_all_delivered(sched, traces_of(ids, outcomes), j, i);
        let k = choose|k: int|
            0 <= k < sched.len() && #[trigger] sched[k] == j && occurrences_before(sched, j, k)
                == i && merged(sched, traces_of(ids, outcomes))[k] == traces_of(ids, outcomes)[j][i];
        assert(merged(sched, traces_of(ids, outcomes))[k] == unit_trace(ids[j], outcomes[j])[i]);
    }
}

} // verus!
