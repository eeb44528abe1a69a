//! Laws of the change-detection state machine, stated and proved over the
//! spec-level model that the registry's contracts are written against.

use vstd::prelude::*;
use crate::model::{
    RegMap, Rec, Event, EventKind, TICK_PERIOD, step_map, update_map, update_events, seed_map,
    wrap_tick, evict_map, evicted_keys, advance_map, advance_n_map, tick_n, cycle_map,
    cycle_events,
};

verus! {

/// Seed baseline: seeding a single record and then updating with the very
/// same record yields no change event, whatever the ticks of the two calls.
pub proof fn lemma_seed_baseline(m0: RegMap, k: Seq<char>, c: Seq<char>, t: u8, t2: u8)
    ensures
        update_events(seed_map(m0, seq![(k, c)], t), seq![(k, c)], t2) == Seq::<Event>::empty(),
{
    let recs: Seq<Rec> = seq![(k, c)];
    assert(recs.drop_last() =~= Seq::<Rec>::empty());
    assert(seed_map(m0, Seq::<Rec>::empty(), t) == m0);
    let m1 = seed_map(m0, recs, t);
    assert(m1 == m0.insert(k, (c, t)));
    assert(m1.dom().contains(k) && m1[k].0 == c);
    assert(update_events(m1, Seq::<Rec>::empty(), t2) == Seq::<Event>::empty());
    assert(update_map(m1, Seq::<Rec>::empty(), t2) == m1);
    assert(update_events(m1, recs, t2) =~= Seq::<Event>::empty());
}

/// Addition detection: updating an empty registry with a single record
/// yields exactly one `Added` event for it, and the registry then holds the
/// record, stamped with the current tick.
pub proof fn lemma_addition_detection(k: Seq<char>, c: Seq<char>, t: u8)
    ensures
        update_map(Map::empty(), seq![(k, c)], t) == Map::<Seq<char>, (Seq<char>, u8)>::empty()
            .insert(k, (c, t)),
        update_events(Map::empty(), seq![(k, c)], t) == seq![(k, c, EventKind::Added)],
{
    let recs: Seq<Rec> = seq![(k, c)];
    assert(recs.drop_last() =~= Seq::<Rec>::empty());
    let m0 = Map::<Seq<char>, (Seq<char>, u8)>::empty();
    assert(!m0.dom().contains(k));
    assert(update_events(m0, Seq::<Rec>::empty(), t) == Seq::<Event>::empty());
    assert(update_map(m0, Seq::<Rec>::empty(), t) == m0);
    assert(update_events(m0, recs, t) =~= Seq::<Event>::empty().push((k, c, EventKind::Added)));
    assert(update_events(m0, recs, t) =~= seq![(k, c, EventKind::Added)]);
}

/// Change detection: updating a registry that holds (c1, t1) under `k` with
/// new content c2 != c1 yields exactly one `Changed` event, and the entry is
/// replaced by (c2, tick); the old liveness counter t1 is discarded.
pub proof fn lemma_change_detection(
    m: RegMap,
    k: Seq<char>,
    c1: Seq<char>,
    t1: u8,
    c2: Seq<char>,
    t: u8,
)
    requires
        m.dom().contains(k),
        m[k] == (c1, t1),
        c2 != c1,
    ensures
        update_map(m, seq![(k, c2)], t) == m.insert(k, (c2, t)),
        update_events(m, seq![(k, c2)], t) == seq![(k, c2, EventKind::Changed)],
{
    let recs: Seq<Rec> = seq![(k, c2)];
    assert(recs.drop_last() =~= Seq::<Rec>::empty());
    assert(update_events(m, Seq::<Rec>::empty(), t) == Seq::<Event>::empty());
    assert(update_map(m, Seq::<Rec>::empty(), t) == m);
    assert(update_events(m, recs, t) =~= Seq::<Event>::empty().push((k, c2, EventKind::Changed)));
    assert(update_events(m, recs, t) =~= seq![(k, c2, EventKind::Changed)]);
}

/// Unchanged stability: updating a registry that holds (c, t0) under `k`
/// with the identical content yields no event and leaves the entry exactly
/// as it was — the liveness counter is not refreshed to the current tick.
pub proof fn lemma_unchanged_stability(m: RegMap, k: Seq<char>, c: Seq<char>, t0: u8, t: u8)
    requires
        m.dom().contains(k),
        m[k] == (c, t0),
    ensures
        update_map(m, seq![(k, c)], t) == m,
        update_events(m, seq![(k, c)], t) == Seq::<Event>::empty(),
{
    let recs: Seq<Rec> = seq![(k, c)];
    assert(recs.drop_last() =~= Seq::<Rec>::empty());
    assert(update_events(m, Seq::<Rec>::empty(), t) == Seq::<Event>::empty());
    assert(update_map(m, Seq::<Rec>::empty(), t) == m);
    assert(update_events(m, recs, t) =~= Seq::<Event>::empty());
}

proof fn lemma_advance_n_below_wrap(m: RegMap, n: nat)
    requires
        n <= TICK_PERIOD - 1,
    ensures
        tick_n(0, n) == n,
        advance_n_map(m, 0, n) == m,
    decreases n,
{
    if n > 0 {
        lemma_advance_n_below_wrap(m, (n - 1) as nat);
    }
}

/// Eviction periodicity: starting at tick zero, an entry whose liveness
/// counter differs from zero is untouched by the first TICK_PERIOD - 1 tick
/// advances, is reported in the eviction of the TICK_PERIOD-th advance
/// (the wrap back to zero), and is removed by it.
pub proof fn lemma_eviction_periodicity(m: RegMap, k: Seq<char>)
    requires
        m.dom().contains(k),
        m[k].1 != 0,
    ensures
        advance_n_map(m, 0, (TICK_PERIOD - 1) as nat) == m,
        tick_n(0, (TICK_PERIOD - 1) as nat) == TICK_PERIOD - 1,
        evicted_keys(advance_n_map(m, 0, (TICK_PERIOD - 1) as nat)).contains(k),
        advance_n_map(m, 0, TICK_PERIOD as nat) == evict_map(m),
        !advance_n_map(m, 0, TICK_PERIOD as nat).dom().contains(k),
{
    lemma_advance_n_below_wrap(m, (TICK_PERIOD - 1) as nat);
    assert(advance_n_map(m, 0, TICK_PERIOD as nat) == advance_map(m, (TICK_PERIOD - 1) as u8));
    assert(wrap_tick((TICK_PERIOD - 1) as u8) == 0);
    assert(!evict_map(m).dom().contains(k));
}

/// Eviction survival: a record added or changed while the tick stands at
/// zero carries liveness counter zero, and therefore survives the eviction
/// at the next wrap (and any later tick advance) with its content kept.
pub proof fn lemma_eviction_survival(m: RegMap, k: Seq<char>, c: Seq<char>, t: u8)
    requires
        !m.dom().contains(k) || m[k].0 != c,
    ensures
        step_map(m, k, c, 0)[k] == (c, 0u8),
        advance_map(step_map(m, k, c, 0), t).dom().contains(k),
        advance_map(step_map(m, k, c, 0), t)[k] == (c, 0u8),
        !evicted_keys(step_map(m, k, c, 0)).contains(k),
{
    let m1 = step_map(m, k, c, 0);
    assert(m1 == m.insert(k, (c, 0u8)));
    if wrap_tick(t) == 0 {
        assert(advance_map(m1, t) == evict_map(m1));
        assert(evict_map(m1).dom().contains(k));
        assert(evict_map(m1)[k] == m1[k]);
    }
}

/// Order preservation: updating with two records whose keys are both new
/// (and distinct) yields their `Added` events in the order of the input.
pub proof fn lemma_order_preservation(
    m: RegMap,
    k1: Seq<char>,
    c1: Seq<char>,
    k2: Seq<char>,
    c2: Seq<char>,
    t: u8,
)
    requires
        !m.dom().contains(k1),
        !m.dom().contains(k2),
        k1 != k2,
    ensures
        update_events(m, seq![(k1, c1), (k2, c2)], t) == seq![
            (k1, c1, EventKind::Added),
            (k2, c2, EventKind::Added),
        ],
{
    let recs: Seq<Rec> = seq![(k1, c1), (k2, c2)];
    let first: Seq<Rec> = seq![(k1, c1)];
    assert(recs.drop_last() =~= first);
    assert(first.drop_last() =~= Seq::<Rec>::empty());
    assert(update_events(m, Seq::<Rec>::empty(), t) == Seq::<Event>::empty());
    assert(update_map(m, Seq::<Rec>::empty(), t) == m);
    let m1 = update_map(m, first, t);
    assert(m1 == m.insert(k1, (c1, t)));
    assert(!m1.dom().contains(k2));
    assert(update_events(m, first, t) =~= Seq::<Event>::empty().push((k1, c1, EventKind::Added)));
    assert(update_events(m, recs, t) =~= seq![
        (k1, c1, EventKind::Added),
        (k2, c2, EventKind::Added),
    ]);
}

/// Ingestion failure isolation: a cycle whose ingestion failed produces no
/// events, and — as long as its tick advance does not wrap to zero — leaves
/// the registry map exactly as it was, so the next cycle starts from the
/// same state. (At a wrap the periodic eviction still runs.)
pub proof fn lemma_ingestion_failure_isolation(m: RegMap, t: u8)
    requires
        wrap_tick(t) != 0,
    ensures
        cycle_map(m, None, t) == m,
        cycle_events(m, None, t) == Seq::<Event>::empty(),
{
}

} // verus!
