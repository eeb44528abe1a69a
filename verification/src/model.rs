//! The mathematical model of the registry: a map from key to
//! (content, liveness counter), a wrapping cycle counter, and the
//! update / eviction rules as spec-level functions.

use vstd::prelude::*;

verus! {

/// The number of cycles in one eviction period; the tick wraps modulo this.
pub const TICK_PERIOD: u8 = 128;

/// How a record that produced a change event relates to the registry:
/// its key was absent (`Added`) or present with different content (`Changed`).
#[derive(Clone, Copy, Debug, PartialEq, Eq, Structural)]
pub enum EventKind {
    Added,
    Changed,
}

/// Abstract registry state: key |-> (content, liveness counter).
pub type RegMap = Map<Seq<char>, (Seq<char>, u8)>;

/// Abstract form of one incoming record: (key, content).
pub type Rec = (Seq<char>, Seq<char>);

/// Abstract form of one change event: (key, content, kind).
pub type Event = (Seq<char>, Seq<char>, EventKind);

/// Effect of one incoming record on the registry map: an absent key is
/// inserted, different content replaces the entry (both stamped with the
/// current tick), and identical content leaves the entry untouched,
/// its liveness counter included.
pub open spec fn step_map(m: RegMap, k: Seq<char>, c: Seq<char>, tick: u8) -> RegMap {
    if !m.dom().contains(k) {
        m.insert(k, (c, tick))
    } else if m[k].0 != c {
        m.insert(k, (c, tick))
    } else {
        m
    }
}

/// The registry map after processing a batch of records in order,
/// later occurrences of a key overriding earlier ones.
pub open spec fn update_map(m: RegMap, recs: Seq<Rec>, tick: u8) -> RegMap
    decreases recs.len(),
{
    if recs.len() == 0 {
        m
    } else {
        step_map(update_map(m, recs.drop_last(), tick), recs.last().0, recs.last().1, tick)
    }
}

/// The change events produced by processing a batch of records in order:
/// one `Added` or `Changed` event per record that was absent or differed,
/// in the relative order of the incoming records.
pub open spec fn update_events(m: RegMap, recs: Seq<Rec>, tick: u8) -> Seq<Event>
    decreases recs.len(),
{
    if recs.len() == 0 {
        Seq::empty()
    } else {
        let prior = update_events(m, recs.drop_last(), tick);
        let pm = update_map(m, recs.drop_last(), tick);
        let k = recs.last().0;
        let c = recs.last().1;
        if !pm.dom().contains(k) {
            prior.push((k, c, EventKind::Added))
        } else if pm[k].0 != c {
            prior.push((k, c, EventKind::Changed))
        } else {
            prior
        }
    }
}

/// The registry map after seeding: every record is inserted unconditionally,
/// stamped with the current tick; within the batch the last write per key wins.
pub open spec fn seed_map(m: RegMap, recs: Seq<Rec>, tick: u8) -> RegMap
    decreases recs.len(),
{
    if recs.len() == 0 {
        m
    } else {
        seed_map(m, recs.drop_last(), tick).insert(recs.last().0, (recs.last().1, tick))
    }
}

/// The cycle counter after one advance, wrapping modulo the period.
pub open spec fn wrap_tick(t: u8) -> u8 {
    if t + 1 == TICK_PERIOD {
        0
    } else {
        (t + 1) as u8
    }
}

/// The entries that survive an eviction boundary: exactly those whose
/// liveness counter equals zero.
pub open spec fn evict_map(m: RegMap) -> RegMap {
    m.restrict(Set::new(|k: Seq<char>| m.dom().contains(k) && m[k].1 == 0))
}

/// The keys removed at an eviction boundary: those whose liveness counter
/// differs from zero.
pub open spec fn evicted_keys(m: RegMap) -> Set<Seq<char>> {
    Set::new(|k: Seq<char>| m.dom().contains(k) && m[k].1 != 0)
}

/// The registry map after one tick advance from tick `t`: eviction runs
/// exactly when the new tick wraps to zero, otherwise the map is unchanged.
pub open spec fn advance_map(m: RegMap, t: u8) -> RegMap {
    if wrap_tick(t) == 0 {
        evict_map(m)
    } else {
        m
    }
}

/// The registry map after `n` consecutive tick advances, with no
/// intervening updates, starting from tick `t`.
pub open spec fn advance_n_map(m: RegMap, t: u8, n: nat) -> RegMap
    decreases n,
{
    if n == 0 {
        m
    } else {
        advance_map(advance_n_map(m, t, (n - 1) as nat), tick_n(t, (n - 1) as nat))
    }
}

/// The cycle counter after `n` consecutive advances from tick `t`.
pub open spec fn tick_n(t: u8, n: nat) -> u8
    decreases n,
{
    if n == 0 {
        t
    } else {
        wrap_tick(tick_n(t, (n - 1) as nat))
    }
}

/// The cycle counter stays in the half-open range below the period.
pub open spec fn tick_valid(t: u8) -> bool {
    t < TICK_PERIOD
}

/// The registry map after a cycle's update but before its tick advance:
/// the update rule when ingestion succeeded (`Some`), no mutation when it
/// failed (`None`).
pub open spec fn mid_map(m: RegMap, ing: Option<Seq<Rec>>, t: u8) -> RegMap {
    match ing {
        Some(recs) => update_map(m, recs, t),
        None => m,
    }
}

/// The registry map after one full poll cycle at tick `t`: the update rule
/// when ingestion succeeded (`Some`), no mutation when it failed (`None`),
/// followed by the tick advance and its possible eviction.
pub open spec fn cycle_map(m: RegMap, ing: Option<Seq<Rec>>, t: u8) -> RegMap {
    advance_map(mid_map(m, ing, t), t)
}

/// The change events of one full poll cycle: those of the update rule when
/// ingestion succeeded, none when it failed.
pub open spec fn cycle_events(m: RegMap, ing: Option<Seq<Rec>>, t: u8) -> Seq<Event> {
    match ing {
        Some(recs) => update_events(m, recs, t),
        None => Seq::empty(),
    }
}

} // verus!
