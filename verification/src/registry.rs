//! The verified record registry: an owned store of (key, content, liveness)
//! entries with the change-detection update rule and the periodic,
//! tick-driven eviction rule.

use vstd::prelude::*;
use crate::model::{
    EventKind, RegMap, Rec, Event, TICK_PERIOD, update_map, update_events, seed_map, wrap_tick,
    evict_map, evicted_keys, advance_map, tick_valid, mid_map, cycle_map, cycle_events,
};

verus! {

/// One stored record: the last observed content and the liveness counter
/// stamped with the tick of the last add or change.
pub struct RegistryEntry {
    pub content: String,
    pub live: u8,
}

impl View for RegistryEntry {
    type V = (Seq<char>, u8);

    open spec fn view(&self) -> (Seq<char>, u8) {
        (self.content@, self.live)
    }
}

/// One detected change: the record's key, its new content, and whether the
/// key was newly added or its content changed.
pub struct ChangeEvent {
    pub key: String,
    pub content: String,
    pub kind: EventKind,
}

impl View for ChangeEvent {
    type V = Event;

    open spec fn view(&self) -> Event {
        (self.key@, self.content@, self.kind)
    }
}

/// The abstract form of a sequence of change events.
pub open spec fn events_view(s: Seq<ChangeEvent>) -> Seq<Event> {
    s.map_values(|e: ChangeEvent| e@)
}

/// The abstract form of an ingestion result handed to a poll cycle.
pub open spec fn ing_view(ing: Option<&Vec<(String, String)>>) -> Option<Seq<Rec>> {
    match ing {
        Some(records) => Some(records.deep_view()),
        None => None,
    }
}

/// Every returned key names an entry of `m` whose liveness counter differs
/// from zero.
pub open spec fn evicted_sound(m: RegMap, evicted: Seq<String>) -> bool {
    forall|a: int| 0 <= a < evicted.len() ==> evicted_keys(m).contains(#[trigger] evicted[a]@)
}

/// Every entry of `m` whose liveness counter differs from zero is among the
/// returned keys.
pub open spec fn evicted_complete(m: RegMap, evicted: Seq<String>) -> bool {
    forall|k: Seq<char>| #[trigger] evicted_keys(m).contains(k) ==> exists|a: int|
        0 <= a < evicted.len() && evicted[a]@ == k
}

/// No key is returned twice.
pub open spec fn keys_distinct(evicted: Seq<String>) -> bool {
    forall|a: int, b: int| 0 <= a < b < evicted.len() ==> evicted[a]@ != evicted[b]@
}

/// No two positions of a backing store carry the same key.
spec fn keys_unique(s: Seq<(String, RegistryEntry)>) -> bool {
    forall|i: int, j: int| 0 <= i < j < s.len() ==> s[i].0@ != s[j].0@
}

/// The registry map denoted by a backing store, later entries overriding
/// earlier ones (under `keys_unique` no key occurs twice).
spec fn kv_map(s: Seq<(String, RegistryEntry)>) -> RegMap
    decreases s.len(),
{
    if s.len() == 0 {
        Map::empty()
    } else {
        kv_map(s.drop_last()).insert(s.last().0@, s.last().1@)
    }
}

proof fn lemma_kv_index_in_dom(s: Seq<(String, RegistryEntry)>, i: int)
    requires
        0 <= i < s.len(),
    ensures
        kv_map(s).dom().contains(s[i].0@),
    decreases s.len(),
{
    if i < s.len() - 1 {
        lemma_kv_index_in_dom(s.drop_last(), i);
    }
}

proof fn lemma_kv_dom_index(s: Seq<(String, RegistryEntry)>, k: Seq<char>)
    requires
        kv_map(s).dom().contains(k),
    ensures
        exists|i: int| 0 <= i < s.len() && s[i].0@ == k,
    decreases s.len(),
{
    if s.len() > 0 {
        if s.last().0@ == k {
            assert(s[s.len() - 1].0@ == k);
        } else {
            lemma_kv_dom_index(s.drop_last(), k);
            let i = choose|i: int| 0 <= i < s.drop_last().len() && s.drop_last()[i].0@ == k;
            assert(s[i].0@ == k);
        }
    }
}

proof fn lemma_kv_at(s: Seq<(String, RegistryEntry)>, i: int)
    requires
        keys_unique(s),
        0 <= i < s.len(),
    ensures
        kv_map(s).dom().contains(s[i].0@),
        kv_map(s)[s[i].0@] == s[i].1@,
    decreases s.len(),
{
    if i < s.len() - 1 {
        assert(keys_unique(s.drop_last()));
        lemma_kv_at(s.drop_last(), i);
        assert(s[i].0@ != s.last().0@);
    }
}

proof fn lemma_kv_update(s: Seq<(String, RegistryEntry)>, i: int, k: String, e: RegistryEntry)
    requires
        keys_unique(s),
        0 <= i < s.len(),
        k@ == s[i].0@,
    ensures
        kv_map(s.update(i, (k, e))) == kv_map(s).insert(k@, e@),
        keys_unique(s.update(i, (k, e))),
    decreases s.len(),
{
    let s2 = s.update(i, (k, e));
    if i == s.len() - 1 {
        assert(s2.drop_last() =~= s.drop_last());
        assert(kv_map(s2) =~= kv_map(s).insert(k@, e@));
    } else {
        assert(keys_unique(s.drop_last()));
        lemma_kv_update(s.drop_last(), i, k, e);
        assert(s2.drop_last() =~= s.drop_last().update(i, (k, e)));
        assert(s[i].0@ != s.last().0@);
        assert(kv_map(s2) =~= kv_map(s).insert(k@, e@));
    }
    assert forall|a: int, b: int| 0 <= a < b < s2.len() implies s2[a].0@ != s2[b].0@ by {
        assert(s2[a].0@ == s[a].0@);
        assert(s2[b].0@ == s[b].0@);
    }
}

proof fn lemma_kv_push(s: Seq<(String, RegistryEntry)>, k: String, e: RegistryEntry)
    requires
        keys_unique(s),
        !kv_map(s).dom().contains(k@),
    ensures
        kv_map(s.push((k, e))) == kv_map(s).insert(k@, e@),
        keys_unique(s.push((k, e))),
{
    let s2 = s.push((k, e));
    assert(s2.drop_last() =~= s);
    assert(s2.last() == (k, e));
    assert forall|i: int| 0 <= i < s.len() implies s[i].0@ != k@ by {
        if s[i].0@ == k@ {
            lemma_kv_index_in_dom(s, i);
        }
    }
    assert forall|a: int, b: int| 0 <= a < b < s2.len() implies s2[a].0@ != s2[b].0@ by {
        if b < s.len() {
            assert(s2[a].0@ == s[a].0@);
            assert(s2[b].0@ == s[b].0@);
        } else {
            assert(s2[a].0@ == s[a].0@);
            assert(s2[b].0@ == k@);
        }
    }
}

/// The registry: the last-known entry per key, plus the process-wide cycle
/// counter that drives periodic eviction.
pub struct Registry {
    entries: Vec<(String, RegistryEntry)>,
    tick: u8,
}

impl View for Registry {
    type V = RegMap;

    closed spec fn view(&self) -> RegMap {
        kv_map(self.entries@)
    }
}

impl Registry {
    /// The current cycle counter, in [0, TICK_PERIOD).
    pub closed spec fn cur_tick(&self) -> u8 {
        self.tick
    }

    /// The abstract backing store: one (key, (content, liveness)) per slot.
    pub closed spec fn store(&self) -> Seq<(Seq<char>, (Seq<char>, u8))> {
        self.entries@.map_values(|p: (String, RegistryEntry)| (p.0@, p.1@))
    }

    /// Well-formedness: no key is stored twice, the tick is in range, and
    /// every liveness counter is in range.
    pub closed spec fn wf(&self) -> bool {
        &&& keys_unique(self.entries@)
        &&& tick_valid(self.tick)
        &&& forall|i: int|
            0 <= i < self.entries@.len() ==> (#[trigger] self.entries@[i]).1.live < TICK_PERIOD
    }

    /// Creates an empty registry at tick zero.
    pub fn new() -> (r: Registry)
        ensures
            r.wf(),
            r@ == Map::<Seq<char>, (Seq<char>, u8)>::empty(),
            r.cur_tick() == 0,
    {
        Registry { entries: Vec::new(), tick: 0 }
    }

    /// The current cycle counter.
    pub fn tick(&self) -> (r: u8)
        ensures
            r == self.cur_tick(),
    {
        self.tick
    }

    /// Whether a key currently has an entry.
    pub fn contains_key(&self, key: &String) -> (r: bool)
        requires
            self.wf(),
        ensures
            r == self@.dom().contains(key@),
    {
        self.find_index(key).is_some()
    }

    /// Finds the slot holding `key`, if any.
    fn find_index(&self, key: &String) -> (r: Option<usize>)
        requires
            self.wf(),
        ensures
            match r {
                Some(i) => {
                    &&& i < self.entries@.len()
                    &&& self.entries@[i as int].0@ == key@
                    &&& self@.dom().contains(key@)
                    &&& self@[key@] == self.entries@[i as int].1@
                },
                None => !self@.dom().contains(key@),
            },
    {
        let mut j: usize = 0;
        while j < self.entries.len()
            invariant
                self.wf(),
                j <= self.entries@.len(),
                forall|jj: int| 0 <= jj < j ==> self.entries@[jj].0@ != key@,
            decreases self.entries@.len() - j,
        {
            if self.entries[j].0 == *key {
                proof {
                    lemma_kv_at(self.entries@, j as int);
                }
                return Some(j);
            }
            j += 1;
        }
        proof {
            if self@.dom().contains(key@) {
                lemma_kv_dom_index(self.entries@, key@);
            }
        }
        None
    }

    /// Establishes the baseline: inserts every record, stamped with the
    /// current tick; later occurrences of a key override earlier ones.
    /// Produces no change events. Intended to be called once, before any
    /// `update`, with the first successful ingestion result.
    pub fn seed(&mut self, records: &Vec<(String, String)>)
        requires
            old(self).wf(),
            old(self)@ == Map::<Seq<char>, (Seq<char>, u8)>::empty(),
        ensures
            final(self).wf(),
            final(self).cur_tick() == old(self).cur_tick(),
            final(self)@ == seed_map(old(self)@, records.deep_view(), old(self).cur_tick()),
    {
        let ghost m0 = self@;
        let ghost rs = records.deep_view();
        let ghost t = self.tick;
        let mut j: usize = 0;
        while j < records.len()
            invariant
                self.wf(),
                self.tick == t,
                j <= records@.len(),
                rs == records.deep_view(),
                rs.len() == records@.len(),
                self@ == seed_map(m0, rs.take(j as int), t),
            decreases records@.len() - j,
        {
            let key = &records[j].0;
            let content = &records[j].1;
            proof {
                assert(rs.take(j as int + 1).drop_last() =~= rs.take(j as int));
                assert(rs.take(j as int + 1).last() == rs[j as int]);
                assert(rs[j as int] == (key@, content@));
            }
            let entry = RegistryEntry { content: content.clone(), live: self.tick };
            let key2 = key.clone();
            let ghost es = self.entries@;
            match self.find_index(key) {
                Some(i) => {
                    proof {
                        lemma_kv_update(es, i as int, key2, entry);
                    }
                    self.entries.set(i, (key2, entry));
                }
                None => {
                    proof {
                        lemma_kv_push(es, key2, entry);
                    }
                    self.entries.push((key2, entry));
                }
            }
            j += 1;
        }
        proof {
            assert(rs.take(rs.len() as int) =~= rs);
        }
    }

    /// Processes one cycle's records in order: an absent key is inserted and
    /// reported `Added`; different content replaces the entry and is reported
    /// `Changed`, both stamped with the current tick; identical content
    /// leaves the entry untouched, its liveness counter included, and is not
    /// reported. Keys absent from `records` are left untouched.
    pub fn update(&mut self, records: &Vec<(String, String)>) -> (events: Vec<ChangeEvent>)
        requires
            old(self).wf(),
        ensures
            final(self).wf(),
            final(self).cur_tick() == old(self).cur_tick(),
            final(self)@ == update_map(old(self)@, records.deep_view(), old(self).cur_tick()),
            events_view(events@) == update_events(
                old(self)@,
                records.deep_view(),
                old(self).cur_tick(),
            ),
    {
        let ghost m0 = self@;
        let ghost rs = records.deep_view();
        let ghost t = self.tick;
        let mut events: Vec<ChangeEvent> = Vec::new();
        let mut j: usize = 0;
        while j < records.len()
            invariant
                self.wf(),
                self.tick == t,
                j <= records@.len(),
                rs == records.deep_view(),
                rs.len() == records@.len(),
                self@ == update_map(m0, rs.take(j as int), t),
                events_view(events@) == update_events(m0, rs.take(j as int), t),
            decreases records@.len() - j,
        {
            let key = &records[j].0;
            let content = &records[j].1;
            proof {
                assert(rs.take(j as int + 1).drop_last() =~= rs.take(j as int));
                assert(rs.take(j as int + 1).last() == rs[j as int]);
                assert(rs[j as int] == (key@, content@));
            }
            let ghost es = self.entries@;
            let ghost evs = events@;
            match self.find_index(key) {
                Some(i) => {
                    if self.entries[i].1.content == *content {
                        // unchanged: no event, no state change, liveness kept
                        proof {
                            assert(self@ == update_map(m0, rs.take(j as int + 1), t));
                            assert(events_view(events@) == update_events(
                                m0,
                                rs.take(j as int + 1),
                                t,
                            ));
                        }
                    } else {
                        let entry = RegistryEntry { content: content.clone(), live: self.tick };
                        let key2 = key.clone();
                        proof {
                            lemma_kv_update(es, i as int, key2, entry);
                        }
                        self.entries.set(i, (key2, entry));
                        events.push(
                            ChangeEvent {
                                key: key.clone(),
                                content: content.clone(),
                                kind: EventKind::Changed,
                            },
                        );
                        proof {
                            assert(events_view(events@) =~= events_view(evs).push(
                                (key@, content@, EventKind::Changed),
                            ));
                        }
                    }
                }
                None => {
                    let entry = RegistryEntry { content: content.clone(), live: self.tick };
                    let key2 = key.clone();
                    proof {
                        lemma_kv_push(es, key2, entry);
                    }
                    self.entries.push((key2, entry));
                    events.push(
                        ChangeEvent {
                            key: key.clone(),
                            content: content.clone(),
                            kind: EventKind::Added,
                        },
                    );
                    proof {
                        assert(events_view(events@) =~= events_view(evs).push(
                            (key@, content@, EventKind::Added),
                        ));
                    }
                }
            }
            j += 1;
        }
        proof {
            assert(rs.take(rs.len() as int) =~= rs);
        }
        events
    }

    /// Advances the cycle counter, wrapping modulo the period. When the new
    /// tick wraps to zero, every entry whose liveness counter differs from
    /// zero is removed, and the removed keys are returned; otherwise the
    /// entries are untouched and no key is returned. Each removed key is
    /// returned exactly once.
    pub fn advance_tick(&mut self) -> (evicted: Vec<String>)
        requires
            old(self).wf(),
        ensures
            final(self).wf(),
            final(self).cur_tick() == wrap_tick(old(self).cur_tick()),
            final(self)@ == advance_map(old(self)@, old(self).cur_tick()),
            wrap_tick(old(self).cur_tick()) != 0 ==> evicted@.len() == 0,
            evicted_sound(old(self)@, evicted@),
            wrap_tick(old(self).cur_tick()) == 0 ==> evicted_complete(old(self)@, evicted@),
            keys_distinct(evicted@),
    {
        let ghost m = self@;
        let new_tick: u8 = if self.tick == TICK_PERIOD - 1 {
            0
        } else {
            self.tick + 1
        };
        self.tick = new_tick;
        let mut evicted: Vec<String> = Vec::new();
        if new_tick == 0 {
            let ghost es = self.entries@;
            let mut kept: Vec<(String, RegistryEntry)> = Vec::new();
            let mut j: usize = 0;
            while j < self.entries.len()
                invariant
                    self.tick == 0,
                    self.entries@ == es,
                    keys_unique(es),
                    kv_map(es) == m,
                    j <= es.len(),
                    keys_unique(kept@),
                    forall|a: int|
                        0 <= a < kept@.len() ==> (#[trigger] kept@[a]).1.live == 0
                            && m.dom().contains(kept@[a].0@) && m[kept@[a].0@] == kept@[a].1@,
                    forall|a: int|
                        0 <= a < kept@.len() ==> exists|i: int|
                            0 <= i < j && es[i].0@ == (#[trigger] kept@[a]).0@,
                    forall|k: Seq<char>|
                        (exists|i: int| 0 <= i < j && (#[trigger] es[i].0@) == k)
                            && m.dom().contains(k) && m[k].1 == 0 ==> kv_map(kept@).dom().contains(
                            k,
                        ),
                    forall|a: int|
                        0 <= a < evicted@.len() ==> m.dom().contains(#[trigger] evicted@[a]@)
                            && m[evicted@[a]@].1 != 0,
                    forall|a: int|
                        0 <= a < evicted@.len() ==> exists|i: int|
                            0 <= i < j && es[i].0@ == (#[trigger] evicted@[a])@,
                    forall|k: Seq<char>|
                        (exists|i: int| 0 <= i < j && (#[trigger] es[i].0@) == k)
                            && m.dom().contains(k) && m[k].1 != 0 ==> exists|a: int|
                            0 <= a < evicted@.len() && evicted@[a]@ == k,
                    forall|a: int, b: int|
                        0 <= a < b < evicted@.len() ==> evicted@[a]@ != evicted@[b]@,
                decreases es.len() - j,
            {
                proof {
                    lemma_kv_at(es, j as int);
                }
                let ghost j1 = j as int;
                let ghost kept_old = kept@;
                let ghost evicted_old = evicted@;
                let key2 = self.entries[j].0.clone();
                if self.entries[j].1.live == 0 {
                    let entry = RegistryEntry {
                        content: self.entries[j].1.content.clone(),
                        live: 0,
                    };
                    proof {
                        if kv_map(kept_old).dom().contains(key2@) {
                            lemma_kv_dom_index(kept_old, key2@);
                            let a = choose|a: int|
                                0 <= a < kept_old.len() && kept_old[a].0@ == key2@;
                            let i = choose|i: int| 0 <= i < j1 && es[i].0@ == kept_old[a].0@;
                            assert(es[i].0@ == es[j1].0@);
                            assert(false);
                        }
                        lemma_kv_push(kept_old, key2, entry);
                    }
                    kept.push((key2, entry));
                    proof {
                        assert forall|a: int| 0 <= a < kept@.len() implies exists|i: int|
                            0 <= i < j1 + 1 && es[i].0@ == (#[trigger] kept@[a]).0@ by {
                            if a < kept_old.len() {
                                let i = choose|i: int| 0 <= i < j1 && es[i].0@ == kept_old[a].0@;
                                assert(0 <= i < j1 + 1 && es[i].0@ == kept@[a].0@);
                            } else {
                                assert(0 <= j1 < j1 + 1 && es[j1].0@ == kept@[a].0@);
                            }
                        }
                        assert forall|a: int| 0 <= a < evicted@.len() implies exists|i: int|
                            0 <= i < j1 + 1 && es[i].0@ == (#[trigger] evicted@[a])@ by {
                            let i = choose|i: int| 0 <= i < j1 && es[i].0@ == evicted@[a]@;
                            assert(0 <= i < j1 + 1 && es[i].0@ == evicted@[a]@);
                        }
                        assert forall|k: Seq<char>|
                            (exists|i: int| 0 <= i < j1 + 1 && (#[trigger] es[i].0@) == k)
                                && m.dom().contains(k) && m[k].1 == 0 implies kv_map(
                            kept@,
                        ).dom().contains(k) by {
                            let i = choose|i: int| 0 <= i < j1 + 1 && es[i].0@ == k;
                            if i < j1 {
                                assert(exists|i2: int| 0 <= i2 < j1 && (#[trigger] es[i2].0@) == k);
                                assert(kv_map(kept_old).dom().contains(k));
                            } else {
                                assert(k == key2@);
                            }
                        }
                        assert forall|k: Seq<char>|
                            (exists|i: int| 0 <= i < j1 + 1 && (#[trigger] es[i].0@) == k)
                                && m.dom().contains(k) && m[k].1 != 0 implies exists|a: int|
                            0 <= a < evicted@.len() && evicted@[a]@ == k by {
                            let i = choose|i: int| 0 <= i < j1 + 1 && es[i].0@ == k;
                            if i < j1 {
                                assert(exists|i2: int| 0 <= i2 < j1 && (#[trigger] es[i2].0@) == k);
                            } else {
                                assert(m[k].1 == 0);
                            }
                        }
                    }
                } else {
                    evicted.push(key2);
                    proof {
                        assert forall|a: int| 0 <= a < evicted@.len() implies exists|i: int|
                            0 <= i < j1 + 1 && es[i].0@ == (#[trigger] evicted@[a])@ by {
                            if a < evicted_old.len() {
                                let i = choose|i: int| 0 <= i < j1 && es[i].0@ == evicted_old[a]@;
                                assert(0 <= i < j1 + 1 && es[i].0@ == evicted@[a]@);
                            } else {
                                assert(0 <= j1 < j1 + 1 && es[j1].0@ == evicted@[a]@);
                            }
                        }
                        assert forall|a: int| 0 <= a < kept@.len() implies exists|i: int|
                            0 <= i < j1 + 1 && es[i].0@ == (#[trigger] kept@[a]).0@ by {
                            let i = choose|i: int| 0 <= i < j1 && es[i].0@ == kept@[a].0@;
                            assert(0 <= i < j1 + 1 && es[i].0@ == kept@[a].0@);
                        }
                        assert forall|k: Seq<char>|
                            (exists|i: int| 0 <= i < j1 + 1 && (#[trigger] es[i].0@) == k)
                                && m.dom().contains(k) && m[k].1 != 0 implies exists|a: int|
                            0 <= a < evicted@.len() && evicted@[a]@ == k by {
                            let i = choose|i: int| 0 <= i < j1 + 1 && es[i].0@ == k;
                            if i < j1 {
                                assert(exists|i2: int| 0 <= i2 < j1 && (#[trigger] es[i2].0@) == k);
                                let a = choose|a: int|
                                    0 <= a < evicted_old.len() && evicted_old[a]@ == k;
                                assert(evicted@[a]@ == k);
                            } else {
                                assert(evicted@[evicted@.len() - 1]@ == k);
                            }
                        }
                        assert forall|k: Seq<char>|
                            (exists|i: int| 0 <= i < j1 + 1 && (#[trigger] es[i].0@) == k)
                                && m.dom().contains(k) && m[k].1 == 0 implies kv_map(
                            kept@,
                        ).dom().contains(k) by {
                            let i = choose|i: int| 0 <= i < j1 + 1 && es[i].0@ == k;
                            if i < j1 {
                                assert(exists|i2: int| 0 <= i2 < j1 && (#[trigger] es[i2].0@) == k);
                            } else {
                                assert(m[k].1 != 0);
                            }
                        }
                        assert forall|a: int, b: int|
                            0 <= a < b < evicted@.len() implies evicted@[a]@ != evicted@[b]@ by {
                            if b < evicted_old.len() {
                                assert(evicted_old[a]@ != evicted_old[b]@);
                            } else {
                                let i = choose|i: int| 0 <= i < j1 && es[i].0@ == evicted_old[a]@;
                                assert(es[i].0@ != es[j1].0@);
                                assert(evicted@[b]@ == es[j1].0@);
                            }
                        }
                    }
                }
                j += 1;
            }
            proof {
                let km = kv_map(kept@);
                assert forall|k: Seq<char>| #[trigger]
                    km.dom().contains(k) implies evict_map(m).dom().contains(k) && km[k]
                    == evict_map(m)[k] by {
                    lemma_kv_dom_index(kept@, k);
                    let a = choose|a: int| 0 <= a < kept@.len() && kept@[a].0@ == k;
                    lemma_kv_at(kept@, a);
                }
                assert forall|k: Seq<char>| #[trigger]
                    evict_map(m).dom().contains(k) implies km.dom().contains(k) by {
                    lemma_kv_dom_index(es, k);
                    let i = choose|i: int| 0 <= i < es.len() && es[i].0@ == k;
                    assert(exists|i2: int| 0 <= i2 < es.len() && (#[trigger] es[i2].0@) == k);
                }
                assert(km =~= evict_map(m));
            }
            self.entries = kept;
            proof {
                assert forall|k: Seq<char>| #[trigger]
                    evicted_keys(m).contains(k) implies exists|a: int|
                    0 <= a < evicted@.len() && evicted@[a]@ == k by {
                    lemma_kv_dom_index(es, k);
                    let i = choose|i: int| 0 <= i < es.len() && es[i].0@ == k;
                    assert(exists|i2: int| 0 <= i2 < es.len() && (#[trigger] es[i2].0@) == k);
                }
            }
        }
        evicted
    }

    /// Runs one full poll cycle against an ingestion result. On `Some`, the
    /// records are applied by the update rule and the change events are
    /// returned; on `None` (a failed ingestion) the registry is left as it
    /// was and no events are returned. Either way the tick then advances,
    /// evicting on a wrap, and the removed keys are returned as well.
    pub fn poll_cycle(&mut self, ingestion: Option<&Vec<(String, String)>>) -> (r: (
        Vec<ChangeEvent>,
        Vec<String>,
    ))
        requires
            old(self).wf(),
        ensures
            final(self).wf(),
            final(self).cur_tick() == wrap_tick(old(self).cur_tick()),
            final(self)@ == cycle_map(old(self)@, ing_view(ingestion), old(self).cur_tick()),
            events_view(r.0@) == cycle_events(
                old(self)@,
                ing_view(ingestion),
                old(self).cur_tick(),
            ),
            wrap_tick(old(self).cur_tick()) != 0 ==> r.1@.len() == 0,
            evicted_sound(mid_map(old(self)@, ing_view(ingestion), old(self).cur_tick()), r.1@),
            wrap_tick(old(self).cur_tick()) == 0 ==> evicted_complete(
                mid_map(old(self)@, ing_view(ingestion), old(self).cur_tick()),
                r.1@,
            ),
            keys_distinct(r.1@),
    {
        let ghost m0 = self@;
        let ghost t = self.cur_tick();
        let events = match ingestion {
            Some(records) => self.update(records),
            None => Vec::new(),
        };
        proof {
            assert(events_view(Seq::<ChangeEvent>::empty()) =~= Seq::<Event>::empty());
        }
        let ghost m_mid = self@;
        let evicted = self.advance_tick();
        proof {
            assert(m_mid == mid_map(m0, ing_view(ingestion), t));
        }
        (events, evicted)
    }
}

/// Uniqueness law: a well-formed registry holds at most one entry per key —
/// any two distinct slots of the backing store carry different keys. Every
/// operation of the registry preserves well-formedness, so this holds after
/// any sequence of `seed`, `update`, `advance_tick` and `poll_cycle` calls.
/// Liveness-range law: in a well-formed registry every stored liveness
/// counter lies below the tick period, as does the tick itself.
pub proof fn lemma_liveness_in_range(r: &Registry)
    requires
        r.wf(),
    ensures
        r.cur_tick() < TICK_PERIOD,
        forall|i: int| 0 <= i < r.store().len() ==> (#[trigger] r.store()[i]).1.1 < TICK_PERIOD,
{
    assert forall|i: int|
        0 <= i < r.store().len() implies (#[trigger] r.store()[i]).1.1 < TICK_PERIOD by {
        assert(r.store()[i].1 == r.entries@[i].1@);
    }
}

pub proof fn lemma_store_key_uniqueness(r: &Registry)
    requires
        r.wf(),
    ensures
        forall|i: int, j: int| 0 <= i < j < r.store().len() ==> r.store()[i].0 != r.store()[j].0,
{
    assert forall|i: int, j: int|
        0 <= i < j < r.store().len() implies r.store()[i].0 != r.store()[j].0 by {
        assert(r.store()[i].0 == r.entries@[i].0@);
        assert(r.store()[j].0 == r.entries@[j].0@);
    }
}

} // verus!
