//! Power save blocking: numbered requests that keep the system, or the
//! display, awake while any of them is active.

use vstd::prelude::*;

verus! {

/// What a request keeps awake.
#[derive(Debug, Clone, Copy, PartialEq, Eq, Structural, Hash)]
pub enum PowerSaveBlockerType {
    /// The system: no sleep.
    PreventSleep,
    /// The display: no screen off.
    PreventDisplaySleep,
}

/// The map that a list of (id, type) pairs describes.
pub open spec fn id_map(v: Seq<(u64, PowerSaveBlockerType)>) -> Map<u64, PowerSaveBlockerType>
    decreases v.len(),
{
    if v.len() == 0 {
        Map::empty()
    } else {
        id_map(v.drop_last()).insert(v.last().0, v.last().1)
    }
}

/// No id occurs twice in the list.
pub open spec fn distinct_ids(v: Seq<(u64, PowerSaveBlockerType)>) -> bool {
    forall|i: int, j: int| 0 <= i < j < v.len() ==> (#[trigger] v[i]).0 != (#[trigger] v[j]).0
}

proof fn lemma_id_map_dom(v: Seq<(u64, PowerSaveBlockerType)>, k: u64)
    ensures
        id_map(v).contains_key(k) <==> exists|i: int| 0 <= i < v.len() && (#[trigger] v[i]).0 == k,
    decreases v.len(),
{
    if v.len() > 0 {
        lemma_id_map_dom(v.drop_last(), k);
        if id_map(v.drop_last()).contains_key(k) {
            let i = choose|i: int| 0 <= i < v.drop_last().len() && (#[trigger] v.drop_last()[i]).0 == k;
            assert(v[i] == v.drop_last()[i]);
        }
        if exists|i: int| 0 <= i < v.len() && (#[trigger] v[i]).0 == k {
            let i = choose|i: int| 0 <= i < v.len() && (#[trigger] v[i]).0 == k;
            if i < v.len() - 1 {
                assert(v.drop_last()[i] == v[i]);
            }
        }
    }
}

proof fn lemma_id_map_value(v: Seq<(u64, PowerSaveBlockerType)>, i: int)
    requires
        distinct_ids(v),
        0 <= i < v.len(),
    ensures
        id_map(v).contains_key(v[i].0),
        id_map(v)[v[i].0] == v[i].1,
    decreases v.len(),
{
    if i < v.len() - 1 {
        assert(distinct_ids(v.drop_last())) by {
            assert forall|a: int, b: int| 0 <= a < b < v.drop_last().len() implies (#[trigger] v.drop_last()[a]).0
                != (#[trigger] v.drop_last()[b]).0 by {
                assert(v.drop_last()[a] == v[a] && v.drop_last()[b] == v[b]);
            }
        }
        lemma_id_map_value(v.drop_last(), i);
        assert(v.drop_last()[i] == v[i]);
        assert(v[i].0 != v[v.len() - 1].0);
    }
}

proof fn lemma_id_map_update(v: Seq<(u64, PowerSaveBlockerType)>, i: int, t: PowerSaveBlockerType)
    requires
        distinct_ids(v),
        0 <= i < v.len(),
    ensures
        id_map(v.update(i, (v[i].0, t))) == id_map(v).insert(v[i].0, t),
    decreases v.len(),
{
    let u = v.update(i, (v[i].0, t));
    let d = v.drop_last();
    if i == v.len() - 1 {
        assert(u.drop_last() =~= d);
        assert(id_map(u) =~= id_map(v).insert(v[i].0, t));
    } else {
        assert(distinct_ids(d)) by {
            assert forall|a: int, b: int| 0 <= a < b < d.len() implies (#[trigger] d[a]).0 != (#[trigger] d[b]).0 by {
                assert(d[a] == v[a] && d[b] == v[b]);
            }
        }
        lemma_id_map_update(d, i, t);
        assert(u.drop_last() =~= d.update(i, (d[i].0, t)));
        assert(v[i] == d[i]);
        assert(v.last().0 != v[i].0);
        assert(id_map(u) =~= id_map(v).insert(v[i].0, t));
    }
}

proof fn lemma_id_map_len(v: Seq<(u64, PowerSaveBlockerType)>)
    requires
        distinct_ids(v),
    ensures
        id_map(v).dom().finite(),
        id_map(v).len() == v.len(),
    decreases v.len(),
{
    if v.len() > 0 {
        let d = v.drop_last();
        assert(distinct_ids(d)) by {
            assert forall|a: int, b: int| 0 <= a < b < d.len() implies (#[trigger] d[a]).0 != (#[trigger] d[b]).0 by {
                assert(d[a] == v[a] && d[b] == v[b]);
            }
        }
        lemma_id_map_len(d);
        lemma_id_map_dom(d, v.last().0);
        if id_map(d).contains_key(v.last().0) {
            let i = choose|i: int| 0 <= i < d.len() && (#[trigger] d[i]).0 == v.last().0;
            assert(d[i] == v[i]);
            assert(false);
        }
    }
}

proof fn lemma_id_map_remove(v: Seq<(u64, PowerSaveBlockerType)>, i: int)
    requires
        distinct_ids(v),
        0 <= i < v.len(),
    ensures
        id_map(v.remove(i)) == id_map(v).remove(v[i].0),
        distinct_ids(v.remove(i)),
    decreases v.len(),
{
    let r = v.remove(i);
    assert(distinct_ids(r)) by {
        assert forall|a: int, b: int| 0 <= a < b < r.len() implies (#[trigger] r[a]).0 != (#[trigger] r[b]).0 by {
            let a2 = if a < i { a } else { a + 1 };
            let b2 = if b < i { b } else { b + 1 };
            assert(r[a] == v[a2] && r[b] == v[b2]);
        }
    }
    let d = v.drop_last();
    assert(distinct_ids(d)) by {
        assert forall|a: int, b: int| 0 <= a < b < d.len() implies (#[trigger] d[a]).0 != (#[trigger] d[b]).0 by {
            assert(d[a] == v[a] && d[b] == v[b]);
        }
    }
    if i == v.len() - 1 {
        assert(r =~= d);
        lemma_id_map_dom(d, v[i].0);
        if id_map(d).contains_key(v[i].0) {
            let j = choose|j: int| 0 <= j < d.len() && (#[trigger] d[j]).0 == v[i].0;
            assert(d[j] == v[j]);
            assert(false);
        }
        assert(id_map(r) =~= id_map(v).remove(v[i].0));
    } else {
        lemma_id_map_remove(d, i);
        assert(r.drop_last() =~= d.remove(i));
        assert(r.last() == v.last());
        assert(v[i] == d[i]);
        assert(v.last().0 != v[i].0);
        assert(id_map(r) =~= id_map(v).remove(v[i].0));
    }
}

/// Keeps the system or display awake while requests are active.
#[derive(Debug)]
pub struct PowerSaveBlocker {
    next_id: u64,
    active: Vec<(u64, PowerSaveBlockerType)>,
    prevent_sleep: bool,
    prevent_display_sleep: bool,
}

/// Some active request is of type `t`.
pub open spec fn any_of(m: Map<u64, PowerSaveBlockerType>, t: PowerSaveBlockerType) -> bool {
    exists|k: u64| m.contains_key(k) && m[k] == t
}

/// The id after `id`: one more, wrapping from the largest to 0.
pub open spec fn following_id(id: u64) -> u64 {
    if id == u64::MAX {
        0
    } else {
        (id + 1) as u64
    }
}

/// `after` is `before` with a request of type `t` started under `id`: the
/// next id, after which the counter moves on (wrapping at the top).
pub open spec fn start_spec(before: PowerSaveBlocker, after: PowerSaveBlocker, t: PowerSaveBlockerType, id: u64) -> bool {
    &&& id == before.next_id_spec()
    &&& after.blockers() == before.blockers().insert(id, t)
    &&& after.next_id_spec() == following_id(id)
    &&& after.state_agrees()
}

/// `after` is `before` with request `id` stopped.
pub open spec fn stop_spec(before: PowerSaveBlocker, after: PowerSaveBlocker, id: u64) -> bool {
    &&& after.blockers() == before.blockers().remove(id)
    &&& after.next_id_spec() == before.next_id_spec()
}

proof fn lemma_id_map_finite(v: Seq<(u64, PowerSaveBlockerType)>)
    ensures
        id_map(v).dom().finite(),
    decreases v.len(),
{
    if v.len() > 0 {
        lemma_id_map_finite(v.drop_last());
    }
}

impl PowerSaveBlocker {
    #[verifier::type_invariant]
    spec fn well_formed(&self) -> bool {
        distinct_ids(self.active@)
    }

    /// Every active id lies below the counter, so the next id is fresh.
    /// This holds from `new` on until the counter wraps (after 2^64 - 1
    /// requests).
    pub open spec fn ids_below_next(&self) -> bool {
        forall|k: u64| #[trigger] self.blockers().contains_key(k) ==> k < self.next_id_spec()
    }

    /// The active requests, by id.
    pub closed spec fn blockers(&self) -> Map<u64, PowerSaveBlockerType> {
        id_map(self.active@)
    }

    /// The id that the next request gets.
    pub closed spec fn next_id_spec(&self) -> u64 {
        self.next_id
    }

    /// Whether the system is kept from sleeping.
    pub closed spec fn prevents_sleep(&self) -> bool {
        self.prevent_sleep
    }

    /// Whether the display is kept on.
    pub closed spec fn prevents_display_sleep(&self) -> bool {
        self.prevent_display_sleep
    }

    /// The flags agree with the active requests.
    pub open spec fn state_agrees(&self) -> bool {
        &&& self.prevents_sleep() == any_of(self.blockers(), PowerSaveBlockerType::PreventSleep)
        &&& self.prevents_display_sleep() == any_of(
            self.blockers(),
            PowerSaveBlockerType::PreventDisplaySleep,
        )
    }

    /// No active request; the first id is 1.
    pub fn new() -> (r: PowerSaveBlocker)
        ensures
            r.blockers() == Map::<u64, PowerSaveBlockerType>::empty(),
            r.next_id_spec() == 1,
            r.ids_below_next(),
            !r.prevents_sleep(),
            !r.prevents_display_sleep(),
    {
        let r = PowerSaveBlocker {
            next_id: 1,
            active: Vec::new(),
            prevent_sleep: false,
            prevent_display_sleep: false,
        };
        assert(r.blockers() =~= Map::<u64, PowerSaveBlockerType>::empty());
        r
    }

    fn has_type(&self, t: PowerSaveBlockerType) -> (r: bool)
        ensures
            r == any_of(self.blockers(), t),
    {
        proof {
            use_type_invariant(self);
        }
        let mut i: usize = 0;
        while i < self.active.len()
            invariant
                0 <= i <= self.active@.len(),
                distinct_ids(self.active@),
                forall|j: int| 0 <= j < i ==> (#[trigger] self.active@[j]).1 != t,
            decreases self.active@.len() - i,
        {
            if self.active[i].1 == t {
                proof {
                    lemma_id_map_value(self.active@, i as int);
                }
                return true;
            }
            i = i + 1;
        }
        proof {
            if any_of(self.blockers(), t) {
                let k = choose|k: u64| self.blockers().contains_key(k) && self.blockers()[k] == t;
                lemma_id_map_dom(self.active@, k);
                let j = choose|j: int| 0 <= j < self.active@.len() && (#[trigger] self.active@[j]).0 == k;
                lemma_id_map_value(self.active@, j);
            }
        }
        false
    }

    /// Recomputes the flags from the active requests.
    fn update_state(&mut self)
        ensures
            final(self).blockers() == old(self).blockers(),
            final(self).next_id_spec() == old(self).next_id_spec(),
            final(self).state_agrees(),
    {
        proof {
            use_type_invariant(&*self);
        }
        let sleep = self.has_type(PowerSaveBlockerType::PreventSleep);
        let display = self.has_type(PowerSaveBlockerType::PreventDisplaySleep);
        self.prevent_sleep = sleep;
        self.prevent_display_sleep = display;
    }

    /// Starts a request of type `blocker_type` under the next id and moves
    /// the counter on (wrapping, as an atomic counter does). The id is
    /// fresh wherever `ids_below_next` holds; after the counter wrapped, a
    /// request still active under the same id is replaced.
    pub fn start(&mut self, blocker_type: PowerSaveBlockerType) -> (id: u64)
        ensures
            start_spec(*old(self), *final(self), blocker_type, id),
            old(self).ids_below_next() && id < u64::MAX ==> final(self).ids_below_next(),
    {
        proof {
            use_type_invariant(&*self);
        }
        let id = self.next_id;
        let ghost before = self.active@;
        let mut v: Vec<(u64, PowerSaveBlockerType)> = Vec::new();
        std::mem::swap(&mut v, &mut self.active);
        let mut i: usize = 0;
        let mut found = false;
        while i < v.len() && !found
            invariant
                0 <= i <= v@.len(),
                v@ == before,
                distinct_ids(before),
                found ==> i < v@.len() && before[i as int].0 == id,
                !found ==> forall|j: int| 0 <= j < i ==> (#[trigger] before[j]).0 != id,
            decreases v@.len() - i + (if found { 0int } else { 1int }),
        {
            if v[i].0 == id {
                found = true;
            } else {
                i = i + 1;
            }
        }
        if found {
            proof {
                lemma_id_map_value(before, i as int);
            }
            v.set(i, (id, blocker_type));
            proof {
                assert(v@ =~= before.update(i as int, (id, blocker_type)));
                assert(distinct_ids(v@)) by {
                    assert forall|a: int, b: int| 0 <= a < b < v@.len() implies (#[trigger] v@[a]).0
                        != (#[trigger] v@[b]).0 by {
                        assert(before[a].0 != before[b].0);
                    }
                }
                lemma_id_map_update(before, i as int, blocker_type);
            }
        } else {
            proof {
                lemma_id_map_dom(before, id);
            }
            v.push((id, blocker_type));
            proof {
                assert(v@.drop_last() =~= before);
                assert forall|a: int, b: int| 0 <= a < b < v@.len() implies (#[trigger] v@[a]).0
                    != (#[trigger] v@[b]).0 by {
                    if b == v@.len() - 1 {
                        assert(before[a].0 != id);
                    } else {
                        assert(before[a] == v@[a] && before[b] == v@[b]);
                    }
                }
            }
        }
        self.next_id = id.wrapping_add(1);
        proof {
            assert(self.next_id == following_id(id)) by {
                if id == u64::MAX {
                    assert((id as int + 1) % 0x1_0000_0000_0000_0000 == 0);
                }
            }
        }
        self.active = v;
        self.update_state();
        id
    }

    /// Stops request `id`; an id that is not active changes nothing.
    pub fn stop(&mut self, id: u64)
        ensures
            stop_spec(*old(self), *final(self), id),
            old(self).blockers().contains_key(id) ==> final(self).state_agrees(),
            !old(self).blockers().contains_key(id) ==> final(self).prevents_sleep()
                == old(self).prevents_sleep() && final(self).prevents_display_sleep()
                == old(self).prevents_display_sleep(),
    {
        proof {
            use_type_invariant(&*self);
        }
        let mut i: usize = 0;
        while i < self.active.len()
            invariant
                0 <= i <= self.active@.len(),
                *self == *old(self),
                distinct_ids(self.active@),
                forall|j: int| 0 <= j < i ==> (#[trigger] self.active@[j]).0 != id,
            decreases self.active@.len() - i,
        {
            if self.active[i].0 == id {
                proof {
                    lemma_id_map_remove(self.active@, i as int);
                    lemma_id_map_value(self.active@, i as int);
                }
                let ghost before = self.active@;
                let mut v: Vec<(u64, PowerSaveBlockerType)> = Vec::new();
                std::mem::swap(&mut v, &mut self.active);
                v.remove(i);
                assert(v@ =~= before.remove(i as int));
                self.active = v;
                self.update_state();
                return;
            }
            i = i + 1;
        }
        proof {
            lemma_id_map_dom(self.active@, id);
            assert(self.blockers().remove(id) =~= self.blockers());
        }
    }

    /// Whether request `id` is no longer (or never was) active.
    pub fn is_stopped(&self, id: u64) -> (r: bool)
        ensures
            r == !self.blockers().contains_key(id),
    {
        proof {
            use_type_invariant(self);
            lemma_id_map_dom(self.active@, id);
        }
        let mut i: usize = 0;
        while i < self.active.len()
            invariant
                0 <= i <= self.active@.len(),
                forall|j: int| 0 <= j < i ==> (#[trigger] self.active@[j]).0 != id,
            decreases self.active@.len() - i,
        {
            if self.active[i].0 == id {
                proof {
                    lemma_id_map_dom(self.active@, id);
                }
                return false;
            }
            i = i + 1;
        }
        true
    }

    /// The id the next request will get.
    pub fn next_id(&self) -> (r: u64)
        ensures
            r == self.next_id_spec(),
    {
        self.next_id
    }

    /// The number of active requests.
    pub fn active_count(&self) -> (r: usize)
        ensures
            r == self.blockers().len(),
    {
        proof {
            use_type_invariant(self);
            lemma_id_map_len(self.active@);
        }
        self.active.len()
    }

    /// The active requests, each once.
    pub fn get_active_blockers(&self) -> (r: Vec<(u64, PowerSaveBlockerType)>)
        ensures
            distinct_ids(r@),
            id_map(r@) == self.blockers(),
    {
        proof {
            use_type_invariant(self);
        }
        let mut out: Vec<(u64, PowerSaveBlockerType)> = Vec::new();
        let mut i: usize = 0;
        while i < self.active.len()
            invariant
                0 <= i <= self.active@.len(),
                out@ == self.active@.take(i as int),
            decreases self.active@.len() - i,
        {
            out.push(self.active[i]);
            assert(self.active@.take(i as int + 1) =~= self.active@.take(i as int).push(self.active@[i as int]));
            i = i + 1;
        }
        assert(self.active@.take(self.active@.len() as int) =~= self.active@);
        out
    }
}

/// Starts a request on `blocker` (the process-wide blocker of the
/// application).
pub fn start_blocking(blocker: &mut PowerSaveBlocker, blocker_type: PowerSaveBlockerType) -> (id: u64)
    ensures
        start_spec(*old(blocker), *final(blocker), blocker_type, id),
        old(blocker).ids_below_next() && id < u64::MAX ==> final(blocker).ids_below_next(),
{
    blocker.start(blocker_type)
}

/// Stops request `id` on `blocker`.
pub fn stop_blocking(blocker: &mut PowerSaveBlocker, id: u64)
    ensures
        stop_spec(*old(blocker), *final(blocker), id),
{
    blocker.stop(id)
}

/// Whether request `id` on `blocker` is no longer active.
pub fn is_stopped(blocker: &PowerSaveBlocker, id: u64) -> (r: bool)
    ensures
        r == !blocker.blockers().contains_key(id),
{
    blocker.is_stopped(id)
}

/// The number of active requests on `blocker`.
pub fn get_active_count(blocker: &PowerSaveBlocker) -> (r: usize)
    ensures
        r == blocker.blockers().len(),
{
    blocker.active_count()
}

// ==================== Laws ====================

/// A started request is active, with its type; while the active ids lie
/// below the counter, its id was not active before, and one more request is
/// active than before.
pub proof fn law_start_activates(b0: PowerSaveBlocker, b1: PowerSaveBlocker, t: PowerSaveBlockerType, id: u64)
    requires
        start_spec(b0, b1, t, id),
        b0.ids_below_next(),
    ensures
        !b0.blockers().contains_key(id),
        b1.blockers().contains_key(id),
        b1.blockers()[id] == t,
        b1.blockers().len() == b0.blockers().len() + 1,
{
    lemma_id_map_finite(b0.active@);
}

/// A stopped request is no longer active.
pub proof fn law_stop_deactivates(b0: PowerSaveBlocker, b1: PowerSaveBlocker, id: u64)
    requires
        stop_spec(b0, b1, id),
    ensures
        !b1.blockers().contains_key(id),
{
}

/// Stopping a request just started (under a fresh id) gives back the
/// requests active before.
pub proof fn law_stop_undoes_start(
    b0: PowerSaveBlocker,
    b1: PowerSaveBlocker,
    b2: PowerSaveBlocker,
    t: PowerSaveBlockerType,
    id: u64,
)
    requires
        start_spec(b0, b1, t, id),
        b0.ids_below_next(),
        stop_spec(b1, b2, id),
    ensures
        b2.blockers() == b0.blockers(),
{
    assert(b0.blockers().insert(id, t).remove(id) =~= b0.blockers());
}

/// Two requests started one after the other get different ids (the
/// counter wraps from the largest id to 0).
pub proof fn law_ids_distinct(
    b0: PowerSaveBlocker,
    b1: PowerSaveBlocker,
    b2: PowerSaveBlocker,
    t1: PowerSaveBlockerType,
    t2: PowerSaveBlockerType,
    id1: u64,
    id2: u64,
)
    requires
        start_spec(b0, b1, t1, id1),
        start_spec(b1, b2, t2, id2),
    ensures
        id1 != id2,
{
}

} // verus!
