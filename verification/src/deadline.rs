//! Reply deadlines: which messages still wait for their reply, and which
//! have waited too long.
//!
//! A message that is sent with a deadline is watched under its correlation
//! id. The reply cancels the watch; a tick of the clock hands out the ids
//! whose time has come. Watches stand on a wheel of slots, one slot per
//! millisecond modulo the size of the wheel, so that a watch is set and
//! cancelled in constant time and a tick looks only at the slots of the
//! milliseconds that have passed.

use vstd::prelude::*;
use vstd::arithmetic::div_mod::{
    lemma_fundamental_div_mod, lemma_mod_bound, lemma_mod_multiples_vanish,
};
use std::collections::HashMap;

verus! {

/// A watch as it stands on the wheel.
#[derive(Clone, Copy, Debug, PartialEq, Eq, Structural)]
pub struct Entry {
    pub id: u64,
    pub due: u64,
}

/// The latest time that a tick takes: the clock stops one short of the
/// largest number.
pub open spec fn spec_clock(now: u64) -> u64 {
    if now == u64::MAX {
        (u64::MAX - 1) as u64
    } else {
        now
    }
}

/// When a message sent at `now` must have its reply.
pub open spec fn spec_deadline(now: u64, timeout_ms: u64) -> u64 {
    if now + timeout_ms > u64::MAX {
        u64::MAX
    } else {
        (now + timeout_ms) as u64
    }
}

/// When a watch comes due: at its deadline, or with the next tick where the
/// deadline has passed already.
pub open spec fn spec_due(deadline: u64, cursor: u64) -> u64 {
    if deadline > cursor {
        deadline
    } else {
        (cursor + 1) as u64
    }
}

/// The watches that are left after a tick at `now`: those that come due
/// later.
pub open spec fn spec_left(pending: Map<u64, u64>, now: u64) -> Map<u64, u64> {
    pending.restrict(Set::new(|id: u64| pending.contains_key(id) && pending[id] > now))
}

/// Whether `ids` are the watches that a tick at `now` hands out: every
/// watch that has come due, once.
pub open spec fn is_expired(ids: Seq<u64>, pending: Map<u64, u64>, now: u64) -> bool {
    &&& ids.no_duplicates()
    &&& forall|id: u64| ids.contains(id) <==> pending.contains_key(id) && pending[id] <= now
}

/// The slot that step `k` of a tick from `cursor` looks at.
pub open spec fn slot_at(cursor: u64, k: int, w: int) -> int {
    (cursor + 1 + k) % w
}

/// Whether the first `k` steps of a tick from `cursor` have looked at the
/// slot of `due`.
pub open spec fn swept(cursor: u64, k: int, w: int, due: u64) -> bool {
    exists|j: int| 0 <= j < k && #[trigger] slot_at(cursor, j, w) == due as int % w
}

/// A tick looks at the slot of every time that has passed: at each of them
/// where fewer have passed than the wheel has slots, and at every slot
/// otherwise.
pub proof fn lemma_tick_covers(cursor: u64, now: u64, w: int, due: u64)
    requires
        w > 0,
        cursor < due <= now,
    ensures
        swept(cursor, if now - cursor >= w { w } else { now - cursor }, w, due),
{
    let k0 = due - cursor - 1;
    if now - cursor >= w {
        let j = k0 % w;
        lemma_mod_bound(k0, w);
        lemma_fundamental_div_mod(k0, w);
        lemma_mod_multiples_vanish(k0 / w, cursor + 1 + j, w);
        assert(cursor + 1 + k0 == w * (k0 / w) + (cursor + 1 + j));
        assert(slot_at(cursor, j, w) == due as int % w);
    } else {
        assert(slot_at(cursor, k0, w) == due as int % w);
    }
}

/// The deadlines of one stream.
pub struct Deadlines {
    slots: Vec<Vec<Entry>>,
    pending: HashMap<u64, u64>,
    cursor: u64,
    timeout_ms: u64,
}

impl Deadlines {
    /// The watches: correlation id to the time it comes due.
    pub closed spec fn pending(&self) -> Map<u64, u64> {
        self.pending@
    }

    /// The time of the last tick.
    pub closed spec fn cursor(&self) -> u64 {
        self.cursor
    }

    /// How long a reply may take, in milliseconds.
    pub closed spec fn timeout_ms(&self) -> u64 {
        self.timeout_ms
    }

    /// Number of slots of the wheel.
    pub closed spec fn wheel_size(&self) -> nat {
        self.slots@.len()
    }

    /// Whether the watch of `id` at `due` stands in its slot.
    pub closed spec fn holds(&self, id: u64, due: u64) -> bool {
        exists|j: int|
            0 <= j < self.slots@[due as int % (self.slots@.len() as int)]@.len()
                && #[trigger] self.slots@[due as int % (self.slots@.len() as int)]@[j] == (Entry {
                id,
                due,
            })
    }

    /// Every watch comes due after the last tick, and stands in the slot of
    /// the time it comes due.
    pub closed spec fn wf(&self) -> bool {
        &&& self.slots@.len() > 0
        &&& self.cursor < u64::MAX
        &&& forall|id: u64| #[trigger]
            self.pending@.contains_key(id) ==> self.pending@[id] > self.cursor && self.holds(
                id,
                self.pending@[id],
            )
    }

    /// A wheel of `wheel_size` slots without watches, its clock at `now`.
    /// There is no wheel without slots.
    pub fn new(wheel_size: usize, timeout_ms: u64, now: u64) -> (d: Option<Deadlines>)
        ensures
            wheel_size == 0 ==> d is None,
            wheel_size > 0 ==> d is Some && d->Some_0.wf() && d->Some_0.pending() == Map::<
                u64,
                u64,
            >::empty() && d->Some_0.cursor() == spec_clock(now) && d->Some_0.timeout_ms()
                == timeout_ms && d->Some_0.wheel_size() == wheel_size,
    {
        if wheel_size == 0 {
            return None;
        }
        let mut slots: Vec<Vec<Entry>> = Vec::new();
        let mut i: usize = 0;
        while i < wheel_size
            invariant
                i <= wheel_size,
                slots@.len() == i,
            decreases wheel_size - i,
        {
            slots.push(Vec::new());
            i = i + 1;
        }
        let cursor: u64 = if now == u64::MAX {
            u64::MAX - 1
        } else {
            now
        };
        Some(Deadlines { slots, pending: HashMap::new(), cursor, timeout_ms })
    }

    /// The time that the watch of `id` comes due, if it is watched.
    pub fn due(&self, id: u64) -> (r: Option<u64>)
        ensures
            r == (if self.pending().contains_key(id) {
                Some(self.pending()[id])
            } else {
                None
            }),
    {
        broadcast use vstd::std_specs::hash::group_hash_axioms;

        match self.pending.get(&id) {
            Some(v) => Some(*v),
            None => None,
        }
    }

    /// Watches the message with the correlation id `id`, sent at `now`: its
    /// reply is due one timeout later. A message that is watched already is
    /// watched anew. Returns the time that the watch comes due.
    pub fn watch(&mut self, id: u64, now: u64) -> (due: u64)
        requires
            old(self).wf(),
        ensures
            final(self).wf(),
            final(self).cursor() == old(self).cursor(),
            final(self).timeout_ms() == old(self).timeout_ms(),
            final(self).wheel_size() == old(self).wheel_size(),
            due == spec_due(spec_deadline(now, old(self).timeout_ms()), old(self).cursor()),
            final(self).pending() == old(self).pending().insert(id, due),
    {
        broadcast use vstd::std_specs::hash::group_hash_axioms;

        let deadline: u64 = match now.checked_add(self.timeout_ms) {
            Some(t) => t,
            None => u64::MAX,
        };
        let due: u64 = if deadline > self.cursor {
            deadline
        } else {
            self.cursor + 1
        };
        let w: usize = self.slots.len();
        let i: usize = (due % (w as u64)) as usize;
        let ghost before = self.slots@;
        let slot = &mut self.slots[i];
        slot.push(Entry { id, due });
        self.pending.insert(id, due);
        proof {
            let n = self.slots@[i as int]@.len();
            assert(i as int == due as int % (w as int));
            assert(self.slots@.len() == w);
            assert(self.slots@[due as int % (self.slots@.len() as int)]@[n - 1] == (Entry {
                id,
                due,
            }));
            assert(self.holds(id, due));
            assert forall|other: u64| #[trigger]
                self.pending@.contains_key(other) implies self.pending@[other] > self.cursor
                && self.holds(other, self.pending@[other]) by {
                if other != id {
                    let d = old(self).pending@[other];
                    assert(old(self).pending@.contains_key(other));
                    assert(old(self).holds(other, d));
                    let s = d as int % (w as int);
                    let j = choose|j: int|
                        0 <= j < before[s]@.len() && #[trigger] before[s]@[j] == (Entry {
                            id: other,
                            due: d,
                        });
                    if s == i {
                        assert(self.slots@[s]@[j] == before[s]@[j]);
                    } else {
                        assert(self.slots@[s] == before[s]);
                        assert(self.slots@[s]@[j] == before[s]@[j]);
                    }
                    assert(self.slots@[d as int % (self.slots@.len() as int)]@[j] == (Entry {
                        id: other,
                        due: d,
                    }));
                }
            }
        }
        due
    }

    /// Stops watching `id`: its reply has come. Tells whether it was
    /// watched.
    pub fn cancel(&mut self, id: u64) -> (was: bool)
        requires
            old(self).wf(),
        ensures
            final(self).wf(),
            final(self).cursor() == old(self).cursor(),
            final(self).timeout_ms() == old(self).timeout_ms(),
            final(self).wheel_size() == old(self).wheel_size(),
            was == old(self).pending().contains_key(id),
            final(self).pending() == old(self).pending().remove(id),
    {
        broadcast use vstd::std_specs::hash::group_hash_axioms;

        let was = self.pending.remove(&id).is_some();
        proof {
            assert forall|other: u64| #[trigger]
                self.pending@.contains_key(other) implies self.pending@[other] > self.cursor
                && self.holds(other, self.pending@[other]) by {
                let d = old(self).pending@[other];
                assert(old(self).pending@.contains_key(other));
                assert(old(self).holds(other, d));
                assert(self.slots@ == old(self).slots@);
                let s = d as int % (self.slots@.len() as int);
                let j = choose|j: int|
                    0 <= j < old(self).slots@[s]@.len() && #[trigger] old(self).slots@[s]@[j] == (
                    Entry { id: other, due: d });
                assert(self.slots@[s]@[j] == (Entry { id: other, due: d }));
            }
        }
        was
    }

    /// Looks at one slot: hands out the watches in it that have come due,
    /// keeps those that come due later, and throws away what is left of
    /// watches that were cancelled or set anew.
    fn sweep(&mut self, i: usize, now: u64, out: &mut Vec<u64>)
        requires
            old(self).wf(),
            i < old(self).slots@.len(),
            old(self).cursor < now,
            old(out)@.no_duplicates(),
            forall|id: u64| old(out)@.contains(id) ==> !old(self).pending@.contains_key(id),
        ensures
            final(self).wf(),
            final(self).cursor == old(self).cursor,
            final(self).timeout_ms == old(self).timeout_ms,
            final(self).slots@.len() == old(self).slots@.len(),
            final(out)@.no_duplicates(),
            forall|id: u64| final(out)@.contains(id) ==> !final(self).pending@.contains_key(id),
            forall|id: u64| old(out)@.contains(id) ==> final(out)@.contains(id),
            forall|id: u64|
                final(out)@.contains(id) && !old(out)@.contains(id) ==> old(self).pending@.contains_key(id) && old(self).pending@[id] <= now,
            forall|id: u64| #[trigger]
                final(self).pending@.contains_key(id) ==> old(self).pending@.contains_key(id)
                    && final(self).pending@[id] == old(self).pending@[id],
            forall|id: u64| #[trigger]
                old(self).pending@.contains_key(id) ==> final(self).pending@.contains_key(id)
                    || final(out)@.contains(id),
            forall|id: u64| #[trigger]
                final(self).pending@.contains_key(id) ==> !(final(self).pending@[id] <= now
                    && final(self).pending@[id] as int % (final(self).slots@.len() as int) == i),
    {
        broadcast use vstd::std_specs::hash::group_hash_axioms;

        let w: usize = self.slots.len();
        let n: usize = self.slots[i].len();
        let ghost slot0 = self.slots@[i as int]@;
        let ghost slots0 = self.slots@;
        let ghost pending0 = self.pending@;
        let ghost out0 = out@;
        let mut kept: Vec<Entry> = Vec::new();
        let mut j: usize = 0;
        while j < n
            invariant
                j <= n,
                n == slot0.len(),
                w == slots0.len(),
                i < w,
                self.slots@ == slots0,
                slots0[i as int]@ == slot0,
                self.cursor == old(self).cursor,
                self.cursor < now,
                self.timeout_ms == old(self).timeout_ms,
                pending0 == old(self).pending@,
                out0 == old(out)@,
                old(self).wf(),
                out@.no_duplicates(),
                forall|id: u64| out@.contains(id) ==> !self.pending@.contains_key(id),
                forall|id: u64| out0.contains(id) ==> out@.contains(id),
                forall|id: u64|
                    out@.contains(id) && !out0.contains(id) ==> pending0.contains_key(id)
                        && pending0[id] <= now,
                forall|id: u64| #[trigger]
                    self.pending@.contains_key(id) ==> pending0.contains_key(id)
                        && self.pending@[id] == pending0[id],
                forall|id: u64| #[trigger]
                    pending0.contains_key(id) ==> self.pending@.contains_key(id) || out@.contains(
                        id,
                    ),
                forall|a: int|
                    0 <= a < j && self.pending@.contains_key((#[trigger] slot0[a]).id)
                        && self.pending@[slot0[a].id] == slot0[a].due ==> slot0[a].due > now
                        && kept@.contains(slot0[a]),
            decreases n - j,
        {
            let e = self.slots[i][j];
            let ghost kept0 = kept@;
            let ghost pending1 = self.pending@;
            let live = match self.pending.get(&e.id) {
                Some(d) => *d == e.due,
                None => false,
            };
            if live {
                if e.due <= now {
                    self.pending.remove(&e.id);
                    let ghost out1 = out@;
                    out.push(e.id);
                    proof {
                        assert(out@.no_duplicates()) by {
                            assert forall|a: int, b: int|
                                0 <= a < out@.len() && 0 <= b < out@.len() && a
                                    != b implies out@[a] != out@[b] by {
                                if a < out1.len() && b < out1.len() {
                                    assert(out1[a] != out1[b]);
                                } else if a < out1.len() {
                                    assert(out1.contains(out1[a]));
                                } else {
                                    assert(out1.contains(out1[b]));
                                }
                            }
                        }
                        assert forall|id: u64| out@.contains(id) implies !self.pending@.contains_key(
                            id,
                        ) by {
                            let a = choose|a: int| 0 <= a < out@.len() && out@[a] == id;
                            if a < out1.len() {
                                assert(out1.contains(id));
                            }
                        }
                        assert forall|id: u64| out0.contains(id) implies out@.contains(id) by {
                            assert(out1.contains(id));
                            let a = choose|a: int| 0 <= a < out1.len() && out1[a] == id;
                            assert(out@[a] == id);
                        }
                        assert forall|id: u64|
                            out@.contains(id) && !out0.contains(id) implies pending0.contains_key(
                            id,
                        ) && pending0[id] <= now by {
                            let a = choose|a: int| 0 <= a < out@.len() && out@[a] == id;
                            if a < out1.len() {
                                assert(out1.contains(id));
                            }
                        }
                        assert forall|id: u64| #[trigger]
                            pending0.contains_key(id) implies self.pending@.contains_key(id)
                            || out@.contains(id) by {
                            if id == e.id {
                                assert(out@[out@.len() - 1] == id);
                            } else if !self.pending@.contains_key(id) {
                                assert(out1.contains(id));
                                let a = choose|a: int| 0 <= a < out1.len() && out1[a] == id;
                                assert(out@[a] == id);
                            }
                        }
                    }
                } else {
                    kept.push(e);
                }
            }
            proof {
                assert forall|a: int|
                    0 <= a < j + 1 && self.pending@.contains_key((#[trigger] slot0[a]).id)
                        && self.pending@[slot0[a].id] == slot0[a].due implies slot0[a].due > now
                    && kept@.contains(slot0[a]) by {
                    if a < j {
                        assert(pending1.contains_key(slot0[a].id));
                        assert(kept0.contains(slot0[a]));
                        let b = choose|b: int| 0 <= b < kept0.len() && kept0[b] == slot0[a];
                        assert(kept@[b] == slot0[a]);
                    } else {
                        assert(slot0[a] == e);
                        assert(kept@[kept@.len() - 1] == e);
                    }
                }
            }
            j = j + 1;
        }
        self.slots.set(i, kept);
        proof {
            assert forall|id: u64| #[trigger]
                self.pending@.contains_key(id) implies self.pending@[id] > self.cursor
                && self.holds(id, self.pending@[id]) by {
                let d = self.pending@[id];
                assert(pending0.contains_key(id));
                assert(old(self).holds(id, d));
                let s = d as int % (w as int);
                let a = choose|a: int|
                    0 <= a < slots0[s]@.len() && #[trigger] slots0[s]@[a] == (Entry { id, due: d });
                assert(self.slots@.len() == w);
                if s == i {
                    assert(slot0[a] == (Entry { id, due: self.pending@[id] }));
                    assert(slot0[a].id == id && slot0[a].due == d);
                    assert(kept@.contains(slot0[a]));
                    let b = choose|b: int| 0 <= b < kept@.len() && kept@[b] == slot0[a];
                    assert(self.slots@[s]@ == kept@);
                    assert(self.slots@[d as int % (self.slots@.len() as int)]@[b] == (Entry {
                        id,
                        due: d,
                    }));
                } else {
                    assert(self.slots@[s] == slots0[s]);
                    assert(self.slots@[d as int % (self.slots@.len() as int)]@[a] == (Entry {
                        id,
                        due: d,
                    }));
                }
            }
            assert forall|id: u64| #[trigger]
                self.pending@.contains_key(id) implies !(self.pending@[id] <= now
                && self.pending@[id] as int % (w as int) == i) by {
                let d = self.pending@[id];
                if d as int % (w as int) == i {
                    assert(pending0.contains_key(id));
                    assert(old(self).holds(id, d));
                    let a = choose|a: int|
                        0 <= a < slots0[i as int]@.len() && #[trigger] slots0[i as int]@[a] == (
                        Entry { id, due: d });
                    assert(slot0[a] == (Entry { id, due: self.pending@[id] }));
                    assert(slot0[a].id == id && slot0[a].due == d);
                }
            }
        }
    }

    /// Moves the clock to `now` and hands out the watches that have come
    /// due: every watch whose time is `now` or earlier, once. They are
    /// watched no longer. A clock does not go back: a tick at or before
    /// the last one hands out nothing.
    pub fn tick(&mut self, now: u64) -> (expired: Vec<u64>)
        requires
            old(self).wf(),
        ensures
            final(self).wf(),
            final(self).timeout_ms() == old(self).timeout_ms(),
            final(self).wheel_size() == old(self).wheel_size(),
            spec_clock(now) <= old(self).cursor() ==> expired@.len() == 0 && final(self).pending()
                == old(self).pending() && final(self).cursor() == old(self).cursor(),
            spec_clock(now) > old(self).cursor() ==> final(self).cursor() == spec_clock(now)
                && final(self).pending() == spec_left(old(self).pending(), spec_clock(now))
                && is_expired(expired@, old(self).pending(), spec_clock(now)),
    {
        let now: u64 = if now == u64::MAX {
            u64::MAX - 1
        } else {
            now
        };
        let mut out: Vec<u64> = Vec::new();
        if now <= self.cursor {
            return out;
        }
        let w: usize = self.slots.len();
        let span: u64 = now - self.cursor;
        let steps: usize = if span >= w as u64 {
            w
        } else {
            span as usize
        };
        let ghost pending0 = self.pending@;
        let mut k: usize = 0;
        while k < steps
            invariant
                k <= steps,
                steps <= w,
                w == self.slots@.len(),
                steps == (if now - self.cursor >= w {
                    w as int
                } else {
                    now - self.cursor
                }),
                self.wf(),
                self.cursor == old(self).cursor,
                self.cursor < now,
                self.timeout_ms == old(self).timeout_ms,
                pending0 == old(self).pending@,
                out@.no_duplicates(),
                forall|id: u64| out@.contains(id) ==> !self.pending@.contains_key(id),
                forall|id: u64|
                    out@.contains(id) ==> pending0.contains_key(id) && pending0[id] <= now,
                forall|id: u64| #[trigger]
                    self.pending@.contains_key(id) ==> pending0.contains_key(id)
                        && self.pending@[id] == pending0[id],
                forall|id: u64| #[trigger]
                    pending0.contains_key(id) ==> self.pending@.contains_key(id) || out@.contains(
                        id,
                    ),
                forall|id: u64| #[trigger]
                    self.pending@.contains_key(id) && self.pending@[id] <= now ==> !swept(
                        self.cursor,
                        k as int,
                        w as int,
                        self.pending@[id],
                    ),
            decreases steps - k,
        {
            let i: usize = ((self.cursor as u128 + 1 + k as u128) % (w as u128)) as usize;
            assert(i == slot_at(self.cursor, k as int, w as int));
            let ghost pending1 = self.pending@;
            self.sweep(i, now, &mut out);
            proof {
                assert forall|id: u64| #[trigger]
                    self.pending@.contains_key(id) && self.pending@[id] <= now implies !swept(
                    self.cursor,
                    k + 1,
                    w as int,
                    self.pending@[id],
                ) by {
                    let d = self.pending@[id];
                    assert(pending1.contains_key(id) && pending1[id] == d);
                    assert(!swept(self.cursor, k as int, w as int, d));
                    if swept(self.cursor, k + 1, w as int, d) {
                        let j = choose|j: int|
                            0 <= j < k + 1 && #[trigger] slot_at(self.cursor, j, w as int)
                                == d as int % (w as int);
                        if j < k {
                            assert(swept(self.cursor, k as int, w as int, d));
                        }
                    }
                }
                assert forall|id: u64| out@.contains(id) implies pending0.contains_key(id)
                    && pending0[id] <= now by {
                    if pending1.contains_key(id) {
                    }
                }
            }
            k = k + 1;
        }
        proof {
            assert forall|id: u64| #[trigger]
                self.pending@.contains_key(id) implies self.pending@[id] > now by {
                let d = self.pending@[id];
                if d <= now {
                    lemma_tick_covers(self.cursor, now, w as int, d);
                }
            }
            assert(self.pending@ =~= spec_left(pending0, now));
            assert forall|id: u64| out@.contains(id) <==> pending0.contains_key(id) && pending0[id]
                <= now by {
                if pending0.contains_key(id) && pending0[id] <= now {
                    if self.pending@.contains_key(id) {
                        assert(self.pending@[id] > now);
                    }
                }
            }
        }
        let ghost before = *self;
        self.cursor = now;
        proof {
            assert forall|id: u64| #[trigger]
                self.pending@.contains_key(id) implies self.pending@[id] > self.cursor
                && self.holds(id, self.pending@[id]) by {
                let d = self.pending@[id];
                assert(before.pending@.contains_key(id));
                assert(before.holds(id, d));
                let s = d as int % (w as int);
                let j = choose|j: int|
                    0 <= j < before.slots@[s]@.len() && #[trigger] before.slots@[s]@[j] == (Entry {
                        id,
                        due: d,
                    });
                assert(self.slots@ == before.slots@);
                assert(self.slots@[d as int % (self.slots@.len() as int)]@[j] == (Entry {
                    id,
                    due: d,
                }));
            }
        }
        out
    }
}

} // verus!
