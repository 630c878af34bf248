//! The touch aggregator: folds raw multi-touch protocol events into per-slot
//! touch state and reduces the active touches to their centroid.
//!
//! The hardware addresses touches through small slot indices: a slot-select
//! event names the slot that subsequent per-slot reports apply to, position
//! reports create or update the touch in that slot one axis at a time, a
//! tracking-id of `-1` ends it, and a released touch button clears every
//! slot at once. At most one touch exists per slot; the order the slots are
//! stored in carries no meaning.

use vstd::prelude::*;
use crate::point::Point;

verus! {

/// One raw multi-touch protocol event, reduced to a kind tag and its value.
#[derive(Clone, Copy, PartialEq, Eq, Structural, Debug)]
pub enum TouchEvent {
    /// Selects the slot that subsequent per-slot reports apply to.
    SlotSelect(i32),
    /// A new tracking id for the selected slot; `-1` ends the touch.
    TrackingId(i32),
    /// A position report for the selected slot, horizontal axis.
    PositionX(i32),
    /// A position report for the selected slot, vertical axis.
    PositionY(i32),
    /// The global touch button; value `0` clears every slot.
    TouchButton(i32),
    /// Any other event; ignored.
    Other,
}

/// One active touch: the slot tracking it and its raw position.
#[derive(Clone, Copy, PartialEq, Eq, Structural, Debug)]
pub struct TouchEntry {
    pub slot: i32,
    pub pos: Point,
}

/// No two entries share a slot.
pub open spec fn unique_slots(s: Seq<TouchEntry>) -> bool {
    forall|i: int, j: int| 0 <= i < j < s.len() ==> s[i].slot != s[j].slot
}

/// Every stored position fits in the 32-bit range raw reports use.
pub open spec fn entries_in_device_range(s: Seq<TouchEntry>) -> bool {
    forall|i: int| 0 <= i < s.len() ==> (#[trigger] s[i].pos).in_device_range()
}

/// Some entry tracks `slot`.
pub open spec fn has_slot(s: Seq<TouchEntry>, slot: i32) -> bool {
    exists|i: int| 0 <= i < s.len() && s[i].slot == slot
}

/// The index of the entry tracking `slot`; meaningful only when `has_slot`
/// holds, and then unique as long as slots are unique.
pub open spec fn slot_index(s: Seq<TouchEntry>, slot: i32) -> int {
    choose|i: int| 0 <= i < s.len() && s[i].slot == slot
}

/// The entries after the touch in `slot` ends: the one entry tracking it is
/// dropped; nothing happens when no entry tracks it.
pub open spec fn spec_remove_slot(s: Seq<TouchEntry>, slot: i32) -> Seq<TouchEntry> {
    if has_slot(s, slot) {
        s.remove(slot_index(s, slot))
    } else {
        s
    }
}

/// The entries after a horizontal position report of `v` for `slot`: the
/// tracked position keeps its other axis, a newly created touch starts with
/// the unreported axis at zero.
pub open spec fn spec_set_x(s: Seq<TouchEntry>, slot: i32, v: i32) -> Seq<TouchEntry> {
    if has_slot(s, slot) {
        let i = slot_index(s, slot);
        s.update(i, TouchEntry { slot, pos: Point { x: v as i64, y: s[i].pos.y } })
    } else {
        s.push(TouchEntry { slot, pos: Point { x: v as i64, y: 0 } })
    }
}

/// The entries after a vertical position report of `v` for `slot`.
pub open spec fn spec_set_y(s: Seq<TouchEntry>, slot: i32, v: i32) -> Seq<TouchEntry> {
    if has_slot(s, slot) {
        let i = slot_index(s, slot);
        s.update(i, TouchEntry { slot, pos: Point { x: s[i].pos.x, y: v as i64 } })
    } else {
        s.push(TouchEntry { slot, pos: Point { x: 0, y: v as i64 } })
    }
}

/// The selected slot after one event.
pub open spec fn spec_slot_after(cur: i32, ev: TouchEvent) -> i32 {
    match ev {
        TouchEvent::SlotSelect(s) => s,
        _ => cur,
    }
}

/// The entries after one event, with `cur` the selected slot.
pub open spec fn spec_entries_after(s: Seq<TouchEntry>, cur: i32, ev: TouchEvent) -> Seq<TouchEntry> {
    match ev {
        TouchEvent::SlotSelect(_) => s,
        TouchEvent::TrackingId(v) => if v == -1 {
            spec_remove_slot(s, cur)
        } else {
            s
        },
        TouchEvent::PositionX(v) => spec_set_x(s, cur, v),
        TouchEvent::PositionY(v) => spec_set_y(s, cur, v),
        TouchEvent::TouchButton(v) => if v == 0 {
            Seq::empty()
        } else {
            s
        },
        TouchEvent::Other => s,
    }
}

/// The sum of the horizontal coordinates of a run of entries.
pub open spec fn sum_x(s: Seq<TouchEntry>) -> int
    decreases s.len(),
{
    if s.len() == 0 {
        0
    } else {
        sum_x(s.drop_last()) + s.last().pos.x
    }
}

/// The sum of the vertical coordinates of a run of entries.
pub open spec fn sum_y(s: Seq<TouchEntry>) -> int
    decreases s.len(),
{
    if s.len() == 0 {
        0
    } else {
        sum_y(s.drop_last()) + s.last().pos.y
    }
}

/// The centroid of the entries: the componentwise arithmetic mean of the
/// positions, rounded down; undefined exactly when there are none.
pub open spec fn spec_centroid(s: Seq<TouchEntry>) -> Option<Point> {
    if s.len() == 0 {
        None
    } else {
        Some(Point {
            x: (sum_x(s) / s.len() as int) as i64,
            y: (sum_y(s) / s.len() as int) as i64,
        })
    }
}

/// The per-slot touch state.
pub struct TouchTracker {
    touches: Vec<TouchEntry>,
    current_slot: i32,
}

impl TouchTracker {
    /// The active touches, one entry per slot; storage order carries no
    /// meaning.
    pub closed spec fn entries(self) -> Seq<TouchEntry> {
        self.touches@
    }

    /// The slot that per-slot reports currently apply to.
    pub closed spec fn selected_slot(self) -> i32 {
        self.current_slot
    }

    /// A valid state: one touch per slot, every position in device range.
    pub open spec fn wf(self) -> bool {
        &&& unique_slots(self.entries())
        &&& entries_in_device_range(self.entries())
    }

    /// A fresh tracker with no touches and slot zero selected.
    pub fn new() -> (r: TouchTracker)
        ensures
            r.entries() == Seq::<TouchEntry>::empty(),
            r.selected_slot() == 0,
            r.wf(),
    {
        TouchTracker { touches: Vec::new(), current_slot: 0 }
    }

    /// The index of the entry tracking `slot`, if any.
    fn find_slot(&self, slot: i32) -> (r: Option<usize>)
        requires
            self.wf(),
        ensures
            match r {
                Some(i) => has_slot(self.entries(), slot)
                    && i as int == slot_index(self.entries(), slot)
                    && i < self.entries().len()
                    && self.entries()[i as int].slot == slot,
                None => !has_slot(self.entries(), slot),
            },
    {
        let n = self.touches.len();
        let mut i: usize = 0;
        while i < n
            invariant
                self.wf(),
                n == self.entries().len(),
                i <= n,
                forall|k: int| 0 <= k < i ==> self.entries()[k].slot != slot,
            decreases n - i,
        {
            if self.touches[i].slot == slot {
                proof {
                    let j = slot_index(self.entries(), slot);
                    assert(0 <= j < self.entries().len() && self.entries()[j].slot == slot);
                    if i as int != j {
                        assert(self.entries()[i as int].slot != self.entries()[j].slot);
                        assert(false);
                    }
                }
                return Some(i);
            }
            i = i + 1;
        }
        None
    }

    /// Consumes one raw event and mutates the touch state accordingly.
    ///
    /// The new state is exactly [`spec_entries_after`] and
    /// [`spec_slot_after`] applied to the old one; in particular a released
    /// touch button always leaves the touch set empty, whatever the slots
    /// held before.
    pub fn handle_event(&mut self, ev: TouchEvent)
        requires
            old(self).wf(),
        ensures
            final(self).wf(),
            final(self).entries() == spec_entries_after(
                old(self).entries(),
                old(self).selected_slot(),
                ev,
            ),
            final(self).selected_slot() == spec_slot_after(old(self).selected_slot(), ev),
    {
        match ev {
            TouchEvent::SlotSelect(s) => {
                self.current_slot = s;
            }
            TouchEvent::TrackingId(v) => {
                if v == -1 {
                    match self.find_slot(self.current_slot) {
                        Some(i) => {
                            proof {
                                lemma_remove_preserves(self.entries(), i as int);
                            }
                            self.touches.remove(i);
                        }
                        None => {}
                    }
                }
            }
            TouchEvent::PositionX(v) => {
                match self.find_slot(self.current_slot) {
                    Some(i) => {
                        let e = self.touches[i];
                        let updated = TouchEntry {
                            slot: e.slot,
                            pos: Point { x: v as i64, y: e.pos.y },
                        };
                        proof {
                            lemma_update_same_slot_preserves(self.entries(), i as int, updated);
                        }
                        self.touches[i] = updated;
                    }
                    None => {
                        let added = TouchEntry {
                            slot: self.current_slot,
                            pos: Point { x: v as i64, y: 0 },
                        };
                        proof {
                            lemma_push_new_preserves(self.entries(), added);
                        }
                        self.touches.push(added);
                    }
                }
            }
            TouchEvent::PositionY(v) => {
                match self.find_slot(self.current_slot) {
                    Some(i) => {
                        let e = self.touches[i];
                        let updated = TouchEntry {
                            slot: e.slot,
                            pos: Point { x: e.pos.x, y: v as i64 },
                        };
                        proof {
                            lemma_update_same_slot_preserves(self.entries(), i as int, updated);
                        }
                        self.touches[i] = updated;
                    }
                    None => {
                        let added = TouchEntry {
                            slot: self.current_slot,
                            pos: Point { x: 0, y: v as i64 },
                        };
                        proof {
                            lemma_push_new_preserves(self.entries(), added);
                        }
                        self.touches.push(added);
                    }
                }
            }
            TouchEvent::TouchButton(v) => {
                if v == 0 {
                    self.touches.clear();
                }
            }
            TouchEvent::Other => {}
        }
    }

    /// The centroid of the active touches, or nothing while no touch is
    /// active.
    ///
    /// For one or more touches this is the componentwise arithmetic mean of
    /// all tracked positions (rounded down); for none it is `None`, never a
    /// point at the origin.
    pub fn average_position(&self) -> (r: Option<Point>)
        requires
            self.wf(),
        ensures
            r == spec_centroid(self.entries()),
            r is Some <==> self.entries().len() > 0,
            r matches Some(p) ==> p.in_device_range(),
    {
        let n = self.touches.len();
        if n == 0 {
            return None;
        }
        // Coordinates are summed with a positive offset so that the running
        // totals stay non-negative; the offset divides out exactly.
        let mut tx: u128 = 0;
        let mut ty: u128 = 0;
        let mut i: usize = 0;
        while i < n
            invariant
                self.wf(),
                n == self.entries().len(),
                i <= n,
                tx == sum_x(self.entries().subrange(0, i as int)) + i * 0x8000_0000,
                ty == sum_y(self.entries().subrange(0, i as int)) + i * 0x8000_0000,
                tx <= i * 0xffff_ffff,
                ty <= i * 0xffff_ffff,
            decreases n - i,
        {
            let e = self.touches[i];
            proof {
                lemma_sum_step(self.entries(), i as int);
            }
            let sx: i64 = e.pos.x + 0x8000_0000;
            let sy: i64 = e.pos.y + 0x8000_0000;
            tx = tx + sx as u128;
            ty = ty + sy as u128;
            i = i + 1;
        }
        proof {
            assert(self.entries().subrange(0, n as int) =~= self.entries());
        }
        let qx: u128 = tx / (n as u128);
        let qy: u128 = ty / (n as u128);
        proof {
            lemma_offset_mean(sum_x(self.entries()), n as int);
            lemma_offset_mean(sum_y(self.entries()), n as int);
        }
        let mx: i64 = (qx as i64) - 0x8000_0000;
        let my: i64 = (qy as i64) - 0x8000_0000;
        Some(Point { x: mx, y: my })
    }
}

/// Law: the centroid does not depend on the order the touches are stored
/// in — two entry runs holding the same touches have the same centroid.
pub proof fn lemma_centroid_order_irrelevant(s: Seq<TouchEntry>, t: Seq<TouchEntry>)
    requires
        s.to_multiset() == t.to_multiset(),
    ensures
        spec_centroid(s) == spec_centroid(t),
{
    broadcast use vstd::seq_lib::group_to_multiset_ensures;

    lemma_sums_order_irrelevant(s, t);
    assert(s.len() == s.to_multiset().len());
    assert(t.len() == t.to_multiset().len());
}

/// The coordinate sums of two entry runs with the same contents agree.
proof fn lemma_sums_order_irrelevant(s: Seq<TouchEntry>, t: Seq<TouchEntry>)
    requires
        s.to_multiset() == t.to_multiset(),
    ensures
        sum_x(s) == sum_x(t),
        sum_y(s) == sum_y(t),
    decreases s.len(),
{
    broadcast use vstd::seq_lib::group_to_multiset_ensures;

    assert(s.len() == s.to_multiset().len());
    assert(t.len() == t.to_multiset().len());
    if s.len() == 0 {
        assert(t.len() == 0);
    } else {
        let last = s.len() - 1;
        let e = s[last];
        assert(s.contains(e));
        assert(t.to_multiset().count(e) > 0);
        assert(t.contains(e));
        let j = choose|j: int| 0 <= j < t.len() && t[j] == e;
        assert(s.drop_last() =~= s.remove(last));
        assert(s.remove(last).to_multiset() =~= s.to_multiset().remove(e));
        assert(t.remove(j).to_multiset() =~= t.to_multiset().remove(e));
        lemma_sum_remove(t, j);
        lemma_sums_order_irrelevant(s.drop_last(), t.remove(j));
    }
}

/// Dropping one entry takes exactly its coordinates out of the sums.
proof fn lemma_sum_remove(t: Seq<TouchEntry>, j: int)
    requires
        0 <= j < t.len(),
    ensures
        sum_x(t) == sum_x(t.remove(j)) + t[j].pos.x,
        sum_y(t) == sum_y(t.remove(j)) + t[j].pos.y,
    decreases t.len(),
{
    if j == t.len() - 1 {
        assert(t.remove(j) =~= t.drop_last());
    } else {
        assert(t.remove(j).drop_last() =~= t.drop_last().remove(j));
        assert(t.remove(j).last() == t.last());
        lemma_sum_remove(t.drop_last(), j);
    }
}

/// Dropping an entry keeps slots unique and positions in range.
proof fn lemma_remove_preserves(s: Seq<TouchEntry>, i: int)
    requires
        0 <= i < s.len(),
        unique_slots(s),
        entries_in_device_range(s),
    ensures
        unique_slots(s.remove(i)),
        entries_in_device_range(s.remove(i)),
{
    let t = s.remove(i);
    assert forall|a: int, b: int| 0 <= a < b < t.len() implies t[a].slot != t[b].slot by {
        let a0 = if a < i { a } else { a + 1 };
        let b0 = if b < i { b } else { b + 1 };
        assert(t[a] == s[a0]);
        assert(t[b] == s[b0]);
    }
    assert forall|k: int| 0 <= k < t.len() implies (#[trigger] t[k].pos).in_device_range() by {
        let k0 = if k < i { k } else { k + 1 };
        assert(t[k] == s[k0]);
    }
}

/// Replacing an entry by one with the same slot and an in-range position
/// keeps slots unique and positions in range.
proof fn lemma_update_same_slot_preserves(s: Seq<TouchEntry>, i: int, e: TouchEntry)
    requires
        0 <= i < s.len(),
        e.slot == s[i].slot,
        e.pos.in_device_range(),
        unique_slots(s),
        entries_in_device_range(s),
    ensures
        unique_slots(s.update(i, e)),
        entries_in_device_range(s.update(i, e)),
{
    let t = s.update(i, e);
    assert forall|a: int, b: int| 0 <= a < b < t.len() implies t[a].slot != t[b].slot by {
        assert(t[a].slot == s[a].slot);
        assert(t[b].slot == s[b].slot);
    }
    assert forall|k: int| 0 <= k < t.len() implies (#[trigger] t[k].pos).in_device_range() by {
        if k != i {
            assert(t[k] == s[k]);
        }
    }
}

/// Appending an entry for a slot nothing tracks keeps slots unique and
/// positions in range.
proof fn lemma_push_new_preserves(s: Seq<TouchEntry>, e: TouchEntry)
    requires
        !has_slot(s, e.slot),
        e.pos.in_device_range(),
        unique_slots(s),
        entries_in_device_range(s),
    ensures
        unique_slots(s.push(e)),
        entries_in_device_range(s.push(e)),
{
    let t = s.push(e);
    assert forall|a: int, b: int| 0 <= a < b < t.len() implies t[a].slot != t[b].slot by {
        if b == s.len() {
            assert(t[a] == s[a]);
            assert(t[b] == e);
        } else {
            assert(t[a] == s[a]);
            assert(t[b] == s[b]);
        }
    }
    assert forall|k: int| 0 <= k < t.len() implies (#[trigger] t[k].pos).in_device_range() by {
        if k != s.len() {
            assert(t[k] == s[k]);
        }
    }
}

/// One more entry extends the running coordinate sums by its coordinates.
proof fn lemma_sum_step(s: Seq<TouchEntry>, i: int)
    requires
        0 <= i < s.len(),
    ensures
        sum_x(s.subrange(0, i + 1)) == sum_x(s.subrange(0, i)) + s[i].pos.x,
        sum_y(s.subrange(0, i + 1)) == sum_y(s.subrange(0, i)) + s[i].pos.y,
{
    let t = s.subrange(0, i + 1);
    assert(t.drop_last() =~= s.subrange(0, i));
    assert(t.last() == s[i]);
}

/// Summing with a per-entry offset of `2^31` and dividing by the count gives
/// the offset plus the floored mean: the offset divides out exactly.
proof fn lemma_offset_mean(sum: int, n: int)
    requires
        0 < n,
        0 <= sum + n * 0x8000_0000 <= n * 0xffff_ffff,
    ensures
        (sum + n * 0x8000_0000) / n == sum / n + 0x8000_0000,
        0 <= (sum + n * 0x8000_0000) / n <= 0xffff_ffff,
        -0x8000_0000 <= sum / n <= 0x7fff_ffff,
{
    vstd::arithmetic::div_mod::lemma_hoist_over_denominator(sum, 0x8000_0000, n as nat);
    assert(0x8000_0000 * n == n * 0x8000_0000);
    let t = sum + n * 0x8000_0000;
    vstd::arithmetic::div_mod::lemma_div_is_ordered(0, t, n);
    vstd::arithmetic::div_mod::lemma_div_is_ordered(t, n * 0xffff_ffff, n);
    vstd::arithmetic::div_mod::lemma_div_multiples_vanish(0xffff_ffff, n);
    assert(n * 0xffff_ffff == 0xffff_ffff * n);
    assert(0int / n == 0) by {
        vstd::arithmetic::div_mod::lemma_div_of0(n);
    }
}

} // verus!
