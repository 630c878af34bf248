//! The whole per-cycle pipeline: one poll cycle folds a batch of raw events
//! into the touch state, derives the centroid, remaps it, filters it, and
//! offers the result to the emission gate.
//!
//! All mutable loop state lives in one context struct owned by the single
//! polling loop; an empty touch set advances no downstream state.

use vstd::prelude::*;
use crate::filter::FilterConfig;
use crate::filter::FilterState;
use crate::filter::spec_filter_step;
use crate::gate::EmissionState;
use crate::gate::spec_gate_after;
use crate::gate::spec_should_emit;
use crate::mapper::SourceRect;
use crate::mapper::spec_map_axis;
use crate::point::Point;
use crate::tracker::TouchEntry;
use crate::tracker::TouchEvent;
use crate::tracker::TouchTracker;
use crate::tracker::spec_centroid;
use crate::tracker::spec_entries_after;
use crate::tracker::spec_slot_after;

verus! {

/// The touch state after a whole batch of events, folded front to back.
pub open spec fn spec_track_run(
    s: Seq<TouchEntry>,
    cur: i32,
    evs: Seq<TouchEvent>,
) -> (Seq<TouchEntry>, i32)
    decreases evs.len(),
{
    if evs.len() == 0 {
        (s, cur)
    } else {
        spec_track_run(
            spec_entries_after(s, cur, evs[0]),
            spec_slot_after(cur, evs[0]),
            evs.drop_first(),
        )
    }
}

/// The raw centroid remapped into the output space.
pub open spec fn spec_remap(rect: SourceRect, raw: Point) -> Point {
    Point {
        x: spec_map_axis(raw.x as int, rect.min_x as int, rect.max_x as int) as i64,
        y: spec_map_axis(raw.y as int, rect.min_y as int, rect.max_y as int) as i64,
    }
}

/// What one poll cycle does downstream of the touch state: with no active
/// touch neither the filter nor the emission gate advances and nothing is emitted;
/// otherwise the centroid runs through the mapper, the filter, and the emission gate.
pub open spec fn spec_cycle_downstream(
    entries: Seq<TouchEntry>,
    rect: SourceRect,
    filter: FilterState,
    gate: EmissionState,
    now_us: u64,
) -> (FilterState, EmissionState, Option<Point>) {
    match spec_centroid(entries) {
        None => (filter, gate, None),
        Some(raw) => {
            let f2 = spec_filter_step(filter, spec_remap(rect, raw));
            let g2 = spec_gate_after(gate, f2.smoothed, now_us);
            let out = if spec_should_emit(gate, f2.smoothed, now_us) {
                Some(f2.smoothed)
            } else {
                None::<Point>
            };
            (f2, g2, out)
        }
    }
}

/// The per-run mutable state of the whole pipeline, owned by the single
/// polling loop.
pub struct Pipeline {
    pub tracker: TouchTracker,
    pub rect: SourceRect,
    pub filter: FilterState,
    pub gate: EmissionState,
}

impl Pipeline {
    /// Every stage is in a valid state.
    pub open spec fn wf(self) -> bool {
        &&& self.tracker.wf()
        &&& self.rect.wf()
        &&& self.filter.wf()
        &&& self.gate.wf()
    }

    /// A fresh pipeline over the given source rectangle, with the default
    /// filter and gate constants, started at time `now_us`.
    pub fn new(rect: SourceRect, now_us: u64) -> (r: Pipeline)
        requires
            rect.wf(),
        ensures
            r.wf(),
            r.tracker.entries() == Seq::<TouchEntry>::empty(),
            r.tracker.selected_slot() == 0,
            r.rect == rect,
            r.filter == (FilterState {
                config: FilterConfig {
                    detect_threshold: crate::filter::JUMP_DETECTION_THRESHOLD,
                    confirm_distance: crate::filter::JUMP_CONFIRMATION_DISTANCE,
                    alpha_num: crate::filter::SMOOTHING_NUM,
                    alpha_den: crate::filter::SMOOTHING_DEN,
                },
                last_confirmed: Point { x: 0, y: 0 },
                smoothed: Point { x: 0, y: 0 },
                candidate: None::<Point>,
                has_received: false,
            }),
            r.gate == (EmissionState {
                last_emitted: Point { x: 0, y: 0 },
                last_time_us: now_us,
                position_threshold: crate::gate::POSITION_THRESHOLD,
                min_interval_us: crate::gate::MIN_EMISSION_INTERVAL_US,
            }),
    {
        Pipeline {
            tracker: TouchTracker::new(),
            rect,
            filter: FilterState::new(FilterConfig::new()),
            gate: EmissionState::new(now_us),
        }
    }

    /// Runs one poll cycle: folds the fetched batch of raw events into the
    /// touch state, then advances the downstream stages, returning the point
    /// to forward to the output device, if any.
    ///
    /// The new touch state is the batch folded front to back over the old
    /// one; filter, gate and result are exactly
    /// [`spec_cycle_downstream`] of the touch state after the batch.
    pub fn poll_cycle(&mut self, events: &Vec<TouchEvent>, now_us: u64) -> (r: Option<Point>)
        requires
            old(self).wf(),
            now_us >= old(self).gate.last_time_us,
        ensures
            final(self).wf(),
            final(self).rect == old(self).rect,
            (final(self).tracker.entries(), final(self).tracker.selected_slot())
                == spec_track_run(
                    old(self).tracker.entries(),
                    old(self).tracker.selected_slot(),
                    events@,
                ),
            ({
                let (f2, g2, out) = spec_cycle_downstream(
                    final(self).tracker.entries(),
                    old(self).rect,
                    old(self).filter,
                    old(self).gate,
                    now_us,
                );
                &&& final(self).filter == f2
                &&& final(self).gate == g2
                &&& r == out
            }),
    {
        let ghost orig = *self;
        let n = events.len();
        proof {
            assert(events@.subrange(0, n as int) =~= events@);
        }
        let mut i: usize = 0;
        while i < n
            invariant
                i <= n,
                n == events@.len(),
                self.tracker.wf(),
                self.rect == orig.rect,
                self.filter == orig.filter,
                self.gate == orig.gate,
                spec_track_run(
                    self.tracker.entries(),
                    self.tracker.selected_slot(),
                    events@.subrange(i as int, n as int),
                ) == spec_track_run(
                    orig.tracker.entries(),
                    orig.tracker.selected_slot(),
                    events@,
                ),
            decreases n - i,
        {
            proof {
                assert(events@.subrange(i as int, n as int).drop_first()
                    =~= events@.subrange(i as int + 1, n as int));
                assert(events@.subrange(i as int, n as int)[0] == events@[i as int]);
            }
            self.tracker.handle_event(events[i]);
            i = i + 1;
        }
        match self.tracker.average_position() {
            None => None,
            Some(raw) => {
                let norm = self.rect.map(raw);
                let smoothed = self.filter.apply(norm);
                self.gate.maybe_emit(smoothed, now_us)
            }
        }
    }
}

} // verus!
