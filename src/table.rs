use vstd::prelude::*;
use crate::eit::{EitEvent, EitSection, EventView, event_views, NUM_SEGMENTS};
use crate::segment::{EpgSegment, overnight_in_slots, updated_slots};

verus! {

/// The events of the sections of `segments`, in segment and slot order, that air across
/// `midnight`.
pub open spec fn overnight_in_segments(segments: Seq<EpgSegment>, midnight: int) -> Seq<
    EventView,
>
    decreases segments.len(),
{
    if segments.len() == 0 {
        Seq::empty()
    } else {
        overnight_in_segments(segments.drop_last(), midnight) + overnight_in_slots(
            segments.last().sections@,
            midnight,
        )
    }
}

/// Four days of a schedule: 32 segments of three hours, in chronological order.
#[derive(Debug)]
pub struct EpgTable {
    pub segments: [EpgSegment; 32],
}

impl EpgTable {
    /// A table whose segments are all empty.
    pub fn new() -> (r: EpgTable)
        ensures
            forall|k: int, j: int|
                0 <= k < NUM_SEGMENTS && 0 <= j < 8 ==> (#[trigger] r.segments@[k].sections@[j]) is None,
    {
        EpgTable {
            segments: [
                EpgSegment::new(), EpgSegment::new(), EpgSegment::new(), EpgSegment::new(),
                EpgSegment::new(), EpgSegment::new(), EpgSegment::new(), EpgSegment::new(),
                EpgSegment::new(), EpgSegment::new(), EpgSegment::new(), EpgSegment::new(),
                EpgSegment::new(), EpgSegment::new(), EpgSegment::new(), EpgSegment::new(),
                EpgSegment::new(), EpgSegment::new(), EpgSegment::new(), EpgSegment::new(),
                EpgSegment::new(), EpgSegment::new(), EpgSegment::new(), EpgSegment::new(),
                EpgSegment::new(), EpgSegment::new(), EpgSegment::new(), EpgSegment::new(),
                EpgSegment::new(), EpgSegment::new(), EpgSegment::new(), EpgSegment::new(),
            ],
        }
    }

    /// Stores `section` in the segment that its section number selects.
    pub fn update(&mut self, section: EitSection)
        ensures
            forall|k: int|
                0 <= k < NUM_SEGMENTS && k != section.spec_segment_index()
                    ==> #[trigger] final(self).segments@[k] == old(self).segments@[k],
            final(self).segments@[section.spec_segment_index()].sections@ == updated_slots(
                old(self).segments@[section.spec_segment_index()].sections@,
                section,
            ),
    {
        let i = section.segment_index();
        self.segments[i].update(section);
    }

    /// Appends to `events` copies of the events of this table, in segment and slot order,
    /// that air across `midnight`.
    pub fn collect_overnight_events(&self, midnight: i64, events: Vec<EitEvent>) -> (r: Vec<
        EitEvent,
    >)
        ensures
            event_views(r@) == event_views(events@) + overnight_in_segments(
                self.segments@,
                midnight as int,
            ),
            forall|j: int| events@.len() <= j < r@.len() ==> #[trigger] r@[j]@.straddles(midnight as int),
    {
        let mut out = events;
        let mut i: usize = 0;
        while i < NUM_SEGMENTS
            invariant
                i <= NUM_SEGMENTS,
                self.segments@.len() == NUM_SEGMENTS,
                event_views(out@) == event_views(events@) + overnight_in_segments(
                    self.segments@.subrange(0, i as int),
                    midnight as int,
                ),
                forall|j: int| events@.len() <= j < out@.len() ==> #[trigger] out@[j]@.straddles(midnight as int),
            decreases NUM_SEGMENTS - i,
        {
            let ghost prev = out@;
            assert(self.segments@.subrange(0, i + 1).drop_last() =~= self.segments@.subrange(0, i as int));
            out = self.segments[i].collect_overnight_events(midnight, out);
            assert forall|j: int| events@.len() <= j < out@.len() implies #[trigger] out@[j]@.straddles(
                midnight as int,
            ) by {
                if j < prev.len() {
                    assert(event_views(out@)[j] == event_views(prev)[j]);
                }
            }
            assert(event_views(out@) =~= event_views(events@) + overnight_in_segments(
                self.segments@.subrange(0, i + 1),
                midnight as int,
            ));
            i = i + 1;
        }
        assert(self.segments@.subrange(0, NUM_SEGMENTS as int) =~= self.segments@);
        out
    }
}

} // verus!
