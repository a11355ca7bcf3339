use vstd::prelude::*;
use crate::eit::{EitEvent, EitSection, EventView, event_views, NUM_SECTIONS};

verus! {

/// The events of `s` that air across `midnight`, in order.
pub open spec fn overnight_in_events(s: Seq<EitEvent>, midnight: int) -> Seq<EventView>
    decreases s.len(),
{
    if s.len() == 0 {
        Seq::empty()
    } else {
        let rest = overnight_in_events(s.drop_last(), midnight);
        if s.last()@.straddles(midnight) {
            rest.push(s.last()@)
        } else {
            rest
        }
    }
}

/// The events of the filled slots of `slots`, in slot order, that air across `midnight`.
pub open spec fn overnight_in_slots(slots: Seq<Option<EpgSection>>, midnight: int) -> Seq<
    EventView,
>
    decreases slots.len(),
{
    if slots.len() == 0 {
        Seq::empty()
    } else {
        overnight_in_slots(slots.drop_last(), midnight) + match slots.last() {
            Some(sec) => overnight_in_events(sec.events@, midnight),
            None => Seq::empty(),
        }
    }
}

/// A section as stored in a segment: its version and its events.
#[derive(Clone, Debug)]
pub struct EpgSection {
    pub version: u8,
    pub events: Vec<EitEvent>,
}

impl EpgSection {
    /// The stored form of a received section.
    pub fn from_section(section: EitSection) -> (r: EpgSection)
        ensures
            r == (EpgSection { version: section.version_number, events: section.events }),
    {
        EpgSection { version: section.version_number, events: section.events }
    }

    /// Appends to `events` copies of this section's events that air across `midnight`.
    pub fn collect_overnight_events(&self, midnight: i64, events: Vec<EitEvent>) -> (r: Vec<
        EitEvent,
    >)
        ensures
            event_views(r@) == event_views(events@) + overnight_in_events(
                self.events@,
                midnight as int,
            ),
            forall|j: int| events@.len() <= j < r@.len() ==> #[trigger] r@[j]@.straddles(midnight as int),
    {
        let mut out = events;
        let mut i: usize = 0;
        while i < self.events.len()
            invariant
                i <= self.events@.len(),
                event_views(out@) == event_views(events@) + overnight_in_events(
                    self.events@.subrange(0, i as int),
                    midnight as int,
                ),
                forall|j: int| events@.len() <= j < out@.len() ==> #[trigger] out@[j]@.straddles(midnight as int),
            decreases self.events@.len() - i,
        {
            let ghost prev = out@;
            assert(self.events@.subrange(0, i + 1).drop_last() =~= self.events@.subrange(0, i as int));
            if self.events[i].is_overnight_event(midnight) {
                out.push(self.events[i].copy());
                assert(event_views(out@) =~= event_views(prev).push(self.events@[i as int]@));
            }
            i = i + 1;
        }
        assert(self.events@.subrange(0, self.events@.len() as int) =~= self.events@);
        out
    }
}

/// Three hours of a schedule: up to eight sections, in chronological order.
#[derive(Debug)]
pub struct EpgSegment {
    pub sections: [Option<EpgSection>; 8],
}

/// The slots of a segment after `section` was stored in it: slots after the segment's
/// last section are cleared, then the section's own slot is replaced.
pub open spec fn updated_slots(slots: Seq<Option<EpgSection>>, section: EitSection) -> Seq<
    Option<EpgSection>,
> {
    Seq::new(
        8,
        |j: int|
            if j == section.spec_section_index() {
                Some(EpgSection { version: section.version_number, events: section.events })
            } else if j > section.spec_last_section_index() {
                None
            } else {
                slots[j]
            },
    )
}

impl EpgSegment {
    /// A segment with every slot empty.
    pub fn new() -> (r: EpgSegment)
        ensures
            forall|j: int| 0 <= j < NUM_SECTIONS ==> #[trigger] r.sections@[j] is None,
    {
        EpgSegment { sections: [None, None, None, None, None, None, None, None] }
    }

    /// Stores `section`: the slots after its segment's last section are cleared and its
    /// own slot takes the section's version and events.
    pub fn update(&mut self, section: EitSection)
        ensures
            final(self).sections@ == updated_slots(old(self).sections@, section),
    {
        let ghost s = section;
        let n = section.last_section_index() + 1;
        let mut i: usize = n;
        while i < NUM_SECTIONS
            invariant
                n <= i <= NUM_SECTIONS,
                n == s.spec_last_section_index() + 1,
                forall|j: int|
                    0 <= j < NUM_SECTIONS ==> #[trigger] self.sections@[j] == if n <= j < i {
                        None
                    } else {
                        old(self).sections@[j]
                    },
            decreases NUM_SECTIONS - i,
        {
            self.sections[i] = None;
            i = i + 1;
        }
        let k = section.section_index();
        self.sections[k] = Some(EpgSection::from_section(section));
        assert(self.sections@ =~= updated_slots(old(self).sections@, s));
    }

    /// Appends to `events` copies of the events of this segment's sections, in slot order,
    /// that air across `midnight`.
    pub fn collect_overnight_events(&self, midnight: i64, events: Vec<EitEvent>) -> (r: Vec<
        EitEvent,
    >)
        ensures
            event_views(r@) == event_views(events@) + overnight_in_slots(
                self.sections@,
                midnight as int,
            ),
            forall|j: int| events@.len() <= j < r@.len() ==> #[trigger] r@[j]@.straddles(midnight as int),
    {
        let mut out = events;
        let mut i: usize = 0;
        while i < NUM_SECTIONS
            invariant
                i <= NUM_SECTIONS,
                self.sections@.len() == NUM_SECTIONS,
                event_views(out@) == event_views(events@) + overnight_in_slots(
                    self.sections@.subrange(0, i as int),
                    midnight as int,
                ),
                forall|j: int| events@.len() <= j < out@.len() ==> #[trigger] out@[j]@.straddles(midnight as int),
            decreases NUM_SECTIONS - i,
        {
            let ghost prev = out@;
            assert(self.sections@.subrange(0, i + 1).drop_last() =~= self.sections@.subrange(0, i as int));
            match &self.sections[i] {
                Some(sec) => {
                    out = sec.collect_overnight_events(midnight, out);
                    assert forall|j: int| events@.len() <= j < out@.len() implies #[trigger] out@[j]@.straddles(
                        midnight as int,
                    ) by {
                        if j < prev.len() {
                            assert(event_views(out@)[j] == event_views(prev)[j]);
                        }
                    }
                    assert(event_views(out@) =~= event_views(events@) + overnight_in_slots(
                        self.sections@.subrange(0, i + 1),
                        midnight as int,
                    ));
                },
                None => {
                    assert(overnight_in_slots(self.sections@.subrange(0, i + 1), midnight as int)
                        =~= overnight_in_slots(self.sections@.subrange(0, i as int), midnight as int));
                },
            }
            i = i + 1;
        }
        assert(self.sections@.subrange(0, NUM_SECTIONS as int) =~= self.sections@);
        out
    }
}

} // verus!

verus! {

/// After a section is stored in a segment, every slot after the segment's last section is
/// empty, as long as the section's own slot is not one of them.
pub proof fn lemma_truncation(slots: Seq<Option<EpgSection>>, section: EitSection)
    requires
        section.spec_section_index() <= section.spec_last_section_index(),
    ensures
        forall|j: int|
            section.spec_last_section_index() < j < NUM_SECTIONS ==> (#[trigger] updated_slots(
                slots,
                section,
            )[j]) is None,
{
}

} // verus!
