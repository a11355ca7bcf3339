use vstd::prelude::*;
use crate::eit::{EitEvent, EitSection, EventView, event_views, NUM_SECTIONS, NUM_SEGMENTS, NUM_TABLES};
use crate::segment::{EpgSection, updated_slots};
use crate::service::EpgService;
use crate::table::{EpgTable, overnight_in_segments};

verus! {

/// The events of the tables present in `tables`, in table, segment and slot order, that
/// air across `midnight`.
pub open spec fn overnight_in_tables(tables: Seq<Option<Box<EpgTable>>>, midnight: int) -> Seq<
    EventView,
>
    decreases tables.len(),
{
    if tables.len() == 0 {
        Seq::empty()
    } else {
        overnight_in_tables(tables.drop_last(), midnight) + match tables.last() {
            Some(t) => overnight_in_segments(t.segments@, midnight),
            None => Seq::empty(),
        }
    }
}

/// The slots of segment `seg` of a table slot; an absent table has every slot empty.
pub open spec fn slots_of(table: Option<Box<EpgTable>>, seg: int) -> Seq<Option<EpgSection>> {
    match table {
        Some(t) => t.segments@[seg].sections@,
        None => Seq::new(NUM_SECTIONS as nat, |j: int| None),
    }
}

/// The schedule of one service: up to 32 tables, the events saved across the last
/// midnight, and when the schedule was last prepared for a pass.
#[derive(Debug)]
pub struct EpgSchedule {
    pub service: EpgService,
    pub tables: [Option<Box<EpgTable>>; 32],
    pub overnight_events: Vec<EitEvent>,
    pub updated_at: i64,
}

/// `new` is `old` after `section` was stored in it: out-of-profile sections leave it as
/// it was; otherwise the selected table exists afterwards and only the selected segment of
/// it changed, as a segment update says.
pub open spec fn schedule_updated(old: EpgSchedule, new: EpgSchedule, section: EitSection) -> bool {
    if !section.in_profile() {
        new == old
    } else {
        let t = section.spec_table_index();
        &&& new.service == old.service
        &&& new.overnight_events == old.overnight_events
        &&& new.updated_at == old.updated_at
        &&& forall|k: int| 0 <= k < NUM_TABLES && k != t ==> #[trigger] new.tables@[k] == old.tables@[k]
        &&& new.tables@[t] is Some
        &&& forall|s: int|
            0 <= s < NUM_SEGMENTS ==> #[trigger] slots_of(new.tables@[t], s) == if s
                == section.spec_segment_index() {
                updated_slots(slots_of(old.tables@[t], s), section)
            } else {
                slots_of(old.tables@[t], s)
            }
    }
}

impl EpgSchedule {
    /// An empty schedule of `service`, prepared at `now`.
    pub fn new(service: &EpgService, now: i64) -> (r: EpgSchedule)
        ensures
            r.service@ == service@,
            forall|i: int| 0 <= i < NUM_TABLES ==> #[trigger] r.tables@[i] is None,
            r.overnight_events@.len() == 0,
            r.updated_at == now,
    {
        EpgSchedule {
            service: service.copy(),
            tables: [
                None, None, None, None, None, None, None, None,
                None, None, None, None, None, None, None, None,
                None, None, None, None, None, None, None, None,
                None, None, None, None, None, None, None, None,
            ],
            overnight_events: Vec::new(),
            updated_at: now,
        }
    }

    /// Stores `section` in the table that its table id selects, creating the table when
    /// absent. A section outside the schedule tables (table id not in 0x50..0x6F) is
    /// ignored.
    pub fn update(&mut self, section: EitSection)
        ensures
            schedule_updated(*old(self), *final(self), section),
    {
        if !section.is_in_profile() {
            return ;
        }
        let i = section.table_index();
        if self.tables[i].is_none() {
            let fresh = EpgTable::new();
            assert forall|s: int| 0 <= s < NUM_SEGMENTS implies fresh.segments@[s].sections@ =~= slots_of(
                old(self).tables@[i as int],
                s,
            ) by {
                assert forall|j: int| 0 <= j < 8 implies fresh.segments@[s].sections@[j] is None by {
                    assert(fresh.segments@[s].sections@[j] is None);
                }
            }
            self.tables[i] = Some(Box::new(fresh));
        }
        match &mut self.tables[i] {
            Some(t) => t.update(section),
            None => {},
        }
    }

    /// Replaces the saved overnight events with copies of the events of all tables, in
    /// table, segment and slot order, that air across `midnight`.
    pub fn save_overnight_events(&mut self, midnight: i64)
        ensures
            event_views(final(self).overnight_events@) == overnight_in_tables(
                old(self).tables@,
                midnight as int,
            ),
            forall|j: int|
                0 <= j < final(self).overnight_events@.len()
                    ==> #[trigger] final(self).overnight_events@[j]@.straddles(midnight as int),
            final(self).tables == old(self).tables,
            final(self).service == old(self).service,
            final(self).updated_at == old(self).updated_at,
    {
        let mut events: Vec<EitEvent> = Vec::new();
        let mut i: usize = 0;
        while i < NUM_TABLES
            invariant
                i <= NUM_TABLES,
                self.tables@.len() == NUM_TABLES,
                event_views(events@) == overnight_in_tables(
                    self.tables@.subrange(0, i as int),
                    midnight as int,
                ),
                forall|j: int| 0 <= j < events@.len() ==> #[trigger] events@[j]@.straddles(midnight as int),
            decreases NUM_TABLES - i,
        {
            let ghost prev = events@;
            assert(self.tables@.subrange(0, i + 1).drop_last() =~= self.tables@.subrange(0, i as int));
            match &self.tables[i] {
                Some(t) => {
                    events = t.collect_overnight_events(midnight, events);
                    assert forall|j: int| 0 <= j < events@.len() implies #[trigger] events@[j]@.straddles(
                        midnight as int,
                    ) by {
                        if j < prev.len() {
                            assert(event_views(events@)[j] == event_views(prev)[j]);
                        }
                    }
                    assert(event_views(events@) =~= overnight_in_tables(
                        self.tables@.subrange(0, i + 1),
                        midnight as int,
                    ));
                },
                None => {
                    assert(overnight_in_tables(self.tables@.subrange(0, i + 1), midnight as int)
                        =~= overnight_in_tables(self.tables@.subrange(0, i as int), midnight as int));
                },
            }
            i = i + 1;
        }
        assert(self.tables@.subrange(0, NUM_TABLES as int) =~= self.tables@);
        self.overnight_events = events;
    }
}

} // verus!
