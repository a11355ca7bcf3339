use vstd::prelude::*;
use std::collections::HashMap;
use crate::eit::{EitEvent, EventView, event_views, NUM_SECTIONS, NUM_SEGMENTS, NUM_TABLES};
use crate::ids::EpgScheduleId;
use crate::coordinator::Epg;
use crate::index::ScheduleIndex;
use crate::models::{
    ProgramModel, ProgramView, ServiceModel, apply_event, models_service, new_program,
    spec_program_id, make_program_id,
};
use crate::schedule::EpgSchedule;
use crate::segment::{EpgSection, EpgSegment};
use crate::table::EpgTable;

verus! {

broadcast use vstd::std_specs::hash::group_hash_axioms;

/// The views of a program map.
pub open spec fn program_views(m: Map<u64, ProgramModel>) -> Map<u64, ProgramView> {
    m.map_values(|p: ProgramModel| p@)
}

/// `m` after folding event `e` of service (`sid`, `nid`) into it: the event's program,
/// taken from `m` or new, is updated from the event.
pub open spec fn fold_event(m: Map<u64, ProgramView>, e: EventView, sid: u16, nid: u16) -> Map<
    u64,
    ProgramView,
> {
    let id = spec_program_id(e.event_id, sid, nid);
    let p = if m.contains_key(id) {
        m[id]
    } else {
        new_program(e.event_id, sid, nid)
    };
    m.insert(id, apply_event(p, e))
}

/// `m` after folding `events` in order.
pub open spec fn fold_events(m: Map<u64, ProgramView>, events: Seq<EventView>, sid: u16, nid: u16) -> Map<
    u64,
    ProgramView,
>
    decreases events.len(),
{
    if events.len() == 0 {
        m
    } else {
        fold_event(fold_events(m, events.drop_last(), sid, nid), events.last(), sid, nid)
    }
}

/// Folding two sequences one after the other is folding their concatenation.
pub proof fn lemma_fold_append(
    m: Map<u64, ProgramView>,
    a: Seq<EventView>,
    b: Seq<EventView>,
    sid: u16,
    nid: u16,
)
    ensures
        fold_events(m, a + b, sid, nid) == fold_events(fold_events(m, a, sid, nid), b, sid, nid),
    decreases b.len(),
{
    if b.len() == 0 {
        assert(a + b =~= a);
    } else {
        lemma_fold_append(m, a, b.drop_last(), sid, nid);
        assert((a + b).drop_last() =~= a + b.drop_last());
        assert((a + b).last() == b.last());
    }
}

/// The events of the filled slots of `slots`, in slot order.
pub open spec fn events_in_slots(slots: Seq<Option<EpgSection>>) -> Seq<EventView>
    decreases slots.len(),
{
    if slots.len() == 0 {
        Seq::empty()
    } else {
        events_in_slots(slots.drop_last()) + match slots.last() {
            Some(sec) => event_views(sec.events@),
            None => Seq::empty(),
        }
    }
}

/// The events of `segments`, in segment and slot order.
pub open spec fn events_in_segments(segments: Seq<EpgSegment>) -> Seq<EventView>
    decreases segments.len(),
{
    if segments.len() == 0 {
        Seq::empty()
    } else {
        events_in_segments(segments.drop_last()) + events_in_slots(segments.last().sections@)
    }
}

/// The events of the tables present in `tables`, in table, segment and slot order.
pub open spec fn events_in_tables(tables: Seq<Option<Box<EpgTable>>>) -> Seq<EventView>
    decreases tables.len(),
{
    if tables.len() == 0 {
        Seq::empty()
    } else {
        events_in_tables(tables.drop_last()) + match tables.last() {
            Some(t) => events_in_segments(t.segments@),
            None => Seq::empty(),
        }
    }
}

/// The events of a schedule in the order they are folded: the saved overnight events,
/// then the events of its tables.
pub open spec fn schedule_events(s: EpgSchedule) -> Seq<EventView> {
    event_views(s.overnight_events@) + events_in_tables(s.tables@)
}

/// `m` after folding every schedule of `schedules` in order.
pub open spec fn fold_schedules(m: Map<u64, ProgramView>, schedules: Seq<EpgSchedule>) -> Map<
    u64,
    ProgramView,
>
    decreases schedules.len(),
{
    if schedules.len() == 0 {
        m
    } else {
        let s = schedules.last();
        let id = EpgScheduleId(s.service@.key());
        fold_events(
            fold_schedules(m, schedules.drop_last()),
            schedule_events(s),
            id.spec_sid(),
            id.spec_nid(),
        )
    }
}

/// Folds `event` of service (`sid`, `nid`) into `programs`.
fn fold_event_into(programs: &mut HashMap<u64, ProgramModel>, event: &EitEvent, sid: u16, nid: u16)
    ensures
        program_views(final(programs)@) == fold_event(program_views(old(programs)@), event@, sid, nid),
{
    let id = make_program_id(event.event_id, sid, nid);
    let mut p = match programs.remove(&id) {
        Some(p) => p,
        None => ProgramModel::new(event.event_id, sid, nid),
    };
    p.update(event);
    programs.insert(id, p);
    assert(program_views(programs@) =~= fold_event(program_views(old(programs)@), event@, sid, nid));
}

/// Folds `events` of service (`sid`, `nid`) into `programs`, in order.
fn fold_events_into(programs: &mut HashMap<u64, ProgramModel>, events: &Vec<EitEvent>, sid: u16, nid: u16)
    ensures
        program_views(final(programs)@) == fold_events(
            program_views(old(programs)@),
            event_views(events@),
            sid,
            nid,
        ),
{
    let mut i: usize = 0;
    while i < events.len()
        invariant
            i <= events@.len(),
            program_views(programs@) == fold_events(
                program_views(old(programs)@),
                event_views(events@.subrange(0, i as int)),
                sid,
                nid,
            ),
        decreases events@.len() - i,
    {
        fold_event_into(programs, &events[i], sid, nid);
        assert(event_views(events@.subrange(0, i + 1)).drop_last() =~= event_views(
            events@.subrange(0, i as int),
        ));
        i = i + 1;
    }
    assert(events@.subrange(0, events@.len() as int) =~= events@);
}

impl EpgSection {
    /// Folds this section's events, in order, into `programs`.
    pub fn collect_epg_programs(
        &self,
        sched_id: EpgScheduleId,
        programs: &mut HashMap<u64, ProgramModel>,
    )
        ensures
            program_views(final(programs)@) == fold_events(
                program_views(old(programs)@),
                event_views(self.events@),
                sched_id.spec_sid(),
                sched_id.spec_nid(),
            ),
    {
        fold_events_into(programs, &self.events, sched_id.sid(), sched_id.nid());
    }
}

impl EpgSegment {
    /// Folds the events of this segment's sections, in slot order, into `programs`.
    pub fn collect_epg_programs(
        &self,
        sched_id: EpgScheduleId,
        programs: &mut HashMap<u64, ProgramModel>,
    )
        ensures
            program_views(final(programs)@) == fold_events(
                program_views(old(programs)@),
                events_in_slots(self.sections@),
                sched_id.spec_sid(),
                sched_id.spec_nid(),
            ),
    {
        let ghost m0 = program_views(old(programs)@);
        let ghost sid = sched_id.spec_sid();
        let ghost nid = sched_id.spec_nid();
        let mut i: usize = 0;
        while i < NUM_SECTIONS
            invariant
                i <= NUM_SECTIONS,
                self.sections@.len() == NUM_SECTIONS,
                m0 == program_views(old(programs)@),
                sid == sched_id.spec_sid(),
                nid == sched_id.spec_nid(),
                program_views(programs@) == fold_events(
                    m0,
                    events_in_slots(self.sections@.subrange(0, i as int)),
                    sid,
                    nid,
                ),
            decreases NUM_SECTIONS - i,
        {
            let ghost before = events_in_slots(self.sections@.subrange(0, i as int));
            assert(self.sections@.subrange(0, i + 1).drop_last() =~= self.sections@.subrange(0, i as int));
            match &self.sections[i] {
                Some(sec) => {
                    sec.collect_epg_programs(sched_id, programs);
                    proof {
                        lemma_fold_append(m0, before, event_views(sec.events@), sid, nid);
                    }
                },
                None => {
                    assert(events_in_slots(self.sections@.subrange(0, i + 1)) =~= before);
                },
            }
            i = i + 1;
        }
        assert(self.sections@.subrange(0, NUM_SECTIONS as int) =~= self.sections@);
    }
}

impl EpgTable {
    /// Folds the events of this table, in segment and slot order, into `programs`.
    pub fn collect_epg_programs(
        &self,
        sched_id: EpgScheduleId,
        programs: &mut HashMap<u64, ProgramModel>,
    )
        ensures
            program_views(final(programs)@) == fold_events(
                program_views(old(programs)@),
                events_in_segments(self.segments@),
                sched_id.spec_sid(),
                sched_id.spec_nid(),
            ),
    {
        let ghost m0 = program_views(old(programs)@);
        let ghost sid = sched_id.spec_sid();
        let ghost nid = sched_id.spec_nid();
        let mut i: usize = 0;
        while i < NUM_SEGMENTS
            invariant
                i <= NUM_SEGMENTS,
                self.segments@.len() == NUM_SEGMENTS,
                m0 == program_views(old(programs)@),
                sid == sched_id.spec_sid(),
                nid == sched_id.spec_nid(),
                program_views(programs@) == fold_events(
                    m0,
                    events_in_segments(self.segments@.subrange(0, i as int)),
                    sid,
                    nid,
                ),
            decreases NUM_SEGMENTS - i,
        {
            let ghost before = events_in_segments(self.segments@.subrange(0, i as int));
            assert(self.segments@.subrange(0, i + 1).drop_last() =~= self.segments@.subrange(0, i as int));
            self.segments[i].collect_epg_programs(sched_id, programs);
            proof {
                lemma_fold_append(m0, before, events_in_slots(self.segments@[i as int].sections@), sid, nid);
            }
            i = i + 1;
        }
        assert(self.segments@.subrange(0, NUM_SEGMENTS as int) =~= self.segments@);
    }
}

impl EpgSchedule {
    /// Folds this schedule's events into `programs`: first the saved overnight events, so
    /// that events of the tables with the same id supersede them, then the tables in order.
    pub fn collect_epg_programs(
        &self,
        sched_id: EpgScheduleId,
        programs: &mut HashMap<u64, ProgramModel>,
    )
        ensures
            program_views(final(programs)@) == fold_events(
                program_views(old(programs)@),
                schedule_events(*self),
                sched_id.spec_sid(),
                sched_id.spec_nid(),
            ),
    {
        let ghost m0 = program_views(old(programs)@);
        let ghost sid = sched_id.spec_sid();
        let ghost nid = sched_id.spec_nid();
        fold_events_into(programs, &self.overnight_events, sched_id.sid(), sched_id.nid());
        let ghost m1 = program_views(programs@);
        let mut i: usize = 0;
        while i < NUM_TABLES
            invariant
                i <= NUM_TABLES,
                self.tables@.len() == NUM_TABLES,
                sid == sched_id.spec_sid(),
                nid == sched_id.spec_nid(),
                m1 == fold_events(m0, event_views(self.overnight_events@), sid, nid),
                program_views(programs@) == fold_events(
                    m1,
                    events_in_tables(self.tables@.subrange(0, i as int)),
                    sid,
                    nid,
                ),
            decreases NUM_TABLES - i,
        {
            let ghost before = events_in_tables(self.tables@.subrange(0, i as int));
            assert(self.tables@.subrange(0, i + 1).drop_last() =~= self.tables@.subrange(0, i as int));
            match &self.tables[i] {
                Some(t) => {
                    t.collect_epg_programs(sched_id, programs);
                    proof {
                        lemma_fold_append(m1, before, events_in_segments(t.segments@), sid, nid);
                    }
                },
                None => {
                    assert(events_in_tables(self.tables@.subrange(0, i + 1)) =~= before);
                },
            }
            i = i + 1;
        }
        assert(self.tables@.subrange(0, NUM_TABLES as int) =~= self.tables@);
        proof {
            lemma_fold_append(m0, event_views(self.overnight_events@), events_in_tables(self.tables@), sid, nid);
        }
    }

    /// Appends the published form of this schedule's service to `services`.
    pub fn collect_epg_service(&self, services: &mut Vec<ServiceModel>)
        ensures
            final(services)@.len() == old(services)@.len() + 1,
            final(services)@.subrange(0, old(services)@.len() as int) == old(services)@,
            models_service(final(services)@.last(), self.service),
    {
        services.push(self.service.to_model());
        assert(services@.subrange(0, old(services)@.len() as int) =~= old(services)@);
    }
}

impl ScheduleIndex {
    /// The program map of all schedules: each schedule folded in index order.
    pub fn collect_epg_programs(&self) -> (r: HashMap<u64, ProgramModel>)
        ensures
            program_views(r@) == fold_schedules(Map::empty(), self.schedules@),
    {
        let mut programs: HashMap<u64, ProgramModel> = HashMap::new();
        assert(program_views(programs@) =~= Map::<u64, ProgramView>::empty());
        let mut i: usize = 0;
        while i < self.schedules.len()
            invariant
                i <= self.schedules@.len(),
                program_views(programs@) == fold_schedules(
                    Map::empty(),
                    self.schedules@.subrange(0, i as int),
                ),
            decreases self.schedules@.len() - i,
        {
            assert(self.schedules@.subrange(0, i + 1).drop_last() =~= self.schedules@.subrange(0, i as int));
            let sched = &self.schedules[i];
            let id = sched.service.schedule_id();
            sched.collect_epg_programs(id, &mut programs);
            i = i + 1;
        }
        assert(self.schedules@.subrange(0, self.schedules@.len() as int) =~= self.schedules@);
        programs
    }

    /// The published form of every schedule's service, in index order.
    pub fn collect_epg_services(&self) -> (r: Vec<ServiceModel>)
        ensures
            r@.len() == self.schedules@.len(),
            forall|i: int|
                0 <= i < r@.len() ==> models_service(#[trigger] r@[i], self.schedules@[i].service),
    {
        let mut services: Vec<ServiceModel> = Vec::new();
        let mut i: usize = 0;
        while i < self.schedules.len()
            invariant
                i <= self.schedules@.len(),
                services@.len() == i,
                forall|j: int|
                    0 <= j < i ==> models_service(#[trigger] services@[j], self.schedules@[j].service),
            decreases self.schedules@.len() - i,
        {
            let ghost prev = services@;
            self.schedules[i].collect_epg_service(&mut services);
            assert forall|j: int| 0 <= j < i implies #[trigger] services@[j] == prev[j] by {
                assert(services@.subrange(0, prev.len() as int)[j] == prev[j]);
            }
            assert(services@[i as int] == services@.last());
            i = i + 1;
        }
        services
    }
}

impl Epg {
    /// The published form of every scheduled service, in index order.
    pub fn collect_epg_services(&self) -> (r: Vec<ServiceModel>)
        ensures
            r@.len() == self.schedules.schedules@.len(),
            forall|i: int|
                0 <= i < r@.len() ==> models_service(
                    #[trigger] r@[i],
                    self.schedules.schedules@[i].service,
                ),
    {
        self.schedules.collect_epg_services()
    }

    /// The program map of all schedules, each folded in index order.
    pub fn collect_epg_programs(&self) -> (r: HashMap<u64, ProgramModel>)
        ensures
            program_views(r@) == fold_schedules(Map::empty(), self.schedules.schedules@),
    {
        self.schedules.collect_epg_programs()
    }
}

} // verus!
