use vstd::prelude::*;
use crate::eit::{EitSection, event_views, NUM_TABLES};
use crate::ids::{EpgScheduleId, service_key};
use crate::schedule::{EpgSchedule, overnight_in_tables, schedule_updated};
use crate::service::EpgService;
use crate::time::{day_start, today_midnight_wide};

verus! {

/// The packed identity of the service a schedule belongs to.
pub open spec fn schedule_key(s: EpgSchedule) -> u64 {
    s.service@.key()
}

/// The identities of the schedules in `s`.
pub open spec fn schedule_keys(s: Seq<EpgSchedule>) -> Set<u64> {
    Set::new(|k: u64| exists|i: int| 0 <= i < s.len() && schedule_key(#[trigger] s[i]) == k)
}

/// The identities of the services in `s`.
pub open spec fn service_keys(s: Seq<EpgService>) -> Set<u64> {
    Set::new(|k: u64| exists|i: int| 0 <= i < s.len() && (#[trigger] s[i])@.key() == k)
}

/// No two schedules of `s` belong to the same service.
pub open spec fn keys_unique(s: Seq<EpgSchedule>) -> bool {
    forall|i: int, j: int|
        0 <= i < s.len() && 0 <= j < s.len() && i != j ==> schedule_key(#[trigger] s[i])
            != schedule_key(#[trigger] s[j])
}

/// `new` is schedule `old` prepared for a pass at `now`: when `old` was last prepared
/// before the midnight that starts `now`'s day, the events across that midnight are saved;
/// either way it is marked as prepared at `now`.
pub open spec fn carried_over(new: EpgSchedule, old: EpgSchedule, now: int) -> bool {
    let midnight = day_start(now);
    &&& new.service == old.service
    &&& new.tables == old.tables
    &&& new.updated_at == now
    &&& event_views(new.overnight_events@) == if old.updated_at < midnight {
        overnight_in_tables(old.tables@, midnight)
    } else {
        event_views(old.overnight_events@)
    }
}

/// `services[j]` is the first service of `services` with identity `key`.
pub open spec fn first_with_key(services: Seq<EpgService>, j: int, key: u64) -> bool {
    &&& 0 <= j < services.len()
    &&& services[j]@.key() == key
    &&& forall|k: int| 0 <= k < j ==> (#[trigger] services[k])@.key() != key
}

/// `new` is a fresh schedule, made at `now`, of the first of `services` with its identity.
pub open spec fn fresh_for(new: EpgSchedule, services: Seq<EpgService>, now: int) -> bool {
    &&& forall|t: int| 0 <= t < NUM_TABLES ==> #[trigger] new.tables@[t] is None
    &&& new.overnight_events@.len() == 0
    &&& new.updated_at == now
    &&& exists|j: int|
        #[trigger] first_with_key(services, j, new.service@.key()) && services[j]@ == new.service@
}

/// `new` is the index `old` prepared for a pass at `now` over the discovered `services`:
/// exactly the discovered services have a schedule, those that had one keep it (carried
/// over) and the others get a fresh one.
pub open spec fn prepared(
    old: Seq<EpgSchedule>,
    new: Seq<EpgSchedule>,
    services: Seq<EpgService>,
    now: int,
) -> bool {
    &&& keys_unique(new)
    &&& schedule_keys(new) == service_keys(services)
    &&& forall|i: int, j: int|
        0 <= i < new.len() && 0 <= j < old.len() && schedule_key(#[trigger] new[i])
            == schedule_key(#[trigger] old[j]) ==> carried_over(new[i], old[j], now)
    &&& forall|i: int|
        0 <= i < new.len() && !schedule_keys(old).contains(schedule_key(#[trigger] new[i]))
            ==> fresh_for(new[i], services, now)
}

/// The schedules of all services of the last scan, one per service.
#[derive(Debug)]
pub struct ScheduleIndex {
    pub schedules: Vec<EpgSchedule>,
}

/// Whether some service of `services` has identity `key`.
fn services_contain(services: &[EpgService], key: EpgScheduleId) -> (r: bool)
    ensures
        r == service_keys(services@).contains(key.0),
{
    let mut i: usize = 0;
    while i < services.len()
        invariant
            i <= services@.len(),
            forall|j: int| 0 <= j < i ==> (#[trigger] services@[j])@.key() != key.0,
        decreases services@.len() - i,
    {
        if services[i].schedule_id().0 == key.0 {
            assert(services@[i as int]@.key() == key.0);
            return true;
        }
        i = i + 1;
    }
    false
}

/// The position in `schedules` of the schedule with identity `key`, if any.
fn find_schedule(schedules: &Vec<EpgSchedule>, key: EpgScheduleId) -> (r: Option<usize>)
    ensures
        match r {
            Some(i) => i < schedules@.len() && schedule_key(schedules@[i as int]) == key.0,
            None => !schedule_keys(schedules@).contains(key.0),
        },
{
    let mut i: usize = 0;
    while i < schedules.len()
        invariant
            i <= schedules@.len(),
            forall|j: int| 0 <= j < i ==> schedule_key(#[trigger] schedules@[j]) != key.0,
        decreases schedules@.len() - i,
    {
        if schedules[i].service.schedule_id().0 == key.0 {
            return Some(i);
        }
        i = i + 1;
    }
    None
}

impl ScheduleIndex {
    pub open spec fn well_formed(&self) -> bool {
        keys_unique(self.schedules@)
    }

    /// An index without schedules.
    pub fn new() -> (r: ScheduleIndex)
        ensures
            r.schedules@.len() == 0,
            r.well_formed(),
    {
        ScheduleIndex { schedules: Vec::new() }
    }

    /// Prepares the index for a pass at `timestamp` over the discovered `services`:
    /// schedules of services not discovered are removed; each discovered service that
    /// already has a schedule keeps it, first saving the events across today's midnight
    /// when the schedule was last prepared before that midnight, and is marked as prepared
    /// at `timestamp`; each other discovered service gets a fresh schedule.
    pub fn prepare_schedules(&mut self, services: &[EpgService], timestamp: i64)
        requires
            old(self).well_formed(),
        ensures
            final(self).well_formed(),
            prepared(old(self).schedules@, final(self).schedules@, services@, timestamp as int),
    {
        let midnight = today_midnight_wide(timestamp);
        let ghost old_s = self.schedules@;
        let mut rest: Vec<EpgSchedule> = Vec::new();
        std::mem::swap(&mut rest, &mut self.schedules);
        let mut kept: Vec<EpgSchedule> = Vec::new();
        let ghost mut src: Seq<int> = Seq::empty();
        while rest.len() > 0
            invariant
                rest@.len() <= old_s.len(),
                rest@ == old_s.subrange(0, rest@.len() as int),
                keys_unique(old_s),
                midnight == day_start(timestamp as int),
                src.len() == kept@.len(),
                forall|i: int|
                    0 <= i < kept@.len() ==> rest@.len() <= #[trigger] src[i] < old_s.len()
                        && schedule_key(kept@[i]) == schedule_key(old_s[src[i]]) && carried_over(
                        kept@[i],
                        old_s[src[i]],
                        timestamp as int,
                    ) && service_keys(services@).contains(schedule_key(kept@[i])),
                keys_unique(kept@),
                forall|j: int|
                    rest@.len() <= j < old_s.len() && service_keys(services@).contains(
                        schedule_key(#[trigger] old_s[j]),
                    ) ==> schedule_keys(kept@).contains(schedule_key(old_s[j])),
            decreases rest@.len(),
        {
            let ghost n = rest@.len() - 1;
            let ghost prev = kept@;
            let mut s = rest.pop().unwrap();
            assert(s == old_s[n]);
            if services_contain(services, s.service.schedule_id()) {
                if (s.updated_at as i128) < midnight {
                    s.save_overnight_events(midnight as i64);
                }
                s.updated_at = timestamp;
                assert forall|i: int| 0 <= i < prev.len() implies schedule_key(#[trigger] prev[i]) != schedule_key(s) by {
                    assert(src[i] != n);
                }
                kept.push(s);
                proof {
                    src = src.push(n);
                    assert(kept@[prev.len() as int] == s);
                }
                assert forall|j: int|
                    rest@.len() <= j < old_s.len() && service_keys(services@).contains(
                        schedule_key(#[trigger] old_s[j]),
                    ) implies schedule_keys(kept@).contains(schedule_key(old_s[j])) by {
                    if j == n {
                        assert(schedule_key(kept@[prev.len() as int]) == schedule_key(old_s[j]));
                    } else {
                        assert(schedule_keys(prev).contains(schedule_key(old_s[j])));
                        let w = choose|w: int| 0 <= w < prev.len() && schedule_key(#[trigger] prev[w]) == schedule_key(old_s[j]);
                        assert(kept@[w] == prev[w]);
                    }
                }
            }
        }
        let ghost kept1 = kept@;
        assert forall|i: int| 0 <= i < kept@.len() implies service_keys(services@).contains(
            schedule_key(#[trigger] kept@[i]),
        ) by {
            assert(0 <= src[i]);
        }
        let mut idx: usize = 0;
        while idx < services.len()
            invariant
                idx <= services@.len(),
                keys_unique(old_s),
                kept1.len() <= kept@.len(),
                forall|i: int| 0 <= i < kept1.len() ==> #[trigger] kept@[i] == kept1[i],
                src.len() == kept1.len(),
                forall|i: int|
                    0 <= i < kept1.len() ==> 0 <= #[trigger] src[i] < old_s.len()
                        && schedule_key(kept1[i]) == schedule_key(old_s[src[i]]) && carried_over(
                        kept1[i],
                        old_s[src[i]],
                        timestamp as int,
                    ),
                forall|j: int|
                    0 <= j < old_s.len() && service_keys(services@).contains(
                        schedule_key(#[trigger] old_s[j]),
                    ) ==> schedule_keys(kept1).contains(schedule_key(old_s[j])),
                keys_unique(kept@),
                forall|i: int|
                    0 <= i < kept@.len() ==> service_keys(services@).contains(
                        schedule_key(#[trigger] kept@[i]),
                    ),
                forall|i: int|
                    kept1.len() <= i < kept@.len() ==> fresh_for(
                        #[trigger] kept@[i],
                        services@,
                        timestamp as int,
                    ) && !schedule_keys(old_s).contains(schedule_key(kept@[i])),
                forall|j: int|
                    0 <= j < idx ==> schedule_keys(kept@).contains((#[trigger] services@[j])@.key()),
            decreases services@.len() - idx,
        {
            let id = services[idx].schedule_id();
            let ghost prev = kept@;
            match find_schedule(&kept, id) {
                Some(_) => {},
                None => {
                    let fresh = EpgSchedule::new(&services[idx], timestamp);
                    assert forall|k: int| 0 <= k < idx implies (#[trigger] services@[k])@.key()
                        != schedule_key(fresh) by {
                        if services@[k]@.key() == schedule_key(fresh) {
                            assert(schedule_keys(kept@).contains(services@[k]@.key()));
                        }
                    }
                    assert(first_with_key(services@, idx as int, schedule_key(fresh)));
                    assert(service_keys(services@).contains(schedule_key(fresh)));
                    proof {
                        if schedule_keys(old_s).contains(schedule_key(fresh)) {
                            let j = choose|j: int| 0 <= j < old_s.len() && schedule_key(#[trigger] old_s[j]) == schedule_key(fresh);
                            assert(schedule_keys(kept1).contains(schedule_key(old_s[j])));
                            let w = choose|w: int| 0 <= w < kept1.len() && schedule_key(#[trigger] kept1[w]) == schedule_key(old_s[j]);
                            assert(prev[w] == kept1[w]);
                        }
                    }
                    assert(fresh_for(fresh, services@, timestamp as int));
                    kept.push(fresh);
                    assert(kept@[prev.len() as int] == fresh);
                },
            }
            assert forall|j: int| 0 <= j < idx + 1 implies schedule_keys(kept@).contains((#[trigger] services@[j])@.key()) by {
                if j < idx {
                    assert(schedule_keys(prev).contains(services@[j]@.key()));
                    let w = choose|w: int| 0 <= w < prev.len() && schedule_key(#[trigger] prev[w]) == services@[j]@.key();
                    assert(kept@[w] == prev[w]);
                }
            }
            idx = idx + 1;
        }
        proof {
            let new_s = kept@;
            assert forall|k: u64| schedule_keys(new_s).contains(k) == service_keys(services@).contains(k) by {
                if schedule_keys(new_s).contains(k) {
                    let w = choose|w: int| 0 <= w < new_s.len() && schedule_key(#[trigger] new_s[w]) == k;
                }
                if service_keys(services@).contains(k) {
                    let w = choose|w: int| 0 <= w < services@.len() && (#[trigger] services@[w])@.key() == k;
                }
            }
            assert(schedule_keys(new_s) =~= service_keys(services@));
            assert forall|i: int, j: int|
                0 <= i < new_s.len() && 0 <= j < old_s.len() && schedule_key(#[trigger] new_s[i])
                    == schedule_key(#[trigger] old_s[j]) implies carried_over(new_s[i], old_s[j], timestamp as int) by {
                if i < kept1.len() {
                    assert(new_s[i] == kept1[i]);
                    assert(schedule_key(old_s[src[i]]) == schedule_key(old_s[j]));
                    assert(src[i] == j);
                } else {
                    assert(schedule_keys(old_s).contains(schedule_key(old_s[j])));
                }
            }
            assert forall|i: int|
                0 <= i < new_s.len() && !schedule_keys(old_s).contains(schedule_key(#[trigger] new_s[i]))
                    implies fresh_for(new_s[i], services@, timestamp as int) by {
                if i < kept1.len() {
                    assert(new_s[i] == kept1[i]);
                    assert(schedule_keys(old_s).contains(schedule_key(old_s[src[i]])));
                }
            }
        }
        self.schedules = kept;
    }

    /// Stores `section` in the schedule of the service it belongs to; a section of a
    /// service without a schedule is dropped.
    pub fn update_section(&mut self, section: EitSection)
        requires
            old(self).well_formed(),
        ensures
            final(self).well_formed(),
            final(self).schedules@.len() == old(self).schedules@.len(),
            forall|i: int|
                0 <= i < old(self).schedules@.len() ==> if schedule_key(
                    #[trigger] old(self).schedules@[i],
                ) == service_key(
                    section.original_network_id,
                    section.transport_stream_id,
                    section.service_id,
                ) {
                    schedule_updated(old(self).schedules@[i], final(self).schedules@[i], section)
                } else {
                    final(self).schedules@[i] == old(self).schedules@[i]
                },
    {
        let id = section.epg_schedule_id();
        match find_schedule(&self.schedules, id) {
            Some(i) => {
                let ghost before = self.schedules@;
                let mut s = self.schedules.remove(i);
                s.update(section);
                self.schedules.insert(i, s);
                assert forall|a: int| 0 <= a < before.len() && a != i implies schedule_key(
                    #[trigger] before[a],
                ) != schedule_key(before[i as int]) by {}
                assert(self.schedules@ =~= before.update(i as int, s));
            },
            None => {},
        }
    }

    /// Number of schedules.
    pub fn len(&self) -> (r: usize)
        ensures
            r == self.schedules@.len(),
    {
        self.schedules.len()
    }

    /// The schedule of the service with identity `key`, if any.
    pub fn get(&self, key: EpgScheduleId) -> (r: Option<&EpgSchedule>)
        ensures
            match r {
                Some(s) => self.schedules@.contains(*s) && schedule_key(*s) == key.0,
                None => !schedule_keys(self.schedules@).contains(key.0),
            },
    {
        match find_schedule(&self.schedules, key) {
            Some(i) => Some(&self.schedules[i]),
            None => None,
        }
    }
}

} // verus!

verus! {

/// After preparing, the index holds a schedule for exactly the discovered services.
pub proof fn lemma_reap_completeness(
    old: Seq<EpgSchedule>,
    new: Seq<EpgSchedule>,
    services: Seq<EpgService>,
    now: int,
)
    requires
        prepared(old, new, services, now),
    ensures
        schedule_keys(new) == service_keys(services),
{
}

/// Preparing an empty index gives schedules without saved overnight events.
pub proof fn lemma_first_pass_no_overnight(
    old: Seq<EpgSchedule>,
    new: Seq<EpgSchedule>,
    services: Seq<EpgService>,
    now: int,
)
    requires
        old.len() == 0,
        prepared(old, new, services, now),
    ensures
        forall|i: int| 0 <= i < new.len() ==> (#[trigger] new[i]).overnight_events@.len() == 0,
{
    assert forall|i: int| 0 <= i < new.len() implies (#[trigger] new[i]).overnight_events@.len() == 0 by {
        assert(!schedule_keys(old).contains(schedule_key(new[i])));
    }
}

} // verus!
