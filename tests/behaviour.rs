use std::collections::HashMap;

use chrono::{FixedOffset, TimeZone};
use epg_schedule::coordinator::{
    append_scanned_services, command_from_rendering, EXCLUDED_SERVICES_VAR,
    collect_eits_time_limit, scan_services_time_limit, services_from_scan, ChannelConfig, Epg, EpgError, PassPlan,
};
use epg_schedule::eit::{EitDescriptor, EitEvent, EitSection};
use epg_schedule::ids::EpgScheduleId;
use epg_schedule::index::ScheduleIndex;
use epg_schedule::models::{make_program_id, make_service_id, EpgGenre, ProgramModel};
use epg_schedule::schedule::EpgSchedule;
use epg_schedule::segment::EpgSegment;
use epg_schedule::service::{ChannelType, EpgChannel, EpgService, TsService};
use epg_schedule::time::{next_midnight, today_midnight};

const MINUTE: i64 = 60_000;
const HOUR: i64 = 3_600_000;

fn jst(y: i32, m: u32, d: u32, hh: u32, mm: u32, ss: u32) -> i64 {
    FixedOffset::east_opt(9 * 3600)
        .unwrap()
        .with_ymd_and_hms(y, m, d, hh, mm, ss)
        .unwrap()
        .timestamp_millis()
}

fn channel(excluded: Vec<u16>) -> EpgChannel {
    EpgChannel {
        name: "Ch".to_string(),
        channel_type: ChannelType::GR,
        channel: "ch".to_string(),
        excluded_services: excluded,
    }
}

fn service(nid: u16, tsid: u16, sid: u16, excluded: Vec<u16>) -> EpgService {
    EpgService {
        nid,
        tsid,
        sid,
        service_type: 1,
        logo_id: 0,
        remote_control_key_id: 0,
        name: "Service".to_string(),
        channel: channel(excluded),
    }
}

fn event(id: u16, start: i64, duration: i64) -> EitEvent {
    EitEvent { event_id: id, start_time: start, duration, scrambled: false, descriptors: Vec::new() }
}

fn section(table_id: u16, number: u8, last: u8, events: Vec<EitEvent>) -> EitSection {
    EitSection {
        original_network_id: 1,
        transport_stream_id: 2,
        service_id: 3,
        table_id,
        section_number: number,
        last_section_number: 0xF8,
        segment_last_section_number: last,
        version_number: 1,
        events,
    }
}

fn empty_epg() -> Epg {
    Epg::new(String::new(), String::new(), String::new(), &Vec::new())
}

#[test]
fn overnight_straddle_is_saved() {
    let sv = service(1, 2, 3, Vec::new());
    let mut sched = EpgSchedule::new(&sv, jst(2019, 10, 13, 0, 0, 0));
    sched.update(section(0x50, 7 * 8 + 1, 7 * 8 + 1, vec![event(2, jst(2019, 10, 13, 23, 30, 0), HOUR)]));
    assert!(sched.tables[0].as_ref().unwrap().segments[7].sections[1].is_some());
    sched.save_overnight_events(jst(2019, 10, 14, 0, 0, 0));
    assert_eq!(sched.overnight_events.len(), 1);
    assert_eq!(sched.overnight_events[0].event_id, 2);
}

#[test]
fn non_straddle_is_not_saved() {
    let sv = service(1, 2, 3, Vec::new());
    let mut sched = EpgSchedule::new(&sv, jst(2019, 10, 13, 0, 0, 0));
    sched.update(section(0x50, 7 * 8 + 1, 7 * 8 + 1, vec![event(1, jst(2019, 10, 13, 23, 0, 0), 30 * MINUTE)]));
    sched.save_overnight_events(jst(2019, 10, 14, 0, 0, 0));
    assert_eq!(sched.overnight_events.len(), 0);
}

#[test]
fn truncation_clears_later_slots() {
    let mut segment = EpgSegment::new();
    segment.update(section(0x50, 1, 1, Vec::new()));
    segment.update(section(0x50, 0, 0, Vec::new()));
    assert!(segment.sections[0].is_some());
    assert!(segment.sections[1].is_none());
}

#[test]
fn truncation_keeps_slot_past_last_section() {
    let mut segment = EpgSegment::new();
    segment.update(section(0x50, 0, 2, Vec::new()));
    segment.update(section(0x50, 1, 2, Vec::new()));
    segment.update(section(0x50, 3, 0, Vec::new()));
    assert!(segment.sections[0].is_some());
    assert!(segment.sections[1].is_none());
    assert!(segment.sections[2].is_none());
    assert!(segment.sections[3].is_some());
}

#[test]
fn is_overnight_boundary() {
    let e = event(0, jst(2019, 10, 13, 23, 59, 59), 2_000);
    assert!(e.is_overnight_event(jst(2019, 10, 14, 0, 0, 0)));
    assert!(!e.is_overnight_event(jst(2019, 10, 13, 0, 0, 0)));
    assert!(!e.is_overnight_event(jst(2019, 10, 15, 0, 0, 0)));
    let e = event(0, jst(2019, 10, 13, 23, 59, 59), 1_000);
    assert!(!e.is_overnight_event(jst(2019, 10, 14, 0, 0, 0)));
    assert_eq!(e.end_time(), jst(2019, 10, 14, 0, 0, 0) as i128);
}

#[test]
fn daily_guard_postpones_past_midnight() {
    let mut epg = empty_epg();
    epg.max_elapsed = Some(50 * MINUTE);
    let now = jst(2019, 10, 13, 23, 30, 0);
    match epg.plan_pass(now) {
        PassPlan::Postpone(delay) => assert_eq!(now + delay, jst(2019, 10, 14, 0, 0, 10)),
        PassPlan::Run => panic!("the pass should be postponed"),
    }
}

#[test]
fn daily_guard_runs_with_enough_time() {
    let mut epg = empty_epg();
    assert_eq!(epg.plan_pass(jst(2019, 10, 13, 22, 59, 0)), PassPlan::Run);
    assert_eq!(
        epg.plan_pass(jst(2019, 10, 13, 23, 0, 1)),
        PassPlan::Postpone(jst(2019, 10, 14, 0, 0, 10) - jst(2019, 10, 13, 23, 0, 1))
    );
    epg.max_elapsed = Some(10 * MINUTE);
    assert_eq!(epg.plan_pass(jst(2019, 10, 13, 23, 30, 0)), PassPlan::Run);
    assert_eq!(epg.estimate_time(), (10 * MINUTE + 30_000) as i128);
}

#[test]
fn estimate_defaults_to_one_hour() {
    let epg = empty_epg();
    assert_eq!(epg.estimate_time(), HOUR as i128);
}

#[test]
fn finish_pass_backoff_and_max_elapsed() {
    let mut epg = empty_epg();
    assert_eq!(epg.finish_pass(false, 5 * MINUTE), 5 * MINUTE);
    assert_eq!(epg.max_elapsed, None);
    assert_eq!(epg.finish_pass(true, 20 * MINUTE), 15 * MINUTE);
    assert_eq!(epg.max_elapsed, Some(20 * MINUTE));
    epg.finish_pass(true, 10 * MINUTE);
    assert_eq!(epg.max_elapsed, Some(20 * MINUTE));
    epg.update_max_elapsed(30 * MINUTE);
    assert_eq!(epg.max_elapsed, Some(30 * MINUTE));
}

#[test]
fn midnights_in_jst() {
    let t = jst(2019, 10, 13, 23, 30, 0);
    assert_eq!(today_midnight(t), jst(2019, 10, 13, 0, 0, 0));
    assert_eq!(next_midnight(t), jst(2019, 10, 14, 0, 0, 0));
    let m = jst(2019, 10, 14, 0, 0, 0);
    assert_eq!(today_midnight(m), m);
    assert_eq!(today_midnight(jst(1969, 12, 31, 8, 0, 0)), jst(1969, 12, 31, 0, 0, 0));
}

#[test]
fn time_limits_per_channel_type() {
    assert_eq!(scan_services_time_limit(ChannelType::GR), 10_000);
    assert_eq!(scan_services_time_limit(ChannelType::BS), 20_000);
    assert_eq!(scan_services_time_limit(ChannelType::CS), 30 * MINUTE);
    assert_eq!(collect_eits_time_limit(ChannelType::GR), 70_000);
    assert_eq!(collect_eits_time_limit(ChannelType::BS), 390_000);
    assert_eq!(collect_eits_time_limit(ChannelType::SKY), 10 * MINUTE);
}

#[test]
fn section_index_math() {
    let s = section(0x58, 0x39, 0x3A, Vec::new());
    assert_eq!(s.table_index(), 8);
    assert_eq!(s.segment_index(), 7);
    assert_eq!(s.section_index(), 1);
    assert_eq!(s.last_section_index(), 2);
    assert!(s.is_in_profile());
    assert!(!section(0x4F, 0, 0, Vec::new()).is_in_profile());
    assert!(!section(0x70, 0, 0, Vec::new()).is_in_profile());
    assert_eq!(s.epg_schedule_id(), EpgScheduleId::from_triple(1, 2, 3));
}

#[test]
fn schedule_id_packing() {
    let id = EpgScheduleId::from_triple(0x1234, 0x5678, 0x9ABC);
    assert_eq!(id.0, 0x1234_5678_9ABC);
    assert_eq!(id.nid(), 0x1234);
    assert_eq!(id.tsid(), 0x5678);
    assert_eq!(id.sid(), 0x9ABC);
}

#[test]
fn out_of_profile_section_is_ignored() {
    let sv = service(1, 2, 3, Vec::new());
    let mut sched = EpgSchedule::new(&sv, 0);
    sched.update(section(0x70, 0, 0, Vec::new()));
    sched.update(section(0x4E, 0, 0, Vec::new()));
    assert!(sched.tables.iter().all(|t| t.is_none()));
    sched.update(section(0x6F, 0, 0, Vec::new()));
    assert!(sched.tables[31].is_some());
}

#[test]
fn reaping_keeps_exactly_the_scanned_services() {
    let mut index = ScheduleIndex::new();
    let a = service(1, 2, 3, Vec::new());
    let b = service(1, 2, 4, Vec::new());
    let c = service(5, 6, 7, Vec::new());
    index.prepare_schedules(&[a.clone(), b.clone()], jst(2019, 10, 13, 12, 0, 0));
    assert_eq!(index.len(), 2);
    index.prepare_schedules(&[b.clone(), c.clone(), c.clone()], jst(2019, 10, 13, 13, 0, 0));
    assert_eq!(index.len(), 2);
    assert!(index.get(a.schedule_id()).is_none());
    assert!(index.get(b.schedule_id()).is_some());
    assert!(index.get(c.schedule_id()).is_some());
    assert_eq!(index.get(b.schedule_id()).unwrap().updated_at, jst(2019, 10, 13, 13, 0, 0));
    index.prepare_schedules(&[], jst(2019, 10, 13, 14, 0, 0));
    assert_eq!(index.len(), 0);
}

#[test]
fn first_pass_has_no_overnight_events() {
    let mut index = ScheduleIndex::new();
    index.prepare_schedules(&[service(1, 2, 3, Vec::new())], jst(2019, 10, 14, 0, 0, 0));
    let s = index.get(EpgScheduleId::from_triple(1, 2, 3)).unwrap();
    assert_eq!(s.overnight_events.len(), 0);
    assert!(s.tables.iter().all(|t| t.is_none()));
}

#[test]
fn sections_route_to_known_schedules_only() {
    let mut index = ScheduleIndex::new();
    index.prepare_schedules(&[service(1, 2, 3, Vec::new())], 0);
    let mut other = section(0x50, 0, 0, Vec::new());
    other.service_id = 9;
    index.update_section(other);
    assert!(index.get(EpgScheduleId::from_triple(1, 2, 3)).unwrap().tables[0].is_none());
    index.update_section(section(0x51, 0, 0, Vec::new()));
    assert!(index.get(EpgScheduleId::from_triple(1, 2, 3)).unwrap().tables[1].is_some());
    assert_eq!(index.len(), 1);
}

#[test]
fn networks_merge_excluded_services() {
    let services = vec![
        service(1, 2, 3, vec![10]),
        service(4, 5, 6, vec![20]),
        service(1, 2, 7, vec![11, 12]),
    ];
    let groups = empty_epg().collect_channels_for_collecting_programs(&services);
    assert_eq!(groups.len(), 2);
    assert_eq!(groups[0].0, 1);
    assert_eq!(groups[0].1.excluded_services, vec![10, 11, 12]);
    assert_eq!(groups[1].0, 4);
    assert_eq!(groups[1].1.excluded_services, vec![20]);
}

#[test]
fn update_schedules_prepares_and_groups() {
    let mut epg = empty_epg();
    let services = vec![service(1, 2, 3, vec![10]), service(1, 2, 4, vec![11])];
    let groups = epg.update_schedules(&services, jst(2019, 10, 13, 12, 0, 0));
    assert_eq!(groups.len(), 1);
    assert_eq!(groups[0].1.excluded_services, vec![10, 11]);
    assert_eq!(epg.schedules.len(), 2);
}

#[test]
fn disabled_channels_are_skipped() {
    let configs = vec![
        ChannelConfig {
            name: "A".to_string(),
            channel_type: ChannelType::GR,
            channel: "27".to_string(),
            disabled: false,
            excluded_services: vec![1],
        },
        ChannelConfig {
            name: "B".to_string(),
            channel_type: ChannelType::BS,
            channel: "BS1".to_string(),
            disabled: true,
            excluded_services: Vec::new(),
        },
    ];
    let epg = Epg::new(String::new(), String::new(), String::new(), &configs);
    let channels = epg.collect_channels_for_scanning_services();
    assert_eq!(channels.len(), 1);
    assert_eq!(channels[0].name, "A");
    assert_eq!(channels[0].excluded_services, vec![1]);
}

#[test]
fn scanned_services_carry_their_channel() {
    let ch = channel(vec![5]);
    let found = vec![TsService {
        nid: 1,
        tsid: 2,
        sid: 3,
        service_type: 1,
        logo_id: -1,
        remote_control_key_id: 4,
        name: "NHK".to_string(),
    }];
    let services = services_from_scan(&ch, &found);
    assert_eq!(services.len(), 1);
    assert_eq!(services[0].sid, 3);
    assert_eq!(services[0].logo_id, -1);
    assert_eq!(services[0].name, "NHK");
    assert_eq!(services[0].channel.excluded_services, vec![5]);
}

fn render(template: &str, ids: &Vec<u16>) -> Option<String> {
    let compiled = mustache::compile_str(template).ok()?;
    let data = mustache::MapBuilder::new().insert(EXCLUDED_SERVICES_VAR, ids).ok()?.build();
    compiled.render_data_to_string(&data).ok()
}

#[test]
fn command_template_renders_excluded_services() {
    let ch = channel(vec![1, 2]);
    let cmd = command_from_rendering(render("collect {{#xsids}}{{.}},{{/xsids}}", &ch.excluded_services));
    assert_eq!(cmd.unwrap(), "collect 1,2,");
    assert_eq!(command_from_rendering(render("scan", &ch.excluded_services)).unwrap(), "scan");
    assert_eq!(
        command_from_rendering(render("{{#xsids}}", &ch.excluded_services)),
        Err(EpgError::InvalidTemplate)
    );
}

#[test]
fn scan_results_accumulate_in_order() {
    let found = vec![TsService {
        nid: 1,
        tsid: 2,
        sid: 3,
        service_type: 1,
        logo_id: 0,
        remote_control_key_id: 0,
        name: "A".to_string(),
    }];
    let mut services = Vec::new();
    append_scanned_services(&mut services, &channel(vec![7]), Some(found.clone()));
    append_scanned_services(&mut services, &channel(vec![8]), None);
    let mut second = found.clone();
    second[0].sid = 4;
    append_scanned_services(&mut services, &channel(vec![9]), Some(second));
    assert_eq!(services.len(), 2);
    assert_eq!(services[0].sid, 3);
    assert_eq!(services[0].channel.excluded_services, vec![7]);
    assert_eq!(services[1].sid, 4);
    assert_eq!(services[1].channel.excluded_services, vec![9]);
}

#[test]
fn program_update_from_descriptors() {
    let mut p = ProgramModel::new(7, 3, 1);
    assert_eq!(p.id, make_program_id(7, 3, 1));
    let e = EitEvent {
        event_id: 7,
        start_time: 1_000,
        duration: 2_000,
        scrambled: true,
        descriptors: vec![
            EitDescriptor::ShortEvent { event_name: "News".to_string(), text: "Today".to_string() },
            EitDescriptor::Component { stream_content: 1, component_type: 0xB3 },
            EitDescriptor::AudioComponent { component_type: 3, sampling_rate: 7 },
            EitDescriptor::Content { nibbles: vec![(0, 1, 15, 15)] },
            EitDescriptor::ExtendedEvent {
                items: vec![
                    ("cast".to_string(), "A".to_string()),
                    ("story".to_string(), "B".to_string()),
                    ("cast".to_string(), "C".to_string()),
                ],
            },
        ],
    };
    p.update(&e);
    assert_eq!(p.start_at, 1_000);
    assert_eq!(p.duration, 2_000);
    assert!(!p.is_free);
    assert_eq!(p.name.as_deref(), Some("News"));
    assert_eq!(p.description.as_deref(), Some("Today"));
    assert_eq!(p.video.unwrap().component_type, 0xB3);
    assert_eq!(p.audio.unwrap().sampling_rate, 7);
    assert_eq!(p.genres.as_ref().unwrap(), &vec![EpgGenre { lv1: 0, lv2: 1, un1: 15, un2: 15 }]);
    let ext: Vec<(String, String)> =
        p.extended.as_ref().unwrap().iter().map(|(k, v)| (k.clone(), v.clone())).collect();
    assert_eq!(ext, vec![("cast".to_string(), "C".to_string()), ("story".to_string(), "B".to_string())]);

    let plain = event(7, 5_000, 1_000);
    p.update(&plain);
    assert!(p.is_free);
    assert_eq!(p.start_at, 5_000);
    assert_eq!(p.name.as_deref(), Some("News"));
}

#[test]
fn ids_of_published_models() {
    assert_eq!(make_service_id(1024, 32736), 3_273_601_024);
    assert_eq!(make_program_id(5, 1024, 32736), 327_360_102_400_005);
    let m = service(32736, 1, 1024, Vec::new()).to_model();
    assert_eq!(m.id, 3_273_601_024);
    assert!(!m.has_logo_data);
}

#[test]
fn flattening_lets_sections_supersede_overnight_events() {
    let mut index = ScheduleIndex::new();
    let sv = service(1, 2, 3, Vec::new());
    index.prepare_schedules(&[sv.clone()], jst(2019, 10, 13, 12, 0, 0));
    index.update_section(section(0x50, 7 * 8 + 1, 7 * 8 + 1, vec![event(2, jst(2019, 10, 13, 23, 30, 0), HOUR)]));
    index.prepare_schedules(&[sv.clone()], jst(2019, 10, 14, 1, 0, 0));
    assert_eq!(index.get(sv.schedule_id()).unwrap().overnight_events.len(), 1);
    index.update_section(section(0x50, 7 * 8 + 1, 7 * 8 + 1, vec![event(9, jst(2019, 10, 14, 23, 0, 0), HOUR)]));
    index.update_section(section(0x50, 0, 0, vec![event(2, jst(2019, 10, 13, 23, 30, 0), 2 * HOUR)]));

    let programs: HashMap<u64, ProgramModel> = index.collect_epg_programs();
    let mut epg = empty_epg();
    epg.schedules = index;
    assert_eq!(epg.collect_epg_programs().len(), 2);
    let index = epg.schedules;
    assert_eq!(programs.len(), 2);
    let p2 = &programs[&make_program_id(2, 3, 1)];
    assert_eq!(p2.duration, 2 * HOUR);
    assert!(programs.contains_key(&make_program_id(9, 3, 1)));

    let services = index.collect_epg_services();
    assert_eq!(services.len(), 1);
    assert_eq!(services[0].id, make_service_id(3, 1));
}

#[test]
fn saved_overnight_events_keep_descriptors_and_order() {
    let sv = service(1, 2, 3, Vec::new());
    let mut sched = EpgSchedule::new(&sv, 0);
    let mut late = event(5, jst(2019, 10, 13, 23, 50, 0), HOUR);
    late.descriptors = vec![
        EitDescriptor::ShortEvent { event_name: "Movie".to_string(), text: "Late".to_string() },
        EitDescriptor::ExtendedEvent { items: vec![("k".to_string(), "v".to_string())] },
    ];
    sched.update(section(0x58, 7 * 8, 7 * 8, vec![late]));
    sched.update(section(0x50, 7 * 8 + 1, 7 * 8 + 1, vec![event(4, jst(2019, 10, 13, 23, 40, 0), HOUR)]));
    sched.save_overnight_events(jst(2019, 10, 14, 0, 0, 0));
    let ids: Vec<u16> = sched.overnight_events.iter().map(|e| e.event_id).collect();
    assert_eq!(ids, vec![4, 5]);
    match &sched.overnight_events[1].descriptors[0] {
        EitDescriptor::ShortEvent { event_name, .. } => assert_eq!(event_name, "Movie"),
        _ => panic!("descriptor kind changed"),
    }
    match &sched.overnight_events[1].descriptors[1] {
        EitDescriptor::ExtendedEvent { items } => assert_eq!(items, &vec![("k".to_string(), "v".to_string())]),
        _ => panic!("descriptor kind changed"),
    }
}

#[test]
fn prepare_saves_only_when_last_prepared_before_midnight() {
    let sv = service(1, 2, 3, Vec::new());
    let mut index = ScheduleIndex::new();
    index.prepare_schedules(&[sv.clone()], jst(2019, 10, 13, 12, 0, 0));
    index.update_section(section(0x50, 7 * 8 + 1, 7 * 8 + 1, vec![event(2, jst(2019, 10, 13, 23, 30, 0), HOUR)]));
    index.prepare_schedules(&[sv.clone()], jst(2019, 10, 13, 18, 0, 0));
    assert_eq!(index.get(sv.schedule_id()).unwrap().overnight_events.len(), 0);
    index.prepare_schedules(&[sv.clone()], jst(2019, 10, 14, 0, 30, 0));
    assert_eq!(index.get(sv.schedule_id()).unwrap().overnight_events.len(), 1);
    index.prepare_schedules(&[sv.clone()], jst(2019, 10, 14, 6, 0, 0));
    assert_eq!(index.get(sv.schedule_id()).unwrap().overnight_events.len(), 1);
}

#[test]
fn fresh_schedule_holds_first_scanned_service() {
    let mut first = service(1, 2, 3, vec![1]);
    first.name = "First".to_string();
    let mut second = service(1, 2, 3, vec![2]);
    second.name = "Second".to_string();
    let mut index = ScheduleIndex::new();
    index.prepare_schedules(&[first, second], jst(2019, 10, 13, 12, 0, 0));
    assert_eq!(index.len(), 1);
    let s = index.get(EpgScheduleId::from_triple(1, 2, 3)).unwrap();
    assert_eq!(s.service.name, "First");
    assert_eq!(s.service.channel.excluded_services, vec![1]);
}

#[test]
fn rendering_outcome_maps_to_command() {
    assert_eq!(command_from_rendering(Some("scan 1".to_string())), Ok("scan 1".to_string()));
    assert_eq!(command_from_rendering(None), Err(EpgError::InvalidTemplate));
}

#[test]
fn finish_pass_keeps_configuration() {
    let mut epg = Epg::new("/cache".to_string(), "scan".to_string(), "collect".to_string(), &Vec::new());
    epg.finish_pass(true, 1_000);
    epg.finish_pass(false, 2_000);
    assert_eq!(epg.cache_dir, "/cache");
    assert_eq!(epg.scan_services, "scan");
    assert_eq!(epg.collect_eits, "collect");
    assert_eq!(epg.max_elapsed, Some(1_000));
}
