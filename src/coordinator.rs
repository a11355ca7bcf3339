use vstd::prelude::*;
use crate::index::{ScheduleIndex, prepared};
use crate::service::{ChannelType, ChannelView, EpgChannel, EpgService, TsService, copy_ids};
use crate::time::{DAY_MS, HOUR_MS, MINUTE_MS, SECOND_MS, next_day_start, next_midnight};

verus! {

/// How long the tuner may be held to scan the services of a channel of `channel_type`.
pub open spec fn spec_scan_time_limit(channel_type: ChannelType) -> int {
    match channel_type {
        ChannelType::GR => 10 * SECOND_MS,
        ChannelType::BS => 20 * SECOND_MS,
        _ => 30 * MINUTE_MS,
    }
}

/// How long the tuner may be held to collect the EIT sections of a network whose channel
/// is of `channel_type`.
pub open spec fn spec_collect_time_limit(channel_type: ChannelType) -> int {
    match channel_type {
        ChannelType::GR => MINUTE_MS + 10 * SECOND_MS,
        ChannelType::BS => 6 * MINUTE_MS + 30 * SECOND_MS,
        _ => 10 * MINUTE_MS,
    }
}

/// Time budget, in milliseconds, for scanning the services of a channel.
pub fn scan_services_time_limit(channel_type: ChannelType) -> (r: i64)
    ensures
        r == spec_scan_time_limit(channel_type),
{
    match channel_type {
        ChannelType::GR => 10 * SECOND_MS,
        ChannelType::BS => 20 * SECOND_MS,
        _ => 30 * MINUTE_MS,
    }
}

/// Time budget, in milliseconds, for collecting the EIT sections of a network.
pub fn collect_eits_time_limit(channel_type: ChannelType) -> (r: i64)
    ensures
        r == spec_collect_time_limit(channel_type),
{
    match channel_type {
        ChannelType::GR => MINUTE_MS + 10 * SECOND_MS,
        ChannelType::BS => 6 * MINUTE_MS + 30 * SECOND_MS,
        _ => 10 * MINUTE_MS,
    }
}

/// Delay before the next pass after a pass that succeeded.
pub const SUCCESS_DELAY_MS: i64 = 15 * 60_000;

/// Delay before the next pass after a pass that failed.
pub const FAILURE_DELAY_MS: i64 = 5 * 60_000;

/// Margin added to the longest pass seen when estimating how long a pass takes.
pub const ESTIMATE_MARGIN_MS: i64 = 30_000;

/// Margin past midnight to which a postponed pass is moved.
pub const POSTPONE_MARGIN_MS: i64 = 10_000;

/// The estimated length of a pass: the longest pass seen plus a margin, or one hour
/// before any pass succeeded.
pub open spec fn spec_estimate(max_elapsed: Option<i64>) -> int {
    match max_elapsed {
        Some(m) => m + ESTIMATE_MARGIN_MS,
        None => HOUR_MS as int,
    }
}

/// The longest pass after one of `elapsed` milliseconds succeeded.
pub open spec fn longest_elapsed(max_elapsed: Option<i64>, elapsed: i64) -> Option<i64> {
    match max_elapsed {
        Some(m) => if elapsed <= m {
            Some(m)
        } else {
            Some(elapsed)
        },
        None => Some(elapsed),
    }
}

/// What to do when the pass timer fires.
#[derive(Clone, Copy, PartialEq, Eq, Structural, Debug)]
pub enum PassPlan {
    /// Run the pass now.
    Run,
    /// Do not run now; fire the timer again after this many milliseconds.
    Postpone(i64),
}

/// A channel as configured.
#[derive(Clone, Debug)]
pub struct ChannelConfig {
    pub name: String,
    pub channel_type: ChannelType,
    pub channel: String,
    pub disabled: bool,
    pub excluded_services: Vec<u16>,
}

impl ChannelConfig {
    /// The channel to tune, as a view.
    pub open spec fn channel_view(&self) -> ChannelView {
        ChannelView {
            name: self.name@,
            channel_type: self.channel_type,
            channel: self.channel@,
            excluded_services: self.excluded_services@,
        }
    }

    /// The channel to tune for this configuration.
    pub fn to_channel(&self) -> (r: EpgChannel)
        ensures
            r@ == self.channel_view(),
    {
        EpgChannel {
            name: self.name.clone(),
            channel_type: self.channel_type,
            channel: self.channel.clone(),
            excluded_services: copy_ids(&self.excluded_services),
        }
    }
}

/// The views of the enabled channels of `configs`, in order.
pub open spec fn enabled_channels(configs: Seq<ChannelConfig>) -> Seq<ChannelView>
    decreases configs.len(),
{
    if configs.len() == 0 {
        Seq::empty()
    } else {
        let rest = enabled_channels(configs.drop_last());
        if configs.last().disabled {
            rest
        } else {
            rest.push(configs.last().channel_view())
        }
    }
}

/// The views of a sequence of channels.
pub open spec fn channel_views(s: Seq<EpgChannel>) -> Seq<ChannelView> {
    s.map_values(|c: EpgChannel| c@)
}

/// The EPG collector: its configuration, the schedules it maintains and the longest
/// successful pass it has seen.
#[derive(Debug)]
pub struct Epg {
    pub cache_dir: String,
    pub scan_services: String,
    pub collect_eits: String,
    pub channels: Vec<EpgChannel>,
    pub schedules: ScheduleIndex,
    pub max_elapsed: Option<i64>,
}

impl Epg {
    pub open spec fn well_formed(&self) -> bool {
        &&& self.schedules.well_formed()
        &&& match self.max_elapsed {
            Some(m) => m >= 0,
            None => true,
        }
    }

    /// A collector over the enabled channels of `channels`, with no schedule yet.
    pub fn new(
        cache_dir: String,
        scan_services: String,
        collect_eits: String,
        channels: &Vec<ChannelConfig>,
    ) -> (r: Epg)
        ensures
            r.well_formed(),
            channel_views(r.channels@) == enabled_channels(channels@),
            r.schedules.schedules@.len() == 0,
            r.max_elapsed is None,
            r.cache_dir == cache_dir,
            r.scan_services == scan_services,
            r.collect_eits == collect_eits,
    {
        let mut enabled: Vec<EpgChannel> = Vec::new();
        let mut i: usize = 0;
        while i < channels.len()
            invariant
                i <= channels@.len(),
                channel_views(enabled@) == enabled_channels(channels@.subrange(0, i as int)),
            decreases channels@.len() - i,
        {
            let ghost prev = enabled@;
            assert(channels@.subrange(0, i + 1).drop_last() =~= channels@.subrange(0, i as int));
            if !channels[i].disabled {
                enabled.push(channels[i].to_channel());
                assert(channel_views(enabled@) =~= channel_views(prev).push(
                    channels@[i as int].channel_view(),
                ));
            }
            i = i + 1;
        }
        assert(channels@.subrange(0, channels@.len() as int) =~= channels@);
        Epg {
            cache_dir,
            scan_services,
            collect_eits,
            channels: enabled,
            schedules: ScheduleIndex::new(),
            max_elapsed: None,
        }
    }

    /// The estimated length of a pass, in milliseconds.
    pub fn estimate_time(&self) -> (r: i128)
        ensures
            r == spec_estimate(self.max_elapsed),
    {
        match self.max_elapsed {
            Some(m) => m as i128 + ESTIMATE_MARGIN_MS as i128,
            None => HOUR_MS as i128,
        }
    }

    /// Records `elapsed` as the longest pass when it is longer than every pass before.
    pub fn update_max_elapsed(&mut self, elapsed: i64)
        requires
            old(self).well_formed(),
            elapsed >= 0,
        ensures
            final(self).well_formed(),
            *final(self) == (Epg { max_elapsed: longest_elapsed(old(self).max_elapsed, elapsed), ..*old(self) }),
    {
        let do_update = match self.max_elapsed {
            Some(m) => elapsed > m,
            None => true,
        };
        if do_update {
            self.max_elapsed = Some(elapsed);
        }
    }

    /// Decides, at instant `now`, whether the pass runs. When the time left before the
    /// next midnight is shorter than the estimated length of a pass, the pass is postponed
    /// to just after that midnight, so that one pass never spans two days.
    pub fn plan_pass(&self, now: i64) -> (r: PassPlan)
        requires
            i64::MIN + DAY_MS <= now <= i64::MAX - DAY_MS,
        ensures
            ({
                let remaining = next_day_start(now as int) - now;
                if remaining < spec_estimate(self.max_elapsed) {
                    r == PassPlan::Postpone((remaining + POSTPONE_MARGIN_MS) as i64)
                } else {
                    r == PassPlan::Run
                }
            }),
    {
        let remaining = next_midnight(now) - now;
        if (remaining as i128) < self.estimate_time() {
            PassPlan::Postpone(remaining + POSTPONE_MARGIN_MS)
        } else {
            PassPlan::Run
        }
    }

    /// Concludes a pass that took `elapsed` milliseconds and returns the delay before the
    /// next one: a successful pass may become the longest seen and the next pass comes 15
    /// minutes later; after a failure it comes 5 minutes later.
    pub fn finish_pass(&mut self, succeeded: bool, elapsed: i64) -> (r: i64)
        requires
            old(self).well_formed(),
            elapsed >= 0,
        ensures
            final(self).well_formed(),
            r == if succeeded {
                SUCCESS_DELAY_MS
            } else {
                FAILURE_DELAY_MS
            },
            succeeded ==> *final(self) == (Epg {
                max_elapsed: longest_elapsed(old(self).max_elapsed, elapsed),
                ..*old(self)
            }),
            !succeeded ==> *final(self) == *old(self),
    {
        if succeeded {
            self.update_max_elapsed(elapsed);
            SUCCESS_DELAY_MS
        } else {
            FAILURE_DELAY_MS
        }
    }

    /// Prepares the schedules for a pass at `timestamp` over the discovered `services`
    /// (see `ScheduleIndex::prepare_schedules`).
    pub fn prepare_schedules(&mut self, services: &[EpgService], timestamp: i64)
        requires
            old(self).well_formed(),
        ensures
            final(self).well_formed(),
            prepared(
                old(self).schedules.schedules@,
                final(self).schedules.schedules@,
                services@,
                timestamp as int,
            ),
            final(self).max_elapsed == old(self).max_elapsed,
            final(self).channels == old(self).channels,
    {
        self.schedules.prepare_schedules(services, timestamp);
    }

    /// Starts the collection step of a pass at `timestamp`: prepares the schedules for the
    /// discovered `services` and returns the channel to tune for each network.
    pub fn update_schedules(&mut self, services: &[EpgService], timestamp: i64) -> (r: Vec<
        (u16, EpgChannel),
    >)
        requires
            old(self).well_formed(),
        ensures
            final(self).well_formed(),
            prepared(
                old(self).schedules.schedules@,
                final(self).schedules.schedules@,
                services@,
                timestamp as int,
            ),
            group_views(r@) == channel_groups(services@),
            nids_unique(group_views(r@)),
            final(self).max_elapsed == old(self).max_elapsed,
    {
        self.prepare_schedules(services, timestamp);
        self.collect_channels_for_collecting_programs(services)
    }

    /// Groups the discovered `services` by network id, one channel per network whose excluded
    /// services are those of all the network's services.
    pub fn collect_channels_for_collecting_programs(&self, services: &[EpgService]) -> (r: Vec<(u16, EpgChannel)>)
        ensures
            group_views(r@) == channel_groups(services@),
            nids_unique(group_views(r@)),
    {
        let mut out: Vec<(u16, EpgChannel)> = Vec::new();
        let mut i: usize = 0;
        while i < services.len()
            invariant
                i <= services@.len(),
                group_views(out@) == channel_groups(services@.subrange(0, i as int)),
                nids_unique(group_views(out@)),
            decreases services@.len() - i,
        {
            let ghost g = group_views(out@);
            let ghost prefix = services@.subrange(0, i + 1);
            assert(prefix.drop_last() =~= services@.subrange(0, i as int));
            assert(prefix.last() == services@[i as int]);
            let sv = &services[i];
            let mut p: usize = 0;
            while p < out.len() && out[p].0 != sv.nid
                invariant
                    p <= out@.len(),
                    forall|q: int| 0 <= q < p ==> (#[trigger] out@[q]).0 != sv.nid,
                decreases out@.len() - p,
            {
                p = p + 1;
            }
            if p < out.len() {
                assert(g[p as int].0 == sv.nid);
                let ghost c = choose|c: int| 0 <= c < g.len() && (#[trigger] g[c]).0 == sv.nid;
                assert(c == p);
                let ghost prev_out = out@;
                let (nid, mut ch) = out.remove(p);
                let mut k: usize = 0;
                let ghost base = ch.excluded_services@;
                let ghost ch0 = ch;
                assert(g[p as int] == (prev_out[p as int].0, prev_out[p as int].1@));
                while k < sv.channel.excluded_services.len()
                    invariant
                        k <= sv.channel.excluded_services@.len(),
                        ch.excluded_services@ == base + sv.channel.excluded_services@.subrange(0, k as int),
                        ch.name == ch0.name,
                        ch.channel == ch0.channel,
                        ch.channel_type == ch0.channel_type,
                    decreases sv.channel.excluded_services@.len() - k,
                {
                    ch.excluded_services.push(sv.channel.excluded_services[k]);
                    k = k + 1;
                    assert(ch.excluded_services@ =~= base + sv.channel.excluded_services@.subrange(0, k as int));
                }
                assert(sv.channel.excluded_services@.subrange(0, k as int) =~= sv.channel.excluded_services@);
                out.insert(p, (nid, ch));
                assert(out@ =~= prev_out.update(p as int, (nid, ch)));
                assert(ch@ == ChannelView {
                    excluded_services: g[p as int].1.excluded_services + sv.channel.excluded_services@,
                    ..g[p as int].1
                });
                assert(group_views(out@) =~= channel_groups(prefix));
            } else {
                assert(!exists|q: int| 0 <= q < g.len() && (#[trigger] g[q]).0 == sv.nid);
                out.push((sv.nid, sv.channel.copy()));
                assert(group_views(out@) =~= channel_groups(prefix));
            }
            i = i + 1;
        }
        assert(services@.subrange(0, services@.len() as int) =~= services@);
        out
    }

    /// Copies of the channels to scan for services, in order.
    pub fn collect_channels_for_scanning_services(&self) -> (r: Vec<EpgChannel>)
        ensures
            channel_views(r@) == channel_views(self.channels@),
    {
        let mut out: Vec<EpgChannel> = Vec::new();
        let mut i: usize = 0;
        while i < self.channels.len()
            invariant
                i <= self.channels@.len(),
                out@.len() == i,
                forall|j: int| 0 <= j < i ==> #[trigger] out@[j]@ == self.channels@[j]@,
            decreases self.channels@.len() - i,
        {
            out.push(self.channels[i].copy());
            i = i + 1;
        }
        assert(channel_views(out@) =~= channel_views(self.channels@));
        out
    }
}

/// The services `found` by scanning channel `ch`, each paired with that channel, in order.
pub fn services_from_scan(ch: &EpgChannel, found: &Vec<TsService>) -> (r: Vec<EpgService>)
    ensures
        r@.len() == found@.len(),
        forall|i: int|
            0 <= i < r@.len() ==> (#[trigger] r@[i])@ == (crate::service::ServiceView {
                nid: found@[i].nid,
                tsid: found@[i].tsid,
                sid: found@[i].sid,
                service_type: found@[i].service_type,
                logo_id: found@[i].logo_id,
                remote_control_key_id: found@[i].remote_control_key_id,
                name: found@[i].name@,
                channel: ch@,
            }),
{
    let mut out: Vec<EpgService> = Vec::new();
    let mut i: usize = 0;
    while i < found.len()
        invariant
            i <= found@.len(),
            out@.len() == i,
            forall|j: int|
                0 <= j < i ==> (#[trigger] out@[j])@ == (crate::service::ServiceView {
                    nid: found@[j].nid,
                    tsid: found@[j].tsid,
                    sid: found@[j].sid,
                    service_type: found@[j].service_type,
                    logo_id: found@[j].logo_id,
                    remote_control_key_id: found@[j].remote_control_key_id,
                    name: found@[j].name@,
                    channel: ch@,
                }),
        decreases found@.len() - i,
    {
        out.push(EpgService::from_scan(ch, &found[i]));
        i = i + 1;
    }
    out
}

/// The network ids of `g` are distinct.
pub open spec fn nids_unique(g: Seq<(u16, ChannelView)>) -> bool {
    forall|i: int, j: int|
        0 <= i < g.len() && 0 <= j < g.len() && i != j ==> (#[trigger] g[i]).0 != (#[trigger] g[j]).0
}

/// The channels to tune per network for the discovered `services`: one entry per network
/// id, in order of first appearance, holding the channel of the network's first service
/// with the excluded services of all its services appended in order.
pub open spec fn channel_groups(services: Seq<EpgService>) -> Seq<(u16, ChannelView)>
    decreases services.len(),
{
    if services.len() == 0 {
        Seq::empty()
    } else {
        let g = channel_groups(services.drop_last());
        let sv = services.last();
        if exists|p: int| 0 <= p < g.len() && (#[trigger] g[p]).0 == sv.nid {
            let p = choose|p: int| 0 <= p < g.len() && (#[trigger] g[p]).0 == sv.nid;
            g.update(
                p,
                (
                    sv.nid,
                    ChannelView {
                        excluded_services: g[p].1.excluded_services
                            + sv.channel.excluded_services@,
                        ..g[p].1
                    },
                ),
            )
        } else {
            g.push((sv.nid, sv.channel@))
        }
    }
}

/// The views of a sequence of (network id, channel) pairs.
pub open spec fn group_views(g: Seq<(u16, EpgChannel)>) -> Seq<(u16, ChannelView)> {
    g.map_values(|p: (u16, EpgChannel)| (p.0, p.1@))
}

/// Name under which a helper command template sees the excluded service ids.
pub const EXCLUDED_SERVICES_VAR: &'static str = "xsids";

/// The helper command for the outcome of rendering its template with the excluded service
/// ids bound to `EXCLUDED_SERVICES_VAR`: the rendered text, or `InvalidTemplate` when
/// rendering failed.
pub fn command_from_rendering(rendered: Option<String>) -> (r: Result<String, EpgError>)
    ensures
        match rendered {
            Some(s) => r == Ok::<String, EpgError>(s),
            None => r == Err::<String, EpgError>(EpgError::InvalidTemplate),
        },
{
    match rendered {
        Some(s) => Ok(s),
        None => Err(EpgError::InvalidTemplate),
    }
}

/// Errors of a collection pass that the library reports.
#[derive(Clone, Copy, PartialEq, Eq, Structural, Debug)]
pub enum EpgError {
    /// A helper command template could not be compiled or rendered.
    InvalidTemplate,
}

/// The views of a sequence of services.
pub open spec fn service_views(s: Seq<EpgService>) -> Seq<crate::service::ServiceView> {
    s.map_values(|sv: EpgService| sv@)
}

/// The view of service `sv` found by scanning channel `ch`.
pub open spec fn scanned_view(ch: ChannelView, sv: TsService) -> crate::service::ServiceView {
    crate::service::ServiceView {
        nid: sv.nid,
        tsid: sv.tsid,
        sid: sv.sid,
        service_type: sv.service_type,
        logo_id: sv.logo_id,
        remote_control_key_id: sv.remote_control_key_id,
        name: sv.name@,
        channel: ch,
    }
}

/// Adds to `services` what the scan of channel `ch` found: each service of `found`,
/// paired with the channel, in order. A scan whose output was not a service list
/// (`None`: the broadcast is suspended) adds nothing.
pub fn append_scanned_services(
    services: &mut Vec<EpgService>,
    ch: &EpgChannel,
    found: Option<Vec<TsService>>,
)
    ensures
        match found {
            Some(f) => service_views(final(services)@) == service_views(old(services)@)
                + f@.map_values(|sv: TsService| scanned_view(ch@, sv)),
            None => final(services)@ == old(services)@,
        },
{
    match found {
        Some(f) => {
            let ghost f_views = f@.map_values(|sv: TsService| scanned_view(ch@, sv));
            let ghost start = service_views(services@);
            let mut i: usize = 0;
            while i < f.len()
                invariant
                    i <= f@.len(),
                    f_views == f@.map_values(|sv: TsService| scanned_view(ch@, sv)),
                    service_views(services@) == start + f_views.subrange(0, i as int),
                decreases f@.len() - i,
            {
                let ghost prev = services@;
                services.push(EpgService::from_scan(ch, &f[i]));
                assert(service_views(services@) =~= service_views(prev).push(f_views[i as int]));
                assert(f_views.subrange(0, i + 1) =~= f_views.subrange(0, i as int).push(
                    f_views[i as int],
                ));
                i = i + 1;
            }
            assert(f_views.subrange(0, f@.len() as int) =~= f_views);
        },
        None => {},
    }
}

} // verus!
