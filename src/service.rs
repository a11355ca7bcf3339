use vstd::prelude::*;
use crate::ids::{EpgScheduleId, service_key};

verus! {

/// The kind of broadcast a channel carries.
#[derive(Clone, Copy, PartialEq, Eq, Structural, Debug)]
pub enum ChannelType {
    GR,
    BS,
    CS,
    SKY,
}

/// A channel's contents as plain values.
pub struct ChannelView {
    pub name: Seq<char>,
    pub channel_type: ChannelType,
    pub channel: Seq<char>,
    pub excluded_services: Seq<u16>,
}

/// A channel to tune for collecting, with the services whose events are not wanted.
#[derive(Clone, Debug)]
pub struct EpgChannel {
    pub name: String,
    pub channel_type: ChannelType,
    pub channel: String,
    pub excluded_services: Vec<u16>,
}

impl View for EpgChannel {
    type V = ChannelView;

    open spec fn view(&self) -> ChannelView {
        ChannelView {
            name: self.name@,
            channel_type: self.channel_type,
            channel: self.channel@,
            excluded_services: self.excluded_services@,
        }
    }
}

/// A copy of a list of service ids.
pub fn copy_ids(v: &Vec<u16>) -> (r: Vec<u16>)
    ensures
        r@ == v@,
{
    let mut r: Vec<u16> = Vec::new();
    let mut i: usize = 0;
    while i < v.len()
        invariant
            i <= v@.len(),
            r@ == v@.subrange(0, i as int),
        decreases v@.len() - i,
    {
        r.push(v[i]);
        i = i + 1;
        assert(r@ =~= v@.subrange(0, i as int));
    }
    assert(r@ =~= v@);
    r
}

impl EpgChannel {
    /// A copy with the same contents.
    pub fn copy(&self) -> (r: EpgChannel)
        ensures
            r@ == self@,
    {
        EpgChannel {
            name: self.name.clone(),
            channel_type: self.channel_type,
            channel: self.channel.clone(),
            excluded_services: copy_ids(&self.excluded_services),
        }
    }
}

/// A service as the scan of one channel reports it.
#[derive(Clone, Debug)]
pub struct TsService {
    pub nid: u16,
    pub tsid: u16,
    pub sid: u16,
    pub service_type: u16,
    pub logo_id: i16,
    pub remote_control_key_id: u16,
    pub name: String,
}

/// A service's contents as plain values.
pub struct ServiceView {
    pub nid: u16,
    pub tsid: u16,
    pub sid: u16,
    pub service_type: u16,
    pub logo_id: i16,
    pub remote_control_key_id: u16,
    pub name: Seq<char>,
    pub channel: ChannelView,
}

/// A discovered service together with the channel that carries it.
#[derive(Clone, Debug)]
pub struct EpgService {
    pub nid: u16,
    pub tsid: u16,
    pub sid: u16,
    pub service_type: u16,
    pub logo_id: i16,
    pub remote_control_key_id: u16,
    pub name: String,
    pub channel: EpgChannel,
}

impl View for EpgService {
    type V = ServiceView;

    open spec fn view(&self) -> ServiceView {
        ServiceView {
            nid: self.nid,
            tsid: self.tsid,
            sid: self.sid,
            service_type: self.service_type,
            logo_id: self.logo_id,
            remote_control_key_id: self.remote_control_key_id,
            name: self.name@,
            channel: self.channel@,
        }
    }
}

impl ServiceView {
    /// The packed identity of the service.
    pub open spec fn key(self) -> u64 {
        service_key(self.nid, self.tsid, self.sid)
    }
}

impl EpgService {
    /// The service `sv` found by scanning channel `ch`.
    pub fn from_scan(ch: &EpgChannel, sv: &TsService) -> (r: EpgService)
        ensures
            r@ == (ServiceView {
                nid: sv.nid,
                tsid: sv.tsid,
                sid: sv.sid,
                service_type: sv.service_type,
                logo_id: sv.logo_id,
                remote_control_key_id: sv.remote_control_key_id,
                name: sv.name@,
                channel: ch@,
            }),
    {
        EpgService {
            nid: sv.nid,
            tsid: sv.tsid,
            sid: sv.sid,
            service_type: sv.service_type,
            logo_id: sv.logo_id,
            remote_control_key_id: sv.remote_control_key_id,
            name: sv.name.clone(),
            channel: ch.copy(),
        }
    }

    /// A copy with the same contents.
    pub fn copy(&self) -> (r: EpgService)
        ensures
            r@ == self@,
    {
        EpgService {
            nid: self.nid,
            tsid: self.tsid,
            sid: self.sid,
            service_type: self.service_type,
            logo_id: self.logo_id,
            remote_control_key_id: self.remote_control_key_id,
            name: self.name.clone(),
            channel: self.channel.copy(),
        }
    }

    /// Identity of the service's schedule.
    pub fn schedule_id(&self) -> (r: EpgScheduleId)
        ensures
            r.0 == self@.key(),
    {
        EpgScheduleId::from_triple(self.nid, self.tsid, self.sid)
    }
}

} // verus!
