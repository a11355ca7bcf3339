use vstd::prelude::*;
use indexmap::IndexMap;
use crate::eit::{DescriptorView, EitDescriptor, EitEvent, EventView};
use crate::service::{ChannelType, EpgService};

verus! {

#[verifier::external_type_specification]
#[verifier::external_body]
#[verifier::reject_recursive_types(K)]
#[verifier::reject_recursive_types(V)]
#[verifier::reject_recursive_types(S)]
pub struct ExIndexMap<K, V, S>(IndexMap<K, V, S>);

/// The entries of an extended-description map, in the map's order.
pub uninterp spec fn extended_entries(m: IndexMap<String, String>) -> Seq<(Seq<char>, Seq<char>)>;

/// `entries` after inserting `key` with `value`: an existing key keeps its place and takes
/// the new value; a new key goes last.
pub open spec fn entry_inserted(
    entries: Seq<(Seq<char>, Seq<char>)>,
    key: Seq<char>,
    value: Seq<char>,
) -> Seq<(Seq<char>, Seq<char>)> {
    if exists|p: int| 0 <= p < entries.len() && (#[trigger] entries[p]).0 == key {
        let p = choose|p: int| 0 <= p < entries.len() && (#[trigger] entries[p]).0 == key;
        entries.update(p, (key, value))
    } else {
        entries.push((key, value))
    }
}

/// `entries` after inserting each of `items` in order.
pub open spec fn entries_extended(
    entries: Seq<(Seq<char>, Seq<char>)>,
    items: Seq<(Seq<char>, Seq<char>)>,
) -> Seq<(Seq<char>, Seq<char>)>
    decreases items.len(),
{
    if items.len() == 0 {
        entries
    } else {
        let e = entries_extended(entries, items.drop_last());
        entry_inserted(e, items.last().0, items.last().1)
    }
}

/// Relies on `indexmap::IndexMap::new`: a new map has no entries.
#[verifier::external_body]
fn new_extended_map() -> (r: IndexMap<String, String>)
    ensures
        extended_entries(r) == Seq::<(Seq<char>, Seq<char>)>::empty(),
{
    IndexMap::new()
}

/// Relies on `indexmap::IndexMap::insert`: an existing key keeps its place in the order and
/// takes the new value; a new key is inserted last.
#[verifier::external_body]
fn insert_extended(m: &mut IndexMap<String, String>, key: String, value: String)
    ensures
        extended_entries(*final(m)) == entry_inserted(extended_entries(*old(m)), key@, value@),
{
    m.insert(key, value);
}

/// Video component of a program.
#[derive(Clone, Copy, PartialEq, Eq, Structural, Debug)]
pub struct EpgVideoInfo {
    pub stream_content: u8,
    pub component_type: u8,
}

/// Audio component of a program.
#[derive(Clone, Copy, PartialEq, Eq, Structural, Debug)]
pub struct EpgAudioInfo {
    pub component_type: u8,
    pub sampling_rate: u8,
}

/// One genre of a program, from the four nibbles of a content descriptor.
#[derive(Clone, Copy, PartialEq, Eq, Structural, Debug)]
pub struct EpgGenre {
    pub lv1: u8,
    pub lv2: u8,
    pub un1: u8,
    pub un2: u8,
}

/// The genre of a content descriptor's nibbles.
pub open spec fn genre_of(n: (u8, u8, u8, u8)) -> EpgGenre {
    EpgGenre { lv1: n.0, lv2: n.1, un1: n.2, un2: n.3 }
}

/// The packed id of a service: network id and service id.
pub open spec fn spec_service_model_id(sid: u16, nid: u16) -> u64 {
    (nid as u64 * 100_000 + sid as u64) as u64
}

/// The packed id of a program: network id, service id and event id.
pub open spec fn spec_program_id(eid: u16, sid: u16, nid: u16) -> u64 {
    (spec_service_model_id(sid, nid) as int * 100_000 + eid as int) as u64
}

/// Stable id of a service.
pub fn make_service_id(sid: u16, nid: u16) -> (r: u64)
    ensures
        r == spec_service_model_id(sid, nid),
        r as int == nid as int * 100_000 + sid as int,
{
    nid as u64 * 100_000 + sid as u64
}

/// Stable id of a program.
pub fn make_program_id(eid: u16, sid: u16, nid: u16) -> (r: u64)
    ensures
        r == spec_program_id(eid, sid, nid),
        r as int == (nid as int * 100_000 + sid as int) * 100_000 + eid as int,
{
    make_service_id(sid, nid) * 100_000 + eid as u64
}

/// A program as published, as plain values.
pub struct ProgramView {
    pub id: u64,
    pub event_id: u16,
    pub service_id: u16,
    pub network_id: u16,
    pub start_at: i64,
    pub duration: i64,
    pub is_free: bool,
    pub name: Option<Seq<char>>,
    pub description: Option<Seq<char>>,
    pub video: Option<EpgVideoInfo>,
    pub audio: Option<EpgAudioInfo>,
    pub genres: Option<Seq<EpgGenre>>,
    pub extended: Option<Seq<(Seq<char>, Seq<char>)>>,
}

/// A program as published.
#[derive(Debug)]
pub struct ProgramModel {
    pub id: u64,
    pub event_id: u16,
    pub service_id: u16,
    pub network_id: u16,
    pub start_at: i64,
    pub duration: i64,
    pub is_free: bool,
    pub name: Option<String>,
    pub description: Option<String>,
    pub video: Option<EpgVideoInfo>,
    pub audio: Option<EpgAudioInfo>,
    pub genres: Option<Vec<EpgGenre>>,
    pub extended: Option<IndexMap<String, String>>,
}

impl View for ProgramModel {
    type V = ProgramView;

    open spec fn view(&self) -> ProgramView {
        ProgramView {
            id: self.id,
            event_id: self.event_id,
            service_id: self.service_id,
            network_id: self.network_id,
            start_at: self.start_at,
            duration: self.duration,
            is_free: self.is_free,
            name: match self.name {
                Some(s) => Some(s@),
                None => None,
            },
            description: match self.description {
                Some(s) => Some(s@),
                None => None,
            },
            video: self.video,
            audio: self.audio,
            genres: match self.genres {
                Some(g) => Some(g@),
                None => None,
            },
            extended: match self.extended {
                Some(m) => Some(extended_entries(m)),
                None => None,
            },
        }
    }
}

/// A program with only its identity set.
pub open spec fn new_program(eid: u16, sid: u16, nid: u16) -> ProgramView {
    ProgramView {
        id: spec_program_id(eid, sid, nid),
        event_id: eid,
        service_id: sid,
        network_id: nid,
        start_at: 0,
        duration: 0,
        is_free: false,
        name: None,
        description: None,
        video: None,
        audio: None,
        genres: None,
        extended: None,
    }
}

/// `p` with the fields that descriptor `d` carries overwritten.
pub open spec fn apply_descriptor(p: ProgramView, d: DescriptorView) -> ProgramView {
    match d {
        DescriptorView::ShortEvent { event_name, text } => ProgramView {
            name: Some(event_name),
            description: Some(text),
            ..p
        },
        DescriptorView::Component { stream_content, component_type } => ProgramView {
            video: Some(EpgVideoInfo { stream_content, component_type }),
            ..p
        },
        DescriptorView::AudioComponent { component_type, sampling_rate } => ProgramView {
            audio: Some(EpgAudioInfo { component_type, sampling_rate }),
            ..p
        },
        DescriptorView::Content { nibbles } => ProgramView {
            genres: Some(nibbles.map_values(|n: (u8, u8, u8, u8)| genre_of(n))),
            ..p
        },
        DescriptorView::ExtendedEvent { items } => ProgramView {
            extended: Some(entries_extended(Seq::empty(), items)),
            ..p
        },
    }
}

/// `p` with descriptors `ds` applied in order.
pub open spec fn apply_descriptors(p: ProgramView, ds: Seq<DescriptorView>) -> ProgramView
    decreases ds.len(),
{
    if ds.len() == 0 {
        p
    } else {
        apply_descriptor(apply_descriptors(p, ds.drop_last()), ds.last())
    }
}

/// `p` updated from event `e`: its timing and scrambling, then its descriptors in order.
pub open spec fn apply_event(p: ProgramView, e: EventView) -> ProgramView {
    apply_descriptors(
        ProgramView { start_at: e.start_time, duration: e.duration, is_free: !e.scrambled, ..p },
        e.descriptors,
    )
}

/// An extended-description map holding `items` inserted in order.
fn extended_map_of(items: &Vec<(String, String)>) -> (r: IndexMap<String, String>)
    ensures
        extended_entries(r) == entries_extended(
            Seq::empty(),
            items@.map_values(|p: (String, String)| (p.0@, p.1@)),
        ),
{
    let ghost views = items@.map_values(|p: (String, String)| (p.0@, p.1@));
    let mut m = new_extended_map();
    let mut i: usize = 0;
    while i < items.len()
        invariant
            i <= items@.len(),
            views == items@.map_values(|p: (String, String)| (p.0@, p.1@)),
            extended_entries(m) == entries_extended(Seq::empty(), views.subrange(0, i as int)),
        decreases items@.len() - i,
    {
        assert(views.subrange(0, i + 1).drop_last() =~= views.subrange(0, i as int));
        insert_extended(&mut m, items[i].0.clone(), items[i].1.clone());
        i = i + 1;
    }
    assert(views.subrange(0, items@.len() as int) =~= views);
    m
}

impl ProgramModel {
    /// A program with only its identity set.
    pub fn new(eid: u16, sid: u16, nid: u16) -> (r: ProgramModel)
        ensures
            r@ == new_program(eid, sid, nid),
    {
        ProgramModel {
            id: make_program_id(eid, sid, nid),
            event_id: eid,
            service_id: sid,
            network_id: nid,
            start_at: 0,
            duration: 0,
            is_free: false,
            name: None,
            description: None,
            video: None,
            audio: None,
            genres: None,
            extended: None,
        }
    }

    /// Overwrites this program's fields from `event`: start, duration and whether it is
    /// free, then, for each descriptor in order, the fields that it carries. Fields that
    /// no descriptor carries keep their value.
    pub fn update(&mut self, event: &EitEvent)
        ensures
            final(self)@ == apply_event(old(self)@, event@),
    {
        self.start_at = event.start_time;
        self.duration = event.duration;
        self.is_free = !event.scrambled;
        let ghost base = self@;
        let ghost ds = event@.descriptors;
        let mut i: usize = 0;
        while i < event.descriptors.len()
            invariant
                i <= event.descriptors@.len(),
                ds == event@.descriptors,
                self@ == apply_descriptors(base, ds.subrange(0, i as int)),
            decreases event.descriptors@.len() - i,
        {
            assert(ds.subrange(0, i + 1).drop_last() =~= ds.subrange(0, i as int));
            assert(ds.subrange(0, i + 1).last() == event.descriptors@[i as int]@);
            match &event.descriptors[i] {
                EitDescriptor::ShortEvent { event_name, text } => {
                    self.name = Some(event_name.clone());
                    self.description = Some(text.clone());
                },
                EitDescriptor::Component { stream_content, component_type } => {
                    self.video = Some(
                        EpgVideoInfo { stream_content: *stream_content, component_type: *component_type },
                    );
                },
                EitDescriptor::AudioComponent { component_type, sampling_rate } => {
                    self.audio = Some(
                        EpgAudioInfo { component_type: *component_type, sampling_rate: *sampling_rate },
                    );
                },
                EitDescriptor::Content { nibbles } => {
                    let mut genres: Vec<EpgGenre> = Vec::new();
                    let mut k: usize = 0;
                    while k < nibbles.len()
                        invariant
                            k <= nibbles@.len(),
                            genres@ == nibbles@.subrange(0, k as int).map_values(
                                |n: (u8, u8, u8, u8)| genre_of(n),
                            ),
                        decreases nibbles@.len() - k,
                    {
                        let n = nibbles[k];
                        genres.push(EpgGenre { lv1: n.0, lv2: n.1, un1: n.2, un2: n.3 });
                        k = k + 1;
                        assert(genres@ =~= nibbles@.subrange(0, k as int).map_values(
                            |n: (u8, u8, u8, u8)| genre_of(n),
                        ));
                    }
                    assert(nibbles@.subrange(0, k as int) =~= nibbles@);
                    self.genres = Some(genres);
                },
                EitDescriptor::ExtendedEvent { items } => {
                    self.extended = Some(extended_map_of(items));
                },
            }
            i = i + 1;
        }
        assert(ds.subrange(0, ds.len() as int) =~= ds);
    }
}

/// The channel of a published service.
#[derive(Clone, Debug)]
pub struct ServiceChannelModel {
    pub channel_type: ChannelType,
    pub channel: String,
}

/// A service as published.
#[derive(Clone, Debug)]
pub struct ServiceModel {
    pub id: u64,
    pub service_id: u16,
    pub network_id: u16,
    pub service_type: u16,
    pub logo_id: i16,
    pub remote_control_key_id: u16,
    pub name: String,
    pub channel: ServiceChannelModel,
    pub has_logo_data: bool,
}

/// `m` is the published form of service `s`.
pub open spec fn models_service(m: ServiceModel, s: EpgService) -> bool {
    &&& m.id == spec_service_model_id(s.sid, s.nid)
    &&& m.service_id == s.sid
    &&& m.network_id == s.nid
    &&& m.service_type == s.service_type
    &&& m.logo_id == s.logo_id
    &&& m.remote_control_key_id == s.remote_control_key_id
    &&& m.name@ == s.name@
    &&& m.channel.channel_type == s.channel.channel_type
    &&& m.channel.channel@ == s.channel.channel@
    &&& !m.has_logo_data
}

impl EpgService {
    /// The published form of this service.
    pub fn to_model(&self) -> (r: ServiceModel)
        ensures
            models_service(r, *self),
    {
        ServiceModel {
            id: make_service_id(self.sid, self.nid),
            service_id: self.sid,
            network_id: self.nid,
            service_type: self.service_type,
            logo_id: self.logo_id,
            remote_control_key_id: self.remote_control_key_id,
            name: self.name.clone(),
            channel: ServiceChannelModel {
                channel_type: self.channel.channel_type,
                channel: self.channel.channel.clone(),
            },
            has_logo_data: false,
        }
    }
}

} // verus!
