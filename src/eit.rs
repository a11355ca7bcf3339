use vstd::prelude::*;
use crate::ids::{EpgScheduleId, service_key};

verus! {

/// What a descriptor carries, as plain values.
pub enum DescriptorView {
    ShortEvent { event_name: Seq<char>, text: Seq<char> },
    Component { stream_content: u8, component_type: u8 },
    AudioComponent { component_type: u8, sampling_rate: u8 },
    Content { nibbles: Seq<(u8, u8, u8, u8)> },
    ExtendedEvent { items: Seq<(Seq<char>, Seq<char>)> },
}

/// One descriptor attached to an EIT event.
#[derive(Clone, Debug)]
pub enum EitDescriptor {
    ShortEvent { event_name: String, text: String },
    Component { stream_content: u8, component_type: u8 },
    AudioComponent { component_type: u8, sampling_rate: u8 },
    Content { nibbles: Vec<(u8, u8, u8, u8)> },
    ExtendedEvent { items: Vec<(String, String)> },
}

impl View for EitDescriptor {
    type V = DescriptorView;

    open spec fn view(&self) -> DescriptorView {
        match self {
            EitDescriptor::ShortEvent { event_name, text } => DescriptorView::ShortEvent {
                event_name: event_name@,
                text: text@,
            },
            EitDescriptor::Component { stream_content, component_type } =>
                DescriptorView::Component {
                    stream_content: *stream_content,
                    component_type: *component_type,
                },
            EitDescriptor::AudioComponent { component_type, sampling_rate } =>
                DescriptorView::AudioComponent {
                    component_type: *component_type,
                    sampling_rate: *sampling_rate,
                },
            EitDescriptor::Content { nibbles } => DescriptorView::Content { nibbles: nibbles@ },
            EitDescriptor::ExtendedEvent { items } => DescriptorView::ExtendedEvent {
                items: items@.map_values(|p: (String, String)| (p.0@, p.1@)),
            },
        }
    }
}

impl EitDescriptor {
    /// A copy with the same contents.
    pub fn copy(&self) -> (r: EitDescriptor)
        ensures
            r@ == self@,
    {
        match self {
            EitDescriptor::ShortEvent { event_name, text } => EitDescriptor::ShortEvent {
                event_name: event_name.clone(),
                text: text.clone(),
            },
            EitDescriptor::Component { stream_content, component_type } =>
                EitDescriptor::Component {
                    stream_content: *stream_content,
                    component_type: *component_type,
                },
            EitDescriptor::AudioComponent { component_type, sampling_rate } =>
                EitDescriptor::AudioComponent {
                    component_type: *component_type,
                    sampling_rate: *sampling_rate,
                },
            EitDescriptor::Content { nibbles } => {
                let mut out: Vec<(u8, u8, u8, u8)> = Vec::new();
                let mut i: usize = 0;
                while i < nibbles.len()
                    invariant
                        i <= nibbles@.len(),
                        out@ == nibbles@.subrange(0, i as int),
                    decreases nibbles@.len() - i,
                {
                    let n = nibbles[i];
                    out.push((n.0, n.1, n.2, n.3));
                    i = i + 1;
                    assert(out@ =~= nibbles@.subrange(0, i as int));
                }
                assert(out@ =~= nibbles@);
                EitDescriptor::Content { nibbles: out }
            },
            EitDescriptor::ExtendedEvent { items } => {
                let mut out: Vec<(String, String)> = Vec::new();
                let mut i: usize = 0;
                while i < items.len()
                    invariant
                        i <= items@.len(),
                        out@.len() == i,
                        forall|j: int|
                            0 <= j < i ==> #[trigger] out@[j].0@ == items@[j].0@ && out@[j].1@
                                == items@[j].1@,
                    decreases items@.len() - i,
                {
                    let k = items[i].0.clone();
                    let v = items[i].1.clone();
                    out.push((k, v));
                    i = i + 1;
                }
                assert(out@.map_values(|p: (String, String)| (p.0@, p.1@)) =~= items@.map_values(
                    |p: (String, String)| (p.0@, p.1@),
                ));
                EitDescriptor::ExtendedEvent { items: out }
            },
        }
    }
}

/// What an event carries, as plain values.
pub struct EventView {
    pub event_id: u16,
    pub start_time: i64,
    pub duration: i64,
    pub scrambled: bool,
    pub descriptors: Seq<DescriptorView>,
}

/// One program event: instants and durations are in milliseconds, instants since the
/// Unix epoch.
#[derive(Clone, Debug)]
pub struct EitEvent {
    pub event_id: u16,
    pub start_time: i64,
    pub duration: i64,
    pub scrambled: bool,
    pub descriptors: Vec<EitDescriptor>,
}

/// The views of a sequence of descriptors.
pub open spec fn descriptor_views(s: Seq<EitDescriptor>) -> Seq<DescriptorView> {
    s.map_values(|d: EitDescriptor| d@)
}

/// The views of a sequence of events.
pub open spec fn event_views(s: Seq<EitEvent>) -> Seq<EventView> {
    s.map_values(|e: EitEvent| e@)
}

impl View for EitEvent {
    type V = EventView;

    open spec fn view(&self) -> EventView {
        EventView {
            event_id: self.event_id,
            start_time: self.start_time,
            duration: self.duration,
            scrambled: self.scrambled,
            descriptors: descriptor_views(self.descriptors@),
        }
    }
}

impl EventView {
    /// The instant at which the event ends.
    pub open spec fn end_time(self) -> int {
        self.start_time + self.duration
    }

    /// The event airs across `midnight`: it starts strictly before and ends strictly after.
    pub open spec fn straddles(self, midnight: int) -> bool {
        self.start_time < midnight && self.end_time() > midnight
    }
}

impl EitEvent {
    /// The instant at which the event ends.
    pub fn end_time(&self) -> (r: i128)
        ensures
            r == self@.end_time(),
    {
        self.start_time as i128 + self.duration as i128
    }

    /// Whether the event airs across `midnight`.
    pub fn is_overnight_event(&self, midnight: i64) -> (r: bool)
        ensures
            r == self@.straddles(midnight as int),
    {
        self.start_time < midnight && self.end_time() > midnight as i128
    }

    /// A copy with the same contents.
    pub fn copy(&self) -> (r: EitEvent)
        ensures
            r@ == self@,
    {
        let mut descriptors: Vec<EitDescriptor> = Vec::new();
        let mut i: usize = 0;
        while i < self.descriptors.len()
            invariant
                i <= self.descriptors@.len(),
                descriptors@.len() == i,
                forall|j: int| 0 <= j < i ==> #[trigger] descriptors@[j]@ == self.descriptors@[j]@,
            decreases self.descriptors@.len() - i,
        {
            let d = self.descriptors[i].copy();
            descriptors.push(d);
            i = i + 1;
        }
        assert(descriptor_views(descriptors@) =~= descriptor_views(self.descriptors@));
        EitEvent {
            event_id: self.event_id,
            start_time: self.start_time,
            duration: self.duration,
            scrambled: self.scrambled,
            descriptors,
        }
    }
}

/// First table id of the schedule tables (0x50..0x6F).
pub const FIRST_SCHEDULE_TABLE_ID: u16 = 0x50;

/// Number of schedule tables of a service.
pub const NUM_TABLES: usize = 32;

/// Number of segments in one table.
pub const NUM_SEGMENTS: usize = 32;

/// Number of sections in one segment.
pub const NUM_SECTIONS: usize = 8;

/// One EIT schedule section as received.
#[derive(Clone, Debug)]
pub struct EitSection {
    pub original_network_id: u16,
    pub transport_stream_id: u16,
    pub service_id: u16,
    pub table_id: u16,
    pub section_number: u8,
    pub last_section_number: u8,
    pub segment_last_section_number: u8,
    pub version_number: u8,
    pub events: Vec<EitEvent>,
}

impl EitSection {
    /// The section belongs to a schedule table (table id 0x50..0x6F).
    pub open spec fn in_profile(&self) -> bool {
        FIRST_SCHEDULE_TABLE_ID <= self.table_id < FIRST_SCHEDULE_TABLE_ID + NUM_TABLES
    }

    pub open spec fn spec_table_index(&self) -> int {
        self.table_id - FIRST_SCHEDULE_TABLE_ID
    }

    pub open spec fn spec_segment_index(&self) -> int {
        self.section_number as int / 8
    }

    pub open spec fn spec_section_index(&self) -> int {
        self.section_number as int % 8
    }

    pub open spec fn spec_last_section_index(&self) -> int {
        self.segment_last_section_number as int % 8
    }

    /// Whether the section belongs to a schedule table.
    pub fn is_in_profile(&self) -> (r: bool)
        ensures
            r == self.in_profile(),
    {
        FIRST_SCHEDULE_TABLE_ID <= self.table_id && self.table_id < FIRST_SCHEDULE_TABLE_ID
            + NUM_TABLES as u16
    }

    /// Index of the table that holds the section.
    pub fn table_index(&self) -> (r: usize)
        requires
            self.in_profile(),
        ensures
            r == self.spec_table_index(),
            r < NUM_TABLES,
    {
        (self.table_id - FIRST_SCHEDULE_TABLE_ID) as usize
    }

    /// Index of the segment, within its table, that holds the section.
    pub fn segment_index(&self) -> (r: usize)
        ensures
            r == self.spec_segment_index(),
            r < NUM_SEGMENTS,
    {
        self.section_number as usize / 8
    }

    /// Index of the section within its segment.
    pub fn section_index(&self) -> (r: usize)
        ensures
            r == self.spec_section_index(),
            r < NUM_SECTIONS,
    {
        self.section_number as usize % 8
    }

    /// Index, within the segment, of the segment's last section.
    pub fn last_section_index(&self) -> (r: usize)
        ensures
            r == self.spec_last_section_index(),
            r < NUM_SECTIONS,
    {
        self.segment_last_section_number as usize % 8
    }

    /// Identity of the service whose schedule the section belongs to.
    pub fn epg_schedule_id(&self) -> (r: EpgScheduleId)
        ensures
            r.0 == service_key(
                self.original_network_id,
                self.transport_stream_id,
                self.service_id,
            ),
    {
        EpgScheduleId::from_triple(
            self.original_network_id,
            self.transport_stream_id,
            self.service_id,
        )
    }
}

/// The section number splits into a segment index and a section index, and the table
/// index is the table id's offset from the first schedule table.
pub proof fn lemma_index_math(s: EitSection)
    requires
        s.in_profile(),
    ensures
        s.section_number == 8 * s.spec_segment_index() + s.spec_section_index(),
        s.spec_table_index() == s.table_id - 0x50,
        0 <= s.spec_table_index() < NUM_TABLES,
        0 <= s.spec_segment_index() < NUM_SEGMENTS,
        0 <= s.spec_section_index() < NUM_SECTIONS,
{
}

} // verus!
