use vstd::prelude::*;

verus! {

/// The 48-bit value that packs a service's (original network id, transport stream id,
/// service id) triple.
pub open spec fn service_key(nid: u16, tsid: u16, sid: u16) -> u64 {
    ((nid as u64) << 32u64) | ((tsid as u64) << 16u64) | (sid as u64)
}

/// Identity of one broadcast service, and so of its schedule.
#[derive(Clone, Copy, PartialEq, Eq, Structural, Hash, Debug)]
pub struct EpgScheduleId(pub u64);

impl EpgScheduleId {
    pub open spec fn spec_nid(self) -> u16 {
        ((self.0 >> 32u64) & 0xFFFFu64) as u16
    }

    pub open spec fn spec_tsid(self) -> u16 {
        ((self.0 >> 16u64) & 0xFFFFu64) as u16
    }

    pub open spec fn spec_sid(self) -> u16 {
        (self.0 & 0xFFFFu64) as u16
    }

    /// Packs the triple (nid, tsid, sid).
    pub fn from_triple(nid: u16, tsid: u16, sid: u16) -> (r: EpgScheduleId)
        ensures
            r.0 == service_key(nid, tsid, sid),
            r.0 < 0x1_0000_0000_0000,
            r.spec_nid() == nid,
            r.spec_tsid() == tsid,
            r.spec_sid() == sid,
    {
        proof {
            lemma_service_key_components(nid, tsid, sid);
        }
        let r = ((nid as u64) << 32u64) | ((tsid as u64) << 16u64) | (sid as u64);
        assert(((nid as u64) << 32u64) | ((tsid as u64) << 16u64) | (sid as u64)
            < 0x1_0000_0000_0000u64) by (bit_vector)
            requires
                nid <= 0xFFFFu16,
                tsid <= 0xFFFFu16,
                sid <= 0xFFFFu16,
        ;
        EpgScheduleId(r)
    }

    /// The original network id: bits 32..48.
    pub fn nid(&self) -> (r: u16)
        ensures
            r == self.spec_nid(),
    {
        ((self.0 >> 32u64) & 0xFFFFu64) as u16
    }

    /// The transport stream id: bits 16..32.
    pub fn tsid(&self) -> (r: u16)
        ensures
            r == self.spec_tsid(),
    {
        ((self.0 >> 16u64) & 0xFFFFu64) as u16
    }

    /// The service id: bits 0..16.
    pub fn sid(&self) -> (r: u16)
        ensures
            r == self.spec_sid(),
    {
        (self.0 & 0xFFFFu64) as u16
    }
}

/// Packing a triple and reading its components back gives the triple.
pub proof fn lemma_service_key_components(nid: u16, tsid: u16, sid: u16)
    ensures
        ((service_key(nid, tsid, sid) >> 32u64) & 0xFFFFu64) as u16 == nid,
        ((service_key(nid, tsid, sid) >> 16u64) & 0xFFFFu64) as u16 == tsid,
        (service_key(nid, tsid, sid) & 0xFFFFu64) as u16 == sid,
{
    let a = nid as u64;
    let b = tsid as u64;
    let c = sid as u64;
    assert((((a << 32u64) | (b << 16u64) | c) >> 32u64) & 0xFFFFu64 == a) by (bit_vector)
        requires a <= 0xFFFFu64, b <= 0xFFFFu64, c <= 0xFFFFu64;
    assert((((a << 32u64) | (b << 16u64) | c) >> 16u64) & 0xFFFFu64 == b) by (bit_vector)
        requires a <= 0xFFFFu64, b <= 0xFFFFu64, c <= 0xFFFFu64;
    assert(((a << 32u64) | (b << 16u64) | c) & 0xFFFFu64 == c) by (bit_vector)
        requires a <= 0xFFFFu64, b <= 0xFFFFu64, c <= 0xFFFFu64;
}

} // verus!
