use vstd::prelude::*;

verus! {

/// NAL unit type carrying an SEI prefix message.
pub const NAL_SEI_PREFIX: u8 = 39;
/// NAL unit type of a Dolby Vision RPU (metadata) unit.
pub const NAL_UNSPEC62: u8 = 62;
/// NAL unit type of a Dolby Vision enhancement-layer unit.
pub const NAL_UNSPEC63: u8 = 63;

/// One NAL unit as reported by the external parser: its type, the byte range
/// it occupies in the working buffer (start code excluded), and the decode
/// order index of the picture it belongs to.
#[derive(Clone, Copy, Debug, PartialEq, Eq, Structural)]
pub struct NalRecord {
    pub nal_type: u8,
    pub start: usize,
    pub end: usize,
    pub decoded_frame_index: u64,
}

impl NalRecord {
    /// The unit's byte range lies inside a buffer of length `len`, and units
    /// that carry a two-byte layer header are long enough to strip it.
    pub open spec fn fits(self, len: int) -> bool {
        &&& self.start <= self.end <= len
        &&& (self.nal_type == NAL_UNSPEC62 || self.nal_type == NAL_UNSPEC63) ==> self.start + 2
            <= self.end
    }
}

/// Results of the two external collaborators that the dispatcher consults for
/// one NAL unit: the SEI classifier's verdict, and the converter's output for
/// an RPU payload when a conversion mode is configured.
#[derive(Debug)]
pub struct NalExternals {
    /// `true` when the unit was classified as an ST2094-40 (HDR10+) SEI.
    pub st2094_40: bool,
    /// The converted RPU payload; present exactly when a conversion mode is
    /// configured and the unit is an RPU unit.
    pub converted: Option<Vec<u8>>,
}

/// Mathematical value of a `NalExternals`.
pub struct ExtView {
    pub st2094_40: bool,
    pub converted: Option<Seq<u8>>,
}

impl View for NalExternals {
    type V = ExtView;

    open spec fn view(&self) -> ExtView {
        ExtView {
            st2094_40: self.st2094_40,
            converted: match self.converted {
                Some(c) => Some(c@),
                None => None,
            },
        }
    }
}

/// One buffered RPU record awaiting reordering: the ordinal it was buffered
/// under (one per decoded picture), its position in presentation order (only
/// assigned at flush time), and the header-stripped payload.
#[derive(Debug)]
pub struct RpuNal {
    pub decoded_index: usize,
    pub presentation_number: usize,
    pub data: Vec<u8>,
}

/// Mathematical value of an `RpuNal`.
pub struct RpuNalView {
    pub decoded_index: int,
    pub presentation_number: int,
    pub data: Seq<u8>,
}

impl View for RpuNal {
    type V = RpuNalView;

    open spec fn view(&self) -> RpuNalView {
        RpuNalView {
            decoded_index: self.decoded_index as int,
            presentation_number: self.presentation_number as int,
            data: self.data@,
        }
    }
}

/// The views of a sequence of buffered RPU records.
pub open spec fn rpu_views(s: Seq<RpuNal>) -> Seq<RpuNalView> {
    s.map_values(|r: RpuNal| r@)
}

/// One picture's decode-order and presentation-order numbers, as supplied by
/// the external parser once the whole stream has been consumed.
#[derive(Clone, Copy, Debug, PartialEq, Eq, Structural)]
pub struct FrameOrderEntry {
    pub decoded_number: u64,
    pub presentation_number: u64,
}

/// The fatal failures of the demuxer. Duplicate RPU units are not here: they
/// are dropped with a warning and processing continues.
#[derive(Clone, Copy, Debug, PartialEq, Eq, Structural)]
pub enum DemuxError {
    /// The stream ended without a single parsed frame while an RPU sink was
    /// requested.
    NoFramesParsed,
    /// A buffered RPU record's decoded index matches no frame entry; the
    /// metadata and picture streams are inconsistent.
    MissingFrame { decoded_index: usize },
    /// The boundary offsets describe a unit too small to carry a NAL header;
    /// such a stream cannot be split safely.
    DegenerateUnit,
}

/// The four-byte unit-start marker written before every emitted unit.
pub open spec fn marker() -> Seq<u8> {
    seq![0u8, 0u8, 0u8, 1u8]
}

/// Appends the unit-start marker to `v`.
pub fn push_marker(v: &mut Vec<u8>)
    ensures
        final(v)@ == old(v)@ + marker(),
{
    v.push(0u8);
    v.push(0u8);
    v.push(0u8);
    v.push(1u8);
    proof {
        assert(v@ =~= old(v)@ + marker());
    }
}

/// Appends `chunk[start..end]` to `v`.
pub fn append_range(v: &mut Vec<u8>, chunk: &[u8], start: usize, end: usize)
    requires
        start <= end <= chunk@.len(),
    ensures
        final(v)@ == old(v)@ + chunk@.subrange(start as int, end as int),
{
    let mut i: usize = start;
    while i < end
        invariant
            start <= i <= end <= chunk@.len(),
            v@ == old(v)@ + chunk@.subrange(start as int, i as int),
        decreases end - i,
    {
        v.push(chunk[i]);
        i = i + 1;
        proof {
            assert(v@ =~= old(v)@ + chunk@.subrange(start as int, i as int));
        }
    }
}

} // verus!
