use vstd::prelude::*;

use crate::nal::{append_range, DemuxError, NalRecord};

verus! {

/// The working-buffer threshold: a push of fewer bytes than this is the
/// stream's final partial read, so the last boundary offset closes the chunk
/// instead of being carried over.
pub const CHUNK_SIZE: usize = 100000;

/// The positions of the three-byte unit-start codes in a buffer, as the
/// external scan finds them. The scan reads nothing but the bytes, so its
/// result is a function of them alone.
pub uninterp spec fn scan_offsets(data: Seq<u8>) -> Seq<usize>;

/// Relies on `hevc_parser::HevcParser::get_offsets`, called on a freshly
/// constructed default parser so that the start code is the three-byte one
/// and no other parser state exists: it clears `offsets`, then appends the
/// position of each start code found in `data`, resuming each scan past the
/// previous code, so positions grow by at least the code length and every
/// code lies inside the buffer.
#[verifier::external_body]
fn scan_start_codes(data: &Vec<u8>, offsets: &mut Vec<usize>)
    ensures
        final(offsets)@ == scan_offsets(data@),
        forall|i: int, j: int|
            #![trigger final(offsets)@[i], final(offsets)@[j]]
            0 <= i < j < final(offsets)@.len() ==> final(offsets)@[i] + 3 <= final(offsets)@[j],
        forall|i: int|
            0 <= i < final(offsets)@.len() ==> (#[trigger] final(offsets)@[i]) + 3 <= data@.len(),
{
    let mut parser = hevc_parser::HevcParser::default();
    parser.get_offsets(data.as_slice(), offsets);
}

/// The boundary offsets describe units the external splitter can cut without
/// reading out of bounds and whose payloads are nonempty: offsets step by at
/// least five bytes, all lie at or before `last`, and the buffer keeps at
/// least a NAL header after the final boundary.
pub open spec fn splittable(data: Seq<u8>, offsets: Seq<usize>, last: usize) -> bool {
    &&& forall|i: int|
        #![trigger offsets[i], offsets[i + 1]]
        0 <= i && i + 1 < offsets.len() ==> offsets[i] + 5 <= offsets[i + 1]
    &&& forall|i: int| 0 <= i < offsets.len() ==> (#[trigger] offsets[i]) <= last
    &&& offsets.len() > 0 ==> if offsets[offsets.len() - 1] == last {
        last + 4 <= data.len()
    } else {
        offsets[offsets.len() - 1] + 5 <= last && last + 3 <= data.len()
    }
}

/// Relies on `hevc_parser::HevcParser::split_nals`, called on a fresh
/// default parser with typed parsing off: it cuts one unit per offset,
/// starting three bytes past the unit's start code and ending at the next
/// boundary (at `last`, the unit runs to the end of the buffer), minus one
/// byte when the next start code is four bytes long. With typed parsing off
/// it reads only the unit's type byte and has no failure or panic path. The
/// records returned carry the splitter's type, range and decode-order
/// fields, one per offset.
#[verifier::external_body]
fn split_units(data: &Vec<u8>, offsets: &Vec<usize>, last: usize) -> (r: Result<
    Vec<NalRecord>,
    DemuxError,
>)
    requires
        splittable(data@, offsets@, last),
    ensures
        r is Ok,
        r matches Ok(nals) ==> nals@.len() == offsets@.len() && forall|i: int|
            0 <= i < nals@.len() ==> (#[trigger] nals@[i]).start == offsets@[i] + 3 && nals@[
                i
            ].start < nals@[i].end <= data@.len(),
{
    let mut parser = hevc_parser::HevcParser::default();
    match parser.split_nals(data.as_slice(), offsets.as_slice(), last, false) {
        Ok(nals) => Ok(
            nals.iter().map(
                |n: &hevc_parser::hevc::NALUnit| NalRecord {
                    nal_type: n.nal_type,
                    start: n.start,
                    end: n.end,
                    decoded_frame_index: n.decoded_frame_index,
                },
            ).collect(),
        ),
        Err(_) => Err(DemuxError::DegenerateUnit),
    }
}

/// The spacing conditions a scan must meet before its chunk is handed out:
/// consecutive boundaries at least five bytes apart (room for a start code
/// and a unit header), and, on the stream's final partial read, at least a
/// unit header after the last boundary.
pub open spec fn accepted_spacing(all: Seq<u8>, offs: Seq<usize>, short: bool) -> bool {
    &&& forall|i: int|
        #![trigger offs[i], offs[i + 1]]
        0 <= i && i + 1 < offs.len() ==> offs[i] + 5 <= offs[i + 1]
    &&& (short && offs.len() > 0 ==> offs[offs.len() - 1] + 4 <= all.len())
}

/// The offsets returned by the boundary scan, once the five-byte spacing has
/// been checked and the carried-over boundary chosen, satisfy the splitter's
/// precondition.
proof fn lemma_splittable(
    data: Seq<u8>,
    offs0: Seq<usize>,
    offsets: Seq<usize>,
    last: usize,
    short: bool,
)
    requires
        offs0.len() > 0,
        forall|i: int, j: int|
            #![trigger offs0[i], offs0[j]]
            0 <= i < j < offs0.len() ==> offs0[i] + 3 <= offs0[j],
        forall|i: int| 0 <= i < offs0.len() ==> (#[trigger] offs0[i]) + 3 <= data.len(),
        forall|i: int|
            #![trigger offs0[i], offs0[i + 1]]
            0 <= i && i + 1 < offs0.len() ==> offs0[i] + 5 <= offs0[i + 1],
        last == offs0[offs0.len() - 1],
        short ==> offsets == offs0 && last + 4 <= data.len(),
        !short ==> offsets == offs0.drop_last(),
    ensures
        splittable(data, offsets, last),
{
    if short {
        assert(forall|i: int| 0 <= i < offsets.len() ==> #[trigger] offsets[i] == offs0[i]);
        assert forall|i: int| 0 <= i < offsets.len() implies (#[trigger] offsets[i]) <= last by {
            if i < offsets.len() - 1 {
                assert(offs0[i] + 3 <= offs0[offs0.len() - 1]);
            }
        }
        assert forall|i: int|
            #![trigger offsets[i], offsets[i + 1]]
            0 <= i && i + 1 < offsets.len() implies offsets[i] + 5 <= offsets[i + 1] by {
            assert(offsets[i] == offs0[i] && offsets[i + 1] == offs0[i + 1]);
            assert(offs0[i] + 5 <= offs0[i + 1]);
        }
    } else {
        assert forall|i: int| 0 <= i < offsets.len() implies #[trigger] offsets[i] == offs0[i] by {
            assert(offsets[i] == offs0.drop_last()[i]);
            assert(offs0.drop_last()[i] == offs0[i]);
        }
        assert forall|i: int| 0 <= i < offsets.len() implies (#[trigger] offsets[i]) <= last by {
            assert(offs0[i] + 3 <= offs0[offs0.len() - 1]);
        }
        assert forall|i: int|
            #![trigger offsets[i], offsets[i + 1]]
            0 <= i && i + 1 < offsets.len() implies offsets[i] + 5 <= offsets[i + 1] by {
            assert(offsets[i] == offs0[i] && offsets[i + 1] == offs0[i + 1]);
            assert(offs0[i] + 5 <= offs0[i + 1]);
        }
        if offsets.len() > 0 {
            let k = offs0.len() - 2;
            assert(offs0[k] + 5 <= offs0[k + 1]);
            assert(offsets[offsets.len() - 1] == offs0[k]);
            assert(offsets[offsets.len() - 1] + 5 <= last);
            assert(last + 3 <= data.len());
        }
    }
}

/// One completed working buffer: the raw bytes, the boundary offsets the cut
/// was made with (the carried-over one excluded) and the boundary the chunk
/// was closed at, and the unit records. A caller that needs typed unit
/// information can replay the same cut through a parser of its own using
/// `offsets` and `last`.
pub struct SplitChunk {
    pub chunk: Vec<u8>,
    pub offsets: Vec<usize>,
    pub last: usize,
    pub nals: Vec<NalRecord>,
}

/// The chunked stream reader's stateful core, without the reads themselves:
/// it accumulates pushed bytes in a working buffer, asks the external scan
/// for unit boundaries, and defers an unterminated trailing unit to the next
/// iteration. It performs only the untyped cut; typed unit parsing is its
/// callers' business.
pub struct NalSplitter {
    chunk: Vec<u8>,
}

impl NalSplitter {
    /// The bytes accumulated but not yet handed out: earlier pushes' tail
    /// plus whatever was pushed since the last completed chunk.
    pub closed spec fn pending(self) -> Seq<u8> {
        self.chunk@
    }

    /// A fresh splitter with an empty working buffer.
    pub fn new() -> (r: NalSplitter)
        ensures
            r.pending() == Seq::<u8>::empty(),
    {
        NalSplitter { chunk: Vec::new() }
    }

    /// Whether every pushed byte has been handed out.
    pub fn is_drained(&self) -> (r: bool)
        ensures
            r == (self.pending().len() == 0),
    {
        self.chunk.len() == 0
    }

    /// Feeds the bytes of one read iteration. Exactly one of three things
    /// happens, decided by the scan of the accumulated bytes: with no
    /// boundary yet, everything is retained and `None` comes back; with
    /// boundaries whose spacing the splitter cannot cut safely, an error;
    /// otherwise the whole buffer is handed out with its unit records. A
    /// push shorter than the chunk threshold is the stream's final partial
    /// read, so every boundary closes a unit and nothing is retained;
    /// otherwise everything from the last boundary on is retained, since
    /// that unit may be unterminated.
    #[verifier::rlimit(100)]
    pub fn push(&mut self, data: &Vec<u8>) -> (r: Result<Option<SplitChunk>, DemuxError>)
        ensures
            ({
                let all = old(self).pending() + data@;
                let offs = scan_offsets(all);
                let short = data@.len() < CHUNK_SIZE;
                match r {
                    Ok(opt) => match opt {
                        None => offs.len() == 0 && final(self).pending() == all,
                        Some(sc) => {
                            &&& offs.len() > 0
                            &&& accepted_spacing(all, offs, short)
                            &&& sc.chunk@ == all
                            &&& sc.last == offs[offs.len() - 1]
                            &&& sc.offsets@ == (if short {
                                offs
                            } else {
                                offs.drop_last()
                            })
                            &&& final(self).pending() == (if short {
                                Seq::<u8>::empty()
                            } else {
                                all.subrange(sc.last as int, all.len() as int)
                            })
                            &&& sc.nals@.len() == sc.offsets@.len()
                            &&& forall|i: int|
                                0 <= i < sc.nals@.len() ==> (#[trigger] sc.nals@[i]).start
                                    == sc.offsets@[i] + 3 && sc.nals@[i].start < sc.nals@[i].end
                                    <= sc.chunk@.len()
                        },
                    },
                    Err(e) => e == DemuxError::DegenerateUnit && offs.len() > 0
                        && !accepted_spacing(all, offs, short) && final(self).pending() == all,
                }
            }),
    {
        append_range(&mut self.chunk, data.as_slice(), 0, data.len());
        proof {
            assert(data@.subrange(0, data@.len() as int) =~= data@);
        }
        let ghost all = old(self).pending() + data@;
        let short = data.len() < CHUNK_SIZE;
        let mut offsets: Vec<usize> = Vec::new();
        scan_start_codes(&self.chunk, &mut offsets);
        let ghost offs0 = offsets@;
        proof {
            assert forall|i: int, j: int|
                #![trigger offs0[i], offs0[j]]
                0 <= i < j < offs0.len() implies offs0[i] + 3 <= offs0[j] by {
                assert(offsets@[i] + 3 <= offsets@[j]);
            }
            assert forall|i: int| 0 <= i < offs0.len() implies (#[trigger] offs0[i]) + 3
                <= all.len() by {
                assert(offsets@[i] + 3 <= self.chunk@.len());
            }
        }
        if offsets.len() == 0 {
            return Ok(None);
        }
        // The scan only guarantees three-byte steps between boundaries;
        // anything tighter than five leaves no room for a unit's header, and
        // the external splitter cannot cut such a stream.
        let mut g: usize = 1;
        while g < offsets.len()
            invariant
                1 <= g,
                offsets@ == offs0,
                offs0 == scan_offsets(all),
                self.chunk@ == all,
                all == old(self).pending() + data@,
                short == (data@.len() < CHUNK_SIZE),
                forall|i: int, j: int|
                    #![trigger offs0[i], offs0[j]]
                    0 <= i < j < offs0.len() ==> offs0[i] + 3 <= offs0[j],
                forall|i: int|
                    #![trigger offs0[i], offs0[i + 1]]
                    0 <= i < g - 1 ==> offs0[i] + 5 <= offs0[i + 1],
            decreases offs0.len() - g,
        {
            if offsets[g] - offsets[g - 1] < 5 {
                proof {
                    let i: int = g - 1;
                    assert(!(offs0[i] + 5 <= offs0[i + 1]));
                    assert(!accepted_spacing(all, offs0, data@.len() < CHUNK_SIZE));
                }
                return Err(DemuxError::DegenerateUnit);
            }
            g = g + 1;
        }
        let last: usize;
        if short {
            last = offsets[offsets.len() - 1];
            if self.chunk.len() - last < 4 {
                proof {
                    assert(!(offs0[offs0.len() - 1] + 4 <= all.len()));
                }
                return Err(DemuxError::DegenerateUnit);
            }
        } else {
            match offsets.pop() {
                Some(l) => last = l,
                None => {
                    return Err(DemuxError::DegenerateUnit);
                },
            }
        }
        proof {
            if !short {
                assert(offsets@ =~= offs0.drop_last());
            }
            lemma_splittable(self.chunk@, offs0, offsets@, last, short);
        }
        let nals = match split_units(&self.chunk, &offsets, last) {
            Ok(nals) => nals,
            Err(e) => {
                return Err(e);
            },
        };
        let mut tail: Vec<u8> = Vec::new();
        if !short {
            append_range(&mut tail, self.chunk.as_slice(), last, self.chunk.len());
        }
        let mut out_chunk = tail;
        core::mem::swap(&mut out_chunk, &mut self.chunk);
        proof {
            if short {
                assert(self.chunk@ =~= Seq::<u8>::empty());
            } else {
                assert(self.chunk@ =~= all.subrange(last as int, all.len() as int));
            }
        }
        Ok(Some(SplitChunk { chunk: out_chunk, offsets, last, nals }))
    }
}

/// Whether every record's byte range lies inside the chunk and leaves room
/// for the layer header of the unit kinds that carry one; record batches are
/// dispatched only after this check.
pub fn nals_fit(chunk: &Vec<u8>, nals: &Vec<NalRecord>) -> (r: bool)
    ensures
        r == forall|i: int|
            0 <= i < nals@.len() ==> (#[trigger] nals@[i]).fits(chunk@.len() as int),
{
    let mut i: usize = 0;
    while i < nals.len()
        invariant
            i <= nals@.len(),
            forall|j: int| 0 <= j < i ==> (#[trigger] nals@[j]).fits(chunk@.len() as int),
        decreases nals@.len() - i,
    {
        let nal = &nals[i];
        if nal.start > nal.end || nal.end > chunk.len() {
            return false;
        }
        if (nal.nal_type == crate::nal::NAL_UNSPEC62 || nal.nal_type == crate::nal::NAL_UNSPEC63)
            && nal.end - nal.start < 2 {
            return false;
        }
        i = i + 1;
    }
    true
}

} // verus!
