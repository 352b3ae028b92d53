use vstd::prelude::*;

use crate::dispatch::{reader_parts, DoviReader};
use crate::nal::{marker, rpu_views, DemuxError, FrameOrderEntry, RpuNal, RpuNalView};
use crate::writer::DoviWriter;

verus! {

/// The presentation number of the first frame entry whose decoded number
/// equals `d`, if any.
pub open spec fn frame_key(frames: Seq<FrameOrderEntry>, d: int) -> Option<u64>
    decreases frames.len(),
{
    if frames.len() == 0 {
        None
    } else if frames[0].decoded_number == d {
        Some(frames[0].presentation_number)
    } else {
        frame_key(frames.drop_first(), d)
    }
}

/// Whether a buffered record has a matching frame entry.
pub open spec fn has_key(frames: Seq<FrameOrderEntry>, r: RpuNalView) -> bool {
    frame_key(frames, r.decoded_index) is Some
}

/// The record's sort key; meaningful only when `has_key` holds.
pub open spec fn key_of(frames: Seq<FrameOrderEntry>, r: RpuNalView) -> u64 {
    match frame_key(frames, r.decoded_index) {
        Some(k) => k,
        None => 0,
    }
}

/// Every buffered record has a matching frame entry.
pub open spec fn all_keys_found(frames: Seq<FrameOrderEntry>, recs: Seq<RpuNalView>) -> bool {
    forall|i: int| 0 <= i < recs.len() ==> has_key(frames, #[trigger] recs[i])
}

/// The index of the first buffered record with no matching frame entry.
pub open spec fn first_unmatched(frames: Seq<FrameOrderEntry>, recs: Seq<RpuNalView>) -> int
    decreases recs.len(),
{
    if recs.len() == 0 {
        0
    } else if !has_key(frames, recs[0]) {
        0
    } else {
        1 + first_unmatched(frames, recs.drop_first())
    }
}

/// The bytes the RPU sink receives for a sequence of records: each record's
/// header-stripped payload preceded by the unit-start marker.
pub open spec fn emit(recs: Seq<RpuNalView>) -> Seq<u8>
    decreases recs.len(),
{
    if recs.len() == 0 {
        Seq::empty()
    } else {
        emit(recs.drop_last()) + marker() + recs.last().data
    }
}

/// `p` rearranges `before` into `after` in presentation order: it is
/// injective, `after` takes record `p[i]` at position `i` with its
/// presentation number reassigned to `i`, keys are nondecreasing along the
/// rearrangement, and records with equal keys keep their buffer order (the
/// sort is stable).
pub open spec fn reorder_witness(
    frames: Seq<FrameOrderEntry>,
    before: Seq<RpuNalView>,
    after: Seq<RpuNalView>,
    p: Seq<int>,
) -> bool {
    &&& p.len() == before.len()
    &&& after.len() == before.len()
    &&& forall|i: int| 0 <= i < p.len() ==> 0 <= #[trigger] p[i] < before.len()
    &&& forall|i: int, j: int| 0 <= i < j < p.len() ==> p[i] != p[j]
    &&& forall|i: int|
        0 <= i < after.len() ==> (#[trigger] after[i]).data == before[p[i]].data && after[
            i
        ].decoded_index == before[p[i]].decoded_index && after[i].presentation_number == i
    &&& forall|i: int, j: int|
        0 <= i < j < p.len() ==> key_of(frames, before[#[trigger] p[i]]) <= key_of(
            frames,
            before[#[trigger] p[j]],
        )
    &&& forall|i: int, j: int|
        0 <= i < j < p.len() ==> (key_of(frames, before[#[trigger] p[i]]) == key_of(
            frames,
            before[#[trigger] p[j]],
        ) ==> p[i] < p[j])
}

/// A record's sort key paired with its position in the buffer; positions make
/// the pairs pairwise distinct, which is what makes the sort stable.
#[derive(Clone, Copy)]
struct KeyPos {
    key: u64,
    pos: usize,
}

/// Lexicographic order on (key, position).
spec fn kp_le(a: KeyPos, b: KeyPos) -> bool {
    a.key < b.key || (a.key == b.key && a.pos <= b.pos)
}

/// The first matching frame entry's presentation number, scanning in order.
fn find_key(frames: &Vec<FrameOrderEntry>, d: usize) -> (r: Option<u64>)
    ensures
        r == frame_key(frames@, d as int),
{
    let mut j: usize = 0;
    proof {
        assert(frames@.skip(0) =~= frames@);
    }
    while j < frames.len()
        invariant
            j <= frames@.len(),
            frame_key(frames@, d as int) == frame_key(frames@.skip(j as int), d as int),
            frames@.skip(j as int).len() == frames@.len() - j,
        decreases frames@.len() - j,
    {
        proof {
            assert(frames@.skip(j as int)[0] == frames@[j as int]);
        }
        if frames[j].decoded_number == (d as u64) {
            return Some(frames[j].presentation_number);
        }
        proof {
            assert(frames@.skip(j as int).drop_first() =~= frames@.skip(j as int + 1));
        }
        j = j + 1;
    }
    proof {
        assert(frames@.skip(j as int) =~= Seq::<FrameOrderEntry>::empty());
    }
    None
}

/// If the records before `i` all have keys and record `i` has none, then `i`
/// is the first unmatched index.
proof fn lemma_first_unmatched(frames: Seq<FrameOrderEntry>, recs: Seq<RpuNalView>, i: int)
    requires
        0 <= i < recs.len(),
        forall|a: int| 0 <= a < i ==> has_key(frames, #[trigger] recs[a]),
        !has_key(frames, recs[i]),
    ensures
        first_unmatched(frames, recs) == i,
    decreases i,
{
    if i == 0 {
    } else {
        assert(recs.drop_first()[i - 1] == recs[i]);
        assert(forall|a: int| 0 <= a < i - 1 ==> #[trigger] recs.drop_first()[a] == recs[a + 1]);
        lemma_first_unmatched(frames, recs.drop_first(), i - 1);
    }
}

/// Stable sort of key/position pairs by (key, position). The input's `pos`
/// fields are the identity, so the output describes a permutation: each
/// output element is the input element at its own `pos`, all positions are
/// distinct, and the output is ordered lexicographically.
fn sort_pairs(input: &Vec<KeyPos>) -> (out: Vec<KeyPos>)
    requires
        forall|i: int| 0 <= i < input@.len() ==> (#[trigger] input@[i]).pos == i,
    ensures
        out@.len() == input@.len(),
        forall|a: int|
            0 <= a < out@.len() ==> (#[trigger] out@[a]).pos < input@.len() && out@[a] == input@[
                out@[a].pos as int
            ],
        forall|a: int, b: int| 0 <= a < b < out@.len() ==> out@[a].pos != out@[b].pos,
        forall|a: int, b: int| 0 <= a < b < out@.len() ==> kp_le(out@[a], out@[b]),
{
    let mut out: Vec<KeyPos> = Vec::new();
    let mut i: usize = 0;
    while i < input.len()
        invariant
            i <= input@.len(),
            forall|k: int| 0 <= k < input@.len() ==> (#[trigger] input@[k]).pos == k,
            out@.len() == i,
            forall|a: int|
                0 <= a < out@.len() ==> (#[trigger] out@[a]).pos < i && out@[a] == input@[
                    out@[a].pos as int
                ],
            forall|a: int, b: int| 0 <= a < b < out@.len() ==> out@[a].pos != out@[b].pos,
            forall|a: int, b: int| 0 <= a < b < out@.len() ==> kp_le(out@[a], out@[b]),
        decreases input@.len() - i,
    {
        let x = input[i];
        let ghost out_before = out@;
        let mut p: usize = 0;
        while p < out.len() && (out[p].key < x.key || (out[p].key == x.key && out[p].pos <= x.pos))
            invariant
                p <= out@.len(),
                out@ == out_before,
                forall|q: int| 0 <= q < p ==> kp_le(#[trigger] out@[q], x),
            decreases out@.len() - p,
        {
            p = p + 1;
        }
        proof {
            if p < out@.len() {
                assert(!kp_le(out@[p as int], x));
            }
        }
        out.insert(p, x);
        proof {
            assert(forall|a: int| 0 <= a < p ==> out@[a] == out_before[a]);
            assert(out@[p as int] == x);
            assert(forall|a: int|
                p < a < out@.len() ==> #[trigger] out@[a] == out_before[a - 1]);
            assert(x.pos == i);
            assert forall|a: int, b: int| 0 <= a < b < out@.len() implies kp_le(
                out@[a],
                out@[b],
            ) by {
                if a < p && b < p {
                } else if a == p {
                    assert(!kp_le(out_before[p as int], x));
                    assert(kp_le(x, out_before[p as int]));
                    if b - 1 > p {
                        assert(kp_le(out_before[p as int], out_before[b - 1]));
                    }
                } else if b == p {
                    assert(kp_le(out_before[a], x));
                } else if a < p && b > p {
                    assert(kp_le(out_before[a], out_before[b - 1]));
                } else {
                    assert(kp_le(out_before[a - 1], out_before[b - 1]));
                }
            }
        }
        i = i + 1;
    }
    out
}

impl DoviReader {
    /// The reorder-and-flush stage, run once at end of stream. When an RPU
    /// sink exists, looks up each buffered record's presentation number among
    /// the parsed frames, stable-sorts the records by it, renumbers them with
    /// their new positions, and writes each as a marker plus its payload to
    /// the RPU sink. Fails without touching anything when no frame was parsed
    /// at all, or when some record's decoded index matches no frame.
    pub fn flush_writer(
        &mut self,
        frames: &Vec<FrameOrderEntry>,
        dovi_writer: &mut DoviWriter,
    ) -> (r: Result<(), DemuxError>)
        ensures
            final(self).opts() == old(self).opts(),
            final(self).prev() == old(self).prev(),
            final(dovi_writer).cfg() == old(dovi_writer).cfg(),
            final(dovi_writer).bl_view() == old(dovi_writer).bl_view(),
            final(dovi_writer).el_view() == old(dovi_writer).el_view(),
            final(dovi_writer).sl_view() == old(dovi_writer).sl_view(),
            ({
                let b0 = old(self).buffered();
                let b1 = final(self).buffered();
                let rv0 = old(dovi_writer).rpu_view();
                let rv1 = final(dovi_writer).rpu_view();
                let has_rpu = old(dovi_writer).cfg().rpu;
                &&& (!has_rpu ==> r is Ok && rv1 == rv0 && b1 == b0)
                &&& (has_rpu && frames@.len() == 0 ==> r == Err::<(), DemuxError>(
                    DemuxError::NoFramesParsed,
                ) && rv1 == rv0 && b1 == b0)
                &&& (has_rpu && frames@.len() > 0 && !all_keys_found(frames@, b0) ==> r == Err::<
                    (),
                    DemuxError,
                >(
                    (DemuxError::MissingFrame {
                        decoded_index: b0[first_unmatched(frames@, b0)].decoded_index as usize,
                    }),
                ) && rv1 == rv0 && b1 == b0)
                &&& (has_rpu && frames@.len() > 0 && all_keys_found(frames@, b0) ==> r is Ok && rv1
                    == rv0 + emit(b1) && (exists|p: Seq<int>|
                    #[trigger] reorder_witness(frames@, b0, b1, p)))
            }),
    {
        if !dovi_writer.has_rpu() {
            return Ok(());
        }
        if frames.len() == 0 {
            return Err(DemuxError::NoFramesParsed);
        }
        let ghost before = old(self).buffered();
        proof {
            reader_parts(*old(self));
        }
        let n = self.rpu_nals.len();

        // Phase 1: one key per record, in buffer order; abort on the first
        // record with no matching frame.
        let mut pairs: Vec<KeyPos> = Vec::new();
        let mut i: usize = 0;
        while i < n
            invariant
                old(dovi_writer).cfg().rpu,
                frames@.len() > 0,
                dovi_writer.cfg() == old(dovi_writer).cfg(),
                dovi_writer.bl_view() == old(dovi_writer).bl_view(),
                dovi_writer.el_view() == old(dovi_writer).el_view(),
                dovi_writer.sl_view() == old(dovi_writer).sl_view(),
                dovi_writer.rpu_view() == old(dovi_writer).rpu_view(),
                self.options == old(self).options,
                self.previous_rpu_index == old(self).previous_rpu_index,
                n == self.rpu_nals@.len(),
                before == rpu_views(self.rpu_nals@),
                i <= n,
                pairs@.len() == i,
                forall|a: int| 0 <= a < i ==> (#[trigger] pairs@[a]).pos == a,
                forall|a: int| 0 <= a < i ==> has_key(frames@, #[trigger] before[a]),
                forall|a: int|
                    0 <= a < i ==> (#[trigger] pairs@[a]).key == key_of(frames@, before[a]),
            decreases n - i,
        {
            let d = self.rpu_nals[i].decoded_index;
            match find_key(frames, d) {
                Some(k) => pairs.push(KeyPos { key: k, pos: i }),
                None => {
                    proof {
                        lemma_first_unmatched(frames@, before, i as int);
                        reader_parts(*self);
                        assert(before[i as int].decoded_index == d as int);
                    }
                    return Err(DemuxError::MissingFrame { decoded_index: d });
                },
            }
            i = i + 1;
        }

        // Phase 2: stable sort by (presentation number, buffer position).
        let sorted = sort_pairs(&pairs);

        // Phase 3: rebuild the buffer in sorted order, renumbering each
        // record with its new position, and emit to the RPU sink.
        let mut raw: Vec<RpuNal> = Vec::new();
        core::mem::swap(&mut raw, &mut self.rpu_nals);
        let mut slots: Vec<Option<RpuNal>> = Vec::new();
        while raw.len() > 0
            invariant
                old(dovi_writer).cfg().rpu,
                frames@.len() > 0,
                dovi_writer.cfg() == old(dovi_writer).cfg(),
                dovi_writer.bl_view() == old(dovi_writer).bl_view(),
                dovi_writer.el_view() == old(dovi_writer).el_view(),
                dovi_writer.sl_view() == old(dovi_writer).sl_view(),
                dovi_writer.rpu_view() == old(dovi_writer).rpu_view(),
                self.options == old(self).options,
                self.previous_rpu_index == old(self).previous_rpu_index,
                slots@.len() + raw@.len() == n,
                before.len() == n,
                forall|a: int|
                    0 <= a < slots@.len() ==> ((#[trigger] slots@[a]) matches Some(rec) && rec@
                        == before[a]),
                forall|a: int|
                    0 <= a < raw@.len() ==> (#[trigger] raw@[a])@ == before[slots@.len() + a],
            decreases raw@.len(),
        {
            let rec = raw.remove(0);
            slots.push(Some(rec));
        }
        let mut out: Vec<RpuNal> = Vec::new();
        let mut a: usize = 0;
        while a < n
            invariant
                old(dovi_writer).cfg().rpu,
                frames@.len() > 0,
                self.options == old(self).options,
                self.previous_rpu_index == old(self).previous_rpu_index,
                sorted@.len() == n,
                pairs@.len() == n,
                before.len() == n,
                slots@.len() == n,
                a <= n,
                forall|k: int| 0 <= k < n ==> (#[trigger] pairs@[k]).pos == k,
                forall|k: int| 0 <= k < n ==> has_key(frames@, #[trigger] before[k]),
                forall|k: int|
                    0 <= k < n ==> (#[trigger] pairs@[k]).key == key_of(frames@, before[k]),
                forall|q: int|
                    0 <= q < n ==> (#[trigger] sorted@[q]).pos < n && sorted@[q] == pairs@[
                        sorted@[q].pos as int
                    ],
                forall|q1: int, q2: int| 0 <= q1 < q2 < n ==> sorted@[q1].pos != sorted@[q2].pos,
                forall|q1: int, q2: int| 0 <= q1 < q2 < n ==> kp_le(sorted@[q1], sorted@[q2]),
                forall|q: int|
                    a <= q < n ==> ((#[trigger] slots@[sorted@[q].pos as int]) matches Some(rec)
                        && rec@ == before[sorted@[q].pos as int]),
                out@.len() == a,
                forall|q: int|
                    0 <= q < a ==> (#[trigger] rpu_views(out@)[q]).data == before[
                        sorted@[q].pos as int
                    ].data && rpu_views(out@)[q].decoded_index == before[
                        sorted@[q].pos as int
                    ].decoded_index && rpu_views(out@)[q].presentation_number == q,
                dovi_writer.cfg() == old(dovi_writer).cfg(),
                dovi_writer.cfg().rpu,
                dovi_writer.bl_view() == old(dovi_writer).bl_view(),
                dovi_writer.el_view() == old(dovi_writer).el_view(),
                dovi_writer.sl_view() == old(dovi_writer).sl_view(),
                dovi_writer.rpu_view() == old(dovi_writer).rpu_view() + emit(rpu_views(out@)),
            decreases n - a,
        {
            let ghost out_views_before = rpu_views(out@);
            let pos = sorted[a].pos;
            let slot = &mut slots[pos];
            let rec_opt = slot.take();
            match rec_opt {
                Some(rec) => {
                    dovi_writer.append_rpu_bytes(rec.data.as_slice());
                    let presentation_number = a;
                    out.push(
                        RpuNal {
                            decoded_index: rec.decoded_index,
                            presentation_number,
                            data: rec.data,
                        },
                    );
                },
                None => {
                    proof {
                        assert(false);
                    }
                },
            }
            a = a + 1;
            proof {
                assert(rpu_views(out@) =~= out_views_before.push(out@.last()@));
                assert(rpu_views(out@).drop_last() =~= out_views_before);
                assert(emit(rpu_views(out@)) == emit(out_views_before) + marker()
                    + out@.last()@.data);
                assert(dovi_writer.rpu_view() =~= old(dovi_writer).rpu_view() + emit(
                    rpu_views(out@),
                ));
                assert forall|q: int|
                    a <= q < n implies ((#[trigger] slots@[sorted@[q].pos as int]) matches Some(
                    rec,
                ) && rec@ == before[sorted@[q].pos as int]) by {
                    assert(sorted@[q].pos != sorted@[a - 1].pos);
                }
            }
        }
        self.rpu_nals = out;
        proof {
            reader_parts(*self);
            let p = Seq::<int>::new(n as nat, |q: int| sorted@[q].pos as int);
            assert forall|q1: int, q2: int| 0 <= q1 < q2 < n implies key_of(
                frames@,
                before[#[trigger] p[q1]],
            ) <= key_of(frames@, before[#[trigger] p[q2]]) && (key_of(
                frames@,
                before[p[q1]],
            ) == key_of(frames@, before[p[q2]]) ==> p[q1] < p[q2]) by {
                assert(kp_le(sorted@[q1], sorted@[q2]));
                assert(sorted@[q1].pos != sorted@[q2].pos);
                assert(sorted@[q1].key == key_of(frames@, before[p[q1]]));
                assert(sorted@[q2].key == key_of(frames@, before[p[q2]]));
            }
            assert(reorder_witness(frames@, before, self.buffered(), p));
        }
        Ok(())
    }
}

} // verus!
