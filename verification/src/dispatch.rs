use vstd::prelude::*;

use crate::nal::{
    append_range, marker, rpu_views, ExtView, NalExternals, NalRecord, RpuNal, RpuNalView, NAL_SEI_PREFIX,
    NAL_UNSPEC62, NAL_UNSPEC63,
};
use crate::options::CliOptions;
use crate::writer::{DoviWriter, SinkCfg};

verus! {

/// What the dispatcher does with one NAL unit: the bytes appended to each
/// sink, the header-stripped payload buffered for reordering (if any), the
/// frame index of a discarded duplicate RPU (if any), and the new value of
/// the duplicate-detection state.
pub struct Step {
    pub bl: Seq<u8>,
    pub el: Seq<u8>,
    pub sl: Seq<u8>,
    pub buffered: Option<Seq<u8>>,
    pub dup: Option<u64>,
    pub new_prev: u64,
}

/// The bytes a unit occupies in the working buffer.
pub open spec fn unit_bytes(chunk: Seq<u8>, nal: NalRecord) -> Seq<u8> {
    chunk.subrange(nal.start as int, nal.end as int)
}

/// The RPU payload the dispatcher works with: the converter's output when a
/// conversion mode is configured, the original unit bytes otherwise.
pub open spec fn rpu_payload(
    opts: CliOptions,
    chunk: Seq<u8>,
    nal: NalRecord,
    ext: ExtView,
) -> Seq<u8> {
    if opts.mode is Some {
        match ext.converted {
            Some(c) => c,
            None => Seq::empty(),
        }
    } else {
        unit_bytes(chunk, nal)
    }
}

/// A step that writes and buffers nothing and keeps the state `prev`.
pub open spec fn silent_step(prev: u64) -> Step {
    Step {
        bl: Seq::empty(),
        el: Seq::empty(),
        sl: Seq::empty(),
        buffered: None,
        dup: None,
        new_prev: prev,
    }
}

/// The dispatcher's routing rules for one unit, in precedence order: the
/// HDR10+ filter, duplicate-RPU suppression, the combined single-layer sink,
/// then per-layer routing by unit kind.
pub open spec fn step(
    opts: CliOptions,
    cfg: SinkCfg,
    prev: u64,
    chunk: Seq<u8>,
    nal: NalRecord,
    ext: ExtView,
) -> Step {
    if opts.drop_hdr10plus && nal.nal_type == NAL_SEI_PREFIX && ext.st2094_40 {
        silent_step(prev)
    } else if prev > 0 && nal.nal_type == NAL_UNSPEC62 && nal.decoded_frame_index == prev {
        Step { dup: Some(prev), ..silent_step(prev) }
    } else if cfg.single_layer {
        if nal.nal_type == NAL_UNSPEC63 && opts.discard_el {
            silent_step(prev)
        } else if nal.nal_type == NAL_UNSPEC62 && opts.mode is Some {
            Step { sl: marker() + rpu_payload(opts, chunk, nal, ext), ..silent_step(prev) }
        } else {
            Step { sl: marker() + unit_bytes(chunk, nal), ..silent_step(prev) }
        }
    } else if nal.nal_type == NAL_UNSPEC63 {
        if cfg.el {
            Step {
                el: marker() + chunk.subrange(nal.start + 2, nal.end as int),
                ..silent_step(prev)
            }
        } else {
            silent_step(prev)
        }
    } else if nal.nal_type == NAL_UNSPEC62 {
        let payload = rpu_payload(opts, chunk, nal, ext);
        let fresh = silent_step(nal.decoded_frame_index);
        if cfg.rpu {
            Step { buffered: Some(payload.skip(2)), ..fresh }
        } else if cfg.el {
            Step { el: (if opts.mode is Some { payload } else { marker() + payload }), ..fresh }
        } else {
            fresh
        }
    } else {
        if cfg.bl {
            Step { bl: marker() + unit_bytes(chunk, nal), ..silent_step(prev) }
        } else {
            silent_step(prev)
        }
    }
}

/// The cumulative effect of dispatching a sequence of units: bytes appended
/// to each sink since the start of the run, the buffered payloads in buffer
/// order, the frame indices of discarded duplicate RPUs, and the
/// duplicate-detection state.
pub struct RunState {
    pub bl: Seq<u8>,
    pub el: Seq<u8>,
    pub sl: Seq<u8>,
    pub buffered: Seq<Seq<u8>>,
    pub dups: Seq<u64>,
    pub prev: u64,
}

/// The run state before any unit is dispatched.
pub open spec fn run_init(prev: u64) -> RunState {
    RunState {
        bl: Seq::empty(),
        el: Seq::empty(),
        sl: Seq::empty(),
        buffered: Seq::empty(),
        dups: Seq::empty(),
        prev,
    }
}

/// One step folded onto a run state.
pub open spec fn apply_step(st: RunState, s: Step) -> RunState {
    RunState {
        bl: st.bl + s.bl,
        el: st.el + s.el,
        sl: st.sl + s.sl,
        buffered: st.buffered + (match s.buffered {
            Some(d) => seq![d],
            None => Seq::empty(),
        }),
        dups: st.dups + (match s.dup {
            Some(f) => seq![f],
            None => Seq::empty(),
        }),
        prev: s.new_prev,
    }
}

/// Dispatching a whole sequence of units, left to right.
pub open spec fn run(
    opts: CliOptions,
    cfg: SinkCfg,
    chunk: Seq<u8>,
    nals: Seq<NalRecord>,
    exts: Seq<ExtView>,
    init: RunState,
) -> RunState
    decreases nals.len(),
{
    if nals.len() == 0 {
        init
    } else {
        let st = run(opts, cfg, chunk, nals.drop_last(), exts.drop_last(), init);
        apply_step(st, step(opts, cfg, st.prev, chunk, nals.last(), exts.last()))
    }
}

/// Whether the routing rules will consult the converter's output for this
/// unit, given the duplicate-detection state `prev` it is dispatched under:
/// a conversion mode is configured, the unit is an RPU unit, and the
/// duplicate rule does not discard it first.
pub open spec fn needs_conversion(opts: CliOptions, prev: u64, nal: NalRecord) -> bool {
    &&& opts.mode is Some
    &&& nal.nal_type == NAL_UNSPEC62
    &&& !(prev > 0 && nal.decoded_frame_index == prev)
}

/// The externals record suffices for this unit under state `prev`: a
/// converted payload is present whenever the rules will consult one, and
/// any payload present is long enough to strip the two-byte RPU header
/// from. A payload for a unit the duplicate rule discards is permitted but
/// never read.
pub open spec fn ext_matches(opts: CliOptions, prev: u64, nal: NalRecord, ext: ExtView) -> bool {
    &&& (needs_conversion(opts, prev, nal) ==> ext.converted is Some)
    &&& match ext.converted {
        Some(c) => c.len() >= 2,
        None => true,
    }
}

/// The views of a sequence of externals records.
pub open spec fn ext_views(s: Seq<NalExternals>) -> Seq<ExtView> {
    s.map_values(|e: NalExternals| e@)
}

/// The NAL dispatcher: owns the configuration, the buffered RPU records and
/// the duplicate-detection state of one conversion run.
pub struct DoviReader {
    pub(crate) options: CliOptions,
    pub(crate) rpu_nals: Vec<RpuNal>,
    pub(crate) previous_rpu_index: u64,
}

impl DoviReader {
    pub closed spec fn opts(self) -> CliOptions {
        self.options
    }

    pub closed spec fn prev(self) -> u64 {
        self.previous_rpu_index
    }

    /// The buffered RPU records, in buffer order.
    pub closed spec fn buffered(self) -> Seq<RpuNalView> {
        rpu_views(self.rpu_nals@)
    }

    /// A fresh dispatcher: no buffered records, no RPU seen yet.
    pub fn new(options: CliOptions) -> (r: DoviReader)
        ensures
            r.opts() == options,
            r.prev() == 0u64,
            r.buffered() == Seq::<RpuNalView>::empty(),
    {
        let r = DoviReader { options, rpu_nals: Vec::new(), previous_rpu_index: 0 };
        proof {
            assert(r.buffered() =~= Seq::<RpuNalView>::empty());
        }
        r
    }

    /// The buffered RPU records.
    pub fn rpu_list(&self) -> (r: &Vec<RpuNal>)
        ensures
            rpu_views(r@) == self.buffered(),
    {
        &self.rpu_nals
    }

    /// The duplicate-detection state: the frame index of the most recently
    /// accepted RPU unit, zero while none has been seen. A caller deciding
    /// whether the next RPU unit needs the converter's output can consult
    /// this first: a unit the duplicate rule will discard needs none.
    pub fn last_seen_rpu_frame_index(&self) -> (r: u64)
        ensures
            r == self.prev(),
    {
        self.previous_rpu_index
    }

    /// Dispatches one NAL unit: applies the filtering and duplicate rules,
    /// then routes the unit's bytes to the sink its kind selects, buffering
    /// RPU payloads when an RPU sink exists. Returns the frame index of a
    /// discarded duplicate RPU, for the caller to warn about.
    pub fn write_nal(
        &mut self,
        chunk: &Vec<u8>,
        dovi_writer: &mut DoviWriter,
        nal: &NalRecord,
        ext: &NalExternals,
    ) -> (dup: Option<u64>)
        requires
            nal.fits(chunk@.len() as int),
            ext_matches(old(self).opts(), old(self).prev(), *nal, ext@),
        ensures
            final(self).opts() == old(self).opts(),
            final(dovi_writer).cfg() == old(dovi_writer).cfg(),
            ({
                let s = step(
                    old(self).opts(),
                    old(dovi_writer).cfg(),
                    old(self).prev(),
                    chunk@,
                    *nal,
                    ext@,
                );
                &&& final(dovi_writer).bl_view() == old(dovi_writer).bl_view() + s.bl
                &&& final(dovi_writer).el_view() == old(dovi_writer).el_view() + s.el
                &&& final(dovi_writer).sl_view() == old(dovi_writer).sl_view() + s.sl
                &&& final(dovi_writer).rpu_view() == old(dovi_writer).rpu_view()
                &&& final(self).prev() == s.new_prev
                &&& dup == s.dup
                &&& final(self).buffered() == old(self).buffered() + (match s.buffered {
                    Some(d) => seq![
                        RpuNalView {
                            decoded_index: old(self).buffered().len() as int,
                            presentation_number: 0,
                            data: d,
                        },
                    ],
                    None => Seq::<RpuNalView>::empty(),
                })
            }),
    {
        let ghost s = step(
            self.options,
            dovi_writer.cfg(),
            self.previous_rpu_index,
            chunk@,
            *nal,
            ext@,
        );
        proof {
            assert(old(self).buffered() + Seq::<RpuNalView>::empty() =~= old(self).buffered());
        }
        if self.options.drop_hdr10plus && nal.nal_type == NAL_SEI_PREFIX && ext.st2094_40 {
            proof {
                lemma_views_unchanged(dovi_writer);
            }
            return None;
        }
        if self.previous_rpu_index > 0 && nal.nal_type == NAL_UNSPEC62 && nal.decoded_frame_index
            == self.previous_rpu_index {
            proof {
                lemma_views_unchanged(dovi_writer);
            }
            return Some(self.previous_rpu_index);
        }
        if dovi_writer.is_single_layer() {
            if nal.nal_type == NAL_UNSPEC63 && self.options.discard_el {
                proof {
                    lemma_views_unchanged(dovi_writer);
                }
                return None;
            }
            if nal.nal_type == NAL_UNSPEC62 && self.options.mode.is_some() {
                match &ext.converted {
                    Some(modified) => dovi_writer.append_sl_bytes(modified.as_slice()),
                    None => (),
                }
                return None;
            }
            dovi_writer.append_sl_unit(chunk.as_slice(), nal.start, nal.end);
            return None;
        }
        if nal.nal_type == NAL_UNSPEC63 {
            if dovi_writer.has_el() {
                dovi_writer.append_el_range(chunk.as_slice(), nal.start + 2, nal.end, true);
            } else {
                proof {
                    lemma_views_unchanged(dovi_writer);
                }
            }
            return None;
        }
        if nal.nal_type == NAL_UNSPEC62 {
            self.previous_rpu_index = nal.decoded_frame_index;
            let converting = self.options.mode.is_some();
            if dovi_writer.has_rpu() {
                let mut data: Vec<u8> = Vec::new();
                if converting {
                    match &ext.converted {
                        Some(modified) => append_range(
                            &mut data,
                            modified.as_slice(),
                            2,
                            modified.len(),
                        ),
                        None => (),
                    }
                } else {
                    append_range(&mut data, chunk.as_slice(), nal.start + 2, nal.end);
                }
                proof {
                    assert(data@ =~= rpu_payload(self.options, chunk@, *nal, ext@).skip(2));
                }
                let decoded_index = self.rpu_nals.len();
                self.rpu_nals.push(RpuNal { decoded_index, presentation_number: 0, data });
                proof {
                    lemma_views_unchanged(dovi_writer);
                    assert(rpu_views(self.rpu_nals@) =~= rpu_views(old(self).rpu_nals@) + seq![
                        self.rpu_nals@.last()@,
                    ]);
                }
                return None;
            }
            if dovi_writer.has_el() {
                if converting {
                    match &ext.converted {
                        Some(modified) => dovi_writer.append_el_bytes(modified.as_slice(), false),
                        None => (),
                    }
                } else {
                    dovi_writer.append_el_range(chunk.as_slice(), nal.start, nal.end, true);
                }
                return None;
            }
            proof {
                lemma_views_unchanged(dovi_writer);
            }
            return None;
        }
        if dovi_writer.has_bl() {
            dovi_writer.append_bl_unit(chunk.as_slice(), nal.start, nal.end);
        } else {
            proof {
                lemma_views_unchanged(dovi_writer);
            }
        }
        None
    }

    /// Dispatches a batch of parsed units against the working buffer they
    /// were parsed from, in stream order. Returns the frame indices of the
    /// duplicate RPU units that were discarded, in order, for the caller to
    /// warn about.
    #[verifier::rlimit(100)]
    pub fn write_nals(
        &mut self,
        chunk: &Vec<u8>,
        dovi_writer: &mut DoviWriter,
        nals: &Vec<NalRecord>,
        exts: &Vec<NalExternals>,
    ) -> (dups: Vec<u64>)
        requires
            nals@.len() == exts@.len(),
            forall|i: int| 0 <= i < nals@.len() ==> (#[trigger] nals@[i]).fits(chunk@.len() as int),
            forall|i: int|
                0 <= i < nals@.len() ==> ext_matches(
                    old(self).opts(),
                    run(
                        old(self).opts(),
                        old(dovi_writer).cfg(),
                        chunk@,
                        nals@.take(i),
                        ext_views(exts@).take(i),
                        run_init(old(self).prev()),
                    ).prev,
                    nals@[i],
                    #[trigger] ext_views(exts@)[i],
                ),
        ensures
            final(self).opts() == old(self).opts(),
            final(dovi_writer).cfg() == old(dovi_writer).cfg(),
            ({
                let r = run(
                    old(self).opts(),
                    old(dovi_writer).cfg(),
                    chunk@,
                    nals@,
                    ext_views(exts@),
                    run_init(old(self).prev()),
                );
                &&& final(dovi_writer).bl_view() == old(dovi_writer).bl_view() + r.bl
                &&& final(dovi_writer).el_view() == old(dovi_writer).el_view() + r.el
                &&& final(dovi_writer).sl_view() == old(dovi_writer).sl_view() + r.sl
                &&& final(dovi_writer).rpu_view() == old(dovi_writer).rpu_view()
                &&& final(self).prev() == r.prev
                &&& dups@ == r.dups
                &&& final(self).buffered().len() == old(self).buffered().len()
                    + r.buffered.len()
                &&& forall|k: int|
                    0 <= k < old(self).buffered().len() ==> final(self).buffered()[k] == old(
                        self,
                    ).buffered()[k]
                &&& forall|k: int|
                    0 <= k < r.buffered.len() ==> final(self).buffered()[old(
                        self,
                    ).buffered().len() + k] == (RpuNalView {
                        decoded_index: old(self).buffered().len() + k,
                        presentation_number: 0,
                        data: #[trigger] r.buffered[k],
                    })
            }),
    {
        let ghost opts = self.options;
        let ghost cfg0 = dovi_writer.cfg();
        let ghost init = run_init(self.previous_rpu_index);
        let mut dups: Vec<u64> = Vec::new();
        let mut i: usize = 0;
        proof {
            assert(nals@.take(0) =~= Seq::<NalRecord>::empty());
            assert(ext_views(exts@).take(0) =~= Seq::<ExtView>::empty());
        }
        while i < nals.len()
            invariant
                i <= nals@.len(),
                nals@.len() == exts@.len(),
                forall|j: int|
                    0 <= j < nals@.len() ==> (#[trigger] nals@[j]).fits(chunk@.len() as int),
                forall|j: int|
                    0 <= j < nals@.len() ==> ext_matches(
                        opts,
                        run(opts, cfg0, chunk@, nals@.take(j), ext_views(exts@).take(j), init).prev,
                        nals@[j],
                        #[trigger] ext_views(exts@)[j],
                    ),
                self.opts() == opts,
                dovi_writer.cfg() == cfg0,
                ({
                    let r = run(opts, cfg0, chunk@, nals@.take(i as int), ext_views(exts@).take(
                        i as int,
                    ), init);
                    &&& dovi_writer.bl_view() == old(dovi_writer).bl_view() + r.bl
                    &&& dovi_writer.el_view() == old(dovi_writer).el_view() + r.el
                    &&& dovi_writer.sl_view() == old(dovi_writer).sl_view() + r.sl
                    &&& dovi_writer.rpu_view() == old(dovi_writer).rpu_view()
                    &&& self.prev() == r.prev
                    &&& dups@ == r.dups
                    &&& self.buffered().len() == old(self).buffered().len() + r.buffered.len()
                    &&& forall|k: int|
                        0 <= k < old(self).buffered().len() ==> self.buffered()[k] == old(
                            self,
                        ).buffered()[k]
                    &&& forall|k: int|
                        0 <= k < r.buffered.len() ==> self.buffered()[old(self).buffered().len()
                            + k] == (RpuNalView {
                            decoded_index: old(self).buffered().len() + k,
                            presentation_number: 0,
                            data: #[trigger] r.buffered[k],
                        })
                }),
            decreases nals@.len() - i,
        {
            let ghost r_pre = run(opts, cfg0, chunk@, nals@.take(i as int), ext_views(exts@).take(
                i as int,
            ), init);
            let nal = &nals[i];
            let ext = &exts[i];
            proof {
                assert(ext_views(exts@)[i as int] == exts@[i as int]@);
            }
            let dup = self.write_nal(chunk, dovi_writer, nal, ext);
            match dup {
                Some(f) => dups.push(f),
                None => (),
            }
            i = i + 1;
            proof {
                assert(nals@.take(i as int).drop_last() =~= nals@.take(i as int - 1));
                assert(ext_views(exts@).take(i as int).drop_last() =~= ext_views(exts@).take(
                    i as int - 1,
                ));
                assert(nals@.take(i as int).last() == nals@[i as int - 1]);
                let s = step(opts, cfg0, r_pre.prev, chunk@, nals@[i as int - 1], ext_views(
                    exts@,
                )[i as int - 1]);
                let r_post = run(opts, cfg0, chunk@, nals@.take(i as int), ext_views(exts@).take(
                    i as int,
                ), init);
                assert(r_post == apply_step(r_pre, s));
                assert(dovi_writer.bl_view() =~= old(dovi_writer).bl_view() + r_post.bl);
                assert(dovi_writer.el_view() =~= old(dovi_writer).el_view() + r_post.el);
                assert(dovi_writer.sl_view() =~= old(dovi_writer).sl_view() + r_post.sl);
                assert(dups@ =~= r_post.dups);
            }
        }
        proof {
            assert(nals@.take(nals@.len() as int) =~= nals@);
            assert(ext_views(exts@).take(nals@.len() as int) =~= ext_views(exts@));
        }
        dups
    }
}

/// Connects the dispatcher's abstract state to its fields, for proofs in the
/// sibling modules.
pub(crate) proof fn reader_parts(r: DoviReader)
    ensures
        r.buffered() == rpu_views(r.rpu_nals@),
        r.opts() == r.options,
        r.prev() == r.previous_rpu_index,
{
}

/// An unmodified writer appends nothing: each sink's bytes equal themselves
/// extended by the empty sequence.
proof fn lemma_views_unchanged(w: &DoviWriter)
    ensures
        w.bl_view() == w.bl_view() + Seq::<u8>::empty(),
        w.el_view() == w.el_view() + Seq::<u8>::empty(),
        w.sl_view() == w.sl_view() + Seq::<u8>::empty(),
{
    assert(w.bl_view() + Seq::<u8>::empty() =~= w.bl_view());
    assert(w.el_view() + Seq::<u8>::empty() =~= w.el_view());
    assert(w.sl_view() + Seq::<u8>::empty() =~= w.sl_view());
}

} // verus!
