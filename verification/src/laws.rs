use vstd::prelude::*;

use crate::dispatch::{run, silent_step, step, unit_bytes, RunState, Step};
use crate::nal::{marker, ExtView, NalRecord, NAL_SEI_PREFIX, NAL_UNSPEC62, NAL_UNSPEC63};
use crate::options::CliOptions;
use crate::writer::SinkCfg;

verus! {

/// With the combined single-layer sink configured, no per-layer routing rule
/// fires: no unit writes to the BL, EL or RPU sinks, nothing is buffered for
/// reordering, and the duplicate-detection state never advances.
pub proof fn lemma_single_layer_exclusive(
    opts: CliOptions,
    cfg: SinkCfg,
    prev: u64,
    chunk: Seq<u8>,
    nal: NalRecord,
    ext: ExtView,
)
    requires
        cfg.single_layer,
    ensures
        step(opts, cfg, prev, chunk, nal, ext).bl == Seq::<u8>::empty(),
        step(opts, cfg, prev, chunk, nal, ext).el == Seq::<u8>::empty(),
        step(opts, cfg, prev, chunk, nal, ext).buffered is None,
        step(opts, cfg, prev, chunk, nal, ext).new_prev == prev,
{
}

/// `discard_el` removes exactly the EL-kind units from the combined sink: an
/// EL unit writes nothing when the flag is set, and a unit of any other kind
/// routes identically whether the flag is set or clear.
pub proof fn lemma_discard_el_only_el(
    with_flag: CliOptions,
    without_flag: CliOptions,
    cfg: SinkCfg,
    prev: u64,
    chunk: Seq<u8>,
    nal: NalRecord,
    ext: ExtView,
)
    requires
        cfg.single_layer,
        with_flag.discard_el,
        without_flag == (CliOptions { discard_el: false, ..with_flag }),
    ensures
        nal.nal_type == NAL_UNSPEC63 ==> step(with_flag, cfg, prev, chunk, nal, ext) == silent_step(
            prev,
        ),
        nal.nal_type != NAL_UNSPEC63 ==> step(with_flag, cfg, prev, chunk, nal, ext) == step(
            without_flag,
            cfg,
            prev,
            chunk,
            nal,
            ext,
        ),
{
}

/// With the HDR10+ filter on, a unit classified as ST2094-40 dynamic
/// metadata is dropped entirely: it reaches no sink, buffers nothing, and
/// leaves the duplicate-detection state unchanged.
pub proof fn lemma_hdr10plus_dropped(
    opts: CliOptions,
    cfg: SinkCfg,
    prev: u64,
    chunk: Seq<u8>,
    nal: NalRecord,
    ext: ExtView,
)
    requires
        opts.drop_hdr10plus,
        nal.nal_type == NAL_SEI_PREFIX,
        ext.st2094_40,
    ensures
        step(opts, cfg, prev, chunk, nal, ext) == silent_step(prev),
{
}

/// The HDR10+ filter affects no other unit: any unit that is not an
/// SEI-prefix unit classified as dynamic metadata routes identically whether
/// the filter is on or off.
pub proof fn lemma_hdr10plus_only_sei(
    with_flag: CliOptions,
    without_flag: CliOptions,
    cfg: SinkCfg,
    prev: u64,
    chunk: Seq<u8>,
    nal: NalRecord,
    ext: ExtView,
)
    requires
        without_flag == (CliOptions { drop_hdr10plus: false, ..with_flag }),
        !(nal.nal_type == NAL_SEI_PREFIX && ext.st2094_40),
    ensures
        step(with_flag, cfg, prev, chunk, nal, ext) == step(without_flag, cfg, prev, chunk, nal, ext),
{
}

/// What the BL sink is owed from a batch: each unit that is neither an EL
/// nor an RPU unit contributes the start marker followed by its bytes, in
/// stream order; the others contribute nothing.
pub open spec fn bl_expected(chunk: Seq<u8>, nals: Seq<NalRecord>) -> Seq<u8>
    decreases nals.len(),
{
    if nals.len() == 0 {
        Seq::empty()
    } else {
        bl_expected(chunk, nals.drop_last()) + (if nals.last().nal_type != NAL_UNSPEC62
            && nals.last().nal_type != NAL_UNSPEC63 {
            marker() + unit_bytes(chunk, nals.last())
        } else {
            Seq::<u8>::empty()
        })
    }
}

/// Layer separation: with per-layer sinks, no conversion mode and no HDR10+
/// filter, the BL sink receives exactly the non-EL, non-RPU units' bytes,
/// each prefixed by the start marker, in their original stream order --
/// whatever the duplicate-detection state and the classifier said.
pub proof fn lemma_layer_separation(
    opts: CliOptions,
    cfg: SinkCfg,
    chunk: Seq<u8>,
    nals: Seq<NalRecord>,
    exts: Seq<ExtView>,
    init: RunState,
)
    requires
        !cfg.single_layer,
        cfg.bl,
        !opts.drop_hdr10plus,
        nals.len() == exts.len(),
    ensures
        run(opts, cfg, chunk, nals, exts, init).bl == init.bl + bl_expected(chunk, nals),
    decreases nals.len(),
{
    if nals.len() == 0 {
        assert(init.bl + bl_expected(chunk, nals) =~= init.bl);
    } else {
        lemma_layer_separation(opts, cfg, chunk, nals.drop_last(), exts.drop_last(), init);
        let st = run(opts, cfg, chunk, nals.drop_last(), exts.drop_last(), init);
        let s = step(opts, cfg, st.prev, chunk, nals.last(), exts.last());
        assert(st.bl + s.bl =~= init.bl + bl_expected(chunk, nals));
    }
}

/// Over a whole batch, the combined sink's exclusivity holds of the run: no
/// byte reaches a per-layer sink, nothing is buffered for reordering, and
/// the duplicate-detection state never advances.
pub proof fn lemma_single_layer_run(
    opts: CliOptions,
    cfg: SinkCfg,
    chunk: Seq<u8>,
    nals: Seq<NalRecord>,
    exts: Seq<ExtView>,
    init: RunState,
)
    requires
        cfg.single_layer,
        nals.len() == exts.len(),
    ensures
        run(opts, cfg, chunk, nals, exts, init).bl == init.bl,
        run(opts, cfg, chunk, nals, exts, init).el == init.el,
        run(opts, cfg, chunk, nals, exts, init).buffered == init.buffered,
        run(opts, cfg, chunk, nals, exts, init).prev == init.prev,
    decreases nals.len(),
{
    if nals.len() > 0 {
        lemma_single_layer_run(opts, cfg, chunk, nals.drop_last(), exts.drop_last(), init);
        let st = run(opts, cfg, chunk, nals.drop_last(), exts.drop_last(), init);
        let s = step(opts, cfg, st.prev, chunk, nals.last(), exts.last());
        assert(st.bl + s.bl =~= init.bl);
        assert(st.el + s.el =~= init.el);
        assert(st.buffered + Seq::<Seq<u8>>::empty() =~= init.buffered);
    }
}

/// A unit the HDR10+ filter drops is invisible to the whole run: inserting a
/// classified SEI-prefix unit anywhere in a batch leaves every sink, the
/// buffer, the warnings and the duplicate-detection state exactly as they
/// were without it.
pub proof fn lemma_hdr10plus_unit_invisible(
    opts: CliOptions,
    cfg: SinkCfg,
    chunk: Seq<u8>,
    nals: Seq<NalRecord>,
    exts: Seq<ExtView>,
    init: RunState,
    k: int,
    nal: NalRecord,
    ext: ExtView,
)
    requires
        opts.drop_hdr10plus,
        nal.nal_type == NAL_SEI_PREFIX,
        ext.st2094_40,
        nals.len() == exts.len(),
        0 <= k <= nals.len(),
    ensures
        run(opts, cfg, chunk, nals.insert(k, nal), exts.insert(k, ext), init) == run(
            opts,
            cfg,
            chunk,
            nals,
            exts,
            init,
        ),
    decreases nals.len(),
{
    let st = run(opts, cfg, chunk, nals, exts, init);
    if k == nals.len() {
        assert(nals.insert(k, nal).drop_last() =~= nals);
        assert(exts.insert(k, ext).drop_last() =~= exts);
        assert(nals.insert(k, nal).last() == nal);
        let s = step(opts, cfg, st.prev, chunk, nal, ext);
        assert(s == silent_step(st.prev));
        assert(st.bl + s.bl =~= st.bl);
        assert(st.el + s.el =~= st.el);
        assert(st.sl + s.sl =~= st.sl);
        assert(st.buffered + Seq::<Seq<u8>>::empty() =~= st.buffered);
        assert(st.dups + Seq::<u64>::empty() =~= st.dups);
    } else {
        assert(nals.len() > 0);
        assert(nals.insert(k, nal).drop_last() =~= nals.drop_last().insert(k, nal));
        assert(exts.insert(k, ext).drop_last() =~= exts.drop_last().insert(k, ext));
        assert(nals.insert(k, nal).last() == nals.last());
        assert(exts.insert(k, ext).last() == exts.last());
        lemma_hdr10plus_unit_invisible(
            opts,
            cfg,
            chunk,
            nals.drop_last(),
            exts.drop_last(),
            init,
            k,
            nal,
            ext,
        );
    }
}

/// Only the first RPU unit per frame is kept: once an RPU unit for a
/// nonzero frame has been accepted, an immediately following RPU unit
/// carrying the same frame index is discarded with a warning -- it writes
/// nothing, buffers nothing, and leaves the duplicate-detection state where
/// the accepted unit put it.
pub proof fn lemma_duplicate_rpu_suppressed(
    opts: CliOptions,
    cfg: SinkCfg,
    prev: u64,
    chunk: Seq<u8>,
    first: NalRecord,
    first_ext: ExtView,
    second: NalRecord,
    second_ext: ExtView,
)
    requires
        !cfg.single_layer,
        cfg.rpu,
        first.nal_type == NAL_UNSPEC62,
        second.nal_type == NAL_UNSPEC62,
        second.decoded_frame_index == first.decoded_frame_index,
        first.decoded_frame_index > 0,
        !(prev > 0 && first.decoded_frame_index == prev),
    ensures
        ({
            let s1 = step(opts, cfg, prev, chunk, first, first_ext);
            let s2 = step(opts, cfg, s1.new_prev, chunk, second, second_ext);
            &&& s1.buffered is Some
            &&& s1.new_prev == first.decoded_frame_index
            &&& s2 == (Step { dup: Some(first.decoded_frame_index), ..silent_step(
                first.decoded_frame_index,
            ) })
        }),
{
}

/// A unit `discard_el` drops is invisible to the whole run: with the
/// combined sink configured and the flag set, inserting an EL-kind unit
/// anywhere in a batch leaves the combined sink -- and everything else --
/// exactly as it was without it.
pub proof fn lemma_discard_el_unit_invisible(
    opts: CliOptions,
    cfg: SinkCfg,
    chunk: Seq<u8>,
    nals: Seq<NalRecord>,
    exts: Seq<ExtView>,
    init: RunState,
    k: int,
    nal: NalRecord,
    ext: ExtView,
)
    requires
        cfg.single_layer,
        opts.discard_el,
        !opts.drop_hdr10plus,
        nal.nal_type == NAL_UNSPEC63,
        nals.len() == exts.len(),
        0 <= k <= nals.len(),
    ensures
        run(opts, cfg, chunk, nals.insert(k, nal), exts.insert(k, ext), init) == run(
            opts,
            cfg,
            chunk,
            nals,
            exts,
            init,
        ),
    decreases nals.len(),
{
    let st = run(opts, cfg, chunk, nals, exts, init);
    if k == nals.len() {
        assert(nals.insert(k, nal).drop_last() =~= nals);
        assert(exts.insert(k, ext).drop_last() =~= exts);
        assert(nals.insert(k, nal).last() == nal);
        let s = step(opts, cfg, st.prev, chunk, nal, ext);
        assert(s == silent_step(st.prev));
        assert(st.bl + s.bl =~= st.bl);
        assert(st.el + s.el =~= st.el);
        assert(st.sl + s.sl =~= st.sl);
        assert(st.buffered + Seq::<Seq<u8>>::empty() =~= st.buffered);
        assert(st.dups + Seq::<u64>::empty() =~= st.dups);
    } else {
        assert(nals.len() > 0);
        assert(nals.insert(k, nal).drop_last() =~= nals.drop_last().insert(k, nal));
        assert(exts.insert(k, ext).drop_last() =~= exts.drop_last().insert(k, ext));
        assert(nals.insert(k, nal).last() == nals.last());
        assert(exts.insert(k, ext).last() == exts.last());
        lemma_discard_el_unit_invisible(
            opts,
            cfg,
            chunk,
            nals.drop_last(),
            exts.drop_last(),
            init,
            k,
            nal,
            ext,
        );
    }
}

} // verus!
