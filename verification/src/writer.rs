use vstd::prelude::*;

use crate::nal::{append_range, marker, push_marker};

verus! {

/// The shape of a sink set: which destinations exist. A single-layer combined
/// sink excludes all per-layer sinks, so `bl`, `el` and `rpu` are false
/// whenever `single_layer` holds.
pub struct SinkCfg {
    pub single_layer: bool,
    pub bl: bool,
    pub el: bool,
    pub rpu: bool,
}

/// The multi-sink writer: up to three per-layer in-memory sinks, or one
/// combined single-layer sink. The two groups are mutually exclusive: the
/// `single_layer` tag decides which group is live, so no unit can ever be
/// routed to both.
pub struct DoviWriter {
    single_layer: bool,
    bl_on: bool,
    el_on: bool,
    rpu_on: bool,
    bl: Vec<u8>,
    el: Vec<u8>,
    rpu: Vec<u8>,
    sl: Vec<u8>,
}

impl DoviWriter {
    /// Which sinks exist. In single-layer shape the per-layer sinks are dead
    /// by construction.
    pub closed spec fn cfg(self) -> SinkCfg {
        SinkCfg {
            single_layer: self.single_layer,
            bl: !self.single_layer && self.bl_on,
            el: !self.single_layer && self.el_on,
            rpu: !self.single_layer && self.rpu_on,
        }
    }

    pub closed spec fn bl_view(self) -> Seq<u8> {
        self.bl@
    }

    pub closed spec fn el_view(self) -> Seq<u8> {
        self.el@
    }

    pub closed spec fn rpu_view(self) -> Seq<u8> {
        self.rpu@
    }

    pub closed spec fn sl_view(self) -> Seq<u8> {
        self.sl@
    }

    /// A writer with the requested per-layer sinks, all empty.
    pub fn new_per_layer(bl: bool, el: bool, rpu: bool) -> (w: DoviWriter)
        ensures
            w.cfg() == (SinkCfg { single_layer: false, bl, el, rpu }),
            w.bl_view() == Seq::<u8>::empty(),
            w.el_view() == Seq::<u8>::empty(),
            w.rpu_view() == Seq::<u8>::empty(),
            w.sl_view() == Seq::<u8>::empty(),
    {
        DoviWriter {
            single_layer: false,
            bl_on: bl,
            el_on: el,
            rpu_on: rpu,
            bl: Vec::new(),
            el: Vec::new(),
            rpu: Vec::new(),
            sl: Vec::new(),
        }
    }

    /// A writer with only the combined single-layer sink, empty.
    pub fn new_single_layer() -> (w: DoviWriter)
        ensures
            w.cfg() == (SinkCfg { single_layer: true, bl: false, el: false, rpu: false }),
            w.bl_view() == Seq::<u8>::empty(),
            w.el_view() == Seq::<u8>::empty(),
            w.rpu_view() == Seq::<u8>::empty(),
            w.sl_view() == Seq::<u8>::empty(),
    {
        DoviWriter {
            single_layer: true,
            bl_on: false,
            el_on: false,
            rpu_on: false,
            bl: Vec::new(),
            el: Vec::new(),
            rpu: Vec::new(),
            sl: Vec::new(),
        }
    }

    pub fn is_single_layer(&self) -> (r: bool)
        ensures
            r == self.cfg().single_layer,
    {
        self.single_layer
    }

    pub fn has_bl(&self) -> (r: bool)
        ensures
            r == self.cfg().bl,
    {
        !self.single_layer && self.bl_on
    }

    pub fn has_el(&self) -> (r: bool)
        ensures
            r == self.cfg().el,
    {
        !self.single_layer && self.el_on
    }

    pub fn has_rpu(&self) -> (r: bool)
        ensures
            r == self.cfg().rpu,
    {
        !self.single_layer && self.rpu_on
    }

    /// Marker plus `chunk[start..end]` to the BL sink.
    pub(crate) fn append_bl_unit(&mut self, chunk: &[u8], start: usize, end: usize)
        requires
            old(self).cfg().bl,
            start <= end <= chunk@.len(),
        ensures
            final(self).cfg() == old(self).cfg(),
            final(self).bl_view() == old(self).bl_view() + marker() + chunk@.subrange(
                start as int,
                end as int,
            ),
            final(self).el_view() == old(self).el_view(),
            final(self).rpu_view() == old(self).rpu_view(),
            final(self).sl_view() == old(self).sl_view(),
    {
        push_marker(&mut self.bl);
        append_range(&mut self.bl, chunk, start, end);
    }

    /// `chunk[start..end]` to the EL sink, preceded by a marker on request.
    pub(crate) fn append_el_range(
        &mut self,
        chunk: &[u8],
        start: usize,
        end: usize,
        with_marker: bool,
    )
        requires
            old(self).cfg().el,
            start <= end <= chunk@.len(),
        ensures
            final(self).cfg() == old(self).cfg(),
            final(self).el_view() == old(self).el_view() + (if with_marker {
                marker()
            } else {
                Seq::<u8>::empty()
            }) + chunk@.subrange(start as int, end as int),
            final(self).bl_view() == old(self).bl_view(),
            final(self).rpu_view() == old(self).rpu_view(),
            final(self).sl_view() == old(self).sl_view(),
    {
        if with_marker {
            push_marker(&mut self.el);
        }
        append_range(&mut self.el, chunk, start, end);
        proof {
            if !with_marker {
                assert(self.el@ =~= old(self).el@ + Seq::<u8>::empty() + chunk@.subrange(
                    start as int,
                    end as int,
                ));
            }
        }
    }

    /// Marker plus `chunk[start..end]` to the combined sink.
    pub(crate) fn append_sl_unit(&mut self, chunk: &[u8], start: usize, end: usize)
        requires
            old(self).cfg().single_layer,
            start <= end <= chunk@.len(),
        ensures
            final(self).cfg() == old(self).cfg(),
            final(self).sl_view() == old(self).sl_view() + marker() + chunk@.subrange(
                start as int,
                end as int,
            ),
            final(self).bl_view() == old(self).bl_view(),
            final(self).el_view() == old(self).el_view(),
            final(self).rpu_view() == old(self).rpu_view(),
    {
        push_marker(&mut self.sl);
        append_range(&mut self.sl, chunk, start, end);
    }

    /// Marker plus `bytes` to the combined sink.
    pub(crate) fn append_sl_bytes(&mut self, bytes: &[u8])
        requires
            old(self).cfg().single_layer,
        ensures
            final(self).cfg() == old(self).cfg(),
            final(self).sl_view() == old(self).sl_view() + marker() + bytes@,
            final(self).bl_view() == old(self).bl_view(),
            final(self).el_view() == old(self).el_view(),
            final(self).rpu_view() == old(self).rpu_view(),
    {
        push_marker(&mut self.sl);
        append_range(&mut self.sl, bytes, 0, bytes.len());
        proof {
            assert(bytes@.subrange(0, bytes@.len() as int) =~= bytes@);
        }
    }

    /// `bytes` to the EL sink, preceded by a marker on request.
    pub(crate) fn append_el_bytes(&mut self, bytes: &[u8], with_marker: bool)
        requires
            old(self).cfg().el,
        ensures
            final(self).cfg() == old(self).cfg(),
            final(self).el_view() == old(self).el_view() + (if with_marker {
                marker()
            } else {
                Seq::<u8>::empty()
            }) + bytes@,
            final(self).bl_view() == old(self).bl_view(),
            final(self).rpu_view() == old(self).rpu_view(),
            final(self).sl_view() == old(self).sl_view(),
    {
        if with_marker {
            push_marker(&mut self.el);
        }
        append_range(&mut self.el, bytes, 0, bytes.len());
        proof {
            assert(bytes@.subrange(0, bytes@.len() as int) =~= bytes@);
            if !with_marker {
                assert(self.el@ =~= old(self).el@ + Seq::<u8>::empty() + bytes@);
            }
        }
    }

    /// Marker plus `bytes` to the RPU sink; used only by the flush stage.
    pub(crate) fn append_rpu_bytes(&mut self, bytes: &[u8])
        requires
            old(self).cfg().rpu,
        ensures
            final(self).cfg() == old(self).cfg(),
            final(self).rpu_view() == old(self).rpu_view() + marker() + bytes@,
            final(self).bl_view() == old(self).bl_view(),
            final(self).el_view() == old(self).el_view(),
            final(self).sl_view() == old(self).sl_view(),
    {
        push_marker(&mut self.rpu);
        append_range(&mut self.rpu, bytes, 0, bytes.len());
        proof {
            assert(bytes@.subrange(0, bytes@.len() as int) =~= bytes@);
        }
    }

    /// The bytes the BL sink holds.
    pub fn bl_data(&self) -> (r: &Vec<u8>)
        ensures
            r@ == self.bl_view(),
    {
        &self.bl
    }

    /// The bytes the EL sink holds.
    pub fn el_data(&self) -> (r: &Vec<u8>)
        ensures
            r@ == self.el_view(),
    {
        &self.el
    }

    /// The bytes the RPU sink holds.
    pub fn rpu_data(&self) -> (r: &Vec<u8>)
        ensures
            r@ == self.rpu_view(),
    {
        &self.rpu
    }

    /// The bytes the combined sink holds.
    pub fn sl_data(&self) -> (r: &Vec<u8>)
        ensures
            r@ == self.sl_view(),
    {
        &self.sl
    }

    /// Hands out and clears the BL sink's bytes, so a caller can stream them
    /// to their destination incrementally.
    pub fn take_bl(&mut self) -> (r: Vec<u8>)
        ensures
            r@ == old(self).bl_view(),
            final(self).cfg() == old(self).cfg(),
            final(self).bl_view() == Seq::<u8>::empty(),
            final(self).el_view() == old(self).el_view(),
            final(self).rpu_view() == old(self).rpu_view(),
            final(self).sl_view() == old(self).sl_view(),
    {
        let mut out: Vec<u8> = Vec::new();
        core::mem::swap(&mut out, &mut self.bl);
        out
    }

    /// Hands out and clears the EL sink's bytes.
    pub fn take_el(&mut self) -> (r: Vec<u8>)
        ensures
            r@ == old(self).el_view(),
            final(self).cfg() == old(self).cfg(),
            final(self).el_view() == Seq::<u8>::empty(),
            final(self).bl_view() == old(self).bl_view(),
            final(self).rpu_view() == old(self).rpu_view(),
            final(self).sl_view() == old(self).sl_view(),
    {
        let mut out: Vec<u8> = Vec::new();
        core::mem::swap(&mut out, &mut self.el);
        out
    }

    /// Hands out and clears the RPU sink's bytes.
    pub fn take_rpu(&mut self) -> (r: Vec<u8>)
        ensures
            r@ == old(self).rpu_view(),
            final(self).cfg() == old(self).cfg(),
            final(self).rpu_view() == Seq::<u8>::empty(),
            final(self).bl_view() == old(self).bl_view(),
            final(self).el_view() == old(self).el_view(),
            final(self).sl_view() == old(self).sl_view(),
    {
        let mut out: Vec<u8> = Vec::new();
        core::mem::swap(&mut out, &mut self.rpu);
        out
    }

    /// Hands out and clears the combined sink's bytes.
    pub fn take_sl(&mut self) -> (r: Vec<u8>)
        ensures
            r@ == old(self).sl_view(),
            final(self).cfg() == old(self).cfg(),
            final(self).sl_view() == Seq::<u8>::empty(),
            final(self).bl_view() == old(self).bl_view(),
            final(self).el_view() == old(self).el_view(),
            final(self).rpu_view() == old(self).rpu_view(),
    {
        let mut out: Vec<u8> = Vec::new();
        core::mem::swap(&mut out, &mut self.sl);
        out
    }
}

} // verus!
