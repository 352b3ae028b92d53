use vstd::prelude::*;

verus! {

/// How an RPU payload is rewritten by the external converter before it is
/// emitted. `Untouched` still round-trips the payload through the converter.
#[derive(Clone, Copy, Debug, PartialEq, Eq, Structural)]
pub enum ConversionMode {
    Untouched,
    ToMel,
    ToProfile81,
    Profile5ToProfile81,
}

/// The configuration the dispatcher consumes. A `mode` of `None` copies RPU
/// payloads through unmodified.
#[derive(Clone, Copy, Debug)]
pub struct CliOptions {
    pub mode: Option<ConversionMode>,
    pub discard_el: bool,
    pub drop_hdr10plus: bool,
}

} // verus!
