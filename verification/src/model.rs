//! The logical data model of a trace snapshot, and the predicates that
//! classify a snapshot as encodable.

use vstd::prelude::*;

verus! {

/// A span's structural relationship to another span: no predecessor,
/// a direct child of the referenced span, or a continuation of it.
#[derive(Clone, Copy, Debug)]
pub enum Link {
    Root,
    Parent { id: u64 },
    Continue { id: u64 },
}

/// One timed unit of traced execution.
#[derive(Clone, Copy, Debug)]
pub struct Span {
    pub id: u64,
    pub link: Link,
    pub begin_cycles: u64,
    pub elapsed_cycles: u64,
    pub event: u32,
}

/// Sparse attachment of opaque byte payloads to spans, held as three
/// parallel columns: the owning span of each payload, each payload's
/// length, and the concatenation of all payloads.
#[derive(Debug)]
pub struct PropertyBlock {
    pub span_ids: Vec<u64>,
    pub lengths: Vec<u64>,
    pub payload: Vec<u8>,
}

/// One batch of spans collected together, sharing its timestamps and
/// one property block.
#[derive(Debug)]
pub struct SpanSet {
    pub create_time_ns: u64,
    pub start_time_ns: u64,
    pub spans: Vec<Span>,
    pub properties: PropertyBlock,
}

/// A complete snapshot: global timing and calibration fields plus the
/// ordered sequence of span sets.
#[derive(Debug)]
pub struct TraceDetails {
    pub start_time_ns: u64,
    pub elapsed_ns: u64,
    pub cycles_per_second: u64,
    pub span_sets: Vec<SpanSet>,
}

/// The caller-selected encoding strategy.
#[derive(Clone, Copy, Debug, PartialEq, Eq, Structural)]
pub enum Mode {
    Compact,
    Passthrough,
}

/// Why an encoding call failed.  The first two are wire-format limits;
/// the last two report a broken upstream guarantee (identifier
/// uniqueness, referential integrity).  Those two are surfaced as
/// typed, unrecoverable errors rather than by aborting the process:
/// the encoder never panics, and it never silently renumbers or drops
/// data, which would corrupt the wire-level cross-references.
#[derive(Clone, Copy, Debug, PartialEq, Eq, Structural)]
pub enum EncodeError {
    CapacityExceeded,
    PropertyTooLarge,
    DuplicateSpanId,
    UnknownSpanId,
}

/// The number of compact identifiers, hence the most spans one compact
/// encoding can carry (identifier 0 is reserved for "no link").
pub const COMPACT_ID_LIMIT: u64 = 0x10000;

/// The largest property payload length the 16-bit wire field can hold.
pub const MAX_PROPERTY_LEN: u64 = 0xffff;

/// Sum of a column of payload lengths.
pub open spec fn sum_lens(lens: Seq<u64>) -> int
    decreases lens.len(),
{
    if lens.len() == 0 {
        0
    } else {
        sum_lens(lens.drop_last()) + lens.last()
    }
}

/// The columns of a property block are aligned and the payload is
/// exactly the concatenation the lengths describe.
pub open spec fn prop_block_wf(p: PropertyBlock) -> bool {
    &&& p.span_ids@.len() == p.lengths@.len()
    &&& sum_lens(p.lengths@) == p.payload@.len()
}

/// Structural validity of a snapshot, as the collector hands it over.
pub open spec fn trace_wf(t: TraceDetails) -> bool {
    forall|i: int|
        0 <= i < t.span_sets@.len() ==> prop_block_wf(#[trigger] t.span_sets@[i].properties)
}

/// All spans of a sequence of span sets, flattened in collection order.
pub open spec fn flatten_spans(sets: Seq<SpanSet>) -> Seq<Span>
    decreases sets.len(),
{
    if sets.len() == 0 {
        Seq::empty()
    } else {
        flatten_spans(sets.drop_last()) + sets.last().spans@
    }
}

/// All spans of the whole snapshot, in encounter order.
pub open spec fn trace_spans(t: TraceDetails) -> Seq<Span> {
    flatten_spans(t.span_sets@)
}

/// No two spans of the sequence share an identifier.
pub open spec fn unique_ids(spans: Seq<Span>) -> bool {
    forall|i: int, j: int| 0 <= i < j < spans.len() ==> spans[i].id != spans[j].id
}

/// The identifier a link refers to, if any.
pub open spec fn link_target(l: Link) -> Option<u64> {
    match l {
        Link::Root => None,
        Link::Parent { id } => Some(id),
        Link::Continue { id } => Some(id),
    }
}

/// Some span of the sequence carries this identifier.
pub open spec fn id_present(spans: Seq<Span>, id: u64) -> bool {
    exists|i: int| 0 <= i < spans.len() && spans[i].id == id
}

/// The total span count fits the compact identifier space.
pub open spec fn cap_ok(t: TraceDetails) -> bool {
    trace_spans(t).len() < COMPACT_ID_LIMIT
}

/// Every parent/continuation link refers to a span that exists
/// somewhere in the snapshot.
pub open spec fn links_ok(t: TraceDetails) -> bool {
    forall|i: int, j: int|
        0 <= i < t.span_sets@.len() && 0 <= j < t.span_sets@[i].spans@.len()
            ==> match link_target((#[trigger] t.span_sets@[i].spans@[j]).link) {
                Option::None => true,
                Option::Some(id) => id_present(trace_spans(t), id),
            }
}

/// Every property entry is owned by a span that exists in the snapshot.
pub open spec fn owners_ok(t: TraceDetails) -> bool {
    forall|i: int, j: int|
        0 <= i < t.span_sets@.len() && 0 <= j < t.span_sets@[i].properties.span_ids@.len()
            ==> id_present(trace_spans(t), #[trigger] t.span_sets@[i].properties.span_ids@[j])
}

/// Every property payload length fits the 16-bit wire field.
pub open spec fn lens_ok(t: TraceDetails) -> bool {
    forall|i: int, j: int|
        0 <= i < t.span_sets@.len() && 0 <= j < t.span_sets@[i].properties.lengths@.len()
            ==> (#[trigger] t.span_sets@[i].properties.lengths@[j]) <= MAX_PROPERTY_LEN
}

/// The error an encoding call reports for this snapshot, if any:
/// capacity and consistency are established before anything is
/// emitted, in this fixed order of severity.  Passthrough mode skips
/// identifier mapping, so only the property-length limit applies there.
pub open spec fn encode_err(t: TraceDetails, mode: Mode) -> Option<EncodeError> {
    match mode {
        Mode::Compact => {
            if !cap_ok(t) {
                Option::Some(EncodeError::CapacityExceeded)
            } else if !unique_ids(trace_spans(t)) {
                Option::Some(EncodeError::DuplicateSpanId)
            } else if !(links_ok(t) && owners_ok(t)) {
                Option::Some(EncodeError::UnknownSpanId)
            } else if !lens_ok(t) {
                Option::Some(EncodeError::PropertyTooLarge)
            } else {
                Option::None
            }
        },
        Mode::Passthrough => {
            if !lens_ok(t) {
                Option::Some(EncodeError::PropertyTooLarge)
            } else {
                Option::None
            }
        },
    }
}

} // verus!
