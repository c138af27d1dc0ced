//! The wire level: what each record holds once identifiers are
//! resolved, and the exact byte sequence the encoder emits for it.
//!
//! All multi-byte scalars are little-endian.  A buffer is one trace
//! record: a two-byte header (format version, mode), the three global
//! scalars, and the length-prefixed sequence of span-set records.
//! Each span-set record holds its two timestamps, the length-prefixed
//! fixed-width span records, and the property block as three
//! length-prefixed columns.

use vstd::prelude::*;
use crate::mapper::compact_map_of;
use crate::model::{Link, Mode, PropertyBlock, Span, SpanSet, TraceDetails};
use crate::model::trace_spans;

verus! {

/// First byte of every buffer: the format version this layout defines.
pub const FORMAT_VERSION: u8 = 1;

/// One span, as it stands on the wire: identifier and link target
/// already resolved to the 16-bit space.
#[verifier::ext_equal]
pub ghost struct WireSpan {
    pub id: u16,
    pub link_kind: u8,
    pub link_id: u16,
    pub begin_cycles: u64,
    pub elapsed_cycles: u64,
    pub event: u32,
}

/// One property block on the wire: three parallel columns.
#[verifier::ext_equal]
pub ghost struct WireProperties {
    pub span_ids: Seq<u16>,
    pub lengths: Seq<u16>,
    pub payload: Seq<u8>,
}

/// One span-set record on the wire.
#[verifier::ext_equal]
pub ghost struct WireSpanSet {
    pub create_time_ns: u64,
    pub start_time_ns: u64,
    pub spans: Seq<WireSpan>,
    pub properties: WireProperties,
}

/// One whole trace record on the wire.
#[verifier::ext_equal]
pub ghost struct WireTrace {
    pub mode: u8,
    pub start_time_ns: u64,
    pub elapsed_ns: u64,
    pub cycles_per_second: u64,
    pub span_sets: Seq<WireSpanSet>,
}

// ----- resolving the model onto the wire -----

/// The byte that tags each encoding strategy.
pub open spec fn mode_byte(mode: Mode) -> u8 {
    match mode {
        Mode::Compact => 0,
        Mode::Passthrough => 1,
    }
}

/// The 16-bit identifier written for an original identifier: its
/// compact identifier under the mapping, or the original truncated.
pub open spec fn wire_id(m: Map<u64, u16>, mode: Mode, id: u64) -> u16 {
    match mode {
        Mode::Compact => m[id],
        Mode::Passthrough => (id & 0xffff) as u16,
    }
}

/// The byte that tags each link kind.
pub open spec fn link_kind_byte(l: Link) -> u8 {
    match l {
        Link::Root => 0,
        Link::Parent { .. } => 1,
        Link::Continue { .. } => 2,
    }
}

/// The 16-bit link target: 0 for a root span, otherwise the referenced
/// span's wire identifier.
pub open spec fn wire_link_id(m: Map<u64, u16>, mode: Mode, l: Link) -> u16 {
    match l {
        Link::Root => 0,
        Link::Parent { id } => wire_id(m, mode, id),
        Link::Continue { id } => wire_id(m, mode, id),
    }
}

/// Flattens one span into its wire record.
pub open spec fn wire_span(m: Map<u64, u16>, mode: Mode, s: Span) -> WireSpan {
    WireSpan {
        id: wire_id(m, mode, s.id),
        link_kind: link_kind_byte(s.link),
        link_id: wire_link_id(m, mode, s.link),
        begin_cycles: s.begin_cycles,
        elapsed_cycles: s.elapsed_cycles,
        event: s.event,
    }
}

/// Resolves one property block: owners through the identifier mapping,
/// lengths narrowed to the 16-bit field, payload verbatim.
pub open spec fn wire_props(m: Map<u64, u16>, mode: Mode, p: PropertyBlock) -> WireProperties {
    WireProperties {
        span_ids: p.span_ids@.map_values(|id: u64| wire_id(m, mode, id)),
        lengths: p.lengths@.map_values(|l: u64| l as u16),
        payload: p.payload@,
    }
}

/// Resolves one span set.
pub open spec fn wire_span_set(m: Map<u64, u16>, mode: Mode, ss: SpanSet) -> WireSpanSet {
    WireSpanSet {
        create_time_ns: ss.create_time_ns,
        start_time_ns: ss.start_time_ns,
        spans: ss.spans@.map_values(|s: Span| wire_span(m, mode, s)),
        properties: wire_props(m, mode, ss.properties),
    }
}

/// The identifier mapping a mode works under: the compact table built
/// over the whole snapshot, or none at all.
pub open spec fn trace_map(t: TraceDetails, mode: Mode) -> Map<u64, u16> {
    match mode {
        Mode::Compact => compact_map_of(trace_spans(t)),
        Mode::Passthrough => Map::empty(),
    }
}

/// The wire-level image of a whole snapshot under one strategy.
pub open spec fn wire_trace(t: TraceDetails, mode: Mode) -> WireTrace {
    WireTrace {
        mode: mode_byte(mode),
        start_time_ns: t.start_time_ns,
        elapsed_ns: t.elapsed_ns,
        cycles_per_second: t.cycles_per_second,
        span_sets: t.span_sets@.map_values(|ss: SpanSet| wire_span_set(trace_map(t, mode), mode, ss)),
    }
}

// ----- the bytes each wire record becomes -----

/// A 16-bit scalar, little-endian.
pub open spec fn le16(v: u16) -> Seq<u8> {
    seq![(v & 0xff) as u8, ((v >> 8) & 0xff) as u8]
}

/// A 32-bit scalar, little-endian.
pub open spec fn le32(v: u32) -> Seq<u8> {
    seq![
        (v & 0xff) as u8,
        ((v >> 8) & 0xff) as u8,
        ((v >> 16) & 0xff) as u8,
        ((v >> 24) & 0xff) as u8,
    ]
}

/// A 64-bit scalar, little-endian.
pub open spec fn le64(v: u64) -> Seq<u8> {
    seq![
        (v & 0xff) as u8,
        ((v >> 8) & 0xff) as u8,
        ((v >> 16) & 0xff) as u8,
        ((v >> 24) & 0xff) as u8,
        ((v >> 32) & 0xff) as u8,
        ((v >> 40) & 0xff) as u8,
        ((v >> 48) & 0xff) as u8,
        ((v >> 56) & 0xff) as u8,
    ]
}

/// One span record: 25 bytes, fixed width.
pub open spec fn enc_span(w: WireSpan) -> Seq<u8> {
    le16(w.id) + seq![w.link_kind] + le16(w.link_id) + le64(w.begin_cycles) + le64(
        w.elapsed_cycles,
    ) + le32(w.event)
}

/// A column of span records.
pub open spec fn enc_spans(ws: Seq<WireSpan>) -> Seq<u8>
    decreases ws.len(),
{
    if ws.len() == 0 {
        Seq::empty()
    } else {
        enc_span(ws.first()) + enc_spans(ws.drop_first())
    }
}

/// A column of 16-bit scalars.
pub open spec fn enc_u16s(vs: Seq<u16>) -> Seq<u8>
    decreases vs.len(),
{
    if vs.len() == 0 {
        Seq::empty()
    } else {
        le16(vs.first()) + enc_u16s(vs.drop_first())
    }
}

/// One property block record: entry count, owner column, length
/// column, then the length-prefixed payload.
pub open spec fn enc_props(p: WireProperties) -> Seq<u8> {
    le64(p.span_ids.len() as u64) + enc_u16s(p.span_ids) + enc_u16s(p.lengths) + le64(
        p.payload.len() as u64,
    ) + p.payload
}

/// One span-set record: timestamps, length-prefixed span column, then
/// the property block.
pub open spec fn enc_span_set(w: WireSpanSet) -> Seq<u8> {
    le64(w.create_time_ns) + le64(w.start_time_ns) + le64(w.spans.len() as u64) + enc_spans(
        w.spans,
    ) + enc_props(w.properties)
}

/// The ordered sequence of span-set records.
pub open spec fn enc_sets(ws: Seq<WireSpanSet>) -> Seq<u8>
    decreases ws.len(),
{
    if ws.len() == 0 {
        Seq::empty()
    } else {
        enc_span_set(ws.first()) + enc_sets(ws.drop_first())
    }
}

/// The whole buffer: header, global scalars, then the span sets.
pub open spec fn enc_trace(w: WireTrace) -> Seq<u8> {
    seq![FORMAT_VERSION, w.mode] + le64(w.start_time_ns) + le64(w.elapsed_ns) + le64(
        w.cycles_per_second,
    ) + le64(w.span_sets.len() as u64) + enc_sets(w.span_sets)
}

/// What one encoding call writes for a snapshot under one strategy.
pub open spec fn spec_encode(t: TraceDetails, mode: Mode) -> Seq<u8> {
    enc_trace(wire_trace(t, mode))
}

// ----- growth and size of the encoded columns -----

/// Encoding one more 16-bit scalar appends its two bytes.
pub proof fn lemma_enc_u16s_push(vs: Seq<u16>, v: u16)
    ensures
        enc_u16s(vs.push(v)) == enc_u16s(vs) + le16(v),
    decreases vs.len(),
{
    if vs.len() == 0 {
        assert(vs.push(v).drop_first() =~= Seq::<u16>::empty());
        assert(vs.push(v).first() == v);
        assert(enc_u16s(Seq::<u16>::empty()) == Seq::<u8>::empty());
        assert(enc_u16s(vs.push(v)) == le16(v) + Seq::<u8>::empty());
        assert(enc_u16s(vs.push(v)) =~= enc_u16s(vs) + le16(v));
    } else {
        assert(vs.push(v).drop_first() =~= vs.drop_first().push(v));
        assert(vs.push(v).first() == vs.first());
        lemma_enc_u16s_push(vs.drop_first(), v);
        assert(enc_u16s(vs.push(v)) == le16(vs.first()) + (enc_u16s(vs.drop_first()) + le16(v)));
        assert(le16(vs.first()) + (enc_u16s(vs.drop_first()) + le16(v)) =~= (le16(vs.first())
            + enc_u16s(vs.drop_first())) + le16(v));
    }
}

/// Encoding one more span record appends its 25 bytes.
pub proof fn lemma_enc_spans_push(ws: Seq<WireSpan>, w: WireSpan)
    ensures
        enc_spans(ws.push(w)) == enc_spans(ws) + enc_span(w),
    decreases ws.len(),
{
    if ws.len() == 0 {
        assert(ws.push(w).drop_first() =~= Seq::<WireSpan>::empty());
        assert(ws.push(w).first() == w);
        assert(enc_spans(Seq::<WireSpan>::empty()) == Seq::<u8>::empty());
        assert(enc_spans(ws.push(w)) == enc_span(w) + Seq::<u8>::empty());
        assert(enc_spans(ws.push(w)) =~= enc_spans(ws) + enc_span(w));
    } else {
        assert(ws.push(w).drop_first() =~= ws.drop_first().push(w));
        assert(ws.push(w).first() == ws.first());
        lemma_enc_spans_push(ws.drop_first(), w);
        assert(enc_spans(ws.push(w)) == enc_span(ws.first()) + (enc_spans(ws.drop_first())
            + enc_span(w)));
        assert(enc_span(ws.first()) + (enc_spans(ws.drop_first()) + enc_span(w)) =~= (enc_span(
            ws.first(),
        ) + enc_spans(ws.drop_first())) + enc_span(w));
    }
}

/// Encoding one more span-set record appends its bytes.
pub proof fn lemma_enc_sets_push(ws: Seq<WireSpanSet>, w: WireSpanSet)
    ensures
        enc_sets(ws.push(w)) == enc_sets(ws) + enc_span_set(w),
    decreases ws.len(),
{
    if ws.len() == 0 {
        assert(ws.push(w).drop_first() =~= Seq::<WireSpanSet>::empty());
        assert(ws.push(w).first() == w);
        assert(enc_sets(Seq::<WireSpanSet>::empty()) == Seq::<u8>::empty());
        assert(enc_sets(ws.push(w)) == enc_span_set(w) + Seq::<u8>::empty());
        assert(enc_sets(ws.push(w)) =~= enc_sets(ws) + enc_span_set(w));
    } else {
        assert(ws.push(w).drop_first() =~= ws.drop_first().push(w));
        assert(ws.push(w).first() == ws.first());
        lemma_enc_sets_push(ws.drop_first(), w);
        assert(enc_sets(ws.push(w)) == enc_span_set(ws.first()) + (enc_sets(ws.drop_first())
            + enc_span_set(w)));
        assert(enc_span_set(ws.first()) + (enc_sets(ws.drop_first()) + enc_span_set(w))
            =~= (enc_span_set(ws.first()) + enc_sets(ws.drop_first())) + enc_span_set(w));
    }
}

/// A span column is 25 bytes per record.
pub proof fn lemma_enc_spans_len(ws: Seq<WireSpan>)
    ensures
        enc_spans(ws).len() == 25 * ws.len(),
    decreases ws.len(),
{
    if ws.len() > 0 {
        lemma_enc_spans_len(ws.drop_first());
    }
}

/// A 16-bit column is 2 bytes per entry.
pub proof fn lemma_enc_u16s_len(vs: Seq<u16>)
    ensures
        enc_u16s(vs).len() == 2 * vs.len(),
    decreases vs.len(),
{
    if vs.len() > 0 {
        lemma_enc_u16s_len(vs.drop_first());
    }
}

} // verus!
