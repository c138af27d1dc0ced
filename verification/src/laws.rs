//! The guarantees the encoder gives, stated and proved once and for
//! all: success and failure conditions, round-trip fidelity, the
//! property block invariant, and link fidelity in compact mode.

use vstd::prelude::*;
use crate::decode::{dec_trace, lemma_dec_trace, wire_set_wf, wire_trace_wf};
use crate::mapper::{compact_map_of, lemma_compact_map_positions};
use crate::model::{Link, Mode, EncodeError, SpanSet, TraceDetails};
use crate::model::{MAX_PROPERTY_LEN, cap_ok, encode_err, flatten_spans, lens_ok, link_target,
    links_ok, owners_ok, sum_lens, trace_spans, trace_wf, unique_ids};
use crate::wire::{WireSpanSet, link_kind_byte, spec_encode, trace_map, wire_id,
    wire_link_id, wire_props, wire_span, wire_span_set, wire_trace};

verus! {

/// Machine bounds any snapshot held in memory satisfies: every count
/// fits the 64-bit length prefixes of the wire format.
pub open spec fn trace_sized(t: TraceDetails) -> bool {
    &&& t.span_sets@.len() < 0x10000000000000000
    &&& forall|i: int|
        0 <= i < t.span_sets@.len() ==> {
            let ss = #[trigger] t.span_sets@[i];
            &&& ss.spans@.len() < 0x10000000000000000
            &&& ss.properties.span_ids@.len() < 0x10000000000000000
            &&& ss.properties.payload@.len() < 0x10000000000000000
        }
}

/// Total number of spans across the span-set records of a wire trace.
pub open spec fn wire_span_count(sets: Seq<WireSpanSet>) -> int
    decreases sets.len(),
{
    if sets.len() == 0 {
        0
    } else {
        wire_span_count(sets.drop_last()) + sets.last().spans.len()
    }
}

/// Sum of a wire length column.
pub open spec fn sum16(ls: Seq<u16>) -> int
    decreases ls.len(),
{
    if ls.len() == 0 {
        0
    } else {
        sum16(ls.drop_last()) + ls.last()
    }
}

/// The wire image of a well-formed, in-memory snapshot satisfies the
/// structural bounds under which a reader recovers it.
proof fn lemma_wire_trace_wf(t: TraceDetails, mode: Mode)
    requires
        trace_wf(t),
        trace_sized(t),
    ensures
        wire_trace_wf(wire_trace(t, mode)),
{
    let w = wire_trace(t, mode);
    let m = trace_map(t, mode);
    assert forall|i: int| 0 <= i < w.span_sets.len() implies wire_set_wf(
        #[trigger] w.span_sets[i],
    ) by {
        assert(w.span_sets[i] == wire_span_set(m, mode, t.span_sets@[i]));
    }
}

/// The wire image carries exactly as many span records as the snapshot
/// holds spans.
proof fn lemma_wire_count_of(sets: Seq<SpanSet>, m: Map<u64, u16>, mode: Mode)
    ensures
        wire_span_count(sets.map_values(|ss: SpanSet| wire_span_set(m, mode, ss)))
            == flatten_spans(sets).len(),
    decreases sets.len(),
{
    let f = |ss: SpanSet| wire_span_set(m, mode, ss);
    if sets.len() == 0 {
        assert(sets.map_values(f) =~= Seq::<WireSpanSet>::empty());
    } else {
        lemma_wire_count_of(sets.drop_last(), m, mode);
        assert(sets.map_values(f).drop_last() =~= sets.drop_last().map_values(f));
        assert(sets.map_values(f).last() == f(sets.last()));
    }
}

/// Success of compact encoding: a consistent snapshot whose span count
/// fits the compact identifier space is encoded without error, and a
/// reader of the buffer finds exactly that span count.  (A snapshot
/// that fits but carries a duplicate identifier, a dangling link, or a
/// property longer than the 16-bit field is rejected instead, with the
/// matching error.)
pub proof fn lemma_compact_encoding_succeeds(t: TraceDetails)
    requires
        trace_wf(t),
        trace_sized(t),
        cap_ok(t),
        unique_ids(trace_spans(t)),
        links_ok(t),
        owners_ok(t),
        lens_ok(t),
    ensures
        encode_err(t, Mode::Compact) is None,
        wire_span_count(dec_trace(spec_encode(t, Mode::Compact)).span_sets) == trace_spans(
            t,
        ).len(),
{
    lemma_wire_trace_wf(t, Mode::Compact);
    lemma_dec_trace(wire_trace(t, Mode::Compact));
    lemma_wire_count_of(t.span_sets@, trace_map(t, Mode::Compact), Mode::Compact);
}

/// Failure on capacity: a snapshot whose span count reaches the
/// compact identifier limit is rejected with the capacity error,
/// whatever else it holds; the encoder then leaves the buffer in its
/// pre-call state.
pub proof fn lemma_capacity_exceeded(t: TraceDetails)
    requires
        trace_spans(t).len() >= 0x10000,
    ensures
        encode_err(t, Mode::Compact) == Option::Some(EncodeError::CapacityExceeded),
{
}

/// An overlong property payload is rejected in either mode, before
/// anything is written: the encoder's contract returns the buffer in
/// its pre-call state on every error.
pub proof fn lemma_property_too_large(t: TraceDetails, mode: Mode)
    requires
        encode_err(t, mode) == Option::Some(EncodeError::PropertyTooLarge),
    ensures
        !lens_ok(t),
        exists|i: int, j: int|
            0 <= i < t.span_sets@.len() && 0 <= j < t.span_sets@[i].properties.lengths@.len()
                && (#[trigger] t.span_sets@[i].properties.lengths@[j]) > MAX_PROPERTY_LEN,
{
    assert(!lens_ok(t));
    let (i, j) = choose|i: int, j: int|
        0 <= i < t.span_sets@.len() && 0 <= j < t.span_sets@[i].properties.lengths@.len() && !((
        #[trigger] t.span_sets@[i].properties.lengths@[j]) <= MAX_PROPERTY_LEN);
    assert(t.span_sets@[i].properties.lengths@[j] > MAX_PROPERTY_LEN);
}

/// Round trip: decoding the encoded buffer of any well-formed snapshot
/// recovers its wire image exactly, in either mode — every span's
/// cycles and event tag bit for bit, its link kind, and its identifier
/// as the mode resolves it.
pub proof fn lemma_round_trip(t: TraceDetails, mode: Mode)
    requires
        trace_wf(t),
        trace_sized(t),
    ensures
        dec_trace(spec_encode(t, mode)) == wire_trace(t, mode),
        forall|i: int, j: int|
            0 <= i < t.span_sets@.len() && 0 <= j < t.span_sets@[i].spans@.len() ==> {
                let s = (#[trigger] t.span_sets@[i].spans@[j]);
                let d = dec_trace(spec_encode(t, mode)).span_sets[i].spans[j];
                &&& d.begin_cycles == s.begin_cycles
                &&& d.elapsed_cycles == s.elapsed_cycles
                &&& d.event == s.event
                &&& d.link_kind == link_kind_byte(s.link)
                &&& d.id == wire_id(trace_map(t, mode), mode, s.id)
                &&& d.link_id == wire_link_id(trace_map(t, mode), mode, s.link)
            },
{
    lemma_wire_trace_wf(t, mode);
    lemma_dec_trace(wire_trace(t, mode));
    let w = wire_trace(t, mode);
    let m = trace_map(t, mode);
    assert forall|i: int, j: int|
        0 <= i < t.span_sets@.len() && 0 <= j < t.span_sets@[i].spans@.len() implies {
        let s = (#[trigger] t.span_sets@[i].spans@[j]);
        let d = dec_trace(spec_encode(t, mode)).span_sets[i].spans[j];
        &&& d.begin_cycles == s.begin_cycles
        &&& d.elapsed_cycles == s.elapsed_cycles
        &&& d.event == s.event
        &&& d.link_kind == link_kind_byte(s.link)
        &&& d.id == wire_id(m, mode, s.id)
        &&& d.link_id == wire_link_id(m, mode, s.link)
    } by {
        assert(w.span_sets[i] == wire_span_set(m, mode, t.span_sets@[i]));
        assert(w.span_sets[i].spans[j] == wire_span(m, mode, t.span_sets@[i].spans@[j]));
    }
}

/// Sums agree between a length column and its 16-bit wire image, as
/// long as each length fits the field.
proof fn lemma_sum_map16(ls: Seq<u64>)
    requires
        forall|k: int| 0 <= k < ls.len() ==> (#[trigger] ls[k]) <= MAX_PROPERTY_LEN,
    ensures
        sum16(ls.map_values(|l: u64| l as u16)) == sum_lens(ls),
    decreases ls.len(),
{
    let f = |l: u64| l as u16;
    if ls.len() == 0 {
        assert(ls.map_values(f) =~= Seq::<u16>::empty());
    } else {
        assert(forall|k: int| 0 <= k < ls.drop_last().len() ==> (#[trigger] ls.drop_last()[k])
            <= MAX_PROPERTY_LEN);
        lemma_sum_map16(ls.drop_last());
        assert(ls.map_values(f).drop_last() =~= ls.drop_last().map_values(f));
        assert(ls.map_values(f).last() == f(ls.last()));
        assert(ls.last() <= MAX_PROPERTY_LEN);
    }
}

/// Property block invariant: in every encoded span-set, the length
/// column of the wire image sums to its payload's byte count, the
/// payload is carried verbatim, each wire length equals the original,
/// and slicing the payload by cumulative lengths recovers each span's
/// original payload slice exactly.
pub proof fn lemma_property_block_invariant(t: TraceDetails, mode: Mode, i: int)
    requires
        trace_wf(t),
        lens_ok(t),
        0 <= i < t.span_sets@.len(),
    ensures
        ({
            let wp = wire_trace(t, mode).span_sets[i].properties;
            let p = t.span_sets@[i].properties;
            &&& wp.span_ids.len() == wp.lengths.len()
            &&& sum16(wp.lengths) == wp.payload.len()
            &&& wp.payload == p.payload@
            &&& forall|j: int|
                0 <= j < wp.lengths.len() ==> (#[trigger] wp.lengths[j]) as int == p.lengths@[j]
            &&& forall|j: int|
                0 <= j <= wp.lengths.len() ==> sum16(#[trigger] wp.lengths.take(j)) == sum_lens(
                    p.lengths@.take(j),
                )
            &&& forall|j: int|
                0 <= j < wp.lengths.len() ==> #[trigger] wp.payload.subrange(
                    sum16(wp.lengths.take(j)),
                    sum16(wp.lengths.take(j + 1)),
                ) == p.payload@.subrange(
                    sum_lens(p.lengths@.take(j)),
                    sum_lens(p.lengths@.take(j + 1)),
                )
        }),
{
    let m = trace_map(t, mode);
    let w = wire_trace(t, mode);
    let p = t.span_sets@[i].properties;
    assert(w.span_sets[i] == wire_span_set(m, mode, t.span_sets@[i]));
    let wp = w.span_sets[i].properties;
    assert(wp == wire_props(m, mode, p));
    let f = |l: u64| l as u16;
    assert(forall|k: int| 0 <= k < p.lengths@.len() ==> (#[trigger] p.lengths@[k])
        <= MAX_PROPERTY_LEN);
    assert forall|j: int| 0 <= j <= wp.lengths.len() implies sum16(
        #[trigger] wp.lengths.take(j),
    ) == sum_lens(p.lengths@.take(j)) by {
        assert(forall|k: int| 0 <= k < p.lengths@.take(j).len() ==> (
        #[trigger] p.lengths@.take(j)[k]) <= MAX_PROPERTY_LEN);
        lemma_sum_map16(p.lengths@.take(j));
        assert(wp.lengths.take(j) =~= p.lengths@.take(j).map_values(f));
    }
    assert(wp.lengths.take(wp.lengths.len() as int) =~= wp.lengths);
    assert(p.lengths@.take(p.lengths@.len() as int) =~= p.lengths@);
    assert(sum16(wp.lengths) == sum_lens(p.lengths@));
}

/// Link fidelity for root spans in compact mode: a root span's wire
/// record carries link kind 0 and target 0.
pub proof fn lemma_link_root(t: TraceDetails, i: int, j: int)
    requires
        trace_wf(t),
        trace_sized(t),
        0 <= i < t.span_sets@.len(),
        0 <= j < t.span_sets@[i].spans@.len(),
        t.span_sets@[i].spans@[j].link == Link::Root,
    ensures
        ({
            let d = dec_trace(spec_encode(t, Mode::Compact)).span_sets[i].spans[j];
            d.link_kind == 0 && d.link_id == 0
        }),
{
    lemma_round_trip(t, Mode::Compact);
    let m = trace_map(t, Mode::Compact);
    assert(wire_trace(t, Mode::Compact).span_sets[i] == wire_span_set(
        m,
        Mode::Compact,
        t.span_sets@[i],
    ));
    assert(wire_trace(t, Mode::Compact).span_sets[i].spans[j] == wire_span(
        m,
        Mode::Compact,
        t.span_sets@[i].spans@[j],
    ));
}

/// Link fidelity in compact mode: a span that links to another span
/// decodes to the matching link kind, and its decoded target is the
/// target span's own decoded identifier — not the original one.
pub proof fn lemma_link_fidelity(t: TraceDetails, i: int, j: int, a: int, b: int)
    requires
        trace_wf(t),
        trace_sized(t),
        0 <= i < t.span_sets@.len(),
        0 <= j < t.span_sets@[i].spans@.len(),
        0 <= a < t.span_sets@.len(),
        0 <= b < t.span_sets@[a].spans@.len(),
        link_target(t.span_sets@[i].spans@[j].link) == Option::Some(
            t.span_sets@[a].spans@[b].id,
        ),
    ensures
        ({
            let d = dec_trace(spec_encode(t, Mode::Compact));
            let s = t.span_sets@[i].spans@[j];
            &&& d.span_sets[i].spans[j].link_id == d.span_sets[a].spans[b].id
            &&& (s.link is Parent ==> d.span_sets[i].spans[j].link_kind == 1)
            &&& (s.link is Continue ==> d.span_sets[i].spans[j].link_kind == 2)
        }),
{
    lemma_round_trip(t, Mode::Compact);
    let m = trace_map(t, Mode::Compact);
    let w = wire_trace(t, Mode::Compact);
    assert(w.span_sets[i] == wire_span_set(m, Mode::Compact, t.span_sets@[i]));
    assert(w.span_sets[i].spans[j] == wire_span(m, Mode::Compact, t.span_sets@[i].spans@[j]));
    assert(w.span_sets[a] == wire_span_set(m, Mode::Compact, t.span_sets@[a]));
    assert(w.span_sets[a].spans[b] == wire_span(m, Mode::Compact, t.span_sets@[a].spans@[b]));
}

/// Encounter order: in compact mode the span at flattened position `k`
/// is assigned compact identifier `k + 1`; the mapping is a bijection
/// onto `[1, count]`.
pub proof fn lemma_encounter_order(t: TraceDetails, k: int)
    requires
        cap_ok(t),
        unique_ids(trace_spans(t)),
        0 <= k < trace_spans(t).len(),
    ensures
        compact_map_of(trace_spans(t)).contains_key(trace_spans(t)[k].id),
        compact_map_of(trace_spans(t))[trace_spans(t)[k].id] == k + 1,
{
    lemma_compact_map_positions(trace_spans(t));
}

} // verus!
