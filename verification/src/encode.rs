//! The encoder: a single bottom-up pass that turns a snapshot into the
//! byte buffer `wire` describes, after validating capacity, identifier
//! consistency and the property-length limit so that nothing is ever
//! written for a snapshot that is rejected.

use vstd::prelude::*;
use crate::mapper::{IdMapper, lemma_compact_map_dom, lemma_flatten_take_prefix,
    lemma_flatten_take_succ};
use crate::model::{EncodeError, Link, Mode, PropertyBlock, SpanSet, TraceDetails};
use crate::model::{MAX_PROPERTY_LEN, encode_err, flatten_spans, id_present, lens_ok, link_target,
    links_ok, owners_ok, prop_block_wf, trace_spans, trace_wf};
use crate::wire::{FORMAT_VERSION, enc_props, enc_sets, enc_span, enc_span_set, enc_spans,
    enc_trace, enc_u16s, le16, le32, le64, lemma_enc_sets_push, lemma_enc_spans_push,
    lemma_enc_u16s_push, spec_encode, trace_map, wire_id, wire_props, wire_span,
    wire_span_set, wire_trace};

verus! {

// ----- little-endian scalar emission -----

/// Appends a 16-bit scalar, little-endian.
fn push_u16(out: &mut Vec<u8>, v: u16)
    ensures
        final(out)@ == old(out)@ + le16(v),
{
    out.push((v & 0xff) as u8);
    out.push(((v >> 8) & 0xff) as u8);
    proof {
        assert(out@ =~= old(out)@ + le16(v));
    }
}

/// Appends a 32-bit scalar, little-endian.
fn push_u32(out: &mut Vec<u8>, v: u32)
    ensures
        final(out)@ == old(out)@ + le32(v),
{
    out.push((v & 0xff) as u8);
    out.push(((v >> 8) & 0xff) as u8);
    out.push(((v >> 16) & 0xff) as u8);
    out.push(((v >> 24) & 0xff) as u8);
    proof {
        assert(out@ =~= old(out)@ + le32(v));
    }
}

/// Appends a 64-bit scalar, little-endian.
fn push_u64(out: &mut Vec<u8>, v: u64)
    ensures
        final(out)@ == old(out)@ + le64(v),
{
    out.push((v & 0xff) as u8);
    out.push(((v >> 8) & 0xff) as u8);
    out.push(((v >> 16) & 0xff) as u8);
    out.push(((v >> 24) & 0xff) as u8);
    out.push(((v >> 32) & 0xff) as u8);
    out.push(((v >> 40) & 0xff) as u8);
    out.push(((v >> 48) & 0xff) as u8);
    out.push(((v >> 56) & 0xff) as u8);
    proof {
        assert(out@ =~= old(out)@ + le64(v));
    }
}

/// Appends a byte buffer verbatim.
fn push_bytes(out: &mut Vec<u8>, bytes: &Vec<u8>)
    ensures
        final(out)@ == old(out)@ + bytes@,
{
    let n = bytes.len();
    for i in 0..n
        invariant
            n == bytes@.len(),
            out@ == old(out)@ + bytes@.take(i as int),
    {
        out.push(bytes[i]);
        proof {
            assert(bytes@.take(i + 1) =~= bytes@.take(i as int).push(bytes@[i as int]));
            assert(out@ =~= old(out)@ + bytes@.take(i + 1));
        }
    }
    proof {
        assert(bytes@.take(n as int) =~= bytes@);
    }
}

// ----- resolving identifiers under the selected strategy -----

/// The identifier mapping an emit call works under: the compact table,
/// or none in passthrough mode.
pub open spec fn mapper_model(mo: Option<&IdMapper>) -> Map<u64, u16> {
    match mo {
        Option::Some(m) => m@,
        Option::None => Map::empty(),
    }
}

/// The strategy an emit call works under.
pub open spec fn mapper_mode(mo: Option<&IdMapper>) -> Mode {
    match mo {
        Option::Some(_) => Mode::Compact,
        Option::None => Mode::Passthrough,
    }
}

/// Every identifier this span set mentions — its spans' own, their
/// link targets, and its property owners — is registered in the table.
pub open spec fn set_ids_mapped(m: Map<u64, u16>, ss: SpanSet) -> bool {
    &&& forall|j: int|
        0 <= j < ss.spans@.len() ==> {
            let s = #[trigger] ss.spans@[j];
            &&& m.contains_key(s.id)
            &&& match link_target(s.link) {
                Option::Some(id) => m.contains_key(id),
                Option::None => true,
            }
        }
    &&& forall|j: int|
        0 <= j < ss.properties.span_ids@.len() ==> m.contains_key(
            #[trigger] ss.properties.span_ids@[j],
        )
}

/// The 16-bit identifier written for `id`: the link resolver's lookup
/// in compact mode, the truncated original in passthrough mode.
fn emit_id(mapper: Option<&IdMapper>, id: u64) -> (r: u16)
    requires
        mapper_mode(mapper) == Mode::Compact ==> mapper_model(mapper).contains_key(id),
    ensures
        r == wire_id(mapper_model(mapper), mapper_mode(mapper), id),
{
    match mapper {
        Option::Some(m) => m.map_id(id),
        Option::None => (id & 0xffff) as u16,
    }
}

/// Appends one span's fixed-width wire record.
fn emit_span(mapper: Option<&IdMapper>, s: &crate::model::Span, out: &mut Vec<u8>)
    requires
        mapper_mode(mapper) == Mode::Compact ==> mapper_model(mapper).contains_key(s.id),
        mapper_mode(mapper) == Mode::Compact ==> match link_target(s.link) {
            Option::Some(id) => mapper_model(mapper).contains_key(id),
            Option::None => true,
        },
    ensures
        final(out)@ == old(out)@ + enc_span(wire_span(mapper_model(mapper), mapper_mode(mapper), *s)),
{
    let wid = emit_id(mapper, s.id);
    let kind: u8;
    let lid: u16;
    match s.link {
        Link::Root => {
            kind = 0;
            lid = 0;
        },
        Link::Parent { id } => {
            kind = 1;
            lid = emit_id(mapper, id);
        },
        Link::Continue { id } => {
            kind = 2;
            lid = emit_id(mapper, id);
        },
    }
    push_u16(out, wid);
    out.push(kind);
    push_u16(out, lid);
    push_u64(out, s.begin_cycles);
    push_u64(out, s.elapsed_cycles);
    push_u32(out, s.event);
    proof {
        let w = wire_span(mapper_model(mapper), mapper_mode(mapper), *s);
        assert(wid == w.id && kind == w.link_kind && lid == w.link_id);
        assert(out@ =~= old(out)@ + enc_span(w));
    }
}

/// Appends one property block's three columns.
fn emit_props(mapper: Option<&IdMapper>, p: &PropertyBlock, out: &mut Vec<u8>)
    requires
        p.span_ids@.len() == p.lengths@.len(),
        mapper_mode(mapper) == Mode::Compact ==> forall|j: int|
            0 <= j < p.span_ids@.len() ==> mapper_model(mapper).contains_key(
                #[trigger] p.span_ids@[j],
            ),
    ensures
        final(out)@ == old(out)@ + enc_props(wire_props(mapper_model(mapper), mapper_mode(mapper), *p)),
{
    let ghost wp = wire_props(mapper_model(mapper), mapper_mode(mapper), *p);
    let n = p.span_ids.len();
    push_u64(out, n as u64);
    for i in 0..n
        invariant
            n == p.span_ids@.len(),
            n == p.lengths@.len(),
            wp == wire_props(mapper_model(mapper), mapper_mode(mapper), *p),
            mapper_mode(mapper) == Mode::Compact ==> forall|j: int|
                0 <= j < p.span_ids@.len() ==> mapper_model(mapper).contains_key(
                    #[trigger] p.span_ids@[j],
                ),
            out@ == old(out)@ + le64(n as u64) + enc_u16s(wp.span_ids.take(i as int)),
    {
        let w = emit_id(mapper, p.span_ids[i]);
        push_u16(out, w);
        proof {
            lemma_enc_u16s_push(wp.span_ids.take(i as int), wp.span_ids[i as int]);
            assert(wp.span_ids.take(i + 1) =~= wp.span_ids.take(i as int).push(
                wp.span_ids[i as int],
            ));
            assert(out@ =~= old(out)@ + le64(n as u64) + enc_u16s(wp.span_ids.take(i + 1)));
        }
    }
    proof {
        assert(wp.span_ids.take(n as int) =~= wp.span_ids);
    }
    for i in 0..n
        invariant
            n == p.span_ids@.len(),
            n == p.lengths@.len(),
            wp == wire_props(mapper_model(mapper), mapper_mode(mapper), *p),
            out@ == old(out)@ + le64(n as u64) + enc_u16s(wp.span_ids) + enc_u16s(
                wp.lengths.take(i as int),
            ),
    {
        let l = p.lengths[i];
        let lw: u16 = (l & 0xffff) as u16;
        proof {
            assert((l & 0xffff) as u16 == l as u16) by (bit_vector);
            lemma_enc_u16s_push(wp.lengths.take(i as int), wp.lengths[i as int]);
            assert(wp.lengths.take(i + 1) =~= wp.lengths.take(i as int).push(
                wp.lengths[i as int],
            ));
        }
        push_u16(out, lw);
        proof {
            assert(out@ =~= old(out)@ + le64(n as u64) + enc_u16s(wp.span_ids) + enc_u16s(
                wp.lengths.take(i + 1),
            ));
        }
    }
    proof {
        assert(wp.lengths.take(n as int) =~= wp.lengths);
    }
    push_u64(out, p.payload.len() as u64);
    push_bytes(out, &p.payload);
    proof {
        assert(out@ =~= old(out)@ + enc_props(wp));
    }
}

/// Appends one span-set record: timestamps, span column, property
/// block.
fn emit_span_set(mapper: Option<&IdMapper>, ss: &SpanSet, out: &mut Vec<u8>)
    requires
        prop_block_wf(ss.properties),
        mapper_mode(mapper) == Mode::Compact ==> set_ids_mapped(mapper_model(mapper), *ss),
    ensures
        final(out)@ == old(out)@ + enc_span_set(
            wire_span_set(mapper_model(mapper), mapper_mode(mapper), *ss),
        ),
{
    let ghost w = wire_span_set(mapper_model(mapper), mapper_mode(mapper), *ss);
    push_u64(out, ss.create_time_ns);
    push_u64(out, ss.start_time_ns);
    let n = ss.spans.len();
    push_u64(out, n as u64);
    let ghost head = le64(ss.create_time_ns) + le64(ss.start_time_ns) + le64(n as u64);
    for i in 0..n
        invariant
            n == ss.spans@.len(),
            w == wire_span_set(mapper_model(mapper), mapper_mode(mapper), *ss),
            head == le64(ss.create_time_ns) + le64(ss.start_time_ns) + le64(n as u64),
            mapper_mode(mapper) == Mode::Compact ==> set_ids_mapped(mapper_model(mapper), *ss),
            out@ == old(out)@ + head + enc_spans(w.spans.take(i as int)),
    {
        emit_span(mapper, &ss.spans[i], out);
        proof {
            lemma_enc_spans_push(w.spans.take(i as int), w.spans[i as int]);
            assert(w.spans.take(i + 1) =~= w.spans.take(i as int).push(w.spans[i as int]));
            assert(out@ =~= old(out)@ + head + enc_spans(w.spans.take(i + 1)));
        }
    }
    proof {
        assert(w.spans.take(n as int) =~= w.spans);
    }
    emit_props(mapper, &ss.properties, out);
    proof {
        assert(w.spans.len() == n as u64);
        assert(out@ =~= old(out)@ + enc_span_set(w));
    }
}

/// Appends the whole trace record for a validated snapshot.
fn emit_trace(mapper: Option<&IdMapper>, t: &TraceDetails, out: &mut Vec<u8>)
    requires
        trace_wf(*t),
        mapper_model(mapper) == trace_map(*t, mapper_mode(mapper)),
        mapper_mode(mapper) == Mode::Compact ==> forall|i: int|
            0 <= i < t.span_sets@.len() ==> set_ids_mapped(
                mapper_model(mapper),
                #[trigger] t.span_sets@[i],
            ),
    ensures
        final(out)@ == old(out)@ + enc_trace(wire_trace(*t, mapper_mode(mapper))),
{
    let ghost mode = mapper_mode(mapper);
    let ghost w = wire_trace(*t, mode);
    out.push(FORMAT_VERSION);
    let mb: u8 = match mapper {
        Option::Some(_) => 0,
        Option::None => 1,
    };
    out.push(mb);
    push_u64(out, t.start_time_ns);
    push_u64(out, t.elapsed_ns);
    push_u64(out, t.cycles_per_second);
    let n = t.span_sets.len();
    push_u64(out, n as u64);
    proof {
        assert(w.span_sets.len() == n);
        assert(w.mode == mb);
    }
    let ghost head = seq![FORMAT_VERSION, w.mode] + le64(t.start_time_ns) + le64(t.elapsed_ns)
        + le64(t.cycles_per_second) + le64(n as u64);
    proof {
        assert(out@ =~= old(out)@ + head);
    }
    for i in 0..n
        invariant
            n == t.span_sets@.len(),
            mode == mapper_mode(mapper),
            w == wire_trace(*t, mode),
            head == seq![FORMAT_VERSION, w.mode] + le64(t.start_time_ns) + le64(t.elapsed_ns)
                + le64(t.cycles_per_second) + le64(n as u64),
            trace_wf(*t),
            mapper_model(mapper) == trace_map(*t, mode),
            mode == Mode::Compact ==> forall|k: int|
                0 <= k < t.span_sets@.len() ==> set_ids_mapped(
                    mapper_model(mapper),
                    #[trigger] t.span_sets@[k],
                ),
            out@ == old(out)@ + head + enc_sets(w.span_sets.take(i as int)),
    {
        emit_span_set(mapper, &t.span_sets[i], out);
        proof {
            assert(wire_span_set(mapper_model(mapper), mode, t.span_sets@[i as int])
                == w.span_sets[i as int]);
            lemma_enc_sets_push(w.span_sets.take(i as int), w.span_sets[i as int]);
            assert(w.span_sets.take(i + 1) =~= w.span_sets.take(i as int).push(
                w.span_sets[i as int],
            ));
            assert(out@ =~= old(out)@ + head + enc_sets(w.span_sets.take(i + 1)));
        }
    }
    proof {
        assert(w.span_sets.take(n as int) =~= w.span_sets);
        assert(out@ =~= old(out)@ + enc_trace(w));
    }
}

// ----- validation passes -----

/// Reports whether every property payload length fits the 16-bit wire
/// field.
fn check_lens(t: &TraceDetails) -> (r: bool)
    ensures
        r == lens_ok(*t),
{
    let n = t.span_sets.len();
    for i in 0..n
        invariant
            n == t.span_sets@.len(),
            forall|a: int, b: int|
                0 <= a < i && 0 <= b < t.span_sets@[a].properties.lengths@.len() ==> (
                #[trigger] t.span_sets@[a].properties.lengths@[b]) <= MAX_PROPERTY_LEN,
    {
        let m = t.span_sets[i].properties.lengths.len();
        for j in 0..m
            invariant
                n == t.span_sets@.len(),
                i < n,
                m == t.span_sets@[i as int].properties.lengths@.len(),
                forall|a: int, b: int|
                    0 <= a < i && 0 <= b < t.span_sets@[a].properties.lengths@.len() ==> (
                    #[trigger] t.span_sets@[a].properties.lengths@[b]) <= MAX_PROPERTY_LEN,
                forall|b: int|
                    0 <= b < j ==> (#[trigger] t.span_sets@[i as int].properties.lengths@[b])
                        <= MAX_PROPERTY_LEN,
        {
            if t.span_sets[i].properties.lengths[j] > 0xffff {
                proof {
                    assert(t.span_sets@[i as int].properties.lengths@[j as int]
                        > MAX_PROPERTY_LEN);
                    assert(!lens_ok(*t));
                }
                return false;
            }
        }
    }
    true
}

/// Reports whether every link target and every property owner is a
/// registered identifier; the table must cover exactly the snapshot's
/// span identifiers.
fn check_refs(mapper: &IdMapper, t: &TraceDetails) -> (r: bool)
    requires
        forall|id: u64| mapper@.contains_key(id) <==> id_present(trace_spans(*t), id),
    ensures
        r == (links_ok(*t) && owners_ok(*t)),
{
    let n = t.span_sets.len();
    for i in 0..n
        invariant
            n == t.span_sets@.len(),
            forall|id: u64| mapper@.contains_key(id) <==> id_present(trace_spans(*t), id),
            forall|a: int, b: int|
                0 <= a < i && 0 <= b < t.span_sets@[a].spans@.len()
                    ==> match link_target((#[trigger] t.span_sets@[a].spans@[b]).link) {
                    Option::None => true,
                    Option::Some(id) => id_present(trace_spans(*t), id),
                },
            forall|a: int, b: int|
                0 <= a < i && 0 <= b < t.span_sets@[a].properties.span_ids@.len() ==> id_present(
                    trace_spans(*t),
                    #[trigger] t.span_sets@[a].properties.span_ids@[b],
                ),
    {
        let m = t.span_sets[i].spans.len();
        for j in 0..m
            invariant
                n == t.span_sets@.len(),
                i < n,
                m == t.span_sets@[i as int].spans@.len(),
                forall|id: u64| mapper@.contains_key(id) <==> id_present(trace_spans(*t), id),
                forall|b: int|
                    0 <= b < j ==> match link_target(
                        (#[trigger] t.span_sets@[i as int].spans@[b]).link,
                    ) {
                        Option::None => true,
                        Option::Some(id) => id_present(trace_spans(*t), id),
                    },
        {
            let target: Option<u64> = match t.span_sets[i].spans[j].link {
                Link::Root => Option::None,
                Link::Parent { id } => Option::Some(id),
                Link::Continue { id } => Option::Some(id),
            };
            if let Option::Some(id) = target {
                if mapper.lookup(id).is_none() {
                    proof {
                        assert(link_target(t.span_sets@[i as int].spans@[j as int].link)
                            == Option::Some(id));
                        assert(!links_ok(*t));
                    }
                    return false;
                }
            }
        }
        let q = t.span_sets[i].properties.span_ids.len();
        for j in 0..q
            invariant
                n == t.span_sets@.len(),
                i < n,
                q == t.span_sets@[i as int].properties.span_ids@.len(),
                forall|id: u64| mapper@.contains_key(id) <==> id_present(trace_spans(*t), id),
                forall|b: int|
                    0 <= b < j ==> id_present(
                        trace_spans(*t),
                        #[trigger] t.span_sets@[i as int].properties.span_ids@[b],
                    ),
        {
            if mapper.lookup(t.span_sets[i].properties.span_ids[j]).is_none() {
                proof {
                    assert(!owners_ok(*t));
                }
                return false;
            }
        }
        proof {
            assert(forall|b: int|
                0 <= b < t.span_sets@[i as int].spans@.len() ==> match link_target(
                    (#[trigger] t.span_sets@[i as int].spans@[b]).link,
                ) {
                    Option::None => true,
                    Option::Some(id) => id_present(trace_spans(*t), id),
                });
        }
    }
    true
}

// ----- the trace encoder -----

/// Every span of the snapshot is itself present in the flattened
/// sequence the mapper was built over.
proof fn lemma_nested_span_present(t: TraceDetails, i: int, j: int)
    requires
        0 <= i < t.span_sets@.len(),
        0 <= j < t.span_sets@[i].spans@.len(),
    ensures
        id_present(trace_spans(t), t.span_sets@[i].spans@[j].id),
{
    lemma_flatten_take_succ(t.span_sets@, i);
    lemma_flatten_take_prefix(t.span_sets@, i + 1);
    let off = flatten_spans(t.span_sets@.take(i)).len();
    assert(flatten_spans(t.span_sets@.take(i + 1))[off + j] == t.span_sets@[i].spans@[j]);
    assert(trace_spans(t)[off + j] == t.span_sets@[i].spans@[j]);
}

/// Top-level entry point: encodes one snapshot under the selected
/// strategy into the caller's buffer.  On success the buffer holds
/// exactly the wire image of the snapshot; on failure it is left in
/// its pre-call state, and the error says exactly why — see
/// `model::encode_err` for the order in which the causes are reported.
pub fn encode_trace(t: &TraceDetails, mode: Mode, out: &mut Vec<u8>) -> (r: Result<
    (),
    EncodeError,
>)
    requires
        trace_wf(*t),
    ensures
        match r {
            Result::Ok(_) => encode_err(*t, mode) is None && final(out)@ == spec_encode(*t, mode),
            Result::Err(e) => encode_err(*t, mode) == Option::Some(e) && final(out)@ == old(out)@,
        },
{
    match mode {
        Mode::Compact => {
            let mapper = match IdMapper::build(t) {
                Result::Ok(m) => m,
                Result::Err(e) => {
                    return Result::Err(e);
                },
            };
            proof {
                lemma_compact_map_dom(trace_spans(*t));
            }
            if !check_refs(&mapper, t) {
                return Result::Err(EncodeError::UnknownSpanId);
            }
            if !check_lens(t) {
                return Result::Err(EncodeError::PropertyTooLarge);
            }
            proof {
                assert forall|i: int| 0 <= i < t.span_sets@.len() implies set_ids_mapped(
                    mapper@,
                    #[trigger] t.span_sets@[i],
                ) by {
                    assert forall|j: int| 0 <= j < t.span_sets@[i].spans@.len() implies {
                        let s = #[trigger] t.span_sets@[i].spans@[j];
                        &&& mapper@.contains_key(s.id)
                        &&& match link_target(s.link) {
                            Option::Some(id) => mapper@.contains_key(id),
                            Option::None => true,
                        }
                    } by {
                        lemma_nested_span_present(*t, i, j);
                    }
                }
            }
            out.clear();
            emit_trace(Option::Some(&mapper), t, out);
            Result::Ok(())
        },
        Mode::Passthrough => {
            if !check_lens(t) {
                return Result::Err(EncodeError::PropertyTooLarge);
            }
            out.clear();
            emit_trace(Option::None, t, out);
            Result::Ok(())
        },
    }
}

/// Encodes with identifier compaction: span identifiers shrink to the
/// dense 16-bit space the identifier mapper assigns.
pub fn encode_compact(t: &TraceDetails, out: &mut Vec<u8>) -> (r: Result<(), EncodeError>)
    requires
        trace_wf(*t),
    ensures
        match r {
            Result::Ok(_) => encode_err(*t, Mode::Compact) is None && final(out)@ == spec_encode(
                *t,
                Mode::Compact,
            ),
            Result::Err(e) => encode_err(*t, Mode::Compact) == Option::Some(e) && final(out)@
                == old(out)@,
        },
{
    encode_trace(t, Mode::Compact, out)
}

/// Encodes without identifier mapping: original identifiers are
/// written truncated to 16 bits.
pub fn encode_passthrough(t: &TraceDetails, out: &mut Vec<u8>) -> (r: Result<(), EncodeError>)
    requires
        trace_wf(*t),
    ensures
        match r {
            Result::Ok(_) => encode_err(*t, Mode::Passthrough) is None && final(out)@
                == spec_encode(*t, Mode::Passthrough),
            Result::Err(e) => encode_err(*t, Mode::Passthrough) == Option::Some(e) && final(out)@
                == old(out)@,
        },
{
    encode_trace(t, Mode::Passthrough, out)
}

} // verus!
