//! The reader's view of the wire format, at specification level: what
//! a mechanical inverse of the encoder recovers from a buffer, and the
//! proof that it recovers exactly the wire records that were encoded.

use vstd::prelude::*;
use crate::wire::{WireProperties, WireSpan, WireSpanSet, WireTrace};
use crate::wire::{enc_props, enc_span, enc_span_set, enc_spans, enc_sets, enc_trace, enc_u16s,
    le16, le32, le64, lemma_enc_spans_len, lemma_enc_u16s_len};

verus! {

// ----- reading little-endian scalars -----

/// A 16-bit scalar from its two little-endian bytes.
pub open spec fn u16_from(b0: u8, b1: u8) -> u16 {
    (b0 as u16) | ((b1 as u16) << 8)
}

/// A 32-bit scalar from its four little-endian bytes.
pub open spec fn u32_from(b0: u8, b1: u8, b2: u8, b3: u8) -> u32 {
    (b0 as u32) | ((b1 as u32) << 8) | ((b2 as u32) << 16) | ((b3 as u32) << 24)
}

/// A 64-bit scalar from its eight little-endian bytes.
pub open spec fn u64_from(
    b0: u8,
    b1: u8,
    b2: u8,
    b3: u8,
    b4: u8,
    b5: u8,
    b6: u8,
    b7: u8,
) -> u64 {
    (b0 as u64) | ((b1 as u64) << 8) | ((b2 as u64) << 16) | ((b3 as u64) << 24) | ((b4
        as u64) << 32) | ((b5 as u64) << 40) | ((b6 as u64) << 48) | ((b7 as u64) << 56)
}

/// The 16-bit scalar at offset `i`.
pub open spec fn dec_u16(s: Seq<u8>, i: int) -> u16 {
    u16_from(s[i], s[i + 1])
}

/// The 32-bit scalar at offset `i`.
pub open spec fn dec_u32(s: Seq<u8>, i: int) -> u32 {
    u32_from(s[i], s[i + 1], s[i + 2], s[i + 3])
}

/// The 64-bit scalar at offset `i`.
pub open spec fn dec_u64(s: Seq<u8>, i: int) -> u64 {
    u64_from(s[i], s[i + 1], s[i + 2], s[i + 3], s[i + 4], s[i + 5], s[i + 6], s[i + 7])
}

// ----- reading records -----

/// The span record at offset `i`.
pub open spec fn dec_span(s: Seq<u8>, i: int) -> WireSpan {
    WireSpan {
        id: dec_u16(s, i),
        link_kind: s[i + 2],
        link_id: dec_u16(s, i + 3),
        begin_cycles: dec_u64(s, i + 5),
        elapsed_cycles: dec_u64(s, i + 13),
        event: dec_u32(s, i + 21),
    }
}

/// `n` consecutive span records starting at offset `i`.
pub open spec fn dec_spans(s: Seq<u8>, i: int, n: nat) -> Seq<WireSpan>
    decreases n,
{
    if n == 0 {
        Seq::empty()
    } else {
        seq![dec_span(s, i)] + dec_spans(s, i + 25, (n - 1) as nat)
    }
}

/// `n` consecutive 16-bit scalars starting at offset `i`.
pub open spec fn dec_u16s(s: Seq<u8>, i: int, n: nat) -> Seq<u16>
    decreases n,
{
    if n == 0 {
        Seq::empty()
    } else {
        seq![dec_u16(s, i)] + dec_u16s(s, i + 2, (n - 1) as nat)
    }
}

/// The property block record at offset `i`: its entry count prefixes
/// the two columns, and its payload length prefixes the payload.
pub open spec fn dec_props(s: Seq<u8>, i: int) -> WireProperties {
    let n = dec_u64(s, i) as int;
    let pl = dec_u64(s, i + 8 + 4 * n) as int;
    WireProperties {
        span_ids: dec_u16s(s, i + 8, n as nat),
        lengths: dec_u16s(s, i + 8 + 2 * n, n as nat),
        payload: s.subrange(i + 16 + 4 * n, i + 16 + 4 * n + pl),
    }
}

/// How many bytes the property block record at offset `i` spans.
pub open spec fn props_size_at(s: Seq<u8>, i: int) -> int {
    let n = dec_u64(s, i) as int;
    16 + 4 * n + dec_u64(s, i + 8 + 4 * n) as int
}

/// The span-set record at offset `i`.
pub open spec fn dec_span_set(s: Seq<u8>, i: int) -> WireSpanSet {
    let n = dec_u64(s, i + 16) as int;
    WireSpanSet {
        create_time_ns: dec_u64(s, i),
        start_time_ns: dec_u64(s, i + 8),
        spans: dec_spans(s, i + 24, n as nat),
        properties: dec_props(s, i + 24 + 25 * n),
    }
}

/// How many bytes the span-set record at offset `i` spans.
pub open spec fn set_size_at(s: Seq<u8>, i: int) -> int {
    let n = dec_u64(s, i + 16) as int;
    24 + 25 * n + props_size_at(s, i + 24 + 25 * n)
}

/// `n` consecutive span-set records starting at offset `i`.
pub open spec fn dec_sets(s: Seq<u8>, i: int, n: nat) -> Seq<WireSpanSet>
    decreases n,
{
    if n == 0 {
        Seq::empty()
    } else {
        seq![dec_span_set(s, i)] + dec_sets(s, i + set_size_at(s, i), (n - 1) as nat)
    }
}

/// The whole trace record a buffer holds.
pub open spec fn dec_trace(s: Seq<u8>) -> WireTrace {
    WireTrace {
        mode: s[1],
        start_time_ns: dec_u64(s, 2),
        elapsed_ns: dec_u64(s, 10),
        cycles_per_second: dec_u64(s, 18),
        span_sets: dec_sets(s, 34, dec_u64(s, 26) as nat),
    }
}

// ----- structural bounds under which the counts fit their prefixes -----

/// The column lengths of a wire property block are consistent and each
/// count fits its 64-bit prefix.
pub open spec fn wire_props_wf(p: WireProperties) -> bool {
    &&& p.span_ids.len() == p.lengths.len()
    &&& p.span_ids.len() < 0x10000000000000000
    &&& p.payload.len() < 0x10000000000000000
}

/// The span count of a wire span set fits its prefix.
pub open spec fn wire_set_wf(w: WireSpanSet) -> bool {
    &&& w.spans.len() < 0x10000000000000000
    &&& wire_props_wf(w.properties)
}

/// Every count in a wire trace fits its prefix.
pub open spec fn wire_trace_wf(w: WireTrace) -> bool {
    &&& w.span_sets.len() < 0x10000000000000000
    &&& forall|i: int| 0 <= i < w.span_sets.len() ==> wire_set_wf(#[trigger] w.span_sets[i])
}

// ----- each reader recovers what the encoder wrote -----

/// A window of `s` that holds the concatenation `a + b` splits into
/// the window of `a` and the window of `b`.
pub proof fn lemma_window_split(s: Seq<u8>, i: int, a: Seq<u8>, b: Seq<u8>)
    requires
        0 <= i,
        i + a.len() + b.len() <= s.len(),
        s.subrange(i, i + a.len() + b.len()) == a + b,
    ensures
        s.subrange(i, i + a.len()) == a,
        s.subrange(i + a.len(), i + a.len() + b.len()) == b,
{
    let al = a.len() as int;
    let bl = b.len() as int;
    assert(s.subrange(i, i + al) =~= a) by {
        assert forall|k: int| 0 <= k < al implies s.subrange(i, i + al)[k] == a[k] by {
            assert(s.subrange(i, i + al + bl)[k] == s[i + k]);
            assert((a + b)[k] == a[k]);
            assert(s.subrange(i, i + al)[k] == s[i + k]);
        }
    }
    assert(s.subrange(i + al, i + al + bl) =~= b) by {
        assert forall|k: int| 0 <= k < bl implies s.subrange(i + al, i + al + bl)[k] == b[k] by {
            assert(s.subrange(i, i + al + bl)[al + k] == s[i + al + k]);
            assert((a + b)[al + k] == b[k]);
            assert(s.subrange(i + al, i + al + bl)[k] == s[i + al + k]);
        }
    }
}

/// Reading back a 16-bit scalar.
pub proof fn lemma_dec_le16(s: Seq<u8>, i: int, v: u16)
    requires
        0 <= i,
        i + 2 <= s.len(),
        s.subrange(i, i + 2) == le16(v),
    ensures
        dec_u16(s, i) == v,
{
    assert(s[i] == le16(v)[0] && s[i + 1] == le16(v)[1]) by {
        assert(s.subrange(i, i + 2)[0] == s[i]);
        assert(s.subrange(i, i + 2)[1] == s[i + 1]);
    }
    assert(u16_from((v & 0xff) as u8, ((v >> 8) & 0xff) as u8) == v) by (bit_vector);
}

/// Reading back a 32-bit scalar.
pub proof fn lemma_dec_le32(s: Seq<u8>, i: int, v: u32)
    requires
        0 <= i,
        i + 4 <= s.len(),
        s.subrange(i, i + 4) == le32(v),
    ensures
        dec_u32(s, i) == v,
{
    assert forall|k: int| 0 <= k < 4 implies s[i + k] == le32(v)[k] by {
        assert(s.subrange(i, i + 4)[k] == s[i + k]);
    }
    assert(s[i] == le32(v)[0] && s[i + 1] == le32(v)[1] && s[i + 2] == le32(v)[2] && s[i + 3]
        == le32(v)[3]);
    assert(u32_from(
        (v & 0xff) as u8,
        ((v >> 8) & 0xff) as u8,
        ((v >> 16) & 0xff) as u8,
        ((v >> 24) & 0xff) as u8,
    ) == v) by (bit_vector);
}

/// Reading back a 64-bit scalar.
pub proof fn lemma_dec_le64(s: Seq<u8>, i: int, v: u64)
    requires
        0 <= i,
        i + 8 <= s.len(),
        s.subrange(i, i + 8) == le64(v),
    ensures
        dec_u64(s, i) == v,
{
    assert forall|k: int| 0 <= k < 8 implies s[i + k] == le64(v)[k] by {
        assert(s.subrange(i, i + 8)[k] == s[i + k]);
    }
    assert(s[i] == le64(v)[0] && s[i + 1] == le64(v)[1] && s[i + 2] == le64(v)[2] && s[i + 3]
        == le64(v)[3] && s[i + 4] == le64(v)[4] && s[i + 5] == le64(v)[5] && s[i + 6] == le64(
        v,
    )[6] && s[i + 7] == le64(v)[7]);
    assert(u64_from(
        (v & 0xff) as u8,
        ((v >> 8) & 0xff) as u8,
        ((v >> 16) & 0xff) as u8,
        ((v >> 24) & 0xff) as u8,
        ((v >> 32) & 0xff) as u8,
        ((v >> 40) & 0xff) as u8,
        ((v >> 48) & 0xff) as u8,
        ((v >> 56) & 0xff) as u8,
    ) == v) by (bit_vector);
}

/// Reading back one span record.
pub proof fn lemma_dec_span(s: Seq<u8>, i: int, w: WireSpan)
    requires
        0 <= i,
        i + 25 <= s.len(),
        s.subrange(i, i + 25) == enc_span(w),
    ensures
        dec_span(s, i) == w,
{
    let p1 = le16(w.id);
    let p2 = seq![w.link_kind];
    let p3 = le16(w.link_id);
    let p4 = le64(w.begin_cycles);
    let p5 = le64(w.elapsed_cycles);
    let p6 = le32(w.event);
    assert(enc_span(w) == p1 + p2 + p3 + p4 + p5 + p6);
    lemma_window_split(s, i, p1 + p2 + p3 + p4 + p5, p6);
    lemma_window_split(s, i, p1 + p2 + p3 + p4, p5);
    lemma_window_split(s, i, p1 + p2 + p3, p4);
    lemma_window_split(s, i, p1 + p2, p3);
    lemma_window_split(s, i, p1, p2);
    lemma_dec_le16(s, i, w.id);
    assert(s[i + 2] == w.link_kind) by {
        assert(s.subrange(i + 2, i + 3)[0] == s[i + 2]);
    }
    lemma_dec_le16(s, i + 3, w.link_id);
    lemma_dec_le64(s, i + 5, w.begin_cycles);
    lemma_dec_le64(s, i + 13, w.elapsed_cycles);
    lemma_dec_le32(s, i + 21, w.event);
    assert(dec_span(s, i) =~= w);
}

/// Reading back a span column.
pub proof fn lemma_dec_spans(s: Seq<u8>, i: int, ws: Seq<WireSpan>)
    requires
        0 <= i,
        i + 25 * ws.len() <= s.len(),
        s.subrange(i, i + 25 * ws.len()) == enc_spans(ws),
    ensures
        dec_spans(s, i, ws.len()) == ws,
    decreases ws.len(),
{
    if ws.len() == 0 {
        assert(dec_spans(s, i, 0) =~= ws);
    } else {
        lemma_enc_spans_len(ws.drop_first());
        assert(enc_span(ws.first()).len() == 25);
        assert(enc_spans(ws) == enc_span(ws.first()) + enc_spans(ws.drop_first()));
        lemma_window_split(s, i, enc_span(ws.first()), enc_spans(ws.drop_first()));
        lemma_dec_span(s, i, ws.first());
        lemma_dec_spans(s, i + 25, ws.drop_first());
        assert(dec_spans(s, i, ws.len()) =~= ws);
    }
}

/// Reading back a 16-bit column.
pub proof fn lemma_dec_u16s(s: Seq<u8>, i: int, vs: Seq<u16>)
    requires
        0 <= i,
        i + 2 * vs.len() <= s.len(),
        s.subrange(i, i + 2 * vs.len()) == enc_u16s(vs),
    ensures
        dec_u16s(s, i, vs.len()) == vs,
    decreases vs.len(),
{
    if vs.len() == 0 {
        assert(dec_u16s(s, i, 0) =~= vs);
    } else {
        lemma_enc_u16s_len(vs.drop_first());
        assert(enc_u16s(vs) == le16(vs.first()) + enc_u16s(vs.drop_first()));
        lemma_window_split(s, i, le16(vs.first()), enc_u16s(vs.drop_first()));
        lemma_dec_le16(s, i, vs.first());
        lemma_dec_u16s(s, i + 2, vs.drop_first());
        assert(dec_u16s(s, i, vs.len()) =~= vs);
    }
}

/// Reading back one property block record.
pub proof fn lemma_dec_props(s: Seq<u8>, i: int, p: WireProperties)
    requires
        wire_props_wf(p),
        0 <= i,
        i + enc_props(p).len() <= s.len(),
        s.subrange(i, i + enc_props(p).len()) == enc_props(p),
    ensures
        dec_props(s, i) == p,
        props_size_at(s, i) == enc_props(p).len(),
{
    let n = p.span_ids.len() as int;
    let pl = p.payload.len() as int;
    let p1 = le64(n as u64);
    let p2 = enc_u16s(p.span_ids);
    let p3 = enc_u16s(p.lengths);
    let p4 = le64(pl as u64);
    let p5 = p.payload;
    lemma_enc_u16s_len(p.span_ids);
    lemma_enc_u16s_len(p.lengths);
    assert(enc_props(p) == p1 + p2 + p3 + p4 + p5);
    assert(enc_props(p).len() == 16 + 4 * n + pl);
    lemma_window_split(s, i, p1 + p2 + p3 + p4, p5);
    lemma_window_split(s, i, p1 + p2 + p3, p4);
    lemma_window_split(s, i, p1 + p2, p3);
    lemma_window_split(s, i, p1, p2);
    lemma_dec_le64(s, i, n as u64);
    assert(dec_u64(s, i) as int == n);
    lemma_dec_u16s(s, i + 8, p.span_ids);
    lemma_dec_u16s(s, i + 8 + 2 * n, p.lengths);
    lemma_dec_le64(s, i + 8 + 4 * n, pl as u64);
    assert(dec_u64(s, i + 8 + 4 * n) as int == pl);
    assert(s.subrange(i + 16 + 4 * n, i + 16 + 4 * n + pl) == p5);
    assert(dec_props(s, i) =~= p);
}

/// Reading back one span-set record.
pub proof fn lemma_dec_span_set(s: Seq<u8>, i: int, w: WireSpanSet)
    requires
        wire_set_wf(w),
        0 <= i,
        i + enc_span_set(w).len() <= s.len(),
        s.subrange(i, i + enc_span_set(w).len()) == enc_span_set(w),
    ensures
        dec_span_set(s, i) == w,
        set_size_at(s, i) == enc_span_set(w).len(),
{
    let n = w.spans.len() as int;
    let p1 = le64(w.create_time_ns);
    let p2 = le64(w.start_time_ns);
    let p3 = le64(n as u64);
    let p4 = enc_spans(w.spans);
    let p5 = enc_props(w.properties);
    lemma_enc_spans_len(w.spans);
    lemma_enc_u16s_len(w.properties.span_ids);
    lemma_enc_u16s_len(w.properties.lengths);
    assert(enc_span_set(w) == p1 + p2 + p3 + p4 + p5);
    assert(enc_span_set(w).len() == 24 + 25 * n + p5.len());
    lemma_window_split(s, i, p1 + p2 + p3 + p4, p5);
    lemma_window_split(s, i, p1 + p2 + p3, p4);
    lemma_window_split(s, i, p1 + p2, p3);
    lemma_window_split(s, i, p1, p2);
    lemma_dec_le64(s, i, w.create_time_ns);
    lemma_dec_le64(s, i + 8, w.start_time_ns);
    lemma_dec_le64(s, i + 16, n as u64);
    assert(dec_u64(s, i + 16) as int == n);
    lemma_dec_spans(s, i + 24, w.spans);
    lemma_dec_props(s, i + 24 + 25 * n, w.properties);
    assert(dec_span_set(s, i) =~= w);
}

/// Reading back a sequence of span-set records.
pub proof fn lemma_dec_sets(s: Seq<u8>, i: int, ws: Seq<WireSpanSet>)
    requires
        forall|k: int| 0 <= k < ws.len() ==> wire_set_wf(#[trigger] ws[k]),
        0 <= i,
        i + enc_sets(ws).len() <= s.len(),
        s.subrange(i, i + enc_sets(ws).len()) == enc_sets(ws),
    ensures
        dec_sets(s, i, ws.len()) == ws,
    decreases ws.len(),
{
    if ws.len() == 0 {
        assert(dec_sets(s, i, 0) =~= ws);
    } else {
        let first_len = enc_span_set(ws.first()).len() as int;
        assert(enc_sets(ws) == enc_span_set(ws.first()) + enc_sets(ws.drop_first()));
        lemma_window_split(s, i, enc_span_set(ws.first()), enc_sets(ws.drop_first()));
        assert(ws[0] == ws.first());
        lemma_dec_span_set(s, i, ws.first());
        assert(forall|k: int|
            0 <= k < ws.drop_first().len() ==> wire_set_wf(#[trigger] ws.drop_first()[k]));
        lemma_dec_sets(s, i + first_len, ws.drop_first());
        assert(dec_sets(s, i, ws.len()) =~= ws);
    }
}

/// Reading back a whole buffer: the mechanical inverse recovers every
/// wire record the encoder wrote.
pub proof fn lemma_dec_trace(w: WireTrace)
    requires
        wire_trace_wf(w),
    ensures
        dec_trace(enc_trace(w)) == w,
{
    let s = enc_trace(w);
    let n = w.span_sets.len() as int;
    let p1 = seq![crate::wire::FORMAT_VERSION, w.mode];
    let p2 = le64(w.start_time_ns);
    let p3 = le64(w.elapsed_ns);
    let p4 = le64(w.cycles_per_second);
    let p5 = le64(n as u64);
    let p6 = enc_sets(w.span_sets);
    assert(enc_trace(w) == p1 + p2 + p3 + p4 + p5 + p6);
    assert(s.len() == 34 + p6.len());
    assert(s.subrange(0, s.len() as int) =~= s);
    lemma_window_split(s, 0, p1 + p2 + p3 + p4 + p5, p6);
    lemma_window_split(s, 0, p1 + p2 + p3 + p4, p5);
    lemma_window_split(s, 0, p1 + p2 + p3, p4);
    lemma_window_split(s, 0, p1 + p2, p3);
    lemma_window_split(s, 0, p1, p2);
    assert(s[1] == w.mode) by {
        assert(s.subrange(0, 2)[1] == s[1]);
    }
    lemma_dec_le64(s, 2, w.start_time_ns);
    lemma_dec_le64(s, 10, w.elapsed_ns);
    lemma_dec_le64(s, 18, w.cycles_per_second);
    lemma_dec_le64(s, 26, n as u64);
    assert(dec_u64(s, 26) as int == n);
    lemma_dec_sets(s, 34, w.span_sets);
    assert(dec_trace(s) =~= w);
}

} // verus!
