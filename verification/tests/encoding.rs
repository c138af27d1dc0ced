//! End-to-end tests: encode snapshots, read the buffers back with a
//! plain little-endian reader, and check every field and every error.

use tracewire::encode::{encode_compact, encode_passthrough, encode_trace};
use tracewire::model::{EncodeError, Link, Mode, PropertyBlock, Span, SpanSet, TraceDetails};

struct DSpan {
    id: u16,
    kind: u8,
    link_id: u16,
    begin: u64,
    elapsed: u64,
    event: u32,
}

struct DProps {
    ids: Vec<u16>,
    lens: Vec<u16>,
    payload: Vec<u8>,
}

struct DSet {
    create: u64,
    start: u64,
    spans: Vec<DSpan>,
    props: DProps,
}

struct DTrace {
    mode: u8,
    start: u64,
    elapsed: u64,
    cps: u64,
    sets: Vec<DSet>,
}

fn rd16(b: &[u8], i: usize) -> u16 {
    u16::from_le_bytes([b[i], b[i + 1]])
}

fn rd32(b: &[u8], i: usize) -> u32 {
    u32::from_le_bytes([b[i], b[i + 1], b[i + 2], b[i + 3]])
}

fn rd64(b: &[u8], i: usize) -> u64 {
    u64::from_le_bytes([
        b[i],
        b[i + 1],
        b[i + 2],
        b[i + 3],
        b[i + 4],
        b[i + 5],
        b[i + 6],
        b[i + 7],
    ])
}

/// A mechanical reader for the wire layout, as the library documents it.
fn decode(b: &[u8]) -> DTrace {
    assert_eq!(b[0], 1, "format version");
    let mode = b[1];
    let start = rd64(b, 2);
    let elapsed = rd64(b, 10);
    let cps = rd64(b, 18);
    let set_count = rd64(b, 26) as usize;
    let mut i = 34;
    let mut sets = Vec::new();
    for _ in 0..set_count {
        let create = rd64(b, i);
        let sstart = rd64(b, i + 8);
        let span_count = rd64(b, i + 16) as usize;
        i += 24;
        let mut spans = Vec::new();
        for _ in 0..span_count {
            spans.push(DSpan {
                id: rd16(b, i),
                kind: b[i + 2],
                link_id: rd16(b, i + 3),
                begin: rd64(b, i + 5),
                elapsed: rd64(b, i + 13),
                event: rd32(b, i + 21),
            });
            i += 25;
        }
        let n = rd64(b, i) as usize;
        i += 8;
        let mut ids = Vec::new();
        for k in 0..n {
            ids.push(rd16(b, i + 2 * k));
        }
        i += 2 * n;
        let mut lens = Vec::new();
        for k in 0..n {
            lens.push(rd16(b, i + 2 * k));
        }
        i += 2 * n;
        let pl = rd64(b, i) as usize;
        i += 8;
        let payload = b[i..i + pl].to_vec();
        i += pl;
        sets.push(DSet {
            create,
            start: sstart,
            spans,
            props: DProps { ids, lens, payload },
        });
    }
    assert_eq!(i, b.len(), "buffer fully consumed");
    DTrace {
        mode,
        start,
        elapsed,
        cps,
        sets,
    }
}

fn span(id: u64, link: Link, begin: u64, elapsed: u64, event: u32) -> Span {
    Span {
        id,
        link,
        begin_cycles: begin,
        elapsed_cycles: elapsed,
        event,
    }
}

fn no_props() -> PropertyBlock {
    PropertyBlock {
        span_ids: vec![],
        lengths: vec![],
        payload: vec![],
    }
}

#[test]
fn empty_trace_header() {
    let t = TraceDetails {
        start_time_ns: 7,
        elapsed_ns: 9,
        cycles_per_second: 2_400_000_000,
        span_sets: vec![],
    };
    let mut out = Vec::new();
    assert!(encode_compact(&t, &mut out).is_ok());
    assert_eq!(out.len(), 34);
    assert_eq!(out[0], 1);
    assert_eq!(out[1], 0);
    assert_eq!(rd64(&out, 2), 7);
    assert_eq!(rd64(&out, 10), 9);
    assert_eq!(rd64(&out, 18), 2_400_000_000);
    assert_eq!(rd64(&out, 26), 0);
}

#[test]
fn compact_three_spans() {
    let t = TraceDetails {
        start_time_ns: 1,
        elapsed_ns: 2,
        cycles_per_second: 3,
        span_sets: vec![SpanSet {
            create_time_ns: 10,
            start_time_ns: 11,
            spans: vec![
                span(1, Link::Root, 100, 10, 7),
                span(2, Link::Parent { id: 1 }, 110, 20, 8),
                span(3, Link::Continue { id: 2 }, 120, 30, 9),
            ],
            properties: no_props(),
        }],
    };
    let mut out = Vec::new();
    assert!(encode_compact(&t, &mut out).is_ok());
    let d = decode(&out);
    assert_eq!(d.mode, 0);
    assert_eq!(d.sets.len(), 1);
    let s = &d.sets[0];
    assert_eq!(s.create, 10);
    assert_eq!(s.start, 11);
    assert_eq!(s.spans.len(), 3);
    // first-encounter order: A -> 1, B -> 2, C -> 3
    assert_eq!(s.spans[0].id, 1);
    assert_eq!(s.spans[1].id, 2);
    assert_eq!(s.spans[2].id, 3);
    // link records: (Root, 0), (Parent, 1), (Continue, 2)
    assert_eq!((s.spans[0].kind, s.spans[0].link_id), (0, 0));
    assert_eq!((s.spans[1].kind, s.spans[1].link_id), (1, 1));
    assert_eq!((s.spans[2].kind, s.spans[2].link_id), (2, 2));
    assert_eq!(s.spans[1].begin, 110);
    assert_eq!(s.spans[2].elapsed, 30);
    assert_eq!(s.spans[2].event, 9);
}

#[test]
fn compact_remaps_large_ids() {
    // sparse 64-bit identifiers shrink to 1 and 2, and the link points
    // at the target's compact identifier, not the original
    let t = TraceDetails {
        start_time_ns: 0,
        elapsed_ns: 0,
        cycles_per_second: 0,
        span_sets: vec![SpanSet {
            create_time_ns: 0,
            start_time_ns: 0,
            spans: vec![
                span(0xdead_beef_dead_beef, Link::Root, 0, 0, 0),
                span(
                    42,
                    Link::Parent {
                        id: 0xdead_beef_dead_beef,
                    },
                    0,
                    0,
                    0,
                ),
            ],
            properties: no_props(),
        }],
    };
    let mut out = Vec::new();
    assert!(encode_compact(&t, &mut out).is_ok());
    let d = decode(&out);
    assert_eq!(d.sets[0].spans[0].id, 1);
    assert_eq!(d.sets[0].spans[1].id, 2);
    assert_eq!(d.sets[0].spans[1].kind, 1);
    assert_eq!(d.sets[0].spans[1].link_id, 1);
}

#[test]
fn mapping_crosses_span_sets() {
    // a link may refer to a span of another span set; the mapper is
    // built over the whole snapshot before anything is resolved
    let t = TraceDetails {
        start_time_ns: 0,
        elapsed_ns: 0,
        cycles_per_second: 0,
        span_sets: vec![
            SpanSet {
                create_time_ns: 0,
                start_time_ns: 0,
                spans: vec![span(7, Link::Continue { id: 8 }, 0, 0, 0)],
                properties: no_props(),
            },
            SpanSet {
                create_time_ns: 0,
                start_time_ns: 0,
                spans: vec![span(8, Link::Root, 0, 0, 0)],
                properties: no_props(),
            },
        ],
    };
    let mut out = Vec::new();
    assert!(encode_compact(&t, &mut out).is_ok());
    let d = decode(&out);
    assert_eq!(d.sets[0].spans[0].id, 1);
    assert_eq!(d.sets[1].spans[0].id, 2);
    // the continuation's target is span 8's compact identifier
    assert_eq!(d.sets[0].spans[0].kind, 2);
    assert_eq!(d.sets[0].spans[0].link_id, 2);
}

#[test]
fn property_block_slices() {
    // entries [(A,3), (B,5)] with payload "abcdefgh" decode to
    // A -> "abc", B -> "defgh"
    let t = TraceDetails {
        start_time_ns: 0,
        elapsed_ns: 0,
        cycles_per_second: 0,
        span_sets: vec![SpanSet {
            create_time_ns: 0,
            start_time_ns: 0,
            spans: vec![span(1, Link::Root, 0, 0, 0), span(2, Link::Root, 0, 0, 0)],
            properties: PropertyBlock {
                span_ids: vec![1, 2],
                lengths: vec![3, 5],
                payload: b"abcdefgh".to_vec(),
            },
        }],
    };
    let mut out = Vec::new();
    assert!(encode_compact(&t, &mut out).is_ok());
    let d = decode(&out);
    let p = &d.sets[0].props;
    assert_eq!(p.ids, vec![1, 2]);
    assert_eq!(p.lens, vec![3, 5]);
    assert_eq!(&p.payload[0..3], b"abc");
    assert_eq!(&p.payload[3..8], b"defgh");
}

#[test]
fn property_sum_invariant() {
    let t = TraceDetails {
        start_time_ns: 0,
        elapsed_ns: 0,
        cycles_per_second: 0,
        span_sets: vec![SpanSet {
            create_time_ns: 0,
            start_time_ns: 0,
            spans: vec![
                span(10, Link::Root, 0, 0, 0),
                span(11, Link::Root, 0, 0, 0),
                span(12, Link::Root, 0, 0, 0),
            ],
            properties: PropertyBlock {
                span_ids: vec![12, 10, 11],
                lengths: vec![0, 4, 2],
                payload: b"wxyzab".to_vec(),
            },
        }],
    };
    let mut out = Vec::new();
    assert!(encode_compact(&t, &mut out).is_ok());
    let d = decode(&out);
    let p = &d.sets[0].props;
    let total: usize = p.lens.iter().map(|l| *l as usize).sum();
    assert_eq!(total, p.payload.len());
    // slicing by cumulative lengths reconstructs each payload
    assert_eq!(&p.payload[0..0], b"");
    assert_eq!(&p.payload[0..4], b"wxyz");
    assert_eq!(&p.payload[4..6], b"ab");
}

#[test]
fn capacity_exceeded() {
    let spans: Vec<Span> = (0..0x10000u64)
        .map(|k| span(k + 1, Link::Root, 0, 0, 0))
        .collect();
    let t = TraceDetails {
        start_time_ns: 0,
        elapsed_ns: 0,
        cycles_per_second: 0,
        span_sets: vec![SpanSet {
            create_time_ns: 0,
            start_time_ns: 0,
            spans,
            properties: no_props(),
        }],
    };
    let mut out = vec![0xaa, 0xbb];
    assert_eq!(
        encode_compact(&t, &mut out),
        Err(EncodeError::CapacityExceeded)
    );
    // nothing was written: the buffer keeps its pre-call state
    assert_eq!(out, vec![0xaa, 0xbb]);
}

#[test]
fn largest_fitting_trace() {
    // 65535 spans is the largest compact snapshot; the last one gets
    // identifier 65535
    let spans: Vec<Span> = (0..0xffffu64)
        .map(|k| span(k + 1, Link::Root, 0, 0, 0))
        .collect();
    let t = TraceDetails {
        start_time_ns: 0,
        elapsed_ns: 0,
        cycles_per_second: 0,
        span_sets: vec![SpanSet {
            create_time_ns: 0,
            start_time_ns: 0,
            spans,
            properties: no_props(),
        }],
    };
    let mut out = Vec::new();
    assert!(encode_compact(&t, &mut out).is_ok());
    let d = decode(&out);
    assert_eq!(d.sets[0].spans.len(), 0xffff);
    assert_eq!(d.sets[0].spans[0xfffe].id, 0xffff);
}

#[test]
fn duplicate_span_id() {
    let t = TraceDetails {
        start_time_ns: 0,
        elapsed_ns: 0,
        cycles_per_second: 0,
        span_sets: vec![SpanSet {
            create_time_ns: 0,
            start_time_ns: 0,
            spans: vec![span(5, Link::Root, 0, 0, 0), span(5, Link::Root, 0, 0, 0)],
            properties: no_props(),
        }],
    };
    let mut out = Vec::new();
    assert_eq!(
        encode_compact(&t, &mut out),
        Err(EncodeError::DuplicateSpanId)
    );
    assert!(out.is_empty());
}

#[test]
fn unknown_link_target() {
    let t = TraceDetails {
        start_time_ns: 0,
        elapsed_ns: 0,
        cycles_per_second: 0,
        span_sets: vec![SpanSet {
            create_time_ns: 0,
            start_time_ns: 0,
            spans: vec![span(1, Link::Parent { id: 99 }, 0, 0, 0)],
            properties: no_props(),
        }],
    };
    let mut out = Vec::new();
    assert_eq!(encode_compact(&t, &mut out), Err(EncodeError::UnknownSpanId));
}

#[test]
fn unknown_property_owner() {
    let t = TraceDetails {
        start_time_ns: 0,
        elapsed_ns: 0,
        cycles_per_second: 0,
        span_sets: vec![SpanSet {
            create_time_ns: 0,
            start_time_ns: 0,
            spans: vec![span(1, Link::Root, 0, 0, 0)],
            properties: PropertyBlock {
                span_ids: vec![42],
                lengths: vec![1],
                payload: vec![0],
            },
        }],
    };
    let mut out = Vec::new();
    assert_eq!(encode_compact(&t, &mut out), Err(EncodeError::UnknownSpanId));
}

#[test]
fn property_too_large() {
    let t = TraceDetails {
        start_time_ns: 0,
        elapsed_ns: 0,
        cycles_per_second: 0,
        span_sets: vec![SpanSet {
            create_time_ns: 0,
            start_time_ns: 0,
            spans: vec![span(1, Link::Root, 0, 0, 0)],
            properties: PropertyBlock {
                span_ids: vec![1],
                lengths: vec![0x10000],
                payload: vec![0; 0x10000],
            },
        }],
    };
    let mut out = vec![0xcc];
    assert_eq!(
        encode_compact(&t, &mut out),
        Err(EncodeError::PropertyTooLarge)
    );
    // rejected before any bytes were written
    assert_eq!(out, vec![0xcc]);
    // the same limit holds in passthrough mode
    let mut out2 = vec![0xdd];
    assert_eq!(
        encode_passthrough(&t, &mut out2),
        Err(EncodeError::PropertyTooLarge)
    );
    assert_eq!(out2, vec![0xdd]);
}

#[test]
fn largest_property_fits() {
    let t = TraceDetails {
        start_time_ns: 0,
        elapsed_ns: 0,
        cycles_per_second: 0,
        span_sets: vec![SpanSet {
            create_time_ns: 0,
            start_time_ns: 0,
            spans: vec![span(1, Link::Root, 0, 0, 0)],
            properties: PropertyBlock {
                span_ids: vec![1],
                lengths: vec![0xffff],
                payload: vec![7; 0xffff],
            },
        }],
    };
    let mut out = Vec::new();
    assert!(encode_compact(&t, &mut out).is_ok());
    let d = decode(&out);
    assert_eq!(d.sets[0].props.lens, vec![0xffff]);
    assert_eq!(d.sets[0].props.payload.len(), 0xffff);
}

#[test]
fn passthrough_truncates_ids() {
    let t = TraceDetails {
        start_time_ns: 0,
        elapsed_ns: 0,
        cycles_per_second: 0,
        span_sets: vec![SpanSet {
            create_time_ns: 0,
            start_time_ns: 0,
            spans: vec![
                span(0x10005, Link::Root, 0, 0, 0),
                span(0x2_0003, Link::Parent { id: 0x10005 }, 0, 0, 0),
            ],
            properties: PropertyBlock {
                span_ids: vec![0x10005],
                lengths: vec![2],
                payload: vec![1, 2],
            },
        }],
    };
    let mut out = Vec::new();
    assert!(encode_passthrough(&t, &mut out).is_ok());
    let d = decode(&out);
    assert_eq!(d.mode, 1);
    // identifiers are the originals modulo 2^16
    assert_eq!(d.sets[0].spans[0].id, 5);
    assert_eq!(d.sets[0].spans[1].id, 3);
    assert_eq!(d.sets[0].spans[1].link_id, 5);
    assert_eq!(d.sets[0].props.ids, vec![5]);
}

#[test]
fn passthrough_skips_consistency_checks() {
    // passthrough mode performs no identifier mapping, so duplicates
    // and unregistered targets pass through
    let t = TraceDetails {
        start_time_ns: 0,
        elapsed_ns: 0,
        cycles_per_second: 0,
        span_sets: vec![SpanSet {
            create_time_ns: 0,
            start_time_ns: 0,
            spans: vec![
                span(5, Link::Root, 0, 0, 0),
                span(5, Link::Parent { id: 9999 }, 0, 0, 0),
            ],
            properties: no_props(),
        }],
    };
    let mut out = Vec::new();
    assert!(encode_passthrough(&t, &mut out).is_ok());
    let d = decode(&out);
    assert_eq!(d.sets[0].spans[0].id, 5);
    assert_eq!(d.sets[0].spans[1].id, 5);
    assert_eq!(d.sets[0].spans[1].link_id, 9999 & 0xffff);
}

#[test]
fn round_trip_both_modes() {
    let t = TraceDetails {
        start_time_ns: u64::MAX,
        elapsed_ns: 123_456_789,
        cycles_per_second: 3_000_000_000,
        span_sets: vec![
            SpanSet {
                create_time_ns: 55,
                start_time_ns: 66,
                spans: vec![
                    span(1000, Link::Root, u64::MAX, 1, u32::MAX),
                    span(2000, Link::Parent { id: 1000 }, 2, 3, 4),
                ],
                properties: PropertyBlock {
                    span_ids: vec![2000],
                    lengths: vec![3],
                    payload: b"xyz".to_vec(),
                },
            },
            SpanSet {
                create_time_ns: 77,
                start_time_ns: 88,
                spans: vec![span(3000, Link::Continue { id: 2000 }, 5, 6, 7)],
                properties: no_props(),
            },
        ],
    };
    for mode in [Mode::Compact, Mode::Passthrough] {
        let mut out = Vec::new();
        assert!(encode_trace(&t, mode, &mut out).is_ok());
        let d = decode(&out);
        assert_eq!(d.start, u64::MAX);
        assert_eq!(d.elapsed, 123_456_789);
        assert_eq!(d.cps, 3_000_000_000);
        assert_eq!(d.sets.len(), 2);
        // cycles and event tags come back bit-identical in both modes
        assert_eq!(d.sets[0].spans[0].begin, u64::MAX);
        assert_eq!(d.sets[0].spans[0].elapsed, 1);
        assert_eq!(d.sets[0].spans[0].event, u32::MAX);
        assert_eq!(d.sets[1].spans[0].kind, 2);
        assert_eq!(d.sets[0].props.payload, b"xyz".to_vec());
        match mode {
            Mode::Compact => {
                assert_eq!(d.sets[0].spans[0].id, 1);
                assert_eq!(d.sets[0].spans[1].id, 2);
                assert_eq!(d.sets[1].spans[0].id, 3);
                assert_eq!(d.sets[1].spans[0].link_id, 2);
                assert_eq!(d.sets[0].props.ids, vec![2]);
            }
            Mode::Passthrough => {
                assert_eq!(d.sets[0].spans[0].id, 1000);
                assert_eq!(d.sets[0].spans[1].id, 2000);
                assert_eq!(d.sets[1].spans[0].id, 3000);
                assert_eq!(d.sets[1].spans[0].link_id, 2000);
                assert_eq!(d.sets[0].props.ids, vec![2000]);
            }
        }
    }
}

#[test]
fn mode_flag_matches_entry_points() {
    let t = TraceDetails {
        start_time_ns: 1,
        elapsed_ns: 2,
        cycles_per_second: 3,
        span_sets: vec![SpanSet {
            create_time_ns: 4,
            start_time_ns: 5,
            spans: vec![span(9, Link::Root, 6, 7, 8)],
            properties: no_props(),
        }],
    };
    let mut a = Vec::new();
    let mut b = Vec::new();
    assert!(encode_trace(&t, Mode::Compact, &mut a).is_ok());
    assert!(encode_compact(&t, &mut b).is_ok());
    assert_eq!(a, b);
    let mut c = Vec::new();
    let mut d = Vec::new();
    assert!(encode_trace(&t, Mode::Passthrough, &mut c).is_ok());
    assert!(encode_passthrough(&t, &mut d).is_ok());
    assert_eq!(c, d);
    assert_ne!(a, c);
}

#[test]
fn buffer_is_replaced_on_reuse() {
    let t = TraceDetails {
        start_time_ns: 0,
        elapsed_ns: 0,
        cycles_per_second: 0,
        span_sets: vec![],
    };
    let mut out = vec![1, 2, 3];
    assert!(encode_compact(&t, &mut out).is_ok());
    assert_eq!(out.len(), 34);
}

#[test]
fn exact_byte_layout() {
    let t = TraceDetails {
        start_time_ns: 0x0102,
        elapsed_ns: 3,
        cycles_per_second: 4,
        span_sets: vec![SpanSet {
            create_time_ns: 5,
            start_time_ns: 6,
            spans: vec![span(7, Link::Root, 8, 9, 10)],
            properties: PropertyBlock {
                span_ids: vec![7],
                lengths: vec![1],
                payload: vec![0xee],
            },
        }],
    };
    let mut out = Vec::new();
    assert!(encode_compact(&t, &mut out).is_ok());
    let mut want: Vec<u8> = Vec::new();
    want.extend([1, 0]); // format version, compact mode
    want.extend(0x0102u64.to_le_bytes()); // start_time_ns
    want.extend(3u64.to_le_bytes()); // elapsed_ns
    want.extend(4u64.to_le_bytes()); // cycles_per_second
    want.extend(1u64.to_le_bytes()); // span-set count
    want.extend(5u64.to_le_bytes()); // create_time_ns
    want.extend(6u64.to_le_bytes()); // start_time_ns
    want.extend(1u64.to_le_bytes()); // span count
    want.extend(1u16.to_le_bytes()); // compact identifier of span 7
    want.push(0); // link kind: root
    want.extend(0u16.to_le_bytes()); // link target
    want.extend(8u64.to_le_bytes()); // begin_cycles
    want.extend(9u64.to_le_bytes()); // elapsed_cycles
    want.extend(10u32.to_le_bytes()); // event
    want.extend(1u64.to_le_bytes()); // property entry count
    want.extend(1u16.to_le_bytes()); // owner column
    want.extend(1u16.to_le_bytes()); // length column
    want.extend(1u64.to_le_bytes()); // payload length
    want.push(0xee); // payload
    assert_eq!(out, want);
}
