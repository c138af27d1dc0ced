//! The identifier mapper: a dense, collision-free mapping from the
//! original span identifiers of one snapshot onto the compact
//! identifier range `[1, count]`, assigned in encounter order.

use vstd::prelude::*;
use std::collections::HashMap;
use crate::model::{EncodeError, Span, SpanSet, TraceDetails};
use crate::model::{cap_ok, flatten_spans, id_present, trace_spans, unique_ids};

verus! {

/// The mapping the compact strategy assigns: the span first encountered
/// at flattened position `j` receives compact identifier `j + 1`.
/// When an identifier occurs twice, the later position wins; the
/// builder rejects such snapshots, so the case never reaches the wire.
pub open spec fn compact_map_of(spans: Seq<Span>) -> Map<u64, u16>
    decreases spans.len(),
{
    if spans.len() == 0 {
        Map::empty()
    } else {
        compact_map_of(spans.drop_last()).insert(spans.last().id, spans.len() as u16)
    }
}

/// The mapping's domain is exactly the set of identifiers present.
pub proof fn lemma_compact_map_dom(spans: Seq<Span>)
    ensures
        forall|id: u64| compact_map_of(spans).contains_key(id) <==> id_present(spans, id),
    decreases spans.len(),
{
    if spans.len() > 0 {
        lemma_compact_map_dom(spans.drop_last());
        assert forall|id: u64| compact_map_of(spans).contains_key(id) implies id_present(
            spans,
            id,
        ) by {
            if id == spans.last().id {
                assert(spans[spans.len() - 1].id == id);
            } else {
                assert(compact_map_of(spans.drop_last()).contains_key(id));
                assert(id_present(spans.drop_last(), id));
                let i = choose|i: int|
                    0 <= i < spans.drop_last().len() && spans.drop_last()[i].id == id;
                assert(spans[i].id == id);
            }
        }
        assert forall|id: u64| id_present(spans, id) implies compact_map_of(
            spans,
        ).contains_key(id) by {
            let i = choose|i: int| 0 <= i < spans.len() && spans[i].id == id;
            if i < spans.len() - 1 {
                assert(spans.drop_last()[i].id == id);
                assert(id_present(spans.drop_last(), id));
                assert(compact_map_of(spans.drop_last()).contains_key(id));
            } else {
                assert(id == spans.last().id);
            }
        }
    }
}

/// On a snapshot with unique identifiers that fits the compact range,
/// the mapping is exactly "flattened position plus one": a bijection
/// onto `[1, count]`.
pub proof fn lemma_compact_map_positions(spans: Seq<Span>)
    requires
        spans.len() < 0x10000,
        unique_ids(spans),
    ensures
        forall|j: int|
            0 <= j < spans.len() ==> compact_map_of(spans).contains_key(#[trigger] spans[j].id)
                && compact_map_of(spans)[spans[j].id] == j + 1,
    decreases spans.len(),
{
    if spans.len() > 0 {
        let prev = spans.drop_last();
        assert(unique_ids(prev)) by {
            assert(forall|i: int, j: int|
                0 <= i < j < prev.len() ==> prev[i] == spans[i] && prev[j] == spans[j]);
        }
        lemma_compact_map_positions(prev);
        assert forall|j: int| 0 <= j < spans.len() implies compact_map_of(spans).contains_key(
            #[trigger] spans[j].id,
        ) && compact_map_of(spans)[spans[j].id] == j + 1 by {
            if j < spans.len() - 1 {
                assert(spans[j].id != spans.last().id);
                assert(prev[j] == spans[j]);
            }
        }
    }
}

/// Appending one more span set only extends the flattened sequence.
pub proof fn lemma_flatten_take_succ(sets: Seq<SpanSet>, i: int)
    requires
        0 <= i < sets.len(),
    ensures
        flatten_spans(sets.take(i + 1)) == flatten_spans(sets.take(i)) + sets[i].spans@,
{
    assert(sets.take(i + 1).drop_last() =~= sets.take(i));
    assert(sets.take(i + 1).last() == sets[i]);
}

/// The flattening of a prefix of the span sets is a prefix of the
/// flattening of all of them.
pub proof fn lemma_flatten_take_prefix(sets: Seq<SpanSet>, i: int)
    requires
        0 <= i <= sets.len(),
    ensures
        flatten_spans(sets.take(i)).len() <= flatten_spans(sets).len(),
        forall|k: int|
            0 <= k < flatten_spans(sets.take(i)).len() ==> #[trigger] flatten_spans(sets)[k]
                == flatten_spans(sets.take(i))[k],
    decreases sets.len() - i,
{
    if i == sets.len() {
        assert(sets.take(i) =~= sets);
    } else {
        lemma_flatten_take_succ(sets, i);
        lemma_flatten_take_prefix(sets, i + 1);
    }
}

/// Copies every span of the snapshot into one flat vector, in
/// encounter order.
fn flatten_trace(t: &TraceDetails) -> (r: Vec<Span>)
    ensures
        r@ == trace_spans(*t),
{
    let mut r: Vec<Span> = Vec::new();
    let n = t.span_sets.len();
    for i in 0..n
        invariant
            n == t.span_sets@.len(),
            r@ == flatten_spans(t.span_sets@.take(i as int)),
    {
        let m = t.span_sets[i].spans.len();
        for j in 0..m
            invariant
                n == t.span_sets@.len(),
                i < n,
                m == t.span_sets@[i as int].spans@.len(),
                r@ == flatten_spans(t.span_sets@.take(i as int)) + t.span_sets@[i as int].spans@.take(j as int),
        {
            r.push(t.span_sets[i].spans[j]);
            proof {
                assert(t.span_sets@[i as int].spans@.take(j + 1)
                    =~= t.span_sets@[i as int].spans@.take(j as int).push(
                    t.span_sets@[i as int].spans@[j as int],
                ));
                assert(r@ == flatten_spans(t.span_sets@.take(i as int))
                    + t.span_sets@[i as int].spans@.take(j + 1));
            }
        }
        proof {
            lemma_flatten_take_succ(t.span_sets@, i as int);
            assert(t.span_sets@[i as int].spans@.take(m as int) =~= t.span_sets@[i as int].spans@);
        }
    }
    proof {
        assert(t.span_sets@.take(n as int) =~= t.span_sets@);
    }
    r
}

/// The compact identifier table of one encoding call.  Scoped to that
/// call: built over every span of the snapshot, consulted while
/// emitting, then dropped.
pub struct IdMapper {
    table: HashMap<u64, u16>,
}

impl View for IdMapper {
    type V = Map<u64, u16>;

    closed spec fn view(&self) -> Map<u64, u16> {
        self.table@
    }
}

impl IdMapper {
    /// Builds the mapping over every span in every span set.  Fails
    /// with `CapacityExceeded` exactly when the snapshot holds 65536
    /// spans or more, and with `DuplicateSpanId` exactly when it fits
    /// but some identifier occurs twice.
    pub fn build(t: &TraceDetails) -> (r: Result<IdMapper, EncodeError>)
        ensures
            match r {
                Result::Ok(m) => cap_ok(*t) && unique_ids(trace_spans(*t)) && m@
                    == compact_map_of(trace_spans(*t)),
                Result::Err(e) => (!cap_ok(*t) && e == EncodeError::CapacityExceeded) || (cap_ok(
                    *t,
                ) && !unique_ids(trace_spans(*t)) && e == EncodeError::DuplicateSpanId),
            },
    {
        broadcast use vstd::std_specs::hash::group_hash_axioms;

        let flat = flatten_trace(t);
        let n = flat.len();
        if n >= 0x10000 {
            return Result::Err(EncodeError::CapacityExceeded);
        }
        let mut table: HashMap<u64, u16> = HashMap::new();
        proof {
            assert(table@ =~= compact_map_of(flat@.take(0)));
        }
        for k in 0..n
            invariant
                n == flat@.len(),
                n < 0x10000,
                flat@ == trace_spans(*t),
                unique_ids(flat@.take(k as int)),
                table@ == compact_map_of(flat@.take(k as int)),
        {
            let id = flat[k].id;
            if table.contains_key(&id) {
                proof {
                    lemma_compact_map_dom(flat@.take(k as int));
                    assert(id_present(flat@.take(k as int), id));
                    let i = choose|i: int|
                        0 <= i < flat@.take(k as int).len() && flat@.take(k as int)[i].id == id;
                    assert(flat@[i].id == flat@[k as int].id);
                    assert(!unique_ids(flat@));
                }
                return Result::Err(EncodeError::DuplicateSpanId);
            }
            let v: u16 = (k + 1) as u16;
            table.insert(id, v);
            proof {
                lemma_compact_map_dom(flat@.take(k as int));
                assert(flat@.take(k + 1).drop_last() =~= flat@.take(k as int));
                assert(table@ =~= compact_map_of(flat@.take(k + 1)));
                assert forall|i: int, j: int| 0 <= i < j < k + 1 implies (#[trigger] flat@.take(
                    k + 1,
                )[i]).id != (#[trigger] flat@.take(k + 1)[j]).id by {
                    if j < k {
                        assert(flat@.take(k as int)[i].id != flat@.take(k as int)[j].id);
                    } else {
                        if flat@[i].id == id {
                            assert(flat@.take(k as int)[i].id == id);
                            assert(id_present(flat@.take(k as int), id));
                        }
                    }
                }
            }
        }
        proof {
            assert(flat@.take(n as int) =~= flat@);
        }
        Result::Ok(IdMapper { table })
    }

    /// The compact identifier registered for `id`, which must have been
    /// registered by `build`.
    pub fn map_id(&self, id: u64) -> (r: u16)
        requires
            self@.contains_key(id),
        ensures
            r == self@[id],
    {
        broadcast use vstd::std_specs::hash::group_hash_axioms;

        match self.table.get(&id) {
            Option::Some(v) => *v,
            Option::None => vstd::pervasive::unreached(),
        }
    }

    /// Looks an identifier up, reporting whether it was registered.
    pub fn lookup(&self, id: u64) -> (r: Option<u16>)
        ensures
            match r {
                Option::Some(v) => self@.contains_key(id) && v == self@[id],
                Option::None => !self@.contains_key(id),
            },
    {
        broadcast use vstd::std_specs::hash::group_hash_axioms;

        match self.table.get(&id) {
            Option::Some(v) => Option::Some(*v),
            Option::None => Option::None,
        }
    }
}

} // verus!
