//! The timestamp-binding replay: the one data-transforming migration reads
//! the historical `timestamps` rows, difference-encodes the offsets per
//! partition in timestamp order, and hands the resulting update stream (one
//! collection per source, sealed at the greatest observed timestamp) to the
//! caller for forwarding into the external stash.

use vstd::prelude::*;

use crate::codec::{decode_gid_spec, decode_global_id, gid_blob};
use crate::error::Error;
use crate::ids::{GlobalId, PartitionId};
use crate::state::TimestampRow;
use vstd::multiset::Multiset;

verus! {

/// One source's replayed timestamp bindings, ready to forward into the
/// external stash: the collection to write, its difference-encoded updates,
/// and the frontier to seal at.
pub struct TimestampBindingExport {
    pub source_id: GlobalId,
    pub collection_name: String,
    pub updates: Vec<(PartitionId, i64, i64)>,
    pub seal: Option<i64>,
}

/// The offset previously reported for a partition: the accumulator of the
/// difference encoding, zero for a partition not seen yet.
pub open spec fn acc_offset(acc: Map<PartitionId, int>, p: PartitionId) -> int {
    if acc.dom().contains(p) {
        acc[p]
    } else {
        0
    }
}

/// The difference-encoded update stream of a binding sequence: each update
/// carries the offset delta against the last offset reported for its
/// partition.
pub open spec fn diff_deltas(
    rows: Seq<(PartitionId, int, int)>,
    acc: Map<PartitionId, int>,
) -> Seq<(PartitionId, int, int)>
    decreases rows.len(),
{
    if rows.len() == 0 {
        Seq::empty()
    } else {
        let p = rows[0].0;
        let t = rows[0].1;
        let o = rows[0].2;
        seq![(p, t, o - acc_offset(acc, p))] + diff_deltas(rows.drop_first(), acc.insert(p, o))
    }
}

/// The greatest timestamp of a binding sequence, if any: the seal frontier
/// of the replayed collection.
pub open spec fn max_timestamp(rows: Seq<(PartitionId, int, int)>) -> Option<int>
    decreases rows.len(),
{
    if rows.len() == 0 {
        None
    } else {
        match max_timestamp(rows.drop_last()) {
            None => Some(rows.last().1),
            Some(m) => if rows.last().1 > m {
                Some(rows.last().1)
            } else {
                Some(m)
            },
        }
    }
}

/// The view of a binding vector.
pub open spec fn bindings_view(rows: Seq<(PartitionId, i64, i64)>) -> Seq<(PartitionId, int, int)> {
    rows.map_values(|b: (PartitionId, i64, i64)| (b.0, b.1 as int, b.2 as int))
}

/// Looks up the last offset reported for a partition (runtime accumulator).
fn acc_lookup(acc: &Vec<(PartitionId, i64)>, p: &PartitionId) -> (r: Option<usize>)
    ensures
        r matches Some(i) ==> i < acc@.len() && acc@[i as int].0 == *p,
        r is None ==> forall|k: int| 0 <= k < acc@.len() ==> (#[trigger] acc@[k]).0 != *p,
{
    let n = acc.len();
    let mut i: usize = 0;
    while i < n
        invariant
            0 <= i <= n,
            n == acc@.len(),
            forall|k: int| 0 <= k < i ==> (#[trigger] acc@[k]).0 != *p,
        decreases n - i,
    {
        if acc[i].0 == *p {
            return Some(i);
        }
        i = i + 1;
    }
    None
}

/// Whether a runtime accumulator stands for a ghost accumulator map.
pub open spec fn acc_models(list: Seq<(PartitionId, i64)>, m: Map<PartitionId, int>) -> bool {
    &&& forall|k: int| 0 <= k < list.len() ==> m.dom().contains((#[trigger] list[k]).0)
    &&& forall|p: PartitionId|
        m.dom().contains(p) ==> exists|k: int|
            0 <= k < list.len() && (#[trigger] list[k]).0 == p && list[k].1 as int == m[p]
    &&& forall|k: int, l: int|
        0 <= k < l < list.len() ==> (#[trigger] list[k]).0 != (#[trigger] list[l]).0
}

/// Difference-encodes one source's timestamp bindings, in the order given,
/// and computes the seal frontier. Offsets must be nonnegative, as stored
/// offsets are; this keeps every delta within the signed 64-bit range.
pub fn encode_timestamp_bindings(bindings: &Vec<(PartitionId, i64, i64)>) -> (r: (
    Vec<(PartitionId, i64, i64)>,
    Option<i64>,
))
    requires
        forall|i: int| 0 <= i < bindings@.len() ==> (#[trigger] bindings@[i]).2 >= 0,
    ensures
        bindings_view(r.0@) == diff_deltas(bindings_view(bindings@), Map::empty()),
        match r.1 {
            None => max_timestamp(bindings_view(bindings@)) is None,
            Some(m) => max_timestamp(bindings_view(bindings@)) == Some(m as int),
        },
{
    let ghost whole = bindings_view(bindings@);
    let mut out: Vec<(PartitionId, i64, i64)> = Vec::new();
    let mut acc: Vec<(PartitionId, i64)> = Vec::new();
    let ghost mut macc = Map::<PartitionId, int>::empty();
    let mut seal: Option<i64> = None;
    let n = bindings.len();
    let mut i: usize = 0;
    proof {
        assert(whole.skip(0) =~= whole);
        assert(bindings_view(out@) =~= Seq::empty());
        assert(diff_deltas(whole, Map::empty()) =~= Seq::empty() + diff_deltas(whole, macc));
    }
    while i < n
        invariant
            0 <= i <= n,
            n == bindings@.len(),
            whole == bindings_view(bindings@),
            forall|k: int| 0 <= k < bindings@.len() ==> (#[trigger] bindings@[k]).2 >= 0,
            acc_models(acc@, macc),
            forall|p: PartitionId| macc.dom().contains(p) ==> macc[p] >= 0,
            diff_deltas(whole, Map::empty()) == bindings_view(out@) + diff_deltas(
                whole.skip(i as int),
                macc,
            ),
            match seal {
                None => max_timestamp(whole.take(i as int)) is None,
                Some(m) => max_timestamp(whole.take(i as int)) == Some(m as int),
            },
        decreases n - i,
    {
        let p = bindings[i].0;
        let t = bindings[i].1;
        let o = bindings[i].2;
        let prev: i64 = match acc_lookup(&acc, &p) {
            Some(j) => acc[j].1,
            None => 0,
        };
        proof {
            // The runtime accumulator agrees with the ghost map.
            if macc.dom().contains(p) {
                let k = choose|k: int|
                    0 <= k < acc@.len() && (#[trigger] acc@[k]).0 == p && acc@[k].1 as int
                        == macc[p];
                assert(prev as int == macc[p]);
            }
            assert(prev as int == acc_offset(macc, p));
            assert(prev >= 0);
        }
        let delta = o - prev;
        out.push((p, t, delta));
        // Record the offset just reported for this partition.
        let ghost macc_prev = macc;
        let ghost aprev = acc@;
        proof {
            macc = macc.insert(p, o as int);
        }
        match acc_lookup(&acc, &p) {
            Some(j) => {
                acc.set(j, (p, o));
                proof {
                    assert forall|q: PartitionId| macc.dom().contains(q) implies exists|k: int|
                        0 <= k < acc@.len() && (#[trigger] acc@[k]).0 == q && acc@[k].1 as int
                            == macc[q] by {
                        if q == p {
                            assert(acc@[j as int].0 == p && acc@[j as int].1 as int == macc[p]);
                        } else {
                            let k = choose|k: int|
                                0 <= k < aprev.len() && (#[trigger] aprev[k]).0 == q
                                    && aprev[k].1 as int == macc_prev[q];
                            assert(k != j);
                            assert(acc@[k] == aprev[k]);
                        }
                    }
                }
            }
            None => {
                acc.push((p, o));
                proof {
                    assert forall|q: PartitionId| macc.dom().contains(q) implies exists|k: int|
                        0 <= k < acc@.len() && (#[trigger] acc@[k]).0 == q && acc@[k].1 as int
                            == macc[q] by {
                        if q == p {
                            assert(acc@[acc@.len() - 1].0 == p);
                        } else {
                            let k = choose|k: int|
                                0 <= k < aprev.len() && (#[trigger] aprev[k]).0 == q
                                    && aprev[k].1 as int == macc_prev[q];
                            assert(acc@[k] == aprev[k]);
                        }
                    }
                }
            }
        }
        seal = match seal {
            None => Some(t),
            Some(m) => if t > m {
                Some(t)
            } else {
                Some(m)
            },
        };
        proof {
            let pre = whole.skip(i as int);
            assert(pre[0] == (p, t as int, o as int));
            assert(pre.drop_first() =~= whole.skip(i + 1 as int));
            assert(diff_deltas(pre, macc_prev) == seq![(p, t as int, o as int - acc_offset(macc_prev, p))]
                + diff_deltas(whole.skip(i + 1 as int), macc));
            assert(bindings_view(out@) =~= bindings_view(out@.drop_last()) + seq![
                (p, t as int, delta as int),
            ]);
            assert(whole.take(i + 1 as int).drop_last() =~= whole.take(i as int));
            assert(whole.take(i + 1 as int).last() == (p, t as int, o as int));
            assert(diff_deltas(whole, Map::empty()) =~= bindings_view(out@) + diff_deltas(
                whole.skip(i + 1 as int),
                macc,
            ));
        }
        i = i + 1;
    }
    proof {
        assert(whole.skip(n as int) =~= Seq::empty());
        assert(diff_deltas(whole.skip(n as int), macc) =~= Seq::empty());
        assert(diff_deltas(whole, Map::empty()) =~= bindings_view(out@));
        assert(whole.take(n as int) =~= whole);
    }
    (out, seal)
}

// ---------------------------------------------------------------------------
// The replay itself: grouping by source, ordering, and export assembly.
// ---------------------------------------------------------------------------

/// Whether every stored timestamp row can be replayed: its source blob
/// decodes, its partition text parses, and its offset is nonnegative.
pub open spec fn replay_ok(ts: Seq<(Seq<u8>, Seq<char>, int, int)>) -> bool {
    forall|i: int|
        0 <= i < ts.len() ==> decode_gid_spec((#[trigger] ts[i]).0) is Some
            && PartitionId::parse_spec(ts[i].1) is Some && ts[i].3 >= 0
}

/// The distinct source blobs of the rows, in first-appearance order.
pub open spec fn distinct_sids(ts: Seq<(Seq<u8>, Seq<char>, int, int)>) -> Seq<Seq<u8>>
    decreases ts.len(),
{
    if ts.len() == 0 {
        Seq::empty()
    } else {
        let rest = distinct_sids(ts.drop_last());
        if rest.contains(ts.last().0) {
            rest
        } else {
            rest.push(ts.last().0)
        }
    }
}

/// The rows of one source, in stored order, as (partition text, timestamp,
/// offset).
pub open spec fn sid_rows(ts: Seq<(Seq<u8>, Seq<char>, int, int)>, sid: Seq<u8>) -> Seq<
    (Seq<char>, int, int),
> {
    ts.filter(|r: (Seq<u8>, Seq<char>, int, int)| r.0 == sid).map_values(
        |r: (Seq<u8>, Seq<char>, int, int)| (r.1, r.2, r.3),
    )
}

/// The rows with their partition texts parsed (meaningful when they all
/// parse).
pub open spec fn decoded_rows(rows: Seq<(Seq<char>, int, int)>) -> Seq<(PartitionId, int, int)> {
    rows.map_values(
        |r: (Seq<char>, int, int)| (PartitionId::parse_spec(r.0)->0, r.1, r.2),
    )
}

/// A total integer key on partitions, placing every Kafka partition below
/// the unpartitioned marker.
pub open spec fn pid_key(p: PartitionId) -> int {
    match p {
        PartitionId::Kafka(n) => n as int,
        PartitionId::NonePartition => 0x8000_0000,
    }
}

/// Whether a binding sequence is ordered by (partition, timestamp); in
/// particular each partition's bindings appear in timestamp order, which is
/// what the difference encoding depends on.
pub open spec fn sorted_bindings(g: Seq<(PartitionId, int, int)>) -> bool {
    forall|k: int, l: int|
        0 <= k < l < g.len() ==> pid_key((#[trigger] g[k]).0) < pid_key((#[trigger] g[l]).0) || (
        pid_key(g[k].0) == pid_key(g[l].0) && g[k].1 <= g[l].1)
}

/// Ordering by (partition, timestamp) over runtime binding tuples.
pub open spec fn sorted_bindings_exec(s: Seq<(PartitionId, i64, i64)>) -> bool {
    forall|k: int, l: int|
        0 <= k < l < s.len() ==> pid_key((#[trigger] s[k]).0) < pid_key((#[trigger] s[l]).0) || (
        pid_key(s[k].0) == pid_key(s[l].0) && s[k].1 <= s[l].1)
}

/// Whether one export faithfully replays the rows of one source blob: the
/// identifier the blob decodes to, the collection named after it, and the
/// difference encoding of its rows in (partition, timestamp) order, sealed
/// at the greatest observed timestamp.
pub open spec fn export_ok(
    ts: Seq<(Seq<u8>, Seq<char>, int, int)>,
    sid: Seq<u8>,
    e: TimestampBindingExport,
) -> bool {
    &&& decode_gid_spec(sid) == Some(e.source_id)
    &&& e.collection_name@ == "timestamp-bindings-"@ + e.source_id.text()
    &&& exists|g: Seq<(PartitionId, int, int)>|
        {
            &&& #[trigger] sorted_bindings(g)
            &&& g.to_multiset() == decoded_rows(sid_rows(ts, sid)).to_multiset()
            &&& bindings_view(e.updates@) == diff_deltas(g, Map::empty())
            &&& match e.seal {
                None => max_timestamp(g) is None,
                Some(m) => max_timestamp(g) == Some(m as int),
            }
        }
}

/// Whether a replay result is faithful: one export per distinct source, in
/// first-appearance order, each correct for its source.
pub open spec fn exports_correct(
    ts: Seq<(Seq<u8>, Seq<char>, int, int)>,
    exs: Seq<TimestampBindingExport>,
) -> bool {
    &&& exs.len() == distinct_sids(ts).len()
    &&& forall|e: int|
        0 <= e < exs.len() ==> export_ok(ts, distinct_sids(ts)[e], #[trigger] exs[e])
}

/// A decoded blob is the canonical encoding of what it decodes to.
proof fn lemma_decode_canonical(b: Seq<u8>)
    requires
        decode_gid_spec(b) is Some,
    ensures
        gid_blob(decode_gid_spec(b)->0) == b,
{
    let g = decode_gid_spec(b)->0;
    if b == crate::codec::explain_blob() {
    } else if crate::codec::tagged_num(b, crate::codec::system_tag()) {
        let tag = crate::codec::system_tag();
        let mid = b.subrange(tag.len() as int, (b.len() - 1) as int);
        crate::codec::lemma_canonical_dec_bytes(mid);
        assert(gid_blob(g) =~= b);
    } else if crate::codec::tagged_num(b, crate::codec::user_tag()) {
        let tag = crate::codec::user_tag();
        let mid = b.subrange(tag.len() as int, (b.len() - 1) as int);
        crate::codec::lemma_canonical_dec_bytes(mid);
        assert(gid_blob(g) =~= b);
    } else {
        let tag = crate::codec::transient_tag();
        let mid = b.subrange(tag.len() as int, (b.len() - 1) as int);
        crate::codec::lemma_canonical_dec_bytes(mid);
        assert(gid_blob(g) =~= b);
    }
}

/// The blob codec is injective.
proof fn lemma_gid_blob_injective(a: GlobalId, b: GlobalId)
    requires
        gid_blob(a) == gid_blob(b),
    ensures
        a == b,
{
    crate::codec::lemma_global_id_codec_roundtrip(a);
    crate::codec::lemma_global_id_codec_roundtrip(b);
}

/// Moving one element within a sequence moves it within the multiset.
proof fn lemma_to_multiset_insert<A>(s: Seq<A>, i: int, v: A)
    requires
        0 <= i <= s.len(),
    ensures
        s.insert(i, v).to_multiset() == s.to_multiset().insert(v),
{
    broadcast use vstd::seq_lib::group_to_multiset_ensures;

    let l = s.subrange(0, i);
    let r = s.subrange(i, s.len() as int);
    assert(s.insert(i, v) =~= l.push(v) + r);
    assert(s =~= l + r);
    vstd::seq_lib::lemma_multiset_commutative(l.push(v), r);
    vstd::seq_lib::lemma_multiset_commutative(l, r);
    assert(l.push(v).to_multiset() == l.to_multiset().insert(v));
    assert(l.to_multiset().insert(v).add(r.to_multiset()) =~= l.to_multiset().add(
        r.to_multiset(),
    ).insert(v));
}

/// Whether the key of `a` is strictly below the key of `b` (runtime check).
fn binding_lt(a: &(PartitionId, i64, i64), b: &(PartitionId, i64, i64)) -> (r: bool)
    ensures
        r == (pid_key(a.0) < pid_key(b.0) || (pid_key(a.0) == pid_key(b.0) && a.1 < b.1)),
{
    let ka: i64 = match a.0 {
        PartitionId::Kafka(n) => n as i64,
        PartitionId::NonePartition => 0x8000_0000,
    };
    let kb: i64 = match b.0 {
        PartitionId::Kafka(n) => n as i64,
        PartitionId::NonePartition => 0x8000_0000,
    };
    ka < kb || (ka == kb && a.1 < b.1)
}

/// Orders one source's bindings by (partition, timestamp), preserving the
/// collection of bindings exactly.
fn sort_bindings(v: Vec<(PartitionId, i64, i64)>) -> (r: Vec<(PartitionId, i64, i64)>)
    ensures
        r@.to_multiset() == v@.to_multiset(),
        sorted_bindings(bindings_view(r@)),
        sorted_bindings_exec(r@),
        forall|k: int|
            0 <= k < r@.len() ==> (#[trigger] r@[k]).2 >= 0 || exists|l: int|
                0 <= l < v@.len() && (#[trigger] v@[l]).2 < 0,
{
    broadcast use vstd::seq_lib::group_to_multiset_ensures;

    let mut rest = v;
    let mut out: Vec<(PartitionId, i64, i64)> = Vec::new();
    proof {
        assert(out@.to_multiset() =~= Multiset::<(PartitionId, i64, i64)>::empty());
        assert(out@.to_multiset().add(rest@.to_multiset()) =~= rest@.to_multiset());
    }
    while rest.len() > 0
        invariant
            out@.to_multiset().add(rest@.to_multiset()) == v@.to_multiset(),
            sorted_bindings_exec(out@),
            forall|k: int|
                0 <= k < out@.len() ==> (#[trigger] out@[k]).2 >= 0 || exists|l: int|
                    0 <= l < v@.len() && (#[trigger] v@[l]).2 < 0,
            forall|k: int|
                0 <= k < rest@.len() ==> (#[trigger] rest@[k]).2 >= 0 || exists|l: int|
                    0 <= l < v@.len() && (#[trigger] v@[l]).2 < 0,
        decreases rest@.len(),
    {
        let ghost head = rest@;
        let t = match rest.pop() {
            Some(t) => t,
            None => vstd::pervasive::unreached(),
        };
        proof {
            assert(head =~= rest@.push(t));
            assert(head == rest@.push(t));
            rest@.to_multiset_ensures();
            assert(rest@.push(t).to_multiset() == rest@.to_multiset().insert(t));
        }
        let mut p: usize = out.len();
        while p > 0 && binding_lt(&t, &out[p - 1])
            invariant
                0 <= p <= out@.len(),
                forall|q: int|
                    p <= q < out@.len() ==> pid_key(t.0) < pid_key((#[trigger] out@[q]).0) || (
                    pid_key(t.0) == pid_key(out@[q].0) && t.1 < out@[q].1),
                sorted_bindings_exec(out@),
            decreases p,
        {
            p = p - 1;
        }
        let ghost prev = out@;
        let ghost pos = p as int;
        out.insert(p, t);
        proof {
            prev.insert_ensures(pos, t);
            lemma_to_multiset_insert(prev, pos, t);
            assert forall|k: int, l: int|
                0 <= k < l < out@.len() implies pid_key((#[trigger] out@[k]).0) < pid_key(
                (#[trigger] out@[l]).0,
            ) || (pid_key(out@[k].0) == pid_key(out@[l].0) && out@[k].1 <= out@[l].1) by {
                let a = if k < pos {
                    prev[k]
                } else if k == pos {
                    t
                } else {
                    prev[k - 1]
                };
                let b = if l < pos {
                    prev[l]
                } else if l == pos {
                    t
                } else {
                    prev[l - 1]
                };
                assert(out@[k] == a && out@[l] == b);
                if k == pos && l > pos {
                    assert(pid_key(t.0) < pid_key(prev[l - 1].0) || (pid_key(t.0) == pid_key(
                        prev[l - 1].0,
                    ) && t.1 < prev[l - 1].1));
                }
                if l == pos && k < pos {
                    assert(!(pid_key(t.0) < pid_key(prev[k].0) || (pid_key(t.0) == pid_key(
                        prev[k].0,
                    ) && t.1 < prev[k].1)));
                }
            }
            assert forall|k: int| 0 <= k < out@.len() implies (#[trigger] out@[k]).2 >= 0 || exists|
                l: int,
            |
                0 <= l < v@.len() && (#[trigger] v@[l]).2 < 0 by {
                if k < pos {
                    assert(out@[k] == prev[k]);
                } else if k == pos {
                    assert(out@[k] == t);
                    assert(head[head.len() - 1] == t);
                } else {
                    assert(out@[k] == prev[k - 1]);
                }
            }
        }
    }
    proof {
        assert(rest@.to_multiset() =~= Multiset::<(PartitionId, i64, i64)>::empty());
        assert(out@.to_multiset() =~= v@.to_multiset());
        assert forall|k: int, l: int|
            0 <= k < l < bindings_view(out@).len() implies pid_key(
            (#[trigger] bindings_view(out@)[k]).0,
        ) < pid_key((#[trigger] bindings_view(out@)[l]).0) || (pid_key(bindings_view(out@)[k].0)
            == pid_key(bindings_view(out@)[l].0) && bindings_view(out@)[k].1 <= bindings_view(
            out@,
        )[l].1) by {
            assert(pid_key((out@[k]).0) < pid_key((out@[l]).0) || (pid_key(out@[k].0) == pid_key(
                out@[l].0,
            ) && out@[k].1 <= out@[l].1));
        }
    }
    out
}

/// Replays the historical timestamp rows into per-source export bundles:
/// one collection per distinct source in first-appearance order, holding the
/// difference-encoded updates of that source's rows in (partition,
/// timestamp) order and the seal frontier. Fails — leaving everything to the
/// caller untouched — when any row's source blob does not decode, its
/// partition text does not parse, or its offset is negative.
pub fn replay_timestamp_bindings(rows: &Vec<TimestampRow>) -> (r: Result<
    Vec<TimestampBindingExport>,
    Error,
>)
    ensures
        r is Ok <==> replay_ok(crate::model::timestamps_view(rows@)),
        r matches Ok(exs) ==> exports_correct(crate::model::timestamps_view(rows@), exs@),
{
    broadcast use vstd::seq_lib::group_to_multiset_ensures;

    let ghost tview = crate::model::timestamps_view(rows@);
    let n = rows.len();
    // Validate and decode every row up front.
    let mut decoded: Vec<(GlobalId, PartitionId, i64, i64)> = Vec::new();
    let mut i: usize = 0;
    while i < n
        invariant
            0 <= i <= n,
            n == rows@.len(),
            tview == crate::model::timestamps_view(rows@),
            decoded@.len() == i,
            forall|k: int|
                0 <= k < i ==> decode_gid_spec((#[trigger] tview[k]).0) == Some(decoded@[k].0)
                    && PartitionId::parse_spec(tview[k].1) == Some(decoded@[k].1)
                    && decoded@[k].2 as int == tview[k].2 && decoded@[k].3 as int == tview[k].3
                    && tview[k].3 >= 0,
        decreases n - i,
    {
        let row = &rows[i];
        let gid = match decode_global_id(row.sid.as_slice()) {
            Ok(g) => g,
            Err(_) => {
                proof {
                    assert(decode_gid_spec(tview[i as int].0) is None);
                }
                return Err(Error::Codec(String::from_str("undecodable source id")));
            }
        };
        let pid = match PartitionId::parse(row.pid.as_str()) {
            Ok(p) => p,
            Err(_) => {
                proof {
                    assert(PartitionId::parse_spec(tview[i as int].1) is None);
                }
                return Err(Error::Codec(String::from_str("unparseable partition id")));
            }
        };
        if row.offset < 0 {
            proof {
                assert(tview[i as int].3 < 0);
            }
            return Err(Error::Storage(String::from_str("negative stored offset")));
        }
        decoded.push((gid, pid, row.timestamp, row.offset));
        i = i + 1;
    }
    proof {
        assert(replay_ok(tview));
    }
    // The distinct sources, in first-appearance order.
    let mut sids: Vec<GlobalId> = Vec::new();
    proof {
        assert(tview.take(0) =~= Seq::empty());
        assert(distinct_sids(tview.take(0)) =~= sids@.map_values(|g: GlobalId| gid_blob(g)));
    }
    let mut i: usize = 0;
    while i < n
        invariant
            0 <= i <= n,
            n == rows@.len() && n == decoded@.len(),
            tview == crate::model::timestamps_view(rows@),
            forall|k: int|
                0 <= k < n ==> decode_gid_spec((#[trigger] tview[k]).0) == Some(decoded@[k].0)
                    && PartitionId::parse_spec(tview[k].1) == Some(decoded@[k].1)
                    && decoded@[k].2 as int == tview[k].2 && decoded@[k].3 as int == tview[k].3
                    && tview[k].3 >= 0,
            distinct_sids(tview.take(i as int)) == sids@.map_values(|g: GlobalId| gid_blob(g)),
        decreases n - i,
    {
        let gid = decoded[i].0;
        proof {
            lemma_decode_canonical(tview[i as int].0);
            assert(gid_blob(gid) == tview[i as int].0);
        }
        let mut present = false;
        let m = sids.len();
        let mut j: usize = 0;
        while j < m
            invariant
                0 <= j <= m,
                m == sids@.len(),
                present <==> exists|k: int| 0 <= k < j && #[trigger] sids@[k] == gid,
            decreases m - j,
        {
            if sids[j] == gid {
                present = true;
            }
            j = j + 1;
        }
        proof {
            let pre = tview.take(i as int);
            let ext = tview.take(i + 1 as int);
            assert(ext.drop_last() =~= pre);
            assert(ext.last() == tview[i as int]);
            let mapped = sids@.map_values(|g: GlobalId| gid_blob(g));
            if present {
                let k = choose|k: int| 0 <= k < sids@.len() && #[trigger] sids@[k] == gid;
                assert(mapped[k] == gid_blob(gid));
                assert(distinct_sids(pre).contains(ext.last().0));
                assert(distinct_sids(ext) == mapped);
            } else {
                assert forall|k: int| 0 <= k < mapped.len() implies mapped[k]
                    != ext.last().0 by {
                    if gid_blob(sids@[k]) == gid_blob(gid) {
                        lemma_gid_blob_injective(sids@[k], gid);
                    }
                }
                assert(!distinct_sids(pre).contains(ext.last().0)) by {
                    if distinct_sids(pre).contains(ext.last().0) {
                        let k = choose|k: int|
                            0 <= k < mapped.len() && mapped[k] == ext.last().0;
                    }
                }
                assert(distinct_sids(ext) == distinct_sids(pre).push(tview[i as int].0));
            }
        }
        if !present {
            sids.push(gid);
            proof {
                assert(sids@.map_values(|g: GlobalId| gid_blob(g)) =~= distinct_sids(
                    tview.take(i + 1 as int),
                ));
            }
        }
        i = i + 1;
    }
    proof {
        assert(tview.take(n as int) =~= tview);
    }
    // One export per source.
    let mut exports: Vec<TimestampBindingExport> = Vec::new();
    let s_count = sids.len();
    let mut e: usize = 0;
    while e < s_count
        invariant
            0 <= e <= s_count,
            s_count == sids@.len(),
            n == rows@.len() && n == decoded@.len(),
            tview == crate::model::timestamps_view(rows@),
            forall|k: int|
                0 <= k < n ==> decode_gid_spec((#[trigger] tview[k]).0) == Some(decoded@[k].0)
                    && PartitionId::parse_spec(tview[k].1) == Some(decoded@[k].1)
                    && decoded@[k].2 as int == tview[k].2 && decoded@[k].3 as int == tview[k].3
                    && tview[k].3 >= 0,
            distinct_sids(tview) == sids@.map_values(|g: GlobalId| gid_blob(g)),
            exports@.len() == e,
            forall|d: int|
                0 <= d < e ==> export_ok(tview, distinct_sids(tview)[d], #[trigger] exports@[d]),
        decreases s_count - e,
    {
        let sid = sids[e];
        let ghost blob = gid_blob(sid);
        proof {
            assert(sids@.map_values(|g: GlobalId| gid_blob(g))[e as int] == blob);
        }
        // Collect this source's bindings, in stored order.
        let mut group: Vec<(PartitionId, i64, i64)> = Vec::new();
        proof {
            reveal(Seq::filter);
            let pred = |r: (Seq<u8>, Seq<char>, int, int)| r.0 == blob;
            assert(tview.take(0) =~= Seq::<(Seq<u8>, Seq<char>, int, int)>::empty());
            assert(tview.take(0).filter(pred) =~= Seq::<(Seq<u8>, Seq<char>, int, int)>::empty());
            assert(bindings_view(group@) =~= decoded_rows(sid_rows(tview.take(0), blob)));
        }
        let mut i: usize = 0;
        while i < n
            invariant
                0 <= i <= n,
                n == rows@.len() && n == decoded@.len(),
                tview == crate::model::timestamps_view(rows@),
                forall|k: int|
                    0 <= k < n ==> decode_gid_spec((#[trigger] tview[k]).0) == Some(
                        decoded@[k].0,
                    ) && PartitionId::parse_spec(tview[k].1) == Some(decoded@[k].1)
                        && decoded@[k].2 as int == tview[k].2 && decoded@[k].3 as int
                        == tview[k].3 && tview[k].3 >= 0,
                blob == gid_blob(sid),
                bindings_view(group@) == decoded_rows(sid_rows(tview.take(i as int), blob)),
                forall|k: int| 0 <= k < group@.len() ==> (#[trigger] group@[k]).2 >= 0,
            decreases n - i,
        {
            proof {
                reveal(Seq::filter);
                let pred = |r: (Seq<u8>, Seq<char>, int, int)| r.0 == blob;
                let pre = tview.take(i as int);
                let ext = tview.take(i + 1 as int);
                assert(ext.drop_last() =~= pre);
                assert(ext.last() == tview[i as int]);
                lemma_decode_canonical(tview[i as int].0);
                if decoded@[i as int].0 == sid {
                    assert(tview[i as int].0 == blob);
                    assert(ext.filter(pred) =~= pre.filter(pred).push(ext.last()));
                } else {
                    assert(tview[i as int].0 != blob) by {
                        if tview[i as int].0 == blob {
                            lemma_gid_blob_injective(decoded@[i as int].0, sid);
                        }
                    }
                    assert(ext.filter(pred) =~= pre.filter(pred));
                }
            }
            if decoded[i].0 == sid {
                let d = &decoded[i];
                let ghost gprev = group@;
                group.push((d.1, d.2, d.3));
                proof {
                    let pred = |r: (Seq<u8>, Seq<char>, int, int)| r.0 == blob;
                    let pre = tview.take(i as int);
                    let ext = tview.take(i + 1 as int);
                    let row = tview[i as int];
                    assert(ext.filter(pred) == pre.filter(pred).push(row));
                    assert(sid_rows(ext, blob) =~= sid_rows(pre, blob).push(
                        (row.1, row.2, row.3),
                    ));
                    assert(decoded_rows(sid_rows(ext, blob)) =~= decoded_rows(
                        sid_rows(pre, blob),
                    ).push((PartitionId::parse_spec(row.1)->0, row.2, row.3)));
                    assert(bindings_view(group@) =~= bindings_view(gprev).push(
                        (d.1, d.2 as int, d.3 as int),
                    ));
                    assert(PartitionId::parse_spec(row.1)->0 == d.1);
                    assert(bindings_view(group@) =~= decoded_rows(sid_rows(ext, blob)));
                }
            }
            i = i + 1;
        }
        proof {
            assert(tview.take(n as int) =~= tview);
        }
        let sorted = sort_bindings(group);
        proof {
            assert forall|k: int| 0 <= k < sorted@.len() implies (#[trigger] sorted@[k]).2
                >= 0 by {}
        }
        let (updates, seal) = encode_timestamp_bindings(&sorted);
        proof {
            reveal_strlit("timestamp-bindings-");
        }
        let mut name = String::from_str("timestamp-bindings-");
        let text = sid.to_text();
        name.append(text.as_str());
        let export = TimestampBindingExport { source_id: sid, collection_name: name, updates, seal };
        proof {
            let g = bindings_view(sorted@);
            assert(g.to_multiset() == bindings_view(group@).to_multiset()) by {
                lemma_bindings_view_multiset(sorted@, group@);
            }
            crate::codec::lemma_global_id_codec_roundtrip(sid);
            assert(export_ok(tview, blob, export));
        }
        exports.push(export);
        e = e + 1;
    }
    Ok(exports)
}

/// Sequences with equal multisets have views with equal multisets.
proof fn lemma_bindings_view_multiset(
    a: Seq<(PartitionId, i64, i64)>,
    b: Seq<(PartitionId, i64, i64)>,
)
    requires
        a.to_multiset() == b.to_multiset(),
    ensures
        bindings_view(a).to_multiset() == bindings_view(b).to_multiset(),
    decreases a.len(),
{
    broadcast use vstd::seq_lib::group_to_multiset_ensures;

    if a.len() == 0 {
        assert(b.to_multiset().len() == 0);
        assert(b.len() == 0);
        assert(bindings_view(a) =~= bindings_view(b));
    } else {
        let x = a.last();
        assert(a.to_multiset().count(x) > 0);
        assert(b.to_multiset().count(x) > 0);
        assert(b.contains(x));
        let j = choose|j: int| 0 <= j < b.len() && b[j] == x;
        let a2 = a.drop_last();
        let b2 = b.remove(j);
        assert(a.to_multiset() == a2.to_multiset().insert(x)) by {
            assert(a =~= a2.push(x));
        }
        assert(b2.to_multiset() == b.to_multiset().remove(x));
        assert(a2.to_multiset() == b2.to_multiset()) by {
            assert(a2.to_multiset() =~= a.to_multiset().remove(x));
        }
        lemma_bindings_view_multiset(a2, b2);
        assert(bindings_view(a).to_multiset() == bindings_view(a2).to_multiset().insert(
            (x.0, x.1 as int, x.2 as int),
        )) by {
            assert(bindings_view(a) =~= bindings_view(a2).push((x.0, x.1 as int, x.2 as int)));
        }
        assert(bindings_view(b).to_multiset() == bindings_view(b2).to_multiset().insert(
            (x.0, x.1 as int, x.2 as int),
        )) by {
            lemma_to_multiset_insert(bindings_view(b2), j, (x.0, x.1 as int, x.2 as int));
            assert(bindings_view(b) =~= bindings_view(b2).insert(j, (x.0, x.1 as int, x.2 as int)));
        }
    }
}

} // verus!
