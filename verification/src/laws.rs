//! What holds of the decoding as a whole, proved from the description of a
//! block in `model` and of a decoder's results in `stream`.

use crate::error::Decoded;
use crate::error::DecodeError;
use crate::model::absolutes;
use crate::model::coordinate;
use crate::model::delta_sum32;
use crate::model::delta_sum;
use crate::model::deltas_fit;
use crate::model::dense_entity_info;
use crate::model::dense_info_len;
use crate::model::dense_len;
use crate::model::dense_node_at;
use crate::model::dense_nodes_from;
use crate::model::dense_nodes_output;
use crate::model::entity_info;
use crate::model::in_i64;
use crate::model::sparse_info;
use crate::model::sparse_node;
use crate::model::stream_dangling;
use crate::model::stream_end;
use crate::model::stream_pairs;
use crate::model::stream_start;
use crate::model::zip_pairs;
use crate::objects::InfoView;
use crate::osmformat::DenseNodes;
use crate::osmformat::Info;
use crate::osmformat::Node;
use crate::osmformat::PrimitiveBlock;
use crate::osmformat::PrimitiveGroup;
use crate::stream::cut;
use crate::stream::lemma_ok_prefix_len;
use crate::stream::lemma_ok_prefix_len_is;
use vstd::prelude::*;

verus! {

/// A decoder yields the results in their order and leaves none out before
/// it ends: what it yields is a front part of the sequence, in which only the
/// last result can be an error, and which is the whole sequence unless it
/// ends in an error.
pub proof fn lemma_cut_is_front<T>(s: Seq<Decoded<T>>)
    ensures
        cut(s).len() <= s.len(),
        forall|i: int| 0 <= i < cut(s).len() ==> #[trigger] cut(s)[i] == s[i],
        forall|i: int| 0 <= i < cut(s).len() - 1 ==> (#[trigger] cut(s)[i]) is Ok,
        cut(s).len() < s.len() ==> cut(s).last() is Err,
        (forall|i: int| 0 <= i < s.len() ==> (#[trigger] s[i]) is Ok) ==> cut(s) == s,
{
    lemma_ok_prefix_len(s);
    if forall|i: int| 0 <= i < s.len() ==> (#[trigger] s[i]) is Ok {
        lemma_ok_prefix_len_is(s, s.len() as int);
    }
}

/// Of a dense bundle whose columns all have `n` entries, and in which no
/// entity fails, the decoder yields `n` nodes, the `i`-th of them made
/// from the `i`-th entries of the columns.
pub proof fn lemma_dense_yields_every_entity(block: PrimitiveBlock, group: PrimitiveGroup, n: int)
    requires
        group.dense.id@.len() == n,
        group.dense.lat@.len() == n,
        group.dense.lon@.len() == n,
        group.dense.info() matches Some(di) ==> dense_info_len(di) == n,
        forall|i: int| 0 <= i < n ==> (#[trigger] dense_node_at(block, group.dense, i)) is Ok,
    ensures
        dense_nodes_output(block, group).len() == n,
        forall|i: int|
            0 <= i < n ==> #[trigger] dense_nodes_output(block, group)[i] == dense_node_at(
                block,
                group.dense,
                i,
            ),
        forall|i: int|
            0 <= i < n ==> (#[trigger] dense_nodes_output(block, group)[i])->Ok_0.id.0 == delta_sum(
                group.dense.id@,
                i + 1,
            ),
{
    let all = dense_nodes_from(block, group.dense, 0);
    assert(dense_len(group.dense) == n);
    assert forall|i: int| 0 <= i < all.len() implies (#[trigger] all[i]) is Ok by {
        assert(all[i] == dense_node_at(block, group.dense, i));
    }
    lemma_cut_is_front(all);
    assert forall|i: int| 0 <= i < n implies (#[trigger] dense_nodes_output(block, group)[i])->Ok_0.id.0
        == delta_sum(group.dense.id@, i + 1) by {
        assert(all[i] == dense_node_at(block, group.dense, i));
        assert(dense_node_at(block, group.dense, i) is Ok);
    }
}

/// The same entity is the same node, whichever way it is encoded: a
/// message of its own and the `i`-th entry of a dense bundle that hold the
/// same id, raw coordinates, tags and metadata decode to the same result.
/// A key without a value at the end of the tag stream is no tag; it must
/// address the string table, as the decoder resolves it.
pub proof fn lemma_sparse_and_dense_agree(block: PrimitiveBlock, n: Node, d: DenseNodes, i: int)
    requires
        0 <= i < dense_len(d),
        n.id == delta_sum(d.id@, i + 1),
        n.lat == delta_sum(d.lat@, i + 1),
        n.lon == delta_sum(d.lon@, i + 1),
        zip_pairs(n.keys@, n.vals@) == stream_pairs(d.keys_vals@, stream_start(d.keys_vals@, i)),
        stream_dangling(d.keys_vals@, stream_start(d.keys_vals@, i)) matches Some(k)
            ==> block.has_string(k),
        match d.info() {
            Some(di) => n.info matches Some(info) && {
                &&& info.version == Some(di.version@[i])
                &&& info.timestamp matches Some(t) && t == delta_sum(di.timestamp@, i + 1)
                &&& info.changeset matches Some(c) && c == delta_sum(di.changeset@, i + 1)
                &&& info.uid matches Some(u) && u == delta_sum32(di.uid@, i + 1)
                &&& info.user_sid matches Some(k) && k == delta_sum32(di.user_sid@, i + 1) && k
                    <= i32::MAX
                &&& info.visible == Some(di.visible@[i])
            },
            None => n.info is None,
        },
    ensures
        sparse_node(block, n) == dense_node_at(block, d, i),
{
    assert(entity_info(block, n.info) == dense_entity_info(block, d.info(), i));
}

/// The running totals of a column go on over a join: those of the first
/// part are not changed by what follows, and those of the second part
/// start from the total of the first.
pub proof fn lemma_delta_sum_concat(a: Seq<i64>, b: Seq<i64>, n: int)
    requires
        0 <= n <= a.len() + b.len(),
    ensures
        n <= a.len() ==> delta_sum(a + b, n) == delta_sum(a, n),
        n >= a.len() ==> delta_sum(a + b, n) == delta_sum(a, a.len() as int) + delta_sum(
            b,
            n - a.len(),
        ),
    decreases n,
{
    if n > 0 {
        lemma_delta_sum_concat(a, b, n - 1);
        if n <= a.len() {
            assert((a + b)[n - 1] == a[n - 1]);
        } else {
            assert((a + b)[n - 1] == b[n - 1 - a.len()]);
        }
    }
}

/// The `i`-th absolute value of a column of deltas is the sum of the
/// deltas up to the `i`-th: the first is the first delta, and each later
/// one is the one before it plus its delta.
pub proof fn lemma_absolutes(deltas: Seq<i64>, i: int)
    requires
        deltas_fit(deltas),
        0 <= i < deltas.len(),
    ensures
        absolutes(deltas).len() == deltas.len(),
        absolutes(deltas)[i] == delta_sum(deltas, i + 1),
        i == 0 ==> absolutes(deltas)[i] == deltas[0],
        i > 0 ==> absolutes(deltas)[i] == absolutes(deltas)[i - 1] + deltas[i],
{
    assert(in_i64(delta_sum(deltas, i + 1)));
    assert(in_i64(delta_sum(deltas, i)));
    assert(delta_sum(deltas, 0) == 0);
}

/// The tags of one entity in a dense tag stream: the pairs are read side by
/// side from `p`, none of their keys is 0, and the reading ends one
/// position after the first key index that is 0. It ends elsewhere only
/// where the stream ends, with or without a last key that has no value.
pub proof fn lemma_stream_end(kv: Seq<i32>, p: int)
    requires
        0 <= p <= kv.len(),
    ensures
        p <= stream_end(kv, p) <= kv.len(),
        forall|j: int|
            0 <= j < stream_pairs(kv, p).len() ==> (#[trigger] stream_pairs(kv, p)[j]) == (
                kv[p + 2 * j] as int,
                kv[p + 2 * j + 1] as int,
            ) && p + 2 * j + 1 < kv.len() && kv[p + 2 * j] != 0,
        ({
            let q = p + 2 * stream_pairs(kv, p).len();
            &&& q < kv.len() && kv[q] == 0 ==> stream_end(kv, p) == q + 1 && stream_dangling(kv, p)
                is None
            &&& q < kv.len() && kv[q] != 0 ==> q + 1 == kv.len() && stream_end(kv, p) == kv.len()
                && stream_dangling(kv, p) == Some(kv[q] as int)
            &&& q >= kv.len() ==> q == kv.len() && stream_end(kv, p) == kv.len() && stream_dangling(
                kv,
                p,
            ) is None
        }),
        stream_end(kv, p) < kv.len() ==> kv[stream_end(kv, p) - 1] == 0,
    decreases kv.len() - p,
{
    if p + 1 < kv.len() && kv[p] != 0 {
        lemma_stream_end(kv, p + 2);
        let rest = stream_pairs(kv, p + 2);
        let all = stream_pairs(kv, p);
        assert(all == seq![(kv[p] as int, kv[p + 1] as int)] + rest);
        assert forall|j: int| 0 <= j < all.len() implies (#[trigger] all[j]) == (
            kv[p + 2 * j] as int,
            kv[p + 2 * j + 1] as int,
        ) && p + 2 * j + 1 < kv.len() && kv[p + 2 * j] != 0 by {
            if j > 0 {
                assert(all[j] == rest[j - 1]);
                assert(p + 2 + 2 * (j - 1) == p + 2 * j);
            }
        }
        assert(p + 2 + 2 * rest.len() == p + 2 * all.len());
    } else {
        assert(stream_pairs(kv, p).len() == 0);
    }
}

/// The tags of the next entity begin one position after the key index 0
/// that ended those of the entity before.
pub proof fn lemma_stream_resumes_after_terminator(kv: Seq<i32>, i: int)
    requires
        0 <= i,
    ensures
        0 <= stream_start(kv, i) <= stream_start(kv, i + 1) <= kv.len(),
        stream_start(kv, i + 1) == stream_end(kv, stream_start(kv, i)),
        stream_start(kv, i + 1) < kv.len() ==> kv[stream_start(kv, i + 1) - 1] == 0,
    decreases i,
{
    if i > 0 {
        lemma_stream_resumes_after_terminator(kv, i - 1);
    }
    lemma_stream_end(kv, stream_start(kv, i));
}

/// A coordinate is the quotient of `offset + granularity * raw` by 100 with
/// the fraction dropped: it lies between zero and the exact quotient, less
/// than one away from it.
pub proof fn lemma_coordinate_rounds_toward_zero(raw: int, offset: int, granularity: int)
    ensures
        ({
            let x = offset + granularity * raw;
            let q = coordinate(raw, offset, granularity);
            &&& x >= 0 ==> 0 <= 100 * q <= x < 100 * q + 100
            &&& x <= 0 ==> 100 * q - 100 < x <= 100 * q <= 0
        }),
        coordinate(-raw, -offset, granularity) == -coordinate(raw, offset, granularity),
{
    let x = offset + granularity * raw;
    assert(-offset + granularity * (-raw) == -x) by (nonlinear_arith)
        requires
            x == offset + granularity * raw,
    ;
}

/// A field that the message of an entity lacks is unset in its metadata,
/// and a field that it has is set to its value, a zero as any other.
pub proof fn lemma_sparse_info_keeps_presence(block: PrimitiveBlock, info: Info)
    ensures
        sparse_info(block, info) matches Ok(v) ==> {
            &&& v.version == info.version
            &&& v.timestamp == info.timestamp
            &&& v.changeset == info.changeset
            &&& v.uid == info.uid
            &&& (v.user is Some <==> info.user_sid is Some)
            &&& v.visible == info.visible
        },
        sparse_info(block, info) is Err <==> (info.user_sid matches Some(k) && !block.has_string(
            k as int,
        )),
        entity_info(block, None) == Ok::<InfoView, DecodeError>(InfoView::unset()),
{
}

/// Without metadata columns every field of a dense node's metadata is
/// unset, and with them every field is set.
pub proof fn lemma_dense_info_keeps_presence(block: PrimitiveBlock, d: DenseNodes, i: int)
    ensures
        d.info() is None ==> dense_entity_info(block, d.info(), i) == Ok::<InfoView, DecodeError>(
            InfoView::unset(),
        ),
        d.info() is Some ==> (dense_entity_info(block, d.info(), i) matches Ok(v) ==> {
            &&& v.version is Some
            &&& v.timestamp is Some
            &&& v.changeset is Some
            &&& v.uid is Some
            &&& v.user is Some
            &&& v.visible is Some
        }),
{
}

} // verus!
