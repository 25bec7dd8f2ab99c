//! What a block means: the entities that its columns and indices stand
//! for, as mathematical functions of the raw messages.

use crate::error::Decoded;
use crate::error::DecodeError;
use crate::objects::InfoView;
use crate::objects::NodeId;
use crate::objects::NodeView;
use crate::objects::OsmId;
use crate::objects::OsmObjView;
use crate::objects::RefView;
use crate::objects::RelationId;
use crate::objects::RelationView;
use crate::objects::TagMap;
use crate::objects::WayId;
use crate::objects::WayView;
use crate::osmformat::DenseInfo;
use crate::osmformat::DenseNodes;
use crate::osmformat::Info;
use crate::osmformat::Node;
use crate::osmformat::PrimitiveBlock;
use crate::osmformat::PrimitiveGroup;
use crate::osmformat::Relation;
use crate::osmformat::Way;
use crate::stream::cut;
use crate::stream::gather;
use crate::stream::lift;
use crate::text::lossy_utf8;
use vstd::prelude::*;

verus! {

pub open spec fn in_i64(x: int) -> bool {
    i64::MIN <= x <= i64::MAX
}

pub open spec fn in_i32(x: int) -> bool {
    i32::MIN <= x <= i32::MAX
}

pub open spec fn min(a: int, b: int) -> int {
    if a <= b {
        a
    } else {
        b
    }
}

/// The sum of the first `n` deltas of a column.
pub open spec fn delta_sum(deltas: Seq<i64>, n: int) -> int
    decreases n,
{
    if n <= 0 {
        0
    } else {
        delta_sum(deltas, n - 1) + deltas[n - 1]
    }
}

/// The sum of the first `n` deltas of a column of 32-bit values.
pub open spec fn delta_sum32(deltas: Seq<i32>, n: int) -> int
    decreases n,
{
    if n <= 0 {
        0
    } else {
        delta_sum32(deltas, n - 1) + deltas[n - 1]
    }
}

/// Every running total of the column is a 64-bit value.
pub open spec fn deltas_fit(deltas: Seq<i64>) -> bool {
    forall|n: int| 0 <= n <= deltas.len() ==> in_i64(#[trigger] delta_sum(deltas, n))
}

/// The absolute values that a column of deltas stands for.
pub open spec fn absolutes(deltas: Seq<i64>) -> Seq<i64> {
    Seq::new(deltas.len(), |i: int| delta_sum(deltas, i + 1) as i64)
}

/// The quotient of `x` by 100, rounded toward zero.
pub open spec fn div100_toward_zero(x: int) -> int {
    if x >= 0 {
        x / 100
    } else {
        -((-x) / 100)
    }
}

/// A coordinate in units of 1e-7 degrees, from its raw value and the
/// block's offset and granularity, which are in units of 1e-9 degrees.
pub open spec fn coordinate(raw: int, offset: int, granularity: int) -> int {
    div100_toward_zero(offset + granularity * raw)
}

/// The coordinate as the 32-bit value that an entity stores. Where the
/// coordinate is no 32-bit value, its low 32 bits are kept.
pub open spec fn decimicro(raw: i64, offset: i64, granularity: i32) -> i32 {
    coordinate(raw as int, offset as int, granularity as int) as i32
}

/// The text of entry `k` of the string table.
pub open spec fn string_at(block: PrimitiveBlock, k: int) -> Seq<char> {
    lossy_utf8(block.bytes_at(k))
}

/// The text that the index `k` resolves to.
pub open spec fn resolve(block: PrimitiveBlock, k: int) -> Decoded<Seq<char>> {
    if block.has_string(k) {
        Ok(string_at(block, k))
    } else {
        Err(DecodeError::StringIndex)
    }
}

/// Both indices of every pair address the string table.
pub open spec fn pairs_valid(block: PrimitiveBlock, pairs: Seq<(int, int)>) -> bool {
    forall|j: int|
        0 <= j < pairs.len() ==> block.has_string((#[trigger] pairs[j]).0) && block.has_string(
            pairs[j].1,
        )
}

/// The mapping that pairs of indices stand for. A later pair replaces an
/// earlier one with the same key.
pub open spec fn pairs_map(block: PrimitiveBlock, pairs: Seq<(int, int)>) -> TagMap
    decreases pairs.len(),
{
    if pairs.len() == 0 {
        Map::empty()
    } else {
        pairs_map(block, pairs.drop_last()).insert(
            string_at(block, pairs.last().0),
            string_at(block, pairs.last().1),
        )
    }
}

/// The pairs of two parallel columns. Of a longer column only as many
/// entries count as the shorter one has.
pub open spec fn zip_pairs(keys: Seq<u32>, vals: Seq<u32>) -> Seq<(int, int)> {
    Seq::new(min(keys.len() as int, vals.len() as int) as nat, |j: int| (keys[j] as int, vals[j] as int))
}

/// The tags that two parallel columns of indices stand for.
pub open spec fn tags_of(block: PrimitiveBlock, keys: Seq<u32>, vals: Seq<u32>) -> Decoded<TagMap> {
    if pairs_valid(block, zip_pairs(keys, vals)) {
        Ok(pairs_map(block, zip_pairs(keys, vals)))
    } else {
        Err(DecodeError::StringIndex)
    }
}

/// The pairs of the entity whose tags begin at position `p` of a dense tag
/// stream: the stream is read two entries at a time until a key index is 0
/// or the stream ends.
pub open spec fn stream_pairs(kv: Seq<i32>, p: int) -> Seq<(int, int)>
    decreases kv.len() - p,
{
    if 0 <= p && p + 1 < kv.len() && kv[p] != 0 {
        seq![(kv[p] as int, kv[p + 1] as int)] + stream_pairs(kv, p + 2)
    } else {
        Seq::empty()
    }
}

/// The key index that ends the stream without a value after it, if the
/// tags that begin at `p` run into one.
pub open spec fn stream_dangling(kv: Seq<i32>, p: int) -> Option<int>
    decreases kv.len() - p,
{
    if p < 0 || p >= kv.len() || kv[p] == 0 {
        None
    } else if p + 1 >= kv.len() {
        Some(kv[p] as int)
    } else {
        stream_dangling(kv, p + 2)
    }
}

/// The position after the tags that begin at `p`: one past the key index 0
/// that ends them, or the end of the stream where there is none.
pub open spec fn stream_end(kv: Seq<i32>, p: int) -> int
    decreases kv.len() - p,
{
    if p < 0 || p >= kv.len() {
        p
    } else if kv[p] == 0 || p + 1 >= kv.len() {
        p + 1
    } else {
        stream_end(kv, p + 2)
    }
}

/// The position at which the tags of the `i`-th entity of a dense bundle
/// begin.
pub open spec fn stream_start(kv: Seq<i32>, i: int) -> int
    decreases i,
{
    if i <= 0 {
        0
    } else {
        stream_end(kv, stream_start(kv, i - 1))
    }
}

/// The tags of the entity whose tags begin at position `p` of the stream.
/// A key without a value is resolved as the others are, and then dropped.
pub open spec fn stream_tags(block: PrimitiveBlock, kv: Seq<i32>, p: int) -> Decoded<TagMap> {
    if pairs_valid(block, stream_pairs(kv, p)) && (stream_dangling(kv, p) matches Some(k)
        ==> block.has_string(k)) {
        Ok(pairs_map(block, stream_pairs(kv, p)))
    } else {
        Err(DecodeError::StringIndex)
    }
}

/// The metadata that an entity's own message gives.
pub open spec fn sparse_info(block: PrimitiveBlock, info: Info) -> Decoded<InfoView> {
    if info.user_sid matches Some(k) && !block.has_string(k as int) {
        Err(DecodeError::StringIndex)
    } else {
        Ok(
            InfoView {
                version: info.version,
                timestamp: info.timestamp,
                changeset: info.changeset,
                uid: info.uid,
                user: match info.user_sid {
                    Some(k) => Some(string_at(block, k as int)),
                    None => None,
                },
                visible: info.visible,
            },
        )
    }
}

/// The metadata of an entity that may have none.
pub open spec fn entity_info(block: PrimitiveBlock, info: Option<Info>) -> Decoded<InfoView> {
    match info {
        Some(i) => sparse_info(block, i),
        None => Ok(InfoView::unset()),
    }
}

/// The number of entities that the metadata columns describe: the length of
/// the shortest of them.
pub open spec fn dense_info_len(di: DenseInfo) -> int {
    min(
        min(min(di.version@.len() as int, di.timestamp@.len() as int), di.changeset@.len() as int),
        min(min(di.uid@.len() as int, di.user_sid@.len() as int), di.visible@.len() as int),
    )
}

/// The metadata of the `i`-th entity of a dense bundle with metadata
/// columns: timestamp, changeset, user id and user name are running totals.
pub open spec fn dense_info_at(block: PrimitiveBlock, di: DenseInfo, i: int) -> Decoded<InfoView> {
    let timestamp = delta_sum(di.timestamp@, i + 1);
    let changeset = delta_sum(di.changeset@, i + 1);
    let uid = delta_sum32(di.uid@, i + 1);
    let user_sid = delta_sum32(di.user_sid@, i + 1);
    if !(in_i64(timestamp) && in_i64(changeset) && in_i32(uid) && in_i32(user_sid)) {
        Err(DecodeError::Overflow)
    } else if !block.has_string(user_sid) {
        Err(DecodeError::StringIndex)
    } else {
        Ok(
            InfoView {
                version: Some(di.version@[i]),
                timestamp: Some(timestamp as i64),
                changeset: Some(changeset as i64),
                uid: Some(uid as i32),
                user: Some(string_at(block, user_sid)),
                visible: Some(di.visible@[i]),
            },
        )
    }
}

/// The metadata of the `i`-th entity of a dense bundle. Without metadata
/// columns every field is unset.
pub open spec fn dense_entity_info(block: PrimitiveBlock, info: Option<DenseInfo>, i: int) -> Decoded<
    InfoView,
> {
    match info {
        Some(di) => dense_info_at(block, di, i),
        None => Ok(InfoView::unset()),
    }
}

/// The node that a message of its own stands for.
pub open spec fn sparse_node(block: PrimitiveBlock, n: Node) -> Decoded<NodeView> {
    match tags_of(block, n.keys@, n.vals@) {
        Err(e) => Err(e),
        Ok(tags) => match entity_info(block, n.info) {
            Err(e) => Err(e),
            Ok(info) => Ok(
                NodeView {
                    id: NodeId(n.id),
                    tags,
                    decimicro_lat: decimicro(n.lat, block.lat_offset, block.granularity),
                    decimicro_lon: decimicro(n.lon, block.lon_offset, block.granularity),
                    info,
                },
            ),
        },
    }
}

/// The number of nodes of a dense bundle: the length of the shortest of its
/// columns of ids, latitudes and longitudes and, where it has metadata, of
/// the metadata columns.
pub open spec fn dense_len(d: DenseNodes) -> int {
    let n = min(min(d.id@.len() as int, d.lat@.len() as int), d.lon@.len() as int);
    match d.info() {
        Some(di) => min(n, dense_info_len(di)),
        None => n,
    }
}

/// The `i`-th node of a dense bundle: id and raw coordinates are running
/// totals, and the tags are the `i`-th run of the tag stream.
pub open spec fn dense_node_at(block: PrimitiveBlock, d: DenseNodes, i: int) -> Decoded<NodeView> {
    let id = delta_sum(d.id@, i + 1);
    let lat = delta_sum(d.lat@, i + 1);
    let lon = delta_sum(d.lon@, i + 1);
    match dense_entity_info(block, d.info(), i) {
        Err(e) => Err(e),
        Ok(info) => if !(in_i64(id) && in_i64(lat) && in_i64(lon)) {
            Err(DecodeError::Overflow)
        } else {
            match stream_tags(block, d.keys_vals@, stream_start(d.keys_vals@, i)) {
                Err(e) => Err(e),
                Ok(tags) => Ok(
                    NodeView {
                        id: NodeId(id as i64),
                        tags,
                        decimicro_lat: decimicro(lat as i64, block.lat_offset, block.granularity),
                        decimicro_lon: decimicro(lon as i64, block.lon_offset, block.granularity),
                        info,
                    },
                ),
            }
        },
    }
}

/// The way that a message stands for: its nodes are the running totals of
/// `refs`.
pub open spec fn way_of(block: PrimitiveBlock, w: Way) -> Decoded<WayView> {
    if !deltas_fit(w.refs@) {
        Err(DecodeError::Overflow)
    } else {
        match tags_of(block, w.keys@, w.vals@) {
            Err(e) => Err(e),
            Ok(tags) => match entity_info(block, w.info) {
                Err(e) => Err(e),
                Ok(info) => Ok(
                    WayView {
                        id: WayId(w.id),
                        tags,
                        nodes: Seq::new(w.refs@.len(), |i: int| NodeId(absolutes(w.refs@)[i])),
                        info,
                    },
                ),
            },
        }
    }
}

/// Whether `t` is the number of a member type.
pub open spec fn is_member_type(t: int) -> bool {
    0 <= t <= 2
}

/// The identity of a member of type `t`.
pub open spec fn member_id(t: int, id: i64) -> OsmId {
    if t == 0 {
        OsmId::Node(NodeId(id))
    } else if t == 1 {
        OsmId::Way(WayId(id))
    } else {
        OsmId::Relation(RelationId(id))
    }
}

/// The number of members of a relation: the length of the shortest of its
/// three member columns.
pub open spec fn member_count(r: Relation) -> int {
    min(min(r.memids@.len() as int, r.types@.len() as int), r.roles_sid@.len() as int)
}

/// The `j`-th member of a relation: its id is a running total of `memids`.
pub open spec fn member_at(block: PrimitiveBlock, r: Relation, j: int) -> Decoded<RefView> {
    let id = delta_sum(r.memids@, j + 1);
    if !in_i64(id) {
        Err(DecodeError::Overflow)
    } else if !is_member_type(r.types@[j] as int) {
        Err(DecodeError::MemberType)
    } else if !block.has_string(r.roles_sid@[j] as int) {
        Err(DecodeError::StringIndex)
    } else {
        Ok(
            RefView {
                member: member_id(r.types@[j] as int, id as i64),
                role: string_at(block, r.roles_sid@[j] as int),
            },
        )
    }
}

/// The members of a relation.
pub open spec fn members_of(block: PrimitiveBlock, r: Relation) -> Decoded<Seq<RefView>> {
    gather(Seq::new(member_count(r) as nat, |j: int| member_at(block, r, j)))
}

/// The relation that a message stands for.
pub open spec fn relation_of(block: PrimitiveBlock, r: Relation) -> Decoded<RelationView> {
    match members_of(block, r) {
        Err(e) => Err(e),
        Ok(refs) => match tags_of(block, r.keys@, r.vals@) {
            Err(e) => Err(e),
            Ok(tags) => match entity_info(block, r.info) {
                Err(e) => Err(e),
                Ok(info) => Ok(RelationView { id: RelationId(r.id), tags, refs, info }),
            },
        },
    }
}

/// The nodes of the messages from position `place` on, each decoded by
/// itself.
pub open spec fn sparse_nodes_from(block: PrimitiveBlock, nodes: Seq<Node>, place: int) -> Seq<
    Decoded<NodeView>,
> {
    Seq::new((nodes.len() - place) as nat, |j: int| sparse_node(block, nodes[place + j]))
}

/// The nodes of a dense bundle from position `place` on.
pub open spec fn dense_nodes_from(block: PrimitiveBlock, d: DenseNodes, place: int) -> Seq<
    Decoded<NodeView>,
> {
    Seq::new((dense_len(d) - place) as nat, |j: int| dense_node_at(block, d, place + j))
}

/// The ways of the messages from position `place` on.
pub open spec fn ways_from(block: PrimitiveBlock, ways: Seq<Way>, place: int) -> Seq<
    Decoded<WayView>,
> {
    Seq::new((ways.len() - place) as nat, |j: int| way_of(block, ways[place + j]))
}

/// The relations of the messages from position `place` on.
pub open spec fn relations_from(block: PrimitiveBlock, relations: Seq<Relation>, place: int) -> Seq<
    Decoded<RelationView>,
> {
    Seq::new((relations.len() - place) as nat, |j: int| relation_of(block, relations[place + j]))
}

/// Nodes as entities of any kind.
pub open spec fn node_objs(s: Seq<Decoded<NodeView>>) -> Seq<Decoded<OsmObjView>> {
    lift(s, |v: NodeView| OsmObjView::Node(v))
}

/// Ways as entities of any kind.
pub open spec fn way_objs(s: Seq<Decoded<WayView>>) -> Seq<Decoded<OsmObjView>> {
    lift(s, |v: WayView| OsmObjView::Way(v))
}

/// Relations as entities of any kind.
pub open spec fn relation_objs(s: Seq<Decoded<RelationView>>) -> Seq<Decoded<OsmObjView>> {
    lift(s, |v: RelationView| OsmObjView::Relation(v))
}

/// All nodes of a group, each decoded whatever became of the others: those
/// with a message of their own, then those of the dense bundle.
pub open spec fn all_nodes(block: PrimitiveBlock, group: PrimitiveGroup) -> Seq<Decoded<NodeView>> {
    sparse_nodes_from(block, group.nodes@, 0) + dense_nodes_from(block, group.dense, 0)
}

/// All entities of a group, each decoded whatever became of the others:
/// the nodes, then the ways, then the relations.
pub open spec fn all_objs(block: PrimitiveBlock, group: PrimitiveGroup) -> Seq<Decoded<OsmObjView>> {
    node_objs(all_nodes(block, group)) + way_objs(ways_from(block, group.ways@, 0))
        + relation_objs(relations_from(block, group.relations@, 0))
}

/// What the decoder of the nodes with a message of their own yields: they
/// come in the order of the group, and the first error ends the decoding.
pub open spec fn simple_nodes_output(block: PrimitiveBlock, group: PrimitiveGroup) -> Seq<
    Decoded<NodeView>,
> {
    cut(sparse_nodes_from(block, group.nodes@, 0))
}

/// What the decoder of the dense nodes yields.
pub open spec fn dense_nodes_output(block: PrimitiveBlock, group: PrimitiveGroup) -> Seq<
    Decoded<NodeView>,
> {
    cut(dense_nodes_from(block, group.dense, 0))
}

/// What the decoder of all nodes yields.
pub open spec fn nodes_output(block: PrimitiveBlock, group: PrimitiveGroup) -> Seq<
    Decoded<NodeView>,
> {
    cut(all_nodes(block, group))
}

/// What the decoder of the ways yields.
pub open spec fn ways_output(block: PrimitiveBlock, group: PrimitiveGroup) -> Seq<Decoded<WayView>> {
    cut(ways_from(block, group.ways@, 0))
}

/// What the decoder of the relations yields.
pub open spec fn relations_output(block: PrimitiveBlock, group: PrimitiveGroup) -> Seq<
    Decoded<RelationView>,
> {
    cut(relations_from(block, group.relations@, 0))
}

/// What the decoder of all entities yields.
pub open spec fn objs_output(block: PrimitiveBlock, group: PrimitiveGroup) -> Seq<
    Decoded<OsmObjView>,
> {
    cut(all_objs(block, group))
}

} // verus!
