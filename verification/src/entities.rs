//! The parts of an entity and the entities with a message of their own:
//! strings, coordinates, tags, metadata, nodes, ways and relations.

use crate::error::Decoded;
use crate::error::DecodeError;
use crate::error::view_of;
use crate::model::absolutes;
use crate::model::coordinate;
use crate::model::decimicro;
use crate::model::delta_sum;
use crate::model::deltas_fit;
use crate::model::entity_info;
use crate::model::in_i32;
use crate::model::in_i64;
use crate::model::is_member_type;
use crate::model::member_at;
use crate::model::member_count;
use crate::model::member_id;
use crate::model::members_of;
use crate::model::pairs_map;
use crate::model::pairs_valid;
use crate::model::relation_of;
use crate::model::resolve;
use crate::model::sparse_info;
use crate::model::sparse_node;
use crate::model::stream_dangling;
use crate::model::stream_end;
use crate::model::stream_pairs;
use crate::model::stream_tags;
use crate::model::tags_of;
use crate::model::way_of;
use crate::model::zip_pairs;
use crate::objects::Info;
use crate::objects::Node;
use crate::objects::NodeId;
use crate::objects::OsmId;
use crate::objects::Ref;
use crate::objects::refs_view;
use crate::objects::RefView;
use crate::objects::Relation;
use crate::objects::RelationId;
use crate::objects::Tags;
use crate::objects::Way;
use crate::objects::WayId;
use crate::osmformat::MEMBER_NODE;
use crate::osmformat::MEMBER_RELATION;
use crate::osmformat::MEMBER_WAY;
use crate::osmformat::PrimitiveBlock;
use crate::osmformat;
use crate::stream::gather;
use crate::stream::lemma_ok_prefix_len_is;
use crate::text::SmartStr;
use vstd::prelude::*;

verus! {

/// The text of entry `k` of the block's string table. Bytes that are not
/// UTF-8 become U+FFFD; an index outside the table is an error.
pub fn make_string(k: usize, block: &PrimitiveBlock) -> (r: Decoded<SmartStr>)
    ensures
        view_of(r) == resolve(*block, k as int),
{
    if k < block.stringtable.s.len() {
        Ok(SmartStr::from_utf8_lossy(block.stringtable.s[k].as_slice()))
    } else {
        Err(DecodeError::StringIndex)
    }
}

/// The text that a signed index resolves to. A negative index addresses
/// nothing.
pub fn make_string_signed(k: i32, block: &PrimitiveBlock) -> (r: Decoded<SmartStr>)
    ensures
        view_of(r) == resolve(*block, k as int),
{
    if k < 0 {
        Err(DecodeError::StringIndex)
    } else {
        make_string(k as usize, block)
    }
}

/// Scales a raw coordinate: `(offset + granularity * raw) / 100`, rounded
/// toward zero, and of the quotient the low 32 bits.
pub fn scale(raw: i64, offset: i64, granularity: i32) -> (r: i32)
    ensures
        r == decimicro(raw, offset, granularity),
        in_i32(coordinate(raw as int, offset as int, granularity as int)) ==> r == coordinate(
            raw as int,
            offset as int,
            granularity as int,
        ),
{
    let wide_raw: i128 = raw as i128;
    let wide_granularity: i128 = granularity as i128;
    assert(-0x4000_0000_0000_0000_0000_0000 <= wide_granularity * wide_raw
        <= 0x4000_0000_0000_0000_0000_0000) by (nonlinear_arith)
        requires
            -0x8000_0000 <= wide_granularity <= 0x8000_0000,
            -0x8000_0000_0000_0000 <= wide_raw <= 0x8000_0000_0000_0000,
    ;
    let x: i128 = offset as i128 + wide_granularity * wide_raw;
    let q: i128 = if x >= 0 {
        x / 100
    } else {
        -((-x) / 100)
    };
    #[verifier::truncate]
    (q as i32)
}

/// The latitude of a raw value, in units of 1e-7 degrees.
pub fn make_lat(c: i64, b: &PrimitiveBlock) -> (r: i32)
    ensures
        r == decimicro(c, b.lat_offset, b.granularity),
{
    scale(c, b.lat_offset, b.granularity)
}

/// The longitude of a raw value, in units of 1e-7 degrees.
pub fn make_lon(c: i64, b: &PrimitiveBlock) -> (r: i32)
    ensures
        r == decimicro(c, b.lon_offset, b.granularity),
{
    scale(c, b.lon_offset, b.granularity)
}

/// The tags that two parallel columns of string indices stand for: the
/// pairs are inserted in their order, so that of two pairs with one key the
/// later one stays.
pub fn make_tags(keys: &[u32], vals: &[u32], b: &PrimitiveBlock) -> (r: Decoded<Tags>)
    ensures
        view_of(r) == tags_of(*b, keys@, vals@),
{
    let n = if keys.len() <= vals.len() {
        keys.len()
    } else {
        vals.len()
    };
    let ghost pairs = zip_pairs(keys@, vals@);
    let mut tags = Tags::new();
    let mut j: usize = 0;
    while j < n
        invariant
            j <= n,
            n == pairs.len(),
            pairs == zip_pairs(keys@, vals@),
            pairs_valid(*b, pairs.take(j as int)),
            tags@ == pairs_map(*b, pairs.take(j as int)),
        decreases n - j,
    {
        let key = match make_string(keys[j] as usize, b) {
            Ok(s) => s,
            Err(e) => {
                assert(!b.has_string(pairs[j as int].0));
                return Err(e);
            },
        };
        let value = match make_string(vals[j] as usize, b) {
            Ok(s) => s,
            Err(e) => {
                assert(!b.has_string(pairs[j as int].1));
                return Err(e);
            },
        };
        tags.insert(key, value);
        proof {
            let next = pairs.take(j + 1);
            assert(next.drop_last() == pairs.take(j as int));
            assert(next.last() == pairs[j as int]);
            assert forall|i: int| 0 <= i < next.len() implies b.has_string((#[trigger] next[i]).0)
                && b.has_string(next[i].1) by {
                if i < j {
                    assert(next[i] == pairs.take(j as int)[i]);
                }
            }
        }
        j += 1;
    }
    assert(pairs.take(j as int) == pairs);
    Ok(tags)
}

/// The tags of one node of a dense bundle, and the position in the tag
/// stream after them. The stream is read from `start`, a key and a value
/// at a time, up to a key index 0, which is passed over, or to the end of
/// the stream.
pub fn make_dense_tags(keys_vals: &[i32], start: usize, block: &PrimitiveBlock) -> (r: Decoded<
    (Tags, usize),
>)
    ensures
        match stream_tags(*block, keys_vals@, start as int) {
            Ok(tags) => r is Ok && r->Ok_0.0@ == tags && r->Ok_0.1 == stream_end(
                keys_vals@,
                start as int,
            ),
            Err(e) => r == Err::<(Tags, usize), DecodeError>(e),
        },
{
    let ghost kv = keys_vals@;
    let ghost all = stream_pairs(kv, start as int);
    let ghost mut seen: Seq<(int, int)> = Seq::empty();
    let mut tags = Tags::new();
    let mut pos = start;
    let mut done = false;
    while !done
        invariant
            kv == keys_vals@,
            all == stream_pairs(kv, start as int),
            start <= pos,
            pos <= kv.len() || pos == start,
            pairs_valid(*block, seen),
            tags@ == pairs_map(*block, seen),
            !done ==> seen + stream_pairs(kv, pos as int) == all,
            !done ==> stream_end(kv, pos as int) == stream_end(kv, start as int),
            !done ==> stream_dangling(kv, pos as int) == stream_dangling(kv, start as int),
            done ==> seen == all,
            done ==> pos == stream_end(kv, start as int),
            done ==> (stream_dangling(kv, start as int) matches Some(k) ==> block.has_string(k)),
        decreases
            (if done {
                0int
            } else if pos <= kv.len() {
                kv.len() - pos + 2
            } else {
                1int
            }),
    {
        if pos >= keys_vals.len() {
            assert(seen + Seq::<(int, int)>::empty() =~= seen);
            done = true;
        } else if keys_vals[pos] == 0 {
            assert(seen + Seq::<(int, int)>::empty() =~= seen);
            pos += 1;
            done = true;
        } else {
            let key = match make_string_signed(keys_vals[pos], block) {
                Ok(s) => s,
                Err(e) => {
                    proof {
                        if pos + 1 < kv.len() {
                            assert(all[seen.len() as int] == stream_pairs(kv, pos as int)[0]);
                        }
                    }
                    return Err(e);
                },
            };
            if pos + 1 >= keys_vals.len() {
                assert(seen + Seq::<(int, int)>::empty() =~= seen);
                pos += 1;
                done = true;
            } else {
                let value = match make_string_signed(keys_vals[pos + 1], block) {
                    Ok(s) => s,
                    Err(e) => {
                        assert(all[seen.len() as int] == stream_pairs(kv, pos as int)[0]);
                        return Err(e);
                    },
                };
                tags.insert(key, value);
                proof {
                    let pair = (kv[pos as int] as int, kv[pos + 1] as int);
                    assert(seen.push(pair).drop_last() == seen);
                    assert(seen.push(pair) + stream_pairs(kv, pos + 2) =~= seen + stream_pairs(
                        kv,
                        pos as int,
                    ));
                    seen = seen.push(pair);
                }
                pos += 2;
            }
        }
    }
    Ok((tags, pos))
}

/// The metadata that an entity's own message gives: each field is set just
/// when the message has it.
pub fn make_info(i: &osmformat::Info, b: &PrimitiveBlock) -> (r: Decoded<Info>)
    ensures
        view_of(r) == sparse_info(*b, *i),
{
    let user = match i.user_sid {
        Some(k) => match make_string(k as usize, b) {
            Ok(s) => Some(s),
            Err(e) => {
                return Err(e);
            },
        },
        None => None,
    };
    Ok(
        Info {
            version: i.version,
            timestamp: i.timestamp,
            changeset: i.changeset,
            uid: i.uid,
            user,
            visible: i.visible,
        },
    )
}

/// The metadata of an entity: that of its message where it has one, and
/// else the metadata in which every field is unset.
pub fn make_entity_info(info: &Option<osmformat::Info>, b: &PrimitiveBlock) -> (r: Decoded<Info>)
    ensures
        view_of(r) == entity_info(*b, *info),
{
    match info {
        Some(i) => make_info(i, b),
        None => Ok(Info::unset()),
    }
}

/// The node that a message of its own stands for.
pub fn simple_node(n: &osmformat::Node, block: &PrimitiveBlock) -> (r: Decoded<Node>)
    ensures
        view_of(r) == sparse_node(*block, *n),
{
    let tags = match make_tags(n.keys.as_slice(), n.vals.as_slice(), block) {
        Ok(t) => t,
        Err(e) => {
            return Err(e);
        },
    };
    let info = match make_entity_info(&n.info, block) {
        Ok(i) => i,
        Err(e) => {
            return Err(e);
        },
    };
    Ok(
        Node {
            id: NodeId(n.id),
            tags,
            decimicro_lat: make_lat(n.lat, block),
            decimicro_lon: make_lon(n.lon, block),
            info,
        },
    )
}

/// The node ids that the deltas of a way stand for: the running totals,
/// in the order of the deltas.
pub fn way_nodes(refs: &[i64]) -> (r: Decoded<Vec<NodeId>>)
    ensures
        deltas_fit(refs@) ==> r is Ok && r->Ok_0@.len() == refs@.len() && forall|i: int|
            0 <= i < refs@.len() ==> (#[trigger] r->Ok_0@[i]).0 == delta_sum(refs@, i + 1),
        !deltas_fit(refs@) ==> r == Err::<Vec<NodeId>, DecodeError>(DecodeError::Overflow),
{
    let mut nodes: Vec<NodeId> = Vec::new();
    let mut n: i64 = 0;
    let mut j: usize = 0;
    while j < refs.len()
        invariant
            j <= refs@.len(),
            n == delta_sum(refs@, j as int),
            nodes@.len() == j,
            forall|k: int| 0 <= k <= j ==> in_i64(#[trigger] delta_sum(refs@, k)),
            forall|i: int| 0 <= i < j ==> (#[trigger] nodes@[i]).0 == delta_sum(refs@, i + 1),
        decreases refs@.len() - j,
    {
        n = match n.checked_add(refs[j]) {
            Some(v) => v,
            None => {
                assert(!in_i64(delta_sum(refs@, j + 1)));
                return Err(DecodeError::Overflow);
            },
        };
        nodes.push(NodeId(n));
        j += 1;
    }
    Ok(nodes)
}

/// The way that a message stands for.
pub fn way(w: &osmformat::Way, block: &PrimitiveBlock) -> (r: Decoded<Way>)
    ensures
        view_of(r) == way_of(*block, *w),
{
    let nodes = match way_nodes(w.refs.as_slice()) {
        Ok(n) => n,
        Err(e) => {
            return Err(e);
        },
    };
    let tags = match make_tags(w.keys.as_slice(), w.vals.as_slice(), block) {
        Ok(t) => t,
        Err(e) => {
            return Err(e);
        },
    };
    let info = match make_entity_info(&w.info, block) {
        Ok(i) => i,
        Err(e) => {
            return Err(e);
        },
    };
    assert(nodes@ =~= Seq::new(w.refs@.len(), |i: int| NodeId(absolutes(w.refs@)[i])));
    Ok(Way { id: WayId(w.id), tags, nodes, info })
}

/// The identity of a relation member from its type and its id. A type
/// that is none of the three is an error.
pub fn member(member_type: i32, id: i64) -> (r: Decoded<OsmId>)
    ensures
        is_member_type(member_type as int) ==> r == Ok::<OsmId, DecodeError>(
            member_id(member_type as int, id),
        ),
        !is_member_type(member_type as int) ==> r == Err::<OsmId, DecodeError>(
            DecodeError::MemberType,
        ),
{
    if member_type == MEMBER_NODE {
        Ok(OsmId::Node(NodeId(id)))
    } else if member_type == MEMBER_WAY {
        Ok(OsmId::Way(WayId(id)))
    } else if member_type == MEMBER_RELATION {
        Ok(OsmId::Relation(RelationId(id)))
    } else {
        Err(DecodeError::MemberType)
    }
}

/// The members of a relation: the three member columns are read side by
/// side, and the ids are the running totals of `memids`.
pub fn relation_refs(rel: &osmformat::Relation, block: &PrimitiveBlock) -> (r: Decoded<Vec<Ref>>)
    ensures
        match members_of(*block, *rel) {
            Ok(members) => r is Ok && refs_view(r->Ok_0@) == members,
            Err(e) => r == Err::<Vec<Ref>, DecodeError>(e),
        },
{
    let mut n = rel.memids.len();
    if rel.types.len() < n {
        n = rel.types.len();
    }
    if rel.roles_sid.len() < n {
        n = rel.roles_sid.len();
    }
    let ghost items = Seq::new(member_count(*rel) as nat, |j: int| member_at(*block, *rel, j));
    let mut refs: Vec<Ref> = Vec::new();
    let mut m: i64 = 0;
    let mut j: usize = 0;
    while j < n
        invariant
            j <= n,
            n == member_count(*rel),
            items == Seq::new(member_count(*rel) as nat, |j: int| member_at(*block, *rel, j)),
            m == delta_sum(rel.memids@, j as int),
            refs@.len() == j,
            forall|i: int| 0 <= i < j ==> #[trigger] items[i] == Ok::<RefView, DecodeError>(refs@[i]@),
        decreases n - j,
    {
        let found: Decoded<Ref> = match m.checked_add(rel.memids[j]) {
            None => Err(DecodeError::Overflow),
            Some(id) => match member(rel.types[j], id) {
                Err(e) => Err(e),
                Ok(member) => match make_string_signed(rel.roles_sid[j], block) {
                    Err(e) => Err(e),
                    Ok(role) => {
                        m = id;
                        Ok(Ref { member, role })
                    },
                },
            },
        };
        assert(view_of(found) == items[j as int]);
        match found {
            Ok(member_ref) => {
                refs.push(member_ref);
            },
            Err(e) => {
                proof {
                    lemma_ok_prefix_len_is(items, j as int);
                }
                return Err(e);
            },
        }
        j += 1;
    }
    proof {
        lemma_ok_prefix_len_is(items, n as int);
        assert(refs_view(refs@) =~= gather(items)->Ok_0);
    }
    Ok(refs)
}

/// The relation that a message stands for.
pub fn relation(rel: &osmformat::Relation, block: &PrimitiveBlock) -> (r: Decoded<Relation>)
    ensures
        view_of(r) == relation_of(*block, *rel),
{
    let refs = match relation_refs(rel, block) {
        Ok(r) => r,
        Err(e) => {
            return Err(e);
        },
    };
    let tags = match make_tags(rel.keys.as_slice(), rel.vals.as_slice(), block) {
        Ok(t) => t,
        Err(e) => {
            return Err(e);
        },
    };
    let info = match make_entity_info(&rel.info, block) {
        Ok(i) => i,
        Err(e) => {
            return Err(e);
        },
    };
    Ok(Relation { id: RelationId(rel.id), tags, refs, info })
}

} // verus!
