//! The decoders of a primitive group. A decoder is made for a group and its
//! block and then asked for one entity after another; the first error ends
//! it.

use crate::entities::make_dense_tags;
use crate::entities::make_lat;
use crate::entities::make_lon;
use crate::entities::make_string_signed;
use crate::entities::relation;
use crate::entities::simple_node;
use crate::entities::way;
use crate::error::Decoded;
use crate::error::DecodeError;
use crate::model::all_nodes;
use crate::model::delta_sum32;
use crate::model::delta_sum;
use crate::model::dense_info_at;
use crate::model::dense_info_len;
use crate::model::dense_len;
use crate::model::dense_node_at;
use crate::model::dense_nodes_from;
use crate::model::dense_nodes_output;
use crate::model::node_objs;
use crate::model::nodes_output;
use crate::model::objs_output;
use crate::model::relation_objs;
use crate::model::relation_of;
use crate::model::relations_from;
use crate::model::relations_output;
use crate::model::simple_nodes_output;
use crate::model::sparse_node;
use crate::model::sparse_nodes_from;
use crate::model::stream_start;
use crate::model::way_objs;
use crate::model::way_of;
use crate::model::ways_from;
use crate::model::ways_output;
use crate::objects::Info;
use crate::objects::InfoView;
use crate::objects::Node;
use crate::objects::NodeId;
use crate::objects::NodeView;
use crate::objects::OsmObj;
use crate::objects::OsmObjView;
use crate::objects::Relation;
use crate::objects::RelationView;
use crate::objects::Way;
use crate::objects::WayView;
use crate::osmformat::DenseInfo;
use crate::osmformat::held_info;
use crate::osmformat::info_get_ref;
use crate::osmformat::info_is_some;
use crate::osmformat::PrimitiveBlock;
use crate::osmformat::PrimitiveGroup;
use crate::osmformat;
use crate::stream::cut;
use crate::stream::is_next;
use crate::stream::lemma_cut_concat;
use crate::stream::lemma_cut_concat_step;
use crate::stream::lemma_cut_step;
use crate::stream::lemma_lift_cut;
use crate::stream::lemma_ok_prefix_len;
use vstd::prelude::*;

verus! {

/// The decoder of the nodes that have a message of their own.
pub struct SimpleNodes<'a> {
    nodes: &'a Vec<osmformat::Node>,
    block: &'a PrimitiveBlock,
    place: usize,
}

/// A decoder of the nodes of `group` that have a message of their own.
pub fn simple_nodes<'a>(group: &'a PrimitiveGroup, block: &'a PrimitiveBlock) -> (r: SimpleNodes<'a>)
    ensures
        r.remaining() == simple_nodes_output(*block, *group),
        r.pending() == group.nodes@.len(),
{
    let r = SimpleNodes { nodes: &group.nodes, block, place: 0 };
    assert(r.remaining() =~= simple_nodes_output(*block, *group));
    r
}

impl<'a> SimpleNodes<'a> {
    /// What the decoder has yet to yield.
    pub closed spec fn remaining(&self) -> Seq<Decoded<NodeView>> {
        if self.place >= self.nodes@.len() {
            Seq::empty()
        } else {
            cut(sparse_nodes_from(*self.block, self.nodes@, self.place as int))
        }
    }

    /// The number of messages that have not been read. After an error it
    /// is 0.
    pub closed spec fn pending(&self) -> nat {
        if self.place >= self.nodes@.len() {
            0
        } else {
            (self.nodes@.len() - self.place) as nat
        }
    }

    /// Bounds on the number of results that are yet to come: no more than
    /// there are messages left, and at least one where there is a message
    /// left.
    pub fn size_hint(&self) -> (r: (usize, Option<usize>))
        ensures
            r.0 == (if self.pending() > 0 {
                1usize
            } else {
                0usize
            }),
            r.1 == Some(self.pending() as usize),
            r.0 <= self.remaining().len() <= self.pending(),
    {
        proof {
            if self.place < self.nodes@.len() {
                let items = sparse_nodes_from(*self.block, self.nodes@, self.place as int);
                lemma_cut_step(items);
                lemma_ok_prefix_len(items);
            }
        }
        if self.place >= self.nodes.len() {
            (0, Some(0))
        } else {
            (1, Some(self.nodes.len() - self.place))
        }
    }

    /// The next node, or the error that ends the decoding.
    pub fn next(&mut self) -> (r: Option<Decoded<Node>>)
        ensures
            is_next(old(self).remaining(), r, final(self).remaining()),
            final(self).pending() == (match r {
                Some(Ok(_)) => old(self).pending() - 1,
                _ => 0,
            }),
    {
        if self.place >= self.nodes.len() {
            return None;
        }
        let ghost items = sparse_nodes_from(*self.block, self.nodes@, self.place as int);
        let r = simple_node(&self.nodes[self.place], self.block);
        proof {
            lemma_cut_step(items);
            let rest = sparse_nodes_from(*self.block, self.nodes@, self.place + 1);
            assert(items[0] == sparse_node(*self.block, self.nodes@[self.place as int]));
            assert(items.skip(1) =~= rest);
            assert(rest.len() == 0 ==> cut(rest) =~= Seq::empty());
        }
        if r.is_ok() {
            self.place += 1;
        } else {
            self.place = self.nodes.len();
        }
        Some(r)
    }
}

/// The decoder of the ways.
pub struct Ways<'a> {
    ways: &'a Vec<osmformat::Way>,
    block: &'a PrimitiveBlock,
    place: usize,
}

/// A decoder of the ways of `group`.
pub fn ways<'a>(group: &'a PrimitiveGroup, block: &'a PrimitiveBlock) -> (r: Ways<'a>)
    ensures
        r.remaining() == ways_output(*block, *group),
        r.pending() == group.ways@.len(),
{
    let r = Ways { ways: &group.ways, block, place: 0 };
    assert(r.remaining() =~= ways_output(*block, *group));
    r
}

impl<'a> Ways<'a> {
    /// What the decoder has yet to yield.
    pub closed spec fn remaining(&self) -> Seq<Decoded<WayView>> {
        if self.place >= self.ways@.len() {
            Seq::empty()
        } else {
            cut(ways_from(*self.block, self.ways@, self.place as int))
        }
    }

    /// The number of messages that have not been read. After an error it
    /// is 0.
    pub closed spec fn pending(&self) -> nat {
        if self.place >= self.ways@.len() {
            0
        } else {
            (self.ways@.len() - self.place) as nat
        }
    }

    /// Bounds on the number of results that are yet to come: no more than
    /// there are messages left, and at least one where there is a message
    /// left.
    pub fn size_hint(&self) -> (r: (usize, Option<usize>))
        ensures
            r.0 == (if self.pending() > 0 {
                1usize
            } else {
                0usize
            }),
            r.1 == Some(self.pending() as usize),
            r.0 <= self.remaining().len() <= self.pending(),
    {
        proof {
            if self.place < self.ways@.len() {
                let items = ways_from(*self.block, self.ways@, self.place as int);
                lemma_cut_step(items);
                lemma_ok_prefix_len(items);
            }
        }
        if self.place >= self.ways.len() {
            (0, Some(0))
        } else {
            (1, Some(self.ways.len() - self.place))
        }
    }

    /// The next way, or the error that ends the decoding.
    pub fn next(&mut self) -> (r: Option<Decoded<Way>>)
        ensures
            is_next(old(self).remaining(), r, final(self).remaining()),
            final(self).pending() == (match r {
                Some(Ok(_)) => old(self).pending() - 1,
                _ => 0,
            }),
    {
        if self.place >= self.ways.len() {
            return None;
        }
        let ghost items = ways_from(*self.block, self.ways@, self.place as int);
        let r = way(&self.ways[self.place], self.block);
        proof {
            lemma_cut_step(items);
            let rest = ways_from(*self.block, self.ways@, self.place + 1);
            assert(items[0] == way_of(*self.block, self.ways@[self.place as int]));
            assert(items.skip(1) =~= rest);
            assert(rest.len() == 0 ==> cut(rest) =~= Seq::empty());
        }
        if r.is_ok() {
            self.place += 1;
        } else {
            self.place = self.ways.len();
        }
        Some(r)
    }
}

/// The decoder of the relations.
pub struct Relations<'a> {
    relations: &'a Vec<osmformat::Relation>,
    block: &'a PrimitiveBlock,
    place: usize,
}

/// A decoder of the relations of `group`.
pub fn relations<'a>(group: &'a PrimitiveGroup, block: &'a PrimitiveBlock) -> (r: Relations<'a>)
    ensures
        r.remaining() == relations_output(*block, *group),
        r.pending() == group.relations@.len(),
{
    let r = Relations { relations: &group.relations, block, place: 0 };
    assert(r.remaining() =~= relations_output(*block, *group));
    r
}

impl<'a> Relations<'a> {
    /// What the decoder has yet to yield.
    pub closed spec fn remaining(&self) -> Seq<Decoded<RelationView>> {
        if self.place >= self.relations@.len() {
            Seq::empty()
        } else {
            cut(relations_from(*self.block, self.relations@, self.place as int))
        }
    }

    /// The number of messages that have not been read. After an error it
    /// is 0.
    pub closed spec fn pending(&self) -> nat {
        if self.place >= self.relations@.len() {
            0
        } else {
            (self.relations@.len() - self.place) as nat
        }
    }

    /// Bounds on the number of results that are yet to come: no more than
    /// there are messages left, and at least one where there is a message
    /// left.
    pub fn size_hint(&self) -> (r: (usize, Option<usize>))
        ensures
            r.0 == (if self.pending() > 0 {
                1usize
            } else {
                0usize
            }),
            r.1 == Some(self.pending() as usize),
            r.0 <= self.remaining().len() <= self.pending(),
    {
        proof {
            if self.place < self.relations@.len() {
                let items = relations_from(*self.block, self.relations@, self.place as int);
                lemma_cut_step(items);
                lemma_ok_prefix_len(items);
            }
        }
        if self.place >= self.relations.len() {
            (0, Some(0))
        } else {
            (1, Some(self.relations.len() - self.place))
        }
    }

    /// The next relation, or the error that ends the decoding.
    pub fn next(&mut self) -> (r: Option<Decoded<Relation>>)
        ensures
            is_next(old(self).remaining(), r, final(self).remaining()),
            final(self).pending() == (match r {
                Some(Ok(_)) => old(self).pending() - 1,
                _ => 0,
            }),
    {
        if self.place >= self.relations.len() {
            return None;
        }
        let ghost items = relations_from(*self.block, self.relations@, self.place as int);
        let r = relation(&self.relations[self.place], self.block);
        proof {
            lemma_cut_step(items);
            let rest = relations_from(*self.block, self.relations@, self.place + 1);
            assert(items[0] == relation_of(*self.block, self.relations@[self.place as int]));
            assert(items.skip(1) =~= rest);
            assert(rest.len() == 0 ==> cut(rest) =~= Seq::empty());
        }
        if r.is_ok() {
            self.place += 1;
        } else {
            self.place = self.relations.len();
        }
        Some(r)
    }
}

/// The number of entities that metadata columns describe.
fn info_columns_len(di: &DenseInfo) -> (r: usize)
    ensures
        r == dense_info_len(*di),
{
    let mut n = di.version.len();
    if di.timestamp.len() < n {
        n = di.timestamp.len();
    }
    if di.changeset.len() < n {
        n = di.changeset.len();
    }
    if di.uid.len() < n {
        n = di.uid.len();
    }
    if di.user_sid.len() < n {
        n = di.user_sid.len();
    }
    if di.visible.len() < n {
        n = di.visible.len();
    }
    n
}

/// The decoder of the metadata of a dense bundle. It keeps the running
/// totals of the columns that hold deltas.
pub struct DenseInfoIter<'a> {
    denseinfo: &'a protobuf::SingularPtrField<DenseInfo>,
    block: &'a PrimitiveBlock,
    cur_timestamp: i64,
    cur_changeset: i64,
    cur_uid: i32,
    cur_user_sid: i32,
    place: usize,
}

impl<'a> DenseInfoIter<'a> {
    #[verifier::type_invariant]
    spec fn totals_are_current(&self) -> bool {
        match held_info(*self.denseinfo) {
            Some(di) => self.place < dense_info_len(di) ==> {
                &&& self.cur_timestamp == delta_sum(di.timestamp@, self.place as int)
                &&& self.cur_changeset == delta_sum(di.changeset@, self.place as int)
                &&& self.cur_uid == delta_sum32(di.uid@, self.place as int)
                &&& self.cur_user_sid == delta_sum32(di.user_sid@, self.place as int)
            },
            None => true,
        }
    }

    /// The metadata columns that are read, if the bundle has any.
    pub closed spec fn columns(&self) -> Option<DenseInfo> {
        held_info(*self.denseinfo)
    }

    /// The block whose string table resolves the user names.
    pub closed spec fn context(&self) -> PrimitiveBlock {
        *self.block
    }

    /// The number of entities whose metadata has been read from the
    /// columns. Once an error was found it is the length of the columns.
    pub closed spec fn position(&self) -> int {
        self.place as int
    }

    /// A decoder at the first entity, with every running total at zero.
    pub fn new(denseinfo: &'a protobuf::SingularPtrField<DenseInfo>, block: &'a PrimitiveBlock) -> (r:
        Self)
        ensures
            r.columns() == held_info(*denseinfo),
            r.context() == *block,
            r.position() == 0,
    {
        Self {
            denseinfo,
            block,
            cur_timestamp: 0,
            cur_changeset: 0,
            cur_uid: 0,
            cur_user_sid: 0,
            place: 0,
        }
    }

    /// What one step does: the metadata of the entity at which `self` stands
    /// is `r`, and `after` stands at the next entity. Without metadata
    /// columns `r` is the metadata in which every field is unset and nothing
    /// is read. With them, the entities end where the shortest column ends,
    /// and an error ends them too.
    pub open spec fn steps_to(&self, r: Option<Decoded<Info>>, after: &Self) -> bool {
        &&& after.columns() == self.columns()
        &&& after.context() == self.context()
        &&& match self.columns() {
            None => r matches Some(Ok(info)) && info@ == InfoView::unset() && after.position()
                == self.position(),
            Some(di) => if self.position() < dense_info_len(di) {
                match r {
                    Some(Ok(info)) => Ok::<InfoView, DecodeError>(info@) == dense_info_at(
                        self.context(),
                        di,
                        self.position(),
                    ) && after.position() == self.position() + 1,
                    Some(Err(e)) => Err::<InfoView, DecodeError>(e) == dense_info_at(
                        self.context(),
                        di,
                        self.position(),
                    ) && after.position() == dense_info_len(di),
                    None => false,
                }
            } else {
                r is None && after.position() == self.position()
            },
        }
    }

    /// A decoder that stands where `self` stands.
    fn same(&self) -> (r: Self)
        ensures
            r == *self,
    {
        proof {
            use_type_invariant(self);
        }
        DenseInfoIter {
            denseinfo: self.denseinfo,
            block: self.block,
            cur_timestamp: self.cur_timestamp,
            cur_changeset: self.cur_changeset,
            cur_uid: self.cur_uid,
            cur_user_sid: self.cur_user_sid,
            place: self.place,
        }
    }

    /// A decoder that has given up: it stands at the end of the columns.
    fn ended(&self, n: usize) -> (r: Self)
        requires
            self.columns() matches Some(di) && n == dense_info_len(di),
        ensures
            r.columns() == self.columns(),
            r.context() == self.context(),
            r.position() == n,
    {
        DenseInfoIter {
            denseinfo: self.denseinfo,
            block: self.block,
            cur_timestamp: 0,
            cur_changeset: 0,
            cur_uid: 0,
            cur_user_sid: 0,
            place: n,
        }
    }

    /// The metadata of the next entity, and the decoder after it.
    fn step(&self) -> (r: (Option<Decoded<Info>>, Self))
        ensures
            self.steps_to(r.0, &r.1),
    {
        proof {
            use_type_invariant(self);
        }
        if !info_is_some(self.denseinfo) {
            return (Some(Ok(Info::unset())), self.same());
        }
        let di = info_get_ref(self.denseinfo);
        let n = info_columns_len(di);
        if self.place >= n {
            return (None, self.same());
        }
        let i = self.place;
        let version = di.version[i];
        let visible = di.visible[i];
        let totals = match self.cur_timestamp.checked_add(di.timestamp[i]) {
            None => None,
            Some(timestamp) => match self.cur_changeset.checked_add(di.changeset[i]) {
                None => None,
                Some(changeset) => match self.cur_uid.checked_add(di.uid[i]) {
                    None => None,
                    Some(uid) => match self.cur_user_sid.checked_add(di.user_sid[i]) {
                        None => None,
                        Some(user_sid) => Some((timestamp, changeset, uid, user_sid)),
                    },
                },
            },
        };
        let (timestamp, changeset, uid, user_sid) = match totals {
            Some(t) => t,
            None => {
                return (Some(Err(DecodeError::Overflow)), self.ended(n));
            },
        };
        let user = match make_string_signed(user_sid, self.block) {
            Ok(s) => s,
            Err(e) => {
                return (Some(Err(e)), self.ended(n));
            },
        };
        let after = DenseInfoIter {
            denseinfo: self.denseinfo,
            block: self.block,
            cur_timestamp: timestamp,
            cur_changeset: changeset,
            cur_uid: uid,
            cur_user_sid: user_sid,
            place: i + 1,
        };
        let info = Info {
            version: Some(version),
            timestamp: Some(timestamp),
            changeset: Some(changeset),
            uid: Some(uid),
            user: Some(user),
            visible: Some(visible),
        };
        (Some(Ok(info)), after)
    }

    /// The metadata of the next entity, or the error that ends the
    /// decoding.
    pub fn next(&mut self) -> (r: Option<Decoded<Info>>)
        ensures
            old(self).steps_to(r, final(self)),
    {
        let (r, after) = self.step();
        *self = after;
        r
    }
}

/// The decoder of the nodes of a dense bundle. It keeps the running totals
/// of ids and coordinates, the decoder of the metadata, and its place in
/// the tag stream.
pub struct DenseNodes<'a> {
    block: &'a PrimitiveBlock,
    dense: &'a osmformat::DenseNodes,
    len: usize,
    place: usize,
    keys_vals_place: usize,
    cur_id: i64,
    cur_lat: i64,
    cur_lon: i64,
    denseinfo: DenseInfoIter<'a>,
}

/// The number of nodes of a dense bundle.
fn dense_columns_len(dense: &osmformat::DenseNodes) -> (r: usize)
    ensures
        r == dense_len(*dense),
{
    let mut n = dense.id.len();
    if dense.lat.len() < n {
        n = dense.lat.len();
    }
    if dense.lon.len() < n {
        n = dense.lon.len();
    }
    if info_is_some(&dense.denseinfo) {
        let m = info_columns_len(info_get_ref(&dense.denseinfo));
        if m < n {
            n = m;
        }
    }
    n
}

/// A decoder of the dense nodes of `group`.
pub fn dense_nodes<'a>(group: &'a PrimitiveGroup, block: &'a PrimitiveBlock) -> (r: DenseNodes<'a>)
    ensures
        r.remaining() == dense_nodes_output(*block, *group),
{
    let dense = &group.dense;
    let r = DenseNodes {
        block,
        dense,
        len: dense_columns_len(dense),
        place: 0,
        keys_vals_place: 0,
        cur_id: 0,
        cur_lat: 0,
        cur_lon: 0,
        denseinfo: DenseInfoIter::new(&dense.denseinfo, block),
    };
    assert(r.remaining() =~= dense_nodes_output(*block, *group));
    r
}

impl<'a> DenseNodes<'a> {
    #[verifier::type_invariant]
    spec fn totals_are_current(&self) -> bool {
        &&& self.len == dense_len(*self.dense)
        &&& self.place <= self.len
        &&& self.place < self.len ==> {
            &&& self.cur_id == delta_sum(self.dense.id@, self.place as int)
            &&& self.cur_lat == delta_sum(self.dense.lat@, self.place as int)
            &&& self.cur_lon == delta_sum(self.dense.lon@, self.place as int)
            &&& self.keys_vals_place == stream_start(self.dense.keys_vals@, self.place as int)
            &&& self.denseinfo.columns() == self.dense.info()
            &&& self.denseinfo.context() == *self.block
            &&& self.dense.info() is Some ==> self.denseinfo.position() == self.place
        }
    }

    /// What the decoder has yet to yield.
    pub closed spec fn remaining(&self) -> Seq<Decoded<NodeView>> {
        if self.place >= self.len {
            Seq::empty()
        } else {
            cut(dense_nodes_from(*self.block, *self.dense, self.place as int))
        }
    }

    /// The next node, or the error that ends the decoding.
    pub fn next(&mut self) -> (r: Option<Decoded<Node>>)
        ensures
            is_next(old(self).remaining(), r, final(self).remaining()),
    {
        proof {
            use_type_invariant(&*self);
        }
        if self.place >= self.len {
            return None;
        }
        let i = self.place;
        let dense = self.dense;
        let block = self.block;
        let ghost items = dense_nodes_from(*block, *dense, i as int);
        proof {
            lemma_cut_step(items);
            assert(items[0] == dense_node_at(*block, *dense, i as int));
            let rest = dense_nodes_from(*block, *dense, i + 1);
            assert(items.skip(1) =~= rest);
            assert(rest.len() == 0 ==> cut(rest) =~= Seq::empty());
        }
        let (info, denseinfo) = match self.denseinfo.step() {
            (Some(Ok(info)), after) => (info, after),
            (Some(Err(e)), _) => {
                self.place = self.len;
                return Some(Err(e));
            },
            (None, _) => {
                return None;
            },
        };
        let totals = match self.cur_id.checked_add(dense.id[i]) {
            None => None,
            Some(id) => match self.cur_lat.checked_add(dense.lat[i]) {
                None => None,
                Some(lat) => match self.cur_lon.checked_add(dense.lon[i]) {
                    None => None,
                    Some(lon) => Some((id, lat, lon)),
                },
            },
        };
        let (id, lat, lon) = match totals {
            Some(t) => t,
            None => {
                self.place = self.len;
                return Some(Err(DecodeError::Overflow));
            },
        };
        let (tags, keys_vals_place) = match make_dense_tags(
            dense.keys_vals.as_slice(),
            self.keys_vals_place,
            block,
        ) {
            Ok(t) => t,
            Err(e) => {
                self.place = self.len;
                return Some(Err(e));
            },
        };
        *self = DenseNodes {
            block,
            dense,
            len: self.len,
            place: i + 1,
            keys_vals_place,
            cur_id: id,
            cur_lat: lat,
            cur_lon: lon,
            denseinfo,
        };
        Some(
            Ok(
                Node {
                    id: NodeId(id),
                    tags,
                    decimicro_lat: make_lat(lat, block),
                    decimicro_lon: make_lon(lon, block),
                    info,
                },
            ),
        )
    }
}

/// The decoder of all nodes: those with a message of their own, then the
/// dense ones.
pub struct Nodes<'a> {
    simple: SimpleNodes<'a>,
    dense: DenseNodes<'a>,
    failed: bool,
}

/// A decoder of the nodes of `group`.
pub fn nodes<'a>(g: &'a PrimitiveGroup, b: &'a PrimitiveBlock) -> (r: Nodes<'a>)
    ensures
        r.remaining() == nodes_output(*b, *g),
{
    proof {
        lemma_cut_concat(sparse_nodes_from(*b, g.nodes@, 0), dense_nodes_from(*b, g.dense, 0));
    }
    Nodes { simple: simple_nodes(g, b), dense: dense_nodes(g, b), failed: false }
}

impl<'a> Nodes<'a> {
    /// What the decoder has yet to yield.
    pub closed spec fn remaining(&self) -> Seq<Decoded<NodeView>> {
        if self.failed {
            Seq::empty()
        } else {
            cut(self.simple.remaining() + self.dense.remaining())
        }
    }

    /// The next node, or the error that ends the decoding.
    pub fn next(&mut self) -> (r: Option<Decoded<Node>>)
        ensures
            is_next(old(self).remaining(), r, final(self).remaining()),
    {
        if self.failed {
            return None;
        }
        let ghost simple = self.simple.remaining();
        let ghost dense = self.dense.remaining();
        let r = match self.simple.next() {
            Some(r) => {
                proof {
                    lemma_cut_concat_step(simple, dense);
                }
                r
            },
            None => {
                assert(simple + dense =~= dense);
                assert(self.simple.remaining() + self.dense.remaining() =~= dense);
                match self.dense.next() {
                    Some(r) => {
                        proof {
                            lemma_cut_concat_step(dense, Seq::empty());
                            assert(dense + Seq::<Decoded<NodeView>>::empty() =~= dense);
                            assert(self.simple.remaining() + self.dense.remaining()
                                =~= self.dense.remaining() + Seq::<Decoded<NodeView>>::empty());
                        }
                        r
                    },
                    None => {
                        return None;
                    },
                }
            },
        };
        if r.is_err() {
            self.failed = true;
        }
        Some(r)
    }
}

/// The decoder of all entities: the nodes, then the ways, then the
/// relations.
pub struct OsmObjs<'a> {
    nodes: Nodes<'a>,
    ways: Ways<'a>,
    relations: Relations<'a>,
    failed: bool,
}

/// A decoder of the entities of `group`.
pub fn iter<'a>(g: &'a PrimitiveGroup, b: &'a PrimitiveBlock) -> (r: OsmObjs<'a>)
    ensures
        r.remaining() == objs_output(*b, *g),
{
    let r = OsmObjs { nodes: nodes(g, b), ways: ways(g, b), relations: relations(g, b), failed: false };
    proof {
        let n = all_nodes(*b, *g);
        let w = ways_from(*b, g.ways@, 0);
        let l = relations_from(*b, g.relations@, 0);
        lemma_lift_cut(n, |v: NodeView| OsmObjView::Node(v));
        lemma_lift_cut(w, |v: WayView| OsmObjView::Way(v));
        lemma_lift_cut(l, |v: RelationView| OsmObjView::Relation(v));
        let (on, ow, ol) = (node_objs(n), way_objs(w), relation_objs(l));
        lemma_cut_concat(on, ow);
        lemma_cut_concat(cut(on) + cut(ow), ol);
        lemma_cut_concat(on + ow, ol);
    }
    r
}

impl<'a> OsmObjs<'a> {
    /// What the decoder has yet to yield.
    pub closed spec fn remaining(&self) -> Seq<Decoded<OsmObjView>> {
        if self.failed {
            Seq::empty()
        } else {
            cut(
                node_objs(self.nodes.remaining()) + way_objs(self.ways.remaining()) + relation_objs(
                    self.relations.remaining(),
                ),
            )
        }
    }

    /// The next entity, or the error that ends the decoding.
    pub fn next(&mut self) -> (r: Option<Decoded<OsmObj>>)
        ensures
            is_next(old(self).remaining(), r, final(self).remaining()),
    {
        if self.failed {
            return None;
        }
        let ghost n = node_objs(self.nodes.remaining());
        let ghost w = way_objs(self.ways.remaining());
        let ghost l = relation_objs(self.relations.remaining());
        let r: Decoded<OsmObj> = match self.nodes.next() {
            Some(r) => {
                proof {
                    lemma_cut_concat_step(n, w + l);
                    assert(n + w + l =~= n + (w + l));
                    assert(node_objs(self.nodes.remaining()) =~= n.skip(1));
                    assert(n.skip(1) + w + l =~= n.skip(1) + (w + l));
                }
                match r {
                    Ok(v) => Ok(OsmObj::Node(v)),
                    Err(e) => Err(e),
                }
            },
            None => {
                assert(n + w + l =~= w + l);
                assert(node_objs(self.nodes.remaining()) =~= n);
                match self.ways.next() {
                    Some(r) => {
                        proof {
                            lemma_cut_concat_step(w, l);
                            assert(way_objs(self.ways.remaining()) =~= w.skip(1));
                            assert(n + w.skip(1) + l =~= w.skip(1) + l);
                        }
                        match r {
                            Ok(v) => Ok(OsmObj::Way(v)),
                            Err(e) => Err(e),
                        }
                    },
                    None => {
                        assert(w + l =~= l);
                        assert(way_objs(self.ways.remaining()) =~= w);
                        match self.relations.next() {
                            Some(r) => {
                                proof {
                                    lemma_cut_step(l);
                                    assert(relation_objs(self.relations.remaining()) =~= l.skip(1));
                                    assert(n + w + l.skip(1) =~= l.skip(1));
                                }
                                match r {
                                    Ok(v) => Ok(OsmObj::Relation(v)),
                                    Err(e) => Err(e),
                                }
                            },
                            None => {
                                return None;
                            },
                        }
                    },
                }
            },
        };
        if r.is_err() {
            self.failed = true;
        }
        Some(r)
    }
}

} // verus!
