//! The decoded entities: nodes, ways and relations with their tags and
//! metadata, and the mathematical values that the contracts speak of.

use crate::text::SmartStr;
use vstd::prelude::*;

verus! {

/// The identity of a node.
#[derive(Clone, Copy, Debug, PartialEq, Eq, Structural, PartialOrd, Ord, Hash)]
pub struct NodeId(pub i64);

/// The identity of a way.
#[derive(Clone, Copy, Debug, PartialEq, Eq, Structural, PartialOrd, Ord, Hash)]
pub struct WayId(pub i64);

/// The identity of a relation.
#[derive(Clone, Copy, Debug, PartialEq, Eq, Structural, PartialOrd, Ord, Hash)]
pub struct RelationId(pub i64);

/// The identity of any entity, with its kind.
#[derive(Clone, Copy, Debug, PartialEq, Eq, Structural, PartialOrd, Ord, Hash)]
pub enum OsmId {
    Node(NodeId),
    Way(WayId),
    Relation(RelationId),
}

/// A tag mapping as a mathematical map from key to value.
pub type TagMap = Map<Seq<char>, Seq<char>>;

/// The map that a list of pairs stands for: a later pair replaces an earlier
/// one with the same key.
pub open spec fn map_of_pairs(pairs: Seq<(SmartStr, SmartStr)>) -> TagMap
    decreases pairs.len(),
{
    if pairs.len() == 0 {
        Map::empty()
    } else {
        map_of_pairs(pairs.drop_last()).insert(pairs.last().0@, pairs.last().1@)
    }
}

/// No two pairs have the same key.
pub open spec fn distinct_keys(pairs: Seq<(SmartStr, SmartStr)>) -> bool {
    forall|i: int, j: int|
        0 <= i < j < pairs.len() ==> (#[trigger] pairs[i]).0@ != (#[trigger] pairs[j]).0@
}

/// The keys of `map_of_pairs` are the keys of the pairs, and where no key
/// occurs twice each pair is an entry of the map.
pub proof fn lemma_map_of_pairs(pairs: Seq<(SmartStr, SmartStr)>)
    ensures
        map_of_pairs(pairs).dom().finite(),
        forall|k: Seq<char>| #[trigger]
            map_of_pairs(pairs).contains_key(k) <==> exists|i: int|
                0 <= i < pairs.len() && (#[trigger] pairs[i]).0@ == k,
        distinct_keys(pairs) ==> map_of_pairs(pairs).len() == pairs.len(),
        distinct_keys(pairs) ==> forall|i: int|
            0 <= i < pairs.len() ==> map_of_pairs(pairs)[(#[trigger] pairs[i]).0@] == pairs[i].1@,
    decreases pairs.len(),
{
    if pairs.len() > 0 {
        let front = pairs.drop_last();
        let last = pairs.last();
        lemma_map_of_pairs(front);
        assert forall|k: Seq<char>| #[trigger]
            map_of_pairs(pairs).contains_key(k) <==> exists|i: int|
                0 <= i < pairs.len() && (#[trigger] pairs[i]).0@ == k by {
            if map_of_pairs(pairs).contains_key(k) {
                if k == last.0@ {
                    assert(pairs[pairs.len() - 1].0@ == k);
                } else {
                    let i = choose|i: int| 0 <= i < front.len() && (#[trigger] front[i]).0@ == k;
                    assert(pairs[i].0@ == k);
                }
            }
            if exists|i: int| 0 <= i < pairs.len() && (#[trigger] pairs[i]).0@ == k {
                let i = choose|i: int| 0 <= i < pairs.len() && (#[trigger] pairs[i]).0@ == k;
                if i < front.len() {
                    assert(front[i].0@ == k);
                }
            }
        }
        if distinct_keys(pairs) {
            assert(distinct_keys(front)) by {
                assert forall|i: int, j: int| 0 <= i < j < front.len() implies (#[trigger] front[i]).0@
                    != (#[trigger] front[j]).0@ by {
                    assert(pairs[i].0@ != pairs[j].0@);
                }
            }
            assert(!map_of_pairs(front).contains_key(last.0@)) by {
                if map_of_pairs(front).contains_key(last.0@) {
                    let i = choose|i: int|
                        0 <= i < front.len() && (#[trigger] front[i]).0@ == last.0@;
                    assert(pairs[i].0@ != pairs[pairs.len() - 1].0@);
                }
            }
            assert forall|i: int| 0 <= i < pairs.len() implies map_of_pairs(pairs)[(#[trigger] pairs[i]).0@]
                == pairs[i].1@ by {
                if i < front.len() {
                    assert(front[i].0@ != last.0@) by {
                        assert(pairs[i].0@ != pairs[pairs.len() - 1].0@);
                    }
                    assert(map_of_pairs(front)[front[i].0@] == front[i].1@);
                }
            }
        }
    }
}

/// Replacing the value of a key that occurs once is `insert` on the map.
pub proof fn lemma_map_of_pairs_update(
    pairs: Seq<(SmartStr, SmartStr)>,
    i: int,
    pair: (SmartStr, SmartStr),
)
    requires
        distinct_keys(pairs),
        0 <= i < pairs.len(),
        pairs[i].0@ == pair.0@,
    ensures
        distinct_keys(pairs.update(i, pair)),
        map_of_pairs(pairs.update(i, pair)) == map_of_pairs(pairs).insert(pair.0@, pair.1@),
    decreases pairs.len(),
{
    let next = pairs.update(i, pair);
    assert(distinct_keys(next)) by {
        assert forall|a: int, b: int| 0 <= a < b < next.len() implies (#[trigger] next[a]).0@
            != (#[trigger] next[b]).0@ by {
            assert(pairs[a].0@ != pairs[b].0@);
        }
    }
    let front = pairs.drop_last();
    if i == pairs.len() - 1 {
        assert(next.drop_last() == front);
        assert(map_of_pairs(next) == map_of_pairs(front).insert(pair.0@, pair.1@));
        assert(map_of_pairs(pairs).insert(pair.0@, pair.1@) == map_of_pairs(front).insert(
            pair.0@,
            pair.1@,
        ));
    } else {
        assert(distinct_keys(front)) by {
            assert forall|a: int, b: int| 0 <= a < b < front.len() implies (#[trigger] front[a]).0@
                != (#[trigger] front[b]).0@ by {
                assert(pairs[a].0@ != pairs[b].0@);
            }
        }
        lemma_map_of_pairs_update(front, i, pair);
        assert(next.drop_last() == front.update(i, pair));
        assert(next.last() == pairs.last());
        assert(pairs[i].0@ != pairs[pairs.len() - 1].0@);
        assert(map_of_pairs(next) == map_of_pairs(pairs).insert(pair.0@, pair.1@));
    }
}

/// The tags of an entity: a mapping from key to value.
#[derive(Debug)]
pub struct Tags {
    pairs: Vec<(SmartStr, SmartStr)>,
}

impl View for Tags {
    type V = TagMap;

    closed spec fn view(&self) -> TagMap {
        map_of_pairs(self.pairs@)
    }
}

impl Tags {
    #[verifier::type_invariant]
    spec fn keys_occur_once(&self) -> bool {
        distinct_keys(self.pairs@)
    }

    /// The empty mapping.
    pub fn new() -> (r: Tags)
        ensures
            r@ == TagMap::empty(),
    {
        Tags { pairs: Vec::new() }
    }

    /// The number of keys.
    pub fn len(&self) -> (r: usize)
        ensures
            self@.dom().finite(),
            r == self@.len(),
    {
        proof {
            use_type_invariant(self);
            lemma_map_of_pairs(self.pairs@);
        }
        self.pairs.len()
    }

    /// Whether there is no tag.
    pub fn is_empty(&self) -> (r: bool)
        ensures
            r == (self@ == TagMap::empty()),
    {
        proof {
            use_type_invariant(self);
            lemma_map_of_pairs(self.pairs@);
            if self.pairs@.len() > 0 {
                assert(self@.contains_key(self.pairs@[0].0@));
            }
        }
        self.pairs.len() == 0
    }

    /// Where `key` stands among the pairs, if it is there.
    fn position(&self, key: &SmartStr) -> (r: Option<usize>)
        ensures
            match r {
                Some(i) => i < self.pairs@.len() && self.pairs@[i as int].0@ == key@,
                None => !self@.contains_key(key@),
            },
    {
        let mut i: usize = 0;
        while i < self.pairs.len()
            invariant
                i <= self.pairs@.len(),
                forall|j: int| 0 <= j < i ==> (#[trigger] self.pairs@[j]).0@ != key@,
            decreases self.pairs@.len() - i,
        {
            if self.pairs[i].0.same_text(key) {
                return Some(i);
            }
            i += 1;
        }
        proof {
            lemma_map_of_pairs(self.pairs@);
        }
        None
    }

    /// Sets the value of `key`, in place of the one it had, if any.
    pub fn insert(&mut self, key: SmartStr, value: SmartStr)
        ensures
            final(self)@ == old(self)@.insert(key@, value@),
    {
        proof {
            use_type_invariant(&*self);
        }
        let found = self.position(&key);
        let mut pairs: Vec<(SmartStr, SmartStr)> = Vec::new();
        std::mem::swap(&mut pairs, &mut self.pairs);
        match found {
            Some(i) => {
                proof {
                    lemma_map_of_pairs_update(pairs@, i as int, (key, value));
                }
                pairs.set(i, (key, value));
            },
            None => {
                proof {
                    lemma_map_of_pairs(pairs@);
                    assert(pairs@.push((key, value)).drop_last() == pairs@);
                }
                pairs.push((key, value));
            },
        }
        self.pairs = pairs;
    }

    /// The pairs of key and value, each key once.
    pub fn as_slice(&self) -> (r: &[(SmartStr, SmartStr)])
        ensures
            distinct_keys(r@),
            map_of_pairs(r@) == self@,
    {
        proof {
            use_type_invariant(self);
        }
        self.pairs.as_slice()
    }

    /// The value of `key`, if it has one.
    pub fn get(&self, key: &str) -> (r: Option<&SmartStr>)
        ensures
            match r {
                Some(v) => self@.contains_key(key@) && self@[key@] == v@,
                None => !self@.contains_key(key@),
            },
    {
        let wanted = SmartStr::new(key);
        match self.position(&wanted) {
            Some(i) => {
                proof {
                    use_type_invariant(self);
                    lemma_map_of_pairs(self.pairs@);
                }
                Some(&self.pairs[i].1)
            },
            None => None,
        }
    }

    /// Whether `key` has a value.
    pub fn contains_key(&self, key: &str) -> (r: bool)
        ensures
            r == self@.contains_key(key@),
    {
        self.get(key).is_some()
    }
}

/// The metadata of an entity. A field that the block does not give is
/// `None`, which is not the same as a zero that it does give.
#[derive(Debug, PartialEq, Eq)]
pub struct Info {
    pub version: Option<i32>,
    pub timestamp: Option<i64>,
    pub changeset: Option<i64>,
    pub uid: Option<i32>,
    pub user: Option<SmartStr>,
    pub visible: Option<bool>,
}

/// The metadata of an entity as a mathematical value.
pub struct InfoView {
    pub version: Option<i32>,
    pub timestamp: Option<i64>,
    pub changeset: Option<i64>,
    pub uid: Option<i32>,
    pub user: Option<Seq<char>>,
    pub visible: Option<bool>,
}

impl View for Info {
    type V = InfoView;

    open spec fn view(&self) -> InfoView {
        InfoView {
            version: self.version,
            timestamp: self.timestamp,
            changeset: self.changeset,
            uid: self.uid,
            user: match self.user {
                Some(u) => Some(u@),
                None => None,
            },
            visible: self.visible,
        }
    }
}

impl Info {
    /// The metadata of which nothing is known.
    pub fn unset() -> (r: Info)
        ensures
            r@ == InfoView::unset(),
    {
        Info { version: None, timestamp: None, changeset: None, uid: None, user: None, visible: None }
    }
}

impl InfoView {
    /// The metadata of which nothing is known.
    pub open spec fn unset() -> InfoView {
        InfoView {
            version: None,
            timestamp: None,
            changeset: None,
            uid: None,
            user: None,
            visible: None,
        }
    }
}

/// A point.
#[derive(Debug)]
pub struct Node {
    pub id: NodeId,
    pub tags: Tags,
    /// Latitude and longitude in units of 1e-7 degrees.
    pub decimicro_lat: i32,
    pub decimicro_lon: i32,
    pub info: Info,
}

/// A node as a mathematical value.
pub struct NodeView {
    pub id: NodeId,
    pub tags: TagMap,
    pub decimicro_lat: i32,
    pub decimicro_lon: i32,
    pub info: InfoView,
}

impl View for Node {
    type V = NodeView;

    open spec fn view(&self) -> NodeView {
        NodeView {
            id: self.id,
            tags: self.tags@,
            decimicro_lat: self.decimicro_lat,
            decimicro_lon: self.decimicro_lon,
            info: self.info@,
        }
    }
}

/// A line through nodes, in their order.
#[derive(Debug)]
pub struct Way {
    pub id: WayId,
    pub tags: Tags,
    pub nodes: Vec<NodeId>,
    pub info: Info,
}

/// A way as a mathematical value.
pub struct WayView {
    pub id: WayId,
    pub tags: TagMap,
    pub nodes: Seq<NodeId>,
    pub info: InfoView,
}

impl View for Way {
    type V = WayView;

    open spec fn view(&self) -> WayView {
        WayView { id: self.id, tags: self.tags@, nodes: self.nodes@, info: self.info@ }
    }
}

/// A member of a relation and the role it plays there.
#[derive(Debug, PartialEq, Eq)]
pub struct Ref {
    pub member: OsmId,
    pub role: SmartStr,
}

/// A member of a relation as a mathematical value.
pub struct RefView {
    pub member: OsmId,
    pub role: Seq<char>,
}

impl View for Ref {
    type V = RefView;

    open spec fn view(&self) -> RefView {
        RefView { member: self.member, role: self.role@ }
    }
}

/// The members of a relation as mathematical values.
pub open spec fn refs_view(refs: Seq<Ref>) -> Seq<RefView> {
    Seq::new(refs.len(), |i: int| refs[i]@)
}

/// An ordered group of entities.
#[derive(Debug)]
pub struct Relation {
    pub id: RelationId,
    pub tags: Tags,
    pub refs: Vec<Ref>,
    pub info: Info,
}

/// A relation as a mathematical value.
pub struct RelationView {
    pub id: RelationId,
    pub tags: TagMap,
    pub refs: Seq<RefView>,
    pub info: InfoView,
}

impl View for Relation {
    type V = RelationView;

    open spec fn view(&self) -> RelationView {
        RelationView {
            id: self.id,
            tags: self.tags@,
            refs: refs_view(self.refs@),
            info: self.info@,
        }
    }
}

/// Any entity.
#[derive(Debug)]
pub enum OsmObj {
    Node(Node),
    Way(Way),
    Relation(Relation),
}

/// Any entity as a mathematical value.
pub enum OsmObjView {
    Node(NodeView),
    Way(WayView),
    Relation(RelationView),
}

impl View for OsmObj {
    type V = OsmObjView;

    open spec fn view(&self) -> OsmObjView {
        match self {
            OsmObj::Node(n) => OsmObjView::Node(n@),
            OsmObj::Way(w) => OsmObjView::Way(w@),
            OsmObj::Relation(r) => OsmObjView::Relation(r@),
        }
    }
}

} // verus!
