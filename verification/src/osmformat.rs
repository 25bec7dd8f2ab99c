//! The raw messages of a block, as the wire decoder hands them over: columns
//! of integers and indices into the block's string table.

use vstd::prelude::*;

verus! {

/// `protobuf::SingularPtrField`, the field of a message that may be unset.
/// Nothing is known of a value but what the functions below state.
#[verifier::external_type_specification]
#[verifier::external_body]
#[verifier::reject_recursive_types(T)]
pub struct ExSingularPtrField<T>(protobuf::SingularPtrField<T>);

/// The strings of a block. Entry 0 is reserved and marks the end of tags in
/// a dense tag stream.
pub struct StringTable {
    pub s: Vec<Vec<u8>>,
}

/// What all groups of one block share.
pub struct PrimitiveBlock {
    pub stringtable: StringTable,
    /// Units of a raw coordinate, in nanodegrees.
    pub granularity: i32,
    /// Offsets of the coordinate grid, in nanodegrees.
    pub lat_offset: i64,
    pub lon_offset: i64,
}

/// Metadata of one entity. Every field may be missing.
pub struct Info {
    pub version: Option<i32>,
    pub timestamp: Option<i64>,
    pub changeset: Option<i64>,
    pub uid: Option<i32>,
    pub user_sid: Option<u32>,
    pub visible: Option<bool>,
}

/// Metadata of the nodes of a dense bundle, one column per field. All
/// columns but `version` and `visible` hold deltas.
pub struct DenseInfo {
    pub version: Vec<i32>,
    pub timestamp: Vec<i64>,
    pub changeset: Vec<i64>,
    pub uid: Vec<i32>,
    pub user_sid: Vec<i32>,
    pub visible: Vec<bool>,
}

/// A node with fields of its own.
pub struct Node {
    pub id: i64,
    pub keys: Vec<u32>,
    pub vals: Vec<u32>,
    pub info: Option<Info>,
    pub lat: i64,
    pub lon: i64,
}

/// Many nodes in columns: deltas of ids and coordinates, and one stream of
/// tags in which a key index 0 ends the tags of a node. A group without
/// dense nodes holds the empty bundle.
pub struct DenseNodes {
    pub id: Vec<i64>,
    pub denseinfo: protobuf::SingularPtrField<DenseInfo>,
    pub lat: Vec<i64>,
    pub lon: Vec<i64>,
    pub keys_vals: Vec<i32>,
}

/// A way: `refs` holds the deltas of its node ids.
pub struct Way {
    pub id: i64,
    pub keys: Vec<u32>,
    pub vals: Vec<u32>,
    pub info: Option<Info>,
    pub refs: Vec<i64>,
}

/// A relation: three columns describe its members, `memids` by deltas.
pub struct Relation {
    pub id: i64,
    pub keys: Vec<u32>,
    pub vals: Vec<u32>,
    pub info: Option<Info>,
    pub roles_sid: Vec<i32>,
    pub memids: Vec<i64>,
    pub types: Vec<i32>,
}

/// The entities of one group.
pub struct PrimitiveGroup {
    pub nodes: Vec<Node>,
    pub dense: DenseNodes,
    pub ways: Vec<Way>,
    pub relations: Vec<Relation>,
}

/// The member types of a relation, as the wire format numbers them.
pub const MEMBER_NODE: i32 = 0;

pub const MEMBER_WAY: i32 = 1;

pub const MEMBER_RELATION: i32 = 2;

/// The metadata columns that a `SingularPtrField` holds, if it is set.
pub uninterp spec fn held_info(f: protobuf::SingularPtrField<DenseInfo>) -> Option<DenseInfo>;

/// `SingularPtrField::is_some`: whether the field is set.
#[verifier::external_body]
pub(crate) fn info_is_some(f: &protobuf::SingularPtrField<DenseInfo>) -> (r: bool)
    ensures
        r == held_info(*f) is Some,
{
    f.is_some()
}

/// `SingularPtrField::get_ref`: the value of a field that is set. On one
/// that is not set it panics, which `requires` rules out.
#[verifier::external_body]
pub(crate) fn info_get_ref(f: &protobuf::SingularPtrField<DenseInfo>) -> (r: &DenseInfo)
    requires
        held_info(*f) is Some,
    ensures
        Some(*r) == held_info(*f),
{
    f.get_ref()
}

impl PrimitiveBlock {
    /// Whether `k` addresses an entry of the string table.
    pub open spec fn has_string(&self, k: int) -> bool {
        0 <= k < self.stringtable.s@.len()
    }

    /// The bytes of entry `k`.
    pub open spec fn bytes_at(&self, k: int) -> Seq<u8> {
        self.stringtable.s@[k]@
    }
}

impl DenseNodes {
    /// The metadata columns of the bundle, if it has any.
    pub open spec fn info(&self) -> Option<DenseInfo> {
        held_info(self.denseinfo)
    }
}

} // verus!
