use osm_groups::entities::make_dense_tags;
use osm_groups::entities::make_info;
use osm_groups::entities::make_lat;
use osm_groups::entities::make_lon;
use osm_groups::entities::make_string;
use osm_groups::entities::make_string_signed;
use osm_groups::entities::make_tags;
use osm_groups::entities::member;
use osm_groups::entities::relation;
use osm_groups::entities::relation_refs;
use osm_groups::entities::scale;
use osm_groups::entities::simple_node;
use osm_groups::entities::way;
use osm_groups::entities::way_nodes;
use osm_groups::error::DecodeError;
use osm_groups::groups::dense_nodes;
use osm_groups::groups::iter;
use osm_groups::groups::nodes;
use osm_groups::groups::relations;
use osm_groups::groups::simple_nodes;
use osm_groups::groups::ways;
use osm_groups::groups::DenseInfoIter;
use osm_groups::objects::Info;
use osm_groups::objects::Node;
use osm_groups::objects::NodeId;
use osm_groups::objects::OsmId;
use osm_groups::objects::OsmObj;
use osm_groups::objects::RelationId;
use osm_groups::objects::Tags;
use osm_groups::objects::WayId;
use osm_groups::osmformat;
use osm_groups::osmformat::DenseInfo;
use osm_groups::osmformat::PrimitiveBlock;
use osm_groups::osmformat::PrimitiveGroup;
use osm_groups::osmformat::StringTable;
use osm_groups::text::SmartStr;
use protobuf::SingularPtrField;

fn block_of(strings: &[&[u8]]) -> PrimitiveBlock {
    PrimitiveBlock {
        stringtable: StringTable { s: strings.iter().map(|s| s.to_vec()).collect() },
        granularity: 100,
        lat_offset: 0,
        lon_offset: 0,
    }
}

fn block() -> PrimitiveBlock {
    block_of(&[b"", b"highway", b"residential", b"name", b"Main Street", b"alice", b"outer", b"bob"])
}

fn no_dense() -> osmformat::DenseNodes {
    osmformat::DenseNodes {
        id: vec![],
        denseinfo: SingularPtrField::none(),
        lat: vec![],
        lon: vec![],
        keys_vals: vec![],
    }
}

fn empty_group() -> PrimitiveGroup {
    PrimitiveGroup { nodes: vec![], dense: no_dense(), ways: vec![], relations: vec![] }
}

fn raw_node(id: i64, lat: i64, lon: i64, keys: Vec<u32>, vals: Vec<u32>) -> osmformat::Node {
    osmformat::Node { id, keys, vals, info: None, lat, lon }
}

fn raw_way(id: i64, refs: Vec<i64>) -> osmformat::Way {
    osmformat::Way { id, keys: vec![], vals: vec![], info: None, refs }
}

fn raw_relation(id: i64, memids: Vec<i64>, types: Vec<i32>, roles_sid: Vec<i32>) -> osmformat::Relation {
    osmformat::Relation { id, keys: vec![], vals: vec![], info: None, roles_sid, memids, types }
}

fn text(tags: &Tags, key: &str) -> Option<String> {
    tags.get(key).map(|v| v.as_str().to_string())
}

fn is_unset(info: &Info) -> bool {
    info.version.is_none()
        && info.timestamp.is_none()
        && info.changeset.is_none()
        && info.uid.is_none()
        && info.user.is_none()
        && info.visible.is_none()
}

fn all_nodes_of(group: &PrimitiveGroup, block: &PrimitiveBlock) -> Vec<Node> {
    let mut decoder = nodes(group, block);
    let mut found = Vec::new();
    while let Some(r) = decoder.next() {
        found.push(r.unwrap());
    }
    found
}

#[test]
fn string_is_resolved_by_index() {
    let b = block();
    assert_eq!(make_string(1, &b).unwrap().as_str(), "highway");
    assert_eq!(make_string(4, &b).unwrap().as_str(), "Main Street");
    assert_eq!(make_string(0, &b).unwrap().as_str(), "");
}

#[test]
fn string_index_outside_the_table_is_an_error() {
    let b = block();
    assert_eq!(make_string(8, &b).err(), Some(DecodeError::StringIndex));
    assert_eq!(make_string(usize::MAX, &b).err(), Some(DecodeError::StringIndex));
    assert_eq!(make_string(0, &block_of(&[])).err(), Some(DecodeError::StringIndex));
}

#[test]
fn negative_string_index_is_an_error() {
    let b = block();
    assert_eq!(make_string_signed(-1, &b).err(), Some(DecodeError::StringIndex));
    assert_eq!(make_string_signed(i32::MIN, &b).err(), Some(DecodeError::StringIndex));
    assert_eq!(make_string_signed(7, &b).unwrap().as_str(), "bob");
}

#[test]
fn invalid_utf8_is_repaired() {
    let b = block_of(&[b"", b"caf\xc3\xa9", b"bad\xffbyte", b"\xf0\x9f", b"\xe2\x82\xac"]);
    assert_eq!(make_string(1, &b).unwrap().as_str(), "caf\u{e9}");
    assert_eq!(make_string(2, &b).unwrap().as_str(), "bad\u{fffd}byte");
    assert_eq!(make_string(3, &b).unwrap().as_str(), "\u{fffd}");
    assert_eq!(make_string(4, &b).unwrap().as_str(), "\u{20ac}");
}

#[test]
fn long_strings_are_kept_whole() {
    let long = "a string that is far too long to be kept inline by any small string type";
    let b = block_of(&[b"", long.as_bytes()]);
    assert_eq!(make_string(1, &b).unwrap().as_str(), long);
    assert_eq!(SmartStr::new(long).as_str(), long);
    assert!(SmartStr::new(long).same_text(&make_string(1, &b).unwrap()));
    assert!(!SmartStr::new("a").same_text(&SmartStr::new("b")));
}

#[test]
fn latitude_with_default_granularity() {
    let b = block();
    assert_eq!(make_lat(1234, &b), 1234);
    assert_eq!(make_lon(1234, &b), 1234);
}

#[test]
fn coordinates_use_their_own_offset() {
    let mut b = block();
    b.lat_offset = 1000;
    b.lon_offset = -2000;
    b.granularity = 10;
    assert_eq!(make_lat(500, &b), 60);
    assert_eq!(make_lon(500, &b), 30);
}

#[test]
fn scaling_rounds_toward_zero() {
    assert_eq!(scale(-1234, 0, 100), -1234);
    assert_eq!(scale(-149, 50, 1), 0);
    assert_eq!(scale(-151, 50, 1), -1);
    assert_eq!(scale(-99, 0, 1), 0);
    assert_eq!(scale(99, 0, 1), 0);
    assert_eq!(scale(-100, 0, 1), -1);
    assert_eq!(scale(199, 0, 1), 1);
    assert_eq!(scale(-199, 0, 1), -1);
    assert_eq!(scale(7, -1, -100), -7);
    assert_eq!(scale(0, 0, 100), 0);
}

#[test]
fn scaling_keeps_the_low_bits_of_a_large_quotient() {
    assert_eq!(scale(4_294_967_296, 0, 100), 0);
    assert_eq!(scale(4_294_967_297, 0, 100), 1);
    assert_eq!(scale(2_147_483_648, 0, 100), i32::MIN);
    assert_eq!(scale(i64::MAX, i64::MAX, i32::MAX), {
        let x = i64::MAX as i128 + i32::MAX as i128 * i64::MAX as i128;
        (x / 100) as i32
    });
}

#[test]
fn parallel_tags_are_paired() {
    let b = block();
    let tags = make_tags(&[1, 3], &[2, 4], &b).unwrap();
    assert_eq!(tags.len(), 2);
    assert_eq!(text(&tags, "highway"), Some("residential".to_string()));
    assert_eq!(text(&tags, "name"), Some("Main Street".to_string()));
    assert_eq!(text(&tags, "alice"), None);
    assert!(tags.contains_key("name"));
    assert!(!tags.contains_key("bob"));
}

#[test]
fn later_tag_replaces_earlier_one_with_the_same_key() {
    let b = block();
    let tags = make_tags(&[1, 3, 1], &[2, 4, 5], &b).unwrap();
    assert_eq!(tags.len(), 2);
    assert_eq!(text(&tags, "highway"), Some("alice".to_string()));
    assert_eq!(text(&tags, "name"), Some("Main Street".to_string()));
}

#[test]
fn longer_tag_column_is_cut_to_the_shorter() {
    let b = block();
    let tags = make_tags(&[1, 3, 99], &[2, 4], &b).unwrap();
    assert_eq!(tags.len(), 2);
    let tags = make_tags(&[1], &[2, 99], &b).unwrap();
    assert_eq!(tags.len(), 1);
    assert!(make_tags(&[], &[], &b).unwrap().is_empty());
}

#[test]
fn tag_with_bad_index_is_an_error() {
    let b = block();
    assert_eq!(make_tags(&[1, 8], &[2, 4], &b).err(), Some(DecodeError::StringIndex));
    assert_eq!(make_tags(&[1, 3], &[2, 100], &b).err(), Some(DecodeError::StringIndex));
}

#[test]
fn tags_insert_and_get() {
    let mut tags = Tags::new();
    assert!(tags.is_empty());
    assert_eq!(tags.len(), 0);
    tags.insert(SmartStr::new("a"), SmartStr::new("1"));
    tags.insert(SmartStr::new("b"), SmartStr::new("2"));
    tags.insert(SmartStr::new("a"), SmartStr::new("3"));
    assert!(!tags.is_empty());
    assert_eq!(tags.len(), 2);
    assert_eq!(text(&tags, "a"), Some("3".to_string()));
    assert_eq!(text(&tags, "b"), Some("2".to_string()));
    assert_eq!(text(&tags, "c"), None);
}

#[test]
fn dense_tag_stream_stops_at_zero() {
    let b = block();
    let (tags, end) = make_dense_tags(&[3, 4, 0, 1, 2, 0], 0, &b).unwrap();
    assert_eq!(tags.len(), 1);
    assert_eq!(text(&tags, "name"), Some("Main Street".to_string()));
    assert_eq!(end, 3);
}

#[test]
fn dense_tag_stream_resumes_after_the_terminator() {
    let b = block();
    let kv = [3, 4, 1, 2, 0, 0, 1, 5, 0];
    let (first, end) = make_dense_tags(&kv, 0, &b).unwrap();
    assert_eq!(first.len(), 2);
    assert_eq!(end, 5);
    let (second, end) = make_dense_tags(&kv, end, &b).unwrap();
    assert!(second.is_empty());
    assert_eq!(end, 6);
    let (third, end) = make_dense_tags(&kv, end, &b).unwrap();
    assert_eq!(third.len(), 1);
    assert_eq!(text(&third, "highway"), Some("alice".to_string()));
    assert_eq!(end, 9);
    let (fourth, end) = make_dense_tags(&kv, end, &b).unwrap();
    assert!(fourth.is_empty());
    assert_eq!(end, 9);
}

#[test]
fn dense_tag_value_zero_is_no_terminator() {
    let b = block();
    let (tags, end) = make_dense_tags(&[1, 0, 3, 4, 0], 0, &b).unwrap();
    assert_eq!(tags.len(), 2);
    assert_eq!(text(&tags, "highway"), Some("".to_string()));
    assert_eq!(end, 5);
}

#[test]
fn dense_tag_stream_may_end_without_terminator() {
    let b = block();
    let (tags, end) = make_dense_tags(&[1, 2], 0, &b).unwrap();
    assert_eq!(tags.len(), 1);
    assert_eq!(end, 2);
    let (tags, end) = make_dense_tags(&[1, 2, 3], 0, &b).unwrap();
    assert_eq!(tags.len(), 1);
    assert_eq!(text(&tags, "name"), None);
    assert_eq!(end, 3);
    let (tags, end) = make_dense_tags(&[1, 2], 7, &b).unwrap();
    assert!(tags.is_empty());
    assert_eq!(end, 7);
}

#[test]
fn dense_tag_with_bad_index_is_an_error() {
    let b = block();
    assert_eq!(make_dense_tags(&[1, 8, 0], 0, &b).err(), Some(DecodeError::StringIndex));
    assert_eq!(make_dense_tags(&[-1, 2, 0], 0, &b).err(), Some(DecodeError::StringIndex));
    assert_eq!(make_dense_tags(&[1, 2, 9], 0, &b).err(), Some(DecodeError::StringIndex));
    assert!(make_dense_tags(&[0, 9, 9], 0, &b).is_ok());
}

#[test]
fn absent_metadata_fields_stay_unset() {
    let b = block();
    let raw = osmformat::Info {
        version: None,
        timestamp: None,
        changeset: None,
        uid: None,
        user_sid: None,
        visible: None,
    };
    let info = make_info(&raw, &b).unwrap();
    assert!(is_unset(&info));
    assert_eq!(info, Info::unset());
}

#[test]
fn zero_metadata_fields_are_set() {
    let b = block();
    let raw = osmformat::Info {
        version: Some(0),
        timestamp: Some(0),
        changeset: Some(0),
        uid: Some(0),
        user_sid: Some(0),
        visible: Some(false),
    };
    let info = make_info(&raw, &b).unwrap();
    assert_eq!(info.version, Some(0));
    assert_eq!(info.timestamp, Some(0));
    assert_eq!(info.changeset, Some(0));
    assert_eq!(info.uid, Some(0));
    assert_eq!(info.user.as_ref().map(|u| u.as_str()), Some(""));
    assert_eq!(info.visible, Some(false));
    assert_ne!(info, Info::unset());
}

#[test]
fn metadata_fields_are_independent() {
    let b = block();
    let raw = osmformat::Info {
        version: Some(3),
        timestamp: None,
        changeset: Some(77),
        uid: None,
        user_sid: Some(5),
        visible: None,
    };
    let info = make_info(&raw, &b).unwrap();
    assert_eq!(info.version, Some(3));
    assert_eq!(info.timestamp, None);
    assert_eq!(info.changeset, Some(77));
    assert_eq!(info.uid, None);
    assert_eq!(info.user.as_ref().map(|u| u.as_str()), Some("alice"));
    assert_eq!(info.visible, None);
}

#[test]
fn metadata_with_bad_user_index_is_an_error() {
    let b = block();
    let raw = osmformat::Info {
        version: Some(3),
        timestamp: None,
        changeset: None,
        uid: None,
        user_sid: Some(8),
        visible: None,
    };
    assert_eq!(make_info(&raw, &b).err(), Some(DecodeError::StringIndex));
}

#[test]
fn simple_node_is_decoded() {
    let b = block();
    let mut raw = raw_node(42, 515_000_000, -1_000_000, vec![1], vec![2]);
    raw.info = Some(osmformat::Info {
        version: Some(2),
        timestamp: Some(1_600_000_000),
        changeset: Some(9),
        uid: Some(11),
        user_sid: Some(5),
        visible: Some(true),
    });
    let node = simple_node(&raw, &b).unwrap();
    assert_eq!(node.id, NodeId(42));
    assert_eq!(node.decimicro_lat, 515_000_000);
    assert_eq!(node.decimicro_lon, -1_000_000);
    assert_eq!(text(&node.tags, "highway"), Some("residential".to_string()));
    assert_eq!(node.info.version, Some(2));
    assert_eq!(node.info.timestamp, Some(1_600_000_000));
    assert_eq!(node.info.user.as_ref().map(|u| u.as_str()), Some("alice"));
    assert_eq!(node.info.visible, Some(true));
}

#[test]
fn simple_node_without_metadata_has_none() {
    let b = block();
    let node = simple_node(&raw_node(1, 0, 0, vec![], vec![]), &b).unwrap();
    assert!(is_unset(&node.info));
    assert!(node.tags.is_empty());
}

#[test]
fn way_nodes_are_running_totals() {
    let nodes = way_nodes(&[10, 5, -3]).unwrap();
    assert_eq!(nodes, vec![NodeId(10), NodeId(15), NodeId(12)]);
    assert_eq!(way_nodes(&[]).unwrap(), vec![]);
    assert_eq!(way_nodes(&[-7]).unwrap(), vec![NodeId(-7)]);
}

#[test]
fn way_nodes_total_of_a_joined_column_goes_on_from_the_first() {
    let first = way_nodes(&[4, 6, -1]).unwrap();
    let second = way_nodes(&[3, 3]).unwrap();
    let joined = way_nodes(&[4, 6, -1, 3, 3]).unwrap();
    let last = first[2].0;
    assert_eq!(&joined[..3], &first[..]);
    assert_eq!(joined[3].0, last + second[0].0);
    assert_eq!(joined[4].0, last + second[1].0);
}

#[test]
fn way_nodes_overflow_is_an_error() {
    assert_eq!(way_nodes(&[i64::MAX, 1]).err(), Some(DecodeError::Overflow));
    assert_eq!(way_nodes(&[i64::MIN, -1]).err(), Some(DecodeError::Overflow));
    assert_eq!(way_nodes(&[i64::MAX, 1, -1]).err(), Some(DecodeError::Overflow));
    assert_eq!(way_nodes(&[i64::MAX, -1, 1]).unwrap()[2], NodeId(i64::MAX));
}

#[test]
fn way_is_decoded() {
    let b = block();
    let mut raw = raw_way(7, vec![100, 1, 1, -50]);
    raw.keys = vec![1];
    raw.vals = vec![2];
    let w = way(&raw, &b).unwrap();
    assert_eq!(w.id, WayId(7));
    assert_eq!(w.nodes, vec![NodeId(100), NodeId(101), NodeId(102), NodeId(52)]);
    assert_eq!(text(&w.tags, "highway"), Some("residential".to_string()));
    assert!(is_unset(&w.info));
}

#[test]
fn way_overflow_comes_before_a_bad_tag() {
    let b = block();
    let mut raw = raw_way(7, vec![i64::MAX, 1]);
    raw.keys = vec![99];
    raw.vals = vec![99];
    assert_eq!(way(&raw, &b).err(), Some(DecodeError::Overflow));
    raw.refs = vec![1];
    assert_eq!(way(&raw, &b).err(), Some(DecodeError::StringIndex));
}

#[test]
fn member_types_are_told_apart() {
    assert_eq!(member(0, 5), Ok(OsmId::Node(NodeId(5))));
    assert_eq!(member(1, 5), Ok(OsmId::Way(WayId(5))));
    assert_eq!(member(2, 5), Ok(OsmId::Relation(RelationId(5))));
}

#[test]
fn unknown_member_type_is_an_error() {
    assert_eq!(member(3, 5), Err(DecodeError::MemberType));
    assert_eq!(member(-1, 5), Err(DecodeError::MemberType));
    assert_eq!(member(i32::MAX, 5), Err(DecodeError::MemberType));
}

#[test]
fn relation_is_decoded() {
    let b = block();
    let mut raw = raw_relation(9, vec![10, 5, -3], vec![0, 1, 2], vec![6, 0, 6]);
    raw.keys = vec![3];
    raw.vals = vec![4];
    let r = relation(&raw, &b).unwrap();
    assert_eq!(r.id, RelationId(9));
    assert_eq!(r.refs.len(), 3);
    assert_eq!(r.refs[0].member, OsmId::Node(NodeId(10)));
    assert_eq!(r.refs[1].member, OsmId::Way(WayId(15)));
    assert_eq!(r.refs[2].member, OsmId::Relation(RelationId(12)));
    assert_eq!(r.refs[0].role.as_str(), "outer");
    assert_eq!(r.refs[1].role.as_str(), "");
    assert_eq!(r.refs[2].role.as_str(), "outer");
    assert_eq!(text(&r.tags, "name"), Some("Main Street".to_string()));
}

#[test]
fn relation_with_unknown_member_type_gives_no_member() {
    let b = block();
    let raw = raw_relation(9, vec![10, 5], vec![0, 3], vec![6, 6]);
    assert_eq!(relation_refs(&raw, &b).err(), Some(DecodeError::MemberType));
    assert_eq!(relation(&raw, &b).err(), Some(DecodeError::MemberType));
}

#[test]
fn relation_first_failing_member_decides_the_error() {
    let b = block();
    let raw = raw_relation(9, vec![1, 1, i64::MAX], vec![0, 0, 7], vec![6, 99, 6]);
    assert_eq!(relation(&raw, &b).err(), Some(DecodeError::StringIndex));
    let raw = raw_relation(9, vec![1, 1, i64::MAX], vec![0, 7, 0], vec![6, 99, 6]);
    assert_eq!(relation(&raw, &b).err(), Some(DecodeError::MemberType));
    let raw = raw_relation(9, vec![1, i64::MAX, 1], vec![0, 7, 0], vec![6, 99, 6]);
    assert_eq!(relation(&raw, &b).err(), Some(DecodeError::Overflow));
}

#[test]
fn relation_member_columns_are_cut_to_the_shortest() {
    let b = block();
    let raw = raw_relation(9, vec![1, 1, 1], vec![0, 1], vec![6, 6, 6, 99]);
    let r = relation(&raw, &b).unwrap();
    assert_eq!(r.refs.len(), 2);
    assert_eq!(r.refs[1].member, OsmId::Way(WayId(2)));
}

#[test]
fn dense_ids_are_running_totals() {
    let b = block();
    let mut g = empty_group();
    g.dense.id = vec![10, 5, -3];
    g.dense.lat = vec![100, 1, 1];
    g.dense.lon = vec![-100, -1, -1];
    let mut decoder = dense_nodes(&g, &b);
    let mut ids = Vec::new();
    let mut lats = Vec::new();
    let mut lons = Vec::new();
    while let Some(r) = decoder.next() {
        let n = r.unwrap();
        ids.push(n.id);
        lats.push(n.decimicro_lat);
        lons.push(n.decimicro_lon);
        assert!(n.tags.is_empty());
        assert!(is_unset(&n.info));
    }
    assert_eq!(ids, vec![NodeId(10), NodeId(15), NodeId(12)]);
    assert_eq!(lats, vec![100, 101, 102]);
    assert_eq!(lons, vec![-100, -101, -102]);
    assert!(decoder.next().is_none());
}

#[test]
fn dense_nodes_take_their_tags_in_turn() {
    let b = block();
    let mut g = empty_group();
    g.dense.id = vec![1, 1, 1];
    g.dense.lat = vec![0, 0, 0];
    g.dense.lon = vec![0, 0, 0];
    g.dense.keys_vals = vec![3, 4, 0, 0, 1, 2, 3, 5, 0];
    let found = all_nodes_of(&g, &b);
    assert_eq!(found.len(), 3);
    assert_eq!(found[0].tags.len(), 1);
    assert_eq!(text(&found[0].tags, "name"), Some("Main Street".to_string()));
    assert!(found[1].tags.is_empty());
    assert_eq!(found[2].tags.len(), 2);
    assert_eq!(text(&found[2].tags, "highway"), Some("residential".to_string()));
    assert_eq!(text(&found[2].tags, "name"), Some("alice".to_string()));
}

#[test]
fn dense_nodes_without_tag_stream_have_no_tags() {
    let b = block();
    let mut g = empty_group();
    g.dense.id = vec![1, 1];
    g.dense.lat = vec![0, 0];
    g.dense.lon = vec![0, 0];
    let found = all_nodes_of(&g, &b);
    assert_eq!(found.len(), 2);
    assert!(found[0].tags.is_empty());
    assert!(found[1].tags.is_empty());
}

#[test]
fn dense_columns_are_cut_to_the_shortest() {
    let b = block();
    let mut g = empty_group();
    g.dense.id = vec![1, 1, 1];
    g.dense.lat = vec![0, 0];
    g.dense.lon = vec![0, 0, 0, 0];
    assert_eq!(all_nodes_of(&g, &b).len(), 2);
    g.dense.denseinfo = SingularPtrField::some(DenseInfo {
        version: vec![1, 1],
        timestamp: vec![5, 5],
        changeset: vec![1],
        uid: vec![1, 1],
        user_sid: vec![5, 0],
        visible: vec![true, true],
    });
    assert_eq!(all_nodes_of(&g, &b).len(), 1);
}

#[test]
fn dense_metadata_is_running_totals() {
    let b = block();
    let mut g = empty_group();
    g.dense.id = vec![1, 1, 1];
    g.dense.lat = vec![0, 0, 0];
    g.dense.lon = vec![0, 0, 0];
    g.dense.denseinfo = SingularPtrField::some(DenseInfo {
        version: vec![3, 1, 2],
        timestamp: vec![1000, 10, -5],
        changeset: vec![50, 0, 1],
        uid: vec![7, -2, 2],
        user_sid: vec![5, 2, -7],
        visible: vec![true, false, true],
    });
    let found = all_nodes_of(&g, &b);
    assert_eq!(found.len(), 3);
    let versions: Vec<_> = found.iter().map(|n| n.info.version).collect();
    let timestamps: Vec<_> = found.iter().map(|n| n.info.timestamp).collect();
    let changesets: Vec<_> = found.iter().map(|n| n.info.changeset).collect();
    let uids: Vec<_> = found.iter().map(|n| n.info.uid).collect();
    let users: Vec<_> =
        found.iter().map(|n| n.info.user.as_ref().map(|u| u.as_str().to_string())).collect();
    let visible: Vec<_> = found.iter().map(|n| n.info.visible).collect();
    assert_eq!(versions, vec![Some(3), Some(1), Some(2)]);
    assert_eq!(timestamps, vec![Some(1000), Some(1010), Some(1005)]);
    assert_eq!(changesets, vec![Some(50), Some(50), Some(51)]);
    assert_eq!(uids, vec![Some(7), Some(5), Some(7)]);
    assert_eq!(
        users,
        vec![Some("alice".to_string()), Some("bob".to_string()), Some("".to_string())]
    );
    assert_eq!(visible, vec![Some(true), Some(false), Some(true)]);
}

#[test]
fn dense_metadata_decoder_without_columns_never_ends() {
    let b = block();
    let field: SingularPtrField<DenseInfo> = SingularPtrField::none();
    let mut decoder = DenseInfoIter::new(&field, &b);
    for _ in 0..5 {
        let info = decoder.next().unwrap().unwrap();
        assert!(is_unset(&info));
    }
}

#[test]
fn dense_metadata_decoder_ends_with_its_columns() {
    let b = block();
    let field = SingularPtrField::some(DenseInfo {
        version: vec![1, 2],
        timestamp: vec![1, 1],
        changeset: vec![1, 1],
        uid: vec![1, 1],
        user_sid: vec![5, 2],
        visible: vec![false, false],
    });
    let mut decoder = DenseInfoIter::new(&field, &b);
    assert_eq!(decoder.next().unwrap().unwrap().version, Some(1));
    let second = decoder.next().unwrap().unwrap();
    assert_eq!(second.version, Some(2));
    assert_eq!(second.timestamp, Some(2));
    assert_eq!(second.user.as_ref().map(|u| u.as_str()), Some("bob"));
    assert!(decoder.next().is_none());
    assert!(decoder.next().is_none());
}

#[test]
fn dense_metadata_errors() {
    let b = block();
    let field = SingularPtrField::some(DenseInfo {
        version: vec![1, 2],
        timestamp: vec![i64::MAX, 1],
        changeset: vec![1, 1],
        uid: vec![1, 1],
        user_sid: vec![5, 99],
        visible: vec![false, false],
    });
    let mut decoder = DenseInfoIter::new(&field, &b);
    assert!(decoder.next().unwrap().is_ok());
    assert_eq!(decoder.next().unwrap().err(), Some(DecodeError::Overflow));
    assert!(decoder.next().is_none());
    let field = SingularPtrField::some(DenseInfo {
        version: vec![1],
        timestamp: vec![1],
        changeset: vec![1],
        uid: vec![1],
        user_sid: vec![-1],
        visible: vec![false],
    });
    let mut decoder = DenseInfoIter::new(&field, &b);
    assert_eq!(decoder.next().unwrap().err(), Some(DecodeError::StringIndex));
    assert!(decoder.next().is_none());
    let field = SingularPtrField::some(DenseInfo {
        version: vec![1, 1],
        timestamp: vec![1, 1],
        changeset: vec![1, 1],
        uid: vec![i32::MIN, -1],
        user_sid: vec![1, 1],
        visible: vec![false, false],
    });
    let mut decoder = DenseInfoIter::new(&field, &b);
    assert_eq!(decoder.next().unwrap().unwrap().uid, Some(i32::MIN));
    assert_eq!(decoder.next().unwrap().err(), Some(DecodeError::Overflow));
}

#[test]
fn dense_error_ends_the_decoding() {
    let b = block();
    let mut g = empty_group();
    g.dense.id = vec![1, i64::MAX, 1];
    g.dense.lat = vec![0, 0, 0];
    g.dense.lon = vec![0, 0, 0];
    let mut decoder = dense_nodes(&g, &b);
    assert_eq!(decoder.next().unwrap().unwrap().id, NodeId(1));
    assert_eq!(decoder.next().unwrap().err(), Some(DecodeError::Overflow));
    assert!(decoder.next().is_none());
    assert!(decoder.next().is_none());
    g.dense.id = vec![1, 1, 1];
    g.dense.keys_vals = vec![1, 2, 0, 1, 99, 0];
    let mut decoder = dense_nodes(&g, &b);
    assert!(decoder.next().unwrap().is_ok());
    assert_eq!(decoder.next().unwrap().err(), Some(DecodeError::StringIndex));
    assert!(decoder.next().is_none());
}

#[test]
fn sparse_and_dense_node_agree() {
    let b = block();
    let mut sparse = raw_node(15, 101, -101, vec![3, 1], vec![4, 2]);
    sparse.info = Some(osmformat::Info {
        version: Some(4),
        timestamp: Some(1010),
        changeset: Some(50),
        uid: Some(5),
        user_sid: Some(7),
        visible: Some(false),
    });
    let mut g = empty_group();
    g.dense.id = vec![10, 5];
    g.dense.lat = vec![100, 1];
    g.dense.lon = vec![-100, -1];
    g.dense.keys_vals = vec![0, 3, 4, 1, 2, 0];
    g.dense.denseinfo = SingularPtrField::some(DenseInfo {
        version: vec![1, 4],
        timestamp: vec![1000, 10],
        changeset: vec![50, 0],
        uid: vec![7, -2],
        user_sid: vec![5, 2],
        visible: vec![true, false],
    });
    let from_sparse = simple_node(&sparse, &b).unwrap();
    let mut decoder = dense_nodes(&g, &b);
    decoder.next().unwrap().unwrap();
    let from_dense = decoder.next().unwrap().unwrap();
    assert_eq!(from_sparse.id, from_dense.id);
    assert_eq!(from_sparse.decimicro_lat, from_dense.decimicro_lat);
    assert_eq!(from_sparse.decimicro_lon, from_dense.decimicro_lon);
    assert_eq!(from_sparse.info, from_dense.info);
    assert_eq!(from_sparse.tags.len(), from_dense.tags.len());
    assert_eq!(text(&from_sparse.tags, "name"), text(&from_dense.tags, "name"));
    assert_eq!(text(&from_sparse.tags, "highway"), text(&from_dense.tags, "highway"));
}

#[test]
fn simple_nodes_come_in_group_order() {
    let b = block();
    let mut g = empty_group();
    g.nodes = vec![raw_node(3, 0, 0, vec![], vec![]), raw_node(1, 0, 0, vec![], vec![])];
    let mut decoder = simple_nodes(&g, &b);
    assert_eq!(decoder.next().unwrap().unwrap().id, NodeId(3));
    assert_eq!(decoder.next().unwrap().unwrap().id, NodeId(1));
    assert!(decoder.next().is_none());
    assert!(decoder.next().is_none());
}

#[test]
fn simple_node_error_ends_the_decoding() {
    let b = block();
    let mut g = empty_group();
    g.nodes = vec![
        raw_node(3, 0, 0, vec![], vec![]),
        raw_node(4, 0, 0, vec![99], vec![1]),
        raw_node(5, 0, 0, vec![], vec![]),
    ];
    let mut decoder = simple_nodes(&g, &b);
    assert!(decoder.next().unwrap().is_ok());
    assert_eq!(decoder.next().unwrap().err(), Some(DecodeError::StringIndex));
    assert!(decoder.next().is_none());
}

#[test]
fn nodes_are_sparse_then_dense() {
    let b = block();
    let mut g = empty_group();
    g.nodes = vec![raw_node(100, 0, 0, vec![], vec![]), raw_node(200, 0, 0, vec![], vec![])];
    g.dense.id = vec![1, 1];
    g.dense.lat = vec![0, 0];
    g.dense.lon = vec![0, 0];
    let ids: Vec<_> = all_nodes_of(&g, &b).iter().map(|n| n.id).collect();
    assert_eq!(ids, vec![NodeId(100), NodeId(200), NodeId(1), NodeId(2)]);
}

#[test]
fn nodes_error_in_sparse_part_hides_the_dense_part() {
    let b = block();
    let mut g = empty_group();
    g.nodes = vec![raw_node(100, 0, 0, vec![99], vec![99])];
    g.dense.id = vec![1];
    g.dense.lat = vec![0];
    g.dense.lon = vec![0];
    let mut decoder = nodes(&g, &b);
    assert_eq!(decoder.next().unwrap().err(), Some(DecodeError::StringIndex));
    assert!(decoder.next().is_none());
}

#[test]
fn ways_and_relations_come_in_group_order() {
    let b = block();
    let mut g = empty_group();
    g.ways = vec![raw_way(2, vec![1]), raw_way(1, vec![2, 2])];
    g.relations = vec![raw_relation(5, vec![1], vec![0], vec![6]), raw_relation(4, vec![], vec![], vec![])];
    let mut decoder = ways(&g, &b);
    assert_eq!(decoder.next().unwrap().unwrap().id, WayId(2));
    assert_eq!(decoder.next().unwrap().unwrap().nodes, vec![NodeId(2), NodeId(4)]);
    assert!(decoder.next().is_none());
    let mut decoder = relations(&g, &b);
    assert_eq!(decoder.next().unwrap().unwrap().id, RelationId(5));
    assert_eq!(decoder.next().unwrap().unwrap().id, RelationId(4));
    assert!(decoder.next().is_none());
}

#[test]
fn way_and_relation_errors_end_the_decoding() {
    let b = block();
    let mut g = empty_group();
    g.ways = vec![raw_way(2, vec![i64::MIN, -1]), raw_way(1, vec![2, 2])];
    g.relations = vec![raw_relation(5, vec![1], vec![5], vec![6]), raw_relation(4, vec![], vec![], vec![])];
    let mut decoder = ways(&g, &b);
    assert_eq!(decoder.next().unwrap().err(), Some(DecodeError::Overflow));
    assert!(decoder.next().is_none());
    let mut decoder = relations(&g, &b);
    assert_eq!(decoder.next().unwrap().err(), Some(DecodeError::MemberType));
    assert!(decoder.next().is_none());
}

#[test]
fn all_entities_come_nodes_first_then_ways_then_relations() {
    let b = block();
    let mut g = empty_group();
    g.nodes = vec![raw_node(100, 0, 0, vec![], vec![])];
    g.dense.id = vec![7, 1];
    g.dense.lat = vec![0, 0];
    g.dense.lon = vec![0, 0];
    g.ways = vec![raw_way(20, vec![100, -93])];
    g.relations = vec![raw_relation(30, vec![20], vec![1], vec![6])];
    let mut decoder = iter(&g, &b);
    let mut kinds = Vec::new();
    while let Some(r) = decoder.next() {
        kinds.push(match r.unwrap() {
            OsmObj::Node(n) => format!("n{}", n.id.0),
            OsmObj::Way(w) => format!("w{}", w.id.0),
            OsmObj::Relation(r) => format!("r{}", r.id.0),
        });
    }
    assert_eq!(kinds, vec!["n100", "n7", "n8", "w20", "r30"]);
    assert!(decoder.next().is_none());
}

#[test]
fn error_among_all_entities_ends_the_decoding() {
    let b = block();
    let mut g = empty_group();
    g.nodes = vec![raw_node(100, 0, 0, vec![], vec![])];
    g.ways = vec![raw_way(20, vec![i64::MAX, 1])];
    g.relations = vec![raw_relation(30, vec![20], vec![1], vec![6])];
    let mut decoder = iter(&g, &b);
    assert!(decoder.next().unwrap().is_ok());
    assert_eq!(decoder.next().unwrap().err(), Some(DecodeError::Overflow));
    assert!(decoder.next().is_none());
    assert!(decoder.next().is_none());
}

#[test]
fn empty_group_yields_nothing() {
    let b = block();
    let g = empty_group();
    assert!(iter(&g, &b).next().is_none());
    assert!(nodes(&g, &b).next().is_none());
    assert!(simple_nodes(&g, &b).next().is_none());
    assert!(dense_nodes(&g, &b).next().is_none());
    assert!(ways(&g, &b).next().is_none());
    assert!(relations(&g, &b).next().is_none());
}

#[test]
fn size_hint_counts_the_messages_left() {
    let b = block();
    let mut g = empty_group();
    g.nodes = vec![
        raw_node(1, 0, 0, vec![], vec![]),
        raw_node(2, 0, 0, vec![], vec![]),
        raw_node(3, 0, 0, vec![], vec![]),
    ];
    g.ways = vec![raw_way(2, vec![1])];
    let mut decoder = simple_nodes(&g, &b);
    assert_eq!(decoder.size_hint(), (1, Some(3)));
    decoder.next();
    assert_eq!(decoder.size_hint(), (1, Some(2)));
    decoder.next();
    decoder.next();
    assert_eq!(decoder.size_hint(), (0, Some(0)));
    assert!(decoder.next().is_none());
    assert_eq!(decoder.size_hint(), (0, Some(0)));
    assert_eq!(ways(&g, &b).size_hint(), (1, Some(1)));
    assert_eq!(relations(&g, &b).size_hint(), (0, Some(0)));
}

#[test]
fn size_hint_after_an_error_is_zero() {
    let b = block();
    let mut g = empty_group();
    g.relations = vec![
        raw_relation(5, vec![1], vec![5], vec![6]),
        raw_relation(4, vec![], vec![], vec![]),
    ];
    let mut decoder = relations(&g, &b);
    assert_eq!(decoder.size_hint(), (1, Some(2)));
    assert!(decoder.next().unwrap().is_err());
    assert_eq!(decoder.size_hint(), (0, Some(0)));
}

#[test]
fn tags_can_be_listed() {
    let b = block();
    let tags = make_tags(&[1, 3, 1], &[2, 4, 5], &b).unwrap();
    let mut listed: Vec<(String, String)> = tags
        .as_slice()
        .iter()
        .map(|(k, v)| (k.as_str().to_string(), v.as_str().to_string()))
        .collect();
    listed.sort();
    assert_eq!(
        listed,
        vec![
            ("highway".to_string(), "alice".to_string()),
            ("name".to_string(), "Main Street".to_string()),
        ]
    );
}
