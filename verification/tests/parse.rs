//! Scenario tests for the assembler and builder: whole-event-stream
//! parses checked record by record.

use osm_stream::assembler::parse_events;
use osm_stream::events::{RawAttr, RawEvent};
use osm_stream::filter::SkipConfig;
use osm_stream::model::{AttrField, ObjKind, OsmError, OsmObj};

fn attr(k: &str, v: &str) -> RawAttr {
    RawAttr { key: k.as_bytes().to_vec(), value: v.as_bytes().to_vec() }
}

fn start(name: &str, attrs: Vec<RawAttr>) -> RawEvent {
    RawEvent::Start { name: name.as_bytes().to_vec(), attrs }
}

fn empty(name: &str, attrs: Vec<RawAttr>) -> RawEvent {
    RawEvent::Empty { name: name.as_bytes().to_vec(), attrs }
}

fn end(name: &str) -> RawEvent {
    RawEvent::End { name: name.as_bytes().to_vec() }
}

#[test]
fn single_node_with_tag() {
    // <node id="1" lat="1.0" lon="2.0"><tag k="a" v="b"/></node>
    let events = vec![
        start("osm", vec![]),
        start("node", vec![attr("id", "1"), attr("lat", "1.0"), attr("lon", "2.0")]),
        empty("tag", vec![attr("k", "a"), attr("v", "b")]),
        end("node"),
        end("osm"),
        RawEvent::Eof,
    ];
    let out = parse_events(events, SkipConfig::keep_all());
    assert_eq!(out.len(), 1);
    match &out[0] {
        Ok(OsmObj::Node(n)) => {
            assert_eq!(n.attrs.id, Some(1));
            assert_eq!(n.lat, 10_000_000);
            assert_eq!(n.lon, 20_000_000);
            assert_eq!(n.tags.len(), 1);
            assert_eq!(n.tags.get(b"a").map(|v| v.as_slice()), Some(b"b".as_slice()));
        }
        other => panic!("expected one node, got {:?}", other.is_ok()),
    }
}

#[test]
fn single_way_with_refs_and_tag() {
    // <way id="5"><nd ref="1"/><nd ref="2"/><tag k="hw" v="primary"/></way>
    let events = vec![
        start("way", vec![attr("id", "5")]),
        empty("nd", vec![attr("ref", "1")]),
        empty("nd", vec![attr("ref", "2")]),
        empty("tag", vec![attr("k", "hw"), attr("v", "primary")]),
        end("way"),
        RawEvent::Eof,
    ];
    let out = parse_events(events, SkipConfig::keep_all());
    assert_eq!(out.len(), 1);
    match &out[0] {
        Ok(OsmObj::Way(w)) => {
            assert_eq!(w.attrs.id, Some(5));
            assert_eq!(w.refs, vec![1, 2]);
            assert_eq!(w.tags.len(), 1);
            assert_eq!(w.tags.get(b"hw").map(|v| v.as_slice()), Some(b"primary".as_slice()));
        }
        _ => panic!("expected one way"),
    }
}

#[test]
fn single_relation_with_member() {
    // <relation id="9"><member type="way" ref="5" role="outer"/></relation>
    let events = vec![
        start("relation", vec![attr("id", "9")]),
        empty("member", vec![attr("type", "way"), attr("ref", "5"), attr("role", "outer")]),
        end("relation"),
        RawEvent::Eof,
    ];
    let out = parse_events(events, SkipConfig::keep_all());
    assert_eq!(out.len(), 1);
    match &out[0] {
        Ok(OsmObj::Relation(r)) => {
            assert_eq!(r.attrs.id, Some(9));
            assert_eq!(r.members.len(), 1);
            assert_eq!(r.members[0].kind, ObjKind::Way);
            assert_eq!(r.members[0].mref, 5);
            assert_eq!(r.members[0].role, b"outer".to_vec());
        }
        _ => panic!("expected one relation"),
    }
}

#[test]
fn self_closing_node_without_coordinates() {
    // <node id="1"/> — longitude is checked first, so that error comes out,
    // and no object is emitted.
    let events = vec![empty("node", vec![attr("id", "1")]), RawEvent::Eof];
    let out = parse_events(events, SkipConfig::keep_all());
    assert_eq!(out.len(), 1);
    assert_eq!(out[0], Err(OsmError::NoLongitude));
}

#[test]
fn node_missing_latitude_only() {
    let events = vec![empty("node", vec![attr("id", "1"), attr("lon", "2.0")]), RawEvent::Eof];
    let out = parse_events(events, SkipConfig::keep_all());
    assert_eq!(out, vec![Err(OsmError::NoLatitude)]);
}

#[test]
fn node_malformed_latitude() {
    let events = vec![
        empty("node", vec![attr("lat", "north"), attr("lon", "2.0")]),
        RawEvent::Eof,
    ];
    let out = parse_events(events, SkipConfig::keep_all());
    assert_eq!(out, vec![Err(OsmError::MalformedAttribute(AttrField::Lat))]);
}

#[test]
fn way_ref_list_keeps_order_and_duplicates() {
    let events = vec![
        start("way", vec![attr("id", "7")]),
        empty("nd", vec![attr("ref", "3")]),
        empty("nd", vec![attr("ref", "1")]),
        empty("nd", vec![attr("ref", "3")]),
        empty("nd", vec![]), // no ref: silently omitted
        empty("nd", vec![attr("ref", "2")]),
        end("way"),
        RawEvent::Eof,
    ];
    let out = parse_events(events, SkipConfig::keep_all());
    match &out[0] {
        Ok(OsmObj::Way(w)) => assert_eq!(w.refs, vec![3, 1, 3, 2]),
        _ => panic!("expected a way"),
    }
}

#[test]
fn way_malformed_nd_ref_fails_object() {
    let events = vec![
        start("way", vec![attr("id", "7")]),
        empty("nd", vec![attr("ref", "xyz")]),
        end("way"),
        RawEvent::Eof,
    ];
    let out = parse_events(events, SkipConfig::keep_all());
    assert_eq!(out, vec![Err(OsmError::MalformedAttribute(AttrField::NdRef))]);
}

#[test]
fn duplicate_tag_key_last_wins() {
    let events = vec![
        start("node", vec![attr("id", "1"), attr("lat", "0"), attr("lon", "0")]),
        empty("tag", vec![attr("k", "name"), attr("v", "first")]),
        empty("tag", vec![attr("k", "name"), attr("v", "second")]),
        end("node"),
        RawEvent::Eof,
    ];
    let out = parse_events(events, SkipConfig::keep_all());
    match &out[0] {
        Ok(OsmObj::Node(n)) => {
            assert_eq!(n.tags.len(), 1);
            assert_eq!(n.tags.get(b"name").map(|v| v.as_slice()), Some(b"second".as_slice()));
        }
        _ => panic!("expected a node"),
    }
}

#[test]
fn tag_without_value_is_ignored() {
    let events = vec![
        start("node", vec![attr("lat", "0"), attr("lon", "0")]),
        empty("tag", vec![attr("k", "name")]),
        end("node"),
        RawEvent::Eof,
    ];
    let out = parse_events(events, SkipConfig::keep_all());
    match &out[0] {
        Ok(OsmObj::Node(n)) => assert_eq!(n.tags.len(), 0),
        _ => panic!("expected a node"),
    }
}

#[test]
fn member_missing_fields_each_distinct() {
    let make = |attrs: Vec<RawAttr>| {
        vec![
            start("relation", vec![attr("id", "9")]),
            empty("member", attrs),
            end("relation"),
            RawEvent::Eof,
        ]
    };
    let out = parse_events(
        make(vec![attr("ref", "5"), attr("role", "outer")]),
        SkipConfig::keep_all(),
    );
    assert_eq!(out, vec![Err(OsmError::NoMemberType)]);
    let out = parse_events(
        make(vec![attr("type", "way"), attr("role", "outer")]),
        SkipConfig::keep_all(),
    );
    assert_eq!(out, vec![Err(OsmError::NoMemberRef)]);
    let out = parse_events(
        make(vec![attr("type", "way"), attr("ref", "5")]),
        SkipConfig::keep_all(),
    );
    assert_eq!(out, vec![Err(OsmError::NoMemberRole)]);
    let out = parse_events(
        make(vec![attr("type", "area"), attr("ref", "5"), attr("role", "x")]),
        SkipConfig::keep_all(),
    );
    assert_eq!(out, vec![Err(OsmError::UnknownMemberType)]);
    let out = parse_events(
        make(vec![attr("type", "node"), attr("ref", "x"), attr("role", "y")]),
        SkipConfig::keep_all(),
    );
    assert_eq!(out, vec![Err(OsmError::MalformedAttribute(AttrField::MemberRef))]);
}

#[test]
fn malformed_id_is_recoverable() {
    let events = vec![
        empty("node", vec![attr("id", "abc"), attr("lat", "0"), attr("lon", "0")]),
        empty("node", vec![attr("id", "2"), attr("lat", "0"), attr("lon", "0")]),
        RawEvent::Eof,
    ];
    let out = parse_events(events, SkipConfig::keep_all());
    assert_eq!(out.len(), 2);
    assert_eq!(out[0], Err(OsmError::MalformedAttribute(AttrField::Id)));
    assert!(matches!(out[1], Ok(OsmObj::Node(_))));
}

#[test]
fn child_outside_object_is_structural() {
    let events = vec![
        empty("tag", vec![attr("k", "a"), attr("v", "b")]),
        empty("node", vec![attr("lat", "0"), attr("lon", "0")]),
        RawEvent::Eof,
    ];
    let out = parse_events(events, SkipConfig::keep_all());
    // the violation is reported as a value and the sequence ends
    assert_eq!(out, vec![Err(OsmError::ChildOutsideObject)]);
}

#[test]
fn nested_object_is_structural() {
    let events = vec![
        start("way", vec![attr("id", "5")]),
        start("node", vec![attr("lat", "0"), attr("lon", "0")]),
        end("node"),
        end("way"),
        RawEvent::Eof,
    ];
    let out = parse_events(events, SkipConfig::keep_all());
    assert_eq!(out, vec![Err(OsmError::NestedObject)]);
}

#[test]
fn duplicate_attribute_last_wins() {
    let events = vec![
        empty("node", vec![attr("id", "1"), attr("id", "2"), attr("lat", "0"), attr("lon", "0")]),
        RawEvent::Eof,
    ];
    let out = parse_events(events, SkipConfig::keep_all());
    match &out[0] {
        Ok(OsmObj::Node(n)) => assert_eq!(n.attrs.id, Some(2)),
        _ => panic!("expected a node"),
    }
}

#[test]
fn common_metadata_is_typed() {
    let events = vec![
        start(
            "node",
            vec![
                attr("id", "-3"),
                attr("lat", "1.5"),
                attr("lon", "-0.5"),
                attr("uid", "77"),
                attr("user", "mapper"),
                attr("visible", "true"),
                attr("deleted", "false"),
                attr("version", "12"),
                attr("changeset", "900"),
                attr("timestamp", "2020-01-01T00:00:00Z"),
            ],
        ),
        end("node"),
        RawEvent::Eof,
    ];
    let out = parse_events(events, SkipConfig::keep_all());
    match &out[0] {
        Ok(OsmObj::Node(n)) => {
            assert_eq!(n.attrs.id, Some(-3));
            assert_eq!(n.lat, 15_000_000);
            assert_eq!(n.lon, -5_000_000);
            assert_eq!(n.attrs.uid, Some(77));
            assert_eq!(n.attrs.user, Some(b"mapper".to_vec()));
            assert_eq!(n.attrs.visible, Some(true));
            assert_eq!(n.attrs.deleted, Some(false));
            assert_eq!(n.attrs.version, Some(12));
            assert_eq!(n.attrs.changeset, Some(900));
            assert_eq!(n.attrs.timestamp, Some(b"2020-01-01T00:00:00Z".to_vec()));
        }
        _ => panic!("expected a node"),
    }
}

#[test]
fn unknown_elements_are_ignored() {
    let events = vec![
        start("osm", vec![attr("version", "0.6")]),
        empty("bounds", vec![attr("minlat", "0")]),
        empty("node", vec![attr("lat", "0"), attr("lon", "0")]),
        end("osm"),
        RawEvent::Eof,
    ];
    let out = parse_events(events, SkipConfig::keep_all());
    assert_eq!(out.len(), 1);
    assert!(matches!(out[0], Ok(OsmObj::Node(_))));
}

#[test]
fn malformed_metadata_fields() {
    let node = |k: &str, v: &str| {
        vec![
            empty("node", vec![attr(k, v), attr("lat", "0"), attr("lon", "0")]),
            RawEvent::Eof,
        ]
    };
    let out = parse_events(node("uid", "ten"), SkipConfig::keep_all());
    assert_eq!(out, vec![Err(OsmError::MalformedAttribute(AttrField::Uid))]);
    let out = parse_events(node("visible", "yes"), SkipConfig::keep_all());
    assert_eq!(out, vec![Err(OsmError::MalformedAttribute(AttrField::Visible))]);
    let out = parse_events(node("deleted", "0"), SkipConfig::keep_all());
    assert_eq!(out, vec![Err(OsmError::MalformedAttribute(AttrField::Deleted))]);
    let out = parse_events(node("version", "-1"), SkipConfig::keep_all());
    assert_eq!(out, vec![Err(OsmError::MalformedAttribute(AttrField::Version))]);
    let out = parse_events(node("changeset", "-9"), SkipConfig::keep_all());
    assert_eq!(out, vec![Err(OsmError::MalformedAttribute(AttrField::Changeset))]);
}

#[test]
fn object_close_with_none_open() {
    let events = vec![end("node"), RawEvent::Eof];
    let out = parse_events(events, SkipConfig::keep_all());
    assert_eq!(out, vec![Err(OsmError::UnexpectedObjectClose)]);
}

#[test]
fn empty_input_yields_nothing() {
    let out = parse_events(vec![RawEvent::Eof], SkipConfig::keep_all());
    assert_eq!(out, vec![]);
    let out = parse_events(vec![], SkipConfig::keep_all());
    assert_eq!(out, vec![]);
}
