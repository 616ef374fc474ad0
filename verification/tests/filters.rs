//! Filtering and the drivers: per-kind skipping, derived configurations,
//! fail-fast collection, and whole-document counts.

use osm_stream::assembler::parse_events;
use osm_stream::drivers::{collect_nodes, collect_relations, collect_ways, run_filtered, OsmReader};
use osm_stream::events::{RawAttr, RawEvent};
use osm_stream::filter::{from_handlers, only_kind, SkipConfig};
use osm_stream::model::{ObjKind, OsmError, OsmObj};

fn attr(k: &str, v: &str) -> RawAttr {
    RawAttr { key: k.as_bytes().to_vec(), value: v.as_bytes().to_vec() }
}

fn start(name: &str, attrs: Vec<RawAttr>) -> RawEvent {
    RawEvent::Start { name: name.as_bytes().to_vec(), attrs }
}

fn empty(name: &str, attrs: Vec<RawAttr>) -> RawEvent {
    RawEvent::Empty { name: name.as_bytes().to_vec(), attrs }
}

fn end(name: &str) -> RawEvent {
    RawEvent::End { name: name.as_bytes().to_vec() }
}

/// Two nodes, one way, one relation, all well formed.
fn mixed_document() -> Vec<RawEvent> {
    vec![
        start("osm", vec![]),
        empty("node", vec![attr("id", "1"), attr("lat", "1.0"), attr("lon", "2.0")]),
        start("node", vec![attr("id", "2"), attr("lat", "3.0"), attr("lon", "4.0")]),
        empty("tag", vec![attr("k", "a"), attr("v", "b")]),
        end("node"),
        start("way", vec![attr("id", "5")]),
        empty("nd", vec![attr("ref", "1")]),
        empty("nd", vec![attr("ref", "2")]),
        end("way"),
        start("relation", vec![attr("id", "9")]),
        empty("member", vec![attr("type", "way"), attr("ref", "5"), attr("role", "outer")]),
        end("relation"),
        end("osm"),
        RawEvent::Eof,
    ]
}

#[test]
fn unfiltered_counts_match() {
    let out = parse_events(mixed_document(), SkipConfig::keep_all());
    assert_eq!(out.len(), 4);
    let nodes = out
        .iter()
        .filter(|r| matches!(r, Ok(OsmObj::Node(_))))
        .count();
    let ways = out.iter().filter(|r| matches!(r, Ok(OsmObj::Way(_)))).count();
    let relations = out
        .iter()
        .filter(|r| matches!(r, Ok(OsmObj::Relation(_))))
        .count();
    assert_eq!((nodes, ways, relations), (2, 1, 1));
}

#[test]
fn skip_relations_emits_none() {
    let cfg = SkipConfig { skip_nodes: false, skip_ways: false, skip_relations: true };
    let out = parse_events(mixed_document(), cfg);
    assert_eq!(out.len(), 3);
    assert!(out
        .iter()
        .all(|r| !matches!(r, Ok(OsmObj::Relation(_)))));
}

#[test]
fn skip_everything_emits_nothing() {
    let cfg = SkipConfig { skip_nodes: true, skip_ways: true, skip_relations: true };
    let out = parse_events(mixed_document(), cfg);
    assert_eq!(out.len(), 0);
}

#[test]
fn skipped_kind_errors_are_not_reported() {
    // the malformed node is skipped, so its typing never runs
    let events = vec![
        empty("node", vec![attr("id", "abc"), attr("lat", "0"), attr("lon", "0")]),
        empty("way", vec![attr("id", "5")]),
        RawEvent::Eof,
    ];
    let cfg = SkipConfig { skip_nodes: true, skip_ways: false, skip_relations: false };
    let out = parse_events(events, cfg);
    assert_eq!(out.len(), 1);
    assert!(matches!(out[0], Ok(OsmObj::Way(_))));
}

#[test]
fn only_kind_forces_other_flags() {
    let c = only_kind(ObjKind::Node);
    assert_eq!((c.skip_nodes, c.skip_ways, c.skip_relations), (false, true, true));
    let c = only_kind(ObjKind::Way);
    assert_eq!((c.skip_nodes, c.skip_ways, c.skip_relations), (true, false, true));
    let c = only_kind(ObjKind::Relation);
    assert_eq!((c.skip_nodes, c.skip_ways, c.skip_relations), (true, true, false));
}

#[test]
fn handlers_decide_flags() {
    let c = from_handlers(true, false, true);
    assert_eq!((c.skip_nodes, c.skip_ways, c.skip_relations), (false, true, false));
    let c = from_handlers(false, false, false);
    assert_eq!((c.skip_nodes, c.skip_ways, c.skip_relations), (true, true, true));
}

#[test]
fn collect_each_kind() {
    let ns = collect_nodes(mixed_document()).unwrap();
    assert_eq!(ns.len(), 2);
    assert_eq!(ns[0].attrs.id, Some(1));
    assert_eq!(ns[1].attrs.id, Some(2));
    let ws = collect_ways(mixed_document()).unwrap();
    assert_eq!(ws.len(), 1);
    assert_eq!(ws[0].refs, vec![1, 2]);
    let rs = collect_relations(mixed_document()).unwrap();
    assert_eq!(rs.len(), 1);
    assert_eq!(rs[0].members.len(), 1);
}

#[test]
fn collectors_fail_fast() {
    let events = vec![
        empty("node", vec![attr("id", "1"), attr("lat", "1.0"), attr("lon", "2.0")]),
        empty("node", vec![attr("id", "2")]), // no coordinates
        empty("node", vec![attr("id", "3"), attr("lat", "1.0"), attr("lon", "2.0")]),
        RawEvent::Eof,
    ];
    assert_eq!(collect_nodes(events), Err(OsmError::NoLongitude));
}

#[test]
fn collector_ignores_other_kind_errors() {
    // a malformed way does not disturb the node driver: ways are skipped
    let events = vec![
        start("way", vec![attr("id", "abc")]),
        end("way"),
        empty("node", vec![attr("id", "1"), attr("lat", "1.0"), attr("lon", "2.0")]),
        RawEvent::Eof,
    ];
    let ns = collect_nodes(events).unwrap();
    assert_eq!(ns.len(), 1);
}

#[test]
fn run_filtered_returns_kept_kinds() {
    let cfg = from_handlers(true, true, false);
    let objs = run_filtered(mixed_document(), cfg).unwrap();
    assert_eq!(objs.len(), 3);
    assert!(objs
        .iter()
        .all(|o| !matches!(o, OsmObj::Relation(_))));
}

#[test]
fn reader_yields_one_at_a_time() {
    let mut reader = OsmReader::new(mixed_document(), SkipConfig::keep_all());
    let mut seen: usize = 0;
    while let Some(item) = reader.next() {
        assert!(item.is_ok());
        seen += 1;
    }
    assert_eq!(seen, 4);
    // the sequence is not restartable: it stays exhausted
    assert!(reader.next().is_none());
}

#[test]
fn reader_continues_past_recoverable_error() {
    let events = vec![
        empty("node", vec![attr("id", "1")]), // no coordinates
        empty("node", vec![attr("id", "2"), attr("lat", "1.0"), attr("lon", "2.0")]),
        RawEvent::Eof,
    ];
    let mut reader = OsmReader::new(events, SkipConfig::keep_all());
    assert_eq!(reader.next(), Some(Err(OsmError::NoLongitude)));
    let second = reader.next().unwrap().unwrap();
    assert!(matches!(second, OsmObj::Node(_)));
    assert_eq!(reader.next(), None);
}
