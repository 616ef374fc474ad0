//! The producer/consumer pipeline model: order preservation under any
//! schedule, backpressure under a stalled consumer, and the queue itself.

use osm_stream::assembler::parse_events;
use osm_stream::events::{RawAttr, RawEvent};
use osm_stream::filter::SkipConfig;
use osm_stream::model::OsmError;
use osm_stream::pipeline::{run_pipeline, BoundedQueue, QUEUE_CAPACITY};

fn attr(k: &str, v: &str) -> RawAttr {
    RawAttr { key: k.as_bytes().to_vec(), value: v.as_bytes().to_vec() }
}

fn empty(name: &str, attrs: Vec<RawAttr>) -> RawEvent {
    RawEvent::Empty { name: name.as_bytes().to_vec(), attrs }
}

fn many_nodes(n: i64) -> Vec<RawEvent> {
    let mut events = Vec::new();
    for i in 0..n {
        events.push(empty(
            "node",
            vec![attr("id", &i.to_string()), attr("lat", "1.0"), attr("lon", "2.0")],
        ));
    }
    // one bad node and one relation for variety
    events.push(empty("node", vec![attr("id", "99")]));
    events.push(empty("way", vec![attr("id", "5")]));
    events.push(RawEvent::Eof);
    events
}

#[test]
fn pipeline_matches_foreground_for_any_schedule() {
    let schedules: Vec<Vec<bool>> = vec![
        vec![],                                   // alternating by default
        vec![true],                               // producer-greedy
        vec![false],                              // consumer-greedy
        vec![true, true, false],                  // bursts
        vec![false, false, true, true, true],     // slow start
    ];
    let foreground = parse_events(many_nodes(12), SkipConfig::keep_all());
    for schedule in schedules {
        let run = run_pipeline(many_nodes(12), SkipConfig::keep_all(), &schedule);
        assert_eq!(run.received, foreground);
        assert!(run.peak <= QUEUE_CAPACITY);
    }
}

#[test]
fn stalled_consumer_is_bounded_by_capacity() {
    // an all-producer schedule: the consumer moves only when the producer
    // cannot, i.e. the queue is full
    let run = run_pipeline(many_nodes(20), SkipConfig::keep_all(), &vec![true]);
    assert_eq!(run.peak, QUEUE_CAPACITY);
    let foreground = parse_events(many_nodes(20), SkipConfig::keep_all());
    assert_eq!(run.received, foreground);
}

#[test]
fn pipeline_forwards_errors_in_order() {
    let events = vec![
        empty("node", vec![attr("id", "1"), attr("lat", "1.0"), attr("lon", "2.0")]),
        empty("node", vec![attr("id", "2")]),
        empty("node", vec![attr("id", "3"), attr("lat", "1.0"), attr("lon", "2.0")]),
        RawEvent::Eof,
    ];
    let run = run_pipeline(events, SkipConfig::keep_all(), &vec![]);
    assert_eq!(run.received.len(), 3);
    assert!(run.received[0].is_ok());
    assert_eq!(run.received[1], Err(OsmError::NoLongitude));
    assert!(run.received[2].is_ok());
}

#[test]
fn queue_is_fifo_and_bounded() {
    let mut q = BoundedQueue::new(2);
    assert_eq!(q.len(), 0);
    assert!(q.push(Err(OsmError::NoLatitude)));
    assert!(q.push(Err(OsmError::NoLongitude)));
    // full: the third item is refused and nothing changes
    assert!(!q.push(Err(OsmError::NotOsmFile)));
    assert_eq!(q.len(), 2);
    assert_eq!(q.pop(), Some(Err(OsmError::NoLatitude)));
    assert_eq!(q.pop(), Some(Err(OsmError::NoLongitude)));
    assert_eq!(q.pop(), None);
}
