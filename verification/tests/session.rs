use gateway_mux::dispatch::{handle_frame, ConnectionState};
use gateway_mux::forwarder::{
    bootstrap_frames, relay_all, relay_event, Entity, EventRecord, SequenceCounter,
};
use gateway_mux::frames::hello_frame;

fn entity(id: &str, available: bool) -> Entity {
    Entity { id: String::from(id), available }
}

fn spanned(payload: &str, a: usize, b: usize) -> EventRecord {
    EventRecord { payload: String::from(payload), span: Some((a, b)) }
}

#[test]
fn bootstrap_is_ready_then_one_frame_per_entity_with_dense_labels() {
    let mut counter = SequenceCounter::new();
    let entities = vec![entity("G1", true), entity("G2", false), entity("G3", true)];
    let frames = bootstrap_frames(&mut counter, "{\"v\":1}", &entities);
    assert_eq!(frames.len(), 4);
    assert_eq!(frames[0], "{\"t\":\"READY\",\"s\":0,\"op\":0,\"d\":{\"v\":1}}");
    assert_eq!(frames[1], "{\"t\":\"ENTITY_AVAILABLE\",\"s\":1,\"op\":0,\"d\":{\"id\":\"G1\"}}");
    assert_eq!(frames[2], "{\"t\":\"ENTITY_UNAVAILABLE\",\"s\":2,\"op\":0,\"d\":{\"id\":\"G2\"}}");
    assert_eq!(frames[3], "{\"t\":\"ENTITY_AVAILABLE\",\"s\":3,\"op\":0,\"d\":{\"id\":\"G3\"}}");
    assert_eq!(counter.value, 3);
}

#[test]
fn bootstrap_with_empty_snapshot_is_just_the_ready_frame() {
    let mut counter = SequenceCounter::new();
    let frames = bootstrap_frames(&mut counter, "null", &Vec::new());
    assert_eq!(frames.len(), 1);
    assert_eq!(frames[0], "{\"t\":\"READY\",\"s\":0,\"op\":0,\"d\":null}");
    assert_eq!(counter.value, 0);
}

#[test]
fn relay_overwrites_exactly_the_span_with_the_next_label() {
    let mut counter = SequenceCounter { value: 5 };
    let ev = spanned("{\"t\":\"E\",\"s\":7741,\"op\":0}", 13, 17);
    let out = relay_event(&mut counter, &ev);
    assert_eq!(out, "{\"t\":\"E\",\"s\":6,\"op\":0}");
    assert_eq!(counter.value, 6);
    // the shared record itself is untouched
    assert_eq!(ev.payload, "{\"t\":\"E\",\"s\":7741,\"op\":0}");
}

#[test]
fn event_without_span_passes_unmodified_and_consumes_no_label() {
    let mut counter = SequenceCounter { value: 9 };
    let ev = EventRecord { payload: String::from("{\"op\":11}"), span: None };
    let out = relay_event(&mut counter, &ev);
    assert_eq!(out, "{\"op\":11}");
    assert_eq!(counter.value, 9);
}

#[test]
fn relayed_labels_are_dense_above_the_bootstrap_count() {
    let mut counter = SequenceCounter { value: 2 };
    let events = vec![
        spanned("{\"s\":90}", 5, 7),
        spanned("{\"s\":1}", 5, 6),
        spanned("{\"s\":123456}", 5, 11),
    ];
    let out = relay_all(&mut counter, &events);
    assert_eq!(out, vec!["{\"s\":3}", "{\"s\":4}", "{\"s\":5}"]);
    assert_eq!(counter.value, 5);
}

#[test]
fn two_connections_number_the_same_broadcast_independently() {
    let events = vec![spanned("{\"s\":50}", 5, 7), spanned("{\"s\":60}", 5, 7)];
    let mut first = SequenceCounter::new();
    let mut second = SequenceCounter { value: 7 };
    let out_first = relay_all(&mut first, &events);
    let out_second = relay_all(&mut second, &events);
    assert_eq!(out_first, vec!["{\"s\":1}", "{\"s\":2}"]);
    assert_eq!(out_second, vec!["{\"s\":8}", "{\"s\":9}"]);
    // the shared records are unchanged after both relays
    assert_eq!(events[0].payload, "{\"s\":50}");
    assert_eq!(events[1].payload, "{\"s\":60}");
}

#[test]
fn end_to_end_fresh_client_observes_hello_bootstrap_then_live_events() {
    // a server configured for one shard, whose shard 0 is already ready
    // with one available entity
    let mut state = ConnectionState::new(1);

    // on entry the connection receives exactly the hello frame
    let hello = hello_frame();
    assert_eq!(
        hello,
        "{\"t\":null,\"s\":null,\"op\":10,\"d\":{\"heartbeat_interval\":41250}}"
    );

    // the client identifies for shard 0 of 1 and turns compression on
    let out = handle_frame(&mut state, "{\"op\":2,\"d\":{\"shard\":[0,1],\"compress\":true}}");
    assert_eq!(out.selected_shard, Some(0));
    assert!(!out.disconnect);
    // from here the sink pump reads the flag at write time and compresses
    // every outbound frame, queued ones included
    assert!(state.compress);

    // the forwarder bootstraps: sequence 0, then "G1" with sequence 1
    let mut counter = SequenceCounter::new();
    let frames = bootstrap_frames(&mut counter, "{\"session\":\"s1\"}", &vec![entity("G1", true)]);
    assert_eq!(frames[0], "{\"t\":\"READY\",\"s\":0,\"op\":0,\"d\":{\"session\":\"s1\"}}");
    assert_eq!(frames[1], "{\"t\":\"ENTITY_AVAILABLE\",\"s\":1,\"op\":0,\"d\":{\"id\":\"G1\"}}");

    // live events continue at 2, 3, ...
    let live = vec![spanned("{\"s\":900}", 5, 8), spanned("{\"s\":901}", 5, 8)];
    let out = relay_all(&mut counter, &live);
    assert_eq!(out, vec!["{\"s\":2}", "{\"s\":3}"]);
}
