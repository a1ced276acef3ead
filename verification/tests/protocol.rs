use gateway_mux::dispatch::{handle_frame, ConnectionState};
use gateway_mux::frames::{hello_frame, heartbeat_ack_frame, invalid_session_frame};

const ACK: &str = "{\"t\":null,\"s\":null,\"op\":11,\"d\":null}";
const INVALID_SESSION: &str = "{\"t\":null,\"s\":null,\"op\":9,\"d\":false}";

#[test]
fn control_frames_are_byte_exact() {
    assert_eq!(
        hello_frame(),
        "{\"t\":null,\"s\":null,\"op\":10,\"d\":{\"heartbeat_interval\":41250}}"
    );
    assert_eq!(heartbeat_ack_frame(), ACK);
    assert_eq!(invalid_session_frame(), INVALID_SESSION);
}

#[test]
fn heartbeat_yields_exactly_one_ack_and_nothing_else() {
    let mut state = ConnectionState::new(4);
    let out = handle_frame(&mut state, "{\"op\":1,\"d\":null}");
    assert_eq!(out.reply.as_deref(), Some(ACK));
    assert_eq!(out.upstream, None);
    assert_eq!(out.selected_shard, None);
    assert!(!out.disconnect);
    assert_eq!(state.shard_count, 4);
    assert!(!state.compress);
    assert_eq!(state.shard_selected, None);
}

#[test]
fn resume_yields_exactly_one_invalid_session_and_no_session() {
    let mut state = ConnectionState::new(4);
    let out = handle_frame(&mut state, "{\"op\":6,\"d\":{\"session_id\":\"abc\",\"seq\":100}}");
    assert_eq!(out.reply.as_deref(), Some(INVALID_SESSION));
    assert_eq!(out.upstream, None);
    assert_eq!(out.selected_shard, None);
    assert!(!out.disconnect);
    assert_eq!(state.shard_selected, None);
}

#[test]
fn valid_identify_selects_shard_and_sets_compression() {
    let mut state = ConnectionState::new(2);
    let out = handle_frame(&mut state, "{\"op\":2,\"d\":{\"shard\":[1,2],\"compress\":true}}");
    assert_eq!(out.selected_shard, Some(1));
    assert_eq!(out.reply, None);
    assert_eq!(out.upstream, None);
    assert!(!out.disconnect);
    assert!(state.compress);
    assert_eq!(state.shard_selected, Some(1));
}

#[test]
fn identify_without_compress_flag_keeps_current_flag() {
    let mut state = ConnectionState::new(2);
    let out = handle_frame(&mut state, "{\"op\":2,\"d\":{\"shard\":[0,2]}}");
    assert_eq!(out.selected_shard, Some(0));
    assert!(!state.compress);
}

#[test]
fn shard_count_mismatch_disconnects_without_any_frame() {
    let mut state = ConnectionState::new(1);
    let out = handle_frame(&mut state, "{\"op\":2,\"d\":{\"shard\":[0,2]}}");
    assert!(out.disconnect);
    assert_eq!(out.reply, None);
    assert_eq!(out.upstream, None);
    assert_eq!(out.selected_shard, None);
    assert_eq!(state.shard_selected, None);
}

#[test]
fn shard_index_out_of_range_disconnects_without_any_frame() {
    let mut state = ConnectionState::new(2);
    let out = handle_frame(&mut state, "{\"op\":2,\"d\":{\"shard\":[2,2]}}");
    assert!(out.disconnect);
    assert_eq!(out.reply, None);
    assert_eq!(out.selected_shard, None);
}

#[test]
fn second_identify_does_not_move_the_slot() {
    let mut state = ConnectionState::new(4);
    let first = handle_frame(&mut state, "{\"op\":2,\"d\":{\"shard\":[1,4]}}");
    assert_eq!(first.selected_shard, Some(1));
    let second = handle_frame(&mut state, "{\"op\":2,\"d\":{\"shard\":[3,4]}}");
    assert_eq!(second.selected_shard, Some(3));
    // the one-shot slot keeps the value the forwarder will consume
    assert_eq!(state.shard_selected, Some(1));
}

#[test]
fn malformed_identify_is_skipped() {
    let mut state = ConnectionState::new(2);
    let out = handle_frame(&mut state, "{\"op\":2,\"d\":{}}");
    assert!(!out.disconnect);
    assert_eq!(out.reply, None);
    assert_eq!(out.selected_shard, None);
}

#[test]
fn identify_with_malformed_compress_is_skipped() {
    let mut state = ConnectionState::new(2);
    let out = handle_frame(&mut state, "{\"op\":2,\"d\":{\"shard\":[0,2],\"compress\":1}}");
    assert_eq!(out.selected_shard, None);
    assert!(!out.disconnect);
    assert!(!state.compress);
}

#[test]
fn unknown_opcode_is_forwarded_upstream_verbatim() {
    let mut state = ConnectionState::new(2);
    let frame = "{\"op\":4,\"d\":{\"guild_id\":null,\"channel_id\":null}}";
    let out = handle_frame(&mut state, frame);
    assert_eq!(out.upstream.as_deref(), Some(frame));
    assert_eq!(out.reply, None);
    assert_eq!(out.selected_shard, None);
    assert!(!out.disconnect);
}

#[test]
fn noise_frames_are_skipped() {
    let mut state = ConnectionState::new(2);
    for frame in ["", "hello there", "{\"no_opcode\":true}", "{\"op\":}"] {
        let out = handle_frame(&mut state, frame);
        assert_eq!(out.reply, None);
        assert_eq!(out.upstream, None);
        assert_eq!(out.selected_shard, None);
        assert!(!out.disconnect);
    }
}

#[test]
fn oversized_opcode_is_noise() {
    let mut state = ConnectionState::new(2);
    // twenty digits never fit the opcode's machine word
    let out = handle_frame(&mut state, "{\"op\":99999999999999999999}");
    assert_eq!(out.reply, None);
    assert_eq!(out.upstream, None);
}
