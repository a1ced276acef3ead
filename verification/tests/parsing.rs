use gateway_mux::dispatch::extract_op;
use gateway_mux::identify::{parse_identify, validate_identify, IdentifyError};
use gateway_mux::route::{route, Route};
use gateway_mux::text::render_usize;

#[test]
fn extract_op_reads_the_first_opcode() {
    assert_eq!(extract_op("{\"op\":2,\"d\":null}"), Some(2));
    assert_eq!(extract_op("{\"op\": 11}"), Some(11));
    assert_eq!(extract_op("{\"d\":{\"op\":5},\"op\":1}"), Some(5));
    assert_eq!(extract_op("{\"t\":null}"), None);
    assert_eq!(extract_op("{\"op\":true}"), None);
    assert_eq!(extract_op(""), None);
}

#[test]
fn parse_identify_reads_shard_and_compress() {
    let id = parse_identify("{\"op\":2,\"d\":{\"shard\":[3,8],\"compress\":false}}").unwrap();
    assert_eq!(id.d.shard, [3, 8]);
    assert_eq!(id.d.compress, Some(false));

    let id = parse_identify("{\"op\":2,\"d\":{\"shard\": [ 0 , 1 ]}}").unwrap();
    assert_eq!(id.d.shard, [0, 1]);
    assert_eq!(id.d.compress, None);
}

#[test]
fn parse_identify_rejects_malformed_payloads() {
    assert!(parse_identify("{\"op\":2,\"d\":{}}").is_none());
    assert!(parse_identify("{\"op\":2,\"d\":{\"shard\":[0]}}").is_none());
    assert!(parse_identify("{\"op\":2,\"d\":{\"shard\":[0,]}}").is_none());
    assert!(parse_identify("{\"op\":2,\"d\":{\"shard\":0}}").is_none());
    assert!(parse_identify("{\"op\":2,\"d\":{\"shard\":[0,1],\"compress\":\"yes\"}}").is_none());
    // twenty digits never fit the shard's machine word
    assert!(parse_identify("{\"shard\":[99999999999999999999,1]}").is_none());
}

#[test]
fn validate_identify_accepts_exactly_matching_count_and_in_range_index() {
    let id = parse_identify("{\"shard\":[1,2]}").unwrap();
    assert_eq!(validate_identify(&id, 2), Ok(1));
    assert_eq!(validate_identify(&id, 3), Err(IdentifyError::ShardCountMismatch));

    let out_of_range = parse_identify("{\"shard\":[2,2]}").unwrap();
    assert_eq!(
        validate_identify(&out_of_range, 2),
        Err(IdentifyError::ShardIndexOutOfRange)
    );
}

#[test]
fn render_usize_writes_plain_decimal() {
    assert_eq!(render_usize(0), "0");
    assert_eq!(render_usize(7), "7");
    assert_eq!(render_usize(10), "10");
    assert_eq!(render_usize(41250), "41250");
    assert_eq!(render_usize(usize::MAX), usize::MAX.to_string());
}

#[test]
fn only_the_metrics_path_is_routed_to_metrics() {
    assert_eq!(route("/metrics"), Route::Metrics);
    assert_eq!(route("/"), Route::Upgrade);
    assert_eq!(route(""), Route::Upgrade);
    assert_eq!(route("/metric"), Route::Upgrade);
    assert_eq!(route("/metricsx"), Route::Upgrade);
    assert_eq!(route("/Metrics"), Route::Upgrade);
}
