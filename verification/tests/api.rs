use mujina_miner::api_types::{
    Bzm2LoopbackRequest, Bzm2LoopbackResponse, Bzm2NoopResponse, Bzm2RegisterReadResponse,
    Bzm2RegisterWriteRequest, Bzm2RegisterWriteResponse,
};
use mujina_miner::hexcodec::decode_hex_payload;

#[test]
fn hex_payload_ignores_surrounding_whitespace_and_case() {
    assert_eq!(decode_hex_payload("  0aB1\n"), Some(vec![0x0a, 0xb1]));
    assert_eq!(decode_hex_payload(""), Some(vec![]));
}

#[test]
fn hex_payload_rejects_odd_length_and_non_hex_text() {
    assert_eq!(decode_hex_payload("123"), None);
    assert_eq!(decode_hex_payload("zz"), None);
    assert_eq!(decode_hex_payload("0 a"), None);
    assert_eq!(decode_hex_payload("é0"), None);
}

#[test]
fn noop_response_is_lower_case_hex() {
    let response = Bzm2NoopResponse::from_payload(b"BZ2");
    assert_eq!(response.payload_hex, "425a32");
}

#[test]
fn register_read_response_encodes_every_byte() {
    let response = Bzm2RegisterReadResponse::from_value(&[0x00, 0x0f, 0xf0, 0xff]);
    assert_eq!(response.value_hex, "000ff0ff");
}

#[test]
fn loopback_payload_round_trips_through_hex() {
    let payload = vec![0x01, 0x23, 0xab, 0xcd, 0xef];
    let response = Bzm2LoopbackResponse::from_payload(&payload);
    let request = Bzm2LoopbackRequest {
        thread_index: 0,
        asic: 2,
        payload_hex: response.payload_hex.clone(),
    };
    assert_eq!(request.payload(), Some(payload));
}

#[test]
fn register_write_request_decodes_value_and_counts_bytes() {
    let request = Bzm2RegisterWriteRequest {
        thread_index: 1,
        asic: 3,
        engine_address: 0x0fff,
        offset: 0x12,
        value_hex: " DEADbeef ".to_string(),
    };
    let value = request.value().unwrap();
    assert_eq!(value, vec![0xde, 0xad, 0xbe, 0xef]);
    assert_eq!(Bzm2RegisterWriteResponse::for_value(&value).bytes_written, 4);

    let bad = Bzm2RegisterWriteRequest {
        value_hex: "xyz".to_string(),
        ..request
    };
    assert_eq!(bad.value(), None);
}
