use jottrace::storage::{
    decode_event_payload, decode_event_payload_prefix, encode_event_payload, RAW_CODEC,
    ZSTD_CODEC, ZSTD_MIN_PAYLOAD_BYTES,
};

fn pseudo_random_bytes(len: usize) -> Vec<u8> {
    let mut state = 0x4d59_5df4_d0f3_3173_u64;
    let mut output = Vec::with_capacity(len);
    for _ in 0..len {
        state ^= state << 13;
        state ^= state >> 7;
        state ^= state << 17;
        output.push(state as u8);
    }
    output
}

#[test]
fn decode_event_payload_returns_raw_payload_bytes() {
    let payload = br#"{"type":"event_msg"}"#;
    let decoded = decode_event_payload(payload, RAW_CODEC).expect("decode raw payload");
    assert_eq!(decoded, payload);
}

#[test]
fn decode_event_payload_returns_zstd_payload_bytes() {
    let payload = br#"{"type":"event_msg","message":"compressible payload"}"#;
    let encoded = zstd::stream::encode_all(&payload[..], 0).expect("encode zstd payload");
    let decoded = decode_event_payload(&encoded, ZSTD_CODEC).expect("decode zstd payload");
    assert_eq!(decoded, payload);
}

#[test]
fn decode_event_payload_prefix_returns_bounded_zstd_payload_bytes() {
    let payload = vec![b'x'; 4096];
    let encoded = zstd::stream::encode_all(&payload[..], 0).expect("encode zstd payload");
    let decoded =
        decode_event_payload_prefix(&encoded, ZSTD_CODEC, 1024).expect("decode zstd prefix");
    assert_eq!(decoded, payload[..1024]);
}

#[test]
fn decode_event_payload_rejects_unknown_codec() {
    let error =
        decode_event_payload(br#"{"type":"event_msg"}"#, "snappy").expect_err("codec error");
    assert_eq!(error.to_message(), "unsupported event payload codec: snappy");
}

#[test]
fn encode_event_payload_keeps_subthreshold_payload_raw() {
    let payload = vec![b'x'; ZSTD_MIN_PAYLOAD_BYTES - 1];
    let encoded = encode_event_payload(&payload).expect("encode event payload");
    assert_eq!(encoded.codec, RAW_CODEC);
    assert_eq!(encoded.payload, payload);
    assert_eq!(encoded.payload_size, ZSTD_MIN_PAYLOAD_BYTES - 1);
}

#[test]
fn encode_event_payload_uses_zstd_when_compressed_payload_is_smaller() {
    let payload = vec![b'x'; ZSTD_MIN_PAYLOAD_BYTES];
    let encoded = encode_event_payload(&payload).expect("encode event payload");
    assert_eq!(encoded.codec, ZSTD_CODEC);
    assert!(encoded.payload.len() < payload.len());
    assert_eq!(encoded.payload_size, payload.len());
    assert_eq!(
        decode_event_payload(&encoded.payload, encoded.codec).expect("decode event payload"),
        payload
    );
}

#[test]
fn encode_event_payload_keeps_incompressible_payload_raw() {
    let payload = pseudo_random_bytes(4096);
    let encoded = encode_event_payload(&payload).expect("encode event payload");
    assert_eq!(encoded.codec, RAW_CODEC);
    assert_eq!(encoded.payload, payload);
    assert_eq!(encoded.payload_size, 4096);
}

#[test]
fn decode_prefix_of_raw_payload_takes_leading_bytes() {
    let decoded = decode_event_payload_prefix(b"abcdef", RAW_CODEC, 3).expect("raw prefix");
    assert_eq!(decoded, b"abc");
}

#[test]
fn decode_of_corrupt_zstd_payload_is_an_error() {
    assert!(decode_event_payload(b"not zstd at all", ZSTD_CODEC).is_err());
}
