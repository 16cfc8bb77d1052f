use kafka_web::codec::{
    encode_frame2, json_decode_str, json_encode_str, split_frame2, TopicStatus, Wire,
};

#[test]
fn string_encoding_is_json() {
    let bytes = json_encode_str("topic-1");
    assert_eq!(bytes, b"\"topic-1\"".to_vec());
    assert_eq!(bytes, serde_json::to_vec("topic-1").unwrap());
    let quoting = json_encode_str("say \"hi\"");
    assert_eq!(quoting, serde_json::to_vec("say \"hi\"").unwrap());
}

#[test]
fn string_decoding_inverts_encoding() {
    let bytes = json_encode_str("partition \"0\" is fine");
    let back = json_decode_str(&bytes).unwrap();
    assert_eq!(back, "partition \"0\" is fine".to_string());
    assert!(json_decode_str(b"not json at all").is_none());
}

#[test]
fn string_wire_round_trip() {
    let original = "topic-1".to_string();
    let encoded = original.encode().unwrap();
    let decoded = <String as Wire>::decode(&encoded).unwrap();
    assert_eq!(decoded, original);
    assert_eq!(decoded.encode().unwrap(), encoded);
}

#[test]
fn status_round_trip_topic_1() {
    // A structured value: three partitions, no error flagged.
    let status = TopicStatus { partitions: 3, error: None };
    let encoded = status.encode().unwrap();
    assert_eq!(encoded, b"[3,null]".to_vec());
    assert_eq!(encoded, serde_json::to_vec(&(3u64, Option::<String>::None)).unwrap());
    let decoded = <TopicStatus as Wire>::decode(&encoded).unwrap();
    assert_eq!(decoded.partitions, 3);
    assert_eq!(decoded.error, None);
    // Byte-for-byte equivalence through the round trip.
    assert_eq!(decoded.encode().unwrap(), encoded);
}

#[test]
fn status_with_error_round_trip() {
    let status = TopicStatus { partitions: 12, error: Some("LeaderNotAvailable".to_string()) };
    let encoded = status.encode().unwrap();
    let decoded = <TopicStatus as Wire>::decode(&encoded).unwrap();
    assert_eq!(decoded.partitions, 12);
    assert_eq!(decoded.error, Some("LeaderNotAvailable".to_string()));
    assert_eq!(decoded.encode().unwrap(), encoded);
    assert!(<TopicStatus as Wire>::decode(b"{").is_none());
}

#[test]
fn frame_layout_and_round_trip() {
    let a = vec![0xAAu8, 0xBB];
    let b = vec![1u8, 2, 3];
    let framed = encode_frame2(&a, &b);
    assert_eq!(framed, vec![0u8, 0, 0, 2, 0xAA, 0xBB, 1, 2, 3]);
    let (first, rest) = split_frame2(&framed).unwrap();
    assert_eq!(first, a);
    assert_eq!(rest, b);
}

#[test]
fn frame_with_empty_fields_round_trips() {
    let a: Vec<u8> = Vec::new();
    let b: Vec<u8> = Vec::new();
    let framed = encode_frame2(&a, &b);
    assert_eq!(framed, vec![0u8, 0, 0, 0]);
    let (first, rest) = split_frame2(&framed).unwrap();
    assert!(first.is_empty());
    assert!(rest.is_empty());
}

#[test]
fn truncated_frames_are_rejected() {
    assert!(split_frame2(&[0u8, 0, 0]).is_none());
    // Prefix promises two bytes, only one follows.
    assert!(split_frame2(&[0u8, 0, 0, 2, 0xAA]).is_none());
}
