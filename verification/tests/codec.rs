//! The value codec and identifier text forms.

use catalog_store::{
    decode_global_id, encode_global_id, encode_timestamp_bindings, GlobalId, LocalId, PartitionId,
    Uuid,
};

#[test]
fn global_id_blob_round_trip() {
    let values = vec![
        GlobalId::System(5),
        GlobalId::User(7),
        GlobalId::Transient(9),
        GlobalId::Explain,
        GlobalId::User(0),
        GlobalId::System(u64::MAX),
    ];
    for v in values {
        let blob = encode_global_id(&v);
        let back = decode_global_id(blob.as_slice()).expect("canonical blob decodes");
        assert_eq!(back, v);
    }
}

#[test]
fn global_id_blob_matches_tagged_json() {
    // The stored blob is the tagged textual form serde_json produces for a
    // tagged enum value.
    let mut obj = serde_json::Map::new();
    obj.insert(
        "User".to_string(),
        serde_json::Value::Number(serde_json::Number::from(7u64)),
    );
    let expected = serde_json::to_vec(&serde_json::Value::Object(obj)).unwrap();
    assert_eq!(encode_global_id(&GlobalId::User(7)), expected);

    let expected_explain =
        serde_json::to_vec(&serde_json::Value::String("Explain".to_string())).unwrap();
    assert_eq!(encode_global_id(&GlobalId::Explain), expected_explain);
}

#[test]
fn global_id_blob_rejects_noncanonical() {
    assert!(decode_global_id(b"junk").is_err());
    assert!(decode_global_id(b"{\"User\":007}").is_err());
    assert!(decode_global_id(b"{\"User\":}").is_err());
    assert!(decode_global_id(b"{\"user\":7}").is_err());
    assert!(decode_global_id(b"").is_err());
}

#[test]
fn global_id_text_round_trip() {
    assert_eq!(GlobalId::System(5044).to_text(), "s5044");
    assert_eq!(GlobalId::User(7).to_text(), "u7");
    assert_eq!(GlobalId::Transient(3).to_text(), "t3");
    assert_eq!(GlobalId::Explain.to_text(), "Explained Query");
    assert_eq!(GlobalId::parse("u7").unwrap(), GlobalId::User(7));
    assert_eq!(GlobalId::parse("s0").unwrap(), GlobalId::System(0));
    assert_eq!(GlobalId::parse("t12").unwrap(), GlobalId::Transient(12));
    assert!(GlobalId::parse("x7").is_err());
    assert!(GlobalId::parse("u").is_err());
    assert!(GlobalId::parse("").is_err());
}

#[test]
fn global_id_predicates() {
    assert!(GlobalId::System(1).is_system());
    assert!(!GlobalId::System(1).is_user());
    assert!(GlobalId::User(1).is_user());
    assert!(GlobalId::Transient(1).is_transient());
    let _ = LocalId::new(4);
}

#[test]
fn partition_id_text_round_trip() {
    assert_eq!(PartitionId::Kafka(5).to_text(), "5");
    assert_eq!(PartitionId::Kafka(-3).to_text(), "-3");
    assert_eq!(PartitionId::NonePartition.to_text(), "none");
    assert_eq!(PartitionId::parse("5").unwrap(), PartitionId::Kafka(5));
    assert_eq!(PartitionId::parse("-3").unwrap(), PartitionId::Kafka(-3));
    assert_eq!(PartitionId::parse("none").unwrap(), PartitionId::NonePartition);
    assert!(PartitionId::parse("nope").is_err());
    assert!(PartitionId::parse("").is_err());
}

#[test]
fn uuid_text_round_trip() {
    let u = Uuid::new_v4();
    let text = u.to_text();
    assert_eq!(text.len(), 36);
    // The rendering is a hyphenated UUID the uuid crate accepts, with the
    // version-4 marker in place.
    let parsed = uuid::Uuid::parse_str(&text).expect("uuid crate accepts the rendering");
    assert_eq!(parsed.get_version_num(), 4);
    let back = Uuid::parse(&text).expect("round trip");
    assert_eq!(back.to_text(), text);
    assert!(Uuid::parse("not-a-uuid").is_none());
}

#[test]
fn timestamp_binding_diff_encoding() {
    let bindings = vec![
        (PartitionId::Kafka(0), 1i64, 5i64),
        (PartitionId::Kafka(0), 2, 9),
        (PartitionId::NonePartition, 1, 4),
        (PartitionId::Kafka(0), 3, 9),
    ];
    let (updates, seal) = encode_timestamp_bindings(&bindings);
    assert_eq!(
        updates,
        vec![
            (PartitionId::Kafka(0), 1, 5),
            (PartitionId::Kafka(0), 2, 4),
            (PartitionId::NonePartition, 1, 4),
            (PartitionId::Kafka(0), 3, 0),
        ]
    );
    assert_eq!(seal, Some(3));

    let empty: Vec<(PartitionId, i64, i64)> = Vec::new();
    let (updates, seal) = encode_timestamp_bindings(&empty);
    assert!(updates.is_empty());
    assert_eq!(seal, None);
}
