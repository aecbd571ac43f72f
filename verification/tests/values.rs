use bytes::BytesMut;
use edgedb_protocol::descriptors::{
    BaseScalarTypeDescriptor, Descriptor, DescriptorContext, ProtocolVersion,
};
use edgedb_protocol::encode::encode;
use edgedb_protocol::names::name_is_index;
use edgedb_protocol::values::{
    decode_bytes, decode_int64, BytesValue, Int64Value, INT64_TYPE_ID,
};

fn int64_ctx() -> DescriptorContext {
    DescriptorContext {
        root_pos: Some(0),
        proto: ProtocolVersion { major: 1, minor: 0 },
        descriptors: vec![
            Descriptor::ObjectShape(edgedb_protocol::descriptors::ObjectShapeDescriptor {
                elements: vec![edgedb_protocol::descriptors::ShapeElement {
                    name: "0".to_string(),
                    type_pos: 1,
                }],
            }),
            Descriptor::BaseScalar(BaseScalarTypeDescriptor { id: INT64_TYPE_ID }),
        ],
    }
}

fn bytes_ctx() -> DescriptorContext {
    DescriptorContext {
        root_pos: Some(0),
        proto: ProtocolVersion { major: 1, minor: 0 },
        descriptors: vec![
            Descriptor::ObjectShape(edgedb_protocol::descriptors::ObjectShapeDescriptor {
                elements: vec![edgedb_protocol::descriptors::ShapeElement {
                    name: "0".to_string(),
                    type_pos: 1,
                }],
            }),
            Descriptor::BaseScalar(BaseScalarTypeDescriptor {
                id: edgedb_protocol::values::BYTES_TYPE_ID,
            }),
        ],
    }
}

#[test]
fn int64_round_trips_through_encoded_slot() {
    for v in [0i64, 1, -1, 123_456_789, -123_456_789, i64::MAX, i64::MIN] {
        let args = vec![Int64Value { value: v }];
        let mut buf = BytesMut::new();
        assert_eq!(encode(&args, &int64_ctx(), &mut buf), Ok(()));
        // Skip the count field and the slot's reserved field.
        let payload = buf[8..].to_vec();
        assert_eq!(decode_int64(&payload), Some(v));
    }
}

#[test]
fn bytes_round_trip_through_encoded_slot() {
    for data in [vec![], vec![7u8], vec![1, 2, 3, 255, 0, 128]] {
        let args = vec![BytesValue { data: data.clone() }];
        let mut buf = BytesMut::new();
        assert_eq!(encode(&args, &bytes_ctx(), &mut buf), Ok(()));
        let payload = buf[8..].to_vec();
        assert_eq!(decode_bytes(&payload), Some(data));
    }
}

#[test]
fn int64_payload_layout_is_exact() {
    let args = vec![Int64Value { value: -2 }];
    let mut buf = BytesMut::new();
    assert_eq!(encode(&args, &int64_ctx(), &mut buf), Ok(()));
    let expected: Vec<u8> = vec![
        0, 0, 0, 1, // count
        0, 0, 0, 0, // reserved
        0, 0, 0, 8, // payload length
        0xFF, 0xFF, 0xFF, 0xFF, 0xFF, 0xFF, 0xFF, 0xFE, // -2 big-endian
    ];
    assert_eq!(&buf[..], &expected[..]);
}

#[test]
fn decode_int64_rejects_malformed_payloads() {
    assert_eq!(decode_int64(&vec![]), None);
    assert_eq!(decode_int64(&vec![0, 0, 0, 8]), None);
    // A wrong length prefix.
    assert_eq!(
        decode_int64(&vec![0, 0, 0, 7, 0, 0, 0, 0, 0, 0, 0, 1]),
        None
    );
    assert_eq!(
        decode_int64(&vec![0, 0, 0, 8, 0, 0, 0, 0, 0, 0, 0, 1]),
        Some(1)
    );
}

#[test]
fn decode_bytes_rejects_malformed_payloads() {
    assert_eq!(decode_bytes(&vec![]), None);
    assert_eq!(decode_bytes(&vec![0, 0, 0]), None);
    // Length prefix disagrees with the data.
    assert_eq!(decode_bytes(&vec![0, 0, 0, 2, 9]), None);
    assert_eq!(decode_bytes(&vec![0, 0, 0, 1, 9]), Some(vec![9]));
    assert_eq!(decode_bytes(&vec![0, 0, 0, 0]), Some(vec![]));
}

#[test]
fn positional_names_parse_like_decimal_numerals() {
    assert!(name_is_index("0", 0));
    assert!(name_is_index("12", 12));
    assert!(name_is_index("+7", 7));
    assert!(name_is_index("007", 7));
    assert!(!name_is_index("", 0));
    assert!(!name_is_index("+", 0));
    assert!(!name_is_index("1x", 1));
    assert!(!name_is_index("x1", 1));
    assert!(!name_is_index("-1", 1));
    assert!(!name_is_index("1", 2));
    assert!(!name_is_index("99999999999999999999999999", 7));
    assert!(name_is_index("18446744073709551615", usize::MAX));
}

#[test]
fn protocol_version_comparisons() {
    let v = ProtocolVersion {
        major: 0,
        minor: 12,
    };
    assert!(v.is_at_least(0, 12));
    assert!(!v.is_at_most(0, 11));
    let v = ProtocolVersion {
        major: 0,
        minor: 11,
    };
    assert!(!v.is_at_least(0, 12));
    assert!(v.is_at_most(0, 11));
    let v = ProtocolVersion { major: 1, minor: 0 };
    assert!(v.is_at_least(0, 12));
    assert!(!v.is_at_most(0, 11));
}
