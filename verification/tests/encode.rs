use bytes::BytesMut;
use edgedb_protocol::descriptors::{
    BaseScalarTypeDescriptor, Descriptor, DescriptorContext, DescriptorKind,
    ObjectShapeDescriptor, ProtocolVersion, ShapeElement, TupleDescriptor,
};
use edgedb_protocol::encode::encode;
use edgedb_protocol::errors::{EncodeError, Mismatch};
use edgedb_protocol::values::{BytesValue, Int64Value, BYTES_TYPE_ID, INT64_TYPE_ID};

fn ctx(
    root_pos: Option<u16>,
    major: u16,
    minor: u16,
    descriptors: Vec<Descriptor>,
) -> DescriptorContext {
    DescriptorContext {
        root_pos,
        proto: ProtocolVersion { major, minor },
        descriptors,
    }
}

fn shape(names: &[&str], type_pos: u16) -> Descriptor {
    Descriptor::ObjectShape(ObjectShapeDescriptor {
        elements: names
            .iter()
            .map(|n| ShapeElement {
                name: (*n).to_string(),
                type_pos,
            })
            .collect(),
    })
}

fn int64_scalar() -> Descriptor {
    Descriptor::BaseScalar(BaseScalarTypeDescriptor { id: INT64_TYPE_ID })
}

fn bytes_scalar() -> Descriptor {
    Descriptor::BaseScalar(BaseScalarTypeDescriptor { id: BYTES_TYPE_ID })
}

fn int64_slot(v: i64) -> Vec<u8> {
    let mut slot = vec![0, 0, 0, 0, 0, 0, 0, 8];
    slot.extend_from_slice(&v.to_be_bytes());
    slot
}

#[test]
fn object_shape_block_layout() {
    let c = ctx(Some(0), 1, 0, vec![shape(&["0", "1"], 1), int64_scalar()]);
    let args = vec![Int64Value { value: 1 }, Int64Value { value: -2 }];
    let mut buf = BytesMut::new();
    assert_eq!(encode(&args, &c, &mut buf), Ok(()));
    let mut expected = vec![0, 0, 0, 2];
    expected.extend_from_slice(&int64_slot(1));
    expected.extend_from_slice(&int64_slot(-2));
    assert_eq!(&buf[..], &expected[..]);
}

#[test]
fn tuple_block_layout() {
    let c = ctx(
        Some(0),
        0,
        11,
        vec![
            Descriptor::Tuple(TupleDescriptor {
                element_types: vec![1, 1],
            }),
            int64_scalar(),
        ],
    );
    let args = vec![Int64Value { value: 1 }, Int64Value { value: -2 }];
    let mut buf = BytesMut::new();
    assert_eq!(encode(&args, &c, &mut buf), Ok(()));
    let mut expected = vec![0, 0, 0, 2];
    expected.extend_from_slice(&int64_slot(1));
    expected.extend_from_slice(&int64_slot(-2));
    assert_eq!(&buf[..], &expected[..]);
}

#[test]
fn empty_block_under_each_era() {
    let c = ctx(Some(0), 1, 0, vec![shape(&[], 0)]);
    let args: Vec<Int64Value> = vec![];
    let mut buf = BytesMut::new();
    assert_eq!(encode(&args, &c, &mut buf), Ok(()));
    assert_eq!(&buf[..], &[0, 0, 0, 0][..]);

    let c = ctx(
        Some(0),
        0,
        11,
        vec![Descriptor::Tuple(TupleDescriptor {
            element_types: vec![],
        })],
    );
    let mut buf = BytesMut::new();
    assert_eq!(encode(&args, &c, &mut buf), Ok(()));
    assert_eq!(&buf[..], &[0, 0, 0, 0][..]);
}

#[test]
fn field_count_mismatch_object_era() {
    let c = ctx(Some(0), 1, 0, vec![shape(&["0", "1"], 1), int64_scalar()]);
    let args = vec![
        Int64Value { value: 1 },
        Int64Value { value: 2 },
        Int64Value { value: 3 },
    ];
    let mut buf = BytesMut::new();
    assert_eq!(
        encode(&args, &c, &mut buf),
        Err(EncodeError::FieldCountMismatch {
            expected: 2,
            actual: 3,
        })
    );
    assert!(buf.is_empty());
}

#[test]
fn field_count_mismatch_tuple_era() {
    let c = ctx(
        Some(0),
        0,
        11,
        vec![
            Descriptor::Tuple(TupleDescriptor {
                element_types: vec![1, 1],
            }),
            int64_scalar(),
        ],
    );
    let args = vec![
        Int64Value { value: 1 },
        Int64Value { value: 2 },
        Int64Value { value: 3 },
    ];
    let mut buf = BytesMut::new();
    assert_eq!(
        encode(&args, &c, &mut buf),
        Err(EncodeError::FieldCountMismatch {
            expected: 2,
            actual: 3,
        })
    );
    assert!(buf.is_empty());
}

#[test]
fn wrong_element_name_reports_index_and_name() {
    let c = ctx(Some(0), 1, 0, vec![shape(&["0", "x"], 1), int64_scalar()]);
    let args = vec![Int64Value { value: 1 }, Int64Value { value: 2 }];
    let mut buf = BytesMut::new();
    assert_eq!(
        encode(&args, &c, &mut buf),
        Err(EncodeError::DescriptorMismatch(Mismatch::WrongElementName {
            index: 1,
            name: "x".to_string(),
        }))
    );
    assert!(buf.is_empty());
}

#[test]
fn wrong_type_object_era_names_object() {
    let c = ctx(
        Some(0),
        0,
        12,
        vec![
            Descriptor::Tuple(TupleDescriptor {
                element_types: vec![1],
            }),
            int64_scalar(),
        ],
    );
    let args = vec![Int64Value { value: 1 }];
    let mut buf = BytesMut::new();
    assert_eq!(
        encode(&args, &c, &mut buf),
        Err(EncodeError::WrongType {
            found: DescriptorKind::Tuple,
            expected: DescriptorKind::ObjectShape,
        })
    );
    assert_eq!(DescriptorKind::ObjectShape.label(), "object");
}

#[test]
fn wrong_type_tuple_era_names_tuple() {
    let c = ctx(Some(0), 0, 11, vec![shape(&["0"], 1), int64_scalar()]);
    let args = vec![Int64Value { value: 1 }];
    let mut buf = BytesMut::new();
    assert_eq!(
        encode(&args, &c, &mut buf),
        Err(EncodeError::WrongType {
            found: DescriptorKind::ObjectShape,
            expected: DescriptorKind::Tuple,
        })
    );
    assert_eq!(DescriptorKind::Tuple.label(), "tuple");
}

#[test]
fn no_root_position_fails_even_with_zero_arguments() {
    let c = ctx(None, 1, 0, vec![]);
    let args: Vec<Int64Value> = vec![];
    let mut buf = BytesMut::new();
    assert_eq!(
        encode(&args, &c, &mut buf),
        Err(EncodeError::DescriptorMismatch(
            Mismatch::NoArgumentsExpected { provided: 0 }
        ))
    );
}

#[test]
fn no_root_position_reports_count_supplied() {
    let c = ctx(None, 1, 0, vec![]);
    let args = vec![Int64Value { value: 4 }, Int64Value { value: 5 }];
    let mut buf = BytesMut::new();
    assert_eq!(
        encode(&args, &c, &mut buf),
        Err(EncodeError::DescriptorMismatch(
            Mismatch::NoArgumentsExpected { provided: 2 }
        ))
    );
}

#[test]
fn root_lookup_failure_passes_through() {
    let c = ctx(Some(7), 1, 0, vec![shape(&["0"], 0)]);
    let args = vec![Int64Value { value: 1 }];
    let mut buf = BytesMut::new();
    assert_eq!(
        encode(&args, &c, &mut buf),
        Err(EncodeError::LookupFailed { position: 7 })
    );
}

#[test]
fn value_type_mismatch_propagates() {
    let c = ctx(Some(0), 1, 0, vec![shape(&["0"], 1), bytes_scalar()]);
    let args = vec![Int64Value { value: 1 }];
    let mut buf = BytesMut::new();
    assert_eq!(
        encode(&args, &c, &mut buf),
        Err(EncodeError::ValueMismatch { position: 1 })
    );
    assert!(buf.is_empty());
}

#[test]
fn value_type_lookup_failure_propagates() {
    let c = ctx(Some(0), 1, 0, vec![shape(&["0"], 9)]);
    let args = vec![Int64Value { value: 1 }];
    let mut buf = BytesMut::new();
    assert_eq!(
        encode(&args, &c, &mut buf),
        Err(EncodeError::LookupFailed { position: 9 })
    );
}

#[test]
fn validation_failure_leaves_prior_contents() {
    let mut buf = BytesMut::from(&b"abc"[..]);

    let c = ctx(Some(0), 1, 0, vec![shape(&["0", "1"], 1), int64_scalar()]);
    let args = vec![Int64Value { value: 1 }];
    assert!(encode(&args, &c, &mut buf).is_err());
    assert_eq!(&buf[..], b"abc");

    let c = ctx(Some(0), 1, 0, vec![shape(&["x"], 1), int64_scalar()]);
    assert!(encode(&args, &c, &mut buf).is_err());
    assert_eq!(&buf[..], b"abc");

    let c = ctx(None, 1, 0, vec![]);
    assert!(encode(&args, &c, &mut buf).is_err());
    assert_eq!(&buf[..], b"abc");

    let c = ctx(Some(0), 0, 11, vec![shape(&["0"], 1), int64_scalar()]);
    assert!(encode(&args, &c, &mut buf).is_err());
    assert_eq!(&buf[..], b"abc");
}

#[test]
fn success_appends_after_prior_contents() {
    let mut buf = BytesMut::from(&b"hdr"[..]);
    let c = ctx(Some(0), 1, 0, vec![shape(&["0"], 1), int64_scalar()]);
    let args = vec![Int64Value { value: 3 }];
    assert_eq!(encode(&args, &c, &mut buf), Ok(()));
    let mut expected = b"hdr".to_vec();
    expected.extend_from_slice(&[0, 0, 0, 1]);
    expected.extend_from_slice(&int64_slot(3));
    assert_eq!(&buf[..], &expected[..]);
}

#[test]
fn signed_names_and_leading_zeros_parse_as_indices() {
    let c = ctx(Some(0), 1, 0, vec![shape(&["+0", "01"], 1), int64_scalar()]);
    let args = vec![Int64Value { value: 1 }, Int64Value { value: 2 }];
    let mut buf = BytesMut::new();
    assert_eq!(encode(&args, &c, &mut buf), Ok(()));
}

#[test]
fn empty_and_overlong_names_are_rejected() {
    let c = ctx(Some(0), 1, 0, vec![shape(&[""], 1), int64_scalar()]);
    let args = vec![Int64Value { value: 1 }];
    let mut buf = BytesMut::new();
    assert_eq!(
        encode(&args, &c, &mut buf),
        Err(EncodeError::DescriptorMismatch(Mismatch::WrongElementName {
            index: 0,
            name: "".to_string(),
        }))
    );

    let big = "9999999999999999999999999999";
    let c = ctx(Some(0), 1, 0, vec![shape(&[big], 1), int64_scalar()]);
    let mut buf = BytesMut::new();
    assert_eq!(
        encode(&args, &c, &mut buf),
        Err(EncodeError::DescriptorMismatch(Mismatch::WrongElementName {
            index: 0,
            name: big.to_string(),
        }))
    );
}

#[test]
fn bytes_values_encode_in_order() {
    let c = ctx(Some(0), 1, 0, vec![shape(&["0", "1"], 1), bytes_scalar()]);
    let args = vec![
        BytesValue {
            data: vec![0xAA, 0xBB],
        },
        BytesValue { data: vec![] },
    ];
    let mut buf = BytesMut::new();
    assert_eq!(encode(&args, &c, &mut buf), Ok(()));
    let expected = vec![
        0, 0, 0, 2, // count
        0, 0, 0, 0, 0, 0, 0, 2, 0xAA, 0xBB, // first slot
        0, 0, 0, 0, 0, 0, 0, 0, // second slot: an empty bytes value
    ];
    assert_eq!(&buf[..], &expected[..]);
}
