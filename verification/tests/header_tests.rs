use ibc::client_error::ClientError;
use prost::Message;
use ibc::header::{Any, MockHeader, RawHeight, RawMockHeader};
use ibc::height::Height;
use ibc::timestamp::Timestamp;

#[test]
fn encode_any() {
    let header = MockHeader::new(Height::new(1, 10).expect("Never fails"))
        .with_timestamp(Timestamp::none());
    let bytes = header.encode_vec();

    assert_eq!(
        &bytes,
        &[
            10, 16, 47, 105, 98, 99, 46, 109, 111, 99, 107, 46, 72, 101, 97, 100, 101, 114, 18,
            6, 10, 4, 8, 1, 16, 10
        ]
    );
}

#[test]
fn encode_matches_reference_protobuf() {
    let raw = ibc_proto::ibc::mock::Header {
        height: Some(ibc_proto::ibc::core::client::v1::Height {
            revision_number: 1,
            revision_height: 10,
        }),
        timestamp: 0,
    };
    let any = ibc_proto::google::protobuf::Any {
        type_url: "/ibc.mock.Header".to_string(),
        value: raw.encode_to_vec(),
    };
    let reference = any.encode_to_vec();

    let header = MockHeader::new(Height::new(1, 10).unwrap()).with_timestamp(Timestamp::none());
    assert_eq!(header.encode_vec(), reference);
}

#[test]
fn encode_matches_reference_protobuf_with_timestamp() {
    let raw = ibc_proto::ibc::mock::Header {
        height: Some(ibc_proto::ibc::core::client::v1::Height {
            revision_number: 0,
            revision_height: 3,
        }),
        timestamp: 1_700_000_000_000_000_000,
    };
    let any = ibc_proto::google::protobuf::Any {
        type_url: "/ibc.mock.Header".to_string(),
        value: raw.encode_to_vec(),
    };
    let reference = any.encode_to_vec();

    let header = MockHeader::new(Height::new(0, 3).unwrap())
        .with_timestamp(Timestamp::from_nanoseconds(1_700_000_000_000_000_000));
    assert_eq!(header.encode_vec(), reference);
}

#[test]
fn header_round_trip() {
    let cases = [
        MockHeader::new(Height::new(1, 10).unwrap()),
        MockHeader::new(Height::new(0, 1).unwrap()),
        MockHeader::new(Height::new(u64::MAX, u64::MAX).unwrap())
            .with_timestamp(Timestamp::from_nanoseconds(u64::MAX)),
        MockHeader::new(Height::new(7, 300).unwrap())
            .with_timestamp(Timestamp::from_nanoseconds(123_456_789)),
        MockHeader::default(),
    ];
    for header in cases {
        let bytes = header.encode_vec();
        assert_eq!(MockHeader::decode_vec(&bytes), Ok(header));
    }
}

#[test]
fn decode_rejects_unknown_type_url() {
    let header = MockHeader::new(Height::new(1, 10).unwrap());
    let any = Any {
        type_url: b"/ibc.mock.Other".to_vec(),
        value: header.to_any().value,
    };
    match MockHeader::try_from_any(any) {
        Err(ClientError::UnknownHeaderType { header_type }) => {
            assert_eq!(header_type, b"/ibc.mock.Other".to_vec());
        }
        other => panic!("expected UnknownHeaderType, got {:?}", other),
    }
}

#[test]
fn decode_rejects_missing_height() {
    let raw = RawMockHeader {
        height: None,
        timestamp: 5,
    };
    assert_eq!(
        MockHeader::try_from_raw(raw),
        Err(ClientError::MissingRawHeader)
    );
    let zero = RawMockHeader {
        height: Some(RawHeight {
            revision_number: 1,
            revision_height: 0,
        }),
        timestamp: 5,
    };
    assert_eq!(
        MockHeader::try_from_raw(zero),
        Err(ClientError::MissingRawHeader)
    );
}

#[test]
fn decode_rejects_garbage() {
    let garbage = vec![99u8, 1, 2, 3];
    assert!(matches!(
        MockHeader::decode_vec(&garbage),
        Err(ClientError::InvalidRawHeader(_))
    ));
}

#[test]
fn height_basics() {
    assert_eq!(Height::new(3, 0), Err(ClientError::InvalidHeight));
    let min = Height::min(4);
    assert_eq!(min.revision_number, 4);
    assert_eq!(min.revision_height, 1);
    let a = Height::new(1, 5).unwrap();
    let b = Height::new(1, 6).unwrap();
    let c = Height::new(2, 1).unwrap();
    assert!(a.lt(&b));
    assert!(b.lt(&c));
    assert!(a.lt(&c));
    assert!(!b.lt(&a));
    assert!(c.gte(&a));
}

#[test]
fn mock_header_accessors() {
    let h = Height::new(2, 9).unwrap();
    let header = MockHeader::new(h).with_timestamp(Timestamp::from_nanoseconds(77));
    assert_eq!(header.height(), h);
    assert_eq!(header.timestamp().nanoseconds(), 77);
    assert!(!MockHeader::new(h).timestamp().is_set());
}
