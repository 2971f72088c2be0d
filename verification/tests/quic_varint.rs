use net_wire::quic::{
    QuicVarInt, QuicVarIntBuildError, QuicVarIntBuilder, QuicVarIntCodec, QuicVarIntCodecValue,
    QuicVarIntLen, QuicVarIntParseError,
};

const MAX_VALUE: u64 = (1 << 62) - 1;

#[test]
fn validate_reports_each_prefix_extent_and_truncation() {
    assert_eq!(
        QuicVarIntCodec::validate_prefix(&[]),
        Err(QuicVarIntParseError::Incomplete {
            required: 1,
            available: 0,
        })
    );
    for (first, required) in [(0x00, 1), (0x40, 2), (0x80, 4), (0xc0, 8)] {
        let bytes = [first; 8];
        let extent = QuicVarIntCodec::validate_prefix(&bytes).unwrap();
        assert_eq!(extent.encoded_len().get(), required);
        for available in 1..required {
            assert_eq!(
                QuicVarIntCodec::validate_prefix(&bytes[..available]),
                Err(QuicVarIntParseError::Incomplete {
                    required,
                    available,
                })
            );
        }
    }
}

#[test]
fn decode_preserves_the_exact_noncanonical_span() {
    let bytes = [0x40, 0x25, 0xee];
    let extent = QuicVarIntCodec::validate_prefix(&bytes).unwrap();
    let (exact, suffix) = extent.split_input(&bytes).unwrap();
    assert_eq!(suffix, &[0xee]);
    let decoded = QuicVarIntCodec::decode(exact);
    assert_eq!(decoded.value(), 37);
    assert_eq!(decoded.length(), QuicVarIntLen::Two);
    assert!(!decoded.requested_length());
}

#[test]
fn plans_exact_bytes_that_validate_and_decode_to_the_request() {
    for (value, requested, expected) in [
        (37, None, &[0x25][..]),
        (37, Some(QuicVarIntLen::Two), &[0x40, 0x25][..]),
        (16_384, None, &[0x80, 0x00, 0x40, 0x00][..]),
        (
            MAX_VALUE,
            None,
            &[0xff, 0xff, 0xff, 0xff, 0xff, 0xff, 0xff, 0xff][..],
        ),
    ] {
        let plan =
            QuicVarIntCodec::plan(QuicVarIntCodecValue::encoding(value, requested)).unwrap();
        let mut encoded = [0; 8];
        let output = &mut encoded[..plan.encoded_len()];
        plan.write_into(output);
        assert_eq!(output, expected);

        let extent = QuicVarIntCodec::validate_prefix(output).unwrap();
        assert_eq!(extent.encoded_len().get(), plan.encoded_len());
        let decoded = QuicVarIntCodec::decode(output);
        assert_eq!(decoded.value(), value);
        assert_eq!(decoded.length(), plan.length());
        assert!(!decoded.requested_length());
    }
}

#[test]
fn planning_a_decoded_noncanonical_value_uses_the_canonical_width() {
    let decoded = QuicVarIntCodec::decode(&[0x40, 0x25]);
    let plan = QuicVarIntCodec::plan(decoded).unwrap();
    let mut output = [0; 1];
    plan.write_into(&mut output);
    assert_eq!(output, [0x25]);
}

#[test]
fn varint_parse_excludes_suffix_and_reports_truncation() {
    let bytes = [0x7b, 0xbd, 0x01];
    let v = QuicVarInt::parse(&bytes).unwrap();
    assert_eq!(v.value(), 15_293);
    assert_eq!(v.as_bytes(), &[0x7b, 0xbd]);
    assert_eq!(v.encoded_len(), QuicVarIntLen::Two);
    assert!(v.is_canonical());
    assert_eq!(
        QuicVarInt::parse(&[0xc0, 1, 2]),
        Err(QuicVarIntParseError::Incomplete {
            required: 8,
            available: 3
        })
    );
}

#[test]
fn varint_builder_roundtrips_through_parse() {
    let mut buffer = [0u8; 8];
    let built = QuicVarIntBuilder::new(&mut buffer, 494_878_333).build().unwrap();
    assert_eq!(built.as_bytes(), &[0x9d, 0x7f, 0x3e, 0x7d]);
    let parsed = QuicVarInt::parse(built.as_bytes()).unwrap();
    assert_eq!(parsed.value(), 494_878_333);

    let mut small = [0u8; 1];
    assert_eq!(
        QuicVarIntBuilder::new(&mut small, 64).build(),
        Err(QuicVarIntBuildError::BufferTooShort {
            required: 2,
            available: 1
        })
    );
    let mut any = [0u8; 8];
    assert_eq!(
        QuicVarIntBuilder::new(&mut any, 64)
            .with_len(QuicVarIntLen::One)
            .build(),
        Err(QuicVarIntBuildError::WidthTooSmall {
            length: QuicVarIntLen::One,
            value: 64
        })
    );
    assert_eq!(
        QuicVarIntBuilder::new(&mut any, MAX_VALUE + 1).build(),
        Err(QuicVarIntBuildError::ValueTooLarge {
            value: MAX_VALUE + 1
        })
    );
    let noncanonical = QuicVarIntBuilder::new(&mut any, 5)
        .with_len(QuicVarIntLen::Eight)
        .build()
        .unwrap();
    assert!(!noncanonical.is_canonical());
    assert_eq!(noncanonical.value(), 5);
}
