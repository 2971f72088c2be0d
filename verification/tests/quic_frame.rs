use net_wire::quic::{
    QuicFrame, QuicFrameField, QuicFrameIter, QuicFrameParseError, QuicFrames,
    QuicStreamDirection, QuicVarIntLen, QuicVarIntParseError,
};

#[test]
fn padding_and_ping_sequence_iterates_in_order() {
    let bytes = [0x00, 0x01, 0x1e];
    let frames = QuicFrames::parse(&bytes).unwrap();
    assert_eq!(frames.as_bytes(), &bytes);
    let mut iter = frames.iter();
    assert!(matches!(iter.next(), Some(Ok(QuicFrame::Padding(_)))));
    assert!(matches!(iter.next(), Some(Ok(QuicFrame::Ping(_)))));
    let done = iter.next().unwrap().unwrap();
    assert!(matches!(done, QuicFrame::HandshakeDone(_)));
    assert_eq!(done.frame_type().value(), 0x1e);
    assert!(iter.next().is_none());
}

#[test]
fn empty_sequence_is_rejected() {
    assert_eq!(QuicFrames::parse(&[]), Err(QuicFrameParseError::EmptySequence));
}

#[test]
fn crypto_frame_exposes_offset_and_data() {
    let bytes = [0x06, 0x00, 0x03, b'a', b'b', b'c', 0x01];
    let (frame, suffix) = QuicFrame::parse(&bytes).unwrap();
    assert_eq!(suffix, &[0x01]);
    let QuicFrame::Crypto(crypto) = frame else { panic!("not CRYPTO") };
    assert_eq!(crypto.offset().value(), 0);
    assert_eq!(crypto.length().value(), 3);
    assert_eq!(crypto.crypto_data(), b"abc");
    assert_eq!(crypto.as_bytes(), &bytes[..6]);
}

#[test]
fn crypto_frame_reports_incomplete_data() {
    assert_eq!(
        QuicFrame::parse(&[0x06, 0x00, 0x05, 1]),
        Err(QuicFrameParseError::IncompleteBytes {
            field: QuicFrameField::CryptoData,
            offset: 3,
            required: 5,
            available: 1,
        })
    );
}

#[test]
fn stream_frame_with_every_optional_field() {
    let bytes = [0x0f, 0x04, 0x05, 0x02, b'h', b'i', 0x00];
    let (frame, suffix) = QuicFrame::parse(&bytes).unwrap();
    assert_eq!(suffix, &[0x00]);
    let QuicFrame::Stream(stream) = frame else { panic!("not STREAM") };
    assert_eq!(stream.stream_id().value(), 4);
    assert_eq!(stream.offset().unwrap().value(), 5);
    assert_eq!(stream.length().unwrap().value(), 2);
    assert_eq!(stream.stream_data(), b"hi");
    assert!(stream.fin());
}

#[test]
fn stream_frame_without_length_takes_the_rest() {
    let bytes = [0x08, 0x01, b'a', b'b', b'c'];
    let (frame, suffix) = QuicFrame::parse(&bytes).unwrap();
    assert!(suffix.is_empty());
    let QuicFrame::Stream(stream) = frame else { panic!("not STREAM") };
    assert!(stream.offset().is_none());
    assert!(stream.length().is_none());
    assert!(!stream.fin());
    assert_eq!(stream.stream_data(), b"abc");
}

#[test]
fn stream_range_past_the_limit_is_rejected() {
    let bytes = [0x0e, 0x00, 0xff, 0xff, 0xff, 0xff, 0xff, 0xff, 0xff, 0xff, 0x01, 0x00];
    assert_eq!(
        QuicFrame::parse(&bytes),
        Err(QuicFrameParseError::FieldRangeOutOfRange {
            field: QuicFrameField::StreamOffset,
            offset: 2,
            start: (1 << 62) - 1,
            length: 1,
            maximum: (1 << 62) - 1,
        })
    );
}

#[test]
fn ack_ranges_count_down_from_the_largest() {
    let bytes = [0x02, 10, 0, 1, 2, 1, 0];
    let (frame, suffix) = QuicFrame::parse(&bytes).unwrap();
    assert!(suffix.is_empty());
    let QuicFrame::Ack(ack) = frame else { panic!("not ACK") };
    assert_eq!(ack.largest_acknowledged().value(), 10);
    assert_eq!(ack.first_smallest_acknowledged(), 8);
    assert!(ack.ecn_counts().is_none());
    let mut ranges = ack.ranges();
    let range = ranges.next().unwrap();
    assert_eq!(range.gap().value(), 1);
    assert_eq!(range.largest_acknowledged(), 5);
    assert_eq!(range.smallest_acknowledged(), 5);
    assert_eq!(range.as_bytes(), &[1, 0]);
    assert!(ranges.next().is_none());
}

#[test]
fn ack_ecn_counts_follow_the_ranges() {
    let bytes = [0x03, 5, 0, 0, 0, 1, 2, 3];
    let (frame, _) = QuicFrame::parse(&bytes).unwrap();
    let QuicFrame::Ack(ack) = frame else { panic!("not ACK") };
    let counts = ack.ecn_counts().unwrap();
    assert_eq!(counts.ect0_count().value(), 1);
    assert_eq!(counts.ect1_count().value(), 2);
    assert_eq!(counts.ecn_ce_count().value(), 3);
    assert_eq!(counts.as_bytes(), &[1, 2, 3]);
}

#[test]
fn ack_underflow_reports_the_subtraction() {
    assert_eq!(
        QuicFrame::parse(&[0x02, 1, 0, 0, 5]),
        Err(QuicFrameParseError::AckRangeUnderflow {
            field: QuicFrameField::FirstAckRange,
            offset: 4,
            base: 1,
            value: 5,
            adjustment: 0,
        })
    );
    assert_eq!(
        QuicFrame::parse(&[0x02, 4, 0, 1, 0, 3, 0]),
        Err(QuicFrameParseError::AckRangeUnderflow {
            field: QuicFrameField::AckGap,
            offset: 5,
            base: 4,
            value: 3,
            adjustment: 2,
        })
    );
}

#[test]
fn new_connection_id_frame_reads_id_and_token() {
    let mut bytes = vec![0x18, 0x01, 0x00, 0x02, 0xab, 0xcd];
    bytes.extend_from_slice(&[0x5a; 16]);
    let (frame, suffix) = QuicFrame::parse(&bytes).unwrap();
    assert!(suffix.is_empty());
    let QuicFrame::NewConnectionId(ncid) = frame else { panic!("not NEW_CONNECTION_ID") };
    assert_eq!(ncid.sequence_number().value(), 1);
    assert_eq!(ncid.retire_prior_to().value(), 0);
    assert_eq!(ncid.connection_id_length(), 2);
    assert_eq!(ncid.connection_id().as_bytes(), &[0xab, 0xcd]);
    assert_eq!(ncid.stateless_reset_token(), &[0x5a; 16]);
}

#[test]
fn new_connection_id_errors() {
    assert_eq!(
        QuicFrame::parse(&[0x18, 0x01, 0x02]),
        Err(QuicFrameParseError::FieldValueExceedsField {
            field: QuicFrameField::RetirePriorTo,
            offset: 2,
            value: 2,
            maximum_field: QuicFrameField::SequenceNumber,
            maximum: 1,
        })
    );
    assert_eq!(
        QuicFrame::parse(&[0x18, 0x01, 0x00, 21]),
        Err(QuicFrameParseError::FieldValueOutOfRange {
            field: QuicFrameField::ConnectionIdLength,
            offset: 3,
            value: 21,
            maximum: 20,
        })
    );
    assert_eq!(
        QuicFrame::parse(&[0x18, 0x01, 0x00, 0]),
        Err(QuicFrameParseError::EmptyField { field: QuicFrameField::ConnectionId, offset: 4 })
    );
}

#[test]
fn max_streams_direction_and_limit() {
    let (frame, _) = QuicFrame::parse(&[0x13, 0x05]).unwrap();
    let QuicFrame::MaxStreams(max) = frame else { panic!("not MAX_STREAMS") };
    assert_eq!(max.direction(), QuicStreamDirection::Unidirectional);
    assert_eq!(max.maximum_streams().value(), 5);
    let (blocked, _) = QuicFrame::parse(&[0x16, 0x01]).unwrap();
    let QuicFrame::StreamsBlocked(blocked) = blocked else { panic!("not STREAMS_BLOCKED") };
    assert_eq!(blocked.direction(), QuicStreamDirection::Bidirectional);
    assert_eq!(
        QuicFrame::parse(&[0x12, 0xd0, 0, 0, 0, 0, 0, 0, 1]),
        Err(QuicFrameParseError::FieldValueOutOfRange {
            field: QuicFrameField::MaximumStreams,
            offset: 1,
            value: (1 << 60) + 1,
            maximum: 1 << 60,
        })
    );
}

#[test]
fn control_frames_read_their_fields() {
    let (frame, _) = QuicFrame::parse(&[0x04, 1, 2, 3]).unwrap();
    let QuicFrame::ResetStream(reset) = frame else { panic!("not RESET_STREAM") };
    assert_eq!(reset.stream_id().value(), 1);
    assert_eq!(reset.application_error_code().value(), 2);
    assert_eq!(reset.final_size().value(), 3);
    let (frame, _) = QuicFrame::parse(&[0x05, 7, 8]).unwrap();
    let QuicFrame::StopSending(stop) = frame else { panic!("not STOP_SENDING") };
    assert_eq!(stop.application_error_code().value(), 8);
    let (frame, _) = QuicFrame::parse(&[0x10, 0x40, 0x40]).unwrap();
    let QuicFrame::MaxData(max) = frame else { panic!("not MAX_DATA") };
    assert_eq!(max.maximum_data().value(), 64);
    let (frame, _) = QuicFrame::parse(&[0x11, 3, 9]).unwrap();
    let QuicFrame::MaxStreamData(max) = frame else { panic!("not MAX_STREAM_DATA") };
    assert_eq!(max.stream_id().value(), 3);
    assert_eq!(max.maximum_stream_data().value(), 9);
    let (frame, _) = QuicFrame::parse(&[0x14, 1]).unwrap();
    assert!(matches!(frame, QuicFrame::DataBlocked(_)));
    let (frame, _) = QuicFrame::parse(&[0x15, 1, 2]).unwrap();
    assert!(matches!(frame, QuicFrame::StreamDataBlocked(_)));
    let (frame, _) = QuicFrame::parse(&[0x19, 6]).unwrap();
    let QuicFrame::RetireConnectionId(retire) = frame else { panic!("not RETIRE_CONNECTION_ID") };
    assert_eq!(retire.sequence_number().value(), 6);
}

#[test]
fn path_frames_carry_eight_bytes() {
    let bytes = [0x1a, 1, 2, 3, 4, 5, 6, 7, 8];
    let (frame, _) = QuicFrame::parse(&bytes).unwrap();
    let QuicFrame::PathChallenge(challenge) = frame else { panic!("not PATH_CHALLENGE") };
    assert_eq!(challenge.data(), &[1, 2, 3, 4, 5, 6, 7, 8]);
    assert_eq!(
        QuicFrame::parse(&[0x1b, 1, 2]),
        Err(QuicFrameParseError::IncompleteBytes {
            field: QuicFrameField::PathData,
            offset: 1,
            required: 8,
            available: 2,
        })
    );
}

#[test]
fn transport_close_has_a_triggering_type() {
    let (frame, _) = QuicFrame::parse(&[0x1c, 0x0a, 0x06, 0x02, b'n', b'o']).unwrap();
    let QuicFrame::ConnectionClose(close) = frame else { panic!("not CONNECTION_CLOSE") };
    assert_eq!(close.error_code().value(), 10);
    assert_eq!(close.triggering_frame_type().unwrap().value(), 6);
    assert_eq!(close.reason_phrase(), b"no");
    let (frame, _) = QuicFrame::parse(&[0x1d, 0x01, 0x00]).unwrap();
    let QuicFrame::ConnectionClose(close) = frame else { panic!("not CONNECTION_CLOSE") };
    assert!(close.triggering_frame_type().is_none());
    assert!(close.reason_phrase().is_empty());
}

#[test]
fn new_token_must_not_be_empty() {
    assert_eq!(
        QuicFrame::parse(&[0x07, 0x00]),
        Err(QuicFrameParseError::EmptyField { field: QuicFrameField::Token, offset: 2 })
    );
    let (frame, _) = QuicFrame::parse(&[0x07, 0x01, 0x99]).unwrap();
    let QuicFrame::NewToken(token) = frame else { panic!("not NEW_TOKEN") };
    assert_eq!(token.token(), &[0x99]);
}

#[test]
fn unknown_and_truncated_frame_types_are_reported() {
    assert_eq!(
        QuicFrame::parse(&[0x1f]),
        Err(QuicFrameParseError::UnsupportedFrameType {
            value: 0x1f,
            length: QuicVarIntLen::One,
            offset: 0,
        })
    );
    assert_eq!(
        QuicFrame::parse(&[0x40]),
        Err(QuicFrameParseError::FrameType {
            offset: 0,
            error: QuicVarIntParseError::Incomplete { required: 2, available: 1 },
        })
    );
}

#[test]
fn sequence_errors_carry_absolute_offsets() {
    assert_eq!(
        QuicFrames::parse(&[0x01, 0x01, 0x1f]),
        Err(QuicFrameParseError::UnsupportedFrameType {
            value: 0x1f,
            length: QuicVarIntLen::One,
            offset: 2,
        })
    );
    let bytes = [0x01, 0x06, 0x00];
    let mut iter = QuicFrameIter::new(&bytes);
    assert!(matches!(iter.next(), Some(Ok(QuicFrame::Ping(_)))));
    assert_eq!(
        iter.next(),
        Some(Err(QuicFrameParseError::Field {
            field: QuicFrameField::CryptoLength,
            offset: 3,
            error: QuicVarIntParseError::Incomplete { required: 1, available: 0 },
        }))
    );
    assert!(iter.next().is_none());
}

#[test]
fn frame_parse_partitions_input_and_keeps_the_type_span() {
    let bytes = [0x40, 0x01, 0xaa];
    let (frame, suffix) = QuicFrame::parse(&bytes).unwrap();
    assert!(matches!(frame, QuicFrame::Ping(_)));
    assert_eq!(frame.as_bytes(), &[0x40, 0x01]);
    assert_eq!(suffix, &[0xaa]);
    let mut joined = frame.as_bytes().to_vec();
    joined.extend_from_slice(suffix);
    assert_eq!(joined, bytes);
    let frame_type = frame.frame_type();
    assert_eq!(frame_type.value(), 1);
    assert_eq!(frame_type.encoded_len(), QuicVarIntLen::Two);
    assert_eq!(frame_type.as_bytes(), &bytes[..frame_type.byte_len()]);
    assert!(frame.as_bytes().starts_with(frame_type.as_bytes()));
}

#[test]
fn frames_parse_agrees_with_iteration() {
    let bad = [0x01, 0x1f];
    let error = QuicFrameParseError::UnsupportedFrameType {
        value: 0x1f,
        length: QuicVarIntLen::One,
        offset: 1,
    };
    assert_eq!(QuicFrames::parse(&bad), Err(error));
    let mut iter = QuicFrameIter::new(&bad);
    assert!(matches!(iter.next(), Some(Ok(QuicFrame::Ping(_)))));
    assert_eq!(iter.next(), Some(Err(error)));
    assert!(iter.next().is_none());

    let good = [0x01, 0x06, 0x00, 0x02, 0xaa, 0xbb, 0x1e];
    let frames = QuicFrames::parse(&good).unwrap();
    let mut joined = Vec::new();
    let mut iter = frames.iter();
    let mut count = 0;
    while let Some(item) = iter.next() {
        joined.extend_from_slice(item.unwrap().as_bytes());
        count += 1;
    }
    assert_eq!(count, 3);
    assert_eq!(joined, good);
}

#[test]
fn ack_ranges_descend_for_the_declared_count() {
    let bytes = [0x02, 20, 0, 2, 1, 2, 3, 0, 0];
    let (frame, suffix) = QuicFrame::parse(&bytes).unwrap();
    assert!(suffix.is_empty());
    let QuicFrame::Ack(ack) = frame else { panic!("not ACK") };
    assert_eq!(ack.first_smallest_acknowledged(), 20 - 1);
    for _ in 0..2 {
        let mut ranges = ack.ranges();
        let first = ranges.next().unwrap();
        assert_eq!(first.largest_acknowledged(), 19 - 2 - 2);
        assert_eq!(first.smallest_acknowledged(), 15 - 3);
        let second = ranges.next().unwrap();
        assert_eq!(second.largest_acknowledged(), 12 - 0 - 2);
        assert_eq!(second.smallest_acknowledged(), 10);
        assert!(ranges.next().is_none());
        assert!(ranges.next().is_none());
    }
}
