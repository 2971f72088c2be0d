use net_wire::quic::{
    QuicConnectionId, QuicDatagram, QuicHandshakePacketBuilder, QuicInitialPacketBuilder,
    QuicLongHeader, QuicLongPacketType, QuicPacket, QuicPacketBuildError, QuicPacketParseError,
    QuicPackets, QuicProtectedLongPacket, QuicRetryPacket, QuicRetryPacketBuilder,
    QuicShortHeader, QuicShortHeaderContext, QuicShortPacketBuilder, QuicVarIntLen, QuicVersion,
    QuicVersionNegotiationPacket, QuicVersionNegotiationPacketBuilder,
};

fn expected_initial() -> Vec<u8> {
    let mut bytes = vec![0xc1, 0, 0, 0, 1, 4, 1, 2, 3, 4, 2, 5, 6, 1, 0xaa, 20];
    bytes.extend_from_slice(&[0x11; 20]);
    bytes
}

#[test]
fn initial_builder_writes_the_exact_canonical_layout() {
    let mut buffer = [0u8; 64];
    let remainder = [0x11u8; 20];
    let packet = QuicInitialPacketBuilder::new(
        &mut buffer,
        QuicVersion::V1(),
        0x01,
        QuicConnectionId::new(&[1, 2, 3, 4]),
        QuicConnectionId::new(&[5, 6]),
        &[0xaa],
        &remainder,
    )
    .build()
    .unwrap();
    assert_eq!(packet.as_bytes(), &expected_initial()[..]);
    assert_eq!(packet.packet_number_offset(), 16);
}

#[test]
fn initial_packet_parse_reads_every_field() {
    let bytes = expected_initial();
    let (packet, suffix) = QuicProtectedLongPacket::parse(&bytes).unwrap();
    assert!(suffix.is_empty());
    assert_eq!(packet.version().raw(), 1);
    assert_eq!(packet.packet_type(), QuicLongPacketType::Initial);
    assert_eq!(packet.token(), Some(&[0xaa][..]));
    assert_eq!(packet.token_length().unwrap().value(), 1);
    assert_eq!(packet.length().value(), 20);
    assert_eq!(packet.protected_remainder(), &[0x11; 20]);
    assert_eq!(packet.header().destination_connection_id().as_bytes(), &[1, 2, 3, 4]);
    assert_eq!(packet.header().source_connection_id().as_bytes(), &[5, 6]);
    assert_eq!(packet.as_bytes().len(), bytes.len());
}

#[test]
fn explicit_noncanonical_widths_are_preserved() {
    let mut buffer = [0u8; 64];
    let remainder = [0x22u8; 20];
    let packet = QuicInitialPacketBuilder::new(
        &mut buffer,
        QuicVersion::V1(),
        0,
        QuicConnectionId::new(&[]),
        QuicConnectionId::new(&[]),
        &[],
        &remainder,
    )
    .with_token_length_len(QuicVarIntLen::Two)
    .with_length_len(QuicVarIntLen::Four)
    .build()
    .unwrap();
    let token_length = packet.token_length().unwrap();
    assert_eq!(token_length.as_bytes(), &[0x40, 0x00]);
    assert_eq!(packet.length().as_bytes(), &[0x80, 0, 0, 20]);
    let (reparsed, _) = QuicProtectedLongPacket::parse(packet.as_bytes()).unwrap();
    assert_eq!(reparsed.length().encoded_len(), QuicVarIntLen::Four);
    assert!(!reparsed.length().is_canonical());
}

#[test]
fn long_builder_reports_its_errors() {
    let mut buffer = [0u8; 64];
    let remainder = [0u8; 20];
    assert_eq!(
        QuicHandshakePacketBuilder::new(
            &mut buffer,
            QuicVersion::V1(),
            0x10,
            QuicConnectionId::new(&[]),
            QuicConnectionId::new(&[]),
            &remainder,
        )
        .build()
        .err(),
        Some(QuicPacketBuildError::ProtectedLowBitsOutOfRange { maximum: 0x0f, actual: 0x10 })
    );
    let long_id = [0u8; 21];
    assert!(matches!(
        QuicHandshakePacketBuilder::new(
            &mut buffer,
            QuicVersion::V1(),
            0,
            QuicConnectionId::new(&long_id),
            QuicConnectionId::new(&[]),
            &remainder,
        )
        .build(),
        Err(QuicPacketBuildError::ConnectionIdTooLong { .. })
    ));
    let mut small = [0u8; 10];
    assert!(matches!(
        QuicHandshakePacketBuilder::new(
            &mut small,
            QuicVersion::V1(),
            0,
            QuicConnectionId::new(&[]),
            QuicConnectionId::new(&[]),
            &remainder,
        )
        .build(),
        Err(QuicPacketBuildError::BufferTooShort { .. })
    ));
}

#[test]
fn version_negotiation_roundtrip_lists_versions_in_order() {
    let mut buffer = [0u8; 32];
    let versions = [QuicVersion::V1(), QuicVersion::new(0x0a0a_0a0a)];
    let packet = QuicVersionNegotiationPacketBuilder::new(
        &mut buffer,
        0x05,
        QuicConnectionId::new(&[9]),
        QuicConnectionId::new(&[8, 7]),
        &versions,
    )
    .build()
    .unwrap();
    let len = packet.as_bytes().len();
    assert_eq!(len, 1 + 4 + 1 + 1 + 1 + 2 + 8);
    let parsed = QuicVersionNegotiationPacket::parse(&buffer[..len]).unwrap();
    let mut iter = parsed.versions();
    assert_eq!(iter.len(), 2);
    assert_eq!(iter.size_hint(), (2, Some(2)));
    assert_eq!(iter.next().map(|v| v.raw()), Some(1));
    let reserved = iter.next().unwrap();
    assert!(reserved.is_reserved());
    assert!(iter.next().is_none());
    assert_eq!(
        QuicVersionNegotiationPacketBuilder::new(
            &mut buffer,
            0,
            QuicConnectionId::new(&[]),
            QuicConnectionId::new(&[]),
            &[],
        )
        .build()
        .err(),
        Some(QuicPacketBuildError::EmptyVersionList)
    );
}

#[test]
fn retry_roundtrip_keeps_token_and_tag() {
    let mut buffer = [0u8; 64];
    let tag = [0x77u8; 16];
    let packet = QuicRetryPacketBuilder::new(
        &mut buffer,
        QuicVersion::V1(),
        0x03,
        QuicConnectionId::new(&[1]),
        QuicConnectionId::new(&[2]),
        &[0xde, 0xad],
        &tag,
    )
    .build()
    .unwrap();
    let len = packet.as_bytes().len();
    let parsed = QuicRetryPacket::parse(&buffer[..len]).unwrap();
    assert_eq!(parsed.packet_type(), QuicLongPacketType::Retry);
    assert_eq!(parsed.token(), &[0xde, 0xad]);
    assert_eq!(parsed.integrity_tag(), &tag);
    assert_eq!(
        QuicRetryPacketBuilder::new(
            &mut buffer,
            QuicVersion::V1(),
            0,
            QuicConnectionId::new(&[]),
            QuicConnectionId::new(&[]),
            &[],
            &tag,
        )
        .build()
        .err(),
        Some(QuicPacketBuildError::EmptyRetryToken)
    );
}

#[test]
fn short_packet_roundtrip_with_context() {
    let mut buffer = [0u8; 32];
    let remainder = [0x33u8; 20];
    let packet = QuicShortPacketBuilder::new(
        &mut buffer,
        true,
        0x02,
        QuicConnectionId::new(&[4, 4, 4]),
        &remainder,
    )
    .build()
    .unwrap();
    let len = packet.as_bytes().len();
    assert_eq!(len, 1 + 3 + 20);
    let parsed = QuicShortHeader::parse(&buffer[..len], QuicShortHeaderContext::new(3)).unwrap();
    assert_eq!(parsed.destination_connection_id().as_bytes(), &[4, 4, 4]);
    assert_eq!(parsed.protected_remainder(), &remainder);
    assert!(parsed.has_fixed_bit());
    assert_eq!(parsed.first_byte() & 0x20, 0x20);
}

#[test]
fn long_header_parse_rejects_short_form_and_empty_input() {
    assert_eq!(
        QuicLongHeader::parse(&[]),
        Err(QuicPacketParseError::Incomplete { required: 1, available: 0 })
    );
    assert!(matches!(
        QuicLongHeader::parse(&[0x40, 0, 0]),
        Err(QuicPacketParseError::WrongHeaderForm { .. })
    ));
}

#[test]
fn coalesced_datagram_partitions_in_order() {
    let mut bytes = expected_initial();
    bytes.extend_from_slice(&[0x41, 4, 4, 4]);
    bytes.extend_from_slice(&[0x55; 20]);
    let context = Some(QuicShortHeaderContext::new(3));
    let datagram = QuicDatagram::parse(&bytes, context).unwrap();
    let mut packets = datagram.packets();
    let first = packets.next().unwrap().unwrap();
    assert!(matches!(first, QuicPacket::ProtectedLong(_)));
    assert_eq!(first.as_bytes().len(), 36);
    let second = packets.next().unwrap().unwrap();
    assert!(matches!(second, QuicPacket::Short(_)));
    assert_eq!(second.as_bytes().len(), 24);
    assert!(packets.next().is_none());
    assert_eq!(
        QuicDatagram::parse(&bytes, None),
        Err(QuicPacketParseError::ShortHeaderContextRequired)
    );
}

#[test]
fn unchecked_iteration_stops_after_the_first_error() {
    let bytes = [0x41u8, 1, 2];
    let mut packets = QuicPackets::new(&bytes, None);
    assert_eq!(packets.next(), Some(Err(QuicPacketParseError::ShortHeaderContextRequired)));
    assert!(packets.next().is_none());
}

#[test]
fn long_packet_type_mapping_inverts() {
    for version in [QuicVersion::V1(), QuicVersion::V2()] {
        for raw in 0..4u8 {
            let ty = QuicLongPacketType::from_raw(version, raw).unwrap();
            assert_eq!(ty.raw_type(version), Some(raw));
        }
    }
    assert_eq!(QuicLongPacketType::from_raw(QuicVersion::new(7), 0), None);
    assert_eq!(QuicLongPacketType::Initial.raw_type(QuicVersion::V2()), Some(1));
}

#[test]
fn datagram_parse_agrees_with_iteration() {
    let mut bytes = expected_initial();
    bytes.extend_from_slice(&[0x41, 4, 4, 4]);
    bytes.extend_from_slice(&[0x55; 20]);
    let context = Some(QuicShortHeaderContext::new(3));
    let datagram = QuicDatagram::parse(&bytes, context).unwrap();
    assert_eq!(datagram.as_bytes(), &bytes[..]);
    let mut validated = datagram.packets();
    let mut unchecked = QuicPackets::new(&bytes, context);
    let mut joined = Vec::new();
    loop {
        let a = validated.next();
        let b = unchecked.next();
        assert_eq!(a, b);
        match a {
            Some(item) => joined.extend_from_slice(item.unwrap().as_bytes()),
            None => break,
        }
    }
    assert_eq!(joined, bytes);

    let mut bad = expected_initial();
    bad.extend_from_slice(&[0x41, 4]);
    let mut unchecked = QuicPackets::new(&bad, None);
    assert!(matches!(unchecked.next(), Some(Ok(QuicPacket::ProtectedLong(_)))));
    let error = unchecked.next().unwrap().unwrap_err();
    assert!(unchecked.next().is_none());
    assert_eq!(QuicDatagram::parse(&bad, None), Err(error));
    assert_eq!(error, QuicPacketParseError::ShortHeaderContextRequired);
}

#[test]
fn initial_builder_output_parses_back_to_the_same_packet() {
    let mut buffer = [0u8; 64];
    let remainder = [0x33u8; 21];
    let token = [0xde, 0xad];
    let packet = QuicInitialPacketBuilder::new(
        &mut buffer,
        QuicVersion::V2(),
        0x03,
        QuicConnectionId::new(&[9, 8, 7]),
        QuicConnectionId::new(&[6]),
        &token,
        &remainder,
    )
    .with_length_len(QuicVarIntLen::Two)
    .build()
    .unwrap();
    let (reparsed, suffix) = QuicProtectedLongPacket::parse(packet.as_bytes()).unwrap();
    assert!(suffix.is_empty());
    assert_eq!(reparsed, packet);
    assert_eq!(packet.packet_type(), QuicLongPacketType::Initial);
    assert_eq!(packet.version(), QuicVersion::V2());
    assert_eq!(packet.header().first_byte() & 0x0f, 0x03);
    assert_eq!(packet.header().destination_connection_id().as_bytes(), &[9, 8, 7]);
    assert_eq!(packet.header().source_connection_id().as_bytes(), &[6]);
    assert_eq!(packet.token(), Some(&token[..]));
    assert_eq!(packet.protected_remainder(), &remainder[..]);
    assert_eq!(packet.length().value(), 21);
}

#[test]
fn v2_initial_build_writes_only_the_packet_prefix_of_the_buffer() {
    let mut dest = [0u8; 16];
    {
        let packet = QuicInitialPacketBuilder::new(
            &mut dest,
            QuicVersion::V2(),
            0,
            QuicConnectionId::new(&[0xaa]),
            QuicConnectionId::new(&[]),
            &[],
            &[0x01, 0x02],
        )
        .build()
        .unwrap();
        assert_eq!(
            packet.as_bytes(),
            &[0xd0, 0x6b, 0x33, 0x43, 0xcf, 0x01, 0xaa, 0x00, 0x00, 0x02, 0x01, 0x02]
        );
        assert_eq!(packet.packet_number_offset(), 10);
        assert_eq!(packet.token(), Some(&[][..]));
        assert_eq!(packet.length().value(), 2);
        assert_eq!(packet.packet_type(), QuicLongPacketType::Initial);
    }
    assert_eq!(&dest[12..], &[0; 4]);

    let mut small = [0x77u8; 11];
    let result = QuicInitialPacketBuilder::new(
        &mut small,
        QuicVersion::V2(),
        0,
        QuicConnectionId::new(&[0xaa]),
        QuicConnectionId::new(&[]),
        &[],
        &[0x01, 0x02],
    )
    .build();
    assert!(result.is_err());
    assert_eq!(small, [0x77u8; 11]);
}
