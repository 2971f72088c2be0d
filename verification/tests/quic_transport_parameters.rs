use net_wire::quic::{
    QuicTransportParameterHandshakeContext, QuicTransportParameterHandshakeError,
    QuicTransportParameterId, QuicTransportParameterParseError, QuicTransportParameterSemanticError,
    QuicTransportParameterSender, QuicTransportParameterValueError, QuicTransportParameterValueKind,
    QuicTransportParameters,
};

#[test]
fn parses_and_iterates_tuples() {
    let bytes = [0x01, 0x01, 0x05, 0x0c, 0x00];
    let parameters = QuicTransportParameters::parse(&bytes).unwrap();
    let mut iter = parameters.iter();
    let first = iter.next().unwrap().unwrap();
    assert_eq!(first.parameter_id(), QuicTransportParameterId::MAX_IDLE_TIMEOUT());
    assert_eq!(first.integer().unwrap().value(), 5);
    assert_eq!(first.as_bytes(), &[0x01, 0x01, 0x05]);
    let second = iter.next().unwrap().unwrap();
    assert_eq!(second.disable_active_migration(), Ok(()));
    assert!(second.value().is_empty());
    assert!(iter.next().is_none());
}

#[test]
fn duplicate_ids_report_both_offsets() {
    let bytes = [0x01, 0x01, 0x05, 0x02, 0x00, 0x01, 0x01, 0x06];
    assert_eq!(
        QuicTransportParameters::parse(&bytes),
        Err(QuicTransportParameterParseError::DuplicateId {
            id: QuicTransportParameterId::new(1),
            first_offset: 0,
            duplicate_offset: 5,
        })
    );
}

#[test]
fn incomplete_value_is_reported() {
    assert_eq!(
        QuicTransportParameters::parse(&[0x01, 0x02, 0x05]),
        Err(QuicTransportParameterParseError::IncompleteValue { offset: 2, required: 2, available: 1 })
    );
}

#[test]
fn reserved_ids_have_the_31n_plus_27_form() {
    assert!(QuicTransportParameterId::new(27).is_reserved());
    assert!(QuicTransportParameterId::new(31 * 5 + 27).is_reserved());
    assert!(!QuicTransportParameterId::new(28).is_reserved());
    assert_eq!(QuicTransportParameterId::RETRY_SOURCE_CONNECTION_ID().raw(), 0x10);
}

#[test]
fn value_accessors_check_id_and_layout() {
    let bytes = [0x01, 0x02, 0x05, 0x00];
    let parameter = QuicTransportParameters::parse(&bytes).unwrap().iter().next().unwrap().unwrap();
    assert_eq!(
        parameter.integer(),
        Err(QuicTransportParameterValueError::TrailingIntegerBytes { parsed: 1, available: 2 })
    );
    assert_eq!(
        parameter.connection_id(),
        Err(QuicTransportParameterValueError::WrongId {
            kind: QuicTransportParameterValueKind::ConnectionId,
            actual: QuicTransportParameterId::new(1),
        })
    );
    let token = [0x02, 0x03, 1, 2, 3];
    let parameter = QuicTransportParameters::parse(&token).unwrap().iter().next().unwrap().unwrap();
    assert_eq!(
        parameter.stateless_reset_token(),
        Err(QuicTransportParameterValueError::WrongLength {
            kind: QuicTransportParameterValueKind::StatelessResetToken,
            expected: 16,
            actual: 3,
        })
    );
}

fn preferred_address_value() -> Vec<u8> {
    let mut value = vec![192, 0, 2, 1, 0x11, 0x5c];
    value.extend_from_slice(&[0x20; 16]);
    value.extend_from_slice(&[0x01, 0xbb]);
    value.push(4);
    value.extend_from_slice(&[9, 8, 7, 6]);
    value.extend_from_slice(&[0xee; 16]);
    value
}

#[test]
fn preferred_address_fields_decode() {
    let value = preferred_address_value();
    let mut bytes = vec![0x0d, value.len() as u8];
    bytes.extend_from_slice(&value);
    let parameter = QuicTransportParameters::parse(&bytes).unwrap().iter().next().unwrap().unwrap();
    let address = parameter.preferred_address().unwrap();
    assert_eq!(address.ipv4_address(), &[192, 0, 2, 1]);
    assert_eq!(address.ipv4_port(), 4444);
    assert_eq!(address.ipv6_address(), &[0x20; 16]);
    assert_eq!(address.ipv6_port(), 443);
    assert_eq!(address.connection_id().as_bytes(), &[9, 8, 7, 6]);
    assert_eq!(address.stateless_reset_token(), &[0xee; 16]);
    assert_eq!(address.as_bytes(), &value[..]);
}

#[test]
fn preferred_address_errors() {
    let mut value = preferred_address_value();
    value.push(0);
    let mut bytes = vec![0x0d, value.len() as u8];
    bytes.extend_from_slice(&value);
    let parameter = QuicTransportParameters::parse(&bytes).unwrap().iter().next().unwrap().unwrap();
    assert_eq!(
        parameter.preferred_address(),
        Err(QuicTransportParameterValueError::PreferredAddressTrailingBytes { offset: 45, available: 1 })
    );
    let short = [0x0d, 0x03, 1, 2, 3];
    let parameter = QuicTransportParameters::parse(&short).unwrap().iter().next().unwrap().unwrap();
    assert_eq!(
        parameter.preferred_address(),
        Err(QuicTransportParameterValueError::PreferredAddressIncomplete { offset: 0, required: 4, available: 3 })
    );
}

#[test]
fn semantic_validation_applies_role_and_bounds() {
    let client_sent_server_only = [0x00, 0x01, 0x07];
    let parameters = QuicTransportParameters::parse(&client_sent_server_only).unwrap();
    assert_eq!(
        parameters.validate_v1(QuicTransportParameterSender::Client).err(),
        Some(QuicTransportParameterSemanticError::ForbiddenSender {
            id: QuicTransportParameterId::new(0),
            offset: 0,
        })
    );
    assert!(parameters.validate_v1(QuicTransportParameterSender::Server).is_ok());

    let small_payload = [0x0a, 0x01, 0x03, 0x03, 0x02, 0x43, 0xe8];
    let parameters = QuicTransportParameters::parse(&small_payload).unwrap();
    assert_eq!(
        parameters.validate_v1(QuicTransportParameterSender::Client).err(),
        Some(QuicTransportParameterSemanticError::BelowMinimum {
            id: QuicTransportParameterId::new(3),
            offset: 3,
            value: 1000,
            minimum: 1200,
        })
    );
    let big_exponent = [0x0a, 0x01, 21];
    let parameters = QuicTransportParameters::parse(&big_exponent).unwrap();
    assert_eq!(
        parameters.validate_v1(QuicTransportParameterSender::Client).err(),
        Some(QuicTransportParameterSemanticError::AboveMaximum {
            id: QuicTransportParameterId::new(0x0a),
            offset: 0,
            value: 21,
            maximum: 20,
        })
    );
    let unknown = [0x1b, 0x02, 0xff, 0xff];
    let parameters = QuicTransportParameters::parse(&unknown).unwrap();
    let valid = parameters.validate_v1(QuicTransportParameterSender::Client).unwrap();
    assert_eq!(valid.sender(), QuicTransportParameterSender::Client);
    assert_eq!(valid.as_bytes(), &unknown);
    assert_eq!(valid.iter().next().unwrap().unwrap().parameter_id().raw(), 0x1b);
}

#[test]
fn client_handshake_checks_initial_source_id() {
    let bytes = [0x0f, 0x02, 0xaa, 0xbb];
    let valid = QuicTransportParameters::parse(&bytes)
        .unwrap()
        .validate_v1(QuicTransportParameterSender::Client)
        .unwrap();
    assert_eq!(
        valid.validate_handshake(QuicTransportParameterHandshakeContext::Client {
            initial_source_connection_id: &[0xaa, 0xbb],
        }),
        Ok(())
    );
    assert_eq!(
        valid.validate_handshake(QuicTransportParameterHandshakeContext::Client {
            initial_source_connection_id: &[0xaa],
        }),
        Err(QuicTransportParameterHandshakeError::ConnectionIdMismatch {
            id: QuicTransportParameterId::new(0x0f),
            offset: 0,
        })
    );
    assert_eq!(
        valid.validate_handshake(QuicTransportParameterHandshakeContext::Server {
            initial_source_connection_id: &[],
            original_destination_connection_id: &[],
            retry_source_connection_id: None,
        }),
        Err(QuicTransportParameterHandshakeError::SenderContextMismatch {
            sender: QuicTransportParameterSender::Client,
            context_sender: QuicTransportParameterSender::Server,
        })
    );
    let empty = QuicTransportParameters::parse(&[])
        .unwrap()
        .validate_v1(QuicTransportParameterSender::Client)
        .unwrap();
    assert_eq!(
        empty.validate_handshake(QuicTransportParameterHandshakeContext::Client {
            initial_source_connection_id: &[],
        }),
        Err(QuicTransportParameterHandshakeError::Missing { id: QuicTransportParameterId::new(0x0f) })
    );
}

#[test]
fn server_handshake_checks_all_three_ids() {
    let bytes = [0x0f, 0x01, 0x01, 0x00, 0x01, 0x02, 0x10, 0x01, 0x03];
    let valid = QuicTransportParameters::parse(&bytes)
        .unwrap()
        .validate_v1(QuicTransportParameterSender::Server)
        .unwrap();
    assert_eq!(
        valid.validate_handshake(QuicTransportParameterHandshakeContext::Server {
            initial_source_connection_id: &[1],
            original_destination_connection_id: &[2],
            retry_source_connection_id: Some(&[3]),
        }),
        Ok(())
    );
    assert_eq!(
        valid.validate_handshake(QuicTransportParameterHandshakeContext::Server {
            initial_source_connection_id: &[1],
            original_destination_connection_id: &[2],
            retry_source_connection_id: None,
        }),
        Err(QuicTransportParameterHandshakeError::Unexpected {
            id: QuicTransportParameterId::new(0x10),
            offset: 6,
        })
    );
    let without_retry = QuicTransportParameters::parse(&bytes[..6])
        .unwrap()
        .validate_v1(QuicTransportParameterSender::Server)
        .unwrap();
    assert_eq!(
        without_retry.validate_handshake(QuicTransportParameterHandshakeContext::Server {
            initial_source_connection_id: &[1],
            original_destination_connection_id: &[2],
            retry_source_connection_id: Some(&[3]),
        }),
        Err(QuicTransportParameterHandshakeError::Missing { id: QuicTransportParameterId::new(0x10) })
    );
}
