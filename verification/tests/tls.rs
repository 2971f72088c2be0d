use net_wire::quic::QuicTransportParametersTlsExtensionError;
use net_wire::tls::{
    ClientHello, ClientHelloBuilder, ServerHello, ServerHelloBuilder, TlsBuildError,
    TlsCipherSuite, TlsCompressionMethod, TlsContentType, TlsExtensionBuilder, TlsExtensionType,
    TlsExtensions, TlsHandshake, TlsHandshakeBuilder, TlsHandshakeType, TlsParseError,
    TlsProtocolVersion, TlsRecord, TlsRecordBuilder, TlsRecordMut, HELLO_RETRY_REQUEST_RANDOM,
};

fn supported_versions_tlv() -> Vec<u8> {
    vec![0x00, 0x2b, 0x00, 0x05, 0x04, 0x03, 0x04, 0x03, 0x03]
}

fn alpn_tlv() -> Vec<u8> {
    vec![0x00, 0x10, 0x00, 0x0b, 0x00, 0x09, 0x02, b'h', b'2', 0x05, b'h', b't', b't', b'p', b'1']
}

#[test]
fn record_parse_reads_the_header_and_bounded_fragment() {
    let bytes = [22, 3, 3, 0, 2, 0xaa, 0xbb, 0xcc];
    let record = TlsRecord::parse(&bytes).unwrap();
    assert_eq!(record.content_type().raw(), 22);
    assert_eq!(record.version().raw(), 0x0303);
    assert_eq!(record.fragment(), &[0xaa, 0xbb]);
    assert_eq!(record.as_bytes(), &bytes[..7]);
    assert_eq!(
        TlsRecord::parse(&bytes[..4]),
        Err(TlsParseError::Incomplete { required: 5, available: 4 })
    );
    assert_eq!(
        TlsRecord::parse(&[22, 3, 3, 0, 4, 1]),
        Err(TlsParseError::Incomplete { required: 9, available: 6 })
    );
}

#[test]
fn record_builder_output_parses_back() {
    let mut buffer = [0u8; 16];
    let record = TlsRecordBuilder::new(
        &mut buffer,
        TlsContentType::APPLICATION_DATA(),
        TlsProtocolVersion::TLS12(),
        b"data",
    )
    .build()
    .unwrap();
    assert_eq!(record.as_bytes(), &[23, 3, 3, 0, 4, b'd', b'a', b't', b'a']);
    let parsed = TlsRecord::parse(&buffer).unwrap();
    assert_eq!(parsed.fragment(), b"data");
    let mut small = [0u8; 6];
    assert_eq!(
        TlsRecordBuilder::new(&mut small, TlsContentType::ALERT(), TlsProtocolVersion::TLS12(), b"data")
            .build()
            .err(),
        Some(TlsBuildError::BufferTooShort { required: 9, available: 6 })
    );
}

#[test]
fn record_mut_setters_rewrite_the_header() {
    let mut bytes = [22, 3, 1, 0, 1, 7];
    let mut record = TlsRecordMut::parse(&mut bytes).unwrap();
    record.set_content_type(TlsContentType::ALERT());
    record.set_version(TlsProtocolVersion::TLS12());
    record.fragment_mut()[0] = 9;
    assert_eq!(record.content_type().raw(), 21);
    assert_eq!(record.as_bytes(), &[21, 3, 3, 0, 1, 9]);
}

#[test]
fn handshake_builder_output_parses_back() {
    let mut buffer = [0u8; 8];
    let written = TlsHandshakeBuilder::new(&mut buffer, TlsHandshakeType::SERVER_HELLO(), &[1, 2, 3])
        .build()
        .unwrap();
    assert_eq!(written, &[2, 0, 0, 3, 1, 2, 3]);
    let handshake = TlsHandshake::parse(&buffer).unwrap();
    assert_eq!(handshake.handshake_type().raw(), 2);
    assert_eq!(handshake.body(), &[1, 2, 3]);
    assert_eq!(handshake.as_bytes().len(), 7);
    assert_eq!(
        TlsHandshake::parse(&[1, 0, 0, 5, 0]),
        Err(TlsParseError::Incomplete { required: 9, available: 5 })
    );
}

fn build_client_hello(buffer: &mut [u8], extensions: Option<&[u8]>) -> Result<usize, TlsBuildError> {
    let random = [7u8; 32];
    let hello = ClientHelloBuilder::new(
        buffer,
        TlsProtocolVersion::TLS12(),
        &random,
        &[9, 9],
        &[0x13, 0x01, 0x13, 0x02],
        &[0],
        extensions,
    )
    .build()?;
    Ok(hello.as_bytes().len())
}

#[test]
fn client_hello_roundtrip_keeps_every_field() {
    let mut extensions = supported_versions_tlv();
    extensions.extend_from_slice(&alpn_tlv());
    let mut buffer = [0u8; 128];
    let len = build_client_hello(&mut buffer, Some(&extensions)).unwrap();
    assert_eq!(len, 2 + 32 + 3 + 6 + 2 + 2 + extensions.len());
    let hello = ClientHello::parse(&buffer[..len]).unwrap();
    assert_eq!(hello.legacy_version().raw(), 0x0303);
    assert_eq!(hello.random(), &[7u8; 32]);
    assert_eq!(hello.session_id(), &[9, 9]);
    assert_eq!(
        hello.cipher_suites().iter().map(|c| c.raw()).collect::<Vec<_>>(),
        vec![0x1301, 0x1302]
    );
    assert_eq!(hello.compression_methods().iter().map(|c| c.raw()).collect::<Vec<_>>(), vec![0]);
    assert!(hello.offers_tls13());

    let mut iter = hello.extensions();
    let first = iter.next().unwrap().unwrap();
    assert_eq!(first.extension_type().raw(), 43);
    let versions = first.client_supported_versions().unwrap();
    assert_eq!(versions.iter().iter().map(|v| v.raw()).collect::<Vec<_>>(), vec![0x0304, 0x0303]);
    assert_eq!(versions.highest().map(|v| v.raw()), Some(0x0304));
    let second = iter.next().unwrap().unwrap();
    let alpn = second.alpn_protocol_list().unwrap();
    let mut protocols = alpn.iter();
    assert_eq!(protocols.next().unwrap().unwrap().as_bytes(), b"h2");
    assert_eq!(protocols.next().unwrap().unwrap().as_bytes(), b"http1");
    assert!(protocols.next().is_none());
    assert!(iter.next().is_none());
}

#[test]
fn client_hello_without_tls13_does_not_offer_it() {
    let mut buffer = [0u8; 64];
    let len = build_client_hello(&mut buffer, None).unwrap();
    let hello = ClientHello::parse(&buffer[..len]).unwrap();
    assert!(!hello.offers_tls13());
    assert!(hello.extensions().next().is_none());
}

#[test]
fn client_hello_builder_reports_a_short_buffer() {
    let mut buffer = [0u8; 20];
    assert_eq!(
        build_client_hello(&mut buffer, None),
        Err(TlsBuildError::BufferTooShort { required: 45, available: 20 })
    );
}

#[test]
fn hello_retry_request_is_recognised_by_its_random() {
    let random = HELLO_RETRY_REQUEST_RANDOM();
    let mut buffer = [0u8; 64];
    let extensions = [0x00, 0x2b, 0x00, 0x02, 0x03, 0x04];
    let hello = ServerHelloBuilder::new(
        &mut buffer,
        TlsProtocolVersion::TLS12(),
        &random,
        &[],
        TlsCipherSuite::TLS_AES_128_GCM_SHA256(),
        TlsCompressionMethod::NULL(),
        Some(&extensions),
    )
    .build()
    .unwrap();
    let len = hello.as_bytes().len();
    let parsed = ServerHello::parse(&buffer[..len]).unwrap();
    assert!(parsed.is_hello_retry_request());
    assert_eq!(parsed.cipher_suite().raw(), 0x1301);
    assert_eq!(parsed.compression_method().raw(), 0);
    assert_eq!(parsed.selected_version().unwrap().map(|v| v.raw()), Some(0x0304));
    assert_eq!(random[0], 0xcf);
}

#[test]
fn extension_builder_writes_one_tlv() {
    let mut buffer = [0u8; 8];
    let extension = TlsExtensionBuilder::new(&mut buffer, TlsExtensionType::COOKIE(), &[5, 6])
        .build()
        .unwrap();
    assert_eq!(extension.extension_type().raw(), 44);
    assert_eq!(extension.data(), &[5, 6]);
    assert_eq!(&buffer[..6], &[0, 44, 0, 2, 5, 6]);
}

#[test]
fn extension_iteration_reports_a_truncated_tlv_once() {
    let bytes = [0x00, 0x2b, 0x00, 0x09, 0x01];
    let mut iter = TlsExtensions::new(&bytes);
    assert!(matches!(iter.next(), Some(Err(TlsParseError::Incomplete { .. }))));
    assert!(iter.next().is_none());
}

#[test]
fn quic_transport_parameters_extension_is_typed() {
    let mut buffer = [0u8; 16];
    let payload = [0x01, 0x01, 0x05];
    let extension = TlsExtensionBuilder::new(&mut buffer, TlsExtensionType::QUIC_TRANSPORT_PARAMETERS(), &payload)
        .build()
        .unwrap();
    let parameters = extension.quic_transport_parameters().unwrap();
    assert_eq!(parameters.as_bytes(), &payload);
    let mut other = [0u8; 16];
    let cookie = TlsExtensionBuilder::new(&mut other, TlsExtensionType::COOKIE(), &payload).build().unwrap();
    assert!(matches!(
        cookie.quic_transport_parameters(),
        Err(QuicTransportParametersTlsExtensionError::WrongExtensionType { actual }) if actual.raw() == 44
    ));
}
