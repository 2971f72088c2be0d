use net_wire::error::ParseError;
use net_wire::tcp::{TcpFlags, TcpSegment, TcpSegmentBuildError, TcpSegmentBuilder, TcpSegmentMut};

const SOURCE_V4: [u8; 4] = [192, 0, 2, 10];
const DESTINATION_V4: [u8; 4] = [198, 51, 100, 20];

fn v6(last: u8) -> [u8; 16] {
    let mut a = [0u8; 16];
    a[0] = 0x20;
    a[1] = 0x01;
    a[2] = 0x0d;
    a[3] = 0xb8;
    a[15] = last;
    a
}

fn syn_segment() -> Vec<u8> {
    vec![192, 0, 0, 80, 0, 0, 0, 1, 0, 0, 0, 0, 80, 2, 255, 255, 0, 0, 0, 0, b'h', b'i']
}

#[test]
fn parses_every_fixed_field() {
    let bytes = syn_segment();
    let segment = TcpSegment::parse(&bytes).unwrap();
    assert_eq!(segment.source_port(), 49152);
    assert_eq!(segment.destination_port(), 80);
    assert_eq!(segment.sequence_number(), 1);
    assert_eq!(segment.acknowledgment_number(), 0);
    assert_eq!(segment.data_offset(), 5);
    assert_eq!(segment.header_length(), 20);
    assert_eq!(segment.reserved(), 0);
    assert_eq!(segment.flags().raw(), 0x02);
    assert_eq!(segment.window_size(), 65535);
    assert_eq!(segment.checksum(), 0);
    assert_eq!(segment.urgent_pointer(), 0);
    assert_eq!(segment.options(), &[] as &[u8]);
    assert_eq!(segment.payload(), b"hi");
    assert_eq!(segment.as_bytes(), &bytes[..]);
}

#[test]
fn rejects_short_input_and_bad_header_length() {
    assert_eq!(
        TcpSegment::parse(&[0u8; 19]),
        Err(ParseError::Truncated { minimum: 20, available: 19 })
    );
    let mut bytes = syn_segment();
    bytes[12] = 4 << 4;
    assert_eq!(
        TcpSegment::parse(&bytes),
        Err(ParseError::InvalidHeaderLength { minimum: 20, actual: 16 })
    );
    bytes[12] = 6 << 4;
    assert_eq!(
        TcpSegment::parse(&bytes[..22]),
        Err(ParseError::Truncated { minimum: 24, available: 22 })
    );
}

#[test]
fn options_and_payload_split_at_the_data_offset() {
    let mut bytes = syn_segment();
    bytes[12] = 6 << 4;
    bytes.extend_from_slice(&[1, 2, 3]);
    let segment = TcpSegment::parse(&bytes).unwrap();
    assert_eq!(segment.header_length(), 24);
    assert_eq!(segment.options(), &[b'h', b'i', 1, 2]);
    assert_eq!(segment.payload(), &[3]);
}

#[test]
fn ipv4_checksum_matches_a_known_value() {
    let mut bytes = syn_segment();
    let mut segment = TcpSegmentMut::parse(&mut bytes).unwrap();
    assert_eq!(segment.checksum_is_valid_ipv4(SOURCE_V4, DESTINATION_V4), Ok(false));
    segment.update_checksum_ipv4(SOURCE_V4, DESTINATION_V4).unwrap();
    assert_eq!(segment.checksum(), 0x9ad3);
    assert_eq!(segment.checksum_is_valid_ipv4(SOURCE_V4, DESTINATION_V4), Ok(true));
    let view = TcpSegment::parse(&bytes).unwrap();
    assert_eq!(view.checksum_is_valid_ipv4(SOURCE_V4, DESTINATION_V4), Ok(true));
    assert_eq!(view.checksum_is_valid_ipv4(SOURCE_V4, [198, 51, 100, 21]), Ok(false));
}

#[test]
fn ipv6_checksum_matches_a_known_value() {
    let mut bytes = syn_segment();
    let mut segment = TcpSegmentMut::parse(&mut bytes).unwrap();
    segment.update_checksum_ipv6(v6(1), v6(2)).unwrap();
    assert_eq!(segment.checksum(), 0x2bb1);
    assert_eq!(segment.checksum_is_valid_ipv6(v6(1), v6(2)), Ok(true));
    assert_eq!(segment.checksum_is_valid_ipv6(v6(2), v6(3)), Ok(false));
}

#[test]
fn built_segment_with_updated_checksum_is_valid() {
    let mut buffer = [0u8; 26];
    let options = [2, 4, 5, 0xb4];
    let mut segment = TcpSegmentBuilder::new(&mut buffer, 2)
        .source_port(443)
        .destination_port(51000)
        .sequence_number(0x0102_0304)
        .acknowledgment_number(0x0a0b_0c0d)
        .flags(TcpFlags::SYN().union(TcpFlags::ACK()))
        .window_size(1024)
        .urgent_pointer(7)
        .options(&options)
        .build()
        .unwrap();
    segment.payload_mut().copy_from_slice(b"ok");
    segment.update_checksum_ipv4(SOURCE_V4, DESTINATION_V4).unwrap();
    assert_eq!(segment.checksum_is_valid_ipv4(SOURCE_V4, DESTINATION_V4), Ok(true));
    assert_eq!(segment.header_length(), 24);
    assert_eq!(segment.options(), &options);
    assert_eq!(segment.flags().raw(), 0x12);
    let view = TcpSegment::parse(&buffer).unwrap();
    assert_eq!(view.source_port(), 443);
    assert_eq!(view.destination_port(), 51000);
    assert_eq!(view.sequence_number(), 0x0102_0304);
    assert_eq!(view.acknowledgment_number(), 0x0a0b_0c0d);
    assert_eq!(view.window_size(), 1024);
    assert_eq!(view.urgent_pointer(), 7);
    assert_eq!(view.payload(), b"ok");
}

#[test]
fn builder_reports_each_error() {
    let mut buffer = [0u8; 40];
    assert_eq!(
        TcpSegmentBuilder::new(&mut buffer, 0).destination_port(1).build().err(),
        Some(TcpSegmentBuildError::MissingSourcePort)
    );
    assert_eq!(
        TcpSegmentBuilder::new(&mut buffer, 0).source_port(1).build().err(),
        Some(TcpSegmentBuildError::MissingDestinationPort)
    );
    assert_eq!(
        TcpSegmentBuilder::new(&mut buffer, 0)
            .source_port(1)
            .destination_port(2)
            .options(&[1, 1, 1])
            .build()
            .err(),
        Some(TcpSegmentBuildError::InvalidOptionsLength)
    );
    assert_eq!(
        TcpSegmentBuilder::new(&mut buffer, 30).source_port(1).destination_port(2).build().err(),
        Some(TcpSegmentBuildError::BufferTooShort { required: 50, available: 40 })
    );
    assert_eq!(
        TcpSegmentBuilder::new(&mut buffer, usize::MAX).source_port(1).destination_port(2).build().err(),
        Some(TcpSegmentBuildError::SegmentLengthTooLarge)
    );
}

#[test]
fn setters_change_only_their_field() {
    let mut bytes = syn_segment();
    let mut segment = TcpSegmentMut::parse(&mut bytes).unwrap();
    segment.set_source_port(1).unwrap();
    segment.set_destination_port(2).unwrap();
    segment.set_sequence_number(3).unwrap();
    segment.set_acknowledgment_number(4).unwrap();
    segment.set_flags(TcpFlags::FIN()).unwrap();
    segment.set_window_size(5).unwrap();
    segment.set_checksum(6).unwrap();
    segment.set_urgent_pointer(7).unwrap();
    assert_eq!(segment.payload(), b"hi");
    assert_eq!(
        segment.as_bytes(),
        &[0, 1, 0, 2, 0, 0, 0, 3, 0, 0, 0, 4, 80, 1, 0, 5, 0, 6, 0, 7, b'h', b'i']
    );
}

#[test]
fn flag_union_contains_both_operands() {
    let a = TcpFlags::SYN();
    let b = TcpFlags::ACK();
    let u = a.union(b);
    assert!(u.contains(a));
    assert!(u.contains(b));
    assert!(!a.contains(b));
    assert_eq!(TcpFlags::new(0xff).raw(), 0xff);
    assert_eq!(
        [TcpFlags::FIN(), TcpFlags::SYN(), TcpFlags::RST(), TcpFlags::PSH(), TcpFlags::ACK(), TcpFlags::URG(), TcpFlags::ECE(), TcpFlags::CWR()]
            .iter()
            .map(|f| f.raw())
            .collect::<Vec<_>>(),
        vec![1, 2, 4, 8, 16, 32, 64, 128]
    );
}

#[test]
fn bit_or_operators_build_flag_unions() {
    let mut flags = TcpFlags::SYN() | TcpFlags::ACK();
    assert_eq!(flags.raw(), 0x12);
    flags |= TcpFlags::FIN();
    assert_eq!(flags.raw(), 0x13);
    assert!(flags.contains(TcpFlags::FIN() | TcpFlags::SYN()));
}
