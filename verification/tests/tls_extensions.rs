use net_wire::tls::{TlsExtension, TlsExtensions, TlsParseError};

fn tlv(extension_type: u16, data: &[u8]) -> Vec<u8> {
    let mut bytes = extension_type.to_be_bytes().to_vec();
    bytes.extend_from_slice(&(data.len() as u16).to_be_bytes());
    bytes.extend_from_slice(data);
    bytes
}

fn first(bytes: &[u8]) -> TlsExtension<'_> {
    TlsExtensions::new(bytes).next().unwrap().unwrap()
}

#[test]
fn client_key_shares_iterate_in_order() {
    let data = [0x00, 0x0b, 0x00, 0x1d, 0x00, 0x02, 0xaa, 0xbb, 0x00, 0x17, 0x00, 0x01, 0xcc];
    let bytes = tlv(51, &data);
    let shares = first(&bytes).client_key_share().unwrap();
    let mut iter = shares.iter();
    let a = iter.next().unwrap().unwrap();
    assert_eq!(a.group().raw(), 0x1d);
    assert_eq!(a.key_exchange(), &[0xaa, 0xbb]);
    let b = iter.next().unwrap().unwrap();
    assert_eq!(b.group().raw(), 0x17);
    assert_eq!(b.key_exchange(), &[0xcc]);
    assert!(iter.next().is_none());
}

#[test]
fn empty_key_exchange_is_invalid() {
    let bytes = tlv(51, &[0x00, 0x04, 0x00, 0x1d, 0x00, 0x00]);
    assert_eq!(first(&bytes).client_key_share().err(), Some(TlsParseError::InvalidValue));
}

#[test]
fn server_and_hrr_key_shares() {
    let bytes = tlv(51, &[0x00, 0x1d, 0x00, 0x02, 0xaa, 0xbb]);
    let entry = first(&bytes).server_key_share().unwrap().entry();
    assert_eq!(entry.group().raw(), 0x1d);
    assert_eq!(entry.key_exchange(), &[0xaa, 0xbb]);
    let trailing = tlv(51, &[0x00, 0x1d, 0x00, 0x01, 0xaa, 0xbb]);
    assert_eq!(first(&trailing).server_key_share().err(), Some(TlsParseError::TrailingBytes));
    let hrr = tlv(51, &[0x00, 0x17]);
    assert_eq!(first(&hrr).hrr_key_share().unwrap().group().raw(), 23);
    let short = tlv(51, &[0x00]);
    assert_eq!(
        first(&short).hrr_key_share().err(),
        Some(TlsParseError::Incomplete { required: 2, available: 1 })
    );
    let long = tlv(51, &[0, 0, 0]);
    assert_eq!(first(&long).hrr_key_share().err(), Some(TlsParseError::TrailingBytes));
}

#[test]
fn wrong_extension_type_is_rejected() {
    let bytes = tlv(10, &[0x00, 0x17]);
    assert_eq!(first(&bytes).hrr_key_share().err(), Some(TlsParseError::InvalidValue));
}

#[test]
fn psk_modes_and_keys() {
    let modes = tlv(45, &[0x01, 0x01]);
    let modes = first(&modes).psk_key_exchange_modes().unwrap();
    assert_eq!(modes.iter().iter().map(|m| m.raw()).collect::<Vec<_>>(), vec![1]);
    let empty = tlv(45, &[0x00]);
    assert_eq!(first(&empty).psk_key_exchange_modes().err(), Some(TlsParseError::InvalidValue));

    let mut data = vec![0x00, 0x08, 0x00, 0x02, b'a', b'b', 0, 0, 0, 5];
    data.extend_from_slice(&[0x00, 0x21, 0x20]);
    data.extend_from_slice(&[0x11; 32]);
    let bytes = tlv(41, &data);
    let psk = first(&bytes).client_pre_shared_key().unwrap();
    let mut identities = psk.identities();
    let identity = identities.next().unwrap().unwrap();
    assert_eq!(identity.identity(), b"ab");
    assert_eq!(identity.obfuscated_ticket_age(), 5);
    assert!(identities.next().is_none());
    let mut binders = psk.binders();
    assert_eq!(binders.next().unwrap().unwrap(), &[0x11; 32]);
    assert!(binders.next().is_none());

    let selected = tlv(41, &[0x00, 0x01]);
    assert_eq!(first(&selected).server_pre_shared_key().unwrap().selected_identity(), 1);
}

#[test]
fn server_name_list_yields_host_names() {
    let mut data = vec![0x00, 0x0e, 0x00, 0x00, 0x0b];
    data.extend_from_slice(b"example.com");
    let bytes = tlv(0, &data);
    let list = first(&bytes).client_server_name_list().unwrap();
    let mut names = list.iter();
    let name = names.next().unwrap().unwrap();
    assert_eq!(name.name_type().raw(), 0);
    assert_eq!(name.as_bytes(), b"example.com");
    assert!(names.next().is_none());
    let ack = tlv(0, &[]);
    assert_eq!(first(&ack).server_name_acknowledgement(), Ok(()));
}

#[test]
fn scalar_lists_keep_wire_order() {
    let groups = tlv(10, &[0x00, 0x04, 0x00, 0x1d, 0x00, 0x17]);
    assert_eq!(
        first(&groups).supported_groups().unwrap().iter().iter().map(|g| g.raw()).collect::<Vec<_>>(),
        vec![0x1d, 0x17]
    );
    let odd = tlv(10, &[0x00, 0x03, 0x00, 0x1d, 0x00]);
    assert_eq!(first(&odd).supported_groups().err(), Some(TlsParseError::InvalidValue));
    let schemes = tlv(13, &[0x00, 0x02, 0x08, 0x04]);
    assert_eq!(
        first(&schemes).signature_algorithms().unwrap().iter().iter().map(|s| s.raw()).collect::<Vec<_>>(),
        vec![0x0804]
    );
    let formats = tlv(11, &[0x01, 0x00]);
    assert_eq!(first(&formats).ec_point_formats().unwrap().iter(), vec![0]);
    let compression = tlv(27, &[0x02, 0x00, 0x02]);
    assert_eq!(
        first(&compression)
            .certificate_compression_algorithms()
            .unwrap()
            .iter()
            .iter()
            .map(|c| c.raw())
            .collect::<Vec<_>>(),
        vec![2]
    );
}

#[test]
fn early_data_and_cookie() {
    let marker = tlv(42, &[]);
    assert_eq!(first(&marker).early_data_marker(), Ok(()));
    let size = tlv(42, &[0, 0, 0x40, 0]);
    assert_eq!(first(&size).early_data_max_size(), Ok(0x4000));
    let cookie = tlv(44, &[0x00, 0x02, 7, 8]);
    assert_eq!(first(&cookie).cookie().unwrap().as_bytes(), &[7, 8]);
    let empty_cookie = tlv(44, &[0x00, 0x00]);
    assert_eq!(first(&empty_cookie).cookie().err(), Some(TlsParseError::InvalidValue));
}

#[test]
fn server_selected_alpn_and_version() {
    let alpn = tlv(16, &[0x00, 0x03, 0x02, b'h', b'2']);
    assert_eq!(first(&alpn).server_selected_alpn().unwrap().protocol().as_bytes(), b"h2");
    let version = tlv(43, &[0x03, 0x04]);
    assert_eq!(first(&version).server_supported_version().unwrap().raw(), 0x0304);
    assert_eq!(first(&version).server_supported_version_view().unwrap().version().raw(), 0x0304);
}
