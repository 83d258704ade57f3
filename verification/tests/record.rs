use rdns::name::Name;
use rdns::record::{
    AliasResourceData, CNameResourceData, HInfoResourceData, MailExchangeResourceData,
    RawResourceData, SOAResourceData,
};

/// The wire form a dotted name should encode to: each label prefixed with
/// its length.
fn dirty_to_bytes(repr: &str) -> Vec<u8> {
    let mut result = Vec::with_capacity(repr.len());
    for label in repr.split('.') {
        result.push(label.len() as u8);
        for ch in label.chars() {
            result.push(ch as u8);
        }
    }
    result
}

#[test]
fn round_trip_raw_record() {
    let input = "example.com".as_bytes();
    let raw = RawResourceData::read(&input.to_vec()).unwrap();
    assert_eq!(input, raw.serialise());
}

#[test]
fn round_trip_cname() {
    let input = "example.com";
    let cname = CNameResourceData::read(&input.as_bytes().to_vec()).unwrap();
    assert_eq!(dirty_to_bytes(input), cname.serialise());
}

#[test]
fn round_trip_hinfo() {
    let input = "\"INTEL-386\" / \"WIN32\"".as_bytes();
    let hinfo = HInfoResourceData::read(&input.to_vec()).unwrap();
    assert_eq!(input, hinfo.serialise());
}

#[test]
fn round_trip_mail_exchange() {
    let input = "mail.example.com";
    let mx = MailExchangeResourceData::read(10, &input.as_bytes().to_vec()).unwrap();

    let mut expected = Vec::new();
    expected.push(0u8);
    expected.push(10);
    expected.extend(dirty_to_bytes(input));
    assert_eq!(expected, mx.serialise());
}

#[test]
fn alias_serialises_to_its_octets() {
    let alias = AliasResourceData([192, 168, 0, 1]);
    assert_eq!(vec![192, 168, 0, 1], alias.serialise());
}

#[test]
fn soa_serialises_names_then_big_endian_counters() {
    let soa = SOAResourceData {
        primary_name: Name::from_text(&"ns".as_bytes().to_vec()).unwrap(),
        responsible_name: Name::from_text(&"owner".as_bytes().to_vec()).unwrap(),
        serial: 20,
        refresh: 7200,
        retry: 600,
        expire: 3600000,
        minimum: 60,
    };
    let mut expected = dirty_to_bytes("ns");
    expected.extend(dirty_to_bytes("owner"));
    expected.extend(20u32.to_be_bytes());
    expected.extend(7200i32.to_be_bytes());
    expected.extend(600i32.to_be_bytes());
    expected.extend(3600000i32.to_be_bytes());
    expected.extend(60u32.to_be_bytes());
    assert_eq!(expected, soa.serialise());
}
