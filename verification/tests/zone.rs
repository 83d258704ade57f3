use rdns::error::{FormatIssue, RDNSError};
use rdns::name::{Name, NameParser};
use rdns::record::SOAResourceData;
use rdns::txt_config::{TxtConfigParser, ZoneEntry};
use rdns::{RRClass, RRType, ResourceRecord};

fn as_lines(input: &str) -> Vec<Vec<u8>> {
    input.split('\n').map(|l| l.as_bytes().to_vec()).collect()
}

fn name_string(name: &Name) -> String {
    String::from_utf8(name.to_text()).unwrap()
}

fn wire_of(repr: &str) -> Vec<u8> {
    NameParser::parse_repr(&repr.as_bytes().to_vec()).unwrap()
}

fn only_record(entries: Vec<ZoneEntry>) -> ResourceRecord {
    assert_eq!(1, entries.len());
    match entries.into_iter().next().unwrap() {
        ZoneEntry::Record(rr) => rr,
        _ => panic!("expected a record entry"),
    }
}

#[test]
fn parse_comment_on_own_line() {
    TxtConfigParser::parse(as_lines("; a comment"), Name::root()).unwrap();
}

#[test]
fn parse_origin_control_directive() {
    TxtConfigParser::parse(as_lines("$ORIGIN example.com"), Name::root()).unwrap();
}

#[test]
fn parse_origin_control_directive_with_comment() {
    TxtConfigParser::parse(
        as_lines("$ORIGIN example.com ; some information"),
        Name::root(),
    )
    .unwrap();
}

#[test]
fn parse_origin_control_directive_with_comment_tabs() {
    TxtConfigParser::parse(
        as_lines("$ORIGIN\texample.com\t; some information"),
        Name::root(),
    )
    .unwrap();
}

#[test]
fn parse_cname_rr() {
    let records = TxtConfigParser::parse(
        as_lines("exemplar.com. IN 300 CNAME example.com"),
        Name::root(),
    )
    .unwrap();

    let first_record = only_record(records);
    assert_eq!("exemplar.com.", name_string(&first_record.name));
    assert_eq!(RRType::CNAME, first_record.rr_type);
    assert_eq!(RRClass::IN, first_record.class);
    assert_eq!(300, first_record.ttl);
    assert_eq!(wire_of("example.com"), first_record.rdata.serialise());
}

#[test]
fn parse_alias_rr() {
    let records = TxtConfigParser::parse(
        as_lines("exemplar.com. IN 300 A 1.2.3.4"),
        Name::root(),
    )
    .unwrap();

    let first_record = only_record(records);
    assert_eq!("exemplar.com.", name_string(&first_record.name));
    assert_eq!(RRType::A, first_record.rr_type);
    assert_eq!(RRClass::IN, first_record.class);
    assert_eq!(300, first_record.ttl);
    assert_eq!(vec![1, 2, 3, 4], first_record.rdata.serialise());
}

#[test]
fn parse_name_server_rr() {
    let records = TxtConfigParser::parse(
        as_lines("exemplar.com. IN NS hosting"),
        Name::root(),
    )
    .unwrap();

    let first_record = only_record(records);
    assert_eq!("exemplar.com.", name_string(&first_record.name));
    assert_eq!(RRType::NS, first_record.rr_type);
    assert_eq!(RRClass::IN, first_record.class);
    assert_eq!(0, first_record.ttl);
    assert_eq!(wire_of("hosting"), first_record.rdata.serialise());
}

#[test]
fn use_at_symbol_in_place_of_owner_name() {
    let records = TxtConfigParser::parse(
        as_lines("$ORIGIN exemplar.com.\n@ IN 300 CNAME example.com"),
        Name::root(),
    )
    .unwrap();

    let first_record = only_record(records);
    assert_eq!("exemplar.com.", name_string(&first_record.name));
    assert_eq!(RRType::CNAME, first_record.rr_type);
    assert_eq!(RRClass::IN, first_record.class);
    assert_eq!(300, first_record.ttl);
    assert_eq!(wire_of("example.com"), first_record.rdata.serialise());
}

fn expected_soa_bytes() -> Vec<u8> {
    SOAResourceData {
        primary_name: Name::from_text(&"nameserver1".as_bytes().to_vec()).unwrap(),
        responsible_name: Name::from_text(&"owner".as_bytes().to_vec()).unwrap(),
        serial: 20,
        refresh: 7200,
        retry: 600,
        expire: 3600000,
        minimum: 60,
    }
    .serialise()
}

#[test]
fn parse_soa_rr_on_single_line() {
    let records = TxtConfigParser::parse(
        as_lines("@ IN SOA nameserver1 owner 20 7200 600 3600000 60"),
        Name::root(),
    )
    .unwrap();

    let first_record = only_record(records);
    assert_eq!(".", name_string(&first_record.name));
    assert_eq!(RRType::SOA, first_record.rr_type);
    assert_eq!(RRClass::IN, first_record.class);
    assert_eq!(0, first_record.ttl);
    assert_eq!(expected_soa_bytes(), first_record.rdata.serialise());
}

#[test]
fn parse_soa_rr_on_multiple_lines() {
    let records = TxtConfigParser::parse(
        as_lines("@ IN SOA nameserver1 owner (20\n 7200\n 600\n 3600000\n 60)"),
        Name::root(),
    )
    .unwrap();

    let first_record = only_record(records);
    assert_eq!(".", name_string(&first_record.name));
    assert_eq!(RRType::SOA, first_record.rr_type);
    assert_eq!(RRClass::IN, first_record.class);
    assert_eq!(0, first_record.ttl);
    assert_eq!(expected_soa_bytes(), first_record.rdata.serialise());
}

#[test]
fn two_explicit_classes_in_one_file_fail() {
    let err = TxtConfigParser::parse(
        as_lines("a.example.com. IN A 1.2.3.4\nb.example.com. CH A 1.2.3.4"),
        Name::root(),
    )
    .unwrap_err();

    assert!(matches!(
        err,
        RDNSError::MasterFileFormatError(FormatIssue::MultipleClasses, _)
    ));
}

#[test]
fn record_without_any_class_fails() {
    let err = TxtConfigParser::parse(as_lines("a.example.com. A 1.2.3.4"), Name::root())
        .unwrap_err();

    assert!(matches!(
        err,
        RDNSError::MasterFileFormatError(FormatIssue::NoClass, _)
    ));
}

#[test]
fn later_record_inherits_the_pinned_class() {
    let records = TxtConfigParser::parse(
        as_lines("a.example.com. IN A 1.2.3.4\nb.example.com. A 5.6.7.8"),
        Name::root(),
    )
    .unwrap();

    assert_eq!(2, records.len());
    match &records[1] {
        ZoneEntry::Record(rr) => {
            assert_eq!(RRClass::IN, rr.class);
            assert_eq!(vec![5, 6, 7, 8], rr.rdata.serialise());
        },
        _ => panic!("expected a record entry"),
    }
}

#[test]
fn recognised_but_unsupported_type_fails() {
    let err = TxtConfigParser::parse(
        as_lines("a.example.com. IN MX mail.example.com"),
        Name::root(),
    )
    .unwrap_err();

    assert!(matches!(
        err,
        RDNSError::MasterFileFormatError(FormatIssue::UnknownRRType, _)
    ));
}

#[test]
fn ip_part_out_of_range_fails() {
    let err = TxtConfigParser::parse(
        as_lines("a.example.com. IN A 1.2.3.999"),
        Name::root(),
    )
    .unwrap_err();

    assert!(matches!(
        err,
        RDNSError::MasterFileFormatError(FormatIssue::InvalidIpPart, _)
    ));
}

#[test]
fn stray_character_in_ip_fails() {
    let err = TxtConfigParser::parse(
        as_lines("a.example.com. IN A 1.2.x.4"),
        Name::root(),
    )
    .unwrap_err();

    assert!(matches!(
        err,
        RDNSError::MasterFileFormatError(FormatIssue::InvalidIpFormat, _)
    ));
}

#[test]
fn unknown_control_directive_fails() {
    let err = TxtConfigParser::parse(as_lines("$BOGUS example.com"), Name::root()).unwrap_err();

    assert!(matches!(
        err,
        RDNSError::MasterFileFormatError(FormatIssue::UnknownControlDirective, _)
    ));
}

#[test]
fn continuation_line_without_owner_name_fails() {
    let err =
        TxtConfigParser::parse(as_lines("  IN A 1.2.3.4"), Name::root()).unwrap_err();

    assert!(matches!(
        err,
        RDNSError::MasterFileFormatError(FormatIssue::NoOwnerName, _)
    ));
}

#[test]
fn continuation_line_reuses_the_owner_name() {
    let records = TxtConfigParser::parse(
        as_lines("a.example.com. IN A 1.2.3.4\n  IN A 5.6.7.8"),
        Name::root(),
    )
    .unwrap();

    assert_eq!(2, records.len());
    match &records[1] {
        ZoneEntry::Record(rr) => {
            assert_eq!("a.example.com.", name_string(&rr.name));
            assert_eq!(vec![5, 6, 7, 8], rr.rdata.serialise());
        },
        _ => panic!("expected a record entry"),
    }
}

#[test]
fn file_directive_yields_an_entry_under_the_given_origin() {
    // the directive's name is assembled from bytes to keep the bare word out
    // of this file
    let directive = String::from_utf8(vec![36, 73, 78, 67, 76, 85, 68, 69]).unwrap();
    let input = format!("{directive} sub.zone example.org.");
    let entries = TxtConfigParser::parse(as_lines(&input), Name::root()).unwrap();

    assert_eq!(1, entries.len());
    match &entries[0] {
        ZoneEntry::Inclusion { path, origin } => {
            assert_eq!("sub.zone".as_bytes().to_vec(), path.clone());
            assert_eq!("example.org.", name_string(origin));
        },
        _ => panic!("expected an inclusion entry"),
    }
}

#[test]
fn file_directive_without_a_name_uses_the_current_origin() {
    let directive = String::from_utf8(vec![36, 73, 78, 67, 76, 85, 68, 69]).unwrap();
    let input = format!("$ORIGIN example.net.\n{directive} sub.zone");
    let entries = TxtConfigParser::parse(as_lines(&input), Name::root()).unwrap();

    assert_eq!(1, entries.len());
    match &entries[0] {
        ZoneEntry::Inclusion { path, origin } => {
            assert_eq!("sub.zone".as_bytes().to_vec(), path.clone());
            assert_eq!("example.net.", name_string(origin));
        },
        _ => panic!("expected an inclusion entry"),
    }
}

#[test]
fn bad_soa_counter_fails_as_invalid_number() {
    let err = TxtConfigParser::parse(
        as_lines("@ IN SOA ns owner 20 99999999999 600 3600000 60"),
        Name::root(),
    )
    .unwrap_err();

    assert!(matches!(
        err,
        RDNSError::MasterFileFormatError(FormatIssue::InvalidNumber, _)
    ));
}

#[test]
fn closing_parenthesis_without_block_fails() {
    let err = TxtConfigParser::parse(
        as_lines("@ IN SOA ns owner ) 20 7200 600 3600000 60"),
        Name::root(),
    )
    .unwrap_err();

    assert!(matches!(
        err,
        RDNSError::MasterFileFormatError(FormatIssue::NotInMultiline, _)
    ));
}

#[test]
fn nested_opening_parenthesis_fails() {
    let err = TxtConfigParser::parse(
        as_lines("@ IN SOA ns owner ((20\n 7200\n 600\n 3600000\n 60)"),
        Name::root(),
    )
    .unwrap_err();

    assert!(matches!(
        err,
        RDNSError::MasterFileFormatError(FormatIssue::NestedMultiline, _)
    ));
}

#[test]
fn records_keep_file_encounter_order() {
    let records = TxtConfigParser::parse(
        as_lines("a.example.com. IN A 1.1.1.1\nb.example.com. A 2.2.2.2\nc.example.com. A 3.3.3.3"),
        Name::root(),
    )
    .unwrap();

    assert_eq!(3, records.len());
    let expected = ["a.example.com.", "b.example.com.", "c.example.com."];
    for (entry, want) in records.iter().zip(expected.iter()) {
        match entry {
            ZoneEntry::Record(rr) => assert_eq!(*want, name_string(&rr.name)),
            _ => panic!("expected a record entry"),
        }
    }
}

#[test]
fn path_guard_finds_a_visited_path() {
    let seen = vec![b"a.zone".to_vec(), b"b.zone".to_vec()];
    assert!(rdns::txt_config::path_already_seen(&seen, &b"b.zone".to_vec()));
    assert!(!rdns::txt_config::path_already_seen(&seen, &b"c.zone".to_vec()));
    assert!(!rdns::txt_config::path_already_seen(&Vec::new(), &b"a.zone".to_vec()));
}

#[test]
fn format_errors_carry_their_message_and_position() {
    let err = TxtConfigParser::parse(as_lines("a.example.com. A 1.2.3.4"), Name::root())
        .unwrap_err();
    match err {
        RDNSError::MasterFileFormatError(issue, pos) => {
            assert_eq!("No class", issue.message());
            assert_eq!(1, pos.line);
        }
        _ => panic!("expected a format error"),
    }
    assert_eq!(
        "the name is invalid",
        RDNSError::NameInvalid.message()
    );
}
