use rdns::error::RDNSError;
use rdns::name::{Name, NameParser};

/// The wire form a dotted name should encode to: each label prefixed with
/// its length (a trailing empty label yields the terminating zero byte).
fn dirty_to_bytes(repr: &str) -> Vec<u8> {
    let mut result = Vec::with_capacity(repr.len());
    for label in repr.split('.') {
        result.push(label.len() as u8);
        for ch in label.chars() {
            result.push(ch as u8);
        }
    }
    result
}

fn to_string(name: &Name) -> String {
    String::from_utf8(name.to_text()).unwrap()
}

#[test]
fn root_name() {
    let name = Name::from_text(&".".as_bytes().to_vec()).unwrap();
    assert_eq!(vec![0; 1], name.raw());
}

#[test]
fn example_dot_com_relative() {
    let test_name = "example.com";
    let name = Name::from_text(&test_name.as_bytes().to_vec()).unwrap();

    let expected = dirty_to_bytes(test_name);
    assert_eq!(expected, name.raw());
}

#[test]
fn example_dot_com_absolute() {
    let test_name = "example.com.";
    let name = Name::from_text(&test_name.as_bytes().to_vec()).unwrap();

    let expected = dirty_to_bytes(test_name);
    assert_eq!(expected, name.raw());
}

#[test]
fn four_part_name() {
    let test_name = "a.b.example.com";
    let name = Name::from_text(&test_name.as_bytes().to_vec()).unwrap();

    let expected = dirty_to_bytes(test_name);
    assert_eq!(expected, name.raw());
}

#[test]
fn hyphen_inside_label() {
    let test_name = "a-b.example.com";
    let name = Name::from_text(&test_name.as_bytes().to_vec()).unwrap();

    let expected = dirty_to_bytes(test_name);
    assert_eq!(expected, name.raw());
}

#[test]
fn label_must_not_start_with_hyphen() {
    let name = Name::from_text(&"-a.example.com".as_bytes().to_vec()).unwrap_err();

    assert!(matches!(name, RDNSError::NameLabelInvalid(0)));
}

#[test]
fn label_must_not_end_with_hyphen() {
    let name = Name::from_text(&"a-.example.com".as_bytes().to_vec()).unwrap_err();

    assert!(matches!(name, RDNSError::NameLabelInvalid(1)));
}

#[test]
fn label_must_not_contain_invalid_characters() {
    let name = Name::from_text(&"a.ex@mple.com".as_bytes().to_vec()).unwrap_err();

    assert!(matches!(name, RDNSError::NameLabelInvalid(4)));
}

#[test]
fn empty_string_not_a_valid_name() {
    let name = Name::from_text(&Vec::new()).unwrap_err();

    assert!(matches!(name, RDNSError::NameInvalid));
}

#[test]
fn name_too_long() {
    let label = vec![b'a'; 63];
    let mut name = Vec::new();
    for _ in 0..5 {
        name.extend(label.iter());
        name.push(b'.');
    }
    let name = Name::from_text(&name).unwrap_err();

    assert!(matches!(name, RDNSError::NameTooLong(320)));
}

#[test]
fn name_label_too_long() {
    let mut name = vec![b'a'; 65];
    name.extend_from_slice(".com".as_bytes());
    let name = Name::from_text(&name).unwrap_err();

    assert!(matches!(name, RDNSError::NameLabelTooLong(65)));
}

#[test]
fn name_label_would_overflow_byte() {
    let mut name = vec![b'a'; 260];
    name.extend_from_slice(".com".as_bytes());
    let name = Name::from_text(&name).unwrap_err();

    assert!(matches!(name, RDNSError::NameTooLong(264)));
}

#[test]
fn round_trip_example_dot_com_relative() {
    let test_name = "example.com";
    let name = Name::from_text(&test_name.as_bytes().to_vec()).unwrap();

    assert_eq!(test_name.to_string(), to_string(&name));
}

#[test]
fn round_trip_example_dot_com_absolute() {
    let test_name = "example.com.";
    let name = Name::from_text(&test_name.as_bytes().to_vec()).unwrap();

    assert_eq!(test_name.to_string(), to_string(&name));
}

#[test]
fn parse_with_stop_pattern_for_example_dot_com_absolute() {
    let test_name = "example.com. ";
    let (name, _used) =
        Name::parse(&test_name.as_bytes().to_vec(), 0, &vec![b' ']).unwrap();

    assert_eq!(test_name.trim_end().to_string(), to_string(&name));
}

#[test]
fn parse_with_stop_pattern_for_example_dot_com_relative() {
    let test_name = "example.com ";
    let (name, _used) =
        Name::parse(&test_name.as_bytes().to_vec(), 0, &vec![b' ']).unwrap();

    assert_eq!(test_name.trim_end().to_string(), to_string(&name));
}

#[test]
fn parse_with_multi_stop_pattern() {
    let test_name = "example.com\t";
    let (name, _used) =
        Name::parse(&test_name.as_bytes().to_vec(), 0, &vec![b' ', b'\t']).unwrap();

    assert_eq!(test_name.trim_end().to_string(), to_string(&name));
}

#[test]
fn root_decodes_back_to_a_dot() {
    let name = Name::from_text(&".".as_bytes().to_vec()).unwrap();
    assert_eq!(".".as_bytes().to_vec(), name.to_text());
}

#[test]
fn label_of_exactly_64_bytes_is_rejected() {
    let mut name = vec![b'a'; 64];
    name.extend_from_slice(".com".as_bytes());
    let err = Name::from_text(&name).unwrap_err();

    assert!(matches!(err, RDNSError::NameLabelTooLong(64)));
}

#[test]
fn label_of_exactly_63_bytes_is_accepted() {
    let mut text = vec![b'a'; 63];
    text.extend_from_slice(".com".as_bytes());
    let name = Name::from_text(&text).unwrap();
    assert_eq!(text, name.to_text());
}

#[test]
fn wire_form_over_255_bytes_is_rejected() {
    // 255 presentation bytes encode to 256 wire bytes: four labels of 63
    // gain a length prefix each.
    let label: String = std::iter::repeat('a').take(63).collect();
    let text = format!("{label}.{label}.{label}.{label}");
    assert_eq!(255, text.len());
    let err = Name::from_text(&text.as_bytes().to_vec()).unwrap_err();

    assert!(matches!(err, RDNSError::NameTooLong(256)));
}

#[test]
fn name_parse_reports_how_much_it_consumed() {
    let line = "host.example.com rest".as_bytes().to_vec();
    let (name, used) = Name::parse(&line, 0, &vec![b' ']).unwrap();
    assert_eq!(16, used);
    assert_eq!("host.example.com".as_bytes().to_vec(), name.to_text());
}

#[test]
fn name_parser_yields_wire_bytes() {
    let wire = NameParser::parse_repr(&"example.com.".as_bytes().to_vec()).unwrap();
    assert_eq!(dirty_to_bytes("example.com."), wire);
}

#[test]
fn relative_and_absolute_forms_differ() {
    let relative = Name::from_text(&"example.com".as_bytes().to_vec()).unwrap();
    let absolute = Name::from_text(&"example.com.".as_bytes().to_vec()).unwrap();
    assert!(relative.is_relative());
    assert!(!absolute.is_relative());
    assert_eq!(relative.len() + 1, absolute.len());
}
