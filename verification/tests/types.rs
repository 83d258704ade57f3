use rdns::{RRClass, RRType};

fn assert_round_trip_for_rr_type(rr_type: RRType<u16>) {
    assert_eq!(rr_type, RRType::from_value(rr_type.value()));
}

#[test]
fn rr_type_round_trip() {
    assert_round_trip_for_rr_type(RRType::A);
    assert_round_trip_for_rr_type(RRType::NS);
    assert_round_trip_for_rr_type(RRType::MD);
    assert_round_trip_for_rr_type(RRType::MF);
    assert_round_trip_for_rr_type(RRType::CNAME);
    assert_round_trip_for_rr_type(RRType::SOA);
    assert_round_trip_for_rr_type(RRType::MB);
    assert_round_trip_for_rr_type(RRType::MG);
    assert_round_trip_for_rr_type(RRType::MR);
    assert_round_trip_for_rr_type(RRType::NULL);
    assert_round_trip_for_rr_type(RRType::WKS);
    assert_round_trip_for_rr_type(RRType::PTR);
    assert_round_trip_for_rr_type(RRType::HINFO);
    assert_round_trip_for_rr_type(RRType::MINFO);
    assert_round_trip_for_rr_type(RRType::MX);
    assert_round_trip_for_rr_type(RRType::TXT);
    assert_round_trip_for_rr_type(RRType::UNKNOWN(100));
}

fn assert_round_trip_for_rr_class(rr_class: RRClass<u16>) {
    assert_eq!(rr_class, RRClass::from_value(rr_class.value()));
}

#[test]
fn rr_class_round_trip() {
    assert_round_trip_for_rr_class(RRClass::IN);
    assert_round_trip_for_rr_class(RRClass::CS);
    assert_round_trip_for_rr_class(RRClass::CH);
    assert_round_trip_for_rr_class(RRClass::HS);
    assert_round_trip_for_rr_class(RRClass::UNKNOWN(100));
}

#[test]
fn rr_type_codes_are_the_documented_ones() {
    assert_eq!(1, RRType::A.value());
    assert_eq!(5, RRType::CNAME.value());
    assert_eq!(6, RRType::SOA.value());
    assert_eq!(16, RRType::TXT.value());
    assert_eq!(RRType::MX, RRType::from_value(15));
}

#[test]
fn rr_class_codes_are_the_documented_ones() {
    assert_eq!(1, RRClass::IN.value());
    assert_eq!(4, RRClass::HS.value());
    assert_eq!(RRClass::CH, RRClass::from_value(3));
}

#[test]
fn mnemonics_name_types_and_classes() {
    assert_eq!(RRType::CNAME, RRType::from_mnemonic(&b"CNAME".to_vec()));
    assert_eq!(RRType::SOA, RRType::from_mnemonic(&b"SOA".to_vec()));
    assert_eq!(RRType::UNKNOWN(0), RRType::from_mnemonic(&b"BOGUS".to_vec()));
    assert_eq!(RRClass::IN, RRClass::from_mnemonic(&b"IN".to_vec()));
    assert_eq!(RRClass::UNKNOWN(0), RRClass::from_mnemonic(&b"ZZ".to_vec()));
}
