pub mod chars;
pub mod error;
pub mod name;
pub mod record;
pub mod txt_config;

use crate::chars::{
    UPPER_A, UPPER_B, UPPER_C, UPPER_D, UPPER_E, UPPER_F, UPPER_G, UPPER_H, UPPER_I, UPPER_K,
    UPPER_L, UPPER_M, UPPER_N, UPPER_O, UPPER_P, UPPER_R, UPPER_S, UPPER_T, UPPER_U, UPPER_W,
    UPPER_X,
};
use vstd::prelude::*;

verus! {

/// A resource record (RR).
#[derive(Debug)]
pub struct ResourceRecord {
    /// The owner name of this resource record
    pub name: crate::name::Name,
    /// The TYPE code
    pub rr_type: RRType<u16>,
    /// The CLASS code
    pub class: RRClass<u16>,
    /// The time interval that the resource may be cached for.  A zero value
    /// means the record should not be cached.
    pub ttl: i32,
    /// The value of the resource record
    pub rdata: crate::record::ResourceData,
}

/// The view of a resource record: the owner name in wire form, the TYPE,
/// CLASS and TTL as they are, and the view of the payload.
pub struct SpecRecord {
    pub name: Seq<u8>,
    pub rr_type: RRType<u16>,
    pub class: RRClass<u16>,
    pub ttl: i32,
    pub rdata: crate::record::SpecResourceData,
}

impl View for ResourceRecord {
    type V = SpecRecord;

    open spec fn view(&self) -> SpecRecord {
        SpecRecord {
            name: self.name@,
            rr_type: self.rr_type,
            class: self.class,
            ttl: self.ttl,
            rdata: self.rdata@,
        }
    }
}

impl Clone for ResourceRecord {
    fn clone(&self) -> (r: Self)
        ensures
            r@ == self@,
    {
        ResourceRecord {
            name: self.name.clone(),
            rr_type: self.rr_type,
            class: self.class,
            ttl: self.ttl,
            rdata: self.rdata.clone(),
        }
    }
}

/// Resource record TYPE.
#[derive(Debug, Clone, Copy, PartialEq, Eq, Structural)]
pub enum RRType<T> {
    /// Alias, a host address
    A,
    /// Name Server, an authoritative name server
    NS,
    /// Mail Destination, obsolete, use MX
    MD,
    /// Mail Forwarder, obsolete, use MX
    MF,
    /// Canonical Name, the canonical name for an alias
    CNAME,
    /// Start Of Authority, marks the start of a zone of authority
    SOA,
    /// Mailbox, a mailbox domain name
    MB,
    /// Mail Group, a mail group member
    MG,
    /// Mail Rename, a mail rename domain name
    MR,
    /// Null, a null resource record
    NULL,
    /// Well Known Service, a well known service description
    WKS,
    /// Pointer, a domain name pointer
    PTR,
    /// Host Information
    HINFO,
    /// Mailbox Information or Mail list Information
    MINFO,
    /// Mail Exchange
    MX,
    /// Text, text strings
    TXT,
    /// A TYPE which is not known by this implementation
    UNKNOWN(T),
}

/// The two octet code of a resource record TYPE.
pub open spec fn spec_rr_type_value(t: RRType<u16>) -> u16 {
    match t {
        RRType::A => 1,
        RRType::NS => 2,
        RRType::MD => 3,
        RRType::MF => 4,
        RRType::CNAME => 5,
        RRType::SOA => 6,
        RRType::MB => 7,
        RRType::MG => 8,
        RRType::MR => 9,
        RRType::NULL => 10,
        RRType::WKS => 11,
        RRType::PTR => 12,
        RRType::HINFO => 13,
        RRType::MINFO => 14,
        RRType::MX => 15,
        RRType::TXT => 16,
        RRType::UNKNOWN(v) => v,
    }
}

/// The TYPE that a two octet code denotes.
pub open spec fn spec_rr_type_from_value(value: u16) -> RRType<u16> {
    if value == 1 { RRType::A }
    else if value == 2 { RRType::NS }
    else if value == 3 { RRType::MD }
    else if value == 4 { RRType::MF }
    else if value == 5 { RRType::CNAME }
    else if value == 6 { RRType::SOA }
    else if value == 7 { RRType::MB }
    else if value == 8 { RRType::MG }
    else if value == 9 { RRType::MR }
    else if value == 10 { RRType::NULL }
    else if value == 11 { RRType::WKS }
    else if value == 12 { RRType::PTR }
    else if value == 13 { RRType::HINFO }
    else if value == 14 { RRType::MINFO }
    else if value == 15 { RRType::MX }
    else if value == 16 { RRType::TXT }
    else { RRType::UNKNOWN(value) }
}

impl RRType<u16> {
    /// The two octet resource record TYPE code.
    pub fn value(&self) -> (r: u16)
        ensures
            r == spec_rr_type_value(*self),
    {
        match self {
            RRType::A => 1,
            RRType::NS => 2,
            RRType::MD => 3,
            RRType::MF => 4,
            RRType::CNAME => 5,
            RRType::SOA => 6,
            RRType::MB => 7,
            RRType::MG => 8,
            RRType::MR => 9,
            RRType::NULL => 10,
            RRType::WKS => 11,
            RRType::PTR => 12,
            RRType::HINFO => 13,
            RRType::MINFO => 14,
            RRType::MX => 15,
            RRType::TXT => 16,
            RRType::UNKNOWN(v) => *v,
        }
    }

    /// The enum value for the provided two octet TYPE code.
    pub fn from_value(value: u16) -> (r: Self)
        ensures
            r == spec_rr_type_from_value(value),
    {
        match value {
            1 => RRType::A,
            2 => RRType::NS,
            3 => RRType::MD,
            4 => RRType::MF,
            5 => RRType::CNAME,
            6 => RRType::SOA,
            7 => RRType::MB,
            8 => RRType::MG,
            9 => RRType::MR,
            10 => RRType::NULL,
            11 => RRType::WKS,
            12 => RRType::PTR,
            13 => RRType::HINFO,
            14 => RRType::MINFO,
            15 => RRType::MX,
            16 => RRType::TXT,
            v => RRType::UNKNOWN(v),
        }
    }
}

/// The TYPE that a textual mnemonic denotes; a text that is no known
/// mnemonic denotes `UNKNOWN(0)`.
pub open spec fn spec_rr_type_of_text(t: Seq<u8>) -> RRType<u16> {
    if t == seq![UPPER_A] { RRType::A }
    else if t == seq![UPPER_N, UPPER_S] { RRType::NS }
    else if t == seq![UPPER_M, UPPER_D] { RRType::MD }
    else if t == seq![UPPER_M, UPPER_F] { RRType::MF }
    else if t == seq![UPPER_C, UPPER_N, UPPER_A, UPPER_M, UPPER_E] { RRType::CNAME }
    else if t == seq![UPPER_S, UPPER_O, UPPER_A] { RRType::SOA }
    else if t == seq![UPPER_M, UPPER_B] { RRType::MB }
    else if t == seq![UPPER_M, UPPER_G] { RRType::MG }
    else if t == seq![UPPER_M, UPPER_R] { RRType::MR }
    else if t == seq![UPPER_N, UPPER_U, UPPER_L, UPPER_L] { RRType::NULL }
    else if t == seq![UPPER_W, UPPER_K, UPPER_S] { RRType::WKS }
    else if t == seq![UPPER_P, UPPER_T, UPPER_R] { RRType::PTR }
    else if t == seq![UPPER_H, UPPER_I, UPPER_N, UPPER_F, UPPER_O] { RRType::HINFO }
    else if t == seq![UPPER_M, UPPER_I, UPPER_N, UPPER_F, UPPER_O] { RRType::MINFO }
    else if t == seq![UPPER_M, UPPER_X] { RRType::MX }
    else if t == seq![UPPER_T, UPPER_X, UPPER_T] { RRType::TXT }
    else { RRType::UNKNOWN(0) }
}

impl RRType<u16> {
    /// The TYPE for a textual mnemonic, `UNKNOWN(0)` when the text matches
    /// none.
    pub fn from_mnemonic(t: &Vec<u8>) -> (r: Self)
        ensures
            r == spec_rr_type_of_text(t@),
    {
        let n = t.len();
        if n == 1 && t[0] == UPPER_A {
            proof { assert(t@ =~= seq![UPPER_A]); }
            RRType::A
        } else if n == 2 && t[0] == UPPER_N && t[1] == UPPER_S {
            proof { assert(t@ =~= seq![UPPER_N, UPPER_S]); }
            RRType::NS
        } else if n == 2 && t[0] == UPPER_M && t[1] == UPPER_D {
            proof { assert(t@ =~= seq![UPPER_M, UPPER_D]); }
            RRType::MD
        } else if n == 2 && t[0] == UPPER_M && t[1] == UPPER_F {
            proof { assert(t@ =~= seq![UPPER_M, UPPER_F]); }
            RRType::MF
        } else if n == 5 && t[0] == UPPER_C && t[1] == UPPER_N && t[2] == UPPER_A && t[3]
            == UPPER_M && t[4] == UPPER_E {
            proof { assert(t@ =~= seq![UPPER_C, UPPER_N, UPPER_A, UPPER_M, UPPER_E]); }
            RRType::CNAME
        } else if n == 3 && t[0] == UPPER_S && t[1] == UPPER_O && t[2] == UPPER_A {
            proof { assert(t@ =~= seq![UPPER_S, UPPER_O, UPPER_A]); }
            RRType::SOA
        } else if n == 2 && t[0] == UPPER_M && t[1] == UPPER_B {
            proof { assert(t@ =~= seq![UPPER_M, UPPER_B]); }
            RRType::MB
        } else if n == 2 && t[0] == UPPER_M && t[1] == UPPER_G {
            proof { assert(t@ =~= seq![UPPER_M, UPPER_G]); }
            RRType::MG
        } else if n == 2 && t[0] == UPPER_M && t[1] == UPPER_R {
            proof { assert(t@ =~= seq![UPPER_M, UPPER_R]); }
            RRType::MR
        } else if n == 4 && t[0] == UPPER_N && t[1] == UPPER_U && t[2] == UPPER_L && t[3]
            == UPPER_L {
            proof { assert(t@ =~= seq![UPPER_N, UPPER_U, UPPER_L, UPPER_L]); }
            RRType::NULL
        } else if n == 3 && t[0] == UPPER_W && t[1] == UPPER_K && t[2] == UPPER_S {
            proof { assert(t@ =~= seq![UPPER_W, UPPER_K, UPPER_S]); }
            RRType::WKS
        } else if n == 3 && t[0] == UPPER_P && t[1] == UPPER_T && t[2] == UPPER_R {
            proof { assert(t@ =~= seq![UPPER_P, UPPER_T, UPPER_R]); }
            RRType::PTR
        } else if n == 5 && t[0] == UPPER_H && t[1] == UPPER_I && t[2] == UPPER_N && t[3]
            == UPPER_F && t[4] == UPPER_O {
            proof { assert(t@ =~= seq![UPPER_H, UPPER_I, UPPER_N, UPPER_F, UPPER_O]); }
            RRType::HINFO
        } else if n == 5 && t[0] == UPPER_M && t[1] == UPPER_I && t[2] == UPPER_N && t[3]
            == UPPER_F && t[4] == UPPER_O {
            proof { assert(t@ =~= seq![UPPER_M, UPPER_I, UPPER_N, UPPER_F, UPPER_O]); }
            RRType::MINFO
        } else if n == 2 && t[0] == UPPER_M && t[1] == UPPER_X {
            proof { assert(t@ =~= seq![UPPER_M, UPPER_X]); }
            RRType::MX
        } else if n == 3 && t[0] == UPPER_T && t[1] == UPPER_X && t[2] == UPPER_T {
            proof { assert(t@ =~= seq![UPPER_T, UPPER_X, UPPER_T]); }
            RRType::TXT
        } else {
            RRType::UNKNOWN(0)
        }
    }
}

/// Mapping a TYPE to its code and back yields the same TYPE, as long as an
/// unknown TYPE does not carry the code of a known one.
pub proof fn lemma_rr_type_round_trip(t: RRType<u16>)
    requires
        t matches RRType::UNKNOWN(v) ==> !(1 <= v <= 16),
    ensures
        spec_rr_type_from_value(spec_rr_type_value(t)) == t,
{
}

/// Mapping a code to its TYPE and back yields the same code, for every code.
pub proof fn lemma_rr_type_value_round_trip(value: u16)
    ensures
        spec_rr_type_value(spec_rr_type_from_value(value)) == value,
{
}

/// Resource record CLASS.
#[derive(Debug, Clone, Copy, PartialEq, Eq, Structural)]
pub enum RRClass<T> {
    /// Internet, the internet
    IN,
    /// CSNET, obsolete
    CS,
    /// CHAOS, the CHAOS class
    CH,
    /// Hesiod, the Hesiod name service
    HS,
    /// A CLASS which is not known by this implementation
    UNKNOWN(T),
}

/// The two octet code of a resource record CLASS.
pub open spec fn spec_rr_class_value(c: RRClass<u16>) -> u16 {
    match c {
        RRClass::IN => 1,
        RRClass::CS => 2,
        RRClass::CH => 3,
        RRClass::HS => 4,
        RRClass::UNKNOWN(v) => v,
    }
}

/// The CLASS that a two octet code denotes.
pub open spec fn spec_rr_class_from_value(value: u16) -> RRClass<u16> {
    if value == 1 { RRClass::IN }
    else if value == 2 { RRClass::CS }
    else if value == 3 { RRClass::CH }
    else if value == 4 { RRClass::HS }
    else { RRClass::UNKNOWN(value) }
}

impl RRClass<u16> {
    /// The two octet resource record CLASS code.
    pub fn value(&self) -> (r: u16)
        ensures
            r == spec_rr_class_value(*self),
    {
        match self {
            RRClass::IN => 1,
            RRClass::CS => 2,
            RRClass::CH => 3,
            RRClass::HS => 4,
            RRClass::UNKNOWN(v) => *v,
        }
    }

    /// The enum value for the provided two octet CLASS code.
    pub fn from_value(value: u16) -> (r: Self)
        ensures
            r == spec_rr_class_from_value(value),
    {
        match value {
            1 => RRClass::IN,
            2 => RRClass::CS,
            3 => RRClass::CH,
            4 => RRClass::HS,
            v => RRClass::UNKNOWN(v),
        }
    }
}

/// The CLASS that a textual mnemonic denotes; a text that is no known
/// mnemonic denotes `UNKNOWN(0)`.
pub open spec fn spec_rr_class_of_text(t: Seq<u8>) -> RRClass<u16> {
    if t == seq![UPPER_I, UPPER_N] { RRClass::IN }
    else if t == seq![UPPER_C, UPPER_S] { RRClass::CS }
    else if t == seq![UPPER_C, UPPER_H] { RRClass::CH }
    else if t == seq![UPPER_H, UPPER_S] { RRClass::HS }
    else { RRClass::UNKNOWN(0) }
}

impl RRClass<u16> {
    /// The CLASS for a textual mnemonic, `UNKNOWN(0)` when the text matches
    /// none.
    pub fn from_mnemonic(t: &Vec<u8>) -> (r: Self)
        ensures
            r == spec_rr_class_of_text(t@),
    {
        let n = t.len();
        if n == 2 && t[0] == UPPER_I && t[1] == UPPER_N {
            proof { assert(t@ =~= seq![UPPER_I, UPPER_N]); }
            RRClass::IN
        } else if n == 2 && t[0] == UPPER_C && t[1] == UPPER_S {
            proof { assert(t@ =~= seq![UPPER_C, UPPER_S]); }
            RRClass::CS
        } else if n == 2 && t[0] == UPPER_C && t[1] == UPPER_H {
            proof { assert(t@ =~= seq![UPPER_C, UPPER_H]); }
            RRClass::CH
        } else if n == 2 && t[0] == UPPER_H && t[1] == UPPER_S {
            proof { assert(t@ =~= seq![UPPER_H, UPPER_S]); }
            RRClass::HS
        } else {
            RRClass::UNKNOWN(0)
        }
    }
}

/// Mapping a CLASS to its code and back yields the same CLASS, as long as an
/// unknown CLASS does not carry the code of a known one.
pub proof fn lemma_rr_class_round_trip(c: RRClass<u16>)
    requires
        c matches RRClass::UNKNOWN(v) ==> !(1 <= v <= 4),
    ensures
        spec_rr_class_from_value(spec_rr_class_value(c)) == c,
{
}

/// Mapping a code to its CLASS and back yields the same code, for every code.
pub proof fn lemma_rr_class_value_round_trip(value: u16)
    ensures
        spec_rr_class_value(spec_rr_class_from_value(value)) == value,
{
}

} // verus!
