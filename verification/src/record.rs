use crate::error::RDNSError;
use crate::name::{spec_parse_repr, Name, NameOutcome};
use vstd::prelude::*;

verus! {

// ---------------------------------------------------------------------------
// Big-endian integer encodings
// ---------------------------------------------------------------------------

/// The four big-endian bytes of a 32-bit unsigned value.
pub open spec fn u32_be(x: u32) -> Seq<u8> {
    seq![(x >> 24u32) as u8, (x >> 16u32) as u8, (x >> 8u32) as u8, x as u8]
}

/// The four big-endian bytes of a 32-bit signed value, in two's complement.
pub open spec fn i32_be(x: i32) -> Seq<u8> {
    u32_be(x as u32)
}

fn push_u32_be(out: &mut Vec<u8>, x: u32)
    ensures
        final(out)@ == old(out)@ + u32_be(x),
{
    out.push(#[verifier::truncate] ((x >> 24u32) as u8));
    out.push(#[verifier::truncate] ((x >> 16u32) as u8));
    out.push(#[verifier::truncate] ((x >> 8u32) as u8));
    out.push(#[verifier::truncate] (x as u8));
    proof {
        assert(out@ =~= old(out)@ + u32_be(x));
    }
}

fn push_i32_be(out: &mut Vec<u8>, x: i32)
    ensures
        final(out)@ == old(out)@ + i32_be(x),
{
    push_u32_be(out, #[verifier::truncate] (x as u32));
}

pub(crate) fn copy_bytes(v: &Vec<u8>) -> (r: Vec<u8>)
    ensures
        r@ == v@,
{
    let mut out: Vec<u8> = Vec::new();
    let mut k: usize = 0;
    while k < v.len()
        invariant
            0 <= k <= v@.len(),
            out@ == v@.subrange(0, k as int),
        decreases v@.len() - k,
    {
        out.push(v[k]);
        proof {
            assert(v@.subrange(0, k + 1) =~= v@.subrange(0, k as int) + seq![v@[k as int]]);
        }
        k = k + 1;
    }
    proof {
        assert(out@ =~= v@);
    }
    out
}

// ---------------------------------------------------------------------------
// The payloads of the supported record types
// ---------------------------------------------------------------------------

/// The rdata payload of a record, one variant per supported TYPE; the view
/// every serialisation contract is stated over.
pub enum SpecResourceData {
    Alias { octets: Seq<u8> },
    NameServer { name: Seq<u8> },
    CName { name: Seq<u8> },
    Soa { data: SpecSoaData },
}

/// The view of an SOA payload: both names in wire form plus the five counters.
pub struct SpecSoaData {
    pub primary: Seq<u8>,
    pub responsible: Seq<u8>,
    pub serial: u32,
    pub refresh: i32,
    pub retry: i32,
    pub expire: i32,
    pub minimum: u32,
}

/// The canonical wire bytes of an SOA payload.
pub open spec fn spec_soa_wire(d: SpecSoaData) -> Seq<u8> {
    d.primary + d.responsible + u32_be(d.serial) + i32_be(d.refresh) + i32_be(d.retry) + i32_be(
        d.expire,
    ) + u32_be(d.minimum)
}

/// The canonical wire bytes of any supported payload.
pub open spec fn spec_rdata_wire(d: SpecResourceData) -> Seq<u8> {
    match d {
        SpecResourceData::Alias { octets } => octets,
        SpecResourceData::NameServer { name } => name,
        SpecResourceData::CName { name } => name,
        SpecResourceData::Soa { data } => spec_soa_wire(data),
    }
}

/// An A record payload: the four octets of an IPv4 address.
#[derive(Debug)]
pub struct AliasResourceData(pub [u8; 4]);

impl View for AliasResourceData {
    type V = Seq<u8>;

    open spec fn view(&self) -> Seq<u8> {
        self.0@
    }
}

impl AliasResourceData {
    /// The wire form: the four address octets as they are.
    pub fn serialise(&self) -> (r: Vec<u8>)
        ensures
            r@ == self@,
    {
        let mut out: Vec<u8> = Vec::new();
        out.push(self.0[0]);
        out.push(self.0[1]);
        out.push(self.0[2]);
        out.push(self.0[3]);
        proof {
            assert(out@ =~= self.0@);
        }
        out
    }
}

impl Clone for AliasResourceData {
    fn clone(&self) -> (r: Self)
        ensures
            r@ == self@,
    {
        AliasResourceData([self.0[0], self.0[1], self.0[2], self.0[3]])
    }
}

/// An NS record payload: the name of an authoritative name server.
#[derive(Debug)]
pub struct NameServerResourceData(pub Name);

impl View for NameServerResourceData {
    type V = Seq<u8>;

    open spec fn view(&self) -> Seq<u8> {
        self.0@
    }
}

impl NameServerResourceData {
    /// The wire form: the encoded name.
    pub fn serialise(&self) -> (r: Vec<u8>)
        ensures
            r@ == self@,
    {
        self.0.raw()
    }
}

impl Clone for NameServerResourceData {
    fn clone(&self) -> (r: Self)
        ensures
            r@ == self@,
    {
        NameServerResourceData(self.0.clone())
    }
}

/// A CNAME record payload: the canonical name of an alias.
#[derive(Debug)]
pub struct CNameResourceData(pub Name);

impl View for CNameResourceData {
    type V = Seq<u8>;

    open spec fn view(&self) -> Seq<u8> {
        self.0@
    }
}

impl CNameResourceData {
    /// Parse the payload from the presentation text of a name.
    pub fn read(source: &Vec<u8>) -> (r: Result<Self, RDNSError>)
        ensures
            ({
                let o = spec_parse_repr(source@);
                match r {
                    Ok(d) => o matches NameOutcome::Accept { wire, .. } && wire == d@,
                    Err(e) => o matches NameOutcome::Reject { err } && e == err,
                }
            }),
    {
        match Name::from_text(source) {
            Ok(n) => Ok(CNameResourceData(n)),
            Err(e) => Err(e),
        }
    }

    /// The wire form: the encoded name.
    pub fn serialise(&self) -> (r: Vec<u8>)
        ensures
            r@ == self@,
    {
        self.0.raw()
    }
}

impl Clone for CNameResourceData {
    fn clone(&self) -> (r: Self)
        ensures
            r@ == self@,
    {
        CNameResourceData(self.0.clone())
    }
}

/// An SOA record payload.
#[derive(Debug)]
pub struct SOAResourceData {
    /// The name of the primary name server hosting the zone, the MNAME.
    pub primary_name: Name,
    /// The mailbox of the person responsible for the zone, the RNAME.
    pub responsible_name: Name,
    /// The version number of the original copy of the zone.
    pub serial: u32,
    /// Time interval before the zone should be refreshed.
    pub refresh: i32,
    /// Time interval before a failed refresh should be retried.
    pub retry: i32,
    /// Upper limit on the time the zone remains authoritative.
    pub expire: i32,
    /// The minimum TTL for resource records in the zone.
    pub minimum: u32,
}

impl View for SOAResourceData {
    type V = SpecSoaData;

    open spec fn view(&self) -> SpecSoaData {
        SpecSoaData {
            primary: self.primary_name@,
            responsible: self.responsible_name@,
            serial: self.serial,
            refresh: self.refresh,
            retry: self.retry,
            expire: self.expire,
            minimum: self.minimum,
        }
    }
}

impl SOAResourceData {
    /// The wire form: both names followed by the five counters, each as four
    /// big-endian bytes.
    pub fn serialise(&self) -> (r: Vec<u8>)
        ensures
            r@ == spec_soa_wire(self@),
    {
        let mut out = self.primary_name.raw();
        let mut responsible = self.responsible_name.raw();
        out.append(&mut responsible);
        push_u32_be(&mut out, self.serial);
        push_i32_be(&mut out, self.refresh);
        push_i32_be(&mut out, self.retry);
        push_i32_be(&mut out, self.expire);
        push_u32_be(&mut out, self.minimum);
        proof {
            assert(out@ =~= spec_soa_wire(self@));
        }
        out
    }
}

impl Clone for SOAResourceData {
    fn clone(&self) -> (r: Self)
        ensures
            r@ == self@,
    {
        SOAResourceData {
            primary_name: self.primary_name.clone(),
            responsible_name: self.responsible_name.clone(),
            serial: self.serial,
            refresh: self.refresh,
            retry: self.retry,
            expire: self.expire,
            minimum: self.minimum,
        }
    }
}

/// The payload of a resource record, a closed choice over the supported
/// record types.
#[derive(Debug)]
pub enum ResourceData {
    Alias(AliasResourceData),
    NameServer(NameServerResourceData),
    CName(CNameResourceData),
    Soa(SOAResourceData),
}

impl View for ResourceData {
    type V = SpecResourceData;

    open spec fn view(&self) -> SpecResourceData {
        match self {
            ResourceData::Alias(d) => SpecResourceData::Alias { octets: d@ },
            ResourceData::NameServer(d) => SpecResourceData::NameServer { name: d@ },
            ResourceData::CName(d) => SpecResourceData::CName { name: d@ },
            ResourceData::Soa(d) => SpecResourceData::Soa { data: d@ },
        }
    }
}

impl ResourceData {
    /// The canonical wire bytes of the payload.
    pub fn serialise(&self) -> (r: Vec<u8>)
        ensures
            r@ == spec_rdata_wire(self@),
    {
        match self {
            ResourceData::Alias(d) => d.serialise(),
            ResourceData::NameServer(d) => d.serialise(),
            ResourceData::CName(d) => d.serialise(),
            ResourceData::Soa(d) => d.serialise(),
        }
    }
}

impl Clone for ResourceData {
    fn clone(&self) -> (r: Self)
        ensures
            r@ == self@,
    {
        match self {
            ResourceData::Alias(d) => ResourceData::Alias(d.clone()),
            ResourceData::NameServer(d) => ResourceData::NameServer(d.clone()),
            ResourceData::CName(d) => ResourceData::CName(d.clone()),
            ResourceData::Soa(d) => ResourceData::Soa(d.clone()),
        }
    }
}

// ---------------------------------------------------------------------------
// Payloads kept outside the zone parser's dispatch
// ---------------------------------------------------------------------------

/// A payload kept as raw bytes.
#[derive(Debug)]
pub struct RawResourceData(pub Vec<u8>);

impl View for RawResourceData {
    type V = Seq<u8>;

    open spec fn view(&self) -> Seq<u8> {
        self.0@
    }
}

impl RawResourceData {
    /// Take the payload bytes as they are.
    pub fn read(source: &Vec<u8>) -> (r: Result<Self, RDNSError>)
        ensures
            r matches Ok(d) && d@ == source@,
    {
        Ok(RawResourceData(copy_bytes(source)))
    }

    /// The wire form: the bytes unchanged.
    pub fn serialise(&self) -> (r: Vec<u8>)
        ensures
            r@ == self@,
    {
        copy_bytes(&self.0)
    }
}

/// A HINFO record payload: the host information text.
#[derive(Debug)]
pub struct HInfoResourceData(pub Vec<u8>);

impl View for HInfoResourceData {
    type V = Seq<u8>;

    open spec fn view(&self) -> Seq<u8> {
        self.0@
    }
}

impl HInfoResourceData {
    /// Take the host information text as it is.
    pub fn read(source: &Vec<u8>) -> (r: Result<Self, RDNSError>)
        ensures
            r matches Ok(d) && d@ == source@,
    {
        Ok(HInfoResourceData(copy_bytes(source)))
    }

    /// The wire form: the text bytes unchanged.
    pub fn serialise(&self) -> (r: Vec<u8>)
        ensures
            r@ == self@,
    {
        copy_bytes(&self.0)
    }
}

/// An MX record payload: a preference value and the exchange name.
#[derive(Debug)]
pub struct MailExchangeResourceData {
    preference: u16,
    exchange: Name,
}

/// The view of an MX payload.
pub struct SpecMailExchangeData {
    pub preference: u16,
    pub exchange: Seq<u8>,
}

impl View for MailExchangeResourceData {
    type V = SpecMailExchangeData;

    closed spec fn view(&self) -> SpecMailExchangeData {
        SpecMailExchangeData { preference: self.preference, exchange: self.exchange@ }
    }
}

/// The canonical wire bytes of an MX payload: the preference as two
/// big-endian bytes, then the encoded exchange name.
pub open spec fn spec_mx_wire(d: SpecMailExchangeData) -> Seq<u8> {
    seq![(d.preference >> 8u16) as u8, d.preference as u8] + d.exchange
}

impl MailExchangeResourceData {
    /// Parse the payload from a preference value and the presentation text of
    /// the exchange name.
    pub fn read(priority: u16, exchange: &Vec<u8>) -> (r: Result<Self, RDNSError>)
        ensures
            ({
                let o = spec_parse_repr(exchange@);
                match r {
                    Ok(d) => o matches NameOutcome::Accept { wire, .. } && d@
                        == (SpecMailExchangeData { preference: priority, exchange: wire }),
                    Err(e) => o matches NameOutcome::Reject { err } && e == err,
                }
            }),
    {
        match Name::from_text(exchange) {
            Ok(n) => Ok(MailExchangeResourceData { preference: priority, exchange: n }),
            Err(e) => Err(e),
        }
    }

    /// The wire form of the payload.
    pub fn serialise(&self) -> (r: Vec<u8>)
        ensures
            r@ == spec_mx_wire(self@),
    {
        let mut out: Vec<u8> = Vec::new();
        out.push(#[verifier::truncate] ((self.preference >> 8u16) as u8));
        out.push(#[verifier::truncate] (self.preference as u8));
        let mut name = self.exchange.raw();
        out.append(&mut name);
        proof {
            assert(out@ =~= spec_mx_wire(self@));
        }
        out
    }
}

} // verus!
