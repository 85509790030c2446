//! The peer network address: an IPv4 or IPv6 address with a 16-bit port.
//!
//! On the wire the payload is the raw address octets followed by the
//! VLQ-encoded port, so it is 4+2..3 or 16+2..3 bytes long; decoding accepts
//! exactly those byte counts.

use crate::bytes::bytes_equal;
use crate::models::errors::{ModelParseError, ModelSerializeError};
use crate::vlq::{
    lemma_spec_get_u16_of_enc, lemma_vlq_enc_len_u16, spec_get_u16, vlq_enc, TryFromVlq,
    TryIntoVlq, VlqReader, VlqWriter,
};
use vstd::prelude::*;
use vstd::slice::slice_subrange;

verus! {

/// The raw octets of an IP address, either family.
#[derive(Debug, Clone, Copy)]
pub enum IpOctets {
    /// An IPv4 address.
    V4([u8; 4]),
    /// An IPv6 address.
    V6([u8; 16]),
}

/// A peer's address: IP octets and a port.
#[derive(Debug, Clone, Copy)]
pub struct PeerAddr {
    /// The IP address octets.
    pub ip: IpOctets,
    /// The port.
    pub port: u16,
}

/// The mathematical shape of a peer address: the address octets (four or
/// sixteen of them) and the port.
pub ghost struct SpecPeerAddr {
    /// The IP address octets.
    pub ip: Seq<u8>,
    /// The port.
    pub port: u16,
}

impl View for IpOctets {
    type V = Seq<u8>;

    open spec fn view(&self) -> Seq<u8> {
        match self {
            IpOctets::V4(a) => a@,
            IpOctets::V6(a) => a@,
        }
    }
}

impl View for PeerAddr {
    type V = SpecPeerAddr;

    open spec fn view(&self) -> SpecPeerAddr {
        SpecPeerAddr { ip: self.ip@, port: self.port }
    }
}

/// The address payload as it goes on the wire: raw IP octets, then the
/// VLQ-encoded port.
pub open spec fn spec_addr_payload(a: SpecPeerAddr) -> Seq<u8> {
    a.ip + vlq_enc(a.port as nat)
}

/// What decoding an address payload yields: exactly 6, 7, 18 or 19 bytes are
/// accepted (IP octets plus a two- or three-byte port run); any other count
/// is `InvalidPeerAddrLength`, and port bytes that do not decode as a `u16`
/// are `InvalidPortEncoding`.
pub open spec fn spec_addr_from_payload(b: Seq<u8>) -> Result<SpecPeerAddr, ModelParseError> {
    if b.len() == 6 || b.len() == 7 {
        match spec_get_u16(b.skip(4), 0) {
            Ok((p, _)) => Ok(SpecPeerAddr { ip: b.subrange(0, 4), port: p }),
            Err(e) => Err(ModelParseError::InvalidPortEncoding(e)),
        }
    } else if b.len() == 18 || b.len() == 19 {
        match spec_get_u16(b.skip(16), 0) {
            Ok((p, _)) => Ok(SpecPeerAddr { ip: b.subrange(0, 16), port: p }),
            Err(e) => Err(ModelParseError::InvalidPortEncoding(e)),
        }
    } else {
        Err(ModelParseError::InvalidPeerAddrLength(b.len() as usize))
    }
}

impl PeerAddr {
    /// Byte length of an IPv4 address payload with a two-byte port run.
    pub const SIZE_IPV4_SOCKET: usize = 6;

    /// Byte length of an IPv6 address payload with a two-byte port run.
    pub const SIZE_IPV6_SOCKET: usize = 18;

    /// Whether the address is IPv4.
    pub fn is_ipv4(&self) -> (r: bool)
        ensures
            r == (self@.ip.len() == 4),
    {
        match &self.ip {
            IpOctets::V4(_) => true,
            IpOctets::V6(_) => false,
        }
    }

    /// Whether the address is IPv6.
    pub fn is_ipv6(&self) -> (r: bool)
        ensures
            r == (self@.ip.len() == 16),
    {
        match &self.ip {
            IpOctets::V4(_) => false,
            IpOctets::V6(_) => true,
        }
    }

    /// Decode an address from a full payload, as [`spec_addr_from_payload`]
    /// describes.
    pub fn try_from_vlq(data: Vec<u8>) -> (r: Result<PeerAddr, ModelParseError>)
        ensures
            match spec_addr_from_payload(data@) {
                Ok(a) => r matches Ok(x) && x@ == a,
                Err(e) => r matches Err(x) && x == e,
            },
    {
        let len = data.len();
        if len == 6 || len == 7 {
            let ip: [u8; 4] = [data[0], data[1], data[2], data[3]];
            let port_slice = slice_subrange(data.as_slice(), 4, len);
            proof {
                assert(port_slice@ =~= data@.skip(4));
                assert(ip@ =~= data@.subrange(0, 4));
            }
            let mut rd = VlqReader::new(port_slice);
            match rd.get_u16() {
                Ok(p) => Ok(PeerAddr { ip: IpOctets::V4(ip), port: p }),
                Err(e) => Err(ModelParseError::InvalidPortEncoding(e)),
            }
        } else if len == 18 || len == 19 {
            let ip: [u8; 16] = [
                data[0],
                data[1],
                data[2],
                data[3],
                data[4],
                data[5],
                data[6],
                data[7],
                data[8],
                data[9],
                data[10],
                data[11],
                data[12],
                data[13],
                data[14],
                data[15],
            ];
            let port_slice = slice_subrange(data.as_slice(), 16, len);
            proof {
                assert(port_slice@ =~= data@.skip(16));
                assert(ip@ =~= data@.subrange(0, 16));
            }
            let mut rd = VlqReader::new(port_slice);
            match rd.get_u16() {
                Ok(p) => Ok(PeerAddr { ip: IpOctets::V6(ip), port: p }),
                Err(e) => Err(ModelParseError::InvalidPortEncoding(e)),
            }
        } else {
            Err(ModelParseError::InvalidPeerAddrLength(len))
        }
    }

    /// Encode the address into its wire payload; the growable buffer never
    /// refuses bytes, so the result is always the payload.
    pub fn try_into_vlq(&self) -> (r: Result<Vec<u8>, ModelSerializeError>)
        ensures
            r matches Ok(v) && v@ == spec_addr_payload(self@),
    {
        let mut w = VlqWriter::new();
        match &self.ip {
            IpOctets::V4(a) => w.write_bytes(a.as_slice()),
            IpOctets::V6(a) => w.write_bytes(a.as_slice()),
        }
        w.put_u16(self.port);
        let out = w.into_inner();
        proof {
            assert(out@ =~= spec_addr_payload(self@));
        }
        Ok(out)
    }
}

impl TryFromVlq for PeerAddr {
    type Error = ModelParseError;

    fn try_from_vlq(data: Vec<u8>) -> Result<Self, Self::Error> {
        PeerAddr::try_from_vlq(data)
    }
}

impl TryIntoVlq for PeerAddr {
    type Error = ModelSerializeError;

    fn try_into_vlq(&self) -> Result<Vec<u8>, Self::Error> {
        PeerAddr::try_into_vlq(self)
    }
}

/// Every exec address value holds octets of one of the two families.
pub proof fn lemma_ip_len(a: &PeerAddr)
    ensures
        a@.ip.len() == 4 || a@.ip.len() == 16,
{
    match a.ip {
        IpOctets::V4(_) => {},
        IpOctets::V6(_) => {},
    }
}

/// Decoding a serialized address payload gives the address back, provided
/// the port is at least 128 (smaller ports encode in one byte, which the
/// accepted payload lengths exclude).
pub proof fn lemma_addr_payload_roundtrip(a: SpecPeerAddr)
    requires
        a.ip.len() == 4 || a.ip.len() == 16,
        a.port >= 128,
    ensures
        spec_addr_from_payload(spec_addr_payload(a)) == Ok::<SpecPeerAddr, ModelParseError>(a),
{
    let b = spec_addr_payload(a);
    let e = vlq_enc(a.port as nat);
    lemma_vlq_enc_len_u16(a.port);
    assert(e.subrange(0, e.len() as int) =~= e);
    lemma_spec_get_u16_of_enc(e, 0, a.port);
    if a.ip.len() == 4 {
        assert(b.skip(4) =~= e);
        assert(b.subrange(0, 4) =~= a.ip);
    } else {
        assert(b.skip(16) =~= e);
        assert(b.subrange(0, 16) =~= a.ip);
    }
}

/// Every payload byte count other than the four accepted ones is rejected,
/// with the count in the error.
pub proof fn lemma_addr_payload_rejects_bad_lengths(b: Seq<u8>)
    requires
        b.len() != 6,
        b.len() != 7,
        b.len() != 18,
        b.len() != 19,
    ensures
        spec_addr_from_payload(b) == Err::<SpecPeerAddr, ModelParseError>(
            ModelParseError::InvalidPeerAddrLength(b.len() as usize),
        ),
{
}

impl PartialEq for IpOctets {
    fn eq(&self, other: &Self) -> (r: bool) {
        match (self, other) {
            (IpOctets::V4(a), IpOctets::V4(b)) => bytes_equal(a.as_slice(), b.as_slice()),
            (IpOctets::V6(a), IpOctets::V6(b)) => bytes_equal(a.as_slice(), b.as_slice()),
            (IpOctets::V4(a), IpOctets::V6(b)) => {
                proof {
                    assert(a@.len() == 4 && b@.len() == 16);
                }
                false
            },
            (IpOctets::V6(a), IpOctets::V4(b)) => {
                proof {
                    assert(a@.len() == 16 && b@.len() == 4);
                }
                false
            },
        }
    }
}

impl vstd::std_specs::cmp::PartialEqSpecImpl for IpOctets {
    open spec fn obeys_eq_spec() -> bool {
        true
    }

    open spec fn eq_spec(&self, other: &Self) -> bool {
        self@ == other@
    }
}

impl PartialEq for PeerAddr {
    fn eq(&self, other: &Self) -> (r: bool) {
        self.ip == other.ip && self.port == other.port
    }
}

impl vstd::std_specs::cmp::PartialEqSpecImpl for PeerAddr {
    open spec fn obeys_eq_spec() -> bool {
        true
    }

    open spec fn eq_spec(&self, other: &Self) -> bool {
        self@ == other@
    }
}

} // verus!
