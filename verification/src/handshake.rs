//! The top-level handshake message codec: field order, the address-length
//! quirk, the optional feature section, and the post-parse normalization
//! that strips unrecognized features.

use crate::clock::make_timestamp;
use crate::features::errors::FeaturesError;
use crate::features::registry::{
    parse_feature, serialize_feature, spec_feature_id, spec_feature_payload, spec_parse_feature,
    spec_ser_feature, spec_ser_feature_list, Features, PeerFeature, SpecFeature,
};
use crate::models::errors::{ModelParseError, ModelSerializeError};
use crate::models::peer_addr::{spec_addr_from_payload, spec_addr_payload, PeerAddr, SpecPeerAddr};
use crate::models::short_string::{short_string_ok, ShortString};
use crate::models::version::Version;
use crate::utf8::is_utf8;
use crate::vlq::{
    spec_get_u16, spec_get_u64, spec_get_u8, vlq_enc, VlqError, VlqReader, VlqWriter,
};
use vstd::prelude::*;

verus! {

/// Ways parsing a handshake buffer can fail.
#[derive(Debug, Clone, Copy, PartialEq, Eq, Structural)]
pub enum HsSpecReaderError {
    /// A leaf model rejected its bytes.
    CannotReadModelFromBytes(ModelParseError),
    /// The buffer ended before a required raw field.
    CannotReadBytes,
    /// The advertised peer-address length was too short to carry the quirk;
    /// carries the advertised length and the least accepted one.
    TooShortPeerAddrDataLength(u8, u8),
    /// A feature could not be read.
    CannotReadPeerFeatureFromBytes(FeaturesError),
    /// A VLQ-encoded field did not decode.
    CannotVlqDecodeData(VlqError),
}

/// Ways serializing a handshake can fail.
#[derive(Debug, Clone, Copy, PartialEq, Eq, Structural)]
pub enum HsSpecWriterError {
    /// A leaf model refused to serialize.
    CannotWriteModel(ModelSerializeError),
    /// The backing buffer refused the bytes.
    CannotWriteBytes,
    /// A feature refused to serialize.
    CannotWritePeerFeature(FeaturesError),
}

/// The structured handshake message. The wire timestamp is not part of it:
/// it is regenerated on each serialization and discarded on parse.
#[derive(Debug)]
pub struct Handshake {
    /// The name of the peer's client software.
    pub agent_name: ShortString,
    /// The client's protocol version.
    pub version: Version,
    /// The peer's own display name.
    pub peer_name: ShortString,
    /// The peer's public address, when it advertises one.
    pub pub_address: Option<PeerAddr>,
    /// The peer's features, when any recognized ones were present.
    pub features: Option<Features>,
}

/// The mathematical shape of a handshake message.
pub ghost struct SpecHandshake {
    /// The agent name's bytes.
    pub agent_name: Seq<u8>,
    /// The three version bytes.
    pub version: Seq<u8>,
    /// The peer name's bytes.
    pub peer_name: Seq<u8>,
    /// The public address, if advertised.
    pub pub_address: Option<SpecPeerAddr>,
    /// The feature list, if present.
    pub features: Option<Seq<SpecFeature>>,
}

impl View for Handshake {
    type V = SpecHandshake;

    open spec fn view(&self) -> SpecHandshake {
        SpecHandshake {
            agent_name: self.agent_name@,
            version: self.version@,
            peer_name: self.peer_name@,
            pub_address: match self.pub_address {
                Some(a) => Some(a@),
                None => None,
            },
            features: match self.features {
                Some(ref fs) => Some(fs@),
                None => None,
            },
        }
    }
}

/// The two bytes by which the reference node inflates the advertised
/// peer-address length: the advertised byte is the true payload length plus
/// two, and the reader undoes it. This off-by-two is baked into the protocol
/// and is reproduced bit-for-bit.
pub const PORT_EXCESS_BYTES: u8 = 2;

/// Reading a short string: a one-byte length, then that many bytes, which
/// must be UTF-8 (a one-byte length never exceeds 255, so only UTF-8
/// validation can reject them).
pub open spec fn spec_read_short_string(s: Seq<u8>, i: int) -> Result<
    (Seq<u8>, int),
    HsSpecReaderError,
> {
    match spec_get_u8(s, i) {
        Err(_) => Err(HsSpecReaderError::CannotReadBytes),
        Ok((len, i1)) => if i1 + len > s.len() {
            Err(HsSpecReaderError::CannotReadBytes)
        } else {
            let b = s.subrange(i1, i1 + len);
            if is_utf8(b) {
                Ok((b, i1 + len))
            } else {
                Err(
                    HsSpecReaderError::CannotReadModelFromBytes(
                        ModelParseError::InvalidUtf8Buffer,
                    ),
                )
            }
        },
    }
}

/// Reading the version: three raw bytes.
pub open spec fn spec_read_version(s: Seq<u8>, i: int) -> Result<
    (Seq<u8>, int),
    HsSpecReaderError,
> {
    if i + 3 <= s.len() {
        Ok((s.subrange(i, i + 3), i + 3))
    } else {
        Err(HsSpecReaderError::CannotReadBytes)
    }
}

/// Reading a quirk-framed peer address: one advertised length byte, which
/// must be at least two; two less than it is the true payload length.
pub open spec fn spec_read_peer_addr(s: Seq<u8>, i: int) -> Result<
    (SpecPeerAddr, int),
    HsSpecReaderError,
> {
    match spec_get_u8(s, i) {
        Err(_) => Err(HsSpecReaderError::CannotReadBytes),
        Ok((len, i1)) => if len < 2 {
            Err(HsSpecReaderError::TooShortPeerAddrDataLength(len, 8))
        } else {
            let l = len - 2;
            if i1 + l > s.len() {
                Err(HsSpecReaderError::CannotReadBytes)
            } else {
                match spec_addr_from_payload(s.subrange(i1, i1 + l)) {
                    Ok(a) => Ok((a, i1 + l)),
                    Err(e) => Err(HsSpecReaderError::CannotReadModelFromBytes(e)),
                }
            }
        },
    }
}

/// Reading one framed feature: an id byte, a VLQ payload length, and that
/// many payload bytes, dispatched by id.
#[verifier::opaque]
pub open spec fn spec_read_one_feature(s: Seq<u8>, i: int) -> Result<
    (SpecFeature, int),
    HsSpecReaderError,
> {
    match spec_get_u8(s, i) {
        Err(_) => Err(HsSpecReaderError::CannotReadBytes),
        Ok((id, i1)) => match spec_get_u16(s, i1) {
            Err(e) => Err(HsSpecReaderError::CannotVlqDecodeData(e)),
            Ok((len, i2)) => if i2 + len > s.len() {
                Err(HsSpecReaderError::CannotReadBytes)
            } else {
                match spec_parse_feature(id, s.subrange(i2, i2 + len)) {
                    Err(fe) => Err(HsSpecReaderError::CannotReadPeerFeatureFromBytes(fe)),
                    Ok(f) => Ok((f, i2 + len)),
                }
            },
        },
    }
}

/// Reading a run of `n` framed features, one after the other.
pub open spec fn spec_read_features_loop(s: Seq<u8>, i: int, n: nat) -> Result<
    (Seq<SpecFeature>, int),
    HsSpecReaderError,
>
    decreases n,
{
    if n == 0 {
        Ok((Seq::empty(), i))
    } else {
        match spec_read_one_feature(s, i) {
            Err(e) => Err(e),
            Ok((f, j)) => match spec_read_features_loop(s, j, (n - 1) as nat) {
                Err(e) => Err(e),
                Ok((fs, j2)) => Ok((seq![f] + fs, j2)),
            },
        }
    }
}

/// Reading the optional trailing feature section: a buffer that ends before
/// the count byte means no section at all, which is not an error.
pub open spec fn spec_read_features(s: Seq<u8>, i: int) -> Result<
    (Option<Seq<SpecFeature>>, int),
    HsSpecReaderError,
> {
    match spec_get_u8(s, i) {
        Err(_) => Ok((None, i)),
        Ok((n, i1)) => match spec_read_features_loop(s, i1, n as nat) {
            Err(e) => Err(e),
            Ok((fs, j)) => Ok((Some(fs), j)),
        },
    }
}

/// Whether a feature is not the unrecognized sentinel.
pub open spec fn is_recognized(f: SpecFeature) -> bool {
    !(f matches SpecFeature::Unrecognized)
}

/// The recognized features of a list, in order.
pub open spec fn keep_recognized(fs: Seq<SpecFeature>) -> Seq<SpecFeature>
    decreases fs.len(),
{
    if fs.len() == 0 {
        Seq::empty()
    } else if is_recognized(fs[0]) {
        seq![fs[0]] + keep_recognized(fs.drop_first())
    } else {
        keep_recognized(fs.drop_first())
    }
}

/// Appending one feature to a list extends what is kept of it by that
/// feature, when it is recognized, and by nothing otherwise.
pub proof fn lemma_keep_recognized_snoc(fs: Seq<SpecFeature>, f: SpecFeature)
    ensures
        is_recognized(f) ==> keep_recognized(fs.push(f)) == keep_recognized(fs) + seq![f],
        !is_recognized(f) ==> keep_recognized(fs.push(f)) == keep_recognized(fs),
    decreases fs.len(),
{
    if fs.len() == 0 {
        assert(fs.push(f).len() == 1 && fs.push(f)[0] == f);
        assert(fs.push(f).drop_first() =~= Seq::<SpecFeature>::empty());
        assert(keep_recognized(Seq::<SpecFeature>::empty()) =~= Seq::<SpecFeature>::empty());
        assert(fs =~= Seq::<SpecFeature>::empty());
        if is_recognized(f) {
            assert(seq![f] + Seq::<SpecFeature>::empty() =~= seq![f]);
            assert(Seq::<SpecFeature>::empty() + seq![f] =~= seq![f]);
        }
    } else {
        assert(fs.push(f).drop_first() =~= fs.drop_first().push(f));
        assert(fs.push(f)[0] == fs[0]);
        lemma_keep_recognized_snoc(fs.drop_first(), f);
        if is_recognized(fs[0]) && is_recognized(f) {
            assert(seq![fs[0]] + (keep_recognized(fs.drop_first()) + seq![f]) =~= (seq![fs[0]]
                + keep_recognized(fs.drop_first())) + seq![f]);
        }
    }
}

/// A list of recognized features is kept whole.
pub proof fn lemma_keep_recognized_all(fs: Seq<SpecFeature>)
    requires
        forall|k: int| 0 <= k < fs.len() ==> is_recognized(#[trigger] fs[k]),
    ensures
        keep_recognized(fs) == fs,
    decreases fs.len(),
{
    if fs.len() > 0 {
        assert(forall|k: int|
            0 <= k < fs.drop_first().len() ==> is_recognized(#[trigger] fs.drop_first()[k]));
        lemma_keep_recognized_all(fs.drop_first());
        assert(seq![fs[0]] + fs.drop_first() =~= fs);
    }
}

/// Only recognized features are kept, and no more than were there.
pub proof fn lemma_keep_recognized_pred(fs: Seq<SpecFeature>)
    ensures
        keep_recognized(fs).len() <= fs.len(),
        forall|k: int|
            0 <= k < keep_recognized(fs).len() ==> is_recognized(#[trigger] keep_recognized(fs)[k]),
    decreases fs.len(),
{
    if fs.len() > 0 {
        lemma_keep_recognized_pred(fs.drop_first());
        let rest = keep_recognized(fs.drop_first());
        if is_recognized(fs[0]) {
            assert forall|k: int| 0 <= k < keep_recognized(fs).len() implies is_recognized(
                #[trigger] keep_recognized(fs)[k],
            ) by {
                if k > 0 {
                    assert(keep_recognized(fs)[k] == rest[k - 1]);
                }
            }
        }
    }
}

/// The post-parse normalization: unrecognized features are stripped, and a
/// feature list that ends up empty becomes an absent one.
pub open spec fn normalize_features(o: Option<Seq<SpecFeature>>) -> Option<Seq<SpecFeature>> {
    match o {
        None => None,
        Some(fs) => {
            let kept = keep_recognized(fs);
            if kept.len() > 0 {
                Some(kept)
            } else {
                None
            }
        },
    }
}

/// The tail of a parse after the fixed fields: the feature section, then
/// normalization.
pub open spec fn spec_parse_tail(
    s: Seq<u8>,
    agent: Seq<u8>,
    ver: Seq<u8>,
    peer: Seq<u8>,
    addr: Option<SpecPeerAddr>,
    i: int,
) -> Result<SpecHandshake, HsSpecReaderError> {
    match spec_read_features(s, i) {
        Err(e) => Err(e),
        Ok((featopt, _)) => Ok(
            SpecHandshake {
                agent_name: agent,
                version: ver,
                peer_name: peer,
                pub_address: addr,
                features: normalize_features(featopt),
            },
        ),
    }
}

/// What parsing a handshake buffer yields: the timestamp (read and
/// discarded), the two names, the version, the flagged optional public
/// address, and the optional feature section; bytes after the last parsed
/// field are ignored.
pub open spec fn spec_parse_handshake(s: Seq<u8>) -> Result<SpecHandshake, HsSpecReaderError> {
    match spec_get_u64(s, 0) {
        Err(e) => Err(HsSpecReaderError::CannotVlqDecodeData(e)),
        Ok((_, i0)) => match spec_read_short_string(s, i0) {
            Err(e) => Err(e),
            Ok((agent, i1)) => match spec_read_version(s, i1) {
                Err(e) => Err(e),
                Ok((ver, i2)) => match spec_read_short_string(s, i2) {
                    Err(e) => Err(e),
                    Ok((peer, i3)) => match spec_get_u8(s, i3) {
                        Err(_) => Err(HsSpecReaderError::CannotReadBytes),
                        Ok((flag, i4)) => if flag == 1 {
                            match spec_read_peer_addr(s, i4) {
                                Err(e) => Err(e),
                                Ok((addr, i5)) => spec_parse_tail(
                                    s,
                                    agent,
                                    ver,
                                    peer,
                                    Some(addr),
                                    i5,
                                ),
                            }
                        } else {
                            spec_parse_tail(s, agent, ver, peer, None, i4)
                        },
                    },
                },
            },
        },
    }
}

/// A short string as serialized: its length byte, then its bytes.
pub open spec fn spec_ser_short_string(b: Seq<u8>) -> Seq<u8> {
    seq![b.len() as u8] + b
}

/// A public address as serialized: the quirked length byte (payload length
/// plus two), then the payload.
pub open spec fn spec_ser_addr_framed(a: SpecPeerAddr) -> Seq<u8> {
    seq![(spec_addr_payload(a).len() + 2) as u8] + spec_addr_payload(a)
}

/// The feature section as serialized: nothing when absent, else the count
/// byte and the framed features in order.
pub open spec fn spec_ser_features_section(o: Option<Seq<SpecFeature>>) -> Seq<u8> {
    match o {
        None => Seq::empty(),
        Some(fs) => seq![fs.len() as u8] + spec_ser_feature_list(fs),
    }
}

/// A handshake as serialized under a given timestamp: the VLQ timestamp,
/// both names length-prefixed, the raw version bytes, the one-byte address
/// presence flag with the quirk-framed address behind it, then the feature
/// section.
pub open spec fn spec_ser_handshake(m: SpecHandshake, ts: u64) -> Seq<u8> {
    vlq_enc(ts as nat) + spec_ser_short_string(m.agent_name) + m.version + spec_ser_short_string(
        m.peer_name,
    ) + (match m.pub_address {
        None => seq![0u8],
        Some(a) => seq![1u8] + spec_ser_addr_framed(a),
    }) + spec_ser_features_section(m.features)
}

/// What a handshake value must satisfy for `serialize` to represent it: a
/// present feature list holds no unrecognized sentinel (the sentinel has no
/// id to travel under; the reference node treats sending one as a bug).
pub open spec fn serializable(m: SpecHandshake) -> bool {
    m.features matches Some(fs) ==> forall|i: int| 0 <= i < fs.len() ==> is_recognized(#[trigger] fs[i])
}

fn read_short_string(rd: &mut VlqReader) -> (r: Result<ShortString, HsSpecReaderError>)
    ensures
        final(rd).bytes() == old(rd).bytes(),
        match spec_read_short_string(old(rd).bytes(), old(rd).position()) {
            Ok((b, j)) => r matches Ok(x) && x@ == b && final(rd).position() == j,
            Err(e) => r matches Err(x) && x == e,
        },
{
    let len = match rd.get_u8() {
        Ok(l) => l,
        Err(_) => return Err(HsSpecReaderError::CannotReadBytes),
    };
    let buf = match rd.read_vec(len as usize) {
        Ok(b) => b,
        Err(_) => return Err(HsSpecReaderError::CannotReadBytes),
    };
    match ShortString::try_from(buf) {
        Ok(s) => Ok(s),
        Err(e) => Err(HsSpecReaderError::CannotReadModelFromBytes(e)),
    }
}

fn read_version(rd: &mut VlqReader) -> (r: Result<Version, HsSpecReaderError>)
    ensures
        final(rd).bytes() == old(rd).bytes(),
        match spec_read_version(old(rd).bytes(), old(rd).position()) {
            Ok((b, j)) => r matches Ok(x) && x@ == b && final(rd).position() == j,
            Err(e) => r matches Err(x) && x == e,
        },
{
    let buf = match rd.read_vec(3) {
        Ok(b) => b,
        Err(_) => return Err(HsSpecReaderError::CannotReadBytes),
    };
    proof {
        assert(buf@.len() == 3);
    }
    let v = Version([buf[0], buf[1], buf[2]]);
    proof {
        assert(v@ =~= buf@);
    }
    Ok(v)
}

fn read_peer_addr(rd: &mut VlqReader) -> (r: Result<PeerAddr, HsSpecReaderError>)
    ensures
        final(rd).bytes() == old(rd).bytes(),
        match spec_read_peer_addr(old(rd).bytes(), old(rd).position()) {
            Ok((a, j)) => r matches Ok(x) && x@ == a && final(rd).position() == j,
            Err(e) => r matches Err(x) && x == e,
        },
{
    let len = match rd.get_u8() {
        Ok(l) => l,
        Err(_) => return Err(HsSpecReaderError::CannotReadBytes),
    };
    if len < PORT_EXCESS_BYTES {
        return Err(HsSpecReaderError::TooShortPeerAddrDataLength(len, 8));
    }
    let buf = match rd.read_vec((len - PORT_EXCESS_BYTES) as usize) {
        Ok(b) => b,
        Err(_) => return Err(HsSpecReaderError::CannotReadBytes),
    };
    match PeerAddr::try_from_vlq(buf) {
        Ok(a) => Ok(a),
        Err(e) => Err(HsSpecReaderError::CannotReadModelFromBytes(e)),
    }
}

fn read_one_feature(rd: &mut VlqReader) -> (r: Result<PeerFeature, HsSpecReaderError>)
    ensures
        final(rd).bytes() == old(rd).bytes(),
        0 <= old(rd).position() && final(rd).position() <= final(rd).bytes().len(),
        match spec_read_one_feature(old(rd).bytes(), old(rd).position()) {
            Ok((f, j)) => r matches Ok(x) && x@ == f && final(rd).position() == j,
            Err(e) => r matches Err(x) && x == e,
        },
{
    proof {
        reveal(spec_read_one_feature);
    }
    let id = match rd.get_u8() {
        Ok(b) => b,
        Err(_) => return Err(HsSpecReaderError::CannotReadBytes),
    };
    let len = match rd.get_u16() {
        Ok(l) => l,
        Err(e) => return Err(HsSpecReaderError::CannotVlqDecodeData(e)),
    };
    let buf = match rd.read_vec(len as usize) {
        Ok(b) => b,
        Err(_) => return Err(HsSpecReaderError::CannotReadBytes),
    };
    match parse_feature(id, buf) {
        Ok(f) => Ok(f),
        Err(fe) => Err(HsSpecReaderError::CannotReadPeerFeatureFromBytes(fe)),
    }
}

#[verifier::rlimit(50)]
#[verifier::loop_isolation(false)]
fn read_features(rd: &mut VlqReader) -> (r: Result<Option<Vec<PeerFeature>>, HsSpecReaderError>)
    ensures
        final(rd).bytes() == old(rd).bytes(),
        match spec_read_features(old(rd).bytes(), old(rd).position()) {
            Ok((opt, j)) => r matches Ok(x) && final(rd).position() == j && (match (x, opt) {
                (Some(v), Some(fs)) => v@.map_values(|f: PeerFeature| f@) == fs && v@.len() <= 255,
                (None, None) => true,
                _ => false,
            }),
            Err(e) => r matches Err(x) && x == e,
        },
{
    let ghost s = rd.bytes();
    let count = match rd.get_u8() {
        Ok(c) => c,
        Err(_) => return Ok(None),
    };
    let ghost i1 = rd.position();
    let mut out: Vec<PeerFeature> = Vec::new();
    let mut k: usize = 0;
    let n = count as usize;
    proof {
        let m0 = out@.map_values(|f: PeerFeature| f@);
        assert(m0 =~= Seq::<SpecFeature>::empty());
        if let Ok((fs, j)) = spec_read_features_loop(s, i1, n as nat) {
            assert(m0 + fs =~= fs);
        }
    }
    while k < n
        invariant
            rd.bytes() == s,
            k <= n <= 255,
            out@.len() == k,
            match spec_read_features_loop(s, rd.position(), (n - k) as nat) {
                Ok((fs, j)) => spec_read_features_loop(s, i1, n as nat) == Ok::<
                    (Seq<SpecFeature>, int),
                    HsSpecReaderError,
                >((out@.map_values(|f: PeerFeature| f@) + fs, j)),
                Err(e) => spec_read_features_loop(s, i1, n as nat) == Err::<
                    (Seq<SpecFeature>, int),
                    HsSpecReaderError,
                >(e),
            },
        decreases n - k,
    {
        let f = match read_one_feature(rd) {
            Ok(f) => f,
            Err(e) => return Err(e),
        };
        let ghost prev = out@.map_values(|f: PeerFeature| f@);
        out.push(f);
        k = k + 1;
        proof {
            assert(out@.map_values(|f: PeerFeature| f@) =~= prev + seq![f@]);
            if let Ok((fs, j)) = spec_read_features_loop(s, rd.position(), (n - k) as nat) {
                assert((prev + seq![f@]) + fs =~= prev + (seq![f@] + fs));
            }
        }
    }
    proof {
        let m = out@.map_values(|f: PeerFeature| f@);
        assert(m + Seq::<SpecFeature>::empty() =~= m);
    }
    Ok(Some(out))
}

/// Keep the recognized features of `v`, in order.
fn retain_recognized(v: Vec<PeerFeature>) -> (r: Vec<PeerFeature>)
    ensures
        r@.map_values(|f: PeerFeature| f@) == keep_recognized(v@.map_values(|f: PeerFeature| f@)),
        r@.len() <= v@.len(),
{
    let ghost m = v@.map_values(|f: PeerFeature| f@);
    let mut kept: Vec<PeerFeature> = Vec::new();
    let mut i: usize = 0;
    let n = v.len();
    proof {
        assert(m.take(0) =~= Seq::<SpecFeature>::empty());
        assert(kept@.map_values(|f: PeerFeature| f@) =~= Seq::<SpecFeature>::empty());
    }
    while i < n
        invariant
            i <= n,
            n == v@.len(),
            m == v@.map_values(|f: PeerFeature| f@),
            kept@.len() <= i,
            kept@.map_values(|f: PeerFeature| f@) == keep_recognized(m.take(i as int)),
        decreases n - i,
    {
        let f = v[i];
        let ghost prevm = kept@.map_values(|f: PeerFeature| f@);
        let keep = match f {
            PeerFeature::Unrecognized => false,
            _ => true,
        };
        if keep {
            kept.push(f);
        }
        i = i + 1;
        proof {
            assert(m[i - 1] == v@[i - 1]@);
            assert(m.take(i as int) =~= m.take(i - 1).push(m[i - 1]));
            lemma_keep_recognized_snoc(m.take(i - 1), m[i - 1]);
            if keep {
                assert(kept@.map_values(|f: PeerFeature| f@) =~= prevm + seq![m[i - 1]]);
            }
        }
    }
    proof {
        assert(m.take(n as int) =~= m);
    }
    kept
}

impl Handshake {
    /// Parse a handshake from a byte buffer, as [`spec_parse_handshake`]
    /// describes: the result is exactly what the specification parser yields
    /// on the same bytes, error for error.
    pub fn parse(data: &[u8]) -> (r: Result<Handshake, HsSpecReaderError>)
        ensures
            match spec_parse_handshake(data@) {
                Ok(m) => r matches Ok(h) && h@ == m,
                Err(e) => r matches Err(x) && x == e,
            },
    {
        let mut rd = VlqReader::new(data);
        match rd.get_u64() {
            Ok(_) => {},
            Err(e) => return Err(HsSpecReaderError::CannotVlqDecodeData(e)),
        }
        let agent_name = match read_short_string(&mut rd) {
            Ok(s) => s,
            Err(e) => return Err(e),
        };
        let version = match read_version(&mut rd) {
            Ok(v) => v,
            Err(e) => return Err(e),
        };
        let peer_name = match read_short_string(&mut rd) {
            Ok(s) => s,
            Err(e) => return Err(e),
        };
        let flag = match rd.get_u8() {
            Ok(b) => b,
            Err(_) => return Err(HsSpecReaderError::CannotReadBytes),
        };
        let pub_address = if flag == 1 {
            match read_peer_addr(&mut rd) {
                Ok(a) => Some(a),
                Err(e) => return Err(e),
            }
        } else {
            None
        };
        let raw_features = match read_features(&mut rd) {
            Ok(o) => o,
            Err(e) => return Err(e),
        };
        let features = match raw_features {
            None => None,
            Some(v) => {
                let kept = retain_recognized(v);
                if kept.len() > 0 {
                    match Features::try_new(kept) {
                        Ok(fs) => Some(fs),
                        Err(_) => {
                            proof {
                                assert(false);
                            }
                            None
                        },
                    }
                } else {
                    None
                }
            },
        };
        Ok(Handshake { agent_name, version, peer_name, pub_address, features })
    }
}

fn write_short_string(w: &mut VlqWriter, text: &ShortString)
    ensures
        final(w).bytes() == old(w).bytes() + spec_ser_short_string(text@),
{
    let n = text.len();
    w.put_u8(n as u8);
    w.write_bytes(text.as_bytes().as_slice());
    proof {
        assert(w.bytes() =~= old(w).bytes() + spec_ser_short_string(text@));
    }
}

impl Handshake {
    /// Serialize the handshake under a caller-supplied timestamp, as
    /// [`spec_ser_handshake`] describes; the growable buffer never refuses
    /// bytes, so the result is always the encoding.
    pub fn serialize_with_timestamp(&self, timestamp: u64) -> (r: Result<
        Vec<u8>,
        HsSpecWriterError,
    >)
        requires
            serializable(self@),
        ensures
            r matches Ok(v) && v@ == spec_ser_handshake(self@, timestamp),
    {
        let mut w = VlqWriter::new();
        w.put_u64(timestamp);
        write_short_string(&mut w, &self.agent_name);
        w.write_bytes(self.version.0.as_slice());
        write_short_string(&mut w, &self.peer_name);
        match &self.pub_address {
            Some(a) => {
                w.put_u8(1);
                let payload = match a.try_into_vlq() {
                    Ok(p) => p,
                    Err(_) => {
                        proof {
                            assert(false);
                        }
                        return Err(HsSpecWriterError::CannotWriteBytes);
                    },
                };
                proof {
                    crate::models::peer_addr::lemma_ip_len(a);
                    crate::vlq::lemma_vlq_enc_len_u64(a.port as nat);
                }
                w.put_u8(payload.len() as u8 + PORT_EXCESS_BYTES);
                w.write_bytes(payload.as_slice());
            },
            None => {
                w.put_u8(0);
            },
        }
        let ghost before_features = w.bytes();
        match &self.features {
            Some(fs) => {
                let n = fs.len();
                w.put_u8(n as u8);
                let ghost flist = fs@;
                let ghost after_count = w.bytes();
                let mut i: usize = 0;
                proof {
                    assert(self@.features == Some(flist));
                    assert forall|k: int| 0 <= k < flist.len() implies is_recognized(
                        #[trigger] flist[k],
                    ) by {
                        assert(serializable(self@));
                        assert(self@.features matches Some(ffs) && ffs == flist);
                    }
                    assert(flist.take(0) =~= Seq::<SpecFeature>::empty());
                    assert(after_count + spec_ser_feature_list(flist.take(0)) =~= after_count);
                }
                while i < n
                    invariant
                        i <= n,
                        n == flist.len(),
                        fs@ == flist,
                        forall|k: int| 0 <= k < flist.len() ==> is_recognized(#[trigger] flist[k]),
                        w.bytes() == after_count + spec_ser_feature_list(flist.take(i as int)),
                    decreases n - i,
                {
                    let f = fs.get(i);
                    let id = f.get_id();
                    let payload = match serialize_feature(f) {
                        Ok(p) => p,
                        Err(_) => {
                            proof {
                                assert(false);
                            }
                            return Err(HsSpecWriterError::CannotWriteBytes);
                        },
                    };
                    proof {
                        crate::features::registry::lemma_peer_feature_wf(f);
                        crate::features::registry::lemma_feature_payload_len(f@);
                    }
                    let ghost before = w.bytes();
                    w.put_u8(id);
                    w.put_u16(payload.len() as u16);
                    w.write_bytes(payload.as_slice());
                    i = i + 1;
                    proof {
                        assert(w.bytes() =~= before + spec_ser_feature(flist[i - 1]));
                        assert(flist.take(i as int) =~= flist.take(i - 1).push(flist[i - 1]));
                        crate::features::registry::lemma_ser_feature_list_snoc(
                            flist.take(i - 1),
                            flist[i - 1],
                        );
                        assert(w.bytes() =~= after_count + spec_ser_feature_list(
                            flist.take(i as int),
                        ));
                    }
                }
                proof {
                    assert(flist.take(n as int) =~= flist);
                }
            },
            None => {},
        }
        let out = w.into_inner();
        proof {
            assert(out@ =~= spec_ser_handshake(self@, timestamp));
        }
        Ok(out)
    }

    /// Serialize the handshake, stamping it with the clock: the result is the
    /// encoding of this message under some timestamp (the clock's value,
    /// which nothing pins down).
    pub fn serialize(&self) -> (r: Result<Vec<u8>, HsSpecWriterError>)
        requires
            serializable(self@),
        ensures
            r matches Ok(v) && exists|ts: u64| v@ == #[trigger] spec_ser_handshake(self@, ts),
    {
        let ts = make_timestamp();
        let r = self.serialize_with_timestamp(ts);
        proof {
            assert(r matches Ok(v) ==> v@ == spec_ser_handshake(self@, ts));
        }
        r
    }
}

/// A buffer that holds `x + y` at `i` holds `x` at `i` and `y` right after.
proof fn lemma_subrange_split(s: Seq<u8>, i: int, x: Seq<u8>, y: Seq<u8>)
    requires
        0 <= i,
        i + x.len() + y.len() <= s.len(),
        s.subrange(i, i + x.len() + y.len()) == x + y,
    ensures
        s.subrange(i, i + x.len()) == x,
        s.subrange(i + x.len(), i + x.len() + y.len()) == y,
{
    let whole = s.subrange(i, i + x.len() + y.len());
    assert forall|k: int| 0 <= k < x.len() implies s.subrange(i, i + x.len())[k] == x[k] by {
        assert(whole[k] == (x + y)[k]);
    }
    assert(s.subrange(i, i + x.len()) =~= x);
    assert forall|k: int|
        0 <= k < y.len() implies s.subrange(i + x.len(), i + x.len() + y.len())[k] == y[k] by {
        assert(whole[x.len() + k] == (x + y)[x.len() + k]);
    }
    assert(s.subrange(i + x.len(), i + x.len() + y.len()) =~= y);
}

/// A buffer that holds a serialized short string at `i` reads back as that
/// string.
pub proof fn lemma_read_short_string_at(s: Seq<u8>, i: int, b: Seq<u8>)
    requires
        0 <= i,
        b.len() <= 255,
        is_utf8(b),
        i + 1 + b.len() <= s.len(),
        s.subrange(i, i + 1 + b.len()) == spec_ser_short_string(b),
    ensures
        spec_read_short_string(s, i) == Ok::<(Seq<u8>, int), HsSpecReaderError>(
            (b, i + 1 + b.len()),
        ),
{
    assert(spec_ser_short_string(b) == seq![b.len() as u8] + b);
    lemma_subrange_split(s, i, seq![b.len() as u8], b);
    assert(s[i] == s.subrange(i, i + 1)[0]);
}

/// A buffer that holds a quirk-framed address at `i` reads back as that
/// address, under the conditions of the payload round trip.
pub proof fn lemma_read_peer_addr_at(s: Seq<u8>, i: int, a: SpecPeerAddr)
    requires
        0 <= i,
        a.ip.len() == 4 || a.ip.len() == 16,
        a.port >= 128,
        i + spec_ser_addr_framed(a).len() <= s.len(),
        s.subrange(i, i + spec_ser_addr_framed(a).len()) == spec_ser_addr_framed(a),
    ensures
        spec_read_peer_addr(s, i) == Ok::<(SpecPeerAddr, int), HsSpecReaderError>(
            (a, i + spec_ser_addr_framed(a).len()),
        ),
{
    let p = spec_addr_payload(a);
    crate::vlq::lemma_vlq_enc_len_u16(a.port);
    lemma_subrange_split(s, i, seq![(p.len() + 2) as u8], p);
    assert(s[i] == s.subrange(i, i + 1)[0]);
    crate::models::peer_addr::lemma_addr_payload_roundtrip(a);
}

/// A buffer that holds a run of framed recognized features at `i` reads back
/// as that run, feature for feature.
pub proof fn lemma_read_features_list_at(s: Seq<u8>, i: int, fs: Seq<SpecFeature>)
    requires
        0 <= i,
        i + spec_ser_feature_list(fs).len() <= s.len(),
        s.subrange(i, i + spec_ser_feature_list(fs).len()) == spec_ser_feature_list(fs),
        forall|k: int|
            0 <= k < fs.len() ==> {
                &&& crate::features::registry::wf_feature(#[trigger] fs[k])
                &&& is_recognized(fs[k])
                &&& (fs[k] matches SpecFeature::LocalAddr(a) ==> a.port >= 128)
            },
    ensures
        spec_read_features_loop(s, i, fs.len()) == Ok::<(Seq<SpecFeature>, int), HsSpecReaderError>(
            (fs, i + spec_ser_feature_list(fs).len()),
        ),
    decreases fs.len(),
{
    if fs.len() == 0 {
        assert(fs =~= Seq::<SpecFeature>::empty());
    } else {
        let f = fs[0];
        let frame = spec_ser_feature(f);
        let rest = spec_ser_feature_list(fs.drop_first());
        assert(spec_ser_feature_list(fs) == frame + rest);
        lemma_subrange_split(s, i, frame, rest);
        let payload = spec_feature_payload(f);
        let id = spec_feature_id(f);
        let enc = vlq_enc(payload.len() as nat);
        crate::features::registry::lemma_feature_payload_len(f);
        assert(frame =~= seq![id] + (enc + payload));
        lemma_subrange_split(s, i, seq![id], enc + payload);
        assert(s[i] == s.subrange(i, i + 1)[0]);
        lemma_subrange_split(s, i + 1, enc, payload);
        assert(enc == vlq_enc((payload.len() as u16) as nat));
        crate::vlq::lemma_spec_get_u16_of_enc(s, i + 1, payload.len() as u16);
        crate::features::registry::lemma_feature_roundtrip(f);
        assert forall|k: int| 0 <= k < fs.drop_first().len() implies {
            &&& crate::features::registry::wf_feature(#[trigger] fs.drop_first()[k])
            &&& is_recognized(fs.drop_first()[k])
            &&& (fs.drop_first()[k] matches SpecFeature::LocalAddr(a) ==> a.port >= 128)
        } by {
            assert(fs.drop_first()[k] == fs[k + 1]);
        }
        lemma_read_features_list_at(s, i + frame.len(), fs.drop_first());
        reveal(spec_read_one_feature);
        assert(spec_read_one_feature(s, i) == Ok::<(SpecFeature, int), HsSpecReaderError>(
            (f, i + frame.len()),
        ));
        assert(seq![f] + fs.drop_first() =~= fs);
    }
}

/// Structural soundness of a whole handshake value: valid short strings, a
/// three-byte version, address octets of one of the two families, and a
/// present feature list of one to 255 recognized, sound features. Every
/// value built from the exec types has it.
pub open spec fn wf_handshake(m: SpecHandshake) -> bool {
    &&& short_string_ok(m.agent_name)
    &&& m.version.len() == 3
    &&& short_string_ok(m.peer_name)
    &&& (m.pub_address matches Some(a) ==> a.ip.len() == 4 || a.ip.len() == 16)
    &&& (m.features matches Some(fs) ==> {
        &&& 1 <= fs.len() <= 255
        &&& forall|k: int|
            0 <= k < fs.len() ==> crate::features::registry::wf_feature(#[trigger] fs[k])
                && is_recognized(fs[k])
    })
}

/// The one family of values the round trip cannot cover: a port below 128
/// encodes in a single VLQ byte, which the accepted address payload lengths
/// exclude, so such an address serializes to bytes its own parser rejects.
/// This predicate rules those ports out, wherever an address occurs.
pub open spec fn ports_roundtrip(m: SpecHandshake) -> bool {
    &&& (m.pub_address matches Some(a) ==> a.port >= 128)
    &&& (m.features matches Some(fs) ==> forall|k: int|
        0 <= k < fs.len() ==> ((#[trigger] fs[k]) matches SpecFeature::LocalAddr(a) ==> a.port
            >= 128))
}

/// The feature-section tail of the round trip: reading the serialized
/// section back and normalizing it restores the feature field.
proof fn lemma_tail_roundtrip(s: Seq<u8>, m: SpecHandshake, it: int)
    requires
        wf_handshake(m),
        ports_roundtrip(m),
        0 <= it,
        it + spec_ser_features_section(m.features).len() == s.len(),
        s.subrange(it, s.len() as int) == spec_ser_features_section(m.features),
    ensures
        spec_parse_tail(s, m.agent_name, m.version, m.peer_name, m.pub_address, it) == Ok::<
            SpecHandshake,
            HsSpecReaderError,
        >(m),
{
    match m.features {
        None => {
            assert(it == s.len());
        },
        Some(fs) => {
            let list = spec_ser_feature_list(fs);
            assert(spec_ser_features_section(m.features) == seq![fs.len() as u8] + list);
            lemma_subrange_split(s, it, seq![fs.len() as u8], list);
            assert(s[it] == s.subrange(it, it + 1)[0]);
            assert forall|k: int| 0 <= k < fs.len() implies {
                &&& crate::features::registry::wf_feature(#[trigger] fs[k])
                &&& is_recognized(fs[k])
                &&& (fs[k] matches SpecFeature::LocalAddr(a) ==> a.port >= 128)
            } by {}
            lemma_read_features_list_at(s, it + 1, fs);
            assert((fs.len() as u8) as nat == fs.len());
            lemma_keep_recognized_all(fs);
        },
    }
}

/// The round trip: parsing a serialized handshake restores it field for
/// field, whatever timestamp it was stamped with (the timestamp is read and
/// discarded, so it does not appear in the result).
#[verifier::rlimit(100)]
#[verifier::spinoff_prover]
pub proof fn lemma_handshake_roundtrip(m: SpecHandshake, ts: u64)
    requires
        wf_handshake(m),
        ports_roundtrip(m),
    ensures
        spec_parse_handshake(spec_ser_handshake(m, ts)) == Ok::<SpecHandshake, HsSpecReaderError>(
            m,
        ),
{
    let s = spec_ser_handshake(m, ts);
    let a0 = vlq_enc(ts as nat);
    let a1 = spec_ser_short_string(m.agent_name);
    let a2 = m.version;
    let a3 = spec_ser_short_string(m.peer_name);
    let a4: Seq<u8> = match m.pub_address {
        None => seq![0u8],
        Some(a) => seq![1u8] + spec_ser_addr_framed(a),
    };
    let a5 = spec_ser_features_section(m.features);
    assert(s =~= a0 + (a1 + (a2 + (a3 + (a4 + a5)))));
    assert(s.subrange(0, s.len() as int) =~= s);
    lemma_subrange_split(s, 0, a0, a1 + (a2 + (a3 + (a4 + a5))));
    crate::vlq::lemma_spec_get_u64_of_enc(s, 0, ts);
    let i0 = a0.len() as int;
    lemma_subrange_split(s, i0, a1, a2 + (a3 + (a4 + a5)));
    lemma_read_short_string_at(s, i0, m.agent_name);
    let i1 = i0 + a1.len() as int;
    lemma_subrange_split(s, i1, a2, a3 + (a4 + a5));
    let i2 = i1 + 3;
    lemma_subrange_split(s, i2, a3, a4 + a5);
    lemma_read_short_string_at(s, i2, m.peer_name);
    let i3 = i2 + a3.len() as int;
    lemma_subrange_split(s, i3, a4, a5);
    match m.pub_address {
        None => {
            assert(s[i3] == s.subrange(i3, i3 + 1)[0]);
            lemma_tail_roundtrip(s, m, i3 + 1);
        },
        Some(a) => {
            let framed = spec_ser_addr_framed(a);
            lemma_subrange_split(s, i3, seq![1u8], framed);
            assert(s[i3] == s.subrange(i3, i3 + 1)[0]);
            lemma_read_peer_addr_at(s, i3 + 1, a);
            lemma_tail_roundtrip(s, m, i3 + 1 + framed.len());
        },
    }
}

/// Whatever list the feature section yielded, its normalization is either
/// absent or non-empty with every sentinel stripped.
pub proof fn lemma_normalized_features_recognized(o: Option<Seq<SpecFeature>>)
    ensures
        normalize_features(o) matches Some(fs) ==> fs.len() > 0 && forall|k: int|
            0 <= k < fs.len() ==> is_recognized(#[trigger] fs[k]),
{
    match o {
        None => {},
        Some(fs0) => {
            lemma_keep_recognized_pred(fs0);
        },
    }
}

/// Forward compatibility of the parse result: whenever a buffer parses at
/// all, its feature field is either absent or a non-empty list in which no
/// feature is the unrecognized sentinel.
pub proof fn lemma_parse_strips_unrecognized(s: Seq<u8>)
    ensures
        spec_parse_handshake(s) matches Ok(m) ==> (m.features matches Some(fs) ==> fs.len() > 0
            && forall|k: int| 0 <= k < fs.len() ==> is_recognized(#[trigger] fs[k])),
{
    if let Ok((_, i0)) = spec_get_u64(s, 0) {
        if let Ok((agent, i1)) = spec_read_short_string(s, i0) {
            if let Ok((ver, i2)) = spec_read_version(s, i1) {
                if let Ok((peer, i3)) = spec_read_short_string(s, i2) {
                    if let Ok((flag, i4)) = spec_get_u8(s, i3) {
                        if flag == 1 {
                            if let Ok((_, i5)) = spec_read_peer_addr(s, i4) {
                                if let Ok((fo, _)) = spec_read_features(s, i5) {
                                    lemma_normalized_features_recognized(fo);
                                }
                            }
                        } else {
                            if let Ok((fo, _)) = spec_read_features(s, i4) {
                                lemma_normalized_features_recognized(fo);
                            }
                        }
                    }
                }
            }
        }
    }
}

/// The quirked framing of a public address with a two-byte port run: an
/// IPv4 address advertises length byte 8 (4+2+2) and an IPv6 one 20
/// (16+2+2).
pub proof fn lemma_addr_quirk_framing(a: SpecPeerAddr)
    requires
        a.ip.len() == 4 || a.ip.len() == 16,
        128 <= a.port < 16384,
    ensures
        spec_ser_addr_framed(a).len() == 1 + a.ip.len() + 2,
        a.ip.len() == 4 ==> spec_ser_addr_framed(a)[0] == 8,
        a.ip.len() == 16 ==> spec_ser_addr_framed(a)[0] == 20,
{
    crate::vlq::lemma_vlq_enc_len_u16(a.port);
}

impl PartialEq for Handshake {
    fn eq(&self, other: &Self) -> (r: bool) {
        let r = self.agent_name == other.agent_name && self.version == other.version
            && self.peer_name == other.peer_name && self.pub_address == other.pub_address
            && self.features == other.features;
        proof {
            match (self.pub_address, other.pub_address) {
                (Some(a), Some(b)) => {},
                _ => {},
            }
            match (&self.features, &other.features) {
                (Some(a), Some(b)) => {},
                _ => {},
            }
        }
        r
    }
}

impl vstd::std_specs::cmp::PartialEqSpecImpl for Handshake {
    open spec fn obeys_eq_spec() -> bool {
        true
    }

    open spec fn eq_spec(&self, other: &Self) -> bool {
        self@ == other@
    }
}

/// A run of parsed features has exactly the asked-for count, and each one is
/// structurally sound.
proof fn lemma_features_loop_wf(s: Seq<u8>, i: int, n: nat)
    ensures
        spec_read_features_loop(s, i, n) matches Ok(fso) ==> fso.0.len() == n && forall|k: int|
            0 <= k < fso.0.len() ==> crate::features::registry::wf_feature(#[trigger] fso.0[k]),
    decreases n,
{
    if n > 0 {
        reveal(spec_read_one_feature);
        if let Ok((f, j)) = spec_read_one_feature(s, i) {
            crate::features::registry::lemma_parse_feature_wf(
                spec_get_u8(s, i).unwrap().0,
                s.subrange(spec_get_u16(s, i + 1).unwrap().1, j),
            );
            lemma_features_loop_wf(s, j, (n - 1) as nat);
            if let Ok((fs, _)) = spec_read_features_loop(s, j, (n - 1) as nat) {
                assert forall|k: int| 0 <= k < (seq![f] + fs).len() implies
                    crate::features::registry::wf_feature(#[trigger] (seq![f] + fs)[k]) by {
                    if k > 0 {
                        assert((seq![f] + fs)[k] == fs[k - 1]);
                    }
                }
            }
        }
    }
}

/// Keeping the recognized features preserves structural soundness, element
/// for element.
proof fn lemma_keep_recognized_wf(fs: Seq<SpecFeature>)
    requires
        forall|k: int|
            0 <= k < fs.len() ==> crate::features::registry::wf_feature(#[trigger] fs[k]),
    ensures
        forall|k: int|
            0 <= k < keep_recognized(fs).len() ==> crate::features::registry::wf_feature(
                #[trigger] keep_recognized(fs)[k],
            ),
    decreases fs.len(),
{
    if fs.len() > 0 {
        assert(forall|k: int|
            0 <= k < fs.drop_first().len() ==> crate::features::registry::wf_feature(
                #[trigger] fs.drop_first()[k],
            ));
        lemma_keep_recognized_wf(fs.drop_first());
        let rest = keep_recognized(fs.drop_first());
        if is_recognized(fs[0]) {
            assert forall|k: int| 0 <= k < keep_recognized(fs).len() implies
                crate::features::registry::wf_feature(#[trigger] keep_recognized(fs)[k]) by {
                if k > 0 {
                    assert(keep_recognized(fs)[k] == rest[k - 1]);
                }
            }
        }
    }
}

/// Everything a successful parse returns is a well-formed handshake value:
/// its strings pass their own validation, the version has three bytes, the
/// address octets fit one of the two families, and a present feature list
/// holds one to 255 sound, recognized features. In particular the result
/// always satisfies what `serialize` asks of its input.
pub proof fn lemma_parse_result_wf(s: Seq<u8>)
    ensures
        spec_parse_handshake(s) matches Ok(m) ==> wf_handshake(m) && serializable(m),
{
    lemma_parse_strips_unrecognized(s);
    if let Ok((_, i0)) = spec_get_u64(s, 0) {
        if let Ok((agent, i1)) = spec_read_short_string(s, i0) {
            if let Ok((ver, i2)) = spec_read_version(s, i1) {
                if let Ok((peer, i3)) = spec_read_short_string(s, i2) {
                    if let Ok((flag, i4)) = spec_get_u8(s, i3) {
                        if flag == 1 {
                            if let Ok((_, i5)) = spec_read_peer_addr(s, i4) {
                                lemma_parse_tail_wf(s, i5);
                            }
                        } else {
                            lemma_parse_tail_wf(s, i4);
                        }
                    }
                }
            }
        }
    }
}

/// The feature-field part of [`lemma_parse_result_wf`]: whatever the feature
/// section yielded, its normalization is absent or one to 255 sound features.
proof fn lemma_parse_tail_wf(s: Seq<u8>, i: int)
    ensures
        spec_read_features(s, i) matches Ok(r) ==> (normalize_features(r.0) matches Some(fs) ==> {
            &&& 1 <= fs.len() <= 255
            &&& forall|k: int|
                0 <= k < fs.len() ==> crate::features::registry::wf_feature(#[trigger] fs[k])
        }),
{
    if let Ok((n, i1)) = spec_get_u8(s, i) {
        lemma_features_loop_wf(s, i1, n as nat);
        if let Ok((raw, _)) = spec_read_features_loop(s, i1, n as nat) {
            lemma_keep_recognized_wf(raw);
            lemma_keep_recognized_pred(raw);
        }
    }
}

} // verus!
