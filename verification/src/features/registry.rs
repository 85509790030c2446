//! The tagged feature union, its dispatch by one-byte id, and the bounded
//! feature collection.

use crate::features::errors::{FeatureParseError, FeatureSerializeError, FeaturesError};
use crate::features::mode::{
    lemma_mode_roundtrip, parse_mode, serialize_mode, spec_mode_payload, spec_parse_mode, Mode,
};
use crate::features::session_id::{
    lemma_session_id_roundtrip, parse_session_id, serialize_session_id, spec_parse_session_id,
    spec_session_payload, SessionId, SpecSessionId,
};
use crate::models::peer_addr::{
    lemma_addr_payload_roundtrip, spec_addr_from_payload, spec_addr_payload, PeerAddr,
    SpecPeerAddr,
};
use crate::vlq::{lemma_vlq_enc_len_u64, vlq_enc};
use vstd::prelude::*;

verus! {

/// One peer feature: a recognized kind, or the sentinel for an id this
/// implementation does not know.
#[derive(Debug, Clone, Copy)]
pub enum PeerFeature {
    /// The Mode feature (id 16).
    Mode(Mode),
    /// The peer's local address (id 2).
    LocalAddr(PeerAddr),
    /// The session identifier (id 3).
    SessionId(SessionId),
    /// A feature with an unknown id; its payload was consumed and discarded.
    Unrecognized,
}

/// The mathematical shape of a peer feature.
pub ghost enum SpecFeature {
    /// The Mode feature.
    Mode(Mode),
    /// The peer's local address.
    LocalAddr(SpecPeerAddr),
    /// The session identifier.
    SessionId(SpecSessionId),
    /// A feature with an unknown id.
    Unrecognized,
}

impl View for PeerFeature {
    type V = SpecFeature;

    open spec fn view(&self) -> SpecFeature {
        match self {
            PeerFeature::Mode(m) => SpecFeature::Mode(*m),
            PeerFeature::LocalAddr(a) => SpecFeature::LocalAddr(a@),
            PeerFeature::SessionId(s) => SpecFeature::SessionId(s@),
            PeerFeature::Unrecognized => SpecFeature::Unrecognized,
        }
    }
}

/// The one-byte id a feature travels under; the sentinel has none and maps
/// to zero, which never goes on the wire.
pub open spec fn spec_feature_id(f: SpecFeature) -> u8 {
    match f {
        SpecFeature::Mode(_) => 16,
        SpecFeature::LocalAddr(_) => 2,
        SpecFeature::SessionId(_) => 3,
        SpecFeature::Unrecognized => 0,
    }
}

/// The payload a feature travels with; the sentinel has none.
pub open spec fn spec_feature_payload(f: SpecFeature) -> Seq<u8> {
    match f {
        SpecFeature::Mode(m) => spec_mode_payload(m),
        SpecFeature::LocalAddr(a) => spec_addr_payload(a),
        SpecFeature::SessionId(s) => spec_session_payload(s),
        SpecFeature::Unrecognized => Seq::empty(),
    }
}

/// Structural soundness of a feature value: address octets of one of the two
/// families, four magic bytes. Every exec value has it by construction.
pub open spec fn wf_feature(f: SpecFeature) -> bool {
    match f {
        SpecFeature::Mode(_) => true,
        SpecFeature::LocalAddr(a) => a.ip.len() == 4 || a.ip.len() == 16,
        SpecFeature::SessionId(s) => s.magic.len() == 4,
        SpecFeature::Unrecognized => true,
    }
}

/// Every exec feature value is structurally sound.
pub proof fn lemma_peer_feature_wf(f: &PeerFeature)
    ensures
        wf_feature(f@),
{
    match f {
        PeerFeature::Mode(_) => {},
        PeerFeature::LocalAddr(a) => {},
        PeerFeature::SessionId(s) => {},
        PeerFeature::Unrecognized => {},
    }
}

/// A structurally sound feature payload stays well below the 16-bit length
/// prefix the wire format gives it.
pub proof fn lemma_feature_payload_len(f: SpecFeature)
    requires
        wf_feature(f),
    ensures
        spec_feature_payload(f).len() <= 40,
{
    match f {
        SpecFeature::Mode(m) => {
            match m.nipopow_suffix_len {
                Some(n) => {
                    lemma_vlq_enc_len_u64(n as nat);
                },
                None => {},
            }
            lemma_vlq_enc_len_u64(crate::vlq::zigzag_ext_i32(m.blocks_to_keep) as nat);
        },
        SpecFeature::LocalAddr(a) => {
            lemma_vlq_enc_len_u64(a.port as nat);
        },
        SpecFeature::SessionId(s) => {
            lemma_vlq_enc_len_u64(crate::vlq::zigzag_i64(s.session_id) as nat);
        },
        SpecFeature::Unrecognized => {},
    }
}

/// What dispatching on a feature id yields: the three recognized ids parse
/// their payloads, every other id is the sentinel, whatever its payload.
pub open spec fn spec_parse_feature(id: u8, b: Seq<u8>) -> Result<SpecFeature, FeaturesError> {
    if id == 16 {
        match spec_parse_mode(b) {
            Ok(m) => Ok(SpecFeature::Mode(m)),
            Err(e) => Err(FeaturesError::CannotParseFeature(e)),
        }
    } else if id == 2 {
        match spec_addr_from_payload(b) {
            Ok(a) => Ok(SpecFeature::LocalAddr(a)),
            Err(e) => Err(
                FeaturesError::CannotParseFeature(FeatureParseError::CannotParseLocalAddress(e)),
            ),
        }
    } else if id == 3 {
        match spec_parse_session_id(b) {
            Ok(s) => Ok(SpecFeature::SessionId(s)),
            Err(e) => Err(FeaturesError::CannotParseFeature(e)),
        }
    } else {
        Ok(SpecFeature::Unrecognized)
    }
}

/// Parse one feature from its id and payload, as [`spec_parse_feature`]
/// describes; an unknown id never fails.
pub fn parse_feature(id: u8, data: Vec<u8>) -> (r: Result<PeerFeature, FeaturesError>)
    ensures
        match spec_parse_feature(id, data@) {
            Ok(f) => r matches Ok(x) && x@ == f,
            Err(e) => r matches Err(x) && x == e,
        },
{
    if id == PeerFeature::MODE_ID {
        match parse_mode(data) {
            Ok(m) => Ok(PeerFeature::Mode(m)),
            Err(e) => Err(FeaturesError::CannotParseFeature(e)),
        }
    } else if id == PeerFeature::LOCAL_ADDR_ID {
        match PeerAddr::try_from_vlq(data) {
            Ok(a) => Ok(PeerFeature::LocalAddr(a)),
            Err(e) => Err(
                FeaturesError::CannotParseFeature(FeatureParseError::CannotParseLocalAddress(e)),
            ),
        }
    } else if id == PeerFeature::SESSION_ID {
        match parse_session_id(data) {
            Ok(s) => Ok(PeerFeature::SessionId(s)),
            Err(e) => Err(FeaturesError::CannotParseFeature(e)),
        }
    } else {
        Ok(PeerFeature::Unrecognized)
    }
}

/// Serialize one feature's payload, as [`spec_feature_payload`] describes;
/// the sentinel has no payload and may not be serialized.
pub fn serialize_feature(feature: &PeerFeature) -> (r: Result<Vec<u8>, FeaturesError>)
    requires
        !(feature@ matches SpecFeature::Unrecognized),
    ensures
        r matches Ok(v) && v@ == spec_feature_payload(feature@),
{
    match feature {
        PeerFeature::Mode(m) => match serialize_mode(m) {
            Ok(v) => Ok(v),
            Err(e) => Err(FeaturesError::CannotSerializeFeature(e)),
        },
        PeerFeature::LocalAddr(a) => match a.try_into_vlq() {
            Ok(v) => Ok(v),
            Err(e) => Err(
                FeaturesError::CannotSerializeFeature(
                    FeatureSerializeError::CannotSerializeLocalAddress(e),
                ),
            ),
        },
        PeerFeature::SessionId(s) => match serialize_session_id(s) {
            Ok(v) => Ok(v),
            Err(e) => Err(FeaturesError::CannotSerializeFeature(e)),
        },
        PeerFeature::Unrecognized => {
            proof {
                assert(false);
            }
            Err(FeaturesError::CannotSerializeFeature(FeatureSerializeError::CannotWriteData))
        },
    }
}

impl PeerFeature {
    /// The wire id of the Mode feature.
    pub const MODE_ID: u8 = 16;

    /// The wire id of the local-address feature.
    pub const LOCAL_ADDR_ID: u8 = 2;

    /// The wire id of the session-id feature.
    pub const SESSION_ID: u8 = 3;

    /// The id this feature travels under; the sentinel has none.
    pub fn get_id(&self) -> (r: u8)
        requires
            !(self@ matches SpecFeature::Unrecognized),
        ensures
            r == spec_feature_id(self@),
    {
        match self {
            PeerFeature::Mode(_) => Self::MODE_ID,
            PeerFeature::LocalAddr(_) => Self::LOCAL_ADDR_ID,
            PeerFeature::SessionId(_) => Self::SESSION_ID,
            PeerFeature::Unrecognized => {
                proof {
                    assert(false);
                }
                0
            },
        }
    }
}

/// One feature as framed inside the feature list: id byte, VLQ payload
/// length, payload bytes.
pub open spec fn spec_ser_feature(f: SpecFeature) -> Seq<u8> {
    seq![spec_feature_id(f)] + vlq_enc(spec_feature_payload(f).len() as nat)
        + spec_feature_payload(f)
}

/// A run of framed features, in order.
pub open spec fn spec_ser_feature_list(fs: Seq<SpecFeature>) -> Seq<u8>
    decreases fs.len(),
{
    if fs.len() == 0 {
        Seq::empty()
    } else {
        spec_ser_feature(fs[0]) + spec_ser_feature_list(fs.drop_first())
    }
}

/// Framing features one after another appends one frame at a time.
pub proof fn lemma_ser_feature_list_snoc(fs: Seq<SpecFeature>, f: SpecFeature)
    ensures
        spec_ser_feature_list(fs.push(f)) == spec_ser_feature_list(fs) + spec_ser_feature(f),
    decreases fs.len(),
{
    if fs.len() == 0 {
        assert(fs.push(f).drop_first() =~= Seq::<SpecFeature>::empty());
        assert(spec_ser_feature(f) + spec_ser_feature_list(Seq::<SpecFeature>::empty()) =~= spec_ser_feature(f));
        assert(spec_ser_feature_list(fs) + spec_ser_feature(f) =~= spec_ser_feature(f));
    } else {
        assert(fs.push(f).drop_first() =~= fs.drop_first().push(f));
        assert(fs.push(f)[0] == fs[0]);
        lemma_ser_feature_list_snoc(fs.drop_first(), f);
        assert(spec_ser_feature(fs[0]) + (spec_ser_feature_list(fs.drop_first())
            + spec_ser_feature(f)) =~= (spec_ser_feature(fs[0]) + spec_ser_feature_list(
            fs.drop_first(),
        )) + spec_ser_feature(f));
    }
}

/// Dispatching a serialized recognized feature by its own id parses back to
/// the same feature, provided a local address carries a port of at least 128.
pub proof fn lemma_feature_roundtrip(f: SpecFeature)
    requires
        wf_feature(f),
        !(f matches SpecFeature::Unrecognized),
        f matches SpecFeature::LocalAddr(a) ==> a.port >= 128,
    ensures
        spec_parse_feature(spec_feature_id(f), spec_feature_payload(f)) == Ok::<
            SpecFeature,
            FeaturesError,
        >(f),
{
    match f {
        SpecFeature::Mode(m) => lemma_mode_roundtrip(m),
        SpecFeature::LocalAddr(a) => lemma_addr_payload_roundtrip(a),
        SpecFeature::SessionId(s) => lemma_session_id_roundtrip(s),
        SpecFeature::Unrecognized => {},
    }
}

/// Forward compatibility at the dispatch: a feature id that is not one of
/// the three recognized ones parses as the sentinel, whatever its payload
/// holds, never as an error.
pub proof fn lemma_unknown_feature_is_sentinel(id: u8, b: Seq<u8>)
    requires
        id != 16,
        id != 2,
        id != 3,
    ensures
        spec_parse_feature(id, b) == Ok::<SpecFeature, FeaturesError>(SpecFeature::Unrecognized),
{
}

/// Whatever feature the dispatch yields is structurally sound.
pub proof fn lemma_parse_feature_wf(id: u8, b: Seq<u8>)
    ensures
        spec_parse_feature(id, b) matches Ok(f) ==> wf_feature(f),
{
}

/// The ordered feature list of a handshake; holds at most 255 entries.
#[derive(Debug)]
pub struct Features(Vec<PeerFeature>);

impl View for Features {
    type V = Seq<SpecFeature>;

    closed spec fn view(&self) -> Seq<SpecFeature> {
        self.0@.map_values(|f: PeerFeature| f@)
    }
}

impl Features {
    /// The largest number of features a handshake can carry.
    pub const MAX_LEN: usize = 255;

    #[verifier::type_invariant]
    spec fn wf(self) -> bool {
        self.0@.len() <= 255
    }

    /// Wrap a feature list: rejects lists longer than 255 entries with
    /// `TooMuchPeerFeatures`, and keeps everything else in order.
    pub fn try_new(features: Vec<PeerFeature>) -> (r: Result<Features, FeaturesError>)
        ensures
            features@.len() <= 255 ==> (r matches Ok(x) && x@ == features@.map_values(
                |f: PeerFeature| f@,
            )),
            features@.len() > 255 ==> r == Err::<Features, FeaturesError>(
                FeaturesError::TooMuchPeerFeatures(features@.len() as usize),
            ),
    {
        if features.len() > 255 {
            return Err(FeaturesError::TooMuchPeerFeatures(features.len()));
        }
        Ok(Features(features))
    }

    /// How many features the list holds, which construction bounds by 255.
    pub fn len(&self) -> (r: usize)
        ensures
            r == self@.len(),
            r <= 255,
    {
        proof {
            use_type_invariant(&*self);
        }
        self.0.len()
    }

    /// The feature at `i`.
    pub fn get(&self, i: usize) -> (r: &PeerFeature)
        requires
            i < self@.len(),
        ensures
            r@ == self@[i as int],
    {
        &self.0[i]
    }
}

impl PartialEq for PeerFeature {
    fn eq(&self, other: &Self) -> (r: bool) {
        match (self, other) {
            (PeerFeature::Mode(a), PeerFeature::Mode(b)) => a == b,
            (PeerFeature::LocalAddr(a), PeerFeature::LocalAddr(b)) => a == b,
            (PeerFeature::SessionId(a), PeerFeature::SessionId(b)) => a == b,
            (PeerFeature::Unrecognized, PeerFeature::Unrecognized) => true,
            _ => false,
        }
    }
}

impl vstd::std_specs::cmp::PartialEqSpecImpl for PeerFeature {
    open spec fn obeys_eq_spec() -> bool {
        true
    }

    open spec fn eq_spec(&self, other: &Self) -> bool {
        self@ == other@
    }
}

impl PartialEq for Features {
    fn eq(&self, other: &Self) -> (r: bool) {
        proof {
            assert(self@.len() == self.0@.len() && other@.len() == other.0@.len());
        }
        if self.0.len() != other.0.len() {
            return false;
        }
        let n = self.0.len();
        let mut i: usize = 0;
        while i < n
            invariant
                i <= n,
                n == self.0@.len() == other.0@.len(),
                self@.len() == n == other@.len(),
                forall|k: int| 0 <= k < i ==> self@[k] == other@[k],
            decreases n - i,
        {
            proof {
                assert(self@[i as int] == self.0@[i as int]@);
                assert(other@[i as int] == other.0@[i as int]@);
            }
            if !(self.0[i] == other.0[i]) {
                return false;
            }
            i = i + 1;
        }
        proof {
            assert(self@ =~= other@);
        }
        true
    }
}

impl vstd::std_specs::cmp::PartialEqSpecImpl for Features {
    open spec fn obeys_eq_spec() -> bool {
        true
    }

    open spec fn eq_spec(&self, other: &Self) -> bool {
        self@ == other@
    }
}

} // verus!
