//! The SessionId feature: the network magic and a 64-bit session number.

use crate::features::errors::{FeatureParseError, FeatureSerializeError};
use crate::models::magic::MagicBytes;
use crate::vlq::{
    lemma_spec_get_i64_of_enc, spec_get_i64, vlq_enc, zigzag_i64, TryFromVlq, TryIntoVlq,
    VlqReader, VlqWriter,
};
use vstd::prelude::*;

verus! {

/// The SessionId feature's fields.
#[derive(Debug, Clone, Copy)]
pub struct SessionId {
    /// The network the session belongs to.
    pub magic: MagicBytes,
    /// The session number.
    pub session_id: i64,
}

/// The mathematical shape of a SessionId: the magic octets and the number.
pub ghost struct SpecSessionId {
    /// The network magic octets.
    pub magic: Seq<u8>,
    /// The session number.
    pub session_id: i64,
}

impl View for SessionId {
    type V = SpecSessionId;

    open spec fn view(&self) -> SpecSessionId {
        SpecSessionId { magic: self.magic@, session_id: self.session_id }
    }
}

/// The SessionId payload on the wire: four raw magic bytes, then the zig-zag
/// VLQ session number.
pub open spec fn spec_session_payload(s: SpecSessionId) -> Seq<u8> {
    s.magic + vlq_enc(zigzag_i64(s.session_id) as nat)
}

/// What parsing a SessionId payload yields: the first four bytes as the
/// magic, then the session number; bytes after it are ignored.
pub open spec fn spec_parse_session_id(b: Seq<u8>) -> Result<SpecSessionId, FeatureParseError> {
    if b.len() < 4 {
        Err(FeatureParseError::CannotReadData)
    } else {
        match spec_get_i64(b.skip(4), 0) {
            Err(e) => Err(FeatureParseError::CannotVlqDecodeData(e)),
            Ok((sid, _)) => Ok(SpecSessionId { magic: b.subrange(0, 4), session_id: sid }),
        }
    }
}

/// Parse a SessionId payload, as [`spec_parse_session_id`] describes.
pub fn parse_session_id(data: Vec<u8>) -> (r: Result<SessionId, FeatureParseError>)
    ensures
        match spec_parse_session_id(data@) {
            Ok(s) => r matches Ok(x) && x@ == s,
            Err(e) => r matches Err(x) && x == e,
        },
{
    if data.len() < 4 {
        return Err(FeatureParseError::CannotReadData);
    }
    let magic = MagicBytes([data[0], data[1], data[2], data[3]]);
    let rest = vstd::slice::slice_subrange(data.as_slice(), 4, data.len());
    proof {
        assert(rest@ =~= data@.skip(4));
        assert(magic@ =~= data@.subrange(0, 4));
    }
    let mut rd = VlqReader::new(rest);
    match rd.get_i64() {
        Ok(sid) => Ok(SessionId { magic, session_id: sid }),
        Err(e) => Err(FeatureParseError::CannotVlqDecodeData(e)),
    }
}

/// Serialize a SessionId payload, as [`spec_session_payload`] describes; the
/// growable buffer never refuses bytes, so the result is always the payload.
pub fn serialize_session_id(session_id: &SessionId) -> (r: Result<Vec<u8>, FeatureSerializeError>)
    ensures
        r matches Ok(v) && v@ == spec_session_payload(session_id@),
{
    let mut w = VlqWriter::new();
    w.write_bytes(session_id.magic.0.as_slice());
    w.put_i64(session_id.session_id);
    let out = w.into_inner();
    proof {
        assert(out@ =~= spec_session_payload(session_id@));
    }
    Ok(out)
}

/// Parsing a serialized SessionId payload gives the fields back.
pub proof fn lemma_session_id_roundtrip(s: SpecSessionId)
    requires
        s.magic.len() == 4,
    ensures
        spec_parse_session_id(spec_session_payload(s)) == Ok::<SpecSessionId, FeatureParseError>(
            s,
        ),
{
    let b = spec_session_payload(s);
    let e = vlq_enc(zigzag_i64(s.session_id) as nat);
    assert(b.skip(4) =~= e);
    assert(e.subrange(0, e.len() as int) =~= e);
    lemma_spec_get_i64_of_enc(e, 0, s.session_id);
    assert(b.subrange(0, 4) =~= s.magic);
}

impl TryFromVlq for SessionId {
    type Error = FeatureParseError;

    fn try_from_vlq(data: Vec<u8>) -> Result<Self, Self::Error> {
        parse_session_id(data)
    }
}

impl TryIntoVlq for SessionId {
    type Error = FeatureSerializeError;

    fn try_into_vlq(&self) -> Result<Vec<u8>, Self::Error> {
        serialize_session_id(self)
    }
}

impl PartialEq for SessionId {
    fn eq(&self, other: &Self) -> (r: bool) {
        self.magic == other.magic && self.session_id == other.session_id
    }
}

impl vstd::std_specs::cmp::PartialEqSpecImpl for SessionId {
    open spec fn obeys_eq_spec() -> bool {
        true
    }

    open spec fn eq_spec(&self, other: &Self) -> bool {
        self@ == other@
    }
}

} // verus!
