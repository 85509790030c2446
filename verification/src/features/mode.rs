//! The Mode feature: how the peer keeps and verifies the chain.

use crate::features::errors::{FeatureParseError, FeatureSerializeError};
use crate::vlq::{
    lemma_spec_get_i32_of_enc, lemma_spec_get_u32_of_enc, spec_get_i32, spec_get_u32, spec_get_u8,
    vlq_enc, zigzag_ext_i32, TryFromVlq, TryIntoVlq, VlqReader, VlqWriter,
};
use vstd::prelude::*;

verus! {

/// The Mode feature's fields. The optional NiPoPoW suffix length travels
/// behind a one-byte presence flag.
#[derive(Debug, Clone, Copy)]
pub struct Mode {
    /// How the peer keeps state.
    pub state_type: u8,
    /// Whether the peer verifies transactions.
    pub is_verifying: bool,
    /// Present when the peer keeps NiPoPoW proofs, with the suffix length.
    pub nipopow_suffix_len: Option<u32>,
    /// How many recent blocks the peer keeps; negative means all of them.
    pub blocks_to_keep: i32,
}

/// The Mode payload on the wire: state byte, verifying flag byte, the
/// NiPoPoW presence flag with the suffix length behind it, then the zig-zag
/// VLQ block count.
pub open spec fn spec_mode_payload(m: Mode) -> Seq<u8> {
    seq![m.state_type] + seq![
        if m.is_verifying {
            1u8
        } else {
            0u8
        },
    ] + (match m.nipopow_suffix_len {
        Some(n) => seq![1u8] + vlq_enc(n as nat),
        None => seq![0u8],
    }) + vlq_enc(zigzag_ext_i32(m.blocks_to_keep) as nat)
}

/// What parsing a Mode payload yields: three raw bytes (any byte other than
/// one reads as a cleared flag), the optional suffix length, the block
/// count; bytes after the block count are ignored.
pub open spec fn spec_parse_mode(b: Seq<u8>) -> Result<Mode, FeatureParseError> {
    match spec_get_u8(b, 0) {
        Err(_) => Err(FeatureParseError::CannotReadData),
        Ok((st, i1)) => match spec_get_u8(b, i1) {
            Err(_) => Err(FeatureParseError::CannotReadData),
            Ok((vb, i2)) => match spec_get_u8(b, i2) {
                Err(_) => Err(FeatureParseError::CannotReadData),
                Ok((nb, i3)) => if nb == 1 {
                    match spec_get_u32(b, i3) {
                        Err(e) => Err(FeatureParseError::CannotVlqDecodeData(e)),
                        Ok((n, i4)) => match spec_get_i32(b, i4) {
                            Err(e) => Err(FeatureParseError::CannotVlqDecodeData(e)),
                            Ok((blocks, _)) => Ok(
                                Mode {
                                    state_type: st,
                                    is_verifying: vb == 1,
                                    nipopow_suffix_len: Some(n),
                                    blocks_to_keep: blocks,
                                },
                            ),
                        },
                    }
                } else {
                    match spec_get_i32(b, i3) {
                        Err(e) => Err(FeatureParseError::CannotVlqDecodeData(e)),
                        Ok((blocks, _)) => Ok(
                            Mode {
                                state_type: st,
                                is_verifying: vb == 1,
                                nipopow_suffix_len: None,
                                blocks_to_keep: blocks,
                            },
                        ),
                    }
                },
            },
        },
    }
}

/// Parse a Mode payload, as [`spec_parse_mode`] describes.
pub fn parse_mode(data: Vec<u8>) -> (r: Result<Mode, FeatureParseError>)
    ensures
        match spec_parse_mode(data@) {
            Ok(m) => r matches Ok(x) && x == m,
            Err(e) => r matches Err(x) && x == e,
        },
{
    let mut rd = VlqReader::new(data.as_slice());
    let state_type = match rd.get_u8() {
        Ok(b) => b,
        Err(_) => return Err(FeatureParseError::CannotReadData),
    };
    let vb = match rd.get_u8() {
        Ok(b) => b,
        Err(_) => return Err(FeatureParseError::CannotReadData),
    };
    let nb = match rd.get_u8() {
        Ok(b) => b,
        Err(_) => return Err(FeatureParseError::CannotReadData),
    };
    let nipopow_suffix_len = if nb == 1 {
        match rd.get_u32() {
            Ok(n) => Some(n),
            Err(e) => return Err(FeatureParseError::CannotVlqDecodeData(e)),
        }
    } else {
        None
    };
    let blocks_to_keep = match rd.get_i32() {
        Ok(v) => v,
        Err(e) => return Err(FeatureParseError::CannotVlqDecodeData(e)),
    };
    Ok(Mode { state_type, is_verifying: vb == 1, nipopow_suffix_len, blocks_to_keep })
}

/// Serialize a Mode payload, as [`spec_mode_payload`] describes; the growable
/// buffer never refuses bytes, so the result is always the payload.
pub fn serialize_mode(mode: &Mode) -> (r: Result<Vec<u8>, FeatureSerializeError>)
    ensures
        r matches Ok(v) && v@ == spec_mode_payload(*mode),
{
    let mut w = VlqWriter::new();
    w.put_u8(mode.state_type);
    w.put_u8(if mode.is_verifying {
        1
    } else {
        0
    });
    match mode.nipopow_suffix_len {
        Some(n) => {
            w.put_u8(1);
            w.put_u32(n);
        },
        None => {
            w.put_u8(0);
        },
    }
    w.put_i32(mode.blocks_to_keep);
    let out = w.into_inner();
    proof {
        assert(out@ =~= spec_mode_payload(*mode));
    }
    Ok(out)
}

/// Parsing a serialized Mode payload gives the fields back.
pub proof fn lemma_mode_roundtrip(m: Mode)
    ensures
        spec_parse_mode(spec_mode_payload(m)) == Ok::<Mode, FeatureParseError>(m),
{
    let b = spec_mode_payload(m);
    let vb: u8 = if m.is_verifying {
        1
    } else {
        0
    };
    match m.nipopow_suffix_len {
        Some(n) => {
            let e1 = vlq_enc(n as nat);
            let e2 = vlq_enc(zigzag_ext_i32(m.blocks_to_keep) as nat);
            assert(b[0] == m.state_type && b[1] == vb && b[2] == 1u8);
            assert(b.subrange(3, 3 + e1.len() as int) =~= e1);
            lemma_spec_get_u32_of_enc(b, 3, n);
            assert(b.subrange(3 + e1.len() as int, 3 + e1.len() + e2.len() as int) =~= e2);
            lemma_spec_get_i32_of_enc(b, 3 + e1.len() as int, m.blocks_to_keep);
        },
        None => {
            let e2 = vlq_enc(zigzag_ext_i32(m.blocks_to_keep) as nat);
            assert(b[0] == m.state_type && b[1] == vb && b[2] == 0u8);
            assert(b.subrange(3, 3 + e2.len() as int) =~= e2);
            lemma_spec_get_i32_of_enc(b, 3, m.blocks_to_keep);
        },
    }
}

impl TryFromVlq for Mode {
    type Error = FeatureParseError;

    fn try_from_vlq(data: Vec<u8>) -> Result<Self, Self::Error> {
        parse_mode(data)
    }
}

impl TryIntoVlq for Mode {
    type Error = FeatureSerializeError;

    fn try_into_vlq(&self) -> Result<Vec<u8>, Self::Error> {
        serialize_mode(self)
    }
}

impl PartialEq for Mode {
    fn eq(&self, other: &Self) -> (r: bool) {
        self.state_type == other.state_type && self.is_verifying == other.is_verifying
            && self.nipopow_suffix_len == other.nipopow_suffix_len && self.blocks_to_keep
            == other.blocks_to_keep
    }
}

impl vstd::std_specs::cmp::PartialEqSpecImpl for Mode {
    open spec fn obeys_eq_spec() -> bool {
        true
    }

    open spec fn eq_spec(&self, other: &Self) -> bool {
        self == other
    }
}

} // verus!
