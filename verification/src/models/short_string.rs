//! A validated short string: UTF-8 text of at most 255 bytes.

use crate::bytes::bytes_equal;
use crate::models::errors::ModelParseError;
use crate::utf8::{check_utf8, is_utf8};
use vstd::prelude::*;

verus! {

/// UTF-8 text whose byte length fits the one-byte length prefix the wire
/// format uses; construction rejects longer or non-UTF-8 input.
#[derive(Debug)]
pub struct ShortString(Vec<u8>);

/// Whether `data` is acceptable as the contents of a [`ShortString`].
pub open spec fn short_string_ok(data: Seq<u8>) -> bool {
    data.len() <= 255 && is_utf8(data)
}

impl View for ShortString {
    type V = Seq<u8>;

    closed spec fn view(&self) -> Seq<u8> {
        self.0@
    }
}

impl ShortString {
    /// The largest byte length a short string can have.
    pub const MAX_SIZE: usize = 255;

    #[verifier::type_invariant]
    spec fn wf(self) -> bool {
        short_string_ok(self@)
    }

    /// Validate `data` and wrap it: rejects buffers over 255 bytes with
    /// `InvalidShortStringLength` and non-UTF-8 buffers with
    /// `InvalidUtf8Buffer`, and accepts everything else unchanged.
    pub fn try_from(data: Vec<u8>) -> (r: Result<ShortString, ModelParseError>)
        ensures
            match r {
                Ok(s) => short_string_ok(data@) && s@ == data@,
                Err(e) => !short_string_ok(data@) && e == (if data@.len() > 255 {
                    ModelParseError::InvalidShortStringLength(data@.len() as usize)
                } else {
                    ModelParseError::InvalidUtf8Buffer
                }),
            },
    {
        if data.len() > 255 {
            return Err(ModelParseError::InvalidShortStringLength(data.len()));
        }
        if !check_utf8(data.as_slice()) {
            return Err(ModelParseError::InvalidUtf8Buffer);
        }
        Ok(ShortString(data))
    }

    /// The string's bytes.
    pub fn as_bytes(&self) -> (r: &Vec<u8>)
        ensures
            r@ == self@,
    {
        &self.0
    }

    /// The string's byte length, which its validation bounds by 255.
    pub fn len(&self) -> (r: usize)
        ensures
            r == self@.len(),
            r <= 255,
    {
        proof {
            use_type_invariant(&*self);
        }
        self.0.len()
    }

}

impl PartialEq for ShortString {
    fn eq(&self, other: &Self) -> (r: bool) {
        bytes_equal(self.0.as_slice(), other.0.as_slice())
    }
}

impl vstd::std_specs::cmp::PartialEqSpecImpl for ShortString {
    open spec fn obeys_eq_spec() -> bool {
        true
    }

    open spec fn eq_spec(&self, other: &Self) -> bool {
        self@ == other@
    }
}

} // verus!
