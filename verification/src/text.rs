//! Texts with a fixed capacity, checked when they are made.

use vstd::prelude::*;
use vstd::slice::slice_to_vec;
use vstd::string::StringSliceAdditionalSpecFns;
use crate::argument::Argument;
use crate::error::EncodingError;

verus! {

/// A text of at most `N` bytes.
#[derive(Debug, PartialEq, Eq)]
pub struct Text<const N: usize> {
    bytes: Vec<u8>,
}

impl<const N: usize> View for Text<N> {
    type V = Seq<u8>;

    closed spec fn view(&self) -> Seq<u8> {
        self.bytes@
    }
}

impl<const N: usize> Text<N> {
    #[verifier::type_invariant]
    spec fn within_capacity(self) -> bool {
        self.bytes@.len() <= N
    }

    /// The empty text.
    pub fn new() -> (out: Self)
        ensures
            out@ == Seq::<u8>::empty(),
    {
        Text { bytes: Vec::new() }
    }

    /// The text of the given bytes, or `CapacityExceeded` where they are
    /// more than `N`. Nothing is ever cut off.
    pub fn from_bytes(bytes: &[u8]) -> (out: Result<Self, EncodingError>)
        ensures
            bytes@.len() <= N ==> out is Ok && out.unwrap()@ == bytes@,
            bytes@.len() > N ==> out is Err && out.unwrap_err() == EncodingError::CapacityExceeded,
    {
        if bytes.len() <= N {
            Ok(Text { bytes: slice_to_vec(bytes) })
        } else {
            Err(EncodingError::CapacityExceeded)
        }
    }

    /// The text of the given string as UTF-8, or `CapacityExceeded` where
    /// that takes more than `N` bytes.
    pub fn from_str(text: &str) -> (out: Result<Self, EncodingError>)
        ensures
            text.spec_bytes().len() <= N ==> out is Ok && out.unwrap()@ == text.spec_bytes(),
            text.spec_bytes().len() > N ==> out is Err && out.unwrap_err()
                == EncodingError::CapacityExceeded,
    {
        Self::from_bytes(text.as_bytes())
    }

    pub fn as_bytes(&self) -> (out: &[u8])
        ensures
            out@ == self@,
            out@.len() <= N,
    {
        proof {
            use_type_invariant(self);
        }
        self.bytes.as_slice()
    }

    pub fn len(&self) -> (out: usize)
        ensures
            out == self@.len(),
            out <= N,
    {
        proof {
            use_type_invariant(self);
        }
        self.bytes.len()
    }

    pub fn is_empty(&self) -> (out: bool)
        ensures
            out == (self@.len() == 0),
    {
        self.bytes.len() == 0
    }

    /// The most bytes that the text can hold.
    pub fn capacity(&self) -> (out: usize)
        ensures
            out == N,
    {
        N
    }

    /// The text as an argument that is quoted where its command quotes.
    pub fn to_argument(&self) -> (out: Argument)
        ensures
            out@ == crate::argument::ArgumentModel::Text(self@),
    {
        Argument::Text(self.bytes.clone())
    }
}

impl<const N: usize> Clone for Text<N> {
    fn clone(&self) -> (out: Self)
        ensures
            out@ == self@,
    {
        proof {
            use_type_invariant(self);
        }
        Text { bytes: self.bytes.clone() }
    }
}

/// An optional text as an argument: the text, or absent.
pub fn optional_argument<const N: usize>(text: &Option<Text<N>>) -> (out: Argument)
    ensures
        out@ == match *text {
            Some(t) => crate::argument::ArgumentModel::Text(t@),
            None => crate::argument::ArgumentModel::Absent,
        },
{
    match text {
        Some(t) => t.to_argument(),
        None => Argument::Absent,
    }
}

} // verus!
