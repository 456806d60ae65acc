//! The content of a raw bundle2 blob, and its form as a Thrift value.

use core::ops::Deref;
use vstd::prelude::*;
use vstd::slice::slice_to_vec;
use crate::text::{ascii_string, ascii_text, decimal, lemma_decimal_is_ascii, push_decimal,
    push_signed_decimal, signed_decimal};

verus! {

#[verifier::external_type_specification]
#[verifier::external_body]
pub struct ExBytes(bytes::Bytes);

/// The bytes that a `bytes::Bytes` holds.
pub uninterp spec fn contents(bytes: bytes::Bytes) -> Seq<u8>;

/// `Bytes::from(Vec<u8>)` takes the vector over: the result holds the
/// bytes of the vector.
pub assume_specification[ <bytes::Bytes as core::convert::From<Vec<u8>>>::from ](
    vec: Vec<u8>,
) -> (bytes: bytes::Bytes)
    ensures
        contents(bytes) == vec@,
;

/// `Bytes::len` is the number of bytes held.
pub assume_specification[ bytes::Bytes::len ](bytes: &bytes::Bytes) -> (n: usize)
    ensures
        n == contents(*bytes).len(),
;

/// A `Bytes` dereferences to the slice of the bytes that it holds.
pub assume_specification<'a>[ <bytes::Bytes as core::ops::Deref>::deref ](
    bytes: &'a bytes::Bytes,
) -> (slice: &'a [u8])
    ensures
        slice@ == contents(*bytes),
;

/// A clone of a `Bytes` is a second handle to the same bytes.
pub assume_specification[ <bytes::Bytes as Clone>::clone ](bytes: &bytes::Bytes) -> (copy:
    bytes::Bytes)
    ensures
        contents(copy) == contents(*bytes),
;

/// A raw bundle2 as a Thrift value: a union with one known field.
#[derive(Clone, Debug, PartialEq, Eq)]
pub enum ThriftRawBundle2 {
    /// The bytes of the bundle.
    Bytes(Vec<u8>),
    /// A field that this version does not know, by its number.
    UnknownField(i32),
}

/// Why a value could not be read.
#[derive(Clone, Debug, PartialEq, Eq)]
pub enum MononokeTypeError {
    /// The Thrift value of the named type is not a valid one; the second
    /// text says why.
    InvalidThrift(String, String),
    /// The blob could not be read as a value of the named type.
    BlobDeserializeError(String),
}

/// The content of a raw bundle2 blob.
#[derive(Clone, Debug, PartialEq, Eq)]
pub enum RawBundle2 {
    /// The bytes of the bundle.
    Bytes(bytes::Bytes),
}

impl View for RawBundle2 {
    type V = Seq<u8>;

    /// The bytes of the bundle.
    open spec fn view(&self) -> Seq<u8> {
        match *self {
            RawBundle2::Bytes(bytes) => contents(bytes),
        }
    }
}

/// Why a Thrift union with the unknown field `field` is no bundle.
pub open spec fn unknown_field_reason(field: i32) -> Seq<char> {
    "unknown rawbundle2 field: "@ + ascii_text(signed_decimal(field as int))
}

/// What the debug form of a bundle of `len` bytes reads.
pub open spec fn debug_form(len: nat) -> Seq<char> {
    "RawBundle2::Bytes(length "@ + ascii_text(decimal(len)) + ")"@
}

impl RawBundle2 {
    /// A bundle with the given bytes.
    pub fn new_bytes(b: Vec<u8>) -> (bundle: RawBundle2)
        ensures
            bundle@ == b@,
    {
        RawBundle2::Bytes(bytes::Bytes::from(b))
    }

    /// Reads a bundle from its Thrift value.
    pub fn from_thrift(fc: ThriftRawBundle2) -> (r: Result<RawBundle2, MononokeTypeError>)
        ensures
            match fc {
                ThriftRawBundle2::Bytes(bytes) => r matches Ok(bundle) && bundle@ == bytes@,
                ThriftRawBundle2::UnknownField(field) => r matches Err(
                    MononokeTypeError::InvalidThrift(kind, reason),
                ) && kind@ == "RawBundle2"@ && reason@ == unknown_field_reason(field),
            },
    {
        match fc {
            ThriftRawBundle2::Bytes(bytes) => Ok(RawBundle2::Bytes(bytes::Bytes::from(bytes))),
            ThriftRawBundle2::UnknownField(field) => {
                let mut digits: Vec<u8> = Vec::new();
                push_signed_decimal(&mut digits, field as i64);
                proof {
                    lemma_decimal_is_ascii((-(field as int)) as nat);
                    lemma_decimal_is_ascii(field as nat);
                    assert(digits@ =~= signed_decimal(field as int));
                }
                let number = ascii_string(digits);
                let reason = "unknown rawbundle2 field: ".to_owned().concat(number.as_str());
                Err(MononokeTypeError::InvalidThrift("RawBundle2".to_owned(), reason))
            },
        }
    }

    /// The number of bytes in the bundle.
    pub fn size(&self) -> (n: usize)
        ensures
            n == self@.len(),
    {
        match self {
            RawBundle2::Bytes(bytes) => bytes.len(),
        }
    }

    /// Whether the bundle starts with `needle`.
    pub fn starts_with(&self, needle: &[u8]) -> (yes: bool)
        ensures
            yes == needle@.is_prefix_of(self@),
    {
        let held: &[u8] = match self {
            RawBundle2::Bytes(bytes) => bytes.deref(),
        };
        if needle.len() > held.len() {
            return false;
        }
        let mut i: usize = 0;
        while i < needle.len()
            invariant
                i <= needle.len() <= held.len(),
                held@ == self@,
                forall|j: int| 0 <= j < i ==> needle[j] == held[j],
            decreases needle.len() - i,
        {
            if needle[i] != held[i] {
                assert(held@.subrange(0, needle.len() as int)[i as int] != needle@[i as int]);
                return false;
            }
            i += 1;
        }
        assert(held@.subrange(0, needle.len() as int) =~= needle@);
        true
    }

    /// The bytes of the bundle.
    pub fn into_bytes(self) -> (bytes: bytes::Bytes)
        ensures
            contents(bytes) == self@,
    {
        match self {
            RawBundle2::Bytes(bytes) => bytes,
        }
    }

    /// The bytes of the bundle.
    pub fn as_bytes(&self) -> (bytes: &bytes::Bytes)
        ensures
            contents(*bytes) == self@,
    {
        match self {
            RawBundle2::Bytes(bytes) => bytes,
        }
    }

    /// The bundle as a Thrift value.
    pub fn into_thrift(self) -> (fc: ThriftRawBundle2)
        ensures
            fc matches ThriftRawBundle2::Bytes(bytes) && bytes@ == self@,
    {
        match self {
            RawBundle2::Bytes(bytes) => ThriftRawBundle2::Bytes(slice_to_vec(bytes.deref())),
        }
    }

    /// The debug form of the bundle, which gives its length only.
    pub fn debug_text(&self) -> (text: String)
        ensures
            text@ == debug_form(self@.len()),
    {
        let mut digits: Vec<u8> = Vec::new();
        push_decimal(&mut digits, self.size() as u64);
        proof {
            lemma_decimal_is_ascii(self@.len());
            assert(digits@ =~= decimal(self@.len()));
        }
        let number = ascii_string(digits);
        "RawBundle2::Bytes(length ".to_owned().concat(number.as_str()).concat(")")
    }
}

} // verus!
