//! The messages that actors pass to each other.

use bytes::Bytes;
use vstd::prelude::*;

verus! {

/// `bytes::Bytes`, of which only the bytes that it holds are visible.
#[verifier::external_type_specification]
#[verifier::external_body]
pub struct ExBytes(Bytes);

/// The bytes that a `Bytes` holds.
pub uninterp spec fn bytes_of(payload: Bytes) -> Seq<u8>;

/// `Bytes::from(Vec<u8>)`: takes the vector's bytes over.
#[verifier::external_body]
fn bytes_from_vec(payload: Vec<u8>) -> (r: Bytes)
    ensures
        bytes_of(r) == payload@,
{
    Bytes::from(payload)
}

/// `Bytes::from_static`: the bytes of the slice.
#[verifier::external_body]
fn bytes_from_static(payload: &'static [u8]) -> (r: Bytes)
    ensures
        bytes_of(r) == payload@,
{
    Bytes::from_static(payload)
}

/// `Bytes::as_ref`: the bytes held, as a slice.
#[verifier::external_body]
fn bytes_as_slice(payload: &Bytes) -> (r: &[u8])
    ensures
        r@ == bytes_of(*payload),
{
    payload.as_ref()
}

/// `Bytes::clone`: another handle to the same bytes.
#[verifier::external_body]
fn bytes_clone(payload: &Bytes) -> (r: Bytes)
    ensures
        bytes_of(r) == bytes_of(*payload),
{
    payload.clone()
}

/// What can be sent to an actor.
///
/// Of a payload only its size is known: whoever passes one on can neither copy it
/// nor make one up, so what arrives is what was sent, and no more often.
pub trait Payload: Sized {
    /// The size in bytes.
    spec fn size(&self) -> nat;

    /// The size in bytes.
    fn byte_count(&self) -> (r: usize)
        ensures
            r == self.size(),
    ;
}

impl Payload for Envelope {
    open spec fn size(&self) -> nat {
        self@.len()
    }

    fn byte_count(&self) -> (r: usize) {
        self.as_slice().len()
    }
}

/// Opaque message envelope passed between actors.
///
/// The view is the payload's bytes.
#[derive(Debug, PartialEq, Eq)]
pub struct Envelope(Bytes);

impl View for Envelope {
    type V = Seq<u8>;

    closed spec fn view(&self) -> Seq<u8> {
        bytes_of(self.0)
    }
}

impl Clone for Envelope {
    fn clone(&self) -> (r: Self)
        ensures
            r@ == self@,
    {
        Envelope(bytes_clone(&self.0))
    }
}

impl Envelope {
    /// The payload as it was handed over.
    pub closed spec fn wrapped(self) -> Bytes {
        self.0
    }

    /// The view is what the payload holds.
    pub broadcast proof fn view_is_payload(self)
        ensures
            #[trigger] self@ == bytes_of(self.wrapped()),
    {
    }

    /// Wraps an existing payload.
    pub fn new(payload: Bytes) -> (r: Self)
        ensures
            r.wrapped() == payload,
            r@ == bytes_of(payload),
    {
        Envelope(payload)
    }

    /// Creates an envelope from a static byte slice.
    pub fn from_static(payload: &'static [u8]) -> (r: Self)
        ensures
            r@ == payload@,
    {
        Envelope(bytes_from_static(payload))
    }

    /// Returns the payload.
    pub fn payload(&self) -> (r: &Bytes)
        ensures
            *r == self.wrapped(),
            bytes_of(*r) == self@,
    {
        &self.0
    }

    /// Consumes the envelope and returns the owned payload.
    pub fn into_payload(self) -> (r: Bytes)
        ensures
            r == self.wrapped(),
            bytes_of(r) == self@,
    {
        self.0
    }

    /// Returns the payload as a byte slice.
    pub fn as_slice(&self) -> (r: &[u8])
        ensures
            r@ == self@,
    {
        bytes_as_slice(&self.0)
    }
}

impl From<Bytes> for Envelope {
    fn from(value: Bytes) -> (r: Self)
        ensures
            r.wrapped() == value,
            r@ == bytes_of(value),
    {
        Envelope::new(value)
    }
}

impl vstd::std_specs::convert::FromSpecImpl<Bytes> for Envelope {
    closed spec fn obeys_from_spec() -> bool {
        true
    }

    closed spec fn from_spec(value: Bytes) -> Self {
        Envelope(value)
    }
}

impl From<Vec<u8>> for Envelope {
    fn from(value: Vec<u8>) -> (r: Self)
        ensures
            r@ == value@,
    {
        Envelope::new(bytes_from_vec(value))
    }
}

impl vstd::std_specs::convert::FromSpecImpl<Vec<u8>> for Envelope {
    open spec fn obeys_from_spec() -> bool {
        false
    }

    open spec fn from_spec(value: Vec<u8>) -> Self {
        arbitrary()
    }
}

impl From<&'static [u8]> for Envelope {
    fn from(value: &'static [u8]) -> (r: Self)
        ensures
            r@ == value@,
    {
        Envelope::from_static(value)
    }
}

impl vstd::std_specs::convert::FromSpecImpl<&'static [u8]> for Envelope {
    open spec fn obeys_from_spec() -> bool {
        false
    }

    open spec fn from_spec(value: &'static [u8]) -> Self {
        arbitrary()
    }
}

} // verus!
