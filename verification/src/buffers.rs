//! The byte buffers of the `bytes` crate, as far as this library uses them.
//!
//! A [`Bytes`] stands for the sequence [`octets`] and a [`BytesMut`] for the sequence
//! [`contents`]. What the items below say of the crate is believed, not proved.

use bytes::{Bytes, BytesMut};
use vstd::prelude::*;

verus! {

/// `bytes::Bytes`, an immutable run of bytes whose copies share their storage.
#[verifier::external_type_specification]
#[verifier::external_body]
pub struct ExBytes(Bytes);

/// `bytes::BytesMut`, a byte buffer that can grow at its end and be split at its front.
#[verifier::external_type_specification]
#[verifier::external_body]
pub struct ExBytesMut(BytesMut);

/// The bytes that a `Bytes` holds.
pub uninterp spec fn octets(b: Bytes) -> Seq<u8>;

/// The bytes that a `BytesMut` holds; its spare capacity is no part of them.
pub uninterp spec fn contents(b: BytesMut) -> Seq<u8>;

/// `Bytes::new` gives an empty run.
pub assume_specification[ Bytes::new ]() -> (r: Bytes)
    ensures
        octets(r) == Seq::<u8>::empty(),
;

/// `Bytes::len` counts the bytes.
pub assume_specification[ Bytes::len ](b: &Bytes) -> (r: usize)
    ensures
        r == octets(*b).len(),
;

/// `Bytes::clone` gives another handle on the same bytes.
pub assume_specification[ <Bytes as Clone>::clone ](b: &Bytes) -> (r: Bytes)
    ensures
        octets(r) == octets(*b),
;

/// `Bytes::from` on a slice copies the slice.
pub assume_specification<'a>[ <Bytes as From<&'a [u8]>>::from ](src: &'a [u8]) -> (r: Bytes)
    ensures
        octets(r) == src@,
;

/// `Bytes::deref` gives the bytes as a slice.
pub assume_specification[ <Bytes as core::ops::Deref>::deref ](b: &Bytes) -> (r: &[u8])
    ensures
        r@ == octets(*b),
;

/// `Bytes::eq` compares the bytes, not the handles.
pub assume_specification[ <Bytes as PartialEq>::eq ](a: &Bytes, b: &Bytes) -> (r: bool)
    ensures
        r == (octets(*a) == octets(*b)),
;

/// `BytesMut::with_capacity` gives an empty buffer. The storage for the capacity is a `Vec`, which
/// cannot be larger than `isize::MAX` bytes. That the memory for it can be had is not stated.
pub assume_specification[ BytesMut::with_capacity ](capacity: usize) -> (r: BytesMut)
    requires
        capacity <= isize::MAX,
    ensures
        contents(r) == Seq::<u8>::empty(),
;

/// `BytesMut::len` counts the bytes.
pub assume_specification[ BytesMut::len ](b: &BytesMut) -> (r: usize)
    ensures
        r == contents(*b).len(),
;

/// `BytesMut::deref` gives the bytes as a slice.
pub assume_specification[ <BytesMut as core::ops::Deref>::deref ](b: &BytesMut) -> (r: &[u8])
    ensures
        r@ == contents(*b),
;

/// `BytesMut::split_to` cuts the first `at` bytes off and returns them; it panics where there are
/// fewer.
pub assume_specification[ BytesMut::split_to ](buf: &mut BytesMut, at: usize) -> (r: BytesMut)
    requires
        at <= contents(*old(buf)).len(),
    ensures
        contents(r) == contents(*old(buf)).take(at as int),
        contents(*final(buf)) == contents(*old(buf)).skip(at as int),
;

/// `BytesMut::truncate` keeps the first `len` bytes, or all of them where there are fewer.
pub assume_specification[ BytesMut::truncate ](buf: &mut BytesMut, len: usize)
    ensures
        contents(*final(buf)) == (if len <= contents(*old(buf)).len() {
            contents(*old(buf)).take(len as int)
        } else {
            contents(*old(buf))
        }),
;

/// `BytesMut::clear` drops every byte.
pub assume_specification[ BytesMut::clear ](buf: &mut BytesMut)
    ensures
        contents(*final(buf)) == Seq::<u8>::empty(),
;

/// `BytesMut::extend_from_slice` appends the slice and grows the buffer where that is needed. No
/// buffer can be larger than `isize::MAX` bytes. A buffer that grows may ask for more memory than
/// the bytes in it need, up to twice what it had asked for before; that this memory can be had is
/// not stated.
pub assume_specification[ BytesMut::extend_from_slice ](buf: &mut BytesMut, extend: &[u8])
    requires
        contents(*old(buf)).len() + extend@.len() <= isize::MAX,
    ensures
        contents(*final(buf)) == contents(*old(buf)) + extend@,
;

/// `BytesMut::freeze` turns the buffer into a `Bytes` of the same bytes.
pub assume_specification[ BytesMut::freeze ](buf: BytesMut) -> (r: Bytes)
    ensures
        octets(r) == contents(buf),
;

} // verus!
