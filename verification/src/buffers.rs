//! The byte containers of the `bytes` crate, as the protocol code sees them.
//!
//! `Bytes` and `BytesMut` are opaque to Verus; each is described by the
//! sequence of bytes it shows (`bytes_content`, `bytes_mut_content`), and every
//! method the protocol code calls is reached through one wrapper below whose
//! contract states what the `bytes` source (version 0.4) does to that sequence.
use bytes::{Bytes, BytesMut};
use vstd::prelude::*;

verus! {

/// Declares `bytes::Bytes` (an immutable, cheaply cloned byte buffer).
#[verifier::external_type_specification]
#[verifier::external_body]
pub struct ExBytes(Bytes);

/// Declares `bytes::BytesMut` (a growable, splittable byte buffer).
#[verifier::external_type_specification]
#[verifier::external_body]
pub struct ExBytesMut(BytesMut);

/// The bytes that a `Bytes` handle shows, first to last.
pub uninterp spec fn bytes_content(b: Bytes) -> Seq<u8>;

/// The bytes that a `BytesMut` handle shows, first to last.
pub uninterp spec fn bytes_mut_content(b: BytesMut) -> Seq<u8>;

/// `Bytes::len`: the number of bytes shown.
#[verifier::external_body]
pub(crate) fn bytes_len(b: &Bytes) -> (n: usize)
    ensures
        n == bytes_content(*b).len(),
{
    b.len()
}

/// `Bytes::is_empty`: whether no byte is shown.
#[verifier::external_body]
pub(crate) fn bytes_is_empty(b: &Bytes) -> (r: bool)
    ensures
        r == (bytes_content(*b).len() == 0),
{
    b.is_empty()
}

/// `Bytes::split_to`: the first `at` bytes are handed back and the handle keeps
/// the rest (the source asserts `at <= len`).
#[verifier::external_body]
pub(crate) fn bytes_split_to(b: &mut Bytes, at: usize) -> (head: Bytes)
    requires
        at <= bytes_content(*old(b)).len(),
    ensures
        bytes_content(head) == bytes_content(*old(b)).take(at as int),
        bytes_content(*final(b)) == bytes_content(*old(b)).skip(at as int),
{
    b.split_to(at)
}

/// `<Bytes as Clone>::clone`: a second handle on the same bytes.
#[verifier::external_body]
pub(crate) fn bytes_clone(b: &Bytes) -> (c: Bytes)
    ensures
        bytes_content(c) == bytes_content(*b),
{
    b.clone()
}

/// `<Bytes as From<Vec<u8>>>::from`: a handle showing the vector's bytes.
#[verifier::external_body]
pub(crate) fn bytes_from_vec(v: Vec<u8>) -> (b: Bytes)
    ensures
        bytes_content(b) == v@,
{
    Bytes::from(v)
}

/// `<Bytes as Deref>::deref`: the shown bytes as a slice.
#[verifier::external_body]
pub(crate) fn bytes_as_slice(b: &Bytes) -> (s: &[u8])
    ensures
        s@ == bytes_content(*b),
{
    &b[..]
}

/// `<Bytes as PartialEq<BytesMut>>::eq`: compares the shown bytes.
#[verifier::external_body]
pub(crate) fn bytes_eq_bytes_mut(a: &Bytes, b: &BytesMut) -> (r: bool)
    ensures
        r == (bytes_content(*a) == bytes_mut_content(*b)),
{
    a == b
}

/// `<BytesMut as Default>::default`: an empty buffer.
#[verifier::external_body]
pub(crate) fn bytes_mut_default() -> (b: BytesMut)
    ensures
        bytes_mut_content(b) == Seq::<u8>::empty(),
{
    BytesMut::default()
}

/// `BytesMut::len`: the number of bytes shown.
#[verifier::external_body]
pub(crate) fn bytes_mut_len(b: &BytesMut) -> (n: usize)
    ensures
        n == bytes_mut_content(*b).len(),
{
    b.len()
}

/// `BytesMut::split_to`: the first `at` bytes are handed back and the buffer
/// keeps the rest (documented to panic when `at > len`).
#[verifier::external_body]
pub(crate) fn bytes_mut_split_to(b: &mut BytesMut, at: usize) -> (head: BytesMut)
    requires
        at <= bytes_mut_content(*old(b)).len(),
    ensures
        bytes_mut_content(head) == bytes_mut_content(*old(b)).take(at as int),
        bytes_mut_content(*final(b)) == bytes_mut_content(*old(b)).skip(at as int),
{
    b.split_to(at)
}

/// `BytesMut::freeze`: the same bytes as an immutable handle.
#[verifier::external_body]
pub(crate) fn bytes_mut_freeze(b: BytesMut) -> (r: Bytes)
    ensures
        bytes_content(r) == bytes_mut_content(b),
{
    b.freeze()
}

/// `BytesMut::extend_from_slice`: appends the slice, growing the buffer first
/// when it lacks room. Growing goes through `Vec::reserve`, which panics past
/// `isize::MAX` bytes; `requires` keeps the total below that.
#[verifier::external_body]
pub(crate) fn bytes_mut_extend_from_slice(b: &mut BytesMut, s: &[u8])
    requires
        bytes_mut_content(*old(b)).len() + s@.len() <= isize::MAX,
    ensures
        bytes_mut_content(*final(b)) == bytes_mut_content(*old(b)) + s@,
{
    b.extend_from_slice(s)
}

/// `<[u8]>::copy_from_slice` into the first `src.len()` places of `dst`, with
/// `src` read through `<BytesMut as Deref>::deref`; the slice method panics
/// when the lengths differ, so `requires` keeps `src` no longer than `dst`.
#[verifier::external_body]
pub(crate) fn copy_bytes_mut_into(dst: &mut [u8], src: &BytesMut)
    requires
        bytes_mut_content(*src).len() <= old(dst)@.len(),
    ensures
        final(dst)@ == bytes_mut_content(*src) + old(dst)@.skip(
            bytes_mut_content(*src).len() as int,
        ),
{
    let n = src.len();
    dst[..n].copy_from_slice(&src[..])
}

} // verus!
