//! The MD4 block digest, as the `md4` crate computes it.
//!
//! Nothing in this file is proved. The hasher is a value of the `md4` crate,
//! and the functions below call that crate; their contracts say what the
//! rest of the library takes for granted about it.

use vstd::prelude::*;

verus! {

/// A running MD4 computation: an `md4::Md4`. Nothing is known of its fields;
/// all that is known of a hasher is what [`md4_absorbed`] says of it.
#[verifier::external_body]
pub struct Md4Hasher {
    inner: md4::Md4,
}

/// The bytes that a hasher has absorbed since it was created or last reset,
/// in the order in which they came.
pub uninterp spec fn md4_absorbed(hasher: Md4Hasher) -> Seq<u8>;

/// The MD4 digest of a byte sequence: the 16 bytes that
/// `FixedOutputReset::finalize_fixed_reset` returns from an `md4::Md4` that
/// has absorbed `data`.
pub uninterp spec fn md4_digest(data: Seq<u8>) -> [u8; 16];

/// Calls `Md4::default`. Claimed: the new hasher has absorbed nothing.
#[verifier::external_body]
pub(crate) fn md4_new() -> (hasher: Md4Hasher)
    ensures
        md4_absorbed(hasher) == Seq::<u8>::empty(),
{
    Md4Hasher { inner: md4::Md4::default() }
}

/// Calls `Update::update` of `md4::Md4`. Claimed: the hasher has then
/// absorbed `data` after what it had absorbed before. Any slice is taken,
/// the empty one too.
#[verifier::external_body]
pub(crate) fn md4_update(hasher: &mut Md4Hasher, data: &[u8])
    ensures
        md4_absorbed(*final(hasher)) == md4_absorbed(*old(hasher)) + data@,
{
    digest::Update::update(&mut hasher.inner, data)
}

/// Calls `FixedOutputReset::finalize_fixed_reset` of `md4::Md4`. Claimed:
/// the result depends on nothing but the bytes that the hasher has absorbed,
/// whose MD4 digest it is, and the hasher is left as one that has absorbed
/// nothing.
#[verifier::external_body]
pub(crate) fn md4_finalize_reset(hasher: &mut Md4Hasher) -> (out: [u8; 16])
    ensures
        out == md4_digest(md4_absorbed(*old(hasher))),
        md4_absorbed(*final(hasher)) == Seq::<u8>::empty(),
{
    digest::FixedOutputReset::finalize_fixed_reset(&mut hasher.inner).into()
}

/// Calls `Reset::reset` of `md4::Md4`. Claimed: the hasher is left as one
/// that has absorbed nothing.
#[verifier::external_body]
pub(crate) fn md4_reset(hasher: &mut Md4Hasher)
    ensures
        md4_absorbed(*final(hasher)) == Seq::<u8>::empty(),
{
    digest::Reset::reset(&mut hasher.inner)
}

/// Calls `Clone::clone` of `md4::Md4`. Claimed: the new hasher has absorbed
/// what `hasher` has.
#[verifier::external_body]
pub(crate) fn md4_clone(hasher: &Md4Hasher) -> (copy: Md4Hasher)
    ensures
        md4_absorbed(copy) == md4_absorbed(*hasher),
{
    Md4Hasher { inner: hasher.inner.clone() }
}

} // verus!
