//! The outside SHA-1 hasher, and what this library relies on of it.
use sha1::Digest;
use vstd::prelude::*;

verus! {

/// A running SHA-1 computation. The `sha1` crate's hasher is held out of
/// Verus's sight: what the library knows of it is `sha1_fed`.
#[verifier::external_body]
pub struct Sha1State {
    inner: sha1::Sha1,
}

/// The longest content, in bytes, whose length in bits fits in a `u64`.
pub const MAX_CONTENT_LEN: u64 = 0x1fff_ffff_ffff_ffff;

/// The bytes fed to a hasher since it was created.
pub uninterp spec fn sha1_fed(h: Sha1State) -> Seq<u8>;

/// The SHA-1 digest of a byte string.
pub uninterp spec fn sha1_digest(data: Seq<u8>) -> Seq<u8>;

/// Relies on `Digest::new` for `sha1::Sha1`: a fresh hasher has been fed nothing.
#[verifier::external_body]
pub(crate) fn sha1_new() -> (r: Sha1State)
    ensures
        sha1_fed(r) == Seq::<u8>::empty(),
{
    Sha1State { inner: sha1::Sha1::new() }
}

/// Relies on `Digest::update` for `sha1::Sha1`: the bytes of `data` are appended
/// to what the hasher has been fed. It counts whole blocks in a `u64`, so the
/// content is kept within `MAX_CONTENT_LEN` bytes here too.
#[verifier::external_body]
pub(crate) fn sha1_update(h: &mut Sha1State, data: &[u8])
    requires
        sha1_fed(*old(h)).len() + data@.len() <= MAX_CONTENT_LEN,
    ensures
        sha1_fed(*final(h)) == sha1_fed(*old(h)) + data@,
{
    h.inner.update(data)
}

/// Relies on `Digest::finalize` for `sha1::Sha1`: the 20-byte SHA-1 digest of
/// everything the hasher was fed. Its message length is counted in bits in a
/// `u64`, so what was fed stays within `MAX_CONTENT_LEN` bytes.
#[verifier::external_body]
pub(crate) fn sha1_finalize(h: Sha1State) -> (r: [u8; 20])
    requires
        sha1_fed(h).len() <= MAX_CONTENT_LEN,
    ensures
        r@ == sha1_digest(sha1_fed(h)),
{
    h.inner.finalize().into()
}

} // verus!
