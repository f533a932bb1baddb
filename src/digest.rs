use vstd::prelude::*;

verus! {

/// A BLAKE3 content digest: thirty-two bytes.
pub type Digest = [u8; 32];

/// The BLAKE3 digest of a byte sequence.
pub uninterp spec fn blake3_of(data: Seq<u8>) -> Seq<u8>;

/// Relies on blake3::hash: the BLAKE3 digest of the input, a function of the bytes alone.
#[verifier::external_body]
pub(crate) fn content_digest(data: &[u8]) -> (r: Digest)
    ensures
        r@ == blake3_of(data@),
{
    *blake3::hash(data).as_bytes()
}

/// The digest of a file's content, as a directory snapshot records it.
pub fn digest_of(content: &[u8]) -> (r: Digest)
    ensures
        r@ == blake3_of(content@),
{
    content_digest(content)
}

/// Whether two digests hold the same bytes.
pub fn same_digest(a: &Digest, b: &Digest) -> (r: bool)
    ensures
        r == (a@ == b@),
{
    let mut i: usize = 0;
    while i < 32
        invariant
            0 <= i <= 32,
            a@.len() == 32,
            b@.len() == 32,
            forall|k: int| 0 <= k < i ==> a@[k] == b@[k],
        decreases 32 - i,
    {
        if a[i] != b[i] {
            return false;
        }
        i = i + 1;
    }
    assert(a@ =~= b@);
    true
}

} // verus!
