//! SHA-256 digests, one-shot and incremental.

use sha2::Digest;
use vstd::prelude::*;

use crate::encoding::{encode, hex_string, lemma_hex_string_len};

verus! {

/// The SHA-256 digest of a byte sequence.
pub uninterp spec fn sha256(data: Seq<u8>) -> Seq<u8>;

/// The bytes that a running hash has absorbed since it was created, in order.
pub uninterp spec fn absorbed(h: RunningHash) -> Seq<u8>;

/// An incremental SHA-256 computation over a stream of byte windows.
///
/// The state is that of `sha2::Sha256`, which Verus cannot look into: its
/// bounds are traits of the `digest` crate. What the contracts speak of is
/// `absorbed`, the concatenation of everything fed in so far.
#[verifier::external_body]
#[derive(Debug)]
pub struct RunningHash {
    inner: sha2::Sha256,
}

impl View for RunningHash {
    type V = Seq<u8>;

    open spec fn view(&self) -> Seq<u8> {
        absorbed(*self)
    }
}

impl RunningHash {
    /// Calls `sha2::Sha256::new` (`Digest::new`): a hasher that has absorbed nothing.
    #[verifier::external_body]
    pub(crate) fn new() -> (h: RunningHash)
        ensures
            absorbed(h) == Seq::<u8>::empty(),
    {
        RunningHash { inner: sha2::Sha256::new() }
    }

    /// Calls `Digest::update` on the `sha2::Sha256`: the hasher absorbs `data`
    /// after what it already holds.
    #[verifier::external_body]
    pub(crate) fn update(&mut self, data: &[u8])
        ensures
            absorbed(*final(self)) == absorbed(*old(self)) + data@,
    {
        self.inner.update(data)
    }

    /// Calls `Digest::finalize` on a copy of the `sha2::Sha256`: the 32-byte
    /// SHA-256 digest of everything absorbed. The hasher itself is left as it was.
    #[verifier::external_body]
    pub(crate) fn digest(&self) -> (out: Vec<u8>)
        ensures
            out@ == sha256(absorbed(*self)),
            out@.len() == 32,
    {
        self.inner.clone().finalize().to_vec()
    }

    /// The digest of everything absorbed, as 64 lower-case hex digits.
    pub fn hex_digest(&self) -> (s: String)
        ensures
            s@ == hex_string(sha256(self@)),
            s@.len() == 64,
    {
        let raw = self.digest();
        proof {
            lemma_hex_string_len(raw@);
        }
        encode(raw.as_slice())
    }
}

/// The SHA-256 digest of `data` as 64 lower-case hex digits.
pub fn sha256_hex(data: &[u8]) -> (s: String)
    ensures
        s@ == hex_string(sha256(data@)),
        s@.len() == 64,
{
    let mut h = RunningHash::new();
    h.update(data);
    assert(Seq::<u8>::empty() + data@ =~= data@);
    h.hex_digest()
}

} // verus!
