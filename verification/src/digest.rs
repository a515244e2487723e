//! Content digests, fed chunk by chunk.

use crate::config::HashAlgorithm;
use vstd::prelude::*;

verus! {

/// Declares `blake3::Hasher` as a type whose inside is not read.
#[verifier::external_type_specification]
#[verifier::external_body]
pub struct ExBlake3Hasher(blake3::Hasher);

/// A SHA-256 computation in progress: holds a `sha2::Sha256`, whose inside
/// is not read.
#[verifier::external_body]
pub struct Sha256State {
    inner: sha2::Sha256,
}

/// The bytes that a BLAKE3 hasher has taken in so far, in order.
pub uninterp spec fn blake3_input(hasher: blake3::Hasher) -> Seq<u8>;

/// The bytes that a SHA-256 computation has taken in so far, in order.
pub uninterp spec fn sha256_input(state: Sha256State) -> Seq<u8>;

/// The BLAKE3 hash of a byte string, in its default length of 32 bytes.
pub uninterp spec fn blake3_digest(input: Seq<u8>) -> Seq<u8>;

/// The SHA-256 hash of a byte string.
pub uninterp spec fn sha256_digest(input: Seq<u8>) -> Seq<u8>;

/// Calls `blake3::Hasher::new`: a hasher for the regular hash function that
/// has taken in nothing yet.
#[verifier::external_body]
pub(crate) fn blake3_start() -> (hasher: blake3::Hasher)
    ensures
        blake3_input(hasher) == Seq::<u8>::empty(),
{
    blake3::Hasher::new()
}

/// Calls `blake3::Hasher::update`, which adds the bytes to what the hasher
/// has taken in.
#[verifier::external_body]
pub(crate) fn blake3_absorb(hasher: &mut blake3::Hasher, chunk: &[u8])
    ensures
        blake3_input(*final(hasher)) == blake3_input(*old(hasher)) + chunk@,
{
    hasher.update(chunk);
}

/// Calls `blake3::Hasher::finalize` and copies the 32 bytes of the `Hash`:
/// the hash of all that the hasher has taken in, named [`blake3_digest`].
/// The hashers of this library come from [`blake3_start`] and are never
/// given an input offset, which is what `finalize` asks for.
#[verifier::external_body]
pub(crate) fn blake3_finish(hasher: &blake3::Hasher) -> (digest: Vec<u8>)
    ensures
        digest@ == blake3_digest(blake3_input(*hasher)),
        digest@.len() == 32,
{
    hasher.finalize().as_bytes().to_vec()
}

/// Calls `sha2::Sha256::new` (of the `Digest` trait): a computation that has
/// taken in nothing yet.
#[verifier::external_body]
pub(crate) fn sha256_start() -> (state: Sha256State)
    ensures
        sha256_input(state) == Seq::<u8>::empty(),
{
    Sha256State { inner: <sha2::Sha256 as sha2::Digest>::new() }
}

/// Calls `Digest::update` of `sha2::Sha256`, which adds the bytes to what
/// the computation has taken in.
#[verifier::external_body]
pub(crate) fn sha256_absorb(state: &mut Sha256State, chunk: &[u8])
    ensures
        sha256_input(*final(state)) == sha256_input(*old(state)) + chunk@,
{
    sha2::Digest::update(&mut state.inner, chunk);
}

/// Calls `Digest::finalize` of `sha2::Sha256` and copies the 32 bytes of the
/// result: the hash of all that the computation has taken in, named
/// [`sha256_digest`].
#[verifier::external_body]
pub(crate) fn sha256_finish(state: Sha256State) -> (digest: Vec<u8>)
    ensures
        digest@ == sha256_digest(sha256_input(state)),
        digest@.len() == 32,
{
    sha2::Digest::finalize(state.inner).to_vec()
}

/// The digest of a byte string under an algorithm.
pub open spec fn digest_of(algorithm: HashAlgorithm, input: Seq<u8>) -> Seq<u8> {
    match algorithm {
        HashAlgorithm::Blake3 => blake3_digest(input),
        HashAlgorithm::Sha256 => sha256_digest(input),
    }
}

/// The number of bytes hashed as the engine counts it: the true number, cut
/// at the largest count.
pub open spec fn counted_bytes(length: int) -> u64 {
    if length > u64::MAX {
        u64::MAX
    } else {
        length as u64
    }
}

/// The computation behind a [`StreamingDigest`].
enum DigestState {
    Blake3(blake3::Hasher),
    Sha256(Sha256State),
}

/// A digest that is fed chunk by chunk.
pub struct StreamingDigest {
    state: DigestState,
    total_bytes: u64,
}

impl StreamingDigest {
    /// The algorithm of the digest.
    pub closed spec fn algorithm(self) -> HashAlgorithm {
        match self.state {
            DigestState::Blake3(_) => HashAlgorithm::Blake3,
            DigestState::Sha256(_) => HashAlgorithm::Sha256,
        }
    }

    /// The bytes fed so far, in order.
    pub closed spec fn input(self) -> Seq<u8> {
        match self.state {
            DigestState::Blake3(hasher) => blake3_input(hasher),
            DigestState::Sha256(state) => sha256_input(state),
        }
    }

    /// The count of bytes agrees with the bytes fed.
    pub closed spec fn wf(self) -> bool {
        self.total_bytes == counted_bytes(self.input().len() as int)
    }

    /// A digest of the given algorithm that has been fed nothing yet.
    pub fn new(algorithm: HashAlgorithm) -> (digest: StreamingDigest)
        ensures
            digest.wf(),
            digest.algorithm() == algorithm,
            digest.input() == Seq::<u8>::empty(),
    {
        let state = match algorithm {
            HashAlgorithm::Blake3 => DigestState::Blake3(blake3_start()),
            HashAlgorithm::Sha256 => DigestState::Sha256(sha256_start()),
        };
        StreamingDigest { state, total_bytes: 0 }
    }

    /// Feeds one chunk.
    pub fn update(&mut self, chunk: &[u8])
        requires
            old(self).wf(),
        ensures
            final(self).wf(),
            final(self).algorithm() == old(self).algorithm(),
            final(self).input() == old(self).input() + chunk@,
    {
        let added: u64 = chunk.len() as u64;
        let total = match self.total_bytes.checked_add(added) {
            Some(total) => total,
            None => u64::MAX,
        };
        match &mut self.state {
            DigestState::Blake3(hasher) => {
                blake3_absorb(hasher, chunk);
            },
            DigestState::Sha256(state) => {
                sha256_absorb(state, chunk);
            },
        }
        self.total_bytes = total;
    }

    /// The number of bytes fed so far, cut at the largest count.
    pub fn total_bytes(&self) -> (total: u64)
        requires
            self.wf(),
        ensures
            total == counted_bytes(self.input().len() as int),
    {
        self.total_bytes
    }

    /// Ends the computation: the digest of all that was fed, and the number
    /// of bytes it is the digest of.
    pub fn finish(self) -> (result: (Vec<u8>, u64))
        requires
            self.wf(),
        ensures
            result.0@ == digest_of(self.algorithm(), self.input()),
            result.0@.len() == 32,
            result.1 == counted_bytes(self.input().len() as int),
    {
        let total = self.total_bytes;
        let digest = match self.state {
            DigestState::Blake3(hasher) => blake3_finish(&hasher),
            DigestState::Sha256(state) => sha256_finish(state),
        };
        (digest, total)
    }
}

/// The chunks written one after another.
pub open spec fn concatenated(chunks: Seq<Vec<u8>>) -> Seq<u8>
    decreases chunks.len(),
{
    if chunks.len() == 0 {
        Seq::<u8>::empty()
    } else {
        concatenated(chunks.drop_last()) + chunks.last()@
    }
}

/// The digest of a file read in chunks, and the number of bytes read.
pub fn compute_hash(algorithm: HashAlgorithm, chunks: &Vec<Vec<u8>>) -> (result: (Vec<u8>, u64))
    ensures
        result.0@ == digest_of(algorithm, concatenated(chunks@)),
        result.0@.len() == 32,
        result.1 == counted_bytes(concatenated(chunks@).len() as int),
{
    let mut digest = StreamingDigest::new(algorithm);
    let mut i: usize = 0;
    assert(chunks@.take(0) =~= Seq::<Vec<u8>>::empty());
    while i < chunks.len()
        invariant
            i <= chunks.len(),
            digest.wf(),
            digest.algorithm() == algorithm,
            digest.input() == concatenated(chunks@.take(i as int)),
        decreases chunks.len() - i,
    {
        proof {
            assert(chunks@.take(i + 1).drop_last() =~= chunks@.take(i as int));
            assert(chunks@.take(i + 1).last() == chunks@[i as int]);
        }
        digest.update(chunks[i].as_slice());
        i += 1;
    }
    assert(chunks@.take(chunks@.len() as int) =~= chunks@);
    digest.finish()
}

} // verus!
