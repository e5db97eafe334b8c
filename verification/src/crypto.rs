//! Provenance: a commitment to the belief state and a signature over it.
//!
//! The commitment binds a state; it does not hide it.  Both the commitment and
//! the signed digest are SHA-256 over the big-endian bytes of the state.

use vstd::prelude::*;
use ed25519_dalek::{Signature, Signer, SigningKey, Verifier, VerifyingKey};
use rand::rngs::OsRng;
use sha2::{Digest, Sha256};
use crate::double::Double;
use crate::hexcode::{bytes_of_hex, hex_decode, hex_encode, hex_of, is_hex, lemma_hex_round_trip};

verus! {

/// Bytes in an Ed25519 secret seed and in a public key.
pub const KEY_LENGTH: usize = 32;

/// Bytes in an Ed25519 signature.
pub const SIGNATURE_LENGTH: usize = 64;

/// The SHA-256 digest of a byte string.
pub uninterp spec fn sha256(data: Seq<u8>) -> Seq<u8>;

/// The Ed25519 public key that belongs to a 32-byte secret seed.
pub uninterp spec fn ed25519_public_key(seed: Seq<u8>) -> Seq<u8>;

/// The Ed25519 signature of a message under a 32-byte secret seed.
pub uninterp spec fn ed25519_signature(seed: Seq<u8>, message: Seq<u8>) -> Seq<u8>;

/// Whether Ed25519 verification under a 32-byte public key accepts a 64-byte
/// signature of a message.
pub uninterp spec fn ed25519_accepts(public_key: Seq<u8>, message: Seq<u8>, signature: Seq<u8>) -> bool;

/// The four bytes of a `u32`, most significant first.
pub open spec fn be_bytes_u32(x: u32) -> Seq<u8> {
    seq![
        (x / 0x100_0000 % 256) as u8,
        (x / 0x1_0000 % 256) as u8,
        (x / 0x100 % 256) as u8,
        (x % 256) as u8,
    ]
}

/// The eight bytes of a `u64`, most significant first.
pub open spec fn be_bytes_u64(x: u64) -> Seq<u8> {
    seq![
        (x / 0x100_0000_0000_0000 % 256) as u8,
        (x / 0x1_0000_0000_0000 % 256) as u8,
        (x / 0x100_0000_0000 % 256) as u8,
        (x / 0x1_0000_0000 % 256) as u8,
        (x / 0x100_0000 % 256) as u8,
        (x / 0x1_0000 % 256) as u8,
        (x / 0x100 % 256) as u8,
        (x % 256) as u8,
    ]
}

/// The big-endian bytes of every element, in order.
pub open spec fn state_bytes(state: Seq<Double>) -> Seq<u8>
    decreases state.len(),
{
    if state.len() == 0 {
        Seq::empty()
    } else {
        state_bytes(state.drop_last()) + be_bytes_u64(state.last().bits)
    }
}

/// What the commitment digests: the security level, then the state.
pub open spec fn seal_preimage(security_level: u32, state: Seq<Double>) -> Seq<u8> {
    be_bytes_u32(security_level) + state_bytes(state)
}

/// `Sha256::digest` of the `sha2` crate: the 32-byte SHA-256 digest of `data`.
#[verifier::external_body]
fn sha256_digest(data: &Vec<u8>) -> (digest: Vec<u8>)
    ensures
        digest@ == sha256(data@),
        digest@.len() == 32,
{
    Sha256::digest(data.as_slice()).to_vec()
}

/// `SigningKey::generate` of `ed25519-dalek` on the operating system's random
/// source: 32 bytes of which nothing is known in advance.  It panics only if
/// the operating system cannot supply randomness.
#[verifier::external_body]
fn generate_seed() -> (seed: Vec<u8>)
    ensures
        seed@.len() == KEY_LENGTH,
{
    SigningKey::generate(&mut OsRng).to_bytes().to_vec()
}

/// `SigningKey::verifying_key` of `ed25519-dalek`: the 32-byte public key of
/// the key pair that `SigningKey::from_bytes` builds from the seed.
#[verifier::external_body]
fn derive_public_key(seed: &Vec<u8>) -> (public_key: Vec<u8>)
    requires
        seed@.len() == KEY_LENGTH,
    ensures
        public_key@ == ed25519_public_key(seed@),
        public_key@.len() == KEY_LENGTH,
{
    let bytes: [u8; 32] = seed.as_slice().try_into().unwrap();
    SigningKey::from_bytes(&bytes).verifying_key().to_bytes().to_vec()
}

/// `Signer::sign` of `ed25519-dalek` with the key pair of the seed: the
/// 64-byte signature, which depends on the seed and the message alone and
/// which verification under the seed's public key accepts.
#[verifier::external_body]
fn sign_message(seed: &Vec<u8>, message: &Vec<u8>) -> (signature: Vec<u8>)
    requires
        seed@.len() == KEY_LENGTH,
    ensures
        signature@ == ed25519_signature(seed@, message@),
        signature@.len() == SIGNATURE_LENGTH,
        ed25519_accepts(ed25519_public_key(seed@), message@, signature@),
{
    let bytes: [u8; 32] = seed.as_slice().try_into().unwrap();
    SigningKey::from_bytes(&bytes).sign(message.as_slice()).to_bytes().to_vec()
}

/// `Verifier::verify` of `ed25519-dalek` under the public key that
/// `VerifyingKey::from_bytes` reads: true when the key is well formed and the
/// signature is valid for the message, false otherwise.
#[verifier::external_body]
fn verify_signature(public_key: &Vec<u8>, message: &Vec<u8>, signature: &Vec<u8>) -> (ok: bool)
    requires
        public_key@.len() == KEY_LENGTH,
        signature@.len() == SIGNATURE_LENGTH,
    ensures
        ok == ed25519_accepts(public_key@, message@, signature@),
{
    let key: [u8; 32] = public_key.as_slice().try_into().unwrap();
    let sig: [u8; 64] = signature.as_slice().try_into().unwrap();
    match VerifyingKey::from_bytes(&key) {
        Ok(verifier) => verifier.verify(message.as_slice(), &Signature::from_bytes(&sig)).is_ok(),
        Err(_) => false,
    }
}

fn push_be_bytes_u32(out: &mut Vec<u8>, x: u32)
    ensures
        final(out)@ == old(out)@ + be_bytes_u32(x),
{
    out.push((x / 0x100_0000 % 256) as u8);
    out.push((x / 0x1_0000 % 256) as u8);
    out.push((x / 0x100 % 256) as u8);
    out.push((x % 256) as u8);
    assert(out@ =~= old(out)@ + be_bytes_u32(x));
}

fn push_be_bytes_u64(out: &mut Vec<u8>, x: u64)
    ensures
        final(out)@ == old(out)@ + be_bytes_u64(x),
{
    out.push((x / 0x100_0000_0000_0000 % 256) as u8);
    out.push((x / 0x1_0000_0000_0000 % 256) as u8);
    out.push((x / 0x100_0000_0000 % 256) as u8);
    out.push((x / 0x1_0000_0000 % 256) as u8);
    out.push((x / 0x100_0000 % 256) as u8);
    out.push((x / 0x1_0000 % 256) as u8);
    out.push((x / 0x100 % 256) as u8);
    out.push((x % 256) as u8);
    assert(out@ =~= old(out)@ + be_bytes_u64(x));
}

fn push_state_bytes(out: &mut Vec<u8>, state: &Vec<Double>)
    ensures
        final(out)@ == old(out)@ + state_bytes(state@),
{
    let mut i: usize = 0;
    assert(state_bytes(state@.take(0)) =~= Seq::<u8>::empty());
    assert(out@ =~= old(out)@ + state_bytes(state@.take(0)));
    while i < state.len()
        invariant
            i <= state.len(),
            out@ == old(out)@ + state_bytes(state@.take(i as int)),
        decreases state.len() - i,
    {
        proof {
            let next = state@.take(i + 1);
            assert(next.drop_last() =~= state@.take(i as int));
            assert(next.last() == state@[i as int]);
        }
        push_be_bytes_u64(out, state[i].to_bits());
        assert(out@ =~= old(out)@ + state_bytes(state@.take(i + 1)));
        i = i + 1;
    }
    assert(state@.take(i as int) =~= state@);
}

/// Commits to belief states.
pub struct CkksProvider {
    security_level: u32,
}

impl CkksProvider {
    /// The scalar that every commitment is bound to.
    pub closed spec fn level(&self) -> u32 {
        self.security_level
    }

    /// The commitment to a state: the digest of the security level and the
    /// state's bytes.
    pub open spec fn commitment(&self, state: Seq<Double>) -> Seq<u8> {
        sha256(seal_preimage(self.level(), state))
    }

    pub fn init() -> (provider: Self)
        ensures
            provider.level() == 128,
    {
        Self { security_level: 128 }
    }

    pub fn security_level(&self) -> (level: u32)
        ensures
            level == self.level(),
    {
        self.security_level
    }

    /// Seals a state: the 32-byte commitment to it.  Equal states give equal
    /// commitments.  This binds the state and keeps nothing secret.
    pub fn encrypt_state(&self, state: &Vec<Double>) -> (sealed: Vec<u8>)
        ensures
            sealed@ == self.commitment(state@),
            sealed@.len() == 32,
    {
        let mut preimage: Vec<u8> = Vec::new();
        push_be_bytes_u32(&mut preimage, self.security_level);
        push_state_bytes(&mut preimage, state);
        assert(preimage@ =~= seal_preimage(self.level(), state@));
        sha256_digest(&preimage)
    }
}

/// Signs belief states with a key pair of its own.  The secret seed never
/// leaves the signer.
pub struct ProvenanceSigner {
    seed: Vec<u8>,
    public_key: Vec<u8>,
}

impl ProvenanceSigner {
    /// The seed is whole and the public key is the seed's.
    #[verifier::type_invariant]
    spec fn whole(&self) -> bool {
        &&& self.seed@.len() == KEY_LENGTH
        &&& self.public_key@ == ed25519_public_key(self.seed@)
        &&& self.public_key@.len() == KEY_LENGTH
    }

    /// The secret seed.  Contracts speak of it; no function hands it out.
    pub closed spec fn secret(&self) -> Seq<u8> {
        self.seed@
    }

    /// The public key of the seed.
    pub closed spec fn public(&self) -> Seq<u8> {
        self.public_key@
    }

    /// The key pair is whole: a secret seed of 32 bytes, and the 32-byte
    /// public key that belongs to it.
    pub open spec fn paired(&self) -> bool {
        &&& self.secret().len() == KEY_LENGTH
        &&& self.public().len() == KEY_LENGTH
        &&& self.public() == ed25519_public_key(self.secret())
    }

    /// The receipt hash of a state: the hexadecimal text of the signature of
    /// the state's digest.
    pub open spec fn receipt_hash(&self, state: Seq<Double>) -> Seq<char> {
        hex_of(ed25519_signature(self.secret(), sha256(state_bytes(state))))
    }

    /// Whether `hash` is the hexadecimal text of a 64-byte signature that
    /// verification under this signer's public key accepts for the state's
    /// digest.
    pub open spec fn accepts(&self, state: Seq<Double>, hash: Seq<char>) -> bool {
        &&& is_hex(hash)
        &&& bytes_of_hex(hash).len() == SIGNATURE_LENGTH
        &&& ed25519_accepts(self.public(), sha256(state_bytes(state)), bytes_of_hex(hash))
    }

    /// A signer with a fresh key pair: a seed of 32 bytes from the operating
    /// system's random source, and the public key derived from it.  Which
    /// seed it is cannot be known in advance.
    pub fn new() -> (signer: Self)
        ensures
            signer.paired(),
    {
        let seed: Vec<u8> = generate_seed();
        let public_key: Vec<u8> = derive_public_key(&seed);
        Self { seed, public_key }
    }

    /// A signer with the key pair of the given seed; `None` unless the seed
    /// has 32 bytes.
    pub fn from_seed(seed: Vec<u8>) -> (signer: Option<Self>)
        ensures
            signer.is_some() == (seed@.len() == KEY_LENGTH),
            signer.is_some() ==> signer.unwrap().secret() == seed@ && signer.unwrap().paired(),
    {
        if seed.len() != KEY_LENGTH {
            return None;
        }
        let public_key: Vec<u8> = derive_public_key(&seed);
        Some(Self { seed, public_key })
    }

    /// The public half of the key pair.
    pub fn public_key(&self) -> (key: Vec<u8>)
        ensures
            key@ == self.public(),
            key@ == ed25519_public_key(self.secret()),
    {
        proof {
            use_type_invariant(self);
        }
        self.public_key.clone()
    }

    /// Signs the digest of a state.  The hash is 128 hexadecimal digits, the
    /// same for the same state and signer, and `verify_provenance` accepts it
    /// for that state.
    pub fn sign_cycle(&self, state: &Vec<Double>) -> (hash: String)
        ensures
            hash@ == self.receipt_hash(state@),
            hash@.len() == 2 * SIGNATURE_LENGTH,
            self.accepts(state@, hash@),
    {
        proof {
            use_type_invariant(self);
        }
        let mut bytes: Vec<u8> = Vec::new();
        push_state_bytes(&mut bytes, state);
        assert(bytes@ =~= state_bytes(state@));
        let digest: Vec<u8> = sha256_digest(&bytes);
        let signature: Vec<u8> = sign_message(&self.seed, &digest);
        proof {
            lemma_hex_round_trip(signature@);
        }
        hex_encode(&signature)
    }

    /// Whether `hash` is a signature of this signer's key pair over the
    /// digest of `state`.  Text that is no signature at all is refused like
    /// any other mismatch.
    pub fn verify_provenance(&self, state: &Vec<Double>, hash: &str) -> (ok: bool)
        ensures
            ok == self.accepts(state@, hash@),
    {
        proof {
            use_type_invariant(self);
        }
        let signature: Vec<u8> = match hex_decode(hash) {
            Some(bytes) => bytes,
            None => {
                return false;
            },
        };
        if signature.len() != SIGNATURE_LENGTH {
            return false;
        }
        let mut bytes: Vec<u8> = Vec::new();
        push_state_bytes(&mut bytes, state);
        assert(bytes@ =~= state_bytes(state@));
        let digest: Vec<u8> = sha256_digest(&bytes);
        verify_signature(&self.public_key, &digest, &signature)
    }
}

/// The number that eight bytes spell, most significant first.
pub open spec fn u64_of_be_bytes(b: Seq<u8>) -> int {
    b[0] * 0x100_0000_0000_0000 + b[1] * 0x1_0000_0000_0000 + b[2] * 0x100_0000_0000 + b[3]
        * 0x1_0000_0000 + b[4] * 0x100_0000 + b[5] * 0x1_0000 + b[6] * 0x100 + b[7]
}

/// The eight bytes of a number spell that number.
pub proof fn lemma_be_bytes_u64_inverse(x: u64)
    ensures
        be_bytes_u64(x).len() == 8,
        u64_of_be_bytes(be_bytes_u64(x)) == x,
{
    let b = be_bytes_u64(x);
    assert(b[0] == x / 0x100_0000_0000_0000 % 256);
    assert(b[1] == x / 0x1_0000_0000_0000 % 256);
    assert(b[2] == x / 0x100_0000_0000 % 256);
    assert(b[3] == x / 0x1_0000_0000 % 256);
    assert(b[4] == x / 0x100_0000 % 256);
    assert(b[5] == x / 0x1_0000 % 256);
    assert(b[6] == x / 0x100 % 256);
    assert(b[7] == x % 256);
    assert(x == (x / 0x100_0000_0000_0000 % 256) * 0x100_0000_0000_0000 + (x / 0x1_0000_0000_0000
        % 256) * 0x1_0000_0000_0000 + (x / 0x100_0000_0000 % 256) * 0x100_0000_0000 + (x
        / 0x1_0000_0000 % 256) * 0x1_0000_0000 + (x / 0x100_0000 % 256) * 0x100_0000 + (x / 0x1_0000
        % 256) * 0x1_0000 + (x / 0x100 % 256) * 0x100 + x % 256) by (bit_vector);
}

pub proof fn lemma_state_bytes_len(state: Seq<Double>)
    ensures
        state_bytes(state).len() == 8 * state.len(),
    decreases state.len(),
{
    if state.len() > 0 {
        lemma_state_bytes_len(state.drop_last());
    }
}

/// States with the same bytes are the same state, pattern for pattern.
pub proof fn lemma_state_bytes_injective(a: Seq<Double>, b: Seq<Double>)
    requires
        state_bytes(a) == state_bytes(b),
    ensures
        a == b,
    decreases a.len(),
{
    lemma_state_bytes_len(a);
    lemma_state_bytes_len(b);
    if a.len() == 0 {
        assert(a =~= b);
    } else {
        let head_a = state_bytes(a.drop_last());
        let head_b = state_bytes(b.drop_last());
        let tail_a = be_bytes_u64(a.last().bits);
        let tail_b = be_bytes_u64(b.last().bits);
        lemma_state_bytes_len(a.drop_last());
        lemma_state_bytes_len(b.drop_last());
        let whole = state_bytes(a);
        assert(whole == head_a + tail_a);
        assert(whole == head_b + tail_b);
        let cut = head_a.len() as int;
        assert(head_a =~= whole.subrange(0, cut));
        assert(head_b =~= whole.subrange(0, cut));
        assert(tail_a =~= whole.subrange(cut, whole.len() as int));
        assert(tail_b =~= whole.subrange(cut, whole.len() as int));
        lemma_be_bytes_u64_inverse(a.last().bits);
        lemma_be_bytes_u64_inverse(b.last().bits);
        assert(a.last().bits == b.last().bits);
        lemma_state_bytes_injective(a.drop_last(), b.drop_last());
        assert(a =~= a.drop_last().push(a.last()));
        assert(b =~= b.drop_last().push(b.last()));
    }
}

/// Different states are digested from different byte strings: their
/// commitments coincide only where SHA-256 maps two byte strings to one
/// digest.
pub proof fn lemma_preimages_differ(provider: CkksProvider, a: Seq<Double>, b: Seq<Double>)
    requires
        a != b,
    ensures
        seal_preimage(provider.level(), a) != seal_preimage(provider.level(), b),
{
    let pa = seal_preimage(provider.level(), a);
    let pb = seal_preimage(provider.level(), b);
    if pa == pb {
        assert(state_bytes(a) =~= pa.subrange(4, pa.len() as int));
        assert(state_bytes(b) =~= pb.subrange(4, pb.len() as int));
        lemma_state_bytes_injective(a, b);
    }
}

} // verus!
