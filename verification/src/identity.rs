//! Ed25519 identities for challenge-response authentication.
//!
//! Every node has a permanent Ed25519 key pair: the public key identifies
//! the node, the private key never leaves the device.
//!
//! ```text
//! Server                                Client
//!   │── AuthChallenge (nonce 32B) ────►│
//!   │◄── AuthResponse (pubkey+sig) ────│  sig = Ed25519_sign(privkey, nonce)
//!   │  [checks Ed25519_verify(pubkey, nonce, sig)]
//! ```

use vstd::prelude::*;

use crate::error::Error;
use crate::wire::{put_bytes, splice};

verus! {

// ── Trusted boundary with ed25519-dalek ─────────────────────────────────────

/// Whether Ed25519 verification accepts `signature` over `message` for the
/// 32-byte public key `public_key` (false when the key bytes are not a
/// valid point).
pub uninterp spec fn ed25519_accepts(public_key: Seq<u8>, message: Seq<u8>, signature: Seq<u8>) -> bool;

/// The 32-byte Ed25519 public key of a 32-byte secret key.
pub uninterp spec fn ed25519_public_of(secret: Seq<u8>) -> Seq<u8>;

/// The 64-byte Ed25519 signature of `message` under a 32-byte secret key
/// (Ed25519 signing is deterministic).
pub uninterp spec fn ed25519_signature_of(secret: Seq<u8>, message: Seq<u8>) -> Seq<u8>;

/// Calls `ed25519_dalek::VerifyingKey::from_bytes`, `Signature::from_bytes`
/// and `Verifier::verify`. Claims only that the answer is a function of the
/// three byte strings; a key that is not a valid point gives `false`.
#[verifier::external_body]
fn ed25519_verify(public_key: &[u8; 32], message: &[u8], signature: &[u8; 64]) -> (ok: bool)
    ensures
        ok == ed25519_accepts(public_key@, message@, signature@),
{
    match ed25519_dalek::VerifyingKey::from_bytes(public_key) {
        Ok(key) => {
            let sig = ed25519_dalek::Signature::from_bytes(signature);
            ed25519_dalek::Verifier::verify(&key, message, &sig).is_ok()
        },
        Err(_) => false,
    }
}

/// Calls `ed25519_dalek::SigningKey::from_bytes` and `verifying_key`.
/// Claims that the public key is a function of the secret key.
#[verifier::external_body]
fn ed25519_public_key(secret: &[u8; 32]) -> (pk: [u8; 32])
    ensures
        pk@ == ed25519_public_of(secret@),
{
    ed25519_dalek::SigningKey::from_bytes(secret).verifying_key().to_bytes()
}

/// Calls `ed25519_dalek::SigningKey::from_bytes` and `Signer::sign`.
/// Claims that the signature is a function of the secret key and the
/// message, and (as Ed25519 and the crate document) that verification with
/// the matching public key accepts it.
#[verifier::external_body]
fn ed25519_sign(secret: &[u8; 32], message: &[u8]) -> (sig: [u8; 64])
    ensures
        sig@ == ed25519_signature_of(secret@, message@),
        ed25519_accepts(ed25519_public_of(secret@), message@, sig@),
{
    let key = ed25519_dalek::SigningKey::from_bytes(secret);
    ed25519_dalek::Signer::sign(&key, message).to_bytes()
}

/// Calls `rand_core::RngCore::try_fill_bytes` on `rand_core::OsRng` for 32
/// bytes (the secret of a fresh Ed25519 key, as `SigningKey::generate`
/// draws it). Nothing is claimed of the bytes, which come from the
/// operating system's random source; `None` when that source fails.
#[verifier::external_body]
fn os_random_secret() -> (secret: Option<[u8; 32]>) {
    let mut bytes = [0u8; 32];
    match rand_core::RngCore::try_fill_bytes(&mut rand_core::OsRng, &mut bytes) {
        Ok(()) => Some(bytes),
        Err(_) => None,
    }
}

// ── Payloads ────────────────────────────────────────────────────────────────

/// Copies the first `N` bytes of `buf` into an array.
fn read_array<const N: usize>(buf: &[u8]) -> (a: [u8; N])
    requires
        buf@.len() >= N,
    ensures
        a@ == buf@.subrange(0, N as int),
{
    let mut a = [0u8; N];
    let mut i: usize = 0;
    while i < N
        invariant
            i <= N,
            buf@.len() >= N,
            a@.len() == N,
            forall|k: int| 0 <= k < i ==> #[trigger] a@[k] == buf@[k],
        decreases N - i,
    {
        a.set(i, buf[i]);
        i += 1;
    }
    assert(a@ =~= buf@.subrange(0, N as int));
    a
}

/// Payload of an authentication challenge sent by the server (32 bytes).
#[derive(Debug, Clone, Copy, PartialEq, Eq)]
pub struct AuthChallengePayload {
    pub nonce: [u8; 32],
}

impl AuthChallengePayload {
    pub const SIZE: usize = 32;

    /// Writes the nonce at the start of `buf`.
    pub fn encode(&self, buf: &mut [u8]) -> (r: Result<(), Error>)
        ensures
            match r {
                Ok(()) => old(buf)@.len() >= 32 && final(buf)@ == splice(old(buf)@, 0, self.nonce@),
                Err(e) => old(buf)@.len() < 32 && e == Error::BufferTooSmall && final(buf)@ == old(buf)@,
            },
    {
        if buf.len() < Self::SIZE {
            return Err(Error::BufferTooSmall);
        }
        put_bytes(buf, 0, vstd::array::array_as_slice(&self.nonce));
        Ok(())
    }

    /// Reads the nonce from the first 32 bytes of `buf`.
    pub fn decode(buf: &[u8]) -> (r: Result<AuthChallengePayload, Error>)
        ensures
            match r {
                Ok(p) => buf@.len() >= 32 && p.nonce@ == buf@.subrange(0, 32),
                Err(e) => buf@.len() < 32 && e == Error::MalformedPayload,
            },
    {
        if buf.len() < Self::SIZE {
            return Err(Error::MalformedPayload);
        }
        Ok(AuthChallengePayload { nonce: read_array::<32>(buf) })
    }
}

/// Payload of an authentication response sent by the client (96 bytes).
///
/// ```text
/// public_key [32] — the client's Ed25519 public key
/// signature  [64] — Ed25519_sign(private_key, nonce of the challenge)
/// ```
#[derive(Debug, Clone, PartialEq, Eq)]
pub struct AuthResponsePayload {
    pub public_key: [u8; 32],
    pub signature: [u8; 64],
}

impl AuthResponsePayload {
    pub const SIZE: usize = 96;

    /// Writes public key then signature at the start of `buf`.
    pub fn encode(&self, buf: &mut [u8]) -> (r: Result<(), Error>)
        ensures
            match r {
                Ok(()) => old(buf)@.len() >= 96 && final(buf)@ == splice(
                    old(buf)@,
                    0,
                    self.public_key@ + self.signature@,
                ),
                Err(e) => old(buf)@.len() < 96 && e == Error::BufferTooSmall && final(buf)@ == old(buf)@,
            },
    {
        if buf.len() < Self::SIZE {
            return Err(Error::BufferTooSmall);
        }
        let ghost b0 = buf@;
        put_bytes(buf, 0, vstd::array::array_as_slice(&self.public_key));
        put_bytes(buf, 32, vstd::array::array_as_slice(&self.signature));
        assert(buf@ =~= splice(b0, 0, self.public_key@ + self.signature@));
        Ok(())
    }

    /// Reads public key and signature from the first 96 bytes of `buf`.
    pub fn decode(buf: &[u8]) -> (r: Result<AuthResponsePayload, Error>)
        ensures
            match r {
                Ok(p) => buf@.len() >= 96 && p.public_key@ == buf@.subrange(0, 32) && p.signature@
                    == buf@.subrange(32, 96),
                Err(e) => buf@.len() < 96 && e == Error::MalformedPayload,
            },
    {
        if buf.len() < Self::SIZE {
            return Err(Error::MalformedPayload);
        }
        let public_key = read_array::<32>(buf);
        let rest = vstd::slice::slice_subrange(buf, 32, 96);
        let signature = read_array::<64>(rest);
        assert(signature@ =~= buf@.subrange(32, 96));
        Ok(AuthResponsePayload { public_key, signature })
    }
}

// ── Identities ──────────────────────────────────────────────────────────────

/// An Ed25519 public key: the permanent identifier of a node.
#[derive(Debug, Clone, PartialEq, Eq)]
pub struct IdentityPublic {
    pub bytes: [u8; 32],
}

impl IdentityPublic {
    /// Whether `signature_bytes` is a valid Ed25519 signature of `message`
    /// under this key.
    pub fn verify(&self, message: &[u8], signature_bytes: &[u8; 64]) -> (ok: bool)
        ensures
            ok == ed25519_accepts(self.bytes@, message@, signature_bytes@),
    {
        ed25519_verify(&self.bytes, message, signature_bytes)
    }
}

/// A complete identity: the secret key, from which the public key derives.
/// The secret never leaves the device; use it only to sign challenges.
pub struct Identity {
    secret: [u8; 32],
}

impl View for Identity {
    type V = Seq<u8>;

    /// The 32 secret-key bytes.
    closed spec fn view(&self) -> Seq<u8> {
        self.secret@
    }
}

impl Identity {
    /// A fresh random identity, or `None` when the operating system's
    /// random source fails.
    pub fn generate() -> (id: Option<Identity>)
        ensures
            id matches Some(i) ==> i@.len() == 32,
    {
        match os_random_secret() {
            Some(secret) => Some(Identity { secret }),
            None => None,
        }
    }

    /// The identity with the given 32 secret-key bytes.
    pub fn from_bytes(secret_bytes: &[u8; 32]) -> (id: Identity)
        ensures
            id@ == secret_bytes@,
    {
        Identity { secret: *secret_bytes }
    }

    /// The 32 secret-key bytes. Store them safely; never transmit them.
    pub fn to_bytes(&self) -> (b: [u8; 32])
        ensures
            b@ == self@,
    {
        self.secret
    }

    /// The public key of this identity.
    pub fn public(&self) -> (p: IdentityPublic)
        ensures
            p.bytes@ == ed25519_public_of(self@),
    {
        IdentityPublic { bytes: ed25519_public_key(&self.secret) }
    }

    /// Signs `message` (usually the nonce of a challenge); the public key of
    /// this identity accepts the signature.
    pub fn sign(&self, message: &[u8]) -> (sig: [u8; 64])
        ensures
            sig@ == ed25519_signature_of(self@, message@),
            ed25519_accepts(ed25519_public_of(self@), message@, sig@),
    {
        ed25519_sign(&self.secret, message)
    }

    /// The response to a challenge: this identity's public key and its
    /// signature of the nonce, which that key accepts.
    pub fn respond_to_challenge(&self, nonce: &[u8; 32]) -> (r: AuthResponsePayload)
        ensures
            r.public_key@ == ed25519_public_of(self@),
            r.signature@ == ed25519_signature_of(self@, nonce@),
            ed25519_accepts(r.public_key@, nonce@, r.signature@),
    {
        let public_key = self.public().bytes;
        let signature = self.sign(vstd::array::array_as_slice(nonce));
        AuthResponsePayload { public_key, signature }
    }
}

} // verus!
