//! Ed25519 signing of sync receipts and verification of signatures.
use vstd::prelude::*;
use crate::error::SyncEngineError;
use crate::text::{cat2, owned};

verus! {

/// The Ed25519 public key of a 32-byte secret key.
pub uninterp spec fn ed25519_public(secret: Seq<u8>) -> Seq<u8>;

/// The Ed25519 signature of `data` by a 32-byte secret key.
pub uninterp spec fn ed25519_signature(secret: Seq<u8>, data: Seq<u8>) -> Seq<u8>;

/// Whether 32 bytes encode a point of the curve, usable as a public key.
pub uninterp spec fn ed25519_valid_point(public: Seq<u8>) -> bool;

/// Whether a 64-byte signature of `data` verifies under a public key.
pub uninterp spec fn ed25519_accepts(public: Seq<u8>, data: Seq<u8>, signature: Seq<u8>) -> bool;

/// The public key of `secret`.
///
/// Calls `ed25519_dalek::SigningKey::from_bytes` and `verifying_key`, and returns the
/// key's 32 bytes; the key depends on the secret alone and is a point of the curve.
#[verifier::external_body]
fn public_key_of(secret: &[u8]) -> (r: Vec<u8>)
    requires
        secret@.len() == 32,
    ensures
        r@ == ed25519_public(secret@),
        r@.len() == 32,
        ed25519_valid_point(r@),
{
    let bytes: [u8; 32] = secret.try_into().unwrap_or([0u8; 32]);
    ed25519_dalek::SigningKey::from_bytes(&bytes).verifying_key().to_bytes().to_vec()
}

/// The signature of `data` by `secret`.
///
/// Calls `ed25519_dalek::SigningKey::from_bytes` and `Signer::sign`; Ed25519 signatures
/// are deterministic, a function of the key and the data, and 64 bytes long.
#[verifier::external_body]
fn sign_bytes(secret: &[u8], data: &[u8]) -> (r: Vec<u8>)
    requires
        secret@.len() == 32,
    ensures
        r@ == ed25519_signature(secret@, data@),
        r@.len() == 64,
{
    let bytes: [u8; 32] = secret.try_into().unwrap_or([0u8; 32]);
    ed25519_dalek::Signer::sign(&ed25519_dalek::SigningKey::from_bytes(&bytes), data).to_bytes().to_vec()
}

/// A fresh secret key drawn from the operating system's random source.
///
/// Calls `ed25519_dalek::SigningKey::generate` with `rand::rngs::OsRng` and returns the
/// key's 32 bytes. Nothing is stated of their value.
#[verifier::external_body]
fn fresh_secret() -> (r: Vec<u8>)
    ensures
        r@.len() == 32,
{
    ed25519_dalek::SigningKey::generate(&mut rand::rngs::OsRng).to_bytes().to_vec()
}

/// Whether `public` encodes a point of the curve, with the error's message otherwise.
///
/// Calls `ed25519_dalek::VerifyingKey::from_bytes`.
#[verifier::external_body]
fn check_point(public: &[u8]) -> (r: Result<(), String>)
    requires
        public@.len() == 32,
    ensures
        (r is Ok) == ed25519_valid_point(public@),
{
    let bytes: [u8; 32] = public.try_into().unwrap_or([0u8; 32]);
    match ed25519_dalek::VerifyingKey::from_bytes(&bytes) {
        Ok(_) => Ok(()),
        Err(e) => Err(e.to_string()),
    }
}

/// Whether `signature` has the length of a signature, with the error's message otherwise.
///
/// Calls `ed25519_dalek::Signature::from_slice`, which only checks the length.
#[verifier::external_body]
fn check_signature_bytes(signature: &[u8]) -> (r: Result<(), String>)
    ensures
        (r is Ok) == (signature@.len() == 64),
{
    match ed25519_dalek::Signature::from_slice(signature) {
        Ok(_) => Ok(()),
        Err(e) => Err(e.to_string()),
    }
}

/// Whether `signature` of `data` verifies under `public`, with the error's message
/// otherwise.
///
/// Calls `ed25519_dalek::Verifier::verify` on the key and signature decoded from the
/// bytes. A signature made by a secret key verifies under that key's public key.
#[verifier::external_body]
fn verify_bytes(public: &[u8], data: &[u8], signature: &[u8]) -> (r: Result<(), String>)
    requires
        public@.len() == 32,
        ed25519_valid_point(public@),
        signature@.len() == 64,
    ensures
        (r is Ok) == ed25519_accepts(public@, data@, signature@),
        forall|s: Seq<u8>| s.len() == 32 && public@ == #[trigger] ed25519_public(s)
            && signature@ == ed25519_signature(s, data@) ==> r is Ok,
{
    let key: [u8; 32] = public.try_into().unwrap_or([0u8; 32]);
    match (ed25519_dalek::VerifyingKey::from_bytes(&key), ed25519_dalek::Signature::from_slice(signature)) {
        (Ok(k), Ok(sig)) => ed25519_dalek::Verifier::verify(&k, data, &sig).map_err(|e| e.to_string()),
        (Err(e), _) => Err(e.to_string()),
        (_, Err(e)) => Err(e.to_string()),
    }
}

/// Signs and verifies with one Ed25519 key.
pub struct SigningEngine {
    secret: Vec<u8>,
    public: Vec<u8>,
    key_id: String,
}

/// A crypto error whose message is `context` followed by some explanation.
pub open spec fn crypto_error(e: SyncEngineError, context: Seq<char>) -> bool {
    e matches SyncEngineError::Crypto(m) && crate::text::is_prefix_of(context, m@)
}

impl SigningEngine {
    #[verifier::type_invariant]
    spec fn well_formed(&self) -> bool {
        &&& self.secret@.len() == 32
        &&& self.public@ == ed25519_public(self.secret@)
        &&& self.public@.len() == 32
        &&& ed25519_valid_point(self.public@)
    }

    /// The secret key.
    pub closed spec fn secret_key(&self) -> Seq<u8> {
        self.secret@
    }

    /// The key's identifier.
    pub closed spec fn key_name(&self) -> Seq<char> {
        self.key_id@
    }

    /// An engine with the 32-byte secret key `private_key`.
    pub fn from_bytes(private_key: &[u8], key_id: &str) -> (r: Result<Self, SyncEngineError>)
        ensures
            (r is Ok) == (private_key@.len() == 32),
            r matches Ok(e) ==> e.secret_key() == private_key@ && e.key_name() == key_id@,
            r matches Err(e) ==> e matches SyncEngineError::Crypto(m) && m@ == "Invalid private key length: expected 32 bytes"@,
    {
        if private_key.len() != 32 {
            return Err(SyncEngineError::Crypto(owned("Invalid private key length: expected 32 bytes")));
        }
        let mut secret: Vec<u8> = Vec::new();
        for i in 0..32
            invariant
                private_key@.len() == 32,
                secret@ == private_key@.take(i as int),
        {
            secret.push(private_key[i]);
            assert(secret@ =~= private_key@.take(i + 1));
        }
        assert(private_key@.take(32) =~= private_key@);
        let public = public_key_of(secret.as_slice());
        Ok(SigningEngine { secret, public, key_id: owned(key_id) })
    }

    /// An engine with a fresh random key.
    pub fn generate(key_id: &str) -> (r: Self)
        ensures
            r.key_name() == key_id@,
    {
        let secret = fresh_secret();
        let public = public_key_of(secret.as_slice());
        SigningEngine { secret, public, key_id: owned(key_id) }
    }

    /// The signature of `data` by the engine's key.
    pub fn sign(&self, data: &[u8]) -> (r: Result<Vec<u8>, SyncEngineError>)
        ensures
            r matches Ok(s) && s@ == ed25519_signature(self.secret_key(), data@) && s@.len() == 64,
    {
        proof {
            use_type_invariant(self);
        }
        Ok(sign_bytes(self.secret.as_slice(), data))
    }

    /// Whether `signature_bytes` is a valid signature of `data` by the engine's key.
    pub fn verify(&self, data: &[u8], signature_bytes: &[u8]) -> (r: Result<(), SyncEngineError>)
        ensures
            (r is Ok) == (signature_bytes@.len() == 64
                && ed25519_accepts(ed25519_public(self.secret_key()), data@, signature_bytes@)),
            signature_bytes@ == ed25519_signature(self.secret_key(), data@) && signature_bytes@.len() == 64 ==> r is Ok,
            r matches Err(e) ==> crypto_error(e, "Invalid signature bytes: "@)
                || crypto_error(e, "Signature verification failed: "@),
    {
        proof {
            use_type_invariant(self);
        }
        match check_signature_bytes(signature_bytes) {
            Ok(()) => {},
            Err(m) => {
                return Err(Self::failure("Invalid signature bytes: ", m.as_str()));
            },
        }
        match verify_bytes(self.public.as_slice(), data, signature_bytes) {
            Ok(()) => Ok(()),
            Err(m) => {
                proof {
                    if signature_bytes@ == ed25519_signature(self.secret@, data@) {
                        assert(self.public@ == ed25519_public(self.secret@));
                    }
                }
                Err(Self::failure("Signature verification failed: ", m.as_str()))
            },
        }
    }

    fn failure(context: &str, message: &str) -> (e: SyncEngineError)
        ensures
            e matches SyncEngineError::Crypto(m) && m@ == context@ + message@,
            crypto_error(e, context@),
    {
        proof {
            crate::text::lemma_prefix_of_concat(context@, message@);
        }
        SyncEngineError::Crypto(cat2(context, message))
    }

    /// Whether `signature_bytes` is a valid signature of `data` under the 32-byte public
    /// key `public_key`.
    pub fn verify_with_key(data: &[u8], signature_bytes: &[u8], public_key: &[u8]) -> (r: Result<(), SyncEngineError>)
        ensures
            (r is Ok) == (public_key@.len() == 32 && ed25519_valid_point(public_key@) && signature_bytes@.len() == 64
                && ed25519_accepts(public_key@, data@, signature_bytes@)),
            forall|s: Seq<u8>| s.len() == 32 && public_key@ == #[trigger] ed25519_public(s) && public_key@.len() == 32
                && ed25519_valid_point(public_key@) && signature_bytes@.len() == 64
                && signature_bytes@ == ed25519_signature(s, data@) ==> r is Ok,
    {
        if public_key.len() != 32 {
            return Err(SyncEngineError::Crypto(owned("Invalid public key length")));
        }
        match check_point(public_key) {
            Ok(()) => {},
            Err(m) => {
                return Err(Self::failure("Invalid public key: ", m.as_str()));
            },
        }
        match check_signature_bytes(signature_bytes) {
            Ok(()) => {},
            Err(m) => {
                return Err(Self::failure("Invalid signature bytes: ", m.as_str()));
            },
        }
        match verify_bytes(public_key, data, signature_bytes) {
            Ok(()) => Ok(()),
            Err(m) => Err(Self::failure("Signature verification failed: ", m.as_str())),
        }
    }

    /// The engine's 32-byte public key.
    pub fn public_key_bytes(&self) -> (r: Vec<u8>)
        ensures
            r@ == ed25519_public(self.secret_key()),
            r@.len() == 32,
    {
        proof {
            use_type_invariant(self);
        }
        let mut r: Vec<u8> = Vec::new();
        for i in 0..32
            invariant
                self.public@.len() == 32,
                r@ == self.public@.take(i as int),
        {
            r.push(self.public[i]);
            assert(r@ =~= self.public@.take(i + 1));
        }
        assert(self.public@.take(32) =~= self.public@);
        r
    }

    /// The key's identifier.
    pub fn key_id(&self) -> (r: &str)
        ensures
            r@ == self.key_name(),
    {
        self.key_id.as_str()
    }
}

} // verus!
