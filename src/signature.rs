//! Ed25519 keys and signatures, held as their fixed-width byte encodings.

use ed25519_dalek::{Signer as _, Verifier as _};
use rand_core::RngCore as _;
use vstd::prelude::*;

use crate::encoding::Bytes;

verus! {

/// The public key that Ed25519 derives from a 32-byte secret.
pub uninterp spec fn ed25519_public_key(secret: Seq<u8>) -> Seq<u8>;

/// The Ed25519 signature of `msg` under a 32-byte secret.
pub uninterp spec fn ed25519_signature(secret: Seq<u8>, msg: Seq<u8>) -> Seq<u8>;

/// Whether `sig` is accepted as a signature of `msg` under the public key
/// `public`.
pub uninterp spec fn ed25519_accepts(public: Seq<u8>, msg: Seq<u8>, sig: Seq<u8>) -> bool;

/// Whether `b` is the compressed form of a point on the curve, so usable as a
/// public key.
pub uninterp spec fn ed25519_valid_key(b: Seq<u8>) -> bool;

/// Relies on ed25519_dalek::SigningKey::from_bytes and verifying_key: the
/// public key is derived from the secret alone.
#[verifier::external_body]
fn derive_public(secret: &[u8; 32]) -> (r: [u8; 32])
    ensures
        r@ == ed25519_public_key(secret@),
{
    ed25519_dalek::SigningKey::from_bytes(secret).verifying_key().to_bytes()
}

/// Relies on ed25519_dalek::SigningKey::sign: Ed25519 signing is
/// deterministic, and a signature it makes verifies under the public key
/// derived from the same secret.
#[verifier::external_body]
fn sign_raw(secret: &[u8; 32], msg: &[u8]) -> (r: [u8; 64])
    ensures
        r@ == ed25519_signature(secret@, msg@),
        ed25519_accepts(ed25519_public_key(secret@), msg@, r@),
{
    ed25519_dalek::SigningKey::from_bytes(secret).sign(msg).to_bytes()
}

/// Relies on ed25519_dalek::VerifyingKey::from_bytes and verify: the answer
/// depends on the key, message and signature bytes alone.
#[verifier::external_body]
fn verify_raw(public: &[u8; 32], msg: &[u8], sig: &[u8; 64]) -> (r: bool)
    ensures
        r == ed25519_accepts(public@, msg@, sig@),
{
    match ed25519_dalek::VerifyingKey::from_bytes(public) {
        Ok(key) => key.verify(msg, &ed25519::Signature::from_bytes(sig)).is_ok(),
        Err(_) => false,
    }
}

/// Relies on ed25519_dalek::VerifyingKey::from_bytes: it accepts exactly the
/// encodings of curve points.
#[verifier::external_body]
fn key_bytes_valid(b: &[u8; 32]) -> (r: bool)
    ensures
        r == ed25519_valid_key(b@),
{
    ed25519_dalek::VerifyingKey::from_bytes(b).is_ok()
}

/// Relies on rand_core's OsRng::try_fill_bytes for 32 fresh random bytes;
/// none when the operating system's random source fails. Nothing is known
/// of the bytes.
#[verifier::external_body]
fn random_secret() -> (r: Option<[u8; 32]>) {
    let mut secret = [0u8; 32];
    match rand_core::OsRng.try_fill_bytes(&mut secret) {
        Ok(()) => Some(secret),
        Err(_) => None,
    }
}

/// Relies on ed25519_dalek::SigningKey::from_keypair_bytes: it accepts a
/// secret followed by a public key exactly when the public half is a curve
/// point equal to the key derived from the secret half.
#[verifier::external_body]
fn keypair_bytes_match(bytes: &[u8; 64]) -> (r: bool)
    ensures
        r == (ed25519_valid_key(bytes@.subrange(32, 64)) && ed25519_public_key(
            bytes@.subrange(0, 32),
        ) == bytes@.subrange(32, 64)),
{
    ed25519_dalek::SigningKey::from_keypair_bytes(bytes).is_ok()
}

/// Copy the first 32 bytes of `b`.
pub(crate) fn array32(b: &[u8]) -> (r: [u8; 32])
    requires
        b@.len() >= 32,
    ensures
        r@ == b@.subrange(0, 32),
{
    let mut a = [0u8; 32];
    let mut i: usize = 0;
    while i < 32
        invariant
            b@.len() >= 32,
            i <= 32,
            forall|j: int| 0 <= j < i ==> a@[j] == b@[j],
        decreases 32 - i,
    {
        a[i] = b[i];
        i = i + 1;
    }
    assert(a@ =~= b@.subrange(0, 32));
    a
}

/// Copy the first 64 bytes of `b`.
pub(crate) fn array64(b: &[u8]) -> (r: [u8; 64])
    requires
        b@.len() >= 64,
    ensures
        r@ == b@.subrange(0, 64),
{
    let mut a = [0u8; 64];
    let mut i: usize = 0;
    while i < 64
        invariant
            b@.len() >= 64,
            i <= 64,
            forall|j: int| 0 <= j < i ==> a@[j] == b@[j],
        decreases 64 - i,
    {
        a[i] = b[i];
        i = i + 1;
    }
    assert(a@ =~= b@.subrange(0, 64));
    a
}

/// An Ed25519 public key, by its 32-byte compressed encoding.
#[derive(Clone, Copy, Debug, PartialEq, Eq)]
pub struct PublicKey {
    pub bytes: [u8; 32],
}

/// An Ed25519 signature, by its 64-byte encoding.
#[derive(Clone, Copy, Debug, PartialEq, Eq)]
pub struct Signature {
    pub bytes: [u8; 64],
}

impl PublicKey {
    pub open spec fn view(self) -> Seq<u8> {
        self.bytes@
    }

    /// Whether the two keys have the same encoding.
    pub fn same_as(&self, other: &PublicKey) -> (r: bool)
        ensures
            r == (*self == *other),
    {
        let mut i: usize = 0;
        while i < 32
            invariant
                i <= 32,
                forall|j: int| 0 <= j < i ==> self.bytes@[j] == other.bytes@[j],
            decreases 32 - i,
        {
            if self.bytes[i] != other.bytes[i] {
                return false;
            }
            i = i + 1;
        }
        assert(self.bytes =~= other.bytes);
        true
    }

    /// Whether `sig` is a valid signature of `msg` under this key.
    pub fn verify(&self, msg: &[u8], sig: &Signature) -> (r: bool)
        ensures
            r == ed25519_accepts(self.bytes@, msg@, sig.bytes@),
    {
        verify_raw(&self.bytes, msg, &sig.bytes)
    }
}

impl Bytes for PublicKey {
    open spec fn byte_view(&self) -> Seq<u8> {
        self.bytes@
    }

    open spec fn decodable(b: Seq<u8>) -> bool {
        b.len() == 32 && ed25519_valid_key(b)
    }

    fn from_bytes(b: &[u8]) -> (r: Option<Self>) {
        if b.len() != 32 {
            return None;
        }
        let bytes = array32(b);
        assert(b@.subrange(0, 32) =~= b@);
        if key_bytes_valid(&bytes) {
            Some(PublicKey { bytes })
        } else {
            None
        }
    }

    fn as_bytes(&self) -> (r: &[u8]) {
        self.bytes.as_slice()
    }
}

impl Bytes for Signature {
    open spec fn byte_view(&self) -> Seq<u8> {
        self.bytes@
    }

    open spec fn decodable(b: Seq<u8>) -> bool {
        b.len() == 64
    }

    fn from_bytes(b: &[u8]) -> (r: Option<Self>) {
        if b.len() != 64 {
            return None;
        }
        let bytes = array64(b);
        assert(b@.subrange(0, 64) =~= b@);
        Some(Signature { bytes })
    }

    fn as_bytes(&self) -> (r: &[u8]) {
        self.bytes.as_slice()
    }
}

/// An Ed25519 signing key: a secret and the public key derived from it.
pub struct Keypair {
    secret: [u8; 32],
    public: PublicKey,
}

impl Keypair {
    #[verifier::type_invariant]
    spec fn derived(self) -> bool {
        self.public.bytes@ == ed25519_public_key(self.secret@)
    }

    /// The secret bytes.
    pub closed spec fn secret_view(self) -> Seq<u8> {
        self.secret@
    }

    /// The public key of the pair.
    pub closed spec fn public_view(self) -> PublicKey {
        self.public
    }

    /// The signature this key makes on `msg`.
    pub open spec fn signature_on(self, msg: Seq<u8>) -> Seq<u8> {
        ed25519_signature(self.secret_view(), msg)
    }

    /// The keypair of a 32-byte secret: the secret and the public key
    /// derived from it.
    pub fn from_secret(secret: [u8; 32]) -> (k: Keypair)
        ensures
            k.secret_view() == secret@,
            k.public_view().bytes@ == ed25519_public_key(secret@),
    {
        let public = PublicKey { bytes: derive_public(&secret) };
        Keypair { secret, public }
    }

    /// The public key of the pair.
    pub fn public(&self) -> (r: PublicKey)
        ensures
            r == self.public_view(),
            r.bytes@ == ed25519_public_key(self.secret_view()),
    {
        proof {
            use_type_invariant(self);
        }
        self.public
    }

    /// Sign `msg`; the signature verifies under the pair's public key.
    pub fn sign(&self, msg: &[u8]) -> (r: Signature)
        ensures
            r.bytes@ == self.signature_on(msg@),
            ed25519_accepts(self.public_view().bytes@, msg@, r.bytes@),
    {
        proof {
            use_type_invariant(self);
        }
        Signature { bytes: sign_raw(&self.secret, msg) }
    }

    /// The 64-byte keypair encoding: the secret, then the public key.
    pub fn to_bytes(&self) -> (r: Vec<u8>)
        ensures
            r@ == self.secret_view() + self.public_view().bytes@,
    {
        let mut out: Vec<u8> = Vec::new();
        crate::encoding::push_all(&mut out, self.secret.as_slice());
        crate::encoding::push_all(&mut out, self.public.bytes.as_slice());
        out
    }
}

/// The Ed25519 signing scheme.
pub struct Dalek;

impl Dalek {
    /// A fresh keypair from the operating system's random source; none when
    /// that source fails.
    pub fn generate() -> (r: Option<Keypair>)
        ensures
            r matches Some(k) ==> k.public_view().bytes@ == ed25519_public_key(k.secret_view()),
    {
        match random_secret() {
            Some(secret) => Some(Keypair::from_secret(secret)),
            None => None,
        }
    }

    /// The keypair whose 64-byte encoding (secret, then public key) is
    /// `bytes`; none when the length is wrong or the public half is not the
    /// key derived from the secret half.
    pub fn signer(bytes: &[u8]) -> (r: Option<Keypair>)
        ensures
            r is Some <==> (bytes@.len() == 64 && ed25519_valid_key(bytes@.subrange(32, 64))
                && ed25519_public_key(bytes@.subrange(0, 32)) == bytes@.subrange(32, 64)),
            r matches Some(k) ==> k.secret_view() == bytes@.subrange(0, 32)
                && k.public_view().bytes@ == bytes@.subrange(32, 64),
    {
        if bytes.len() != 64 {
            return None;
        }
        let mut whole = [0u8; 64];
        let mut i: usize = 0;
        while i < 64
            invariant
                bytes@.len() == 64,
                i <= 64,
                forall|j: int| 0 <= j < i ==> whole@[j] == bytes@[j],
            decreases 64 - i,
        {
            whole[i] = bytes[i];
            i = i + 1;
        }
        assert(whole@ =~= bytes@);
        if !keypair_bytes_match(&whole) {
            return None;
        }
        let secret = array32(bytes);
        let public = PublicKey { bytes: array32(&bytes[32..64]) };
        assert(bytes@.subrange(32, 64).subrange(0, 32) =~= bytes@.subrange(32, 64));
        Some(Keypair { secret, public })
    }

    /// The public key of `signer`.
    pub fn verifying_key(signer: &Keypair) -> (r: PublicKey)
        ensures
            r == signer.public_view(),
    {
        signer.public()
    }
}

} // verus!
