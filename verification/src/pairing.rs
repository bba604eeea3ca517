//! Device identity (Ed25519) and the six-digit pairing code both devices display.
use vstd::prelude::*;
use crate::hex::{encode, hex_encode};
use crate::text::{decimal, pad_zeros, string_from_chars, u64_to_decimal, zero_pad};
use vstd::utf8::encode_utf8;

verus! {

/// What SHA-256 returns for a message.
pub uninterp spec fn sha256_digest(data: Seq<u8>) -> Seq<u8>;

/// What Ed25519 derives as the public key of a 32-byte secret key.
pub uninterp spec fn ed25519_public(secret: Seq<u8>) -> Seq<u8>;

/// What Ed25519 (RFC 8032, deterministic) produces as the signature of `msg` under `secret`.
pub uninterp spec fn ed25519_signature(secret: Seq<u8>, msg: Seq<u8>) -> Seq<u8>;

/// Whether ed25519-dalek accepts `sig` for `msg` under the 32-byte public key `public`.
pub uninterp spec fn ed25519_accepts(public: Seq<u8>, msg: Seq<u8>, sig: Seq<u8>) -> bool;

/// Calls `sha2::Sha256::digest`. The digest is 32 bytes (SHA-256 output size);
/// otherwise it is named by `sha256_digest`.
#[verifier::external_body]
fn sha256(data: &[u8]) -> (r: Vec<u8>)
    ensures
        r@ == sha256_digest(data@),
        r@.len() == 32,
{
    <sha2::Sha256 as sha2::Digest>::digest(data).to_vec()
}

/// Calls `SigningKey::from_bytes(..).verifying_key().to_bytes()`: the public
/// key of a secret, named by `ed25519_public`.
#[verifier::external_body]
fn public_key_of(secret: &[u8; 32]) -> (r: [u8; 32])
    ensures
        r@ == ed25519_public(secret@),
{
    ed25519_dalek::SigningKey::from_bytes(secret).verifying_key().to_bytes()
}

/// Calls `Signer::sign` on `SigningKey::from_bytes(secret)`. Ed25519 signing
/// is deterministic, so the signature is named by `ed25519_signature`; as the
/// scheme guarantees, the matching public key accepts it.
#[verifier::external_body]
fn sign_with(secret: &[u8; 32], msg: &[u8]) -> (r: [u8; 64])
    ensures
        r@ == ed25519_signature(secret@, msg@),
        ed25519_accepts(ed25519_public(secret@), msg@, r@),
{
    ed25519_dalek::Signer::sign(&ed25519_dalek::SigningKey::from_bytes(secret), msg).to_bytes()
}

/// Calls `VerifyingKey::from_bytes` and `Verifier::verify` for a 32-byte
/// public key; true when the key is a valid point and the signature checks.
/// Whether a key decodes is not stated; acceptance is named by `ed25519_accepts`.
#[verifier::external_body]
fn verify_with(public: &[u8; 32], msg: &[u8], sig: &[u8; 64]) -> (r: bool)
    ensures
        r == ed25519_accepts(public@, msg@, sig@),
{
    match ed25519_dalek::VerifyingKey::from_bytes(public) {
        Ok(key) => ed25519_dalek::Verifier::verify(&key, msg, &ed25519_dalek::Signature::from_bytes(sig)).is_ok(),
        Err(_) => false,
    }
}

/// Fills 32 bytes from the OS random source with `RngCore::try_fill_bytes`
/// on `OsRng`; `None` when the source reports an error. The bytes are
/// random, so nothing is stated of them.
#[verifier::external_body]
fn random_bytes_32() -> (r: Option<[u8; 32]>) {
    let mut bytes = [0u8; 32];
    match rand::RngCore::try_fill_bytes(&mut rand::rngs::OsRng, &mut bytes) {
        Ok(()) => Some(bytes),
        Err(_) => None,
    }
}

/// Generate a random 32-byte session nonce for pairing; `None` when the
/// system's random source fails.
pub fn generate_nonce() -> (r: Option<Vec<u8>>)
    ensures
        r matches Some(v) ==> v@.len() == 32,
{
    match random_bytes_32() {
        Some(bytes) => {
            let mut nonce: Vec<u8> = Vec::new();
            append_bytes(&mut nonce, bytes.as_slice());
            Some(nonce)
        },
        None => None,
    }
}

/// Lexicographic order on byte strings (a proper prefix is smaller).
pub open spec fn bytes_le(a: Seq<u8>, b: Seq<u8>) -> bool
    decreases a.len(),
{
    if a.len() == 0 {
        true
    } else if b.len() == 0 {
        false
    } else if a[0] != b[0] {
        a[0] < b[0]
    } else {
        bytes_le(a.drop_first(), b.drop_first())
    }
}

/// Big-endian value of the first four bytes.
pub open spec fn be_u32(b: Seq<u8>) -> nat {
    (b[0] as nat) * 16777216 + (b[1] as nat) * 65536 + (b[2] as nat) * 256 + (b[3] as nat)
}

/// The domain-separation prefix hashed before the nonce and keys.
pub open spec fn pairing_prefix() -> Seq<u8> {
    encode_utf8("lanbridge-pairing-v1"@)
}

/// The pairing code: SHA-256 over prefix, nonce, smaller key, larger key;
/// the first four digest bytes as a big-endian integer modulo one million,
/// written with six digits.
pub open spec fn pairing_code_spec(a: Seq<u8>, b: Seq<u8>, nonce: Seq<u8>) -> Seq<char> {
    let (lo, hi) = if bytes_le(a, b) {
        (a, b)
    } else {
        (b, a)
    };
    let digest = sha256_digest(pairing_prefix() + nonce + lo + hi);
    zero_pad(decimal(be_u32(digest) % 1000000), 6)
}

/// Lexicographic comparison of two byte slices.
pub fn bytes_less_eq(a: &[u8], b: &[u8]) -> (r: bool)
    ensures
        r == bytes_le(a@, b@),
{
    let mut i: usize = 0;
    assert(a@.skip(0) =~= a@ && b@.skip(0) =~= b@);
    while i < a.len() && i < b.len()
        invariant
            i <= a@.len(),
            i <= b@.len(),
            a@.take(i as int) == b@.take(i as int),
            bytes_le(a@, b@) == bytes_le(a@.skip(i as int), b@.skip(i as int)),
        decreases a.len() - i,
    {
        assert(a@.skip(i as int)[0] == a@[i as int]);
        assert(b@.skip(i as int)[0] == b@[i as int]);
        if a[i] != b[i] {
            return a[i] < b[i];
        }
        assert(a@.skip(i as int).drop_first() =~= a@.skip((i + 1) as int));
        assert(b@.skip(i as int).drop_first() =~= b@.skip((i + 1) as int));
        assert(a@.take((i + 1) as int) =~= a@.take(i as int).push(a@[i as int]));
        assert(b@.take((i + 1) as int) =~= b@.take(i as int).push(b@[i as int]));
        i = i + 1;
    }
    i == a.len()
}

fn append_bytes(out: &mut Vec<u8>, b: &[u8])
    ensures
        final(out)@ == old(out)@ + b@,
{
    let ghost start = out@;
    let mut i: usize = 0;
    while i < b.len()
        invariant
            i <= b@.len(),
            out@ == start + b@.take(i as int),
        decreases b.len() - i,
    {
        out.push(b[i]);
        assert(b@.take(i as int).push(b@[i as int]) =~= b@.take((i + 1) as int));
        i = i + 1;
    }
    assert(b@.take(b@.len() as int) =~= b@);
}

/// Derive the six-digit pairing verification code from both public keys and
/// the session nonce. Both devices compute the same code because the keys are
/// ordered before hashing.
pub fn derive_pairing_code(public_key_a: &[u8], public_key_b: &[u8], nonce: &[u8]) -> (r: String)
    ensures
        r@ == pairing_code_spec(public_key_a@, public_key_b@, nonce@),
{
    let (lo, hi) = if bytes_less_eq(public_key_a, public_key_b) {
        (public_key_a, public_key_b)
    } else {
        (public_key_b, public_key_a)
    };
    let mut data: Vec<u8> = Vec::new();
    append_bytes(&mut data, "lanbridge-pairing-v1".as_bytes());
    append_bytes(&mut data, nonce);
    append_bytes(&mut data, lo);
    append_bytes(&mut data, hi);
    let digest = sha256(data.as_slice());
    let value: u64 = (digest[0] as u64) * 16777216 + (digest[1] as u64) * 65536 + (digest[2] as u64)
        * 256 + (digest[3] as u64);
    let code = value % 1000000;
    let digits = u64_to_decimal(code);
    let padded = pad_zeros(&digits, 6);
    string_from_chars(&padded)
}

pub proof fn lemma_bytes_le_antisymmetric(a: Seq<u8>, b: Seq<u8>)
    requires
        bytes_le(a, b),
        bytes_le(b, a),
    ensures
        a == b,
    decreases a.len(),
{
    if a.len() > 0 && b.len() > 0 && a[0] == b[0] {
        lemma_bytes_le_antisymmetric(a.drop_first(), b.drop_first());
        assert(a =~= seq![a[0]] + a.drop_first());
        assert(b =~= seq![b[0]] + b.drop_first());
    }
}

pub proof fn lemma_bytes_le_total(a: Seq<u8>, b: Seq<u8>)
    ensures
        bytes_le(a, b) || bytes_le(b, a),
    decreases a.len(),
{
    if a.len() > 0 && b.len() > 0 && a[0] == b[0] {
        lemma_bytes_le_total(a.drop_first(), b.drop_first());
    }
}

/// Law: the pairing code does not depend on which device's key comes first.
pub proof fn law_pairing_code_symmetric(a: Seq<u8>, b: Seq<u8>, nonce: Seq<u8>)
    ensures
        pairing_code_spec(a, b, nonce) == pairing_code_spec(b, a, nonce),
{
    lemma_bytes_le_total(a, b);
    if bytes_le(a, b) && bytes_le(b, a) {
        lemma_bytes_le_antisymmetric(a, b);
    }
}

pub proof fn lemma_decimal_len(n: nat)
    ensures
        n < 1000000 ==> decimal(n).len() <= 6,
        decimal(n).len() >= 1,
    decreases n,
{
    if n >= 10 {
        lemma_decimal_len(n / 10);
        if n < 1000000 {
            lemma_decimal_short(n / 10);
        }
    }
}

proof fn lemma_decimal_short(n: nat)
    requires
        n < 100000,
    ensures
        decimal(n).len() <= 5,
    decreases n,
{
    if n >= 10 {
        lemma_decimal_short4(n / 10);
    }
}

proof fn lemma_decimal_short4(n: nat)
    requires
        n < 10000,
    ensures
        decimal(n).len() <= 4,
    decreases n,
{
    if n >= 10 {
        lemma_decimal_short3(n / 10);
    }
}

proof fn lemma_decimal_short3(n: nat)
    requires
        n < 1000,
    ensures
        decimal(n).len() <= 3,
    decreases n,
{
    if n >= 10 {
        lemma_decimal_short2(n / 10);
    }
}

proof fn lemma_decimal_short2(n: nat)
    requires
        n < 100,
    ensures
        decimal(n).len() <= 2,
    decreases n,
{
    if n >= 10 {
        assert(n / 10 < 10);
        assert(decimal(n / 10).len() == 1);
    }
}

/// Law: a pairing code is always exactly six characters.
pub proof fn law_pairing_code_six_digits(a: Seq<u8>, b: Seq<u8>, nonce: Seq<u8>)
    ensures
        pairing_code_spec(a, b, nonce).len() == 6,
{
    let (lo, hi) = if bytes_le(a, b) {
        (a, b)
    } else {
        (b, a)
    };
    let n = be_u32(sha256_digest(pairing_prefix() + nonce + lo + hi)) % 1000000;
    lemma_decimal_len(n);
}

/// Persistent device identity: an Ed25519 secret key.
pub struct DeviceIdentity {
    secret: [u8; 32],
}

/// Public identity that can be shared with peers.
#[derive(Debug, Clone)]
pub struct PublicIdentity {
    pub device_id: String,
    pub public_key: Vec<u8>,
}

impl DeviceIdentity {
    /// The secret key bytes.
    pub closed spec fn secret_view(&self) -> Seq<u8> {
        self.secret@
    }

    /// Generate a new random identity: a secret key of 32 random bytes, as
    /// `SigningKey::generate` makes one; `None` when the system's random
    /// source fails.
    pub fn generate() -> (r: Option<Self>)
        ensures
            r matches Some(id) ==> id.secret_view().len() == 32,
    {
        match random_bytes_32() {
            Some(secret) => Some(DeviceIdentity { secret }),
            None => None,
        }
    }

    /// An identity from stored key bytes; `None` unless exactly 32 bytes.
    pub fn from_key_bytes(bytes: &[u8]) -> (r: Option<Self>)
        ensures
            r is Some <==> bytes@.len() == 32,
            r matches Some(id) ==> id.secret_view() == bytes@,
    {
        if bytes.len() != 32 {
            return None;
        }
        let mut secret = [0u8; 32];
        let mut i: usize = 0;
        while i < 32
            invariant
                i <= 32,
                bytes@.len() == 32,
                forall|k: int| 0 <= k < i ==> secret@[k] == bytes@[k],
            decreases 32 - i,
        {
            secret[i] = bytes[i];
            i = i + 1;
        }
        assert(secret@ =~= bytes@);
        Some(DeviceIdentity { secret })
    }

    /// The public identity to share with peers: the public key, and its hex
    /// encoding as the device id.
    pub fn public(&self) -> (r: PublicIdentity)
        ensures
            r.public_key@ == ed25519_public(self.secret_view()),
            r.device_id@ == hex_encode(ed25519_public(self.secret_view())),
            r.public_key@.len() == 32,
            r.device_id@.len() == 64,
    {
        let pk = public_key_of(&self.secret);
        let device_id = encode(pk.as_slice());
        let mut public_key: Vec<u8> = Vec::new();
        append_bytes(&mut public_key, pk.as_slice());
        PublicIdentity { device_id, public_key }
    }

    /// Sign a message.
    pub fn sign(&self, message: &[u8]) -> (r: [u8; 64])
        ensures
            r@ == ed25519_signature(self.secret_view(), message@),
            ed25519_accepts(ed25519_public(self.secret_view()), message@, r@),
    {
        sign_with(&self.secret, message)
    }

    /// Verify a signature against a public key; a key that is not 32 bytes is rejected.
    pub fn verify(public_key: &[u8], message: &[u8], signature: &[u8; 64]) -> (r: Result<(), String>)
        ensures
            r is Ok <==> (public_key@.len() == 32 && ed25519_accepts(public_key@, message@, signature@)),
            public_key@.len() != 32 ==> (r matches Err(e) && e@ == "invalid public key length"@),
    {
        if public_key.len() != 32 {
            return Err(String::from_str("invalid public key length"));
        }
        let mut key = [0u8; 32];
        let mut i: usize = 0;
        while i < 32
            invariant
                i <= 32,
                public_key@.len() == 32,
                forall|k: int| 0 <= k < i ==> key@[k] == public_key@[k],
            decreases 32 - i,
        {
            key[i] = public_key[i];
            i = i + 1;
        }
        assert(key@ =~= public_key@);
        if verify_with(&key, message, signature) {
            Ok(())
        } else {
            Err(String::from_str("signature verification failed"))
        }
    }

    /// The raw secret key bytes (for storage).
    pub fn key_bytes(&self) -> (r: [u8; 32])
        ensures
            r@ == self.secret_view(),
    {
        self.secret
    }
}

} // verus!
