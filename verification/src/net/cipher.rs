use vstd::prelude::*;
use pqc_kyber_kyberslash::{Ake, KyberError};
use rand::rngs::ThreadRng;

verus! {

/// Bytes of a Kyber public key at the security level in use (Kyber-1024).
pub const PUBLIC_KEY_BYTES: usize = 1568;

/// Bytes of a Kyber secret key.
pub const SECRET_KEY_BYTES: usize = 3168;

/// Bytes of one Kyber ciphertext block; also the least length that
/// decryption accepts.
pub const CIPHERTEXT_BLOCK_BYTES: usize = 1568;

/// Bytes of the part of a secret key that decryption reads.
pub const SECRET_KEY_READ_BYTES: usize = 1536;

/// Bytes of the message that opens a mutually authenticated key exchange.
pub const AKE_INIT_BYTES: usize = 3136;

/// Lengths below this bound are computed exactly by the cipher's
/// floating-point block count.
pub const EXACT_LENGTH_BOUND: usize = 0x100_0000;

/// Bytes of a nonce.
pub const NONCE_BYTES: usize = 32;

/// Ways in which a Kyber operation fails.
#[derive(Debug, PartialEq, Eq, Structural)]
pub enum KyberFailure {
    InvalidInput,
    Decapsulation,
    RandomBytesGeneration,
}

/// A Kyber key pair as plain bytes.
pub struct KeyPair {
    pub public: Vec<u8>,
    pub secret: Vec<u8>,
}

impl KeyPair {
    /// Both keys have the lengths of the security level in use.
    pub open spec fn wf(&self) -> bool {
        &&& self.public@.len() == PUBLIC_KEY_BYTES
        &&& self.secret@.len() == SECRET_KEY_BYTES
    }
}

/// The SHA3-256 digest of `input`, as `pqc_kyber_kyberslash` computes it
/// (`hash_h`) when it lays out a secret key.
pub uninterp spec fn sha3_256(input: Seq<u8>) -> Seq<u8>;

impl KeyPair {
    /// The secret key is laid out for this public key: after the part that
    /// decryption reads comes the public key, then its SHA3-256 digest.
    pub open spec fn matched(&self) -> bool {
        &&& self.secret@.subrange(
            SECRET_KEY_READ_BYTES as int,
            SECRET_KEY_READ_BYTES + PUBLIC_KEY_BYTES,
        ) == self.public@
        &&& self.secret@.subrange(
            SECRET_KEY_READ_BYTES + PUBLIC_KEY_BYTES,
            SECRET_KEY_READ_BYTES + PUBLIC_KEY_BYTES + 32,
        ) == sha3_256(self.public@)
    }
}

/// The value of bytes read as a big-endian unsigned number.
pub open spec fn be_value(s: Seq<u8>) -> nat
    decreases s.len(),
{
    if s.len() == 0 {
        0
    } else {
        (be_value(s.drop_last()) * 256 + s.last()) as nat
    }
}

/// The last eight bytes of a ciphertext, which carry the plaintext's length.
pub open spec fn trailer(ct: Seq<u8>) -> Seq<u8> {
    ct.subrange(ct.len() - 8, ct.len() as int)
}

/// The length of the ciphertext of a plaintext of `n` bytes: one block for
/// every 32 bytes begun (at least one), then the eight-byte length field.
pub open spec fn ciphertext_len(n: nat) -> nat {
    ((if n == 0 {
        1
    } else {
        (n + 31) / 32
    }) * CIPHERTEXT_BLOCK_BYTES + 8) as nat
}

/// Decryption of `ct` with `sk` returns without a panic: a ciphertext that
/// is long enough holds a length field small enough to be computed with
/// exactly, the secret key is long enough where a block is decrypted, and no
/// incomplete block is decrypted.
pub open spec fn decrypt_defined(sk: Seq<u8>, ct: Seq<u8>) -> bool {
    ct.len() < CIPHERTEXT_BLOCK_BYTES || {
        let body = ct.len() - 8;
        let pl = be_value(trailer(ct));
        let out_blocks = (pl + 31) / 32;
        &&& pl + 32 <= EXACT_LENGTH_BOUND
        &&& (out_blocks == 0 || sk.len() >= SECRET_KEY_READ_BYTES)
        &&& (body % (CIPHERTEXT_BLOCK_BYTES as int) == 0 || body / (CIPHERTEXT_BLOCK_BYTES as int)
            >= out_blocks)
    }
}

/// A ciphertext as encryption lays it out: whole blocks, then a length field
/// small enough for decryption.
pub open spec fn ciphertext_shape(ct: Seq<u8>) -> bool {
    &&& ct.len() >= CIPHERTEXT_BLOCK_BYTES + 8
    &&& (ct.len() - 8) % (CIPHERTEXT_BLOCK_BYTES as int) == 0
    &&& be_value(trailer(ct)) + 32 <= EXACT_LENGTH_BOUND
}

/// The ciphertext that `kyber_pke::encrypt` makes of `plaintext` under
/// `public_key` with `nonce`.
pub uninterp spec fn kyber_ciphertext(public_key: Seq<u8>, plaintext: Seq<u8>, nonce: Seq<u8>) -> Seq<u8>;

/// The plaintext that `kyber_pke::decrypt` recovers from `ciphertext` with
/// `secret_key`.
pub uninterp spec fn kyber_plaintext(secret_key: Seq<u8>, ciphertext: Seq<u8>) -> Seq<u8>;

/// Calls `kyber_pke::encrypt(public_key, plaintext, nonce)`. With a 32-byte
/// nonce it always succeeds; the ciphertext is named `kyber_ciphertext`. Its
/// length is `ciphertext_len` of the plaintext's, and its last eight bytes
/// hold the plaintext's length in big-endian order. The key must be long
/// enough to be read, and the plaintext short enough for the crate's
/// floating-point block count to be exact.
#[verifier::external_body]
pub(crate) fn kyber_encrypt(public_key: &[u8], plaintext: &[u8], nonce: &[u8]) -> (res: Option<Vec<u8>>)
    requires
        public_key@.len() >= PUBLIC_KEY_BYTES,
        nonce@.len() == NONCE_BYTES,
        plaintext@.len() + 32 <= EXACT_LENGTH_BOUND,
    ensures
        res is Some,
        res->0@ == kyber_ciphertext(public_key@, plaintext@, nonce@),
        res->0@.len() == ciphertext_len(plaintext@.len()),
        be_value(trailer(res->0@)) == plaintext@.len(),
{
    kyber_pke::encrypt(public_key, plaintext, nonce).ok()
}

/// Calls `kyber_pke::decrypt(secret_key, ciphertext)`. It fails exactly when
/// the ciphertext is shorter than one block; otherwise the plaintext is named
/// `kyber_plaintext`, and its length is the one in the ciphertext's last eight
/// bytes. Whether it equals what was encrypted is not stated: that rests on
/// the key pair and on Kyber's correctness.
#[verifier::external_body]
pub(crate) fn kyber_decrypt(secret_key: &[u8], ciphertext: &[u8]) -> (res: Option<Vec<u8>>)
    requires
        decrypt_defined(secret_key@, ciphertext@),
    ensures
        ciphertext@.len() < CIPHERTEXT_BLOCK_BYTES ==> res is None,
        ciphertext@.len() >= CIPHERTEXT_BLOCK_BYTES ==> res is Some,
        ciphertext@.len() >= CIPHERTEXT_BLOCK_BYTES ==> res->0@ == kyber_plaintext(
            secret_key@,
            ciphertext@,
        ),
        ciphertext@.len() >= CIPHERTEXT_BLOCK_BYTES ==> res->0@.len() == be_value(
            trailer(ciphertext@),
        ),
{
    kyber_pke::decrypt(secret_key, ciphertext).ok()
}

/// Tells the variants of `pqc_kyber_kyberslash::KyberError` apart.
#[verifier::external_body]
fn kyber_failure(e: KyberError) -> KyberFailure {
    match e {
        KyberError::InvalidInput => KyberFailure::InvalidInput,
        KyberError::Decapsulation => KyberFailure::Decapsulation,
        KyberError::RandomBytesGeneration => KyberFailure::RandomBytesGeneration,
    }
}

/// The error type of `pqc_kyber_kyberslash`.
#[verifier::external_type_specification]
#[verifier::external_body]
pub struct ExKyberError(pqc_kyber_kyberslash::KyberError);

/// The state of a mutually authenticated key exchange of `pqc_kyber_kyberslash`.
#[verifier::external_type_specification]
#[verifier::external_body]
pub struct ExAke(pqc_kyber_kyberslash::Ake);

/// Calls `pqc_kyber_kyberslash::keypair` with the generator: a fresh random
/// key pair, whose keys have the lengths of the security level. The crate
/// fails only where the generator's `try_fill_bytes` fails, and that of
/// `rand`'s thread generator always succeeds (it fills from a block
/// generator, which returns `Ok`), so this call succeeds. The secret key
/// holds a copy of the public key after its first 1536 bytes, then the
/// SHA3-256 digest of the public key. The other bytes are random and not
/// stated.
#[verifier::external_body]
pub(crate) fn kyber_keypair(rng: &mut ThreadRng) -> (res: Result<KeyPair, KyberFailure>)
    ensures
        res is Ok,
        res matches Ok(k) ==> k.wf(),
        res matches Ok(k) ==> k.secret@.subrange(
            SECRET_KEY_READ_BYTES as int,
            SECRET_KEY_READ_BYTES + PUBLIC_KEY_BYTES,
        ) == k.public@,
        res matches Ok(k) ==> k.secret@.subrange(
            SECRET_KEY_READ_BYTES + PUBLIC_KEY_BYTES,
            SECRET_KEY_READ_BYTES + PUBLIC_KEY_BYTES + 32,
        ) == sha3_256(k.public@),
{
    match pqc_kyber_kyberslash::keypair(rng) {
        Ok(k) => Ok(KeyPair { public: k.public.to_vec(), secret: k.secret.to_vec() }),
        Err(e) => Err(kyber_failure(e)),
    }
}

/// Calls `pqc_kyber_kyberslash::Ake::new`: a key exchange in its initial state.
#[verifier::external_body]
pub(crate) fn new_ake() -> Ake {
    Ake::new()
}

/// Calls `pqc_kyber_kyberslash::Ake::client_init` with the server's public
/// key: the opening message of the exchange, of `AKE_INIT_BYTES` bytes. Its
/// content is random and not stated. The crate fails only where the
/// generator's `try_fill_bytes` fails, which that of `rand`'s thread generator
/// never does, so this call succeeds.
#[verifier::external_body]
pub(crate) fn ake_client_init(ake: &mut Ake, server_key: &[u8], rng: &mut ThreadRng) -> (res: Result<
    Vec<u8>,
    KyberFailure,
>)
    requires
        server_key@.len() == PUBLIC_KEY_BYTES,
    ensures
        res is Ok,
        res matches Ok(v) ==> v@.len() == AKE_INIT_BYTES,
{
    let key: &[u8; PUBLIC_KEY_BYTES] = server_key.try_into().unwrap();
    match ake.client_init(key, rng) {
        Ok(init) => Ok(init.to_vec()),
        Err(e) => Err(kyber_failure(e)),
    }
}

} // verus!
