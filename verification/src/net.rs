pub mod cipher;
pub mod client;
pub mod server;

use vstd::prelude::*;
use ahash::RandomState;
use rand::rngs::ThreadRng;
use crate::hashing::hash_bytes;
use crate::random::random_byte;
use crate::net::cipher::{
    KeyPair, kyber_encrypt, kyber_decrypt, kyber_ciphertext, kyber_plaintext, decrypt_defined,
    ciphertext_shape, ciphertext_len, be_value, trailer, CIPHERTEXT_BLOCK_BYTES,
    EXACT_LENGTH_BOUND, NONCE_BYTES, PUBLIC_KEY_BYTES, SECRET_KEY_READ_BYTES,
};

verus! {

/// The marker that opens an encrypted message: "---ENCRYPTED-MESSAGE---".
pub const PREFIX: [u8; 23] = [
    45u8, 45u8, 45u8, 69u8, 78u8, 67u8, 82u8, 89u8, 80u8, 84u8, 69u8, 68u8, 45u8, 77u8, 69u8, 83u8,
    83u8, 65u8, 71u8, 69u8, 45u8, 45u8, 45u8,
];

/// The length of `PREFIX`.
pub const PREFIX_LEN: usize = 23;

/// The marker as a sequence.
pub open spec fn prefix_seq() -> Seq<u8> {
    seq![
        45u8, 45u8, 45u8, 69u8, 78u8, 67u8, 82u8, 89u8, 80u8, 84u8, 69u8, 68u8, 45u8, 77u8, 69u8,
        83u8, 83u8, 65u8, 71u8, 69u8, 45u8, 45u8, 45u8,
    ]
}

/// `s` begins with `p`.
pub open spec fn starts_with(s: Seq<u8>, p: Seq<u8>) -> bool {
    p.len() <= s.len() && s.subrange(0, p.len() as int) == p
}

/// What encryption makes of `plaintext`: the marker, then the ciphertext.
pub open spec fn sealed(public_key: Seq<u8>, plaintext: Seq<u8>, nonce: Seq<u8>) -> Seq<u8> {
    prefix_seq() + kyber_ciphertext(public_key, plaintext, nonce)
}

/// What decryption makes of `s`: the plaintext of what follows the marker,
/// where that is at least one ciphertext block long; otherwise `s` itself.
pub open spec fn opened(secret_key: Seq<u8>, s: Seq<u8>) -> Seq<u8> {
    let ct = s.subrange(PREFIX_LEN as int, s.len() as int);
    if ct.len() >= CIPHERTEXT_BLOCK_BYTES {
        kyber_plaintext(secret_key, ct)
    } else {
        s
    }
}

/// `decode` can be called on `s` with `secret_key`: `s` holds the marker's
/// length and what follows it can be decrypted without a panic.
pub open spec fn decodable(secret_key: Seq<u8>, s: Seq<u8>) -> bool {
    s.len() >= PREFIX_LEN && decrypt_defined(
        secret_key,
        s.subrange(PREFIX_LEN as int, s.len() as int),
    )
}

/// `encode` can be called on `s` with `public_key`.
pub open spec fn encodable(public_key: Seq<u8>, s: Seq<u8>) -> bool {
    public_key.len() >= PUBLIC_KEY_BYTES && s.len() + 32 <= EXACT_LENGTH_BOUND
}

/// A message on the wire: its bytes, and the length and hash of the
/// plaintext they carry.
pub struct Package {
    pub msg: Vec<u8>,
    pub len: usize,
    pub hash: u64,
}

impl Package {
    /// The message begins with the encryption marker.
    pub fn is_encrypted(&self) -> (r: bool)
        ensures
            r == starts_with(self.msg@, prefix_seq()),
    {
        if self.msg.len() < PREFIX_LEN {
            assert(!starts_with(self.msg@, prefix_seq()));
            return false;
        }
        let mut i: usize = 0;
        while i < PREFIX_LEN
            invariant
                i <= PREFIX_LEN,
                self.msg@.len() >= PREFIX_LEN,
                PREFIX@ == prefix_seq(),
                forall|j: int| 0 <= j < i ==> self.msg@[j] == prefix_seq()[j],
            decreases PREFIX_LEN - i,
        {
            if self.msg[i] != PREFIX[i] {
                assert(self.msg@.subrange(0, PREFIX_LEN as int)[i as int] != prefix_seq()[i as int]);
                return false;
            }
            i = i + 1;
        }
        assert(self.msg@.subrange(0, PREFIX_LEN as int) =~= prefix_seq());
        true
    }
}

/// Replaces `s` by the marker followed by its encryption under `public_key`
/// with `nonce`.
pub fn encode_with_nonce(s: &mut Vec<u8>, public_key: &[u8], nonce: &[u8])
    requires
        encodable(public_key@, old(s)@),
        nonce@.len() == NONCE_BYTES,
    ensures
        final(s)@ == sealed(public_key@, old(s)@, nonce@),
        ciphertext_shape(final(s)@.subrange(PREFIX_LEN as int, final(s)@.len() as int)),
{
    if let Some(res) = kyber_encrypt(public_key, s.as_slice(), nonce) {
        let ghost plain = s@;
        let mut out: Vec<u8> = Vec::new();
        let mut i: usize = 0;
        while i < PREFIX_LEN
            invariant
                i <= PREFIX_LEN,
                PREFIX@ == prefix_seq(),
                out@ == prefix_seq().subrange(0, i as int),
            decreases PREFIX_LEN - i,
        {
            out.push(PREFIX[i]);
            assert(out@ =~= prefix_seq().subrange(0, i + 1));
            i = i + 1;
        }
        let mut j: usize = 0;
        while j < res.len()
            invariant
                j <= res@.len(),
                out@ == prefix_seq() + res@.subrange(0, j as int),
            decreases res@.len() - j,
        {
            out.push(res[j]);
            assert(out@ =~= prefix_seq() + res@.subrange(0, j + 1));
            j = j + 1;
        }
        assert(res@.subrange(0, res@.len() as int) =~= res@);
        assert(out@.subrange(PREFIX_LEN as int, out@.len() as int) =~= res@);
        proof {
            lemma_ciphertext_shape(plain.len(), res@);
        }
        *s = out;
    }
}

/// A ciphertext of the length and length field that encryption gives has the
/// shape that decryption accepts.
proof fn lemma_ciphertext_shape(n: nat, c: Seq<u8>)
    requires
        n + 32 <= EXACT_LENGTH_BOUND,
        c.len() == ciphertext_len(n),
        be_value(trailer(c)) == n,
    ensures
        ciphertext_shape(c),
{
    let blocks: int = if n == 0 {
        1
    } else {
        ((n + 31) / 32) as int
    };
    assert(blocks >= 1);
    assert(c.len() - 8 == blocks * 1568);
    assert((blocks * 1568) % 1568 == 0) by (nonlinear_arith)
        requires
            blocks >= 1,
    ;
    assert(blocks * 1568 >= 1568) by (nonlinear_arith)
        requires
            blocks >= 1,
    ;
}

/// Decryption never panics on what has the shape of a ciphertext, given a
/// secret key long enough to be read.
pub proof fn lemma_shape_decodable(secret_key: Seq<u8>, ct: Seq<u8>)
    requires
        ciphertext_shape(ct),
        secret_key.len() >= SECRET_KEY_READ_BYTES,
    ensures
        decrypt_defined(secret_key, ct),
{
}

/// What encryption makes can always be decoded, with any secret key long
/// enough to be read.
pub proof fn lemma_sealed_decodable(secret_key: Seq<u8>, s: Seq<u8>)
    requires
        s.len() >= PREFIX_LEN,
        ciphertext_shape(s.subrange(PREFIX_LEN as int, s.len() as int)),
        secret_key.len() >= SECRET_KEY_READ_BYTES,
    ensures
        decodable(secret_key, s),
{
    lemma_shape_decodable(secret_key, s.subrange(PREFIX_LEN as int, s.len() as int));
}

/// Encrypts `s` in place under `public_key` with a fresh random nonce, and
/// returns the length and hash of the plaintext.
pub fn encode(hasher: &RandomState, rng: &mut ThreadRng, s: &mut Vec<u8>, public_key: &[u8]) -> (r: (
    usize,
    u64,
))
    requires
        encodable(public_key@, old(s)@),
    ensures
        r.0 == old(s)@.len(),
        exists|nonce: Seq<u8>|
            nonce.len() == NONCE_BYTES && final(s)@ == sealed(public_key@, old(s)@, nonce),
        ciphertext_shape(final(s)@.subrange(PREFIX_LEN as int, final(s)@.len() as int)),
        starts_with(final(s)@, prefix_seq()),
{
    let hash = hash_bytes(hasher, s);
    let len = s.len();
    let mut nonce: Vec<u8> = Vec::new();
    let mut i: usize = 0;
    while i < NONCE_BYTES
        invariant
            i <= NONCE_BYTES,
            nonce@.len() == i,
        decreases NONCE_BYTES - i,
    {
        nonce.push(random_byte(rng));
        i = i + 1;
    }
    encode_with_nonce(s, public_key, nonce.as_slice());
    proof {
        lemma_sealed_is_marked(public_key@, old(s)@, nonce@);
    }
    (len, hash)
}

/// Decrypts what follows the marker in `s` with the secret key of `keys`;
/// where that is shorter than one ciphertext block, `s` stays as it is.
pub fn decode(s: &mut Vec<u8>, keys: &KeyPair)
    requires
        decodable(keys.secret@, old(s)@),
    ensures
        final(s)@ == opened(keys.secret@, old(s)@),
{
    let mut ct: Vec<u8> = Vec::new();
    let mut i: usize = PREFIX_LEN;
    while i < s.len()
        invariant
            PREFIX_LEN <= i <= s@.len(),
            ct@ == s@.subrange(PREFIX_LEN as int, i as int),
        decreases s@.len() - i,
    {
        ct.push(s[i]);
        assert(ct@ =~= s@.subrange(PREFIX_LEN as int, i + 1));
        i = i + 1;
    }
    if let Some(res) = kyber_decrypt(keys.secret.as_slice(), ct.as_slice()) {
        *s = res;
    }
}

/// Whether `decode` may be called on `s` with `secret_key`.
pub fn can_decode(secret_key: &[u8], s: &[u8]) -> (r: bool)
    ensures
        r == decodable(secret_key@, s@),
{
    if s.len() < PREFIX_LEN {
        return false;
    }
    let ghost ct = s@.subrange(PREFIX_LEN as int, s@.len() as int);
    let ct_len = s.len() - PREFIX_LEN;
    if ct_len < CIPHERTEXT_BLOCK_BYTES {
        return true;
    }
    let mut pl: u64 = 0;
    let mut k: usize = s.len() - 8;
    assert(s@.subrange(s@.len() - 8, k as int) =~= Seq::<u8>::empty());
    while k < s.len()
        invariant
            s@.len() >= PREFIX_LEN + CIPHERTEXT_BLOCK_BYTES,
            s@.len() - 8 <= k <= s@.len(),
            pl as nat == be_value(s@.subrange(s@.len() - 8, k as int)),
            pl < pow256(k - (s@.len() - 8)),
        decreases s@.len() - k,
    {
        assert(s@.subrange(s@.len() - 8, k + 1).drop_last() =~= s@.subrange(
            s@.len() - 8,
            k as int,
        ));
        proof {
            lemma_pow256_step((k - (s@.len() - 8)) as nat);
        }
        pl = pl * 256 + s[k] as u64;
        k = k + 1;
    }
    assert(trailer(ct) =~= s@.subrange(s@.len() - 8, s@.len() as int));
    if pl > (EXACT_LENGTH_BOUND - 32) as u64 {
        return false;
    }
    let out_blocks = (pl + 31) / 32;
    if out_blocks != 0 && secret_key.len() < SECRET_KEY_READ_BYTES {
        return false;
    }
    let body = ct_len - 8;
    body % CIPHERTEXT_BLOCK_BYTES == 0 || (body / CIPHERTEXT_BLOCK_BYTES) as u64 >= out_blocks
}

/// 256 to the power `k`.
pub open spec fn pow256(k: int) -> nat
    decreases k,
{
    if k <= 0 {
        1
    } else {
        256 * pow256(k - 1)
    }
}

proof fn lemma_pow256_step(k: nat)
    requires
        k < 8,
    ensures
        pow256(k as int + 1) == 256 * pow256(k as int),
        pow256(k as int + 1) <= 0x1_0000_0000_0000_0000,
    decreases k,
{
    reveal_with_fuel(pow256, 9);
    assert(pow256(8) == 0x1_0000_0000_0000_0000);
    if k < 7 {
        lemma_pow256_mono(k as int + 1, 8);
    }
}

proof fn lemma_pow256_mono(a: int, b: int)
    requires
        0 <= a <= b,
    ensures
        pow256(a) <= pow256(b),
    decreases b - a,
{
    if a < b {
        lemma_pow256_mono(a, b - 1);
        assert(pow256(b) == 256 * pow256(b - 1));
    }
}

/// Opening what was sealed gives back the plaintext, wherever the cipher
/// decrypts its own ciphertext with the secret key.
pub proof fn lemma_open_undoes_seal(
    public_key: Seq<u8>,
    secret_key: Seq<u8>,
    plaintext: Seq<u8>,
    nonce: Seq<u8>,
)
    requires
        kyber_ciphertext(public_key, plaintext, nonce).len() >= CIPHERTEXT_BLOCK_BYTES,
        kyber_plaintext(secret_key, kyber_ciphertext(public_key, plaintext, nonce)) == plaintext,
    ensures
        opened(secret_key, sealed(public_key, plaintext, nonce)) == plaintext,
{
    let c = kyber_ciphertext(public_key, plaintext, nonce);
    let s = sealed(public_key, plaintext, nonce);
    assert(s.subrange(PREFIX_LEN as int, s.len() as int) =~= c);
}

/// What encryption makes carries the marker, so it is taken for encrypted.
pub proof fn lemma_sealed_is_marked(public_key: Seq<u8>, plaintext: Seq<u8>, nonce: Seq<u8>)
    ensures
        starts_with(sealed(public_key, plaintext, nonce), prefix_seq()),
{
    let s = sealed(public_key, plaintext, nonce);
    assert(s.subrange(0, PREFIX_LEN as int) =~= prefix_seq());
}

/// Removing the marker from the front of marked bytes gives back the bytes.
pub proof fn lemma_strip_marker(s: Seq<u8>)
    ensures
        (prefix_seq() + s).subrange(PREFIX_LEN as int, (prefix_seq() + s).len() as int) == s,
        starts_with(prefix_seq() + s, prefix_seq()),
{
    assert((prefix_seq() + s).subrange(PREFIX_LEN as int, (prefix_seq() + s).len() as int) =~= s);
    assert((prefix_seq() + s).subrange(0, PREFIX_LEN as int) =~= prefix_seq());
}

} // verus!
