use vstd::prelude::*;
use ahash::RandomState;
use rand::rngs::ThreadRng;
use crate::{Error, ErrorKind};
use crate::hashing::{new_hasher, hash_bytes};
use crate::random::thread_rng;
use crate::net::{
    Package, encode, decode, sealed, opened, encodable, decodable, starts_with, prefix_seq,
    PREFIX_LEN,
};
use crate::net::{lemma_sealed_is_marked, lemma_open_undoes_seal};
use crate::net::cipher::{
    KeyPair, KyberFailure, kyber_keypair, new_ake, ciphertext_shape, kyber_ciphertext, kyber_plaintext,
    CIPHERTEXT_BLOCK_BYTES, NONCE_BYTES,
};

verus! {

/// The server's cryptographic state: a hash builder, the clients' public
/// keys, the secrets shared with them, its own key pair and a random
/// generator.
pub struct EncDe {
    pub hasher: RandomState,
    pub client_keys: Vec<Vec<u8>>,
    pub shared_secrets: Vec<Vec<u8>>,
    pub server_keys: KeyPair,
    pub rng: ThreadRng,
}

/// The message of the error for a package that fails its check.
pub open spec fn corrupted_msg() -> Seq<char> {
    "Received corrupted data"@
}

/// The message of the error for a client id past the known keys.
pub open spec fn out_of_bounds_msg() -> Seq<char> {
    "Out of bounds!"@
}

/// The error for a package that fails its check.
fn corrupted() -> (e: Error)
    ensures
        e.msg_view() == corrupted_msg(),
        e.kind_view() == ErrorKind::CorrData,
{
    Error::new(String::from_str("Received corrupted data"), ErrorKind::CorrData)
}

/// A package passes its check when its length field is the length of its
/// message and its hash field is the hash computed of the message.
pub open spec fn intact(package: Package, computed_hash: u64) -> bool {
    package.len == package.msg@.len() && package.hash == computed_hash
}

/// Checks `package` against the hash computed of its message: its message
/// where it is intact, else a `CorrData` error.
pub fn check_integrity(package: Package, computed_hash: u64) -> (r: Result<Vec<u8>, Error>)
    ensures
        intact(package, computed_hash) ==> r is Ok && r->Ok_0@ == package.msg@,
        !intact(package, computed_hash) ==> r is Err && r->Err_0.kind_view() == ErrorKind::CorrData
            && r->Err_0.msg_view() == corrupted_msg(),
{
    if package.len != package.msg.len() || package.hash != computed_hash {
        return Err(corrupted());
    }
    Ok(package.msg)
}

/// The message that opening a package yields before its check: the
/// decryption of an encrypted one, or the message as it is.
pub open spec fn opened_msg(secret_key: Seq<u8>, msg: Seq<u8>) -> Seq<u8> {
    if starts_with(msg, prefix_seq()) {
        opened(secret_key, msg)
    } else {
        msg
    }
}

/// A package sealed under a public key opens, with the matching secret key,
/// to its plaintext, whose length its length field holds, wherever the cipher
/// decrypts its own ciphertext.
pub proof fn lemma_sealed_package_opens(
    public_key: Seq<u8>,
    secret_key: Seq<u8>,
    plaintext: Seq<u8>,
    nonce: Seq<u8>,
)
    requires
        kyber_ciphertext(public_key, plaintext, nonce).len() >= CIPHERTEXT_BLOCK_BYTES,
        kyber_plaintext(secret_key, kyber_ciphertext(public_key, plaintext, nonce)) == plaintext,
    ensures
        opened_msg(secret_key, sealed(public_key, plaintext, nonce)) == plaintext,
{
    lemma_sealed_is_marked(public_key, plaintext, nonce);
    lemma_open_undoes_seal(public_key, secret_key, plaintext, nonce);
}

/// A message without the marker opens to itself.
pub proof fn lemma_plain_opens_to_itself(secret_key: Seq<u8>, msg: Seq<u8>)
    requires
        !starts_with(msg, prefix_seq()),
    ensures
        opened_msg(secret_key, msg) == msg,
{
}

impl EncDe {
    /// The server's public key.
    pub open spec fn public_view(&self) -> Seq<u8> {
        self.server_keys.public@
    }

    /// The server's secret key.
    pub open spec fn secret_view(&self) -> Seq<u8> {
        self.server_keys.secret@
    }

    /// The keys have the lengths of the security level in use.
    pub open spec fn wf(&self) -> bool {
        self.server_keys.wf()
    }

    /// A fresh state: new hash seeds, a new generator, no client keys or
    /// shared secrets, and a fresh key pair. The thread generator never
    /// fails, so this always succeeds.
    pub fn init() -> (r: Result<Self, KyberFailure>)
        ensures
            r is Ok,
            r matches Ok(e) ==> e.wf() && e.client_keys@.len() == 0 && e.shared_secrets@.len() == 0,
            r matches Ok(e) ==> e.server_keys.matched(),
    {
        let hasher = new_hasher();
        let mut rng = thread_rng();
        let client_keys: Vec<Vec<u8>> = Vec::with_capacity(4);
        let shared_secrets: Vec<Vec<u8>> = Vec::with_capacity(4);
        let server_keys = match kyber_keypair(&mut rng) {
            Ok(k) => k,
            Err(e) => return Err(e),
        };
        Ok(Self { hasher, client_keys, shared_secrets, server_keys, rng })
    }

    /// The public key of the client `id`, or an `OutOfBounds` error past the
    /// last known one.
    pub fn get_public(&self, id: usize) -> (r: Result<&[u8], Error>)
        requires
            self.client_keys@.len() >= 1,
        ensures
            id < self.client_keys@.len() ==> r is Ok && r->Ok_0@ == self.client_keys@[id as int]@,
            id >= self.client_keys@.len() ==> r is Err && r->Err_0.kind_view()
                == ErrorKind::OutOfBounds && r->Err_0.msg_view() == out_of_bounds_msg(),
    {
        if self.client_keys.len() - 1 < id {
            return Err(Error::new(String::from_str("Out of bounds!"), ErrorKind::OutOfBounds));
        }
        Ok(self.client_keys[id].as_slice())
    }

    /// The server's secret key.
    pub fn get_private(&self) -> (r: Result<&[u8], Error>)
        ensures
            r is Ok,
            r->Ok_0@ == self.secret_view(),
    {
        Ok(self.server_keys.secret.as_slice())
    }

    /// Checks `package` against the hash of its message under this server's
    /// hash builder: its message where the length and hash fields agree with
    /// it, else a `CorrData` error. A wrong length is always refused.
    pub fn integrity_check(&self, package: Package) -> (r: Result<Vec<u8>, Error>)
        ensures
            package.len != package.msg@.len() ==> r is Err && r->Err_0.kind_view()
                == ErrorKind::CorrData && r->Err_0.msg_view() == corrupted_msg(),
            r is Ok ==> r->Ok_0@ == package.msg@ && package.len == package.msg@.len(),
            r is Err ==> r->Err_0.kind_view() == ErrorKind::CorrData && r->Err_0.msg_view()
                == corrupted_msg(),
    {
        if package.len != package.msg.len() {
            return Err(corrupted());
        }
        let computed = hash_bytes(&self.hasher, &package.msg);
        check_integrity(package, computed)
    }

    /// Decrypts `package` where it is encrypted, then checks it: the
    /// plaintext where it passes, else a `CorrData` error.
    pub fn open_package(&self, package: Package) -> (r: Result<Vec<u8>, Error>)
        requires
            self.wf(),
            starts_with(package.msg@, prefix_seq()) ==> decodable(self.secret_view(), package.msg@),
        ensures
            r is Ok ==> r->Ok_0@ == opened_msg(self.secret_view(), package.msg@) && package.len
                == r->Ok_0@.len(),
            package.len != opened_msg(self.secret_view(), package.msg@).len() ==> r is Err,
            r is Err ==> r->Err_0.kind_view() == ErrorKind::CorrData && r->Err_0.msg_view()
                == corrupted_msg(),
    {
        let mut package = package;
        let encrypted = package.is_encrypted();
        if encrypted {
            decode(&mut package.msg, &self.server_keys);
        }
        self.integrity_check(package)
    }

    /// Whether `open_package` may be called on a package with message `msg`.
    pub fn can_open(&self, msg: &Vec<u8>) -> (r: bool)
        ensures
            r == (starts_with(msg@, prefix_seq()) ==> decodable(self.secret_view(), msg@)),
    {
        let probe = Package { msg: msg.clone(), len: 0, hash: 0 };
        if probe.is_encrypted() {
            crate::net::can_decode(self.server_keys.secret.as_slice(), msg.as_slice())
        } else {
            true
        }
    }

    /// Encrypts `msg` under `public_key` and packs it with the length and
    /// hash of the plaintext.
    pub fn sealed_package(&mut self, msg: Vec<u8>, public_key: &[u8]) -> (p: Package)
        requires
            encodable(public_key@, msg@),
        ensures
            final(self).wf() == old(self).wf(),
            final(self).public_view() == old(self).public_view(),
            final(self).secret_view() == old(self).secret_view(),
            final(self).client_keys@ == old(self).client_keys@,
            final(self).shared_secrets@ == old(self).shared_secrets@,
            final(self).hasher == old(self).hasher,
            p.len == msg@.len(),
            exists|nonce: Seq<u8>|
                nonce.len() == NONCE_BYTES && p.msg@ == sealed(public_key@, msg@, nonce),
            ciphertext_shape(p.msg@.subrange(PREFIX_LEN as int, p.msg@.len() as int)),
    {
        let mut bytes = msg;
        let (len, hash) = encode(&self.hasher, &mut self.rng, &mut bytes, public_key);
        Package { msg: bytes, len, hash }
    }

    /// Starts the server's side of a mutually authenticated key exchange; the
    /// exchange goes no further yet, so this always succeeds.
    pub fn ake(&self) -> (r: Result<(), Error>)
        ensures
            r is Ok,
    {
        let _bob = new_ake();
        Ok(())
    }

    /// Packs `msg` unencrypted with its length and hash.
    pub fn plain_package(&self, msg: Vec<u8>) -> (p: Package)
        ensures
            p.msg@ == msg@,
            p.len == msg@.len(),
    {
        let len = msg.len();
        let hash = hash_bytes(&self.hasher, &msg);
        Package { msg, len, hash }
    }
}

} // verus!
