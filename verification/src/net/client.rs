use vstd::prelude::*;
use ahash::RandomState;
use rand::rngs::ThreadRng;
use crate::Error;
use crate::hashing::{new_hasher, hash_bytes};
use crate::random::thread_rng;
use crate::net::{Package, encode, sealed, encodable, PREFIX_LEN};
use crate::net::cipher::{
    KeyPair, KyberFailure, kyber_keypair, new_ake, ake_client_init, ciphertext_shape,
    AKE_INIT_BYTES, PUBLIC_KEY_BYTES, NONCE_BYTES,
};

verus! {

/// The client's cryptographic state: a hash builder, the server's public
/// key, its own key pair and a random generator.
pub struct EncDe {
    hasher: RandomState,
    server_key: Vec<u8>,
    keys: KeyPair,
    rng: ThreadRng,
}

/// The public key that a client starts with for its server: all zero bytes.
pub open spec fn initial_server_key() -> Seq<u8> {
    Seq::new(PUBLIC_KEY_BYTES as nat, |i: int| 0u8)
}

impl EncDe {
    /// The server's public key.
    pub closed spec fn server_key_view(&self) -> Seq<u8> {
        self.server_key@
    }

    /// The client's public key.
    pub closed spec fn public_view(&self) -> Seq<u8> {
        self.keys.public@
    }

    /// The client's secret key.
    pub closed spec fn secret_view(&self) -> Seq<u8> {
        self.keys.secret@
    }

    /// The hash builder.
    pub closed spec fn hasher_view(&self) -> RandomState {
        self.hasher
    }

    /// The client's secret key is laid out for its public key.
    pub closed spec fn keys_matched(&self) -> bool {
        self.keys.matched()
    }

    /// The keys have the lengths of the security level in use.
    pub closed spec fn wf(&self) -> bool {
        &&& self.server_key@.len() == PUBLIC_KEY_BYTES
        &&& self.keys.wf()
    }

    /// A fresh state: new hash seeds, a new generator, the all-zero server
    /// key and a fresh key pair. The thread generator never fails, so this
    /// always succeeds.
    pub fn init() -> (r: Result<Self, KyberFailure>)
        ensures
            r is Ok,
            r matches Ok(e) ==> e.wf() && e.server_key_view() == initial_server_key(),
            r matches Ok(e) ==> e.keys_matched(),
    {
        let hasher = new_hasher();
        let mut rng = thread_rng();
        let mut server_key: Vec<u8> = Vec::new();
        let mut i: usize = 0;
        while i < PUBLIC_KEY_BYTES
            invariant
                i <= PUBLIC_KEY_BYTES,
                server_key@ == Seq::new(i as nat, |j: int| 0u8),
            decreases PUBLIC_KEY_BYTES - i,
        {
            server_key.push(0u8);
            assert(server_key@ =~= Seq::new((i + 1) as nat, |j: int| 0u8));
            i = i + 1;
        }
        let keys = match kyber_keypair(&mut rng) {
            Ok(k) => k,
            Err(e) => return Err(e),
        };
        Ok(Self { hasher, server_key, keys, rng })
    }

    /// The client's public key, whatever the id.
    pub fn get_public(&self, id: usize) -> (r: Result<&[u8], Error>)
        ensures
            r is Ok,
            r->Ok_0@ == self.public_view(),
    {
        Ok(self.keys.public.as_slice())
    }

    /// The client's secret key.
    pub fn get_private(&self) -> (r: Result<&[u8], Error>)
        ensures
            r is Ok,
            r->Ok_0@ == self.secret_view(),
    {
        Ok(self.keys.secret.as_slice())
    }

    /// Encrypts `msg` for the server and packs it with the length and hash of
    /// the plaintext.
    pub fn sealed_package(&mut self, msg: Vec<u8>) -> (p: Package)
        requires
            old(self).wf(),
            msg@.len() + 32 <= crate::net::cipher::EXACT_LENGTH_BOUND,
        ensures
            final(self).wf(),
            final(self).server_key_view() == old(self).server_key_view(),
            final(self).public_view() == old(self).public_view(),
            final(self).secret_view() == old(self).secret_view(),
            final(self).hasher_view() == old(self).hasher_view(),
            p.len == msg@.len(),
            exists|nonce: Seq<u8>|
                nonce.len() == NONCE_BYTES && p.msg@ == sealed(
                    old(self).server_key_view(),
                    msg@,
                    nonce,
                ),
            ciphertext_shape(p.msg@.subrange(PREFIX_LEN as int, p.msg@.len() as int)),
    {
        let mut bytes = msg;
        let (len, hash) = encode(&self.hasher, &mut self.rng, &mut bytes, self.server_key.as_slice());
        Package { msg: bytes, len, hash }
    }

    /// Packs `msg` unencrypted with its length and hash.
    pub fn plain_package(&self, msg: Vec<u8>) -> (p: Package)
        ensures
            p.msg@ == msg@,
            p.len == msg@.len(),
    {
        let len = msg.len();
        let hash = hash_bytes(&self.hasher, &msg);
        Package { msg, len, hash }
    }

    /// Opens a mutually authenticated key exchange with the server's key:
    /// the message to send. The thread generator never fails, so this always
    /// succeeds.
    pub fn ake_init(&mut self) -> (r: Result<Vec<u8>, KyberFailure>)
        requires
            old(self).wf(),
        ensures
            final(self).wf(),
            final(self).server_key_view() == old(self).server_key_view(),
            final(self).public_view() == old(self).public_view(),
            final(self).secret_view() == old(self).secret_view(),
            final(self).hasher_view() == old(self).hasher_view(),
            r is Ok,
            r matches Ok(v) ==> v@.len() == AKE_INIT_BYTES,
    {
        let mut alice = new_ake();
        ake_client_init(&mut alice, self.server_key.as_slice(), &mut self.rng)
    }
}

} // verus!
