use kyber_numbers::net::cipher::KeyPair;
use kyber_numbers::net::server::{check_integrity, EncDe as ServerEncDe};
use kyber_numbers::net::client::EncDe as ClientEncDe;
use kyber_numbers::net::{can_decode, decode, encode, encode_with_nonce, Package, PREFIX, PREFIX_LEN};
use kyber_numbers::ErrorKind;
use kyber_pke::{decrypt, encrypt};
use pqc_kyber_kyberslash::keypair;
use rand::Rng;

fn fresh_keys() -> KeyPair {
    let mut rng = rand::thread_rng();
    let k = keypair(&mut rng).unwrap();
    KeyPair { public: k.public.to_vec(), secret: k.secret.to_vec() }
}

#[test]
fn prefix_bounds() {
    let s: Vec<u8> = "some message".as_bytes().into();

    let new = [&PREFIX[..], &s[..]].concat();
    assert_eq!(s, new[PREFIX_LEN..]);

    let package_true = Package { len: 0, hash: 123, msg: new };
    let package_false = Package { len: 0, hash: 123, msg: s };

    assert!(package_true.is_encrypted());
    assert!(!package_false.is_encrypted())
}

#[test]
fn encde() {
    let msg = "some silly message".as_bytes();
    let mut rng = rand::thread_rng();

    let keys_a = keypair(&mut rng).unwrap();

    let mut nonce: [u8; 32] = [0; 32];

    for i in 0..32 {
        nonce[i] = rng.gen();
    }

    let enc = encrypt(&keys_a.public, &msg, &nonce).unwrap();
    let new = decrypt(&keys_a.secret, enc).unwrap();
    assert_eq!(new, msg);
}

#[test]
fn prefix_is_the_marker_text() {
    assert_eq!(&PREFIX[..], "---ENCRYPTED-MESSAGE---".as_bytes());
    assert_eq!(PREFIX_LEN, PREFIX.len());
}

#[test]
fn short_message_is_not_encrypted() {
    let p = Package { len: 0, hash: 0, msg: PREFIX[..22].to_vec() };
    assert!(!p.is_encrypted());
    let p = Package { len: 0, hash: 0, msg: PREFIX.to_vec() };
    assert!(p.is_encrypted());
}

#[test]
fn encode_then_decode_gives_back_the_message() {
    let keys = fresh_keys();
    let hasher = ahash::RandomState::new();
    let mut rng = rand::thread_rng();
    let original = b"some silly message".to_vec();
    let mut s = original.clone();
    let (len, _hash) = encode(&hasher, &mut rng, &mut s, &keys.public);
    assert_eq!(len, original.len());
    assert_ne!(s, original);
    assert_eq!(&s[..PREFIX_LEN], &PREFIX[..]);
    assert_eq!(s.len(), PREFIX_LEN + 1568 + 8);
    assert!(can_decode(&keys.secret, &s));
    decode(&mut s, &keys);
    assert_eq!(s, original);
}

#[test]
fn encode_with_fixed_nonce_is_deterministic() {
    let keys = fresh_keys();
    let nonce = [7u8; 32];
    let mut a = b"abc".to_vec();
    let mut b = b"abc".to_vec();
    encode_with_nonce(&mut a, &keys.public, &nonce);
    encode_with_nonce(&mut b, &keys.public, &nonce);
    assert_eq!(a, b);
    let expected = [&PREFIX[..], &encrypt(&keys.public, b"abc", &nonce).unwrap()[..]].concat();
    assert_eq!(a, expected);
}

#[test]
fn long_message_takes_several_blocks() {
    let keys = fresh_keys();
    let hasher = ahash::RandomState::new();
    let mut rng = rand::thread_rng();
    let original: Vec<u8> = (0..100u32).map(|i| (i % 256) as u8).collect();
    let mut s = original.clone();
    encode(&hasher, &mut rng, &mut s, &keys.public);
    assert_eq!(s.len(), PREFIX_LEN + 4 * 1568 + 8);
    decode(&mut s, &keys);
    assert_eq!(s, original);
}

#[test]
fn decode_leaves_short_input_alone() {
    let keys = fresh_keys();
    let mut s = [&PREFIX[..], b"tiny"].concat();
    let before = s.clone();
    assert!(can_decode(&keys.secret, &s));
    decode(&mut s, &keys);
    assert_eq!(s, before);
}

#[test]
fn can_decode_refuses_what_would_panic() {
    let keys = fresh_keys();
    assert!(!can_decode(&keys.secret, b"short"));
    // a length field far too large
    let mut s = PREFIX.to_vec();
    s.extend(vec![0u8; 1568]);
    s.extend(u64::MAX.to_be_bytes());
    assert!(!can_decode(&keys.secret, &s));
    // an incomplete block that would be decrypted
    let mut s = PREFIX.to_vec();
    s.extend(vec![0u8; 1568 + 10]);
    s.extend(64u64.to_be_bytes());
    assert!(!can_decode(&keys.secret, &s));
    // the same, with a length that needs only the first block
    let mut s = PREFIX.to_vec();
    s.extend(vec![0u8; 1568 + 10]);
    s.extend(32u64.to_be_bytes());
    assert!(can_decode(&keys.secret, &s));
    // a secret key too short to be read
    let mut s = PREFIX.to_vec();
    s.extend(vec![0u8; 1568]);
    s.extend(5u64.to_be_bytes());
    assert!(!can_decode(&[0u8; 10], &s));
    assert!(can_decode(&keys.secret, &s));
}

#[test]
fn check_integrity_accepts_matching_fields() {
    let p = Package { msg: vec![1, 2, 3], len: 3, hash: 42 };
    assert_eq!(check_integrity(p, 42).unwrap(), vec![1, 2, 3]);
}

#[test]
fn check_integrity_refuses_wrong_hash() {
    let p = Package { msg: vec![1, 2, 3], len: 3, hash: 42 };
    let e = check_integrity(p, 41).unwrap_err();
    assert_eq!(e.kind(), &ErrorKind::CorrData);
    assert_eq!(e.description(), "Received corrupted data");
}

#[test]
fn check_integrity_refuses_wrong_length() {
    let p = Package { msg: vec![1, 2, 3], len: 2, hash: 42 };
    let e = check_integrity(p, 42).unwrap_err();
    assert_eq!(e.kind(), &ErrorKind::CorrData);
}

#[test]
fn server_integrity_check_of_own_plain_package() {
    let server = ServerEncDe::init().unwrap();
    let p = server.plain_package(b"hello".to_vec());
    assert_eq!(p.len, 5);
    assert_eq!(server.integrity_check(p).unwrap(), b"hello".to_vec());
    let bad = Package { msg: b"hello".to_vec(), len: 4, hash: 0 };
    assert_eq!(server.integrity_check(bad).unwrap_err().kind(), &ErrorKind::CorrData);
}

#[test]
fn server_opens_what_it_sealed_for_itself() {
    let mut server = ServerEncDe::init().unwrap();
    let public = server.server_keys.public.clone();
    let p = server.sealed_package(b"a move".to_vec(), &public);
    assert!(p.is_encrypted());
    assert_eq!(p.len, 6);
    assert!(server.can_open(&p.msg));
    assert_eq!(server.open_package(p).unwrap(), b"a move".to_vec());
}

#[test]
fn server_opens_plain_package() {
    let server = ServerEncDe::init().unwrap();
    let p = server.plain_package(b"plain".to_vec());
    assert!(server.can_open(&p.msg));
    assert_eq!(server.open_package(p).unwrap(), b"plain".to_vec());
}

#[test]
fn server_refuses_tampered_length() {
    let mut server = ServerEncDe::init().unwrap();
    let public = server.server_keys.public.clone();
    let mut p = server.sealed_package(b"a move".to_vec(), &public);
    p.len = 7;
    assert_eq!(server.open_package(p).unwrap_err().kind(), &ErrorKind::CorrData);
}

#[test]
fn server_get_public_in_and_out_of_bounds() {
    let mut server = ServerEncDe::init().unwrap();
    server.client_keys.push(vec![1, 2, 3]);
    server.client_keys.push(vec![4]);
    assert_eq!(server.get_public(0).unwrap(), &[1, 2, 3]);
    assert_eq!(server.get_public(1).unwrap(), &[4]);
    let e = server.get_public(2).unwrap_err();
    assert_eq!(e.kind(), &ErrorKind::OutOfBounds);
    assert_eq!(e.description(), "Out of bounds!");
    assert_eq!(e.to_string(), "Out of bounds! on OutOfBounds");
}

#[test]
fn server_init_has_fresh_keys() {
    let server = ServerEncDe::init().unwrap();
    assert_eq!(server.server_keys.public.len(), 1568);
    assert_eq!(server.server_keys.secret.len(), 3168);
    assert!(server.client_keys.is_empty());
    assert!(server.shared_secrets.is_empty());
    assert_eq!(server.get_private().unwrap(), &server.server_keys.secret[..]);
}

#[test]
fn client_keys_and_packages() {
    let mut client = ClientEncDe::init().unwrap();
    assert_eq!(client.get_public(7).unwrap().len(), 1568);
    assert_eq!(client.get_private().unwrap().len(), 3168);
    let p = client.sealed_package(b"hi".to_vec());
    assert!(p.is_encrypted());
    assert_eq!(p.len, 2);
    assert_eq!(p.msg.len(), PREFIX_LEN + 1568 + 8);
    let q = client.plain_package(b"hi".to_vec());
    assert!(!q.is_encrypted());
    assert_eq!(q.msg, b"hi".to_vec());
    assert_eq!(q.len, 2);
}

#[test]
fn client_ake_init_has_the_message_length() {
    let mut client = ClientEncDe::init().unwrap();
    let init = client.ake_init().unwrap();
    assert_eq!(init.len(), 3136);
}

#[test]
fn server_ake_starts() {
    let server = ServerEncDe::init().unwrap();
    assert!(server.ake().is_ok());
}

#[test]
fn server_secret_key_holds_its_public_key() {
    let server = ServerEncDe::init().unwrap();
    assert_eq!(&server.server_keys.secret[1536..3104], &server.server_keys.public[..]);
}

#[test]
fn encoded_message_is_taken_for_encrypted() {
    let keys = fresh_keys();
    let hasher = ahash::RandomState::new();
    let mut rng = rand::thread_rng();
    let mut s = b"some message".to_vec();
    let (len, hash) = encode(&hasher, &mut rng, &mut s, &keys.public);
    let p = Package { msg: s, len, hash };
    assert!(p.is_encrypted());
}
