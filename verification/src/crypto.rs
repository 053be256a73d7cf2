use vstd::prelude::*;
use cryptoxide::chacha20poly1305::ChaCha20Poly1305;
use cryptoxide::hashing::sha2::{Sha256, Sha512};
use rand::RngCore;

verus! {

/// The SHA-256 digest of a byte sequence.
pub uninterp spec fn sha256_of(data: Seq<u8>) -> Seq<u8>;

/// The HMAC-SHA-512 tag of a message under a key.
pub uninterp spec fn hmac_sha512_of(key: Seq<u8>, data: Seq<u8>) -> Seq<u8>;

/// The 64-byte PBKDF2-HMAC-SHA-512 output for a password, salt and
/// iteration count.
pub uninterp spec fn pbkdf2_sha512_of(password: Seq<u8>, salt: Seq<u8>, iterations: u32) -> Seq<
    u8,
>;

/// The ChaCha20 ciphertext of a message under a key and nonce: the message
/// combined with the keystream, one byte for one byte.
pub uninterp spec fn chacha_ct_of(key: Seq<u8>, nonce: Seq<u8>, msg: Seq<u8>) -> Seq<u8>;

/// The 16-byte Poly1305 tag that ChaCha20-Poly1305 with empty associated
/// data appends to a ciphertext.
pub uninterp spec fn chacha_tag_of(key: Seq<u8>, nonce: Seq<u8>, ct: Seq<u8>) -> Seq<u8>;

/// The ChaCha20 decryption of a ciphertext under a key and nonce.
pub uninterp spec fn chacha_pt_of(key: Seq<u8>, nonce: Seq<u8>, ct: Seq<u8>) -> Seq<u8>;

/// Whether 32 bytes are a valid secp256k1 secret key (a nonzero scalar
/// below the group order).
pub uninterp spec fn secp_sk_ok(sk: Seq<u8>) -> bool;

/// The 33-byte compressed secp256k1 public key of a secret key.
pub uninterp spec fn secp_pub_of(sk: Seq<u8>) -> Seq<u8>;

/// Whether adding `tweak` to `sk` modulo the group order yields a valid
/// secret key, `tweak` itself being a valid scalar.
pub uninterp spec fn secp_tweak_ok(sk: Seq<u8>, tweak: Seq<u8>) -> bool;

/// The secret key `sk + tweak` modulo the secp256k1 group order.
pub uninterp spec fn secp_tweak_of(sk: Seq<u8>, tweak: Seq<u8>) -> Seq<u8>;

/// The 64-byte compact RFC6979 ECDSA signature of a 32-byte message digest
/// under a secret key.
pub uninterp spec fn secp_sig_of(sk: Seq<u8>, msg: Seq<u8>) -> Seq<u8>;

/// Whether bytes parse as a compact ECDSA signature with in-range scalars.
pub uninterp spec fn secp_sig_wf(sig: Seq<u8>) -> bool;

/// Whether bytes parse as a secp256k1 public key.
pub uninterp spec fn secp_pk_wf(pk: Seq<u8>) -> bool;

/// The ECDSA verification verdict for a public key, 32-byte digest and
/// parsed signature.
pub uninterp spec fn secp_verify_of(pk: Seq<u8>, msg: Seq<u8>, sig: Seq<u8>) -> bool;

/// Relies on cryptoxide's `Sha256`: a 32-byte digest, a function of the
/// input alone.
#[verifier::external_body]
pub(crate) fn sha256(data: &[u8]) -> (r: Vec<u8>)
    ensures
        r@ == sha256_of(data@),
        r@.len() == 32,
{
    Sha256::new().update(data).finalize().to_vec()
}

/// Relies on cryptoxide's `hmac` over `Sha512`: a 64-byte tag, a function
/// of key and message alone.
#[verifier::external_body]
pub(crate) fn hmac_sha512(key: &[u8], data: &[u8]) -> (r: Vec<u8>)
    ensures
        r@ == hmac_sha512_of(key@, data@),
        r@.len() == 64,
{
    cryptoxide::hmac::hmac::<Sha512>(key, data).0.to_vec()
}

/// Relies on cryptoxide's `pbkdf2` over HMAC-SHA-512: fills the output
/// deterministically from password, salt and iteration count.
#[verifier::external_body]
pub(crate) fn pbkdf2_sha512(password: &[u8], salt: &[u8], iterations: u32) -> (r: Vec<u8>)
    requires
        iterations >= 1,
    ensures
        r@ == pbkdf2_sha512_of(password@, salt@, iterations),
        r@.len() == 64,
{
    let mut out = vec![0u8; 64];
    cryptoxide::pbkdf2::pbkdf2::<Sha512>(password, salt, iterations, &mut out);
    out
}

/// Relies on cryptoxide's `ChaCha20Poly1305::encrypt` with empty associated
/// data: ciphertext of the message's length followed by the 16-byte tag,
/// functions of key, nonce and message alone, and decrypting the ciphertext
/// gives the message back.
#[verifier::external_body]
pub(crate) fn chacha20poly1305_seal(key: &[u8], nonce: &[u8], msg: &[u8]) -> (r: Vec<u8>)
    requires
        key@.len() == 32,
        nonce@.len() == 12,
    ensures
        r@.len() == msg@.len() + 16,
        r@.subrange(0, msg@.len() as int) == chacha_ct_of(key@, nonce@, msg@),
        r@.subrange(msg@.len() as int, msg@.len() as int + 16) == chacha_tag_of(
            key@,
            nonce@,
            chacha_ct_of(key@, nonce@, msg@),
        ),
        chacha_pt_of(key@, nonce@, r@.subrange(0, msg@.len() as int)) == msg@,
{
    let n: &[u8; 12] = nonce.try_into().unwrap();
    let mut cipher = ChaCha20Poly1305::new(key, n, &[]);
    let mut out = vec![0u8; msg.len()];
    let mut tag = [0u8; 16];
    cipher.encrypt(msg, &mut out, &mut tag);
    out.extend_from_slice(&tag);
    out
}

/// Relies on cryptoxide's `ChaCha20Poly1305::decrypt`: it succeeds exactly
/// when the trailing 16 bytes are the tag of the leading ciphertext under
/// this key and nonce, and then returns that ciphertext's decryption.
#[verifier::external_body]
pub(crate) fn chacha20poly1305_open(key: &[u8], nonce: &[u8], sealed: &[u8]) -> (r: Option<
    Vec<u8>,
>)
    requires
        key@.len() == 32,
        nonce@.len() == 12,
        sealed@.len() >= 16,
    ensures
        r is Some <==> sealed@.subrange(sealed@.len() - 16, sealed@.len() as int)
            == chacha_tag_of(key@, nonce@, sealed@.subrange(0, sealed@.len() - 16)),
        r matches Some(m) ==> m@ == chacha_pt_of(
            key@,
            nonce@,
            sealed@.subrange(0, sealed@.len() - 16),
        ) && m@.len() == sealed@.len() - 16,
{
    let n: &[u8; 12] = nonce.try_into().unwrap();
    let split = sealed.len() - 16;
    let mut cipher = ChaCha20Poly1305::new(key, n, &[]);
    let mut out = vec![0u8; split];
    if cipher.decrypt(&sealed[..split], &mut out, &sealed[split..]) {
        Some(out)
    } else {
        None
    }
}

/// Relies on libsecp256k1's `SecretKey::parse_slice`, which accepts exactly
/// the valid 32-byte scalars, and on `PublicKey::from_secret_key` with
/// `serialize_compressed`, a function of the key alone whose output parses
/// back as a public key.
#[verifier::external_body]
pub(crate) fn secp_pubkey(sk: &[u8]) -> (r: Option<Vec<u8>>)
    requires
        sk@.len() == 32,
    ensures
        r is Some <==> secp_sk_ok(sk@),
        r matches Some(p) ==> p@ == secp_pub_of(sk@) && p@.len() == 33 && secp_pk_wf(p@),
{
    match libsecp256k1::SecretKey::parse_slice(sk) {
        Ok(k) => Some(libsecp256k1::PublicKey::from_secret_key(&k).serialize_compressed().to_vec()),
        Err(_) => None,
    }
}

/// Relies on libsecp256k1's `SecretKey::tweak_add_assign`: succeeds exactly
/// when the tweak is a valid scalar and the sum is a valid secret key, and
/// then returns that sum.
#[verifier::external_body]
pub(crate) fn secp_tweak_add(sk: &[u8], tweak: &[u8]) -> (r: Option<Vec<u8>>)
    requires
        sk@.len() == 32,
        tweak@.len() == 32,
        secp_sk_ok(sk@),
    ensures
        r is Some <==> secp_tweak_ok(sk@, tweak@),
        r matches Some(k) ==> k@ == secp_tweak_of(sk@, tweak@) && k@.len() == 32 && secp_sk_ok(
            k@,
        ),
{
    let mut key = libsecp256k1::SecretKey::parse_slice(sk).ok()?;
    let t = libsecp256k1::SecretKey::parse_slice(tweak).ok()?;
    key.tweak_add_assign(&t).ok()?;
    Some(key.serialize().to_vec())
}

/// Relies on libsecp256k1's `sign`, which is deterministic (RFC6979), and
/// on `Signature::serialize`: a 64-byte compact signature that parses back,
/// a function of key and digest alone, and that `verify` accepts under the
/// matching public key.
#[verifier::external_body]
pub(crate) fn secp_sign(sk: &[u8], msg: &[u8]) -> (r: Option<Vec<u8>>)
    requires
        sk@.len() == 32,
        msg@.len() == 32,
    ensures
        r is Some <==> secp_sk_ok(sk@),
        r matches Some(s) ==> s@ == secp_sig_of(sk@, msg@) && s@.len() == 64 && secp_sig_wf(s@)
            && secp_verify_of(secp_pub_of(sk@), msg@, s@),
{
    let key = libsecp256k1::SecretKey::parse_slice(sk).ok()?;
    let m = libsecp256k1::Message::parse_slice(msg).ok()?;
    let (sig, _) = libsecp256k1::sign(&m, &key);
    Some(sig.serialize().to_vec())
}

/// Relies on libsecp256k1's `verify` and the parse functions around it:
/// parsing fails exactly on malformed inputs, and the verdict is a function
/// of public key, digest and signature alone.
#[verifier::external_body]
pub(crate) fn secp_verify(pk: &[u8], msg: &[u8], sig: &[u8]) -> (r: Option<bool>)
    requires
        msg@.len() == 32,
    ensures
        r is Some <==> (secp_pk_wf(pk@) && secp_sig_wf(sig@)),
        r matches Some(b) ==> b == secp_verify_of(pk@, msg@, sig@),
{
    let key = libsecp256k1::PublicKey::parse_slice(pk, None).ok()?;
    let s = libsecp256k1::Signature::parse_standard_slice(sig).ok()?;
    let m = libsecp256k1::Message::parse_slice(msg).ok()?;
    Some(libsecp256k1::verify(&m, &s, &key))
}

/// Relies on rand's `OsRng`: fills a buffer from the operating system's
/// entropy source or reports that source's failure.
#[verifier::external_body]
pub(crate) fn os_random_bytes(len: usize) -> (r: Option<Vec<u8>>)
    ensures
        r matches Some(b) ==> b@.len() == len,
{
    let mut buf = vec![0u8; len];
    match rand::rngs::OsRng.try_fill_bytes(&mut buf) {
        Ok(()) => Some(buf),
        Err(_) => None,
    }
}

} // verus!
