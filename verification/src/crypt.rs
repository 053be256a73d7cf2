use vstd::prelude::*;
use crate::bytes::{push_u32_le, read_u32_le, u32_from_le, u32_le_bytes};
use crate::crypto::{
    chacha20poly1305_open, chacha20poly1305_seal, chacha_ct_of, chacha_pt_of, chacha_tag_of,
    pbkdf2_sha512, pbkdf2_sha512_of,
};
use crate::data::copy_range;
use crate::error::Error;

verus! {

/// Version tag of the persisted blob format.
pub const CRYPT_VERSION: u32 = 1;

/// PBKDF2 rounds used to stretch a password into a cipher key.
pub const KDF_ITERATIONS: u32 = 4096;

/// Byte length of the random salt stored in each blob.
pub const SALT_LEN: usize = 16;

/// Byte length of the random nonce stored in each blob.
pub const NONCE_LEN: usize = 12;

/// Shortest well-formed blob: version, salt, nonce and a tag around an
/// empty ciphertext.
pub const MIN_BLOB_LEN: usize = 48;

/// The 32-byte cipher key stretched from a password and salt.
pub open spec fn spec_kdf(password: Seq<u8>, salt: Seq<u8>) -> Seq<u8> {
    pbkdf2_sha512_of(password, salt, KDF_ITERATIONS).take(32)
}

/// The self-describing encrypted blob: version, salt, nonce, ciphertext,
/// tag. Everything before the ciphertext is plaintext metadata; only the
/// password is needed to decrypt.
pub open spec fn crypt_blob_of(
    password: Seq<u8>,
    salt: Seq<u8>,
    nonce: Seq<u8>,
    data: Seq<u8>,
) -> Seq<u8> {
    let key = spec_kdf(password, salt);
    let ct = chacha_ct_of(key, nonce, data);
    u32_le_bytes(CRYPT_VERSION) + salt + nonce + ct + chacha_tag_of(key, nonce, ct)
}

pub open spec fn blob_salt(blob: Seq<u8>) -> Seq<u8> {
    blob.subrange(4, 20)
}

pub open spec fn blob_nonce(blob: Seq<u8>) -> Seq<u8> {
    blob.subrange(20, 32)
}

pub open spec fn blob_ct(blob: Seq<u8>) -> Seq<u8> {
    blob.subrange(32, blob.len() - 16)
}

pub open spec fn blob_tag(blob: Seq<u8>) -> Seq<u8> {
    blob.subrange(blob.len() - 16, blob.len() as int)
}

/// What decrypting a blob under a password yields: too few bytes, a wrong
/// version, an integrity failure (the wrong-password signal), or the
/// decrypted plaintext.
pub open spec fn spec_decrypt(blob: Seq<u8>, password: Seq<u8>) -> Result<Seq<u8>, Error> {
    if blob.len() < MIN_BLOB_LEN {
        Err(Error::NotEnoughData)
    } else if u32_from_le(blob.subrange(0, 4)) != CRYPT_VERSION {
        Err(Error::DataError)
    } else {
        let key = spec_kdf(password, blob_salt(blob));
        if blob_tag(blob) != chacha_tag_of(key, blob_nonce(blob), blob_ct(blob)) {
            Err(Error::WrongPassword)
        } else {
            Ok(chacha_pt_of(key, blob_nonce(blob), blob_ct(blob)))
        }
    }
}

/// Stretches a password and salt into the 32-byte cipher key.
fn derive_key(password: &Vec<u8>, salt: &Vec<u8>) -> (r: Vec<u8>)
    ensures
        r@ == spec_kdf(password@, salt@),
        r@.len() == 32,
{
    let mut out = pbkdf2_sha512(password.as_slice(), salt.as_slice(), KDF_ITERATIONS);
    out.truncate(32);
    proof {
        assert(out@ =~= pbkdf2_sha512_of(password@, salt@, KDF_ITERATIONS).take(32));
    }
    out
}

/// Encrypts `data` under `password` with the given fresh salt and nonce,
/// producing a blob that decrypts back to `data` under the same password.
pub(crate) fn encrypt(data: &Vec<u8>, password: &Vec<u8>, salt: &Vec<u8>, nonce: &Vec<u8>) -> (r:
    Vec<u8>)
    requires
        salt@.len() == SALT_LEN,
        nonce@.len() == NONCE_LEN,
    ensures
        r@ == crypt_blob_of(password@, salt@, nonce@, data@),
        spec_decrypt(r@, password@) == Ok::<Seq<u8>, Error>(data@),
{
    let key = derive_key(password, salt);
    let sealed = chacha20poly1305_seal(key.as_slice(), nonce.as_slice(), data.as_slice());
    let mut out: Vec<u8> = Vec::new();
    push_u32_le(&mut out, CRYPT_VERSION);
    out.extend_from_slice(salt.as_slice());
    out.extend_from_slice(nonce.as_slice());
    out.extend_from_slice(sealed.as_slice());
    proof {
        let blob = out@;
        let ct = chacha_ct_of(key@, nonce@, data@);
        assert(sealed@.subrange(0, data@.len() as int) == ct);
        assert(ct.len() == data@.len());
        assert(blob =~= crypt_blob_of(password@, salt@, nonce@, data@));
        assert(blob.len() == 48 + data@.len());
        assert(blob.subrange(0, 4) =~= u32_le_bytes(CRYPT_VERSION));
        crate::bytes::lemma_u32_le_roundtrip(CRYPT_VERSION);
        assert(blob_salt(blob) =~= salt@);
        assert(blob_nonce(blob) =~= nonce@);
        assert(blob_ct(blob) =~= ct);
        assert(blob_tag(blob) =~= chacha_tag_of(key@, nonce@, ct));
    }
    out
}

/// Decrypts a blob with a password. A short blob is `NotEnoughData`, an
/// unknown version is `DataError`, a failed integrity check is
/// `WrongPassword`, and otherwise the plaintext comes back.
pub(crate) fn decrypt(blob: &Vec<u8>, password: &Vec<u8>) -> (r: Result<Vec<u8>, Error>)
    ensures
        match r {
            Ok(m) => spec_decrypt(blob@, password@) == Ok::<Seq<u8>, Error>(m@),
            Err(e) => spec_decrypt(blob@, password@) == Err::<Seq<u8>, Error>(e),
        },
{
    let n = blob.len();
    if n < MIN_BLOB_LEN {
        return Err(Error::NotEnoughData);
    }
    if read_u32_le(blob, 0) != CRYPT_VERSION {
        return Err(Error::DataError);
    }
    let salt = copy_range(blob, 4, 20);
    let nonce = copy_range(blob, 20, 32);
    let sealed = copy_range(blob, 32, n);
    let key = derive_key(password, &salt);
    proof {
        assert(sealed@.subrange(0, sealed@.len() - 16) =~= blob_ct(blob@));
        assert(sealed@.subrange(sealed@.len() - 16, sealed@.len() as int) =~= blob_tag(blob@));
    }
    match chacha20poly1305_open(key.as_slice(), nonce.as_slice(), sealed.as_slice()) {
        Some(m) => Ok(m),
        None => Err(Error::WrongPassword),
    }
}

} // verus!
