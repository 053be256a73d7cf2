use vstd::prelude::*;
use crate::bytes::{push_u32_be, u32_be_bytes};
use crate::crypto::{
    hmac_sha512, hmac_sha512_of, secp_pk_wf, secp_pub_of, secp_pubkey, secp_sig_of, secp_sig_wf,
    secp_sign, secp_sk_ok, secp_tweak_add, secp_tweak_of, secp_tweak_ok, secp_verify,
    secp_verify_of, sha256, sha256_of,
};
use crate::data::copy_range;
use crate::error::{KeyError, KeyPathError};
use crate::key_path::{KeyPath, BIP44_PURPOSE, BIP44_SOFT_UPPER_BOUND};
use crate::network::{Network, ETHEREUM_CODE};

verus! {

/// The tag string BIP32 feeds HMAC-SHA-512 to turn a seed into a master
/// key, as bytes.
pub open spec fn master_key_tag() -> Seq<u8> {
    seq![0x42u8, 0x69, 0x74, 0x63, 0x6f, 0x69, 0x6e, 0x20, 0x73, 0x65, 0x65, 0x64]
}

fn master_key_tag_bytes() -> (r: Vec<u8>)
    ensures
        r@ == master_key_tag(),
{
    let mut v: Vec<u8> = Vec::new();
    v.push(0x42);
    v.push(0x69);
    v.push(0x74);
    v.push(0x63);
    v.push(0x6f);
    v.push(0x69);
    v.push(0x6e);
    v.push(0x20);
    v.push(0x73);
    v.push(0x65);
    v.push(0x65);
    v.push(0x64);
    proof {
        assert(v@ =~= master_key_tag());
    }
    v
}

/// The bytes BIP32 feeds HMAC-SHA-512 for one child derivation: the parent
/// key (hardened) or its public key (soft), then the index, big-endian.
pub open spec fn spec_ckd_data(key: Seq<u8>, index: u32) -> Seq<u8> {
    if index >= BIP44_SOFT_UPPER_BOUND {
        seq![0u8] + key + u32_be_bytes(index)
    } else {
        secp_pub_of(key) + u32_be_bytes(index)
    }
}

/// Whether one child derivation step succeeds in the curve arithmetic.
pub open spec fn spec_ckd_ok(key: Seq<u8>, cc: Seq<u8>, index: u32) -> bool {
    secp_tweak_ok(key, hmac_sha512_of(cc, spec_ckd_data(key, index)).take(32))
}

/// The child private key of one derivation step.
pub open spec fn spec_ckd_key(key: Seq<u8>, cc: Seq<u8>, index: u32) -> Seq<u8> {
    secp_tweak_of(key, hmac_sha512_of(cc, spec_ckd_data(key, index)).take(32))
}

/// The child chain code of one derivation step.
pub open spec fn spec_ckd_cc(key: Seq<u8>, cc: Seq<u8>, index: u32) -> Seq<u8> {
    hmac_sha512_of(cc, spec_ckd_data(key, index)).skip(32)
}

/// One BIP32 child-derivation step.
fn derive_child(key: &Vec<u8>, cc: &Vec<u8>, index: u32) -> (r: Result<
    (Vec<u8>, Vec<u8>),
    KeyError,
>)
    requires
        key@.len() == 32,
        cc@.len() == 32,
        secp_sk_ok(key@),
    ensures
        match r {
            Ok(kc) => spec_ckd_ok(key@, cc@, index) && kc.0@ == spec_ckd_key(key@, cc@, index)
                && kc.1@ == spec_ckd_cc(key@, cc@, index) && kc.0@.len() == 32 && kc.1@.len()
                == 32 && secp_sk_ok(kc.0@),
            Err(e) => !spec_ckd_ok(key@, cc@, index) && e == KeyError::DeriveFailed,
        },
{
    let mut data: Vec<u8> = Vec::new();
    if index >= BIP44_SOFT_UPPER_BOUND {
        data.push(0u8);
        data.extend_from_slice(key.as_slice());
    } else {
        match secp_pubkey(key.as_slice()) {
            Some(pk) => data.extend_from_slice(pk.as_slice()),
            None => {
                proof {
                    assert(false);
                }
                return Err(KeyError::DeriveFailed);
            },
        }
    }
    push_u32_be(&mut data, index);
    proof {
        assert(data@ =~= spec_ckd_data(key@, index));
    }
    let i = hmac_sha512(cc.as_slice(), data.as_slice());
    let il = copy_range(&i, 0, 32);
    let ir = copy_range(&i, 32, 64);
    proof {
        assert(il@ =~= hmac_sha512_of(cc@, spec_ckd_data(key@, index)).take(32));
        assert(ir@ =~= hmac_sha512_of(cc@, spec_ckd_data(key@, index)).skip(32));
    }
    match secp_tweak_add(key.as_slice(), il.as_slice()) {
        Some(k) => Ok((k, ir)),
        None => Err(KeyError::DeriveFailed),
    }
}

/// The serialized master extended key of a seed: the 64-byte HMAC output,
/// private key then chain code; or why the seed is rejected.
pub open spec fn spec_data_from_seed(seed: Seq<u8>) -> Result<Seq<u8>, KeyError> {
    if seed.len() < 16 || seed.len() > 64 {
        Err(KeyError::InvalidSeedSize(seed.len() as usize))
    } else {
        let i = hmac_sha512_of(master_key_tag(), seed);
        if secp_sk_ok(i.take(32)) {
            Ok(i)
        } else {
            Err(KeyError::InvalidData)
        }
    }
}

/// What reconstructing a key from 64 serialized master-key bytes yields:
/// the extended key two fixed hardened steps down, at purpose then coin
/// level, or why the bytes are rejected.
pub open spec fn spec_from_data(data: Seq<u8>) -> Result<(Seq<u8>, Seq<u8>), KeyError> {
    if data.len() != 64 || !secp_sk_ok(data.take(32)) {
        Err(KeyError::InvalidData)
    } else {
        let mk = data.take(32);
        let mc = data.skip(32);
        if !spec_ckd_ok(mk, mc, BIP44_PURPOSE) {
            Err(KeyError::DeriveFailed)
        } else {
            let pk = spec_ckd_key(mk, mc, BIP44_PURPOSE);
            let pc = spec_ckd_cc(mk, mc, BIP44_PURPOSE);
            if !spec_ckd_ok(pk, pc, ETHEREUM_CODE) {
                Err(KeyError::DeriveFailed)
            } else {
                Ok((spec_ckd_key(pk, pc, ETHEREUM_CODE), spec_ckd_cc(pk, pc, ETHEREUM_CODE)))
            }
        }
    }
}

/// The extended private key a path names below an extended key at the
/// purpose/coin level: hardened account, then change, then address index,
/// in that fixed order; or why the path is rejected.
pub open spec fn spec_derive_xprv(k: Seq<u8>, c: Seq<u8>, path: KeyPath) -> Result<
    (Seq<u8>, Seq<u8>),
    KeyError,
> {
    if path.spec_purpose() != BIP44_PURPOSE {
        Err(KeyError::Path(KeyPathError::InvalidPurpose(path.spec_purpose(), BIP44_PURPOSE)))
    } else if path.spec_coin() != ETHEREUM_CODE {
        Err(KeyError::Path(KeyPathError::InvalidCoin(path.spec_coin(), ETHEREUM_CODE)))
    } else if path.spec_account() >= BIP44_SOFT_UPPER_BOUND {
        Err(KeyError::Path(KeyPathError::InvalidAccount(path.spec_account())))
    } else if path.spec_change() != 0 && path.spec_change() != 1 {
        Err(KeyError::Path(KeyPathError::InvalidChange(path.spec_change())))
    } else if path.spec_address() >= BIP44_SOFT_UPPER_BOUND {
        Err(KeyError::Path(KeyPathError::InvalidAddress(path.spec_address())))
    } else {
        let account = (path.spec_account() + BIP44_SOFT_UPPER_BOUND) as u32;
        if !spec_ckd_ok(k, c, account) {
            Err(KeyError::DeriveFailed)
        } else {
            let ak = spec_ckd_key(k, c, account);
            let ac = spec_ckd_cc(k, c, account);
            if !spec_ckd_ok(ak, ac, path.spec_change()) {
                Err(KeyError::DeriveFailed)
            } else {
                let hk = spec_ckd_key(ak, ac, path.spec_change());
                let hc = spec_ckd_cc(ak, ac, path.spec_change());
                if !spec_ckd_ok(hk, hc, path.spec_address()) {
                    Err(KeyError::DeriveFailed)
                } else {
                    Ok(
                        (
                            spec_ckd_key(hk, hc, path.spec_address()),
                            spec_ckd_cc(hk, hc, path.spec_address()),
                        ),
                    )
                }
            }
        }
    }
}

/// The serialized public key a path names below an extended key.
pub open spec fn spec_pub_key_of(k: Seq<u8>, c: Seq<u8>, path: KeyPath) -> Result<
    Seq<u8>,
    KeyError,
> {
    match spec_derive_xprv(k, c, path) {
        Ok(kc) => Ok(secp_pub_of(kc.0)),
        Err(e) => Err(e),
    }
}

/// The signature over the SHA-256 digest of `data` under the key a path
/// names below an extended key.
pub open spec fn spec_sign_of(k: Seq<u8>, c: Seq<u8>, data: Seq<u8>, path: KeyPath) -> Result<
    Seq<u8>,
    KeyError,
> {
    match spec_derive_xprv(k, c, path) {
        Ok(kc) => Ok(secp_sig_of(kc.0, sha256_of(data))),
        Err(e) => Err(e),
    }
}

/// The verification verdict for a signature under the key a path names
/// below an extended key; unparseable signature bytes are an error.
pub open spec fn spec_verify_with(
    k: Seq<u8>,
    c: Seq<u8>,
    data: Seq<u8>,
    signature: Seq<u8>,
    path: KeyPath,
) -> Result<bool, KeyError> {
    match spec_derive_xprv(k, c, path) {
        Ok(kc) => if secp_sig_wf(signature) {
            Ok(secp_verify_of(secp_pub_of(kc.0), sha256_of(data), signature))
        } else {
            Err(KeyError::InvalidSignature)
        },
        Err(e) => Err(e),
    }
}

/// The Ethereum key: one extended private key at the fixed purpose/coin
/// level of the BIP44 tree. Account, change and address steps are derived
/// from it afresh for every operation, and the raw key bytes never leave
/// this module.
#[derive(Debug)]
pub struct Key {
    key: Vec<u8>,
    chain_code: Vec<u8>,
}

impl Key {
    pub closed spec fn wf(self) -> bool {
        self.key@.len() == 32 && self.chain_code@.len() == 32 && secp_sk_ok(self.key@)
    }

    pub closed spec fn spec_key(self) -> Seq<u8> {
        self.key@
    }

    pub closed spec fn spec_chain_code(self) -> Seq<u8> {
        self.chain_code@
    }

    /// Reconstructs a key from serialized master-key bytes, deriving the
    /// fixed purpose and coin steps.
    pub fn from_data(data: &Vec<u8>) -> (r: Result<Key, KeyError>)
        ensures
            match r {
                Ok(k) => spec_from_data(data@) == Ok::<(Seq<u8>, Seq<u8>), KeyError>(
                    (k.spec_key(), k.spec_chain_code()),
                ) && k.wf(),
                Err(e) => spec_from_data(data@) == Err::<(Seq<u8>, Seq<u8>), KeyError>(e),
            },
    {
        if data.len() != 64 {
            return Err(KeyError::InvalidData);
        }
        let mk = copy_range(data, 0, 32);
        let mc = copy_range(data, 32, 64);
        proof {
            assert(mk@ =~= data@.take(32));
            assert(mc@ =~= data@.skip(32));
        }
        if secp_pubkey(mk.as_slice()).is_none() {
            return Err(KeyError::InvalidData);
        }
        let (pk, pc) = match derive_child(&mk, &mc, BIP44_PURPOSE) {
            Ok(kc) => kc,
            Err(e) => {
                return Err(e);
            },
        };
        let (ck, cc) = match derive_child(&pk, &pc, ETHEREUM_CODE) {
            Ok(kc) => kc,
            Err(e) => {
                return Err(e);
            },
        };
        Ok(Key { key: ck, chain_code: cc })
    }

    /// Derives a seed's serialized master-key bytes, fit for storage and
    /// for `from_data`.
    pub fn data_from_seed(seed: &Vec<u8>) -> (r: Result<Vec<u8>, KeyError>)
        ensures
            match r {
                Ok(d) => spec_data_from_seed(seed@) == Ok::<Seq<u8>, KeyError>(d@) && d@.len()
                    == 64,
                Err(e) => spec_data_from_seed(seed@) == Err::<Seq<u8>, KeyError>(e),
            },
    {
        let n = seed.len();
        if n < 16 || n > 64 {
            return Err(KeyError::InvalidSeedSize(n));
        }
        let tag = master_key_tag_bytes();
        let i = hmac_sha512(tag.as_slice(), seed.as_slice());
        let il = copy_range(&i, 0, 32);
        proof {
            assert(il@ =~= i@.take(32));
        }
        if secp_pubkey(il.as_slice()).is_none() {
            return Err(KeyError::InvalidData);
        }
        Ok(i)
    }

    /// The network this key belongs to.
    pub fn network(&self) -> (r: Network)
        ensures
            r.spec_code() == ETHEREUM_CODE,
    {
        Network::ethereum()
    }

    /// The extended private key a path names, re-derived from this key's
    /// level; or why the path is rejected.
    pub open spec fn spec_derive_private(self, path: KeyPath) -> Result<
        (Seq<u8>, Seq<u8>),
        KeyError,
    > {
        spec_derive_xprv(self.spec_key(), self.spec_chain_code(), path)
    }

    fn derive_private(&self, path: &KeyPath) -> (r: Result<(Vec<u8>, Vec<u8>), KeyError>)
        requires
            self.wf(),
        ensures
            match r {
                Ok(kc) => self.spec_derive_private(*path) == Ok::<(Seq<u8>, Seq<u8>), KeyError>(
                    (kc.0@, kc.1@),
                ) && kc.0@.len() == 32 && kc.1@.len() == 32 && secp_sk_ok(kc.0@),
                Err(e) => self.spec_derive_private(*path) == Err::<(Seq<u8>, Seq<u8>), KeyError>(
                    e,
                ),
            },
    {
        if path.purpose() != BIP44_PURPOSE {
            return Err(KeyError::Path(KeyPathError::InvalidPurpose(path.purpose(), BIP44_PURPOSE)));
        }
        if path.coin() != ETHEREUM_CODE {
            return Err(KeyError::Path(KeyPathError::InvalidCoin(path.coin(), ETHEREUM_CODE)));
        }
        if path.account() >= BIP44_SOFT_UPPER_BOUND {
            return Err(KeyError::Path(KeyPathError::InvalidAccount(path.account())));
        }
        if path.change() != 0 && path.change() != 1 {
            return Err(KeyError::Path(KeyPathError::InvalidChange(path.change())));
        }
        if path.address() >= BIP44_SOFT_UPPER_BOUND {
            return Err(KeyError::Path(KeyPathError::InvalidAddress(path.address())));
        }
        let account = path.account() + BIP44_SOFT_UPPER_BOUND;
        let (ak, ac) = match derive_child(&self.key, &self.chain_code, account) {
            Ok(kc) => kc,
            Err(e) => {
                return Err(e);
            },
        };
        let (hk, hc) = match derive_child(&ak, &ac, path.change()) {
            Ok(kc) => kc,
            Err(e) => {
                return Err(e);
            },
        };
        match derive_child(&hk, &hc, path.address()) {
            Ok(kc) => Ok(kc),
            Err(e) => Err(e),
        }
    }

    /// The serialized public key a path names.
    pub open spec fn spec_pub_key(self, path: KeyPath) -> Result<Seq<u8>, KeyError> {
        spec_pub_key_of(self.spec_key(), self.spec_chain_code(), path)
    }

    pub fn pub_key(&self, path: &KeyPath) -> (r: Result<Vec<u8>, KeyError>)
        requires
            self.wf(),
        ensures
            match r {
                Ok(p) => self.spec_pub_key(*path) == Ok::<Seq<u8>, KeyError>(p@) && p@.len()
                    == 33,
                Err(e) => self.spec_pub_key(*path) == Err::<Seq<u8>, KeyError>(e),
            },
    {
        let (k, _c) = match self.derive_private(path) {
            Ok(kc) => kc,
            Err(e) => {
                return Err(e);
            },
        };
        match secp_pubkey(k.as_slice()) {
            Some(p) => Ok(p),
            None => {
                proof {
                    assert(false);
                }
                Err(KeyError::InvalidData)
            },
        }
    }

    /// The signature over the SHA-256 digest of `data` under the key a
    /// path names.
    pub open spec fn spec_sign(self, data: Seq<u8>, path: KeyPath) -> Result<Seq<u8>, KeyError> {
        spec_sign_of(self.spec_key(), self.spec_chain_code(), data, path)
    }

    pub fn sign(&self, data: &Vec<u8>, path: &KeyPath) -> (r: Result<Vec<u8>, KeyError>)
        requires
            self.wf(),
        ensures
            match r {
                Ok(s) => self.spec_sign(data@, *path) == Ok::<Seq<u8>, KeyError>(s@) && s@.len()
                    == 64 && secp_sig_wf(s@) && (self.spec_derive_private(*path) matches Ok(kc)
                    && secp_verify_of(secp_pub_of(kc.0), sha256_of(data@), s@)),
                Err(e) => self.spec_sign(data@, *path) == Err::<Seq<u8>, KeyError>(e),
            },
    {
        let (k, _c) = match self.derive_private(path) {
            Ok(kc) => kc,
            Err(e) => {
                return Err(e);
            },
        };
        let digest = sha256(data.as_slice());
        match secp_sign(k.as_slice(), digest.as_slice()) {
            Some(s) => Ok(s),
            None => {
                proof {
                    assert(false);
                }
                Err(KeyError::InvalidData)
            },
        }
    }

    /// The verification verdict for a signature over the SHA-256 digest of
    /// `data` under the key a path names; signature bytes the curve
    /// library cannot parse are an error, not a `false`.
    pub open spec fn spec_verify(self, data: Seq<u8>, signature: Seq<u8>, path: KeyPath) -> Result<
        bool,
        KeyError,
    > {
        spec_verify_with(self.spec_key(), self.spec_chain_code(), data, signature, path)
    }

    pub fn verify(&self, data: &Vec<u8>, signature: &Vec<u8>, path: &KeyPath) -> (r: Result<
        bool,
        KeyError,
    >)
        requires
            self.wf(),
        ensures
            match r {
                Ok(b) => self.spec_verify(data@, signature@, *path) == Ok::<bool, KeyError>(b),
                Err(e) => self.spec_verify(data@, signature@, *path) == Err::<bool, KeyError>(e),
            },
    {
        let (k, _c) = match self.derive_private(path) {
            Ok(kc) => kc,
            Err(e) => {
                return Err(e);
            },
        };
        let pk = match secp_pubkey(k.as_slice()) {
            Some(p) => p,
            None => {
                proof {
                    assert(false);
                }
                return Err(KeyError::InvalidData);
            },
        };
        let digest = sha256(data.as_slice());
        match secp_verify(pk.as_slice(), digest.as_slice(), signature.as_slice()) {
            Some(b) => Ok(b),
            None => Err(KeyError::InvalidSignature),
        }
    }
}

} // verus!
