use vstd::prelude::*;
use crate::crypt::{encrypt, decrypt, spec_decrypt, NONCE_LEN, SALT_LEN};
use crate::crypto::os_random_bytes;
use crate::data::{
    copy_range, decode_entries, encode_entries, entries_view, lemma_decode_encode, spec_decode,
    spec_encode,
};
use crate::error::{Error, KeyError};
use crate::key::Key;
use crate::key_path::KeyPath;
use crate::keychain::{entry_wf, Entry, Keychain};
use crate::mnemonic::{seed_of, to_seed};
use crate::network::{Network, ETHEREUM_CODE};
use crate::networks::ethereum;

verus! {

/// Whether decrypted keychain entries can be loaded: every network code
/// supported, no code twice, every key material readable.
pub open spec fn spec_entries_loadable(es: Seq<(u32, Seq<u8>)>) -> bool {
    &&& forall|i: int|
        0 <= i < es.len() ==> ((#[trigger] es[i]).0 == ETHEREUM_CODE && ethereum::spec_from_data(
            es[i].1,
        ) is Ok)
    &&& forall|i: int, j: int| 0 <= i < j < es.len() ==> es[i].0 != es[j].0
}

/// Orchestrates the keychain's encrypted-storage lifecycle: build from a
/// seed, persist under a password, load back, and route per-network key
/// operations. Raw private key bytes never cross this interface.
#[derive(Debug)]
pub struct KeychainManager {
    keychain: Keychain,
}

impl KeychainManager {
    pub closed spec fn spec_keychain(self) -> Keychain {
        self.keychain
    }

    pub open spec fn wf(self) -> bool {
        self.spec_keychain().wf()
    }

    /// The persisted view: each held network's code with its key material.
    pub open spec fn spec_data_view(self) -> Seq<(u32, Seq<u8>)> {
        self.spec_keychain().spec_data_view()
    }

    pub open spec fn spec_has(self, network: Network) -> bool {
        self.spec_keychain().spec_has_code(network.spec_code())
    }

    pub open spec fn spec_data_for(self, network: Network) -> Seq<u8> {
        self.spec_keychain().spec_data_for(network.spec_code())
    }

    /// The extended key pair at purpose/coin level for a held network,
    /// a function of that network's stored key material alone.
    pub open spec fn spec_xprv_for(self, network: Network) -> (Seq<u8>, Seq<u8>) {
        match ethereum::spec_from_data(self.spec_data_for(network)) {
            Ok(kc) => kc,
            Err(_) => (Seq::empty(), Seq::empty()),
        }
    }

    /// What `pub_key` returns for a held network.
    pub open spec fn spec_pub_key_result(self, network: Network, path: KeyPath) -> Result<
        Seq<u8>,
        KeyError,
    > {
        ethereum::spec_pub_key_of(
            self.spec_xprv_for(network).0,
            self.spec_xprv_for(network).1,
            path,
        )
    }

    /// What `sign` returns for a held network.
    pub open spec fn spec_sign_result(self, network: Network, data: Seq<u8>, path: KeyPath) -> Result<
        Seq<u8>,
        KeyError,
    > {
        ethereum::spec_sign_of(
            self.spec_xprv_for(network).0,
            self.spec_xprv_for(network).1,
            data,
            path,
        )
    }

    /// What `verify` returns for a held network.
    pub open spec fn spec_verify_result(
        self,
        network: Network,
        data: Seq<u8>,
        signature: Seq<u8>,
        path: KeyPath,
    ) -> Result<bool, KeyError> {
        ethereum::spec_verify_with(
            self.spec_xprv_for(network).0,
            self.spec_xprv_for(network).1,
            data,
            signature,
            path,
        )
    }

    /// Builds a keychain holding one key per requested network, each
    /// derived from the seed.
    pub fn from_seed(seed: &Vec<u8>, networks: &Vec<Network>) -> (r: Result<
        KeychainManager,
        Error,
    >)
        requires
            forall|i: int|
                0 <= i < networks@.len() ==> (#[trigger] networks@[i]).spec_code()
                    == ETHEREUM_CODE,
        ensures
            r is Ok <==> (networks@.len() == 0 || (ethereum::spec_data_from_seed(seed@) matches Ok(
                d,
            ) && ethereum::spec_from_data(d) is Ok)),
            match r {
                Ok(m) => {
                    &&& m.wf()
                    &&& forall|i: int|
                        0 <= i < networks@.len() ==> m.spec_has(#[trigger] networks@[i])
                    &&& forall|c: u32|
                        #[trigger] m.spec_keychain().spec_has_code(c) ==> exists|i: int|
                            0 <= i < networks@.len() && (#[trigger] networks@[i]).spec_code()
                                == c
                    &&& forall|i: int|
                        0 <= i < networks@.len() ==> ethereum::spec_data_from_seed(seed@)
                            == Ok::<Seq<u8>, KeyError>(m.spec_data_for(#[trigger] networks@[i]))
                },
                Err(e) => networks@.len() > 0 && match ethereum::spec_data_from_seed(seed@) {
                    Err(ke) => e == Error::KeyError(networks@[0], ke),
                    Ok(d) => ethereum::spec_from_data(d) matches Err(ke) && e == Error::KeyError(
                        networks@[0],
                        ke,
                    ),
                },
            },
    {
        let mut kc = Keychain::new();
        let mut i: usize = 0;
        while i < networks.len()
            invariant
                forall|k: int|
                    0 <= k < networks@.len() ==> (#[trigger] networks@[k]).spec_code()
                        == ETHEREUM_CODE,
                i <= networks@.len(),
                kc.wf(),
                kc.spec_entries().len() <= 1,
                forall|k: int|
                    0 <= k < i ==> kc.spec_has_code((#[trigger] networks@[k]).spec_code()),
                forall|c: u32|
                    #[trigger] kc.spec_has_code(c) ==> (i > 0 && c == ETHEREUM_CODE),
                i > 0 ==> networks@.len() > 0,
                forall|k: int|
                    0 <= k < i ==> ethereum::spec_data_from_seed(seed@) == Ok::<Seq<u8>, KeyError>(
                        kc.spec_data_for((#[trigger] networks@[k]).spec_code()),
                    ),
            decreases networks@.len() - i,
        {
            let network = networks[i];
            if !kc.has(&network) {
                let data = match Key::data_from_seed(&network, seed) {
                    Ok(d) => d,
                    Err(ke) => {
                        return Err(Error::from_key_error(&network, ke));
                    },
                };
                let key = match Key::from_data(&network, &data) {
                    Ok(k) => k,
                    Err(ke) => {
                        return Err(Error::from_key_error(&network, ke));
                    },
                };
                proof {
                    if kc.spec_entries().len() >= 1 {
                        assert(entry_wf(kc.spec_entries()[0]));
                        assert(kc.spec_has_code(ETHEREUM_CODE));
                        assert(false);
                    }
                }
                kc.add(network, data, key);
            }
            i = i + 1;
        }
        Ok(KeychainManager { keychain: kc })
    }

    /// Builds a keychain from a rendered mnemonic sentence and a seed
    /// passphrase: stretches the two into the seed, then derives one key
    /// per requested network.
    pub fn create(sentence: &Vec<u8>, passphrase: &Vec<u8>, networks: &Vec<Network>) -> (r:
        Result<KeychainManager, Error>)
        requires
            forall|i: int|
                0 <= i < networks@.len() ==> (#[trigger] networks@[i]).spec_code()
                    == ETHEREUM_CODE,
        ensures
            r is Ok <==> (networks@.len() == 0 || (ethereum::spec_data_from_seed(
                seed_of(sentence@, passphrase@),
            ) matches Ok(d) && ethereum::spec_from_data(d) is Ok)),
            r matches Ok(m) ==> m.wf() && (forall|i: int|
                0 <= i < networks@.len() ==> m.spec_has(#[trigger] networks@[i])) && (forall|
                i: int,
            |
                0 <= i < networks@.len() ==> ethereum::spec_data_from_seed(
                    seed_of(sentence@, passphrase@),
                ) == Ok::<Seq<u8>, KeyError>(m.spec_data_for(#[trigger] networks@[i]))),
    {
        let seed = to_seed(sentence, passphrase);
        KeychainManager::from_seed(&seed, networks)
    }

    /// The largest entropy size every requested network accepts, or
    /// `CantCalculateSeedSize` with the conflicting bounds when the
    /// networks constrain it to nothing — in particular when none are
    /// requested.
    pub fn entropy_size(networks: &Vec<Network>) -> (r: Result<usize, Error>)
        ensures
            networks@.len() == 0 ==> r == Err::<usize, Error>(Error::CantCalculateSeedSize(0, 0)),
            networks@.len() > 0 ==> r == Ok::<usize, Error>(32usize),
    {
        if networks.is_empty() {
            return Err(Error::CantCalculateSeedSize(0, 0));
        }
        let mut lo: usize = 0;
        let mut hi: usize = usize::MAX;
        let mut i: usize = 0;
        while i < networks.len()
            invariant
                i <= networks@.len(),
                i == 0 ==> lo == 0 && hi == usize::MAX,
                i > 0 ==> lo == 16 && hi == 32,
            decreases networks@.len() - i,
        {
            let (nlo, nhi) = networks[i].entropy_bounds();
            if nlo > lo {
                lo = nlo;
            }
            if nhi < hi {
                hi = nhi;
            }
            i = i + 1;
        }
        if lo > hi {
            Err(Error::CantCalculateSeedSize(lo, hi))
        } else {
            Ok(hi)
        }
    }

    /// Whether this manager holds a key for `network`.
    pub fn has_network(&self, network: &Network) -> (r: bool)
        requires
            self.wf(),
        ensures
            r == self.spec_has(*network),
    {
        self.keychain.has(network)
    }

    /// The networks this manager holds keys for.
    pub fn networks(&self) -> (r: Vec<Network>)
        requires
            self.wf(),
        ensures
            r@.len() == self.spec_data_view().len(),
            forall|i: int|
                0 <= i < r@.len() ==> (#[trigger] r@[i]).spec_code() == self.spec_data_view()[
                    i
                ].0,
    {
        let mut out: Vec<Network> = Vec::new();
        let mut i: usize = 0;
        while i < self.keychain.len()
            invariant
                self.wf(),
                i <= self.spec_data_view().len(),
                out@.len() == i,
                forall|k: int|
                    0 <= k < i ==> (#[trigger] out@[k]).spec_code() == self.spec_data_view()[
                        k
                    ].0,
            decreases self.spec_data_view().len() - i,
        {
            out.push(self.keychain.entry_at(i).network);
            i = i + 1;
        }
        out
    }

    /// The serialized public key a path names for a network's key;
    /// `KeyDoesNotExist` when the network is absent.
    pub fn pub_key(&self, network: &Network, path: &KeyPath) -> (r: Result<Vec<u8>, Error>)
        requires
            self.wf(),
        ensures
            !self.spec_has(*network) ==> r == Err::<Vec<u8>, Error>(
                Error::KeyDoesNotExist(*network),
            ),
            self.spec_has(*network) ==> match r {
                Ok(p) => self.spec_pub_key_result(*network, *path) == Ok::<Seq<u8>, KeyError>(p@)
                    && p@.len() == 33,
                Err(e) => self.spec_pub_key_result(*network, *path) matches Err(ke) && e
                    == Error::KeyError(*network, ke),
            },
    {
        match self.keychain.get(network) {
            None => Err(Error::KeyDoesNotExist(*network)),
            Some(key) => match key.pub_key(path) {
                Ok(p) => Ok(p),
                Err(ke) => Err(Error::from_key_error(network, ke)),
            },
        }
    }

    /// Signs `data` with the key a path names for a network's key;
    /// `KeyDoesNotExist` when the network is absent.
    pub fn sign(&self, network: &Network, data: &Vec<u8>, path: &KeyPath) -> (r: Result<
        Vec<u8>,
        Error,
    >)
        requires
            self.wf(),
        ensures
            !self.spec_has(*network) ==> r == Err::<Vec<u8>, Error>(
                Error::KeyDoesNotExist(*network),
            ),
            self.spec_has(*network) ==> match r {
                Ok(s) => self.spec_sign_result(*network, data@, *path) == Ok::<Seq<u8>, KeyError>(
                    s@,
                ) && s@.len() == 64 && self.spec_verify_result(*network, data@, s@, *path)
                    == Ok::<bool, KeyError>(true),
                Err(e) => self.spec_sign_result(*network, data@, *path) matches Err(ke) && e
                    == Error::KeyError(*network, ke),
            },
    {
        match self.keychain.get(network) {
            None => Err(Error::KeyDoesNotExist(*network)),
            Some(key) => match key.sign(data, path) {
                Ok(s) => Ok(s),
                Err(ke) => Err(Error::from_key_error(network, ke)),
            },
        }
    }

    /// Verifies a signature over `data` for the key a path names; a
    /// well-formed but non-matching signature is `Ok(false)`, not an error.
    pub fn verify(&self, network: &Network, data: &Vec<u8>, signature: &Vec<u8>, path: &KeyPath)
        -> (r: Result<bool, Error>)
        requires
            self.wf(),
        ensures
            !self.spec_has(*network) ==> r == Err::<bool, Error>(Error::KeyDoesNotExist(*network)),
            self.spec_has(*network) ==> match r {
                Ok(b) => self.spec_verify_result(*network, data@, signature@, *path) == Ok::<
                    bool,
                    KeyError,
                >(b),
                Err(e) => self.spec_verify_result(*network, data@, signature@, *path) matches Err(
                    ke,
                ) && e == Error::KeyError(*network, ke),
            },
    {
        match self.keychain.get(network) {
            None => Err(Error::KeyDoesNotExist(*network)),
            Some(key) => match key.verify(data, signature, path) {
                Ok(b) => Ok(b),
                Err(ke) => Err(Error::from_key_error(network, ke)),
            },
        }
    }

    /// Serializes the keychain and encrypts it under `password` with a
    /// fresh salt and nonce; the blob decrypts back to exactly this
    /// keychain's contents under the same password.
    pub fn save(&self, password: &Vec<u8>) -> (r: Result<Vec<u8>, Error>)
        requires
            self.wf(),
        ensures
            match r {
                Ok(b) => spec_decrypt(b@, password@) == Ok::<Seq<u8>, Error>(
                    spec_encode(self.spec_data_view()),
                ) && spec_decode(spec_encode(self.spec_data_view())) == Some(
                    self.spec_data_view(),
                ),
                Err(e) => e == Error::EntropyGeneratorError,
            },
    {
        let mut flat: Vec<(u32, Vec<u8>)> = Vec::new();
        let mut i: usize = 0;
        while i < self.keychain.len()
            invariant
                self.wf(),
                i <= self.spec_data_view().len(),
                flat@.len() == i,
                forall|k: int|
                    0 <= k < i ==> (#[trigger] flat@[k]).0 == self.spec_data_view()[k].0
                        && flat@[k].1@ == self.spec_data_view()[k].1,
            decreases self.spec_data_view().len() - i,
        {
            let e = self.keychain.entry_at(i);
            let data = copy_range(&e.data, 0, e.data.len());
            proof {
                assert(data@ =~= e.data@);
            }
            flat.push((e.network.code(), data));
            i = i + 1;
        }
        proof {
            assert forall|k: int|
                0 <= k < flat@.len() implies entries_view(flat@)[k] == self.spec_data_view()[
                k
            ] by {
                assert(entries_view(flat@)[k] == (flat@[k].0, flat@[k].1@));
            }
            assert(entries_view(flat@) =~= self.spec_data_view());
            assert forall|k: int| 0 <= k < flat@.len() implies #[trigger] flat@[k].1@.len()
                <= 0xffff_ffff by {
                assert(entry_wf(self.spec_keychain().spec_entries()[k]));
            }
        }
        let pt = encode_entries(&flat);
        let salt = match os_random_bytes(SALT_LEN) {
            Some(s) => s,
            None => {
                return Err(Error::EntropyGeneratorError);
            },
        };
        let nonce = match os_random_bytes(NONCE_LEN) {
            Some(n) => n,
            None => {
                return Err(Error::EntropyGeneratorError);
            },
        };
        let blob = encrypt(&pt, password, &salt, &nonce);
        proof {
            lemma_decode_encode(self.spec_data_view());
        }
        Ok(blob)
    }

    /// Decrypts a persisted blob and rebuilds the keychain it holds. A
    /// wrong password is `WrongPassword`; malformed plaintext is
    /// `DataError`, never a partial keychain.
    pub fn load(data: &Vec<u8>, password: &Vec<u8>) -> (r: Result<KeychainManager, Error>)
        ensures
            r is Ok <==> (spec_decrypt(data@, password@) matches Ok(pt) && spec_decode(
                pt,
            ) matches Some(es) && spec_entries_loadable(es)),
            match r {
                Ok(m) => m.wf() && (spec_decrypt(data@, password@) matches Ok(pt) && spec_decode(
                    pt,
                ) matches Some(es) && m.spec_data_view() == es),
                Err(e) => match spec_decrypt(data@, password@) {
                    Err(e2) => e == e2,
                    Ok(pt) => match spec_decode(pt) {
                        None => e == Error::DataError,
                        Some(es) => !spec_entries_loadable(es) && (e == Error::DataError || (
                        e matches Error::KeyError(n, ke) && n.spec_code() == ETHEREUM_CODE
                            && exists|i: int|
                            0 <= i < es.len() && ethereum::spec_from_data(
                                (#[trigger] es[i]).1,
                            ) == Err::<(Seq<u8>, Seq<u8>), KeyError>(ke))),
                    },
                },
            },
    {
        let pt = match decrypt(data, password) {
            Ok(p) => p,
            Err(e) => {
                return Err(e);
            },
        };
        let entries = match decode_entries(&pt) {
            Some(es) => es,
            None => {
                return Err(Error::DataError);
            },
        };
        let ghost es = entries_view(entries@);
        let mut kc = Keychain::new();
        let mut i: usize = 0;
        while i < entries.len()
            invariant
                i <= entries@.len(),
                es == entries_view(entries@),
                spec_decrypt(data@, password@) == Ok::<Seq<u8>, Error>(pt@),
                spec_decode(pt@) == Some(es),
                kc.wf(),
                kc.spec_entries().len() <= 1,
                kc.spec_data_view() =~= es.take(i as int),
                forall|k: int|
                    0 <= k < i ==> ((#[trigger] es[k]).0 == ETHEREUM_CODE
                        && ethereum::spec_from_data(es[k].1) is Ok),
                forall|j1: int, j2: int| 0 <= j1 < j2 < i ==> es[j1].0 != es[j2].0,
                forall|c: u32|
                    #[trigger] kc.spec_has_code(c) ==> exists|k: int|
                        0 <= k < i && (#[trigger] es[k]).0 == c,
            decreases entries@.len() - i,
        {
            let code = entries[i].0;
            proof {
                assert(es[i as int] == (entries@[i as int].0, entries@[i as int].1@));
            }
            if code != ETHEREUM_CODE {
                proof {
                    assert(!spec_entries_loadable(es));
                }
                return Err(Error::DataError);
            }
            let network = Network::ethereum();
            if kc.has(&network) {
                proof {
                    let k = choose|k: int| 0 <= k < i && (#[trigger] es[k]).0 == ETHEREUM_CODE;
                    assert(es[k].0 == es[i as int].0);
                    assert(!spec_entries_loadable(es));
                }
                return Err(Error::DataError);
            }
            let d = copy_range(&entries[i].1, 0, entries[i].1.len());
            proof {
                assert(d@ =~= entries@[i as int].1@);
            }
            let key = match Key::from_data(&network, &d) {
                Ok(k) => k,
                Err(ke) => {
                    let err = Error::from_key_error(&network, ke);
                    proof {
                        assert(es[i as int].1 == d@);
                        assert(exists|k: int|
                            0 <= k < es.len() && ethereum::spec_from_data((#[trigger] es[k]).1)
                                == Err::<(Seq<u8>, Seq<u8>), KeyError>(ke));
                        assert(!spec_entries_loadable(es));
                        assert(match spec_decrypt(data@, password@) {
                            Err(e2) => err == e2,
                            Ok(p2) => match spec_decode(p2) {
                                None => err == Error::DataError,
                                Some(es2) => !spec_entries_loadable(es2) && (err
                                    == Error::DataError || (err matches Error::KeyError(n, ke2)
                                    && n.spec_code() == ETHEREUM_CODE && exists|k: int|
                                    0 <= k < es2.len() && ethereum::spec_from_data(
                                        (#[trigger] es2[k]).1,
                                    ) == Err::<(Seq<u8>, Seq<u8>), KeyError>(ke2))),
                            },
                        });
                    }
                    return Err(err);
                },
            };
            proof {
                assert(ethereum::spec_from_data(d@) is Ok);
                assert(d@.len() == 64);
                if kc.spec_entries().len() >= 1 {
                    assert(entry_wf(kc.spec_entries()[0]));
                    assert(kc.spec_has_code(ETHEREUM_CODE));
                    assert(false);
                }
            }
            let ghost prev = kc.spec_entries();
            let ghost prev_dv = kc.spec_data_view();
            kc.add(network, d, key);
            proof {
                assert(prev_dv.len() == i as int);
                assert(prev.len() == i as int);
                assert(kc.spec_entries().len() == i + 1);
                assert(kc.spec_data_view().len() == i + 1);
                assert forall|k: int| 0 <= k < i + 1 implies kc.spec_data_view()[k] == es[k] by {
                    assert(kc.spec_data_view()[k] == (
                        kc.spec_entries()[k].network.spec_code(),
                        kc.spec_entries()[k].data@,
                    ));
                    if k < i {
                        assert(kc.spec_entries()[k] == prev[k]);
                        assert(prev_dv[k] == (prev[k].network.spec_code(), prev[k].data@));
                        assert(prev_dv[k] == es.take(i as int)[k]);
                    }
                }
                assert(kc.spec_data_view() =~= es.take(i + 1));
            }
            i = i + 1;
        }
        proof {
            assert(kc.spec_data_view() =~= es);
        }
        Ok(KeychainManager { keychain: kc })
    }

    /// Re-encrypts a persisted blob under a new password in one step: an
    /// old-password failure surfaces `WrongPassword` and nothing changes.
    pub fn change_password(data: &Vec<u8>, old_password: &Vec<u8>, new_password: &Vec<u8>) -> (r:
        Result<Vec<u8>, Error>)
        ensures
            match r {
                Ok(b) => spec_decrypt(data@, old_password@) matches Ok(pt) && spec_decrypt(
                    b@,
                    new_password@,
                ) == Ok::<Seq<u8>, Error>(pt),
                Err(e) => (spec_decrypt(data@, old_password@) matches Err(e2) && e == e2) || (
                spec_decrypt(data@, old_password@) is Ok && e == Error::EntropyGeneratorError),
            },
    {
        let pt = match decrypt(data, old_password) {
            Ok(p) => p,
            Err(e) => {
                return Err(e);
            },
        };
        let salt = match os_random_bytes(SALT_LEN) {
            Some(s) => s,
            None => {
                return Err(Error::EntropyGeneratorError);
            },
        };
        let nonce = match os_random_bytes(NONCE_LEN) {
            Some(n) => n,
            None => {
                return Err(Error::EntropyGeneratorError);
            },
        };
        Ok(encrypt(&pt, new_password, &salt, &nonce))
    }
}

/// Key operations are deterministic: two managers holding the same key
/// material for a network answer every public-key, signing and
/// verification request identically, whatever else they hold.
pub proof fn lemma_operations_deterministic(
    m1: KeychainManager,
    m2: KeychainManager,
    network: Network,
    data: Seq<u8>,
    signature: Seq<u8>,
    path: KeyPath,
)
    requires
        m1.wf(),
        m2.wf(),
        m1.spec_has(network),
        m2.spec_has(network),
        m1.spec_data_for(network) == m2.spec_data_for(network),
    ensures
        m1.spec_pub_key_result(network, path) == m2.spec_pub_key_result(network, path),
        m1.spec_sign_result(network, data, path) == m2.spec_sign_result(network, data, path),
        m1.spec_verify_result(network, data, signature, path) == m2.spec_verify_result(
            network,
            data,
            signature,
            path,
        ),
{
}

/// Two managers built from the same seed hold the same key material for a
/// network, so by `lemma_operations_deterministic` they derive identical
/// public keys and identical signatures.
pub proof fn lemma_seed_determinism(
    m1: KeychainManager,
    m2: KeychainManager,
    seed: Seq<u8>,
    network: Network,
)
    requires
        m1.wf(),
        m2.wf(),
        m1.spec_has(network),
        m2.spec_has(network),
        ethereum::spec_data_from_seed(seed) == Ok::<Seq<u8>, KeyError>(m1.spec_data_for(network)),
        ethereum::spec_data_from_seed(seed) == Ok::<Seq<u8>, KeyError>(m2.spec_data_for(network)),
    ensures
        m1.spec_data_for(network) == m2.spec_data_for(network),
{
}

} // verus!
