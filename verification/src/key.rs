use vstd::prelude::*;
use crate::error::KeyError;
use crate::key_path::KeyPath;
use crate::network::{Network, ETHEREUM_CODE};
use crate::networks::ethereum;

verus! {

/// The closed set of per-network key variants behind one capability
/// interface: a new network is a new variant, selected at construction
/// time by the requested network.
#[derive(Debug)]
pub enum Key {
    Ethereum(ethereum::Key),
}

impl Key {
    pub open spec fn wf(self) -> bool {
        match self {
            Key::Ethereum(k) => k.wf(),
        }
    }

    /// The code of the network this key belongs to.
    pub open spec fn spec_network_code(self) -> u32 {
        match self {
            Key::Ethereum(_) => ETHEREUM_CODE,
        }
    }

    /// Whether this key is the one that `from_data` builds from `data`.
    pub open spec fn spec_matches_data(self, data: Seq<u8>) -> bool {
        match self {
            Key::Ethereum(k) => ethereum::spec_from_data(data) == Ok::<
                (Seq<u8>, Seq<u8>),
                KeyError,
            >((k.spec_key(), k.spec_chain_code())),
        }
    }

    /// Builds the variant for `network` from serialized master-key bytes.
    pub fn from_data(network: &Network, data: &Vec<u8>) -> (r: Result<Key, KeyError>)
        requires
            network.spec_code() == ETHEREUM_CODE,
        ensures
            match r {
                Ok(k) => k.wf() && k.spec_network_code() == network.spec_code()
                    && k.spec_matches_data(data@),
                Err(e) => ethereum::spec_from_data(data@) == Err::<(Seq<u8>, Seq<u8>), KeyError>(
                    e,
                ),
            },
            r is Ok <==> ethereum::spec_from_data(data@) is Ok,
    {
        match ethereum::Key::from_data(data) {
            Ok(k) => Ok(Key::Ethereum(k)),
            Err(e) => Err(e),
        }
    }

    /// Serializes the master key a seed yields for `network`, the form
    /// `from_data` reads back.
    pub fn data_from_seed(network: &Network, seed: &Vec<u8>) -> (r: Result<Vec<u8>, KeyError>)
        requires
            network.spec_code() == ETHEREUM_CODE,
        ensures
            match r {
                Ok(d) => ethereum::spec_data_from_seed(seed@) == Ok::<Seq<u8>, KeyError>(d@)
                    && d@.len() == 64,
                Err(e) => ethereum::spec_data_from_seed(seed@) == Err::<Seq<u8>, KeyError>(e),
            },
    {
        ethereum::Key::data_from_seed(seed)
    }

    /// The network this key belongs to.
    pub fn network(&self) -> (r: Network)
        ensures
            r.spec_code() == self.spec_network_code(),
    {
        match self {
            Key::Ethereum(k) => k.network(),
        }
    }

    pub open spec fn spec_pub_key(self, path: KeyPath) -> Result<Seq<u8>, KeyError> {
        match self {
            Key::Ethereum(k) => k.spec_pub_key(path),
        }
    }

    pub fn pub_key(&self, path: &KeyPath) -> (r: Result<Vec<u8>, KeyError>)
        requires
            self.wf(),
        ensures
            match r {
                Ok(p) => self.spec_pub_key(*path) == Ok::<Seq<u8>, KeyError>(p@) && p@.len()
                    == 33,
                Err(e) => self.spec_pub_key(*path) == Err::<Seq<u8>, KeyError>(e),
            },
    {
        match self {
            Key::Ethereum(k) => k.pub_key(path),
        }
    }

    pub open spec fn spec_sign(self, data: Seq<u8>, path: KeyPath) -> Result<Seq<u8>, KeyError> {
        match self {
            Key::Ethereum(k) => k.spec_sign(data, path),
        }
    }

    pub fn sign(&self, data: &Vec<u8>, path: &KeyPath) -> (r: Result<Vec<u8>, KeyError>)
        requires
            self.wf(),
        ensures
            match r {
                Ok(s) => self.spec_sign(data@, *path) == Ok::<Seq<u8>, KeyError>(s@) && s@.len()
                    == 64 && self.spec_verify(data@, s@, *path) == Ok::<bool, KeyError>(true),
                Err(e) => self.spec_sign(data@, *path) == Err::<Seq<u8>, KeyError>(e),
            },
    {
        match self {
            Key::Ethereum(k) => k.sign(data, path),
        }
    }

    pub open spec fn spec_verify(self, data: Seq<u8>, signature: Seq<u8>, path: KeyPath) -> Result<
        bool,
        KeyError,
    > {
        match self {
            Key::Ethereum(k) => k.spec_verify(data, signature, path),
        }
    }

    pub fn verify(&self, data: &Vec<u8>, signature: &Vec<u8>, path: &KeyPath) -> (r: Result<
        bool,
        KeyError,
    >)
        requires
            self.wf(),
        ensures
            match r {
                Ok(b) => self.spec_verify(data@, signature@, *path) == Ok::<bool, KeyError>(b),
                Err(e) => self.spec_verify(data@, signature@, *path) == Err::<bool, KeyError>(e),
            },
    {
        match self {
            Key::Ethereum(k) => k.verify(data, signature, path),
        }
    }
}

} // verus!
