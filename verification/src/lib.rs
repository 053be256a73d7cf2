mod bytes;
mod crypt;
mod crypto;
mod data;
mod entropy;
mod error;
mod key;
mod key_path;
mod keychain;
mod manager;
mod mnemonic;
mod network;
pub mod networks;

pub use entropy::OsEntropy;
pub use error::{Error, ErrorType, KeyError, KeyPathError, MnemonicError};
pub use key::Key;
pub use key_path::{lemma_keypath_validation, KeyPath, BIP44_PURPOSE, BIP44_SOFT_UPPER_BOUND};
pub use keychain::{Entry, Keychain};
pub use manager::{
    lemma_operations_deterministic, lemma_seed_determinism, KeychainManager,
};
pub use mnemonic::{lemma_mnemonic_roundtrip, to_seed, Mnemonic, SEED_ITERATIONS};
pub use network::{Network, ETHEREUM_CODE};
