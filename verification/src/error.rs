use vstd::prelude::*;
use crate::network::Network;

verus! {

/// Failure of one field check of a BIP44 derivation path. The two-field
/// variants carry the rejected value first and the expected constant second.
#[derive(Debug, Copy, Clone, PartialEq, Eq, Structural)]
pub enum KeyPathError {
    InvalidPurpose(u32, u32),
    InvalidCoin(u32, u32),
    InvalidAccount(u32),
    InvalidChange(u32),
    InvalidAddress(u32),
}

/// Failure inside one network's key machinery.
#[derive(Debug, Copy, Clone, PartialEq, Eq, Structural)]
pub enum KeyError {
    /// Serialized key material had the wrong shape or an out-of-range scalar.
    InvalidData,
    /// A seed of this byte length cannot start a derivation chain.
    InvalidSeedSize(usize),
    /// A child-key derivation step failed in the curve arithmetic.
    DeriveFailed,
    /// Signature bytes that the curve library refuses to parse.
    InvalidSignature,
    /// A derivation path that does not belong to this network's tree.
    Path(KeyPathError),
}

/// Failure while reading a mnemonic back from word indices.
#[derive(Debug, Copy, Clone, PartialEq, Eq, Structural)]
pub enum MnemonicError {
    /// Not a supported number of words; carries the rejected count.
    InvalidWordCount(usize),
    /// A word index outside the wordlist; carries its position.
    InvalidWord(usize),
    /// The embedded checksum does not match the recovered entropy.
    InvalidChecksum,
}

/// Every failure the library can surface, one variant per kind.
#[derive(Debug, Copy, Clone, PartialEq, Eq, Structural)]
pub enum Error {
    /// The decryption integrity check failed: the password is wrong.
    WrongPassword,
    /// Input shorter than the format requires.
    NotEnoughData,
    /// No entropy size satisfies every requested network; carries the
    /// conflicting bounds.
    CantCalculateSeedSize(usize, usize),
    /// A seed of this byte length is outside the supported range.
    InvalidSeedSize(usize),
    /// The keychain holds no key for this network.
    KeyDoesNotExist(Network),
    /// Persisted bytes decrypted correctly but do not parse.
    DataError,
    /// A curve-library failure, tagged with the originating network.
    KeyError(Network, KeyError),
    /// The operating system's entropy source failed.
    EntropyGeneratorError,
    /// A mnemonic failed validation.
    MnemonicError(MnemonicError),
    /// A derivation path failed validation.
    KeyPathError(KeyPathError),
}

/// The stable numeric kind of each error, for callers that need a tag
/// rather than a value with payload.
#[derive(Debug, Copy, Clone, PartialEq, Eq, Structural)]
pub enum ErrorType {
    WrongPassword,
    NotEnoughData,
    CantCalculateSeedSize,
    DataError,
    EntropyGeneratorError,
    InvalidSeedSize,
    KeyDoesNotExist,
    KeyError,
    KeyPathError,
    MnemonicError,
}

impl Error {
    /// Wraps a curve-library failure with the network it came from.
    pub fn from_key_error(net: &Network, err: KeyError) -> (r: Self)
        ensures
            r == Error::KeyError(*net, err),
    {
        Error::KeyError(*net, err)
    }

    /// The kind tag of this error.
    pub fn error_type(&self) -> (r: ErrorType)
        ensures
            r == self.spec_error_type(),
    {
        match self {
            Error::WrongPassword => ErrorType::WrongPassword,
            Error::NotEnoughData => ErrorType::NotEnoughData,
            Error::CantCalculateSeedSize(_, _) => ErrorType::CantCalculateSeedSize,
            Error::DataError => ErrorType::DataError,
            Error::EntropyGeneratorError => ErrorType::EntropyGeneratorError,
            Error::InvalidSeedSize(_) => ErrorType::InvalidSeedSize,
            Error::KeyDoesNotExist(_) => ErrorType::KeyDoesNotExist,
            Error::KeyError(_, _) => ErrorType::KeyError,
            Error::KeyPathError(_) => ErrorType::KeyPathError,
            Error::MnemonicError(_) => ErrorType::MnemonicError,
        }
    }

    pub open spec fn spec_error_type(self) -> ErrorType {
        match self {
            Error::WrongPassword => ErrorType::WrongPassword,
            Error::NotEnoughData => ErrorType::NotEnoughData,
            Error::CantCalculateSeedSize(_, _) => ErrorType::CantCalculateSeedSize,
            Error::DataError => ErrorType::DataError,
            Error::EntropyGeneratorError => ErrorType::EntropyGeneratorError,
            Error::InvalidSeedSize(_) => ErrorType::InvalidSeedSize,
            Error::KeyDoesNotExist(_) => ErrorType::KeyDoesNotExist,
            Error::KeyError(_, _) => ErrorType::KeyError,
            Error::KeyPathError(_) => ErrorType::KeyPathError,
            Error::MnemonicError(_) => ErrorType::MnemonicError,
        }
    }
}

} // verus!
