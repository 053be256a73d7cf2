use vstd::prelude::*;
use crate::error::{Error, KeyPathError};
use crate::network::Network;

verus! {

/// BIP44 purpose constant (`44'`).
pub const BIP44_PURPOSE: u32 = 0x8000_002C;

/// Lowest index of the hardened range in BIP32 child derivation; soft
/// (caller-supplied) account and address indices must stay below it.
pub const BIP44_SOFT_UPPER_BOUND: u32 = 0x8000_0000;

/// A validated BIP44 derivation path: purpose, coin type, account, change
/// chain and address index. A value of this type only exists after
/// `KeyPath::new` accepted all five fields for some network, so key
/// derivation never sees a malformed path.
#[derive(Debug, Copy, Clone, PartialEq, Eq, Structural)]
pub struct KeyPath {
    purpose: u32,
    coin: u32,
    account: u32,
    change: u32,
    address: u32,
}

/// The first field check of `KeyPath::new` that fails for these inputs, or
/// `None` when all five pass. The checks run in the fixed order purpose,
/// coin, account, change, address, and the first failure wins.
pub open spec fn spec_validate_path(
    purpose: u32,
    coin: u32,
    account: u32,
    change: u32,
    address: u32,
    network: Network,
) -> Option<KeyPathError> {
    if purpose != network.spec_purpose() {
        Some(KeyPathError::InvalidPurpose(purpose, network.spec_purpose()))
    } else if coin != network.spec_coin() {
        Some(KeyPathError::InvalidCoin(coin, network.spec_coin()))
    } else if account >= BIP44_SOFT_UPPER_BOUND {
        Some(KeyPathError::InvalidAccount(account))
    } else if change != 0 && change != 1 {
        Some(KeyPathError::InvalidChange(change))
    } else if address >= BIP44_SOFT_UPPER_BOUND {
        Some(KeyPathError::InvalidAddress(address))
    } else {
        None
    }
}

impl KeyPath {
    pub closed spec fn spec_purpose(self) -> u32 {
        self.purpose
    }

    pub closed spec fn spec_coin(self) -> u32 {
        self.coin
    }

    pub closed spec fn spec_account(self) -> u32 {
        self.account
    }

    pub closed spec fn spec_change(self) -> u32 {
        self.change
    }

    pub closed spec fn spec_address(self) -> u32 {
        self.address
    }

    /// Builds a path after validating every field against the network's
    /// registry constants. Account and address indices are given in soft
    /// form; the hardened offset is applied during derivation, not here.
    pub fn new(
        purpose: u32,
        coin: u32,
        account: u32,
        change: u32,
        address: u32,
        network: Network,
    ) -> (r: Result<KeyPath, Error>)
        ensures
            match r {
                Ok(p) => {
                    &&& spec_validate_path(purpose, coin, account, change, address, network)
                        is None
                    &&& p.spec_purpose() == purpose
                    &&& p.spec_coin() == coin
                    &&& p.spec_account() == account
                    &&& p.spec_change() == change
                    &&& p.spec_address() == address
                },
                Err(e) => {
                    &&& spec_validate_path(purpose, coin, account, change, address, network)
                        matches Some(k)
                    &&& e == Error::KeyPathError(k)
                },
            },
    {
        if purpose != network.purpose() {
            return Err(Error::KeyPathError(KeyPathError::InvalidPurpose(
                purpose,
                network.purpose(),
            )));
        }
        if coin != network.coin() {
            return Err(Error::KeyPathError(KeyPathError::InvalidCoin(coin, network.coin())));
        }
        if account >= BIP44_SOFT_UPPER_BOUND {
            return Err(Error::KeyPathError(KeyPathError::InvalidAccount(account)));
        }
        if change != 0 && change != 1 {
            return Err(Error::KeyPathError(KeyPathError::InvalidChange(change)));
        }
        if address >= BIP44_SOFT_UPPER_BOUND {
            return Err(Error::KeyPathError(KeyPathError::InvalidAddress(address)));
        }
        Ok(KeyPath { purpose, coin, account, change, address })
    }

    pub fn purpose(&self) -> (r: u32)
        ensures
            r == self.spec_purpose(),
    {
        self.purpose
    }

    pub fn coin(&self) -> (r: u32)
        ensures
            r == self.spec_coin(),
    {
        self.coin
    }

    pub fn account(&self) -> (r: u32)
        ensures
            r == self.spec_account(),
    {
        self.account
    }

    pub fn change(&self) -> (r: u32)
        ensures
            r == self.spec_change(),
    {
        self.change
    }

    pub fn address(&self) -> (r: u32)
        ensures
            r == self.spec_address(),
    {
        self.address
    }
}

/// A path whose five fields sit in their valid sets for `network` is
/// accepted, and flipping exactly one field outside its set is rejected
/// with that field's own error and no other.
pub proof fn lemma_keypath_validation(
    purpose: u32,
    coin: u32,
    account: u32,
    change: u32,
    address: u32,
    network: Network,
)
    ensures
        (purpose == network.spec_purpose() && coin == network.spec_coin() && account
            < BIP44_SOFT_UPPER_BOUND && (change == 0 || change == 1) && address
            < BIP44_SOFT_UPPER_BOUND) ==> spec_validate_path(
            purpose,
            coin,
            account,
            change,
            address,
            network,
        ) is None,
        purpose != network.spec_purpose() ==> spec_validate_path(
            purpose,
            coin,
            account,
            change,
            address,
            network,
        ) == Some(KeyPathError::InvalidPurpose(purpose, network.spec_purpose())),
        (purpose == network.spec_purpose() && coin != network.spec_coin())
            ==> spec_validate_path(purpose, coin, account, change, address, network) == Some(
            KeyPathError::InvalidCoin(coin, network.spec_coin()),
        ),
        (purpose == network.spec_purpose() && coin == network.spec_coin() && account
            >= BIP44_SOFT_UPPER_BOUND) ==> spec_validate_path(
            purpose,
            coin,
            account,
            change,
            address,
            network,
        ) == Some(KeyPathError::InvalidAccount(account)),
        (purpose == network.spec_purpose() && coin == network.spec_coin() && account
            < BIP44_SOFT_UPPER_BOUND && change != 0 && change != 1) ==> spec_validate_path(
            purpose,
            coin,
            account,
            change,
            address,
            network,
        ) == Some(KeyPathError::InvalidChange(change)),
        (purpose == network.spec_purpose() && coin == network.spec_coin() && account
            < BIP44_SOFT_UPPER_BOUND && (change == 0 || change == 1) && address
            >= BIP44_SOFT_UPPER_BOUND) ==> spec_validate_path(
            purpose,
            coin,
            account,
            change,
            address,
            network,
        ) == Some(KeyPathError::InvalidAddress(address)),
{
}

} // verus!
