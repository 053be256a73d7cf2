use vstd::prelude::*;
use crate::key_path::BIP44_PURPOSE;

verus! {

/// Identifier of a supported chain. The registry of supported networks is
/// fixed at build time; `Network::all` enumerates it.
#[derive(Debug, Copy, Clone, Hash, PartialEq, Eq, Structural)]
pub struct Network {
    code: u32,
}

/// BIP44 coin-type constant of the Ethereum chain (`60'`), which doubles as
/// the Ethereum network code.
pub const ETHEREUM_CODE: u32 = 0x8000_003C;

impl Network {
    /// The numeric code of this network.
    pub closed spec fn spec_code(self) -> u32 {
        self.code
    }

    /// The Ethereum network.
    pub fn ethereum() -> (r: Network)
        ensures
            r.spec_code() == ETHEREUM_CODE,
    {
        Network { code: ETHEREUM_CODE }
    }

    /// Every network supported by this build, each exactly once.
    pub fn all() -> (r: Vec<Network>)
        ensures
            r@.len() == 1,
            r@[0].spec_code() == ETHEREUM_CODE,
    {
        let mut types: Vec<Network> = Vec::new();
        types.push(Network::ethereum());
        types
    }

    pub fn code(&self) -> (r: u32)
        ensures
            r == self.spec_code(),
    {
        self.code
    }

    /// The BIP44 purpose constant every path for this network must carry.
    pub closed spec fn spec_purpose(self) -> u32 {
        BIP44_PURPOSE
    }

    pub fn purpose(&self) -> (r: u32)
        ensures
            r == self.spec_purpose(),
    {
        BIP44_PURPOSE
    }

    /// The BIP44 coin-type constant every path for this network must carry.
    /// The registry derives the network code from this constant, so the two
    /// coincide.
    pub closed spec fn spec_coin(self) -> u32 {
        self.code
    }

    pub fn coin(&self) -> (r: u32)
        ensures
            r == self.spec_coin(),
    {
        self.code
    }

    /// The entropy byte lengths this network's keys accept, smallest and
    /// largest.
    pub fn entropy_bounds(&self) -> (r: (usize, usize))
        ensures
            r.0 == 16usize && r.1 == 32usize,
    {
        (16, 32)
    }

    /// Two networks with the same code are the same network.
    pub proof fn lemma_eq_by_code(a: Network, b: Network)
        ensures
            a == b <==> a.spec_code() == b.spec_code(),
    {
    }
}

} // verus!
