use vstd::prelude::*;
use crate::key::Key;
use crate::network::{Network, ETHEREUM_CODE};

verus! {

/// One keychain slot: a network, its serialized master-key bytes as they
/// are persisted, and the live key built from them.
#[derive(Debug)]
pub struct Entry {
    pub network: Network,
    pub data: Vec<u8>,
    pub key: Key,
}

/// A well-formed slot: a supported network, whose key was built from
/// exactly the stored bytes.
pub open spec fn entry_wf(e: Entry) -> bool {
    &&& e.network.spec_code() == ETHEREUM_CODE
    &&& e.key.wf()
    &&& e.key.spec_network_code() == e.network.spec_code()
    &&& e.key.spec_matches_data(e.data@)
    &&& e.data@.len() == 64
}

/// The mapping from network to key: at most one key per network, order of
/// insertion irrelevant to every operation.
#[derive(Debug)]
pub struct Keychain {
    entries: Vec<Entry>,
}

impl Keychain {
    pub closed spec fn spec_entries(self) -> Seq<Entry> {
        self.entries@
    }

    /// The persisted view: each network's code with its key material.
    pub open spec fn spec_data_view(self) -> Seq<(u32, Seq<u8>)> {
        self.spec_entries().map_values(|e: Entry| (e.network.spec_code(), e.data@))
    }

    pub open spec fn wf(self) -> bool {
        &&& forall|i: int|
            0 <= i < self.spec_entries().len() ==> entry_wf(#[trigger] self.spec_entries()[i])
        &&& forall|i: int, j: int|
            0 <= i < j < self.spec_entries().len() ==> self.spec_entries()[i].network.spec_code()
                != self.spec_entries()[j].network.spec_code()
        &&& self.spec_entries().len() <= 0xffff_ffff
    }

    pub open spec fn spec_has_code(self, code: u32) -> bool {
        exists|i: int|
            0 <= i < self.spec_entries().len() && (#[trigger] self.spec_entries()[i]).network.spec_code()
                == code
    }

    /// The index of the slot holding `code`.
    pub open spec fn spec_idx(self, code: u32) -> int
        recommends
            self.spec_has_code(code),
    {
        choose|i: int|
            0 <= i < self.spec_entries().len() && (#[trigger] self.spec_entries()[i]).network.spec_code()
                == code
    }

    /// The stored key material for `code`.
    pub open spec fn spec_data_for(self, code: u32) -> Seq<u8>
        recommends
            self.spec_has_code(code),
    {
        self.spec_entries()[self.spec_idx(code)].data@
    }

    pub fn new() -> (r: Keychain)
        ensures
            r.wf(),
            r.spec_entries().len() == 0,
    {
        Keychain { entries: Vec::new() }
    }

    fn find(&self, code: u32) -> (r: Option<usize>)
        requires
            self.wf(),
        ensures
            match r {
                Some(i) => i < self.spec_entries().len() && self.spec_entries()[
                    i as int
                ].network.spec_code() == code && self.spec_has_code(code) && self.spec_idx(code)
                    == i,
                None => !self.spec_has_code(code),
            },
    {
        let mut i: usize = 0;
        while i < self.entries.len()
            invariant
                self.wf(),
                i <= self.spec_entries().len(),
                forall|k: int|
                    0 <= k < i ==> (#[trigger] self.spec_entries()[k]).network.spec_code()
                        != code,
            decreases self.spec_entries().len() - i,
        {
            if self.entries[i].network.code() == code {
                proof {
                    let j = self.spec_idx(code);
                    assert(0 <= j < self.spec_entries().len()
                        && self.spec_entries()[j].network.spec_code() == code);
                    if j != i as int {
                        assert(false);
                    }
                }
                return Some(i);
            }
            i = i + 1;
        }
        None
    }

    /// Whether this keychain holds a key for `network`.
    pub fn has(&self, network: &Network) -> (r: bool)
        requires
            self.wf(),
        ensures
            r == self.spec_has_code(network.spec_code()),
    {
        self.find(network.code()).is_some()
    }

    /// The key for `network`, the caller's signal to surface
    /// `KeyDoesNotExist` when absent.
    pub fn get(&self, network: &Network) -> (r: Option<&Key>)
        requires
            self.wf(),
        ensures
            match r {
                Some(k) => self.spec_has_code(network.spec_code()) && *k == self.spec_entries()[
                    self.spec_idx(network.spec_code())
                ].key,
                None => !self.spec_has_code(network.spec_code()),
            },
    {
        match self.find(network.code()) {
            Some(i) => Some(&self.entries[i].key),
            None => None,
        }
    }

    /// Adds a key for a network this keychain does not hold yet.
    pub fn add(&mut self, network: Network, data: Vec<u8>, key: Key)
        requires
            old(self).wf(),
            old(self).spec_entries().len() < 0xffff_ffff,
            !old(self).spec_has_code(network.spec_code()),
            entry_wf(Entry { network, data, key }),
        ensures
            final(self).wf(),
            final(self).spec_entries() == old(self).spec_entries().push(
                Entry { network, data, key },
            ),
            final(self).spec_has_code(network.spec_code()),
    {
        self.entries.push(Entry { network, data, key });
        proof {
            let old_es = old(self).spec_entries();
            let es = self.spec_entries();
            assert(es[es.len() - 1] == Entry { network, data, key });
            assert forall|i: int| 0 <= i < es.len() implies entry_wf(#[trigger] es[i]) by {
                if i < es.len() - 1 {
                    assert(es[i] == old_es[i]);
                }
            }
            assert forall|i: int, j: int|
                0 <= i < j < es.len() implies es[i].network.spec_code()
                != es[j].network.spec_code() by {
                if j == es.len() - 1 {
                    assert(es[i] == old_es[i]);
                    assert(!old(self).spec_has_code(network.spec_code()));
                } else {
                    assert(es[i] == old_es[i] && es[j] == old_es[j]);
                }
            }
        }
    }

    /// Removes the key for `network`, if any.
    pub fn remove(&mut self, network: &Network)
        requires
            old(self).wf(),
        ensures
            final(self).wf(),
            !final(self).spec_has_code(network.spec_code()),
            old(self).spec_has_code(network.spec_code()) ==> final(self).spec_entries()
                == old(self).spec_entries().remove(old(self).spec_idx(network.spec_code())),
            !old(self).spec_has_code(network.spec_code()) ==> final(self).spec_entries()
                == old(self).spec_entries(),
    {
        match self.find(network.code()) {
            Some(i) => {
                self.entries.remove(i);
                proof {
                    let es = self.spec_entries();
                    let old_es = old(self).spec_entries();
                    assert forall|k: int|
                        0 <= k < es.len() implies entry_wf(#[trigger] es[k])
                            && es[k].network.spec_code() != network.spec_code() by {
                        if k < i as int {
                            assert(es[k] == old_es[k]);
                        } else {
                            assert(es[k] == old_es[k + 1]);
                        }
                    }
                }
            },
            None => {},
        }
    }

    /// How many networks this keychain holds.
    pub fn len(&self) -> (r: usize)
        ensures
            r == self.spec_entries().len(),
    {
        self.entries.len()
    }

    /// The slot at `i`, for walking the keychain.
    pub fn entry_at(&self, i: usize) -> (r: &Entry)
        requires
            i < self.spec_entries().len(),
        ensures
            *r == self.spec_entries()[i as int],
    {
        &self.entries[i]
    }
}

} // verus!
