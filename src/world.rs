//! The mutable ledger: accounts by address, their storage, and block data.
use vstd::prelude::*;
use crate::bytes::bytes_eq;
use crate::kv::{
    keys_unique, kv_map, lemma_kv_dom, lemma_kv_index, lemma_kv_push, lemma_kv_remove, lemma_kv_update,
};
use crate::contracts::{ContractCode, QueuedCall};

verus! {

/// A 32-byte address, held as its high and low 16 bytes (big-endian).
#[derive(Clone, Copy, Debug, PartialEq, Eq, Structural)]
pub struct Address {
    pub hi: u128,
    pub lo: u128,
}

impl Address {
    pub fn new(hi: u128, lo: u128) -> (r: Address)
        ensures
            r == (Address { hi, lo }),
    {
        Address { hi, lo }
    }
}

pub open spec fn esdt_view(s: Seq<((Vec<u8>, u64), u128)>) -> Seq<((Seq<u8>, u64), u128)> {
    s.map_values(|e: ((Vec<u8>, u64), u128)| ((e.0.0@, e.0.1), e.1))
}

/// The balance of token (`id`, `nonce`) held by `a` (zero when absent).
pub open spec fn token_balance(a: Account, id: Seq<u8>, nonce: u64) -> nat {
    if a.esdt_map().dom().contains((id, nonce)) {
        a.esdt_map()[(id, nonce)] as nat
    } else {
        0
    }
}

pub open spec fn storage_view(s: Seq<(Vec<u8>, Vec<u8>)>) -> Seq<(Seq<u8>, Seq<u8>)> {
    s.map_values(|e: (Vec<u8>, Vec<u8>)| (e.0@, e.1@))
}

/// An account: nonce, native balance, contract code (if any) and storage.
pub struct Account {
    pub nonce: u64,
    pub balance: u128,
    pub code: Option<ContractCode>,
    pub storage: Vec<(Vec<u8>, Vec<u8>)>,
    /// Calls this contract has queued and not yet forwarded, oldest first.
    pub queue: Vec<QueuedCall>,
    /// Token balances, keyed by token identifier and token nonce.
    pub esdt: Vec<((Vec<u8>, u64), u128)>,
}

impl Account {
    /// The storage as a map from key to value.
    pub open spec fn storage_map(&self) -> Map<Seq<u8>, Seq<u8>> {
        kv_map(storage_view(self.storage@))
    }

    /// Token balances as a map from (identifier, nonce) to amount.
    pub open spec fn esdt_map(&self) -> Map<(Seq<u8>, u64), u128> {
        kv_map(esdt_view(self.esdt@))
    }

    pub open spec fn wf(&self) -> bool {
        keys_unique(storage_view(self.storage@)) && keys_unique(esdt_view(self.esdt@))
    }

    /// A fresh account with empty storage.
    pub fn new(nonce: u64, balance: u128, code: Option<ContractCode>) -> (r: Account)
        ensures
            r.wf(),
            r.nonce == nonce,
            r.balance == balance,
            r.code == code,
            r.storage_map() == Map::<Seq<u8>, Seq<u8>>::empty(),
            r.queue@ == Seq::<QueuedCall>::empty(),
            r.esdt_map() == Map::<(Seq<u8>, u64), u128>::empty(),
    {
        let r = Account { nonce, balance, code, storage: Vec::new(), queue: Vec::new(), esdt: Vec::new() };
        assert(esdt_view(r.esdt@) =~= Seq::<((Seq<u8>, u64), u128)>::empty());
        assert(storage_view(r.storage@) =~= Seq::<(Seq<u8>, Seq<u8>)>::empty());
        r
    }

    fn find_key(&self, key: &[u8]) -> (r: Option<usize>)
        requires
            self.wf(),
        ensures
            match r {
                Some(i) => i < self.storage@.len() && self.storage@[i as int].0@ == key@
                    && self.storage_map().dom().contains(key@)
                    && self.storage_map()[key@] == self.storage@[i as int].1@,
                None => !self.storage_map().dom().contains(key@),
            },
    {
        let ghost sv = storage_view(self.storage@);
        let mut i: usize = 0;
        while i < self.storage.len()
            invariant
                sv == storage_view(self.storage@),
                self.wf(),
                i <= self.storage@.len(),
                forall|j: int| 0 <= j < i ==> sv[j].0 != key@,
            decreases self.storage@.len() - i,
        {
            if bytes_eq(self.storage[i].0.as_slice(), key) {
                proof {
                    lemma_kv_index(sv, i as int);
                }
                return Some(i);
            }
            i = i + 1;
        }
        proof {
            lemma_kv_dom(sv, key@);
        }
        None
    }

    fn find_token(&self, id: &[u8], nonce: u64) -> (r: Option<usize>)
        requires
            self.wf(),
        ensures
            match r {
                Some(i) => i < self.esdt@.len() && self.esdt@[i as int].0.0@ == id@
                    && self.esdt@[i as int].0.1 == nonce && self.esdt_map().dom().contains((id@, nonce))
                    && self.esdt_map()[(id@, nonce)] == self.esdt@[i as int].1,
                None => !self.esdt_map().dom().contains((id@, nonce)),
            },
    {
        let ghost ev = esdt_view(self.esdt@);
        let mut i: usize = 0;
        while i < self.esdt.len()
            invariant
                ev == esdt_view(self.esdt@),
                self.wf(),
                i <= self.esdt@.len(),
                forall|j: int| 0 <= j < i ==> ev[j].0 != (id@, nonce),
            decreases self.esdt@.len() - i,
        {
            if self.esdt[i].0.1 == nonce && bytes_eq(self.esdt[i].0.0.as_slice(), id) {
                proof {
                    lemma_kv_index(ev, i as int);
                }
                return Some(i);
            }
            i = i + 1;
        }
        proof {
            lemma_kv_dom(ev, (id@, nonce));
        }
        None
    }

    /// The balance of token (`id`, `nonce`).
    pub fn token_balance(&self, id: &[u8], nonce: u64) -> (r: u128)
        requires
            self.wf(),
        ensures
            r as nat == token_balance(*self, id@, nonce),
    {
        match self.find_token(id, nonce) {
            Some(i) => self.esdt[i].1,
            None => 0,
        }
    }

    /// Sets the balance of token (`id`, `nonce`).
    pub fn set_token_balance(&mut self, id: Vec<u8>, nonce: u64, amount: u128)
        requires
            old(self).wf(),
        ensures
            final(self).wf(),
            final(self).esdt_map() == old(self).esdt_map().insert((id@, nonce), amount),
            final(self).storage_map() == old(self).storage_map(),
            final(self).nonce == old(self).nonce,
            final(self).balance == old(self).balance,
            final(self).code == old(self).code,
            final(self).queue@ == old(self).queue@,
    {
        let ghost ev = esdt_view(self.esdt@);
        match self.find_token(id.as_slice(), nonce) {
            Some(i) => {
                proof {
                    lemma_kv_update(ev, i as int, amount);
                }
                let k = self.esdt[i].0.0.clone();
                self.esdt.set(i, ((k, nonce), amount));
                assert(esdt_view(self.esdt@) =~= ev.update(i as int, (ev[i as int].0, amount)));
            },
            None => {
                let ghost kv = (id@, nonce);
                proof {
                    lemma_kv_push(ev, kv, amount);
                }
                self.esdt.push(((id, nonce), amount));
                assert(esdt_view(self.esdt@) =~= ev.push((kv, amount)));
            },
        }
    }

    /// The value stored under `key`, if any.
    pub fn storage_get(&self, key: &[u8]) -> (r: Option<Vec<u8>>)
        requires
            self.wf(),
        ensures
            match r {
                Some(v) => self.storage_map().dom().contains(key@) && self.storage_map()[key@]
                    == v@,
                None => !self.storage_map().dom().contains(key@),
            },
    {
        match self.find_key(key) {
            Some(i) => Some(self.storage[i].1.clone()),
            None => None,
        }
    }

    /// Stores `value` under `key`, replacing any earlier value.
    pub fn storage_put(&mut self, key: Vec<u8>, value: Vec<u8>)
        requires
            old(self).wf(),
        ensures
            final(self).wf(),
            final(self).storage_map() == old(self).storage_map().insert(key@, value@),
            final(self).nonce == old(self).nonce,
            final(self).balance == old(self).balance,
            final(self).code == old(self).code,
            final(self).queue@ == old(self).queue@,
            final(self).esdt@ == old(self).esdt@,
    {
        let ghost sv = storage_view(self.storage@);
        match self.find_key(key.as_slice()) {
            Some(i) => {
                proof {
                    lemma_kv_update(sv, i as int, value@);
                }
                let k = self.storage[i].0.clone();
                self.storage.set(i, (k, value));
                assert(storage_view(self.storage@) =~= sv.update(i as int, (sv[i as int].0, value@)));
            },
            None => {
                let ghost kv = key@;
                let ghost vv = value@;
                proof {
                    lemma_kv_push(sv, kv, vv);
                }
                self.storage.push((key, value));
                assert(storage_view(self.storage@) =~= sv.push((kv, vv)));
            },
        }
    }
}

/// Block metadata.
#[derive(Clone, Copy, Debug, PartialEq, Eq, Structural)]
pub struct BlockInfo {
    pub timestamp: u64,
    pub nonce: u64,
    pub round: u64,
    pub epoch: u64,
}

/// The ledger: accounts keyed by address, deployment addresses recorded so far,
/// and the current block.
pub struct WorldState {
    pub accounts: Vec<(Address, Account)>,
    pub new_addresses: Vec<(Address, u64, Address)>,
    pub block: BlockInfo,
}

pub const CONTRACT_MARKER_MODULUS: u128 = 0x1_0000_0000_0000_0000;

/// The address of a contract deployed by `creator` at nonce `nonce`: the
/// creator's address with its first eight bytes cleared and its last eight
/// bytes replaced by the nonce.
pub open spec fn derived_address(creator: Address, nonce: u64) -> Address {
    Address {
        hi: creator.hi % CONTRACT_MARKER_MODULUS,
        lo: ((creator.lo / CONTRACT_MARKER_MODULUS) * CONTRACT_MARKER_MODULUS + nonce) as u128,
    }
}

/// The address of a contract deployed by `creator` at nonce `nonce`.
pub fn derive_address(creator: Address, nonce: u64) -> (r: Address)
    ensures
        r == derived_address(creator, nonce),
{
    let high = creator.lo / CONTRACT_MARKER_MODULUS;
    assert(high * CONTRACT_MARKER_MODULUS + nonce <= u128::MAX) by (nonlinear_arith)
        requires
            high == creator.lo / CONTRACT_MARKER_MODULUS,
            nonce <= u64::MAX,
            CONTRACT_MARKER_MODULUS == 0x1_0000_0000_0000_0000u128,
    ;
    Address { hi: creator.hi % CONTRACT_MARKER_MODULUS, lo: high * CONTRACT_MARKER_MODULUS + nonce as u128 }
}

/// Equal creator and nonce give equal addresses; for one creator, different
/// nonces give different addresses.
pub proof fn lemma_deterministic_addressing(creator: Address, n1: u64, n2: u64)
    ensures
        n1 == n2 ==> derived_address(creator, n1) == derived_address(creator, n2),
        n1 != n2 ==> derived_address(creator, n1) != derived_address(creator, n2),
{
}

impl WorldState {
    pub closed spec fn accounts_map(&self) -> Map<Address, Account> {
        kv_map(self.accounts@)
    }

    /// The recorded deployment addresses, as (creator, nonce, address) triples.
    pub closed spec fn predictions(&self) -> Seq<(Address, u64, Address)> {
        self.new_addresses@
    }

    pub closed spec fn wf(&self) -> bool {
        &&& keys_unique(self.accounts@)
        &&& forall|a: Address| #[trigger] self.accounts_map().dom().contains(a) ==> self.accounts_map()[a].wf()
    }

    /// An empty ledger at block zero.
    pub fn new() -> (r: WorldState)
        ensures
            r.wf(),
            r.accounts_map() == Map::<Address, Account>::empty(),
            r.predictions() == Seq::<(Address, u64, Address)>::empty(),
            r.block == (BlockInfo { timestamp: 0, nonce: 0, round: 0, epoch: 0 }),
    {
        let r = WorldState {
            accounts: Vec::new(),
            new_addresses: Vec::new(),
            block: BlockInfo { timestamp: 0, nonce: 0, round: 0, epoch: 0 },
        };
        assert(r.accounts_map() =~= Map::<Address, Account>::empty());
        r
    }

    fn find(&self, address: Address) -> (r: Option<usize>)
        requires
            self.wf(),
        ensures
            match r {
                Some(i) => i < self.accounts@.len() && self.accounts@[i as int].0 == address
                    && self.accounts_map().dom().contains(address)
                    && self.accounts_map()[address] == self.accounts@[i as int].1,
                None => !self.accounts_map().dom().contains(address),
            },
    {
        let mut i: usize = 0;
        while i < self.accounts.len()
            invariant
                self.wf(),
                i <= self.accounts@.len(),
                forall|j: int| 0 <= j < i ==> self.accounts@[j].0 != address,
            decreases self.accounts@.len() - i,
        {
            if self.accounts[i].0 == address {
                proof {
                    lemma_kv_index(self.accounts@, i as int);
                }
                return Some(i);
            }
            i = i + 1;
        }
        proof {
            lemma_kv_dom(self.accounts@, address);
        }
        None
    }

    /// The account at `address`; an absent address is reported as `None`,
    /// never as a zero-valued account.
    pub fn get_account(&self, address: Address) -> (r: Option<&Account>)
        requires
            self.wf(),
        ensures
            match r {
                Some(a) => self.accounts_map().dom().contains(address) && self.accounts_map()[address] == *a
                    && a.wf(),
                None => !self.accounts_map().dom().contains(address),
            },
    {
        match self.find(address) {
            Some(i) => Some(&self.accounts[i].1),
            None => None,
        }
    }

    /// Inserts or wholly replaces the account at `address`.
    pub fn put_account(&mut self, address: Address, account: Account)
        requires
            old(self).wf(),
            account.wf(),
        ensures
            final(self).wf(),
            final(self).accounts_map() == old(self).accounts_map().insert(address, account),
            final(self).predictions() == old(self).predictions(),
            final(self).block == old(self).block,
    {
        let ghost s = self.accounts@;
        let ghost acc = account;
        match self.find(address) {
            Some(i) => {
                proof {
                    lemma_kv_update(s, i as int, acc);
                }
                self.accounts.set(i, (address, account));
                assert(self.accounts@ =~= s.update(i as int, (s[i as int].0, acc)));
            },
            None => {
                proof {
                    lemma_kv_push(s, address, acc);
                }
                self.accounts.push((address, account));
            },
        }
        assert forall|a: Address| #[trigger] self.accounts_map().dom().contains(a) implies self.accounts_map()[a].wf() by {
            if a != address {
                assert(old(self).accounts_map().dom().contains(a));
            }
        }
    }

    /// Removes and returns the account at `address`, leaving the rest.
    pub fn take_account(&mut self, address: Address) -> (r: Option<Account>)
        requires
            old(self).wf(),
        ensures
            final(self).wf(),
            final(self).predictions() == old(self).predictions(),
            final(self).block == old(self).block,
            match r {
                Some(a) => old(self).accounts_map().dom().contains(address)
                    && old(self).accounts_map()[address] == a
                    && a.wf()
                    && final(self).accounts_map() == old(self).accounts_map().remove(address),
                None => !old(self).accounts_map().dom().contains(address)
                    && final(self).accounts_map() == old(self).accounts_map(),
            },
    {
        let ghost s = self.accounts@;
        match self.find(address) {
            Some(i) => {
                let (_, a) = self.accounts.remove(i);
                proof {
                    lemma_kv_remove(s, i as int);
                }
                assert forall|b: Address| #[trigger] self.accounts_map().dom().contains(b) implies self.accounts_map()[b].wf() by {
                    assert(old(self).accounts_map().dom().contains(b));
                }
                Some(a)
            },
            None => None,
        }
    }

    /// Records and returns the address a deployment by `creator` at
    /// `creator_nonce` lands at.
    pub fn new_address(&mut self, creator: Address, creator_nonce: u64) -> (r: Address)
        requires
            old(self).wf(),
        ensures
            r == derived_address(creator, creator_nonce),
            final(self).wf(),
            final(self).accounts_map() == old(self).accounts_map(),
            final(self).predictions() == old(self).predictions().push((creator, creator_nonce, r)),
            final(self).block == old(self).block,
    {
        let r = derive_address(creator, creator_nonce);
        self.new_addresses.push((creator, creator_nonce, r));
        assert(self.accounts@ == old(self).accounts@);
        assert(self.accounts_map() == old(self).accounts_map());
        r
    }

    /// Replaces the block data.
    pub fn set_block(&mut self, block: BlockInfo)
        requires
            old(self).wf(),
        ensures
            final(self).wf(),
            final(self).accounts_map() == old(self).accounts_map(),
            final(self).predictions() == old(self).predictions(),
            final(self).block == block,
    {
        self.block = block;
        assert(self.accounts_map() == old(self).accounts_map());
    }

    /// Records that a deployment by `creator` at `creator_nonce` is expected
    /// to land at `address`.
    pub fn record_prediction(&mut self, creator: Address, creator_nonce: u64, address: Address)
        requires
            old(self).wf(),
        ensures
            final(self).wf(),
            final(self).accounts_map() == old(self).accounts_map(),
            final(self).predictions() == old(self).predictions().push((creator, creator_nonce, address)),
            final(self).block == old(self).block,
    {
        self.new_addresses.push((creator, creator_nonce, address));
        assert(self.accounts_map() == old(self).accounts_map());
    }

    /// The address most recently predicted for `creator` at `creator_nonce`.
    pub fn find_prediction(&self, creator: Address, creator_nonce: u64) -> (r: Option<Address>)
        ensures
            r == predicted(self.predictions(), creator, creator_nonce),
    {
        let mut i: usize = self.new_addresses.len();
        assert(self.new_addresses@.subrange(0, i as int) =~= self.new_addresses@);
        while i > 0
            invariant
                i <= self.new_addresses@.len(),
                predicted(self.new_addresses@, creator, creator_nonce) == predicted(
                    self.new_addresses@.subrange(0, i as int),
                    creator,
                    creator_nonce,
                ),
            decreases i,
        {
            let e = self.new_addresses[i - 1];
            proof {
                assert(self.new_addresses@.subrange(0, i as int).drop_last() =~= self.new_addresses@.subrange(0, i - 1));
            }
            if e.0 == creator && e.1 == creator_nonce {
                return Some(e.2);
            }
            i = i - 1;
        }
        None
    }

    /// Advances the block fields by the given deltas, saturating at the maximum.
    pub fn advance_block(&mut self, timestamp: u64, nonce: u64, round: u64, epoch: u64)
        ensures
            final(self).accounts_map() == old(self).accounts_map(),
            final(self).predictions() == old(self).predictions(),
            final(self).wf() == old(self).wf(),
            final(self).block.timestamp == sat_add(old(self).block.timestamp, timestamp),
            final(self).block.nonce == sat_add(old(self).block.nonce, nonce),
            final(self).block.round == sat_add(old(self).block.round, round),
            final(self).block.epoch == sat_add(old(self).block.epoch, epoch),
    {
        self.block = BlockInfo {
            timestamp: self.block.timestamp.saturating_add(timestamp),
            nonce: self.block.nonce.saturating_add(nonce),
            round: self.block.round.saturating_add(round),
            epoch: self.block.epoch.saturating_add(epoch),
        };
        assert(self.accounts_map() == old(self).accounts_map());
    }
}

/// The address most recently predicted for (creator, nonce), if any.
pub open spec fn predicted(preds: Seq<(Address, u64, Address)>, creator: Address, nonce: u64) -> Option<Address>
    decreases preds.len(),
{
    if preds.len() == 0 {
        None
    } else if preds.last().0 == creator && preds.last().1 == nonce {
        Some(preds.last().2)
    } else {
        predicted(preds.drop_last(), creator, nonce)
    }
}

pub open spec fn sat_add(a: u64, b: u64) -> u64 {
    if a + b > u64::MAX {
        u64::MAX
    } else {
        (a + b) as u64
    }
}

} // verus!
