//! Scenario steps and the runner that applies them to one ledger.
use vstd::prelude::*;
use crate::api::{reward_key_bytes, reward_key_name};
use crate::bytes::{be_value, decode_be_u128, encode_be, encode_be_u128, lemma_be_bytes_value};
use crate::contracts::ContractCode;
use crate::model::{
    check_tx_output, expect_met, value_matches, CheckField, ExpectedValue, Mismatch, ScCallStep,
    ScenarioError, TxDeploy, TxExpect, TxQuery, TxResponse,
};
use crate::runner::{
    apply_writes, call_post, deploy_post, perform_sc_call, perform_sc_deploy, perform_sc_query, query_post,
    transfer, transfer_post,
};
use crate::world::storage_view;
use crate::world::{token_balance, Account, Address, BlockInfo, WorldState};

verus! {

/// An account to install: nonce, balance, code and initial storage.
pub struct AccountSetup {
    pub nonce: u64,
    pub balance: u128,
    pub code: Option<ContractCode>,
    pub storage: Vec<(Vec<u8>, Vec<u8>)>,
    /// Token balances as (identifier, nonce, amount); a later entry wins.
    pub esdt: Vec<(Vec<u8>, u64, u128)>,
}

/// The token balances a list of (identifier, nonce, amount) entries sets.
pub open spec fn token_map(s: Seq<(Vec<u8>, u64, u128)>) -> Map<(Seq<u8>, u64), u128>
    decreases s.len(),
{
    if s.len() == 0 {
        Map::empty()
    } else {
        token_map(s.drop_last()).insert((s.last().0@, s.last().1), s.last().2)
    }
}

/// Installs accounts (replacing whole accounts), records expected deployment
/// addresses and optionally sets the block.
pub struct SetStateStep {
    pub accounts: Vec<(Address, AccountSetup)>,
    /// Expected deployment addresses, as (creator, creator nonce, address).
    pub new_addresses: Vec<(Address, u64, Address)>,
    pub block: Option<BlockInfo>,
}

pub struct ScQueryStep {
    pub id: String,
    pub tx: TxQuery,
    pub expect: Option<TxExpect>,
    pub response: Option<TxResponse>,
}

pub struct ScDeployStep {
    pub id: String,
    pub tx: TxDeploy,
    pub expect: Option<TxExpect>,
    pub response: Option<TxResponse>,
}

pub struct TransferStep {
    pub from: Address,
    pub to: Address,
    pub amount: u128,
}

/// Credits a validator reward to an account: its balance and the cumulated
/// reward kept in its storage both grow by `amount`.
pub struct ValidatorRewardStep {
    pub address: Address,
    pub amount: u128,
}

/// The fields of one account that a check cares about; the rest is ignored.
pub struct CheckAccount {
    pub nonce: Option<u64>,
    pub balance: Option<u128>,
    pub storage: Vec<(Vec<u8>, ExpectedValue)>,
    /// Expected token balances as (identifier, nonce, amount).
    pub esdt: Vec<(Vec<u8>, u64, u128)>,
}

pub struct CheckStateStep {
    pub id: String,
    pub accounts: Vec<(Address, CheckAccount)>,
}

/// A scenario step.
pub enum Step {
    SetState(SetStateStep),
    ScDeploy(ScDeployStep),
    ScCall(ScCallStep),
    ScQuery(ScQueryStep),
    Transfer(TransferStep),
    ValidatorReward(ValidatorRewardStep),
    CheckState(CheckStateStep),
    DumpState,
}

/// The kind of a step, as a trace records it.
#[derive(Clone, Copy, Debug, PartialEq, Eq, Structural)]
pub enum StepKind {
    SetState,
    ScDeploy,
    ScCall,
    ScQuery,
    Transfer,
    ValidatorReward,
    CheckState,
    DumpState,
}

pub open spec fn step_kind(s: Step) -> StepKind {
    match s {
        Step::SetState(_) => StepKind::SetState,
        Step::ScDeploy(_) => StepKind::ScDeploy,
        Step::ScCall(_) => StepKind::ScCall,
        Step::ScQuery(_) => StepKind::ScQuery,
        Step::Transfer(_) => StepKind::Transfer,
        Step::ValidatorReward(_) => StepKind::ValidatorReward,
        Step::CheckState(_) => StepKind::CheckState,
        Step::DumpState => StepKind::DumpState,
    }
}

impl Step {
    pub fn kind(&self) -> (r: StepKind)
        ensures
            r == step_kind(*self),
    {
        match self {
            Step::SetState(_) => StepKind::SetState,
            Step::ScDeploy(_) => StepKind::ScDeploy,
            Step::ScCall(_) => StepKind::ScCall,
            Step::ScQuery(_) => StepKind::ScQuery,
            Step::Transfer(_) => StepKind::Transfer,
            Step::ValidatorReward(_) => StepKind::ValidatorReward,
            Step::CheckState(_) => StepKind::CheckState,
            Step::DumpState => StepKind::DumpState,
        }
    }
}

/// The stored value under `key`, absent keys reading as empty.
pub open spec fn stored_or_empty(a: Account, key: Seq<u8>) -> Seq<u8> {
    if a.storage_map().dom().contains(key) {
        a.storage_map()[key]
    } else {
        Seq::empty()
    }
}

pub open spec fn account_meets(a: Account, c: CheckAccount) -> bool {
    &&& (c.nonce matches Some(n) ==> a.nonce == n)
    &&& (c.balance matches Some(b) ==> a.balance == b)
    &&& forall|i: int|
        0 <= i < c.storage@.len() ==> value_matches(
            #[trigger] c.storage@[i].1,
            stored_or_empty(a, c.storage@[i].0@),
        )
    &&& forall|i: int|
        0 <= i < c.esdt@.len() ==> token_balance(a, (#[trigger] c.esdt@[i]).0@, c.esdt@[i].1)
            == c.esdt@[i].2
}

/// Compares an account with the declared fields only, reporting each difference.
pub fn check_account(address: Address, a: &Account, c: &CheckAccount) -> (r: Vec<Mismatch>)
    requires
        a.wf(),
    ensures
        r@.len() == 0 <==> account_meets(*a, *c),
{
    let mut diffs: Vec<Mismatch> = Vec::new();
    match c.nonce {
        Some(n) => {
            if a.nonce != n {
                diffs.push(
                    Mismatch {
                        address: Some(address),
                        field: CheckField::Nonce,
                        expected: encode_be(n),
                        actual: encode_be(a.nonce),
                    },
                );
            }
        },
        None => {},
    }
    match c.balance {
        Some(b) => {
            if a.balance != b {
                diffs.push(
                    Mismatch {
                        address: Some(address),
                        field: CheckField::Balance,
                        expected: encode_be_u128(b),
                        actual: encode_be_u128(a.balance),
                    },
                );
            }
        },
        None => {},
    }
    let ghost d0 = diffs@.len();
    let mut i: usize = 0;
    while i < c.storage.len()
        invariant
            a.wf(),
            i <= c.storage@.len(),
            diffs@.len() >= d0,
            (diffs@.len() == d0) == forall|j: int|
                0 <= j < i ==> value_matches(
                    #[trigger] c.storage@[j].1,
                    stored_or_empty(*a, c.storage@[j].0@),
                ),
        decreases c.storage@.len() - i,
    {
        let actual = match a.storage_get(c.storage[i].0.as_slice()) {
            Some(v) => v,
            None => Vec::new(),
        };
        proof {
            assert(actual@ =~= stored_or_empty(*a, c.storage@[i as int].0@));
        }
        if !c.storage[i].1.matches_value(actual.as_slice()) {
            diffs.push(
                Mismatch {
                    address: Some(address),
                    field: CheckField::Storage(i as u64),
                    expected: c.storage[i].1.to_bytes(),
                    actual,
                },
            );
        }
        i = i + 1;
    }
    let ghost d1 = diffs@.len();
    let ghost storage_ok = (diffs@.len() == d0);
    let mut k: usize = 0;
    while k < c.esdt.len()
        invariant
            a.wf(),
            k <= c.esdt@.len(),
            diffs@.len() >= d1,
            d1 >= d0,
            storage_ok == (d1 == d0),
            (diffs@.len() == d1) == forall|j: int|
                0 <= j < k ==> token_balance(*a, (#[trigger] c.esdt@[j]).0@, c.esdt@[j].1)
                    == c.esdt@[j].2,
        decreases c.esdt@.len() - k,
    {
        let held = a.token_balance(c.esdt[k].0.as_slice(), c.esdt[k].1);
        if held != c.esdt[k].2 {
            diffs.push(
                Mismatch {
                    address: Some(address),
                    field: CheckField::Token(k as u64),
                    expected: encode_be_u128(c.esdt[k].2),
                    actual: encode_be_u128(held),
                },
            );
        }
        k = k + 1;
    }
    diffs
}

pub open spec fn state_meets(world: WorldState, checks: Seq<(Address, CheckAccount)>) -> bool {
    forall|i: int|
        0 <= i < checks.len() ==> world.accounts_map().dom().contains(#[trigger] checks[i].0)
            && account_meets(world.accounts_map()[checks[i].0], checks[i].1)
}

/// Checks every declared account, reporting every difference at once.
pub fn check_state(world: &WorldState, checks: &Vec<(Address, CheckAccount)>) -> (r: Vec<Mismatch>)
    requires
        world.wf(),
    ensures
        r@.len() == 0 <==> state_meets(*world, checks@),
{
    let mut diffs: Vec<Mismatch> = Vec::new();
    let mut i: usize = 0;
    while i < checks.len()
        invariant
            world.wf(),
            i <= checks@.len(),
            (diffs@.len() == 0) == state_meets(*world, checks@.subrange(0, i as int)),
        decreases checks@.len() - i,
    {
        let ghost pre = checks@.subrange(0, i as int);
        match world.get_account(checks[i].0) {
            Some(a) => {
                let mut d = check_account(checks[i].0, a, &checks[i].1);
                let ghost before = diffs@.len();
                let ghost total = d@.len();
                while d.len() > 0
                    invariant
                        diffs@.len() + d@.len() == before + total,
                    decreases d@.len(),
                {
                    diffs.push(d.remove(0));
                }
            },
            None => {
                diffs.push(
                    Mismatch {
                        address: Some(checks[i].0),
                        field: CheckField::Missing,
                        expected: Vec::new(),
                        actual: Vec::new(),
                    },
                );
            },
        }
        proof {
            let post = checks@.subrange(0, i + 1);
            assert(post.drop_last() =~= pre);
            assert forall|j: int| 0 <= j < pre.len() implies #[trigger] pre[j] == post[j] by {}
            if state_meets(*world, post) {
                assert forall|j: int| 0 <= j < pre.len() implies world.accounts_map().dom().contains(
                    #[trigger] pre[j].0,
                ) && account_meets(world.accounts_map()[pre[j].0], pre[j].1) by {
                    assert(post[j] == pre[j]);
                }
                assert(post[i as int] == checks@[i as int]);
            }
        }
        i = i + 1;
    }
    proof {
        assert(checks@.subrange(0, checks@.len() as int) =~= checks@);
    }
    diffs
}

/// Builds a fresh account from its description.
pub fn build_account(setup: &AccountSetup) -> (r: Account)
    ensures
        r.wf(),
        r.nonce == setup.nonce,
        r.balance == setup.balance,
        r.code == setup.code,
        r.queue@.len() == 0,
        r.storage_map() == apply_writes(Map::empty(), storage_view(setup.storage@)),
        r.esdt_map() == token_map(setup.esdt@),
{
    let mut a = Account::new(setup.nonce, setup.balance, setup.code);
    let ghost sv = storage_view(setup.storage@);
    let mut i: usize = 0;
    while i < setup.storage.len()
        invariant
            sv == storage_view(setup.storage@),
            i <= setup.storage@.len(),
            a.storage_map() == apply_writes(Map::empty(), sv.subrange(0, i as int)),
            a.esdt_map() == Map::<(Seq<u8>, u64), u128>::empty(),
            a.wf(),
            a.nonce == setup.nonce,
            a.balance == setup.balance,
            a.code == setup.code,
            a.queue@.len() == 0,
        decreases setup.storage@.len() - i,
    {
        a.storage_put(setup.storage[i].0.clone(), setup.storage[i].1.clone());
        proof {
            assert(sv.subrange(0, i + 1).drop_last() =~= sv.subrange(0, i as int));
        }
        i = i + 1;
    }
    assert(sv.subrange(0, sv.len() as int) =~= sv);
    let mut k: usize = 0;
    assert(setup.esdt@.subrange(0, 0) =~= Seq::<(Vec<u8>, u64, u128)>::empty());
    assert(token_map(setup.esdt@.subrange(0, 0)) == Map::<(Seq<u8>, u64), u128>::empty());
    while k < setup.esdt.len()
        invariant
            k <= setup.esdt@.len(),
            a.esdt_map() == token_map(setup.esdt@.subrange(0, k as int)),
            a.storage_map() == apply_writes(Map::empty(), storage_view(setup.storage@)),
            a.wf(),
            a.nonce == setup.nonce,
            a.balance == setup.balance,
            a.code == setup.code,
            a.queue@.len() == 0,
        decreases setup.esdt@.len() - k,
    {
        a.set_token_balance(setup.esdt[k].0.clone(), setup.esdt[k].1, setup.esdt[k].2);
        proof {
            assert(setup.esdt@.subrange(0, k + 1).drop_last() =~= setup.esdt@.subrange(0, k as int));
        }
        k = k + 1;
    }
    assert(setup.esdt@.subrange(0, setup.esdt@.len() as int) =~= setup.esdt@);
    a
}

/// The entry `i` of `accts` is the last one, up to `n`, for its address.
pub open spec fn last_in(accts: Seq<(Address, AccountSetup)>, i: int, n: int) -> bool {
    forall|j: int| i < j < n ==> #[trigger] accts[j].0 != accts[i].0
}

/// An account exactly as its description installs it.
pub open spec fn installed(a: Account, st: AccountSetup) -> bool {
    &&& a.nonce == st.nonce
    &&& a.balance == st.balance
    &&& a.code == st.code
    &&& a.queue@.len() == 0
    &&& a.storage_map() == apply_writes(Map::empty(), storage_view(st.storage@))
    &&& a.esdt_map() == token_map(st.esdt@)
}

/// What a set-state step does, given the ledger before (`w0`) and after (`w1`).
pub open spec fn set_state_post(w0: WorldState, w1: WorldState, st: SetStateStep) -> bool {
    let m0 = w0.accounts_map();
    let m1 = w1.accounts_map();
    let accts = st.accounts@;
    &&& w1.predictions() == w0.predictions() + st.new_addresses@
    &&& (st.block matches Some(b) ==> w1.block == b)
    &&& (st.block is None ==> w1.block == w0.block)
    &&& forall|i: int| 0 <= i < accts.len() ==> m1.dom().contains(#[trigger] accts[i].0)
    &&& forall|i: int|
        0 <= i < accts.len() && last_in(accts, i, accts.len() as int) ==> installed(
            m1[#[trigger] accts[i].0],
            accts[i].1,
        )
    &&& forall|a: Address|
        #[trigger] m0.dom().contains(a) && (forall|i: int| 0 <= i < accts.len() ==> accts[i].0 != a)
            ==> m1.dom().contains(a) && m1[a] == m0[a]
}

/// Installs the accounts of `st` in order (a later entry for the same address
/// wins), records its predictions and sets its block.
pub fn run_set_state(world: &mut WorldState, st: &SetStateStep)
    requires
        old(world).wf(),
    ensures
        final(world).wf(),
        set_state_post(*old(world), *final(world), *st),
{
    let ghost w0 = *world;
    let ghost accts = st.accounts@;
    let mut i: usize = 0;
    while i < st.accounts.len()
        invariant
            world.wf(),
            accts == st.accounts@,
            i <= accts.len(),
            world.predictions() == w0.predictions(),
            world.block == w0.block,
            forall|j: int| 0 <= j < i ==> world.accounts_map().dom().contains(#[trigger] accts[j].0),
            forall|j: int|
                0 <= j < i && last_in(accts, j, i as int) ==> installed(
                    world.accounts_map()[#[trigger] accts[j].0],
                    accts[j].1,
                ),
            forall|a: Address|
                #[trigger] w0.accounts_map().dom().contains(a) && (forall|j: int|
                    0 <= j < i ==> accts[j].0 != a) ==> world.accounts_map().dom().contains(a)
                    && world.accounts_map()[a] == w0.accounts_map()[a],
        decreases accts.len() - i,
    {
        let ghost before = world.accounts_map();
        let a = build_account(&st.accounts[i].1);
        world.put_account(st.accounts[i].0, a);
        proof {
            let addr = accts[i as int].0;
            assert forall|j: int|
                0 <= j < i + 1 && last_in(accts, j, i + 1) implies installed(
                world.accounts_map()[#[trigger] accts[j].0],
                accts[j].1,
            ) by {
                if j < i {
                    assert(accts[i as int].0 != accts[j].0);
                    assert(last_in(accts, j, i as int));
                }
            }
            assert forall|b: Address|
                #[trigger] w0.accounts_map().dom().contains(b) && (forall|j: int|
                    0 <= j < i + 1 ==> accts[j].0 != b) implies world.accounts_map().dom().contains(b)
                && world.accounts_map()[b] == w0.accounts_map()[b] by {
                assert(accts[i as int].0 != b);
            }
        }
        i = i + 1;
    }
    let mut k: usize = 0;
    while k < st.new_addresses.len()
        invariant
            world.wf(),
            k <= st.new_addresses@.len(),
            world.predictions() == w0.predictions() + st.new_addresses@.subrange(0, k as int),
            world.block == w0.block,
            forall|j: int| 0 <= j < accts.len() ==> world.accounts_map().dom().contains(#[trigger] accts[j].0),
            forall|j: int|
                0 <= j < accts.len() && last_in(accts, j, accts.len() as int) ==> installed(
                    world.accounts_map()[#[trigger] accts[j].0],
                    accts[j].1,
                ),
            forall|a: Address|
                #[trigger] w0.accounts_map().dom().contains(a) && (forall|j: int|
                    0 <= j < accts.len() ==> accts[j].0 != a) ==> world.accounts_map().dom().contains(a)
                    && world.accounts_map()[a] == w0.accounts_map()[a],
        decreases st.new_addresses@.len() - k,
    {
        let (c, n, addr) = st.new_addresses[k];
        world.record_prediction(c, n, addr);
        proof {
            assert(w0.predictions() + st.new_addresses@.subrange(0, k + 1) =~= (w0.predictions()
                + st.new_addresses@.subrange(0, k as int)).push((c, n, addr)));
        }
        k = k + 1;
    }
    assert(st.new_addresses@.subrange(0, st.new_addresses@.len() as int) =~= st.new_addresses@);
    match st.block {
        Some(b) => {
            world.set_block(b);
        },
        None => {},
    }
}

/// The cumulated validator reward of an account (zero when absent).
pub open spec fn cumulated_reward(a: Account) -> nat {
    if a.storage_map().dom().contains(reward_key_name()) {
        be_value(a.storage_map()[reward_key_name()])
    } else {
        0
    }
}

/// What crediting a validator reward does.
pub open spec fn reward_post(w0: WorldState, w1: WorldState, address: Address, amount: u128, r: Result<(), ScenarioError>) -> bool {
    let m0 = w0.accounts_map();
    let m1 = w1.accounts_map();
    let a0 = m0[address];
    let a1 = m1[address];
    &&& m1.dom() == m0.dom()
    &&& w1.predictions() == w0.predictions()
    &&& w1.block == w0.block
    &&& !m0.dom().contains(address) ==> r == Err::<(), ScenarioError>(ScenarioError::UnknownAccount)
    &&& m0.dom().contains(address) && !(a0.balance + amount <= u128::MAX && cumulated_reward(a0)
        + amount <= u128::MAX) ==> r == Err::<(), ScenarioError>(ScenarioError::RewardOverflow)
    &&& r is Err ==> m1 == m0
    &&& m0.dom().contains(address) ==> (r is Ok <==> (a0.balance + amount <= u128::MAX
        && cumulated_reward(a0) + amount <= u128::MAX))
    &&& r is Ok ==> {
        &&& a1.balance == a0.balance + amount
        &&& cumulated_reward(a1) == cumulated_reward(a0) + amount
        &&& a1.nonce == a0.nonce
        &&& a1.code == a0.code
        &&& a1.queue@ == a0.queue@
        &&& forall|b: Address| b != address && #[trigger] m0.dom().contains(b) ==> m1[b] == m0[b]
    }
}

/// Credits `amount` to the balance and to the cumulated reward of the
/// account at `address`.
pub fn validator_reward(world: &mut WorldState, address: Address, amount: u128) -> (r: Result<
    (),
    ScenarioError,
>)
    requires
        old(world).wf(),
    ensures
        final(world).wf(),
        reward_post(*old(world), *final(world), address, amount, r),
{
    let ghost w0 = *world;
    let mut acct = match world.take_account(address) {
        Some(a) => a,
        None => {
            return Err(ScenarioError::UnknownAccount);
        },
    };
    let key = reward_key_bytes();
    let current: Option<u128> = match acct.storage_get(key.as_slice()) {
        Some(v) => decode_be_u128(v.as_slice()),
        None => {
            assert(be_value(Seq::<u8>::empty()) == 0);
            Some(0)
        },
    };
    let total = match current {
        Some(c) => {
            if c > u128::MAX - amount || acct.balance > u128::MAX - amount {
                world.put_account(address, acct);
                proof {
                    assert(world.accounts_map() =~= w0.accounts_map());
                }
                return Err(ScenarioError::RewardOverflow);
            }
            c + amount
        },
        None => {
            world.put_account(address, acct);
            proof {
                assert(world.accounts_map() =~= w0.accounts_map());
            }
            return Err(ScenarioError::RewardOverflow);
        },
    };
    acct.balance = acct.balance + amount;
    let encoded = encode_be_u128(total);
    proof {
        lemma_be_bytes_value(total as nat);
    }
    acct.storage_put(key, encoded);
    world.put_account(address, acct);
    Ok(())
}

/// How a call, query or deployment step ends once its response is known:
/// success exactly when the declared expectation, if any, is met; otherwise
/// an expectation failure naming the step.
pub open spec fn expectation_outcome(
    id: String,
    expect: Option<TxExpect>,
    resp: TxResponse,
    r: Result<(), ScenarioError>,
) -> bool {
    &&& expect matches Some(e) ==> (r is Ok <==> expect_met(e, resp))
    &&& expect is None ==> r is Ok
    &&& r matches Err(x) ==> (x matches ScenarioError::ExpectationFailed { step_id, diffs }
        && step_id@ == id@ && diffs@.len() > 0)
}

/// What running `s0` does: `w0`/`w1` are the ledger before and after, `s1`
/// the step afterwards, `r` the result.
pub open spec fn step_effect(
    w0: WorldState,
    w1: WorldState,
    s0: Step,
    s1: Step,
    r: Result<(), ScenarioError>,
) -> bool {
    match s0 {
        Step::SetState(st) => r is Ok && s1 == s0 && set_state_post(w0, w1, st),
        Step::ScCall(c0) => s1 matches Step::ScCall(c1) && c1.id == c0.id && c1.tx == c0.tx
            && c1.expect == c0.expect && (match r {
            Err(ScenarioError::UnknownAccount) => c1.response == c0.response && call_post(
                w0,
                w1,
                c0.tx,
                Err(ScenarioError::UnknownAccount),
            ),
            _ => c1.response matches Some(resp) && call_post(w0, w1, c0.tx, Ok(resp))
                && expectation_outcome(c0.id, c0.expect, resp, r),
        }),
        Step::ScQuery(q0) => s1 matches Step::ScQuery(q1) && q1.id == q0.id && q1.tx == q0.tx
            && q1.expect == q0.expect && w1 == w0 && (match r {
            Err(ScenarioError::ExpectationFailed { .. }) | Ok(()) => q1.response matches Some(resp)
                && query_post(w0, q0.tx, Ok(resp)) && expectation_outcome(q0.id, q0.expect, resp, r),
            Err(e) => q1.response == q0.response && query_post(w0, q0.tx, Err(e)),
        }),
        Step::ScDeploy(d0) => s1 matches Step::ScDeploy(d1) && d1.id == d0.id && d1.tx == d0.tx
            && d1.expect == d0.expect && (match r {
            Err(ScenarioError::ExpectationFailed { .. }) | Ok(()) => d1.response matches Some(resp)
                && deploy_post(w0, w1, d0.tx, Ok(resp)) && expectation_outcome(d0.id, d0.expect, resp, r),
            Err(e) => d1.response == d0.response && deploy_post(w0, w1, d0.tx, Err(e)),
        }),
        Step::Transfer(t) => s1 == s0 && transfer_post(w0, w1, t.from, t.to, t.amount, r is Ok)
            && (r is Err ==> r == Err::<(), ScenarioError>(ScenarioError::TransferFailed)),
        Step::ValidatorReward(v) => s1 == s0 && reward_post(w0, w1, v.address, v.amount, r),
        Step::CheckState(c) => s1 == s0 && w1 == w0 && (r is Ok <==> state_meets(w0, c.accounts@))
            && (r matches Err(x) ==> (x matches ScenarioError::ExpectationFailed { step_id, diffs }
            && step_id@ == c.id@ && diffs@.len() > 0)),
        Step::DumpState => s1 == s0 && w1 == w0 && r is Ok,
    }
}

/// Applies one step to the ledger. Calls, queries and deployments keep their
/// response in the step and are checked against their expectation, if any.
pub fn run_step(world: &mut WorldState, step: &mut Step) -> (r: Result<(), ScenarioError>)
    requires
        old(world).wf(),
    ensures
        final(world).wf(),
        step_kind(*final(step)) == step_kind(*old(step)),
        step_effect(*old(world), *final(world), *old(step), *final(step), r),
{
    match step {
        Step::SetState(s) => {
            run_set_state(world, s);
            Ok(())
        },
        Step::ScCall(c) => {
            let resp = perform_sc_call(world, &c.tx)?;
            let diffs = match &c.expect {
                Some(e) => check_tx_output(e, &resp),
                None => Vec::new(),
            };
            c.response = Some(resp);
            if diffs.len() == 0 {
                Ok(())
            } else {
                Err(ScenarioError::ExpectationFailed { step_id: c.id.clone(), diffs })
            }
        },
        Step::ScQuery(q) => {
            let resp = perform_sc_query(world, &q.tx)?;
            let diffs = match &q.expect {
                Some(e) => check_tx_output(e, &resp),
                None => Vec::new(),
            };
            q.response = Some(resp);
            if diffs.len() == 0 {
                Ok(())
            } else {
                Err(ScenarioError::ExpectationFailed { step_id: q.id.clone(), diffs })
            }
        },
        Step::ScDeploy(d) => {
            let resp = perform_sc_deploy(world, &d.tx)?;
            let diffs = match &d.expect {
                Some(e) => check_tx_output(e, &resp),
                None => Vec::new(),
            };
            d.response = Some(resp);
            if diffs.len() == 0 {
                Ok(())
            } else {
                Err(ScenarioError::ExpectationFailed { step_id: d.id.clone(), diffs })
            }
        },
        Step::Transfer(t) => {
            if transfer(world, t.from, t.to, t.amount) {
                Ok(())
            } else {
                Err(ScenarioError::TransferFailed)
            }
        },
        Step::ValidatorReward(v) => validator_reward(world, v.address, v.amount),
        Step::CheckState(c) => {
            let diffs = check_state(world, &c.accounts);
            if diffs.len() == 0 {
                Ok(())
            } else {
                Err(ScenarioError::ExpectationFailed { step_id: c.id.clone(), diffs })
            }
        },
        Step::DumpState => Ok(()),
    }
}

} // verus!
