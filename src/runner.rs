//! Runs calls, queries and deployments against the ledger, resolving queued
//! calls and their callbacks.
use vstd::prelude::*;
use crate::bytes::{be_bytes, be_value, encode_be, lemma_be_bytes_value};
use crate::contracts::{
    callback_count_name, endpoint_of, endpoint_writes, execute_endpoint, legacy_callback_bytes,
    lemma_callback_endpoints, promises_callback_method_bytes, stored_number, success_condition,
    writes_view, CallKind, ContractCode, Endpoint, Outcome, QueuedCall, STATUS_CONTRACT_NOT_FOUND,
    STATUS_OK, STATUS_OUT_OF_FUNDS, STATUS_USER_ERROR,
};
use crate::model::{
    CallbackRecord, ResolvedCall, ScenarioError, TokenTransfer, TxCall, TxDeploy, TxQuery, TxResponse,
};
use crate::bytes::bytes_eq;
use crate::contracts::{
    endpoint_out, forward_queued_calls_name, get_sum_name, init_bytes, out_view, sum_key_name,
};
use crate::world::{derive_address, derived_address, predicted, token_balance, Account, Address, WorldState};

verus! {

/// `m` after the writes `w`, in order.
pub open spec fn apply_writes(m: Map<Seq<u8>, Seq<u8>>, w: Seq<(Seq<u8>, Seq<u8>)>) -> Map<
    Seq<u8>,
    Seq<u8>,
>
    decreases w.len(),
{
    if w.len() == 0 {
        m
    } else {
        apply_writes(m, w.drop_last()).insert(w.last().0, w.last().1)
    }
}

/// The calls an outcome appends to the queue.
pub open spec fn enqueued(o: Outcome) -> Seq<QueuedCall> {
    match o.enqueue {
        Some(q) => seq![q],
        None => seq![],
    }
}

/// Applies an outcome to the contract's account and returns the calls it
/// drained from the queue.
fn apply_outcome(account: &mut Account, outcome: Outcome) -> (drained: Vec<QueuedCall>)
    requires
        old(account).wf(),
    ensures
        final(account).wf(),
        final(account).storage_map() == apply_writes(
            old(account).storage_map(),
            writes_view(outcome.writes@),
        ),
        final(account).nonce == old(account).nonce,
        final(account).balance == old(account).balance,
        final(account).code == old(account).code,
        final(account).esdt@ == old(account).esdt@,
        outcome.drain ==> drained@ == old(account).queue@ + enqueued(outcome)
            && final(account).queue@.len() == 0,
        !outcome.drain ==> drained@.len() == 0 && final(account).queue@ == old(account).queue@
            + enqueued(outcome),
{
    let ghost w = writes_view(outcome.writes@);
    let ghost m0 = account.storage_map();
    let mut i: usize = 0;
    while i < outcome.writes.len()
        invariant
            w == writes_view(outcome.writes@),
            i <= outcome.writes@.len(),
            account.wf(),
            account.storage_map() == apply_writes(m0, w.subrange(0, i as int)),
            account.nonce == old(account).nonce,
            account.balance == old(account).balance,
            account.code == old(account).code,
            account.queue@ == old(account).queue@,
            account.esdt@ == old(account).esdt@,
        decreases outcome.writes@.len() - i,
    {
        let k = outcome.writes[i].0.clone();
        let v = outcome.writes[i].1.clone();
        account.storage_put(k, v);
        proof {
            assert(w.subrange(0, i + 1).drop_last() =~= w.subrange(0, i as int));
        }
        i = i + 1;
    }
    assert(w.subrange(0, w.len() as int) =~= w);
    match outcome.enqueue {
        Some(q) => {
            account.queue.push(q);
        },
        None => {},
    }
    assert(account.queue@ =~= old(account).queue@ + enqueued(outcome));
    if outcome.drain {
        let mut drained: Vec<QueuedCall> = Vec::new();
        std::mem::swap(&mut drained, &mut account.queue);
        drained
    } else {
        Vec::new()
    }
}

/// The result of one invocation.
pub struct CallResult {
    pub status: u64,
    pub message: Vec<u8>,
    pub out: Vec<Vec<u8>>,
    pub drained: Vec<QueuedCall>,
}

/// Whether an invocation of `function` on `to` is owed success.
pub open spec fn invoke_succeeds(
    world: WorldState,
    to: Address,
    egld: u128,
    function: Seq<u8>,
    args: Seq<Vec<u8>>,
    nested: bool,
) -> bool {
    &&& world.accounts_map().dom().contains(to)
    &&& world.accounts_map()[to].code matches Some(c)
    &&& endpoint_of(c, function) matches Some(ep)
    &&& success_condition(c, ep, world.accounts_map()[to], args)
    &&& egld == 0
    &&& !(nested && ep == Endpoint::Forward)
}

/// The status an invocation ends with: 3 when `to` holds no contract, 1 for
/// an unknown endpoint, 4 when the endpoint refuses its inputs or a forwarded
/// call tries to forward, 7 when the payment cannot be moved, else 0.
pub open spec fn invoke_status(
    world: WorldState,
    from: Address,
    to: Address,
    egld: u128,
    function: Seq<u8>,
    args: Seq<Vec<u8>>,
    nested: bool,
) -> u64 {
    let m = world.accounts_map();
    if !m.dom().contains(to) || m[to].code is None {
        STATUS_CONTRACT_NOT_FOUND
    } else {
        let c = m[to].code->Some_0;
        match endpoint_of(c, function) {
            None => crate::contracts::STATUS_FUNCTION_NOT_FOUND,
            Some(ep) => if !success_condition(c, ep, m[to], args) || (nested && ep
                == Endpoint::Forward) {
                STATUS_USER_ERROR
            } else if egld > 0 && from != to && !(m.dom().contains(from) && m[from].balance >= egld
                && m[to].balance + egld <= u128::MAX) {
                STATUS_OUT_OF_FUNDS
            } else {
                STATUS_OK
            },
        }
    }
}

/// Runs `function` of the contract at `to` for `from`, moving `egld` along
/// on success. A failed run changes nothing. Within forwarding (`nested`) a
/// contract may not forward its own queue.
pub fn invoke(
    world: &mut WorldState,
    from: Address,
    to: Address,
    egld: u128,
    function: &[u8],
    args: &Vec<Vec<u8>>,
    nested: bool,
) -> (r: CallResult)
    requires
        old(world).wf(),
    ensures
        final(world).wf(),
        final(world).predictions() == old(world).predictions(),
        final(world).block == old(world).block,
        final(world).accounts_map().dom() == old(world).accounts_map().dom(),
        forall|a: Address|
            a != to && a != from && #[trigger] old(world).accounts_map().dom().contains(a)
                ==> final(world).accounts_map()[a] == old(world).accounts_map()[a],
        forall|a: Address|
            #[trigger] old(world).accounts_map().dom().contains(a)
                ==> final(world).accounts_map()[a].code == old(world).accounts_map()[a].code
                && final(world).accounts_map()[a].nonce == old(world).accounts_map()[a].nonce
                && final(world).accounts_map()[a].esdt@ == old(world).accounts_map()[a].esdt@,
        from != to && old(world).accounts_map().dom().contains(from) ==> {
            let a0 = old(world).accounts_map()[from];
            let a1 = final(world).accounts_map()[from];
            a1.storage_map() == a0.storage_map() && a1.queue@ == a0.queue@ && a1.nonce == a0.nonce
        },
        r.status != STATUS_OK ==> final(world).accounts_map() == old(world).accounts_map()
            && r.drained@.len() == 0,
        r.status == STATUS_OK ==> {
            let a0 = old(world).accounts_map()[to];
            let a1 = final(world).accounts_map()[to];
            &&& old(world).accounts_map().dom().contains(to)
            &&& a0.code matches Some(c)
            &&& endpoint_of(c, function@) matches Some(ep)
            &&& a1.storage_map() == apply_writes(
                a0.storage_map(),
                endpoint_writes(c, ep, a0, args@),
            )
            &&& a1.nonce == a0.nonce
            &&& (ep == Endpoint::Forward ==> r.drained@ == a0.queue@ && a1.queue@.len() == 0)
            &&& (ep != Endpoint::Forward ==> r.drained@.len() == 0)
            &&& (ep matches Endpoint::AddQueued(k) ==> a1.queue@.len() == a0.queue@.len() + 1
                && a1.queue@.last().kind == k && a1.queue@.drop_last() == a0.queue@)
            &&& (!(ep is AddQueued) && ep != Endpoint::Forward ==> a1.queue@ == a0.queue@)
        },
        invoke_succeeds(*old(world), to, egld, function@, args@, nested) ==> r.status == STATUS_OK,
        r.status == invoke_status(*old(world), from, to, egld, function@, args@, nested),
        r.status != STATUS_OK ==> r.out@.len() == 0,
        r.status == STATUS_OK ==> ({
            let a0 = old(world).accounts_map()[to];
            let c = a0.code->Some_0;
            let ep = endpoint_of(c, function@)->Some_0;
            &&& out_view(r.out@) == endpoint_out(c, ep, a0, args@)
            &&& (egld > 0 && from != to ==> final(world).accounts_map()[from].balance
                == old(world).accounts_map()[from].balance - egld
                && final(world).accounts_map()[to].balance == a0.balance + egld)
            &&& (egld == 0 || from == to ==> final(world).accounts_map()[to].balance == a0.balance)
        }),
{
    let ghost w0 = *world;
    let mut account = match world.take_account(to) {
        Some(a) => a,
        None => {
            return CallResult {
                status: STATUS_CONTRACT_NOT_FOUND,
                message: crate::bytes::text_bytes("contract not found"),
                out: Vec::new(),
                drained: Vec::new(),
            };
        },
    };
    let code = match account.code {
        Some(c) => c,
        None => {
            world.put_account(to, account);
            proof {
                assert(world.accounts_map() =~= w0.accounts_map());
            }
            return CallResult {
                status: STATUS_CONTRACT_NOT_FOUND,
                message: crate::bytes::text_bytes("account holds no contract"),
                out: Vec::new(),
                drained: Vec::new(),
            };
        },
    };
    let outcome = execute_endpoint(code, &account, egld, function, args);
    if outcome.status != STATUS_OK || (nested && outcome.drain) {
        let status = if outcome.status != STATUS_OK {
            outcome.status
        } else {
            STATUS_USER_ERROR
        };
        let message = if outcome.status != STATUS_OK {
            outcome.message
        } else {
            crate::bytes::text_bytes("forwarding from within a forwarded call is not supported")
        };
        world.put_account(to, account);
        proof {
            assert(world.accounts_map() =~= w0.accounts_map());
        }
        return CallResult { status, message, out: Vec::new(), drained: Vec::new() };
    }
    if egld > 0 && from != to {
        let mut sender = match world.take_account(from) {
            Some(s) => s,
            None => {
                world.put_account(to, account);
                proof {
                    assert(world.accounts_map() =~= w0.accounts_map());
                }
                return CallResult {
                    status: STATUS_OUT_OF_FUNDS,
                    message: crate::bytes::text_bytes("sender account not found"),
                    out: Vec::new(),
                    drained: Vec::new(),
                };
            },
        };
        if sender.balance < egld || account.balance > u128::MAX - egld {
            world.put_account(from, sender);
            world.put_account(to, account);
            proof {
                assert(world.accounts_map() =~= w0.accounts_map());
            }
            return CallResult {
                status: STATUS_OUT_OF_FUNDS,
                message: crate::bytes::text_bytes("insufficient funds"),
                out: Vec::new(),
                drained: Vec::new(),
            };
        }
        sender.balance = sender.balance - egld;
        account.balance = account.balance + egld;
        world.put_account(from, sender);
    }
    let out = outcome.out;
    let outcome_rest = Outcome {
        status: outcome.status,
        message: Vec::new(),
        out: Vec::new(),
        writes: outcome.writes,
        enqueue: outcome.enqueue,
        drain: outcome.drain,
    };
    let drained = apply_outcome(&mut account, outcome_rest);
    world.put_account(to, account);
    CallResult { status: STATUS_OK, message: Vec::new(), out, drained }
}


/// What a transfer does, given the ledger before (`w0`) and after (`w1`).
pub open spec fn transfer_post(w0: WorldState, w1: WorldState, from: Address, to: Address, amount: u128, r: bool) -> bool {
    let m0 = w0.accounts_map();
    let m1 = w1.accounts_map();
    &&& w1.predictions() == w0.predictions()
    &&& w1.block == w0.block
    &&& m1.dom() == m0.dom()
    &&& !r ==> m1 == m0
    &&& forall|a: Address| a != to && a != from && #[trigger] m0.dom().contains(a) ==> m1[a] == m0[a]
    &&& forall|a: Address|
        #[trigger] m0.dom().contains(a) ==> {
            &&& m1[a].storage_map() == m0[a].storage_map()
            &&& m1[a].queue@ == m0[a].queue@
            &&& m1[a].nonce == m0[a].nonce
            &&& m1[a].code == m0[a].code
            &&& m1[a].esdt@ == m0[a].esdt@
        }
    &&& r && from != to ==> m1[from].balance == m0[from].balance - amount && m1[to].balance
        == m0[to].balance + amount
    &&& r && from == to ==> m1 == m0
    &&& r <==> (m0.dom().contains(from) && m0.dom().contains(to) && (from != to ==> m0[from].balance
        >= amount && m0[to].balance + amount <= u128::MAX))
}

/// Moves `amount` of native balance from `from` to `to`; `false`, with
/// nothing changed, when either account is missing or funds do not suffice.
pub fn transfer(world: &mut WorldState, from: Address, to: Address, amount: u128) -> (r: bool)
    requires
        old(world).wf(),
    ensures
        final(world).wf(),
        transfer_post(*old(world), *final(world), from, to, amount, r),
{
    let ghost w0 = *world;
    let mut sender = match world.take_account(from) {
        Some(s) => s,
        None => {
            return false;
        },
    };
    if from == to {
        world.put_account(from, sender);
        proof {
            assert(world.accounts_map() =~= w0.accounts_map());
        }
        return true;
    }
    let mut receiver = match world.take_account(to) {
        Some(a) => a,
        None => {
            world.put_account(from, sender);
            proof {
                assert(world.accounts_map() =~= w0.accounts_map());
            }
            return false;
        },
    };
    if sender.balance < amount || receiver.balance > u128::MAX - amount {
        world.put_account(to, receiver);
        world.put_account(from, sender);
        proof {
            assert(world.accounts_map() =~= w0.accounts_map());
        }
        return false;
    }
    sender.balance = sender.balance - amount;
    receiver.balance = receiver.balance + amount;
    world.put_account(to, receiver);
    world.put_account(from, sender);
    proof {
        assert(world.accounts_map().dom() =~= w0.accounts_map().dom());
    }
    true
}

/// No two transfers name the same token (identifier and nonce).
pub open spec fn tokens_distinct(t: Seq<TokenTransfer>) -> bool {
    forall|i: int, j: int|
        0 <= i < j < t.len() ==> !(t[i].token_id@ == t[j].token_id@ && t[i].nonce == t[j].nonce)
}

/// The token transfers can all be made from `from` to `to`.
pub open spec fn tokens_movable(world: WorldState, from: Address, to: Address, t: Seq<TokenTransfer>) -> bool {
    let m = world.accounts_map();
    &&& from != to
    &&& m.dom().contains(from)
    &&& m.dom().contains(to)
    &&& tokens_distinct(t)
    &&& forall|i: int|
        0 <= i < t.len() ==> token_balance(m[from], #[trigger] t[i].token_id@, t[i].nonce)
            >= t[i].amount && token_balance(m[to], t[i].token_id@, t[i].nonce) + t[i].amount
            <= u128::MAX
}

fn check_tokens_distinct(t: &Vec<TokenTransfer>) -> (r: bool)
    ensures
        r == tokens_distinct(t@),
{
    let mut i: usize = 0;
    while i < t.len()
        invariant
            i <= t@.len(),
            forall|a: int, b: int|
                0 <= a < i && a < b < t@.len() ==> !(t@[a].token_id@ == t@[b].token_id@ && t@[a].nonce
                    == t@[b].nonce),
        decreases t@.len() - i,
    {
        let mut j: usize = i + 1;
        while j < t.len()
            invariant
                i < t@.len(),
                i + 1 <= j <= t@.len(),
                forall|a: int, b: int|
                    0 <= a < i && a < b < t@.len() ==> !(t@[a].token_id@ == t@[b].token_id@
                        && t@[a].nonce == t@[b].nonce),
                forall|b: int|
                    i < b < j ==> !(t@[i as int].token_id@ == t@[b].token_id@ && t@[i as int].nonce
                        == t@[b].nonce),
            decreases t@.len() - j,
        {
            if t[i].nonce == t[j].nonce && bytes_eq(t[i].token_id.as_slice(), t[j].token_id.as_slice()) {
                return false;
            }
            j = j + 1;
        }
        i = i + 1;
    }
    true
}

/// Whether `move_tokens` would succeed, without changing anything.
pub fn can_move_tokens(world: &WorldState, from: Address, to: Address, t: &Vec<TokenTransfer>) -> (r: bool)
    requires
        world.wf(),
    ensures
        r == tokens_movable(*world, from, to, t@),
{
    if from == to || !check_tokens_distinct(t) {
        return false;
    }
    let sender = match world.get_account(from) {
        Some(a) => a,
        None => {
            return false;
        },
    };
    let receiver = match world.get_account(to) {
        Some(a) => a,
        None => {
            return false;
        },
    };
    let mut i: usize = 0;
    while i < t.len()
        invariant
            world.accounts_map().dom().contains(from) && world.accounts_map()[from] == *sender,
            world.accounts_map().dom().contains(to) && world.accounts_map()[to] == *receiver,
            from != to,
            tokens_distinct(t@),
            sender.wf(),
            receiver.wf(),
            i <= t@.len(),
            forall|k: int|
                0 <= k < i ==> token_balance(*sender, #[trigger] t@[k].token_id@, t@[k].nonce)
                    >= t@[k].amount && token_balance(*receiver, t@[k].token_id@, t@[k].nonce)
                    + t@[k].amount <= u128::MAX,
        decreases t@.len() - i,
    {
        let sb = sender.token_balance(t[i].token_id.as_slice(), t[i].nonce);
        let rb = receiver.token_balance(t[i].token_id.as_slice(), t[i].nonce);
        if sb < t[i].amount || rb > u128::MAX - t[i].amount {
            assert(!(token_balance(*sender, t@[i as int].token_id@, t@[i as int].nonce) >= t@[i as int].amount
                && token_balance(*receiver, t@[i as int].token_id@, t@[i as int].nonce) + t@[i as int].amount
                <= u128::MAX));
            return false;
        }
        i = i + 1;
    }
    true
}

/// Moves every token transfer from `from` to `to`, all or nothing: `false`,
/// with nothing changed, unless the accounts differ and exist, no token is
/// named twice, the sender holds each amount and no receiver balance overflows.
pub fn move_tokens(world: &mut WorldState, from: Address, to: Address, t: &Vec<TokenTransfer>) -> (r: bool)
    requires
        old(world).wf(),
    ensures
        final(world).wf(),
        final(world).predictions() == old(world).predictions(),
        final(world).block == old(world).block,
        final(world).accounts_map().dom() == old(world).accounts_map().dom(),
        r == tokens_movable(*old(world), from, to, t@),
        !r ==> final(world).accounts_map() == old(world).accounts_map(),
        forall|a: Address|
            a != to && a != from && #[trigger] old(world).accounts_map().dom().contains(a)
                ==> final(world).accounts_map()[a] == old(world).accounts_map()[a],
        forall|a: Address|
            #[trigger] old(world).accounts_map().dom().contains(a) ==> {
                let a0 = old(world).accounts_map()[a];
                let a1 = final(world).accounts_map()[a];
                a1.storage_map() == a0.storage_map() && a1.queue@ == a0.queue@ && a1.nonce
                    == a0.nonce && a1.code == a0.code && a1.balance == a0.balance
            },
        r ==> forall|i: int|
            0 <= i < t@.len() ==> token_balance(
                final(world).accounts_map()[from],
                #[trigger] t@[i].token_id@,
                t@[i].nonce,
            ) == token_balance(old(world).accounts_map()[from], t@[i].token_id@, t@[i].nonce)
                - t@[i].amount && token_balance(
                final(world).accounts_map()[to],
                t@[i].token_id@,
                t@[i].nonce,
            ) == token_balance(old(world).accounts_map()[to], t@[i].token_id@, t@[i].nonce)
                + t@[i].amount,
{
    let ghost w0 = *world;
    if from == to || !check_tokens_distinct(t) {
        return false;
    }
    let mut sender = match world.take_account(from) {
        Some(a) => a,
        None => {
            return false;
        },
    };
    let mut receiver = match world.take_account(to) {
        Some(a) => a,
        None => {
            world.put_account(from, sender);
            proof {
                assert(world.accounts_map() =~= w0.accounts_map());
            }
            return false;
        },
    };
    let ghost s0 = sender;
    let ghost r0 = receiver;
    let ghost w2 = *world;
    proof {
        assert(w2.accounts_map() == w0.accounts_map().remove(from).remove(to));
    }
    let mut i: usize = 0;
    while i < t.len()
        invariant
            world.wf(),
            *world == w2,
            w2.accounts_map() == w0.accounts_map().remove(from).remove(to),
            w2.predictions() == w0.predictions(),
            w2.block == w0.block,
            w0 == *old(world),
            from != to,
            w0.accounts_map().dom().contains(from) && w0.accounts_map()[from] == s0,
            w0.accounts_map().dom().contains(to) && w0.accounts_map()[to] == r0,
            sender == s0,
            receiver == r0,
            sender.wf(),
            receiver.wf(),
            i <= t@.len(),
            forall|k: int|
                0 <= k < i ==> token_balance(s0, #[trigger] t@[k].token_id@, t@[k].nonce) >= t@[k].amount
                    && token_balance(r0, t@[k].token_id@, t@[k].nonce) + t@[k].amount <= u128::MAX,
        decreases t@.len() - i,
    {
        let sb = sender.token_balance(t[i].token_id.as_slice(), t[i].nonce);
        let rb = receiver.token_balance(t[i].token_id.as_slice(), t[i].nonce);
        if sb < t[i].amount || rb > u128::MAX - t[i].amount {
            world.put_account(to, receiver);
            world.put_account(from, sender);
            proof {
                assert(world.accounts_map() =~= w0.accounts_map());
            }
            return false;
        }
        i = i + 1;
    }
    let mut i: usize = 0;
    while i < t.len()
        invariant
            world.wf(),
            *world == w2,
            w2.accounts_map() == w0.accounts_map().remove(from).remove(to),
            w2.predictions() == w0.predictions(),
            w2.block == w0.block,
            w0 == *old(world),
            from != to,
            w0.accounts_map().dom().contains(from) && w0.accounts_map()[from] == s0,
            w0.accounts_map().dom().contains(to) && w0.accounts_map()[to] == r0,
            sender.wf(),
            receiver.wf(),
            i <= t@.len(),
            tokens_distinct(t@),
            sender.storage_map() == s0.storage_map() && sender.queue@ == s0.queue@ && sender.nonce
                == s0.nonce && sender.code == s0.code && sender.balance == s0.balance,
            receiver.storage_map() == r0.storage_map() && receiver.queue@ == r0.queue@
                && receiver.nonce == r0.nonce && receiver.code == r0.code && receiver.balance
                == r0.balance,
            forall|k: int|
                0 <= k < t@.len() ==> token_balance(s0, #[trigger] t@[k].token_id@, t@[k].nonce) >= t@[k].amount
                    && token_balance(r0, t@[k].token_id@, t@[k].nonce) + t@[k].amount <= u128::MAX,
            forall|k: int|
                0 <= k < t@.len() ==> token_balance(sender, #[trigger] t@[k].token_id@, t@[k].nonce)
                    == token_balance(s0, t@[k].token_id@, t@[k].nonce) - (if k < i {
                    t@[k].amount as int
                } else {
                    0
                }) && token_balance(receiver, t@[k].token_id@, t@[k].nonce) == token_balance(
                    r0,
                    t@[k].token_id@,
                    t@[k].nonce,
                ) + (if k < i {
                    t@[k].amount as int
                } else {
                    0
                }),
        decreases t@.len() - i,
    {
        let sb = sender.token_balance(t[i].token_id.as_slice(), t[i].nonce);
        let rb = receiver.token_balance(t[i].token_id.as_slice(), t[i].nonce);
        let ghost sp = sender;
        let ghost rp = receiver;
        sender.set_token_balance(t[i].token_id.clone(), t[i].nonce, sb - t[i].amount);
        receiver.set_token_balance(t[i].token_id.clone(), t[i].nonce, rb + t[i].amount);
        proof {
            assert forall|k: int| 0 <= k < t@.len() && k != i implies token_balance(
                sender,
                #[trigger] t@[k].token_id@,
                t@[k].nonce,
            ) == token_balance(sp, t@[k].token_id@, t@[k].nonce) && token_balance(
                receiver,
                t@[k].token_id@,
                t@[k].nonce,
            ) == token_balance(rp, t@[k].token_id@, t@[k].nonce) by {
                if k < i {
                    assert(!(t@[k].token_id@ == t@[i as int].token_id@ && t@[k].nonce == t@[i as int].nonce));
                } else {
                    assert(!(t@[i as int].token_id@ == t@[k].token_id@ && t@[i as int].nonce == t@[k].nonce));
                }
            }
        }
        i = i + 1;
    }
    world.put_account(to, receiver);
    world.put_account(from, sender);
    proof {
        assert(world.accounts_map().dom() =~= w0.accounts_map().dom());
    }
    true
}

/// Number of promise calls in a queue.
pub open spec fn promise_count(calls: Seq<QueuedCall>) -> nat
    decreases calls.len(),
{
    if calls.len() == 0 {
        0
    } else {
        promise_count(calls.drop_last()) + if calls.last().kind == CallKind::Promise {
            1nat
        } else {
            0nat
        }
    }
}

proof fn lemma_promise_count_prefix(calls: Seq<QueuedCall>, i: int)
    requires
        0 <= i <= calls.len(),
    ensures
        promise_count(calls.subrange(0, i)) <= promise_count(calls),
    decreases calls.len() - i,
{
    if i < calls.len() {
        lemma_promise_count_prefix(calls, i + 1);
        assert(calls.subrange(0, i + 1).drop_last() =~= calls.subrange(0, i));
    } else {
        assert(calls.subrange(0, i) =~= calls);
    }
}

/// Queueing calls adds the promises among them to the count: `N` queued
/// promise calls, forwarded together, give exactly `N` callbacks, and an
/// empty queue gives none.
pub proof fn lemma_promise_accounting(queue: Seq<QueuedCall>, added: Seq<QueuedCall>)
    requires
        forall|i: int| 0 <= i < added.len() ==> (#[trigger] added[i]).kind == CallKind::Promise,
    ensures
        promise_count(queue + added) == promise_count(queue) + added.len(),
        promise_count(added) == added.len(),
        promise_count(Seq::<QueuedCall>::empty()) == 0,
    decreases added.len(),
{
    if added.len() > 0 {
        let shorter = added.drop_last();
        assert forall|i: int| 0 <= i < shorter.len() implies (#[trigger] shorter[i]).kind
            == CallKind::Promise by {
            assert(shorter[i] == added[i]);
        }
        lemma_promise_accounting(queue, shorter);
        assert((queue + added).drop_last() =~= queue + shorter);
        assert((queue + added).last() == added.last());
        assert(added.last().kind == CallKind::Promise);
    }
}

/// The conditions under which forwarding must leave the callback counter of
/// `caller` raised by the number of promises: the caller is a forwarder, no
/// call targets the caller itself, and the counter cannot overflow.
pub open spec fn promise_accounting_applies(
    world: WorldState,
    caller: Address,
    calls: Seq<QueuedCall>,
) -> bool {
    &&& world.accounts_map().dom().contains(caller)
    &&& world.accounts_map()[caller].code == Some(ContractCode::ForwarderQueue)
    &&& forall|i: int| 0 <= i < calls.len() ==> #[trigger] calls[i].to != caller
    &&& stored_number(world.accounts_map()[caller], callback_count_name()) + promise_count(calls)
        <= u64::MAX
}

/// Every call is a promise or a legacy async call: nothing runs
/// synchronously and no payment moves before its endpoint.
pub open spec fn only_callbacks(calls: Seq<QueuedCall>) -> bool {
    forall|i: int|
        0 <= i < calls.len() ==> (#[trigger] calls[i]).kind == CallKind::Promise || calls[i].kind
            == CallKind::LegacyAsync
}

/// A record that matches queued call `c`, with the callback it is owed.
pub open spec fn record_matches(rec: ResolvedCall, c: QueuedCall) -> bool {
    &&& rec.kind == c.kind
    &&& rec.to == c.to
    &&& ((c.kind == CallKind::Promise || c.kind == CallKind::LegacyAsync) <==> rec.callback is Some)
    &&& (rec.callback matches Some(cb) ==> cb.args@.len() == rec.out@.len() + 2 && cb.args@[0]@
        == be_bytes(rec.status as nat) && cb.args@[1]@ == rec.message@ && forall|j: int|
        0 <= j < rec.out@.len() ==> #[trigger] cb.args@[j + 2]@ == rec.out@[j]@)
    &&& (c.kind != CallKind::TransferExecute ==> !rec.payment_moved)
}

/// The results of the successful synchronous calls in `log`, in order.
pub open spec fn sync_results(log: Seq<ResolvedCall>) -> Seq<Seq<u8>>
    decreases log.len(),
{
    if log.len() == 0 {
        seq![]
    } else if log.last().kind == CallKind::Sync && log.last().status == STATUS_OK {
        sync_results(log.drop_last()) + out_view(log.last().out@)
    } else {
        sync_results(log.drop_last())
    }
}

/// What resolving a forwarded queue produced.
pub struct Resolution {
    /// The first failure of a synchronous or transfer-and-execute call, if any.
    pub status: u64,
    pub message: Vec<u8>,
    /// Results of the synchronous calls, in order.
    pub out: Vec<Vec<u8>>,
    pub promise_callbacks: u64,
    pub legacy_callbacks: u64,
    /// Each call in queue order.
    pub log: Vec<ResolvedCall>,
}

/// The arguments a callback receives: the call's status, its message and
/// its results.
fn callback_args(res: &CallResult) -> (r: Vec<Vec<u8>>)
    ensures
        r@.len() == res.out@.len() + 2,
        r@[0]@ == be_bytes(res.status as nat),
        r@[1]@ == res.message@,
        forall|j: int| 0 <= j < res.out@.len() ==> #[trigger] r@[j + 2]@ == res.out@[j]@,
{
    let mut args: Vec<Vec<u8>> = Vec::new();
    args.push(encode_be(res.status));
    args.push(res.message.clone());
    let mut i: usize = 0;
    while i < res.out.len()
        invariant
            i <= res.out@.len(),
            args@.len() == i + 2,
            args@[0]@ == be_bytes(res.status as nat),
            args@[1]@ == res.message@,
            forall|j: int| 0 <= j < i ==> #[trigger] args@[j + 2]@ == res.out@[j]@,
        decreases res.out@.len() - i,
    {
        args.push(res.out[i].clone());
        i = i + 1;
    }
    args
}

/// Performs the calls drained from `caller`'s queue, oldest first. Sync calls
/// run at once and add their results; transfer-and-execute calls move the
/// payment even when the endpoint then fails; legacy async calls run and then
/// call back `callBack` on the caller; promises run and then call back
/// `promises_callback_method`, failed ones included. Calls that callbacks
/// queue wait for the next forwarding.
pub fn resolve_queue(world: &mut WorldState, caller: Address, calls: Vec<QueuedCall>) -> (r:
    Resolution)
    requires
        old(world).wf(),
        calls@.len() <= u64::MAX,
    ensures
        final(world).wf(),
        final(world).predictions() == old(world).predictions(),
        final(world).block == old(world).block,
        final(world).accounts_map().dom() == old(world).accounts_map().dom(),
        r.promise_callbacks == promise_count(calls@),
        calls@.len() == 0 ==> r.status == STATUS_OK && final(world).accounts_map() == old(
            world,
        ).accounts_map(),
        forall|a: Address|
            #[trigger] old(world).accounts_map().dom().contains(a)
                ==> final(world).accounts_map()[a].nonce == old(world).accounts_map()[a].nonce
                && final(world).accounts_map()[a].esdt@ == old(world).accounts_map()[a].esdt@,
        promise_accounting_applies(*old(world), caller, calls@) ==> stored_number(
            final(world).accounts_map()[caller],
            callback_count_name(),
        ) == stored_number(old(world).accounts_map()[caller], callback_count_name())
            + promise_count(calls@),
        promise_accounting_applies(*old(world), caller, calls@) ==> final(world).accounts_map()[caller].queue@
            == old(world).accounts_map()[caller].queue@,
        only_callbacks(calls@) ==> r.status == STATUS_OK && r.out@.len() == 0,
        r.log@.len() == calls@.len(),
        forall|i: int| 0 <= i < calls@.len() ==> record_matches(#[trigger] r.log@[i], calls@[i]),
        out_view(r.out@) == sync_results(r.log@),
{
    let ghost w0 = *world;
    let ghost applies = promise_accounting_applies(*old(world), caller, calls@);
    let ghost c0 = stored_number(old(world).accounts_map()[caller], callback_count_name());
    let mut status: u64 = STATUS_OK;
    let mut message: Vec<u8> = Vec::new();
    let mut out: Vec<Vec<u8>> = Vec::new();
    let mut promises: u64 = 0;
    let mut legacy: u64 = 0;
    let mut log: Vec<ResolvedCall> = Vec::new();
    let mut i: usize = 0;
    proof {
        lemma_callback_endpoints();
        assert(calls@.subrange(0, 0) =~= Seq::<QueuedCall>::empty());
    }
    while i < calls.len()
        invariant
            world.wf(),
            calls@.len() <= u64::MAX,
            i <= calls@.len(),
            legacy <= i,
            promises <= i,
            i == 0 ==> status == STATUS_OK && world.accounts_map() == w0.accounts_map(),
            world.predictions() == w0.predictions(),
            world.block == w0.block,
            world.accounts_map().dom() == w0.accounts_map().dom(),
            forall|a: Address|
                #[trigger] w0.accounts_map().dom().contains(a) ==> world.accounts_map()[a].code
                    == w0.accounts_map()[a].code && world.accounts_map()[a].nonce
                    == w0.accounts_map()[a].nonce && world.accounts_map()[a].esdt@
                    == w0.accounts_map()[a].esdt@,
            promises == promise_count(calls@.subrange(0, i as int)),
            applies == promise_accounting_applies(w0, caller, calls@),
            c0 == stored_number(w0.accounts_map()[caller], callback_count_name()),
            applies ==> stored_number(world.accounts_map()[caller], callback_count_name()) == c0
                + promises,
            applies ==> world.accounts_map()[caller].queue@ == w0.accounts_map()[caller].queue@,
            only_callbacks(calls@) ==> status == STATUS_OK && out@.len() == 0,
            log@.len() == i,
            forall|j: int| 0 <= j < i ==> record_matches(#[trigger] log@[j], calls@[j]),
            out_view(out@) == sync_results(log@),
        decreases calls@.len() - i,
    {
        proof {
            assert(calls@.subrange(0, i + 1).drop_last() =~= calls@.subrange(0, i as int));
            lemma_promise_count_prefix(calls@, i + 1);
        }
        let call = &calls[i];
        let ghost before = *world;
        match call.kind {
            CallKind::Sync => {
                let res = invoke(world, caller, call.to, call.payment, call.endpoint.as_slice(), &call.args, true);
                let ghost out0 = out_view(out@);
                if res.status == STATUS_OK {
                    let mut k: usize = 0;
                    while k < res.out.len()
                        invariant
                            k <= res.out@.len(),
                            out_view(out@) == out0 + out_view(res.out@).subrange(0, k as int),
                        decreases res.out@.len() - k,
                    {
                        let item = res.out[k].clone();
                        proof {
                            assert(out_view(out@.push(item)) =~= out_view(out@).push(item@));
                            assert(out0 + out_view(res.out@).subrange(0, k + 1) =~= (out0 + out_view(
                                res.out@,
                            ).subrange(0, k as int)).push(item@));
                        }
                        out.push(item);
                        k = k + 1;
                    }
                    assert(out_view(res.out@).subrange(0, res.out@.len() as int) =~= out_view(res.out@));
                } else if status == STATUS_OK {
                    status = res.status;
                    message = res.message.clone();
                }
                let ghost log0 = log@;
                log.push(ResolvedCall { kind: call.kind, to: call.to, status: res.status, message: res.message, out: res.out, payment_moved: false, callback: None });
                proof {
                    assert(log@.drop_last() =~= log0);
                }
            },
            CallKind::TransferExecute => {
                let moved = transfer(world, caller, call.to, call.payment);
                if !moved {
                    if status == STATUS_OK {
                        status = STATUS_OUT_OF_FUNDS;
                        message = crate::bytes::text_bytes("insufficient funds");
                    }
                    let ghost log0 = log@;
                    log.push(ResolvedCall { kind: call.kind, to: call.to, status: STATUS_OUT_OF_FUNDS, message: crate::bytes::text_bytes("insufficient funds"), out: Vec::new(), payment_moved: false, callback: None });
                    proof {
                        assert(log@.drop_last() =~= log0);
                    }
                } else {
                    let res = invoke(world, caller, call.to, 0, call.endpoint.as_slice(), &call.args, true);
                    if res.status != STATUS_OK && status == STATUS_OK {
                        status = res.status;
                        message = res.message.clone();
                    }
                    let ghost log0 = log@;
                    log.push(ResolvedCall { kind: call.kind, to: call.to, status: res.status, message: res.message, out: res.out, payment_moved: true, callback: None });
                    proof {
                        assert(log@.drop_last() =~= log0);
                    }
                }
            },
            CallKind::LegacyAsync => {
                let res = invoke(world, caller, call.to, call.payment, call.endpoint.as_slice(), &call.args, true);
                let cb_args = callback_args(&res);
                let ghost mid = *world;
                let cb = invoke(world, call.to, caller, 0, legacy_callback_bytes().as_slice(), &cb_args, true);
                proof {
                    if applies {
                        assert(calls@[i as int].to != caller);
                        assert(mid.accounts_map().dom().contains(caller));
                        let m = mid.accounts_map()[caller].storage_map();
                        assert(apply_writes(m, seq![]) == m);
                    }
                }
                legacy = legacy + 1;
                let ghost log0 = log@;
                log.push(ResolvedCall { kind: call.kind, to: call.to, status: res.status, message: res.message, out: res.out, payment_moved: false, callback: Some(CallbackRecord { args: cb_args, status: cb.status }) });
                proof {
                    assert(log@.drop_last() =~= log0);
                }
            },
            CallKind::Promise => {
                let res = invoke(world, caller, call.to, call.payment, call.endpoint.as_slice(), &call.args, true);
                let cb_args = callback_args(&res);
                let ghost mid = *world;
                let cb = invoke(world, call.to, caller, 0, promises_callback_method_bytes().as_slice(), &cb_args, true);
                proof {
                    if applies {
                        assert(calls@[i as int].to != caller);
                        assert(mid.accounts_map().dom().contains(caller));
                        let a = mid.accounts_map()[caller];
                        let m = a.storage_map();
                        let n = stored_number(a, callback_count_name());
                        let w = seq![(callback_count_name(), be_bytes(n + 1))];
                        assert(w.drop_last() =~= Seq::<(Seq<u8>, Seq<u8>)>::empty());
                        assert(apply_writes(m, w.drop_last()) == m);
                        assert(w.last() == (callback_count_name(), be_bytes(n + 1)));
                        assert(apply_writes(m, w) == m.insert(callback_count_name(), be_bytes(n + 1)));
                        lemma_be_bytes_value(n + 1);
                    }
                }
                promises = promises + 1;
                let ghost log0 = log@;
                log.push(ResolvedCall { kind: call.kind, to: call.to, status: res.status, message: res.message, out: res.out, payment_moved: false, callback: Some(CallbackRecord { args: cb_args, status: cb.status }) });
                proof {
                    assert(log@.drop_last() =~= log0);
                }
            },
        }
        i = i + 1;
    }
    proof {
        assert(calls@.subrange(0, calls@.len() as int) =~= calls@);
    }
    Resolution { status, message, out, promise_callbacks: promises, legacy_callbacks: legacy, log }
}


/// Raises the nonce of the account at `a` by one (saturating).
fn bump_nonce(world: &mut WorldState, a: Address)
    requires
        old(world).wf(),
        old(world).accounts_map().dom().contains(a),
    ensures
        final(world).wf(),
        final(world).predictions() == old(world).predictions(),
        final(world).block == old(world).block,
        final(world).accounts_map().dom() == old(world).accounts_map().dom(),
        forall|b: Address|
            b != a && #[trigger] old(world).accounts_map().dom().contains(b)
                ==> final(world).accounts_map()[b] == old(world).accounts_map()[b],
        ({
            let a0 = old(world).accounts_map()[a];
            let a1 = final(world).accounts_map()[a];
            a1.storage_map() == a0.storage_map() && a1.queue@ == a0.queue@ && a1.code == a0.code
                && a1.balance == a0.balance && a1.nonce == crate::world::sat_add(a0.nonce, 1)
                && a1.esdt@ == a0.esdt@
        }),
{
    let mut acct = world.take_account(a).unwrap();
    acct.nonce = acct.nonce.saturating_add(1);
    world.put_account(a, acct);
}

fn empty_response(status: u64, message: Vec<u8>) -> (r: TxResponse)
    ensures
        r.status == status,
        r.message@ == message@,
        r.out@.len() == 0,
        r.new_address is None,
        r.promise_callbacks == 0,
        r.forwarded@.len() == 0,
{
    TxResponse {
        status,
        message,
        out: Vec::new(),
        new_address: None,
        promise_callbacks: 0,
        forwarded: Vec::new(),
    }
}

/// A call that forwards the queue of a forwarder contract, made by another
/// account, without payment, where the promise-accounting conditions hold.
pub open spec fn is_plain_forwarding(world: WorldState, tx: TxCall) -> bool {
    &&& world.accounts_map().dom().contains(tx.from)
    &&& tx.from != tx.to
    &&& tx.function@ == forward_queued_calls_name()
    &&& tx.arguments@.len() == 0
    &&& tx.egld_value == 0
    &&& tx.esdt_value@.len() == 0
    &&& world.accounts_map()[tx.to].queue@.len() <= u64::MAX
    &&& promise_accounting_applies(world, tx.to, world.accounts_map()[tx.to].queue@)
}

/// A call that does not forward a queue and whose endpoint is owed success.
pub open spec fn is_ordinary_success(world: WorldState, tx: TxCall) -> bool {
    &&& world.accounts_map().dom().contains(tx.from)
    &&& tx.esdt_value@.len() == 0
    &&& tx.function@ != forward_queued_calls_name()
    &&& invoke_succeeds(world, tx.to, tx.egld_value, tx.function@, tx.arguments@, false)
}

/// The storage of the called contract after an ordinary successful call:
/// the endpoint's writes applied to what it held before.
pub open spec fn ordinary_effect(w0: WorldState, w1: WorldState, tx: TxCall) -> bool {
    let a0 = w0.accounts_map()[tx.to];
    let c = a0.code->Some_0;
    let ep = endpoint_of(c, tx.function@)->Some_0;
    &&& w1.accounts_map().dom().contains(tx.to)
    &&& w1.accounts_map()[tx.to].storage_map() == apply_writes(
        a0.storage_map(),
        endpoint_writes(c, ep, a0, tx.arguments@),
    )
}

/// What a call does, given the ledger before (`w0`) and after (`w1`).
pub open spec fn call_post(w0: WorldState, w1: WorldState, tx: TxCall, r: Result<TxResponse, ScenarioError>) -> bool {
    let m0 = w0.accounts_map();
    let m1 = w1.accounts_map();
    let status = invoke_status(w0, tx.from, tx.to, tx.egld_value, tx.function@, tx.arguments@, false);
    &&& w1.accounts_map().dom() == w0.accounts_map().dom()
    &&& w1.predictions() == w0.predictions()
    &&& r is Err <==> !w0.accounts_map().dom().contains(tx.from)
    &&& r matches Err(e) ==> e == ScenarioError::UnknownAccount
    &&& r is Ok ==> (m1[tx.from].nonce == crate::world::sat_add(m0[tx.from].nonce, 1)
        || tx.from == tx.to)
    &&& is_ordinary_success(w0, tx) ==> (r matches Ok(resp) && resp.status == STATUS_OK
            && ordinary_effect(w0, w1, tx))
    &&& is_ordinary_success(w0, tx) && endpoint_of(m0[tx.to].code->Some_0, tx.function@) == Some(
        Endpoint::AddQueued(CallKind::Promise),
    ) ==> ({
            let q0 = w0.accounts_map()[tx.to].queue@;
            let q1 = w1.accounts_map()[tx.to].queue@;
            q1.len() == q0.len() + 1 && q1.drop_last() == q0 && q1.last().kind == CallKind::Promise
        })
    &&& is_plain_forwarding(w0, tx) ==> (r matches Ok(resp)
            && resp.promise_callbacks == promise_count(w0.accounts_map()[tx.to].queue@)
            && stored_number(w1.accounts_map()[tx.to], callback_count_name())
            == stored_number(w0.accounts_map()[tx.to], callback_count_name())
            + promise_count(w0.accounts_map()[tx.to].queue@))
    &&& m0.dom().contains(tx.from) && tx.esdt_value@.len() == 0 && status != STATUS_OK ==> (
        r matches Ok(resp) && resp.status == status && resp.out@.len() == 0
        && resp.promise_callbacks == 0 && (forall|a: Address|
        a != tx.from && #[trigger] m0.dom().contains(a) ==> m1[a] == m0[a])
        && m1[tx.from].storage_map() == m0[tx.from].storage_map() && m1[tx.from].code
        == m0[tx.from].code && m1[tx.from].balance == m0[tx.from].balance && m1[tx.from].queue@
        == m0[tx.from].queue@)
    &&& is_ordinary_success(w0, tx) ==> (r matches Ok(resp) && out_view(resp.out@) == endpoint_out(
        m0[tx.to].code->Some_0,
        endpoint_of(m0[tx.to].code->Some_0, tx.function@)->Some_0,
        m0[tx.to],
        tx.arguments@,
    ))
    &&& m0.dom().contains(tx.from) && tx.esdt_value@.len() > 0 && !tokens_movable(w0, tx.from, tx.to, tx.esdt_value@)
        ==> (r matches Ok(resp) && resp.status == STATUS_OUT_OF_FUNDS && (forall|a: Address|
        a != tx.from && #[trigger] m0.dom().contains(a) ==> m1[a] == m0[a]) && m1[tx.from].esdt@
        == m0[tx.from].esdt@ && m1[tx.from].balance == m0[tx.from].balance)
    &&& m0.dom().contains(tx.from) && tx.esdt_value@.len() > 0 && tokens_movable(w0, tx.from, tx.to, tx.esdt_value@)
        && status == STATUS_OK ==> (r matches Ok(resp) && forall|i: int|
        0 <= i < tx.esdt_value@.len() ==> token_balance(m1[tx.from], #[trigger] tx.esdt_value@[i].token_id@, tx.esdt_value@[i].nonce)
            == token_balance(m0[tx.from], tx.esdt_value@[i].token_id@, tx.esdt_value@[i].nonce)
            - tx.esdt_value@[i].amount && token_balance(m1[tx.to], tx.esdt_value@[i].token_id@, tx.esdt_value@[i].nonce)
            == token_balance(m0[tx.to], tx.esdt_value@[i].token_id@, tx.esdt_value@[i].nonce)
            + tx.esdt_value@[i].amount)
    &&& is_plain_forwarding(w0, tx) ==> m1[tx.to].queue@.len() == 0
    &&& is_plain_forwarding(w0, tx) ==> (r matches Ok(resp) && resp.forwarded@.len()
        == m0[tx.to].queue@.len() && forall|i: int|
        0 <= i < resp.forwarded@.len() ==> record_matches(#[trigger] resp.forwarded@[i], m0[tx.to].queue@[i]))
    &&& is_plain_forwarding(w0, tx) && only_callbacks(m0[tx.to].queue@) ==> (r matches Ok(resp)
        && resp.status == STATUS_OK && resp.out@.len() == 0)
}

/// Runs a call: raises the sender's nonce, runs the endpoint, then performs
/// whatever the endpoint forwarded. Contract failures come back as a response
/// with a non-zero status; a missing sender is a scenario error.
pub fn perform_sc_call(world: &mut WorldState, tx: &TxCall) -> (r: Result<TxResponse, ScenarioError>)
    requires
        old(world).wf(),
    ensures
        final(world).wf(),
        call_post(*old(world), *final(world), *tx, r),
{
    let ghost w0 = *world;
    if world.get_account(tx.from).is_none() {
        return Err(ScenarioError::UnknownAccount);
    }
    bump_nonce(world, tx.from);
    let ghost w1 = *world;
    if tx.esdt_value.len() > 0 && !can_move_tokens(world, tx.from, tx.to, &tx.esdt_value) {
        proof {
            assert(w1.accounts_map()[tx.from].esdt@ == w0.accounts_map()[tx.from].esdt@);
        }
        return Ok(empty_response(
            STATUS_OUT_OF_FUNDS,
            crate::bytes::text_bytes("token transfer not possible"),
        ));
    }
    proof {
        lemma_callback_endpoints();
        if w0.accounts_map().dom().contains(tx.to) {
            let a0 = w0.accounts_map()[tx.to];
            let a1 = w1.accounts_map()[tx.to];
            assert(a1.storage_map() == a0.storage_map());
            assert(a1.code == a0.code);
            assert(a1.balance == a0.balance);
            assert(a1.queue@ == a0.queue@);
            assert(stored_number(a1, callback_count_name()) == stored_number(a0, callback_count_name()));
            assert(stored_number(a1, sum_key_name()) == stored_number(a0, sum_key_name()));
            if a0.code is Some {
                let c = a0.code->Some_0;
                if endpoint_of(c, tx.function@) is Some {
                    let ep = endpoint_of(c, tx.function@)->Some_0;
                    assert(success_condition(c, ep, a1, tx.arguments@) == success_condition(c, ep, a0, tx.arguments@));
                    assert(endpoint_out(c, ep, a1, tx.arguments@) == endpoint_out(c, ep, a0, tx.arguments@));
                }
            }
        }
        assert(invoke_status(w1, tx.from, tx.to, tx.egld_value, tx.function@, tx.arguments@, false)
            == invoke_status(w0, tx.from, tx.to, tx.egld_value, tx.function@, tx.arguments@, false));
        if is_plain_forwarding(w0, *tx) {
            assert(w1.accounts_map()[tx.to] == w0.accounts_map()[tx.to]);
        }
        if is_ordinary_success(w0, *tx) {
            let a0 = w0.accounts_map()[tx.to];
            let a1 = w1.accounts_map()[tx.to];
            assert(a1.storage_map() == a0.storage_map());
            assert(a1.code == a0.code);
            assert(a1.queue@ == a0.queue@);
            let c = a0.code->Some_0;
            let ep = endpoint_of(c, tx.function@)->Some_0;
            assert(stored_number(a1, callback_count_name()) == stored_number(a0, callback_count_name()));
            assert(stored_number(a1, sum_key_name()) == stored_number(a0, sum_key_name()));
            assert(success_condition(c, ep, a1, tx.arguments@));
            assert(endpoint_writes(c, ep, a1, tx.arguments@) == endpoint_writes(c, ep, a0, tx.arguments@));
            assert(invoke_succeeds(w1, tx.to, tx.egld_value, tx.function@, tx.arguments@, false));
        }
    }
    let res = invoke(world, tx.from, tx.to, tx.egld_value, tx.function.as_slice(), &tx.arguments, false);
    if res.status != STATUS_OK {
        return Ok(empty_response(res.status, res.message));
    }
    if tx.esdt_value.len() > 0 {
        let ghost wi = *world;
        proof {
            assert(wi.accounts_map()[tx.from].esdt@ == w1.accounts_map()[tx.from].esdt@);
            assert(wi.accounts_map()[tx.to].esdt@ == w1.accounts_map()[tx.to].esdt@);
        }
        let _ = move_tokens(world, tx.from, tx.to, &tx.esdt_value);
    }
    let ghost wm = *world;
    if res.drained.len() as u128 > u64::MAX as u128 {
        return Ok(empty_response(
            STATUS_USER_ERROR,
            crate::bytes::text_bytes("too many queued calls"),
        ));
    }
    let ghost w2 = *world;
    proof {
        if is_plain_forwarding(w0, *tx) {
            let a0 = w1.accounts_map()[tx.to];
            let m = a0.storage_map();
            assert(apply_writes(m, seq![]) == m);
            assert(w2.accounts_map()[tx.to].storage_map() == m);
            assert(res.drained@ == a0.queue@);
            assert(promise_accounting_applies(w2, tx.to, res.drained@));
        }
    }
    let resolution = resolve_queue(world, tx.to, res.drained);
    proof {
        if w0.accounts_map().dom().contains(tx.from) && w0.accounts_map().dom().contains(tx.to) {
            assert(world.accounts_map()[tx.from].esdt@ == wm.accounts_map()[tx.from].esdt@);
            assert(world.accounts_map()[tx.to].esdt@ == wm.accounts_map()[tx.to].esdt@);
        }
    }
    let mut out = res.out;
    let ghost out0 = out@;
    let mut k: usize = 0;
    while k < resolution.out.len()
        invariant
            k <= resolution.out@.len(),
            out@.len() == out0.len() + k,
            k == 0 ==> out@ == out0,
        decreases resolution.out@.len() - k,
    {
        out.push(resolution.out[k].clone());
        k = k + 1;
    }
    Ok(TxResponse {
        status: resolution.status,
        message: resolution.message,
        out,
        new_address: None,
        promise_callbacks: resolution.promise_callbacks,
        forwarded: resolution.log,
    })
}

/// A query that, run on `world`, would queue or issue an outbound call.
pub open spec fn query_issues_calls(world: WorldState, q: TxQuery) -> bool {
    let a = world.accounts_map()[q.to];
    &&& world.accounts_map().dom().contains(q.to)
    &&& a.code matches Some(c)
    &&& endpoint_of(c, q.function@) matches Some(ep)
    &&& success_condition(c, ep, a, q.arguments@)
    &&& (ep is AddQueued || (ep == Endpoint::Forward && a.queue@.len() > 0))
}

/// A query that reaches a contract and issues no outbound call.
pub open spec fn query_runs(world: WorldState, q: TxQuery) -> bool {
    &&& world.accounts_map().dom().contains(q.to)
    &&& world.accounts_map()[q.to].code is Some
    &&& !query_issues_calls(world, q)
}

/// The status a query that runs ends with: 1 for an unknown endpoint, 4 when
/// the endpoint refuses its inputs, else 0.
pub open spec fn query_status(world: WorldState, q: TxQuery) -> u64 {
    let a = world.accounts_map()[q.to];
    let c = a.code->Some_0;
    match endpoint_of(c, q.function@) {
        None => crate::contracts::STATUS_FUNCTION_NOT_FOUND,
        Some(ep) => if success_condition(c, ep, a, q.arguments@) {
            STATUS_OK
        } else {
            STATUS_USER_ERROR
        },
    }
}

/// What a query returns on `world`.
pub open spec fn query_post(world: WorldState, q: TxQuery, r: Result<TxResponse, ScenarioError>) -> bool {
    &&& ((r == Err::<TxResponse, ScenarioError>(ScenarioError::PendingCallsOnQuery))
            <== query_issues_calls(world, q))
    &&& (r matches Err(e) ==> (e == ScenarioError::PendingCallsOnQuery <==> query_issues_calls(
            world,
            q,
        )))
    &&& (!world.accounts_map().dom().contains(q.to) ==> r == Err::<TxResponse, ScenarioError>(
            ScenarioError::UnknownAccount,
        ))
    &&& (world.accounts_map().dom().contains(q.to) && world.accounts_map()[q.to].code is None
            ==> r == Err::<TxResponse, ScenarioError>(ScenarioError::NotAContract))
    &&& (world.accounts_map().dom().contains(q.to) && world.accounts_map()[q.to].code is Some
            && !query_issues_calls(world, q) ==> r is Ok)
    &&& (r matches Ok(resp) ==> {
            let a = world.accounts_map()[q.to];
            &&& a.code matches Some(c)
            &&& (resp.status == STATUS_OK <==> (endpoint_of(c, q.function@) matches Some(ep)
                && success_condition(c, ep, a, q.arguments@)))
            &&& resp.status == query_status(world, q)
            &&& (resp.status == STATUS_OK ==> out_view(resp.out@) == endpoint_out(
                c,
                endpoint_of(c, q.function@)->Some_0,
                a,
                q.arguments@,
            ))
            &&& (resp.status != STATUS_OK ==> resp.out@.len() == 0)
            &&& resp.new_address is None
            &&& resp.promise_callbacks == 0
        })
}

/// Runs a read-only query with no payment. The ledger is left as it is; a
/// query that queues or issues an outbound call is a scenario error.
pub fn perform_sc_query(world: &WorldState, q: &TxQuery) -> (r: Result<TxResponse, ScenarioError>)
    requires
        world.wf(),
    ensures
        query_post(*world, *q, r),
{
    let acct = match world.get_account(q.to) {
        Some(a) => a,
        None => {
            return Err(ScenarioError::UnknownAccount);
        },
    };
    let code = match acct.code {
        Some(c) => c,
        None => {
            return Err(ScenarioError::NotAContract);
        },
    };
    let outcome = execute_endpoint(code, acct, 0, q.function.as_slice(), &q.arguments);
    if outcome.enqueue.is_some() || (outcome.drain && acct.queue.len() > 0) {
        return Err(ScenarioError::PendingCallsOnQuery);
    }
    Ok(TxResponse {
        status: outcome.status,
        message: outcome.message,
        out: outcome.out,
        new_address: None,
        promise_callbacks: 0,
        forwarded: Vec::new(),
    })
}

/// The constructor arguments a deployment of `code` accepts.
pub open spec fn constructor_accepts(code: ContractCode, args: Seq<Vec<u8>>) -> bool {
    match code {
        ContractCode::Adder => args.len() == 1 && be_value(args[0]@) <= u64::MAX,
        ContractCode::ForwarderQueue => args.len() == 0,
    }
}

/// What a deployment does, given the ledger before (`w0`) and after (`w1`).
pub open spec fn deploy_post(w0: WorldState, w1: WorldState, tx: TxDeploy, r: Result<TxResponse, ScenarioError>) -> bool {
    let m0 = w0.accounts_map();
    let m1 = w1.accounts_map();
    let nonce = m0[tx.from].nonce;
    let addr = derived_address(tx.from, nonce);
    let mismatch = predicted(w0.predictions(), tx.from, nonce) matches Some(a) && a != addr;
    &&& w1.predictions() == w0.predictions()
    &&& !m0.dom().contains(tx.from) ==> r == Err::<TxResponse, ScenarioError>(
        ScenarioError::UnknownAccount,
    )
    &&& m0.dom().contains(tx.from) && mismatch ==> r == Err::<TxResponse, ScenarioError>(
        ScenarioError::AddressMismatch { expected: predicted(w0.predictions(), tx.from, nonce)->Some_0, actual: addr },
    )
    &&& m0.dom().contains(tx.from) && !mismatch && m0.dom().contains(addr) ==> r == Err::<
        TxResponse,
        ScenarioError,
    >(ScenarioError::AccountCollision)
    &&& r is Err ==> m1 == m0
    &&& r matches Err(e) ==> (e is UnknownAccount || e is AddressMismatch || e is AccountCollision)
    &&& r is Ok ==> m0.dom().contains(tx.from) && !mismatch && !m0.dom().contains(addr)
        && m1[tx.from].nonce == crate::world::sat_add(nonce, 1)
    &&& r matches Ok(resp) ==> (resp.status == STATUS_OK ==> {
        &&& resp.new_address == Some(addr)
        &&& resp.out@.len() == 0
        &&& m1.dom() == m0.dom().insert(addr)
        &&& m1[addr].code == Some(tx.code)
        &&& m1[addr].storage_map() == apply_writes(
            Map::empty(),
            endpoint_writes(tx.code, Endpoint::Init, m1[addr], tx.arguments@),
        )
    })
    &&& r matches Ok(resp) ==> (resp.status != STATUS_OK ==> resp.new_address is None && m1.dom()
        == m0.dom())
    &&& m0.dom().contains(tx.from) && !mismatch && !m0.dom().contains(addr) && tx.egld_value == 0
        && constructor_accepts(tx.code, tx.arguments@) ==> (r matches Ok(resp) && resp.status
        == STATUS_OK)
}

/// Deploys `tx.code` at the address derived from the sender and its nonce,
/// creating the account before the constructor runs so that it sees its own
/// address. A failed constructor leaves no account behind.
pub fn perform_sc_deploy(world: &mut WorldState, tx: &TxDeploy) -> (r: Result<TxResponse, ScenarioError>)
    requires
        old(world).wf(),
    ensures
        final(world).wf(),
        deploy_post(*old(world), *final(world), *tx, r),
{
    let nonce = match world.get_account(tx.from) {
        Some(a) => a.nonce,
        None => {
            return Err(ScenarioError::UnknownAccount);
        },
    };
    let addr = derive_address(tx.from, nonce);
    match world.find_prediction(tx.from, nonce) {
        Some(expected) => {
            if expected != addr {
                return Err(ScenarioError::AddressMismatch { expected, actual: addr });
            }
        },
        None => {},
    }
    if world.get_account(addr).is_some() {
        return Err(ScenarioError::AccountCollision);
    }
    let ghost w0 = *world;
    world.put_account(addr, Account::new(0, 0, Some(tx.code)));
    let ghost w1 = *world;
    bump_nonce(world, tx.from);
    let ghost w2 = *world;
    let res = invoke(world, tx.from, addr, tx.egld_value, init_bytes().as_slice(), &tx.arguments, false);
    let ghost w3 = *world;
    proof {
        assert(tx.from != addr);
        assert(w1.accounts_map().dom() =~= w0.accounts_map().dom().insert(addr));
        assert(w3.accounts_map()[tx.from].nonce == crate::world::sat_add(nonce, 1));
    }
    if res.status != STATUS_OK {
        let _ = world.take_account(addr);
        proof {
            assert(world.accounts_map().dom() =~= w0.accounts_map().dom());
            assert(world.accounts_map()[tx.from] == w3.accounts_map()[tx.from]);
        }
        return Ok(empty_response(res.status, res.message));
    }
    proof {
        let a1 = w2.accounts_map()[addr];
        assert(a1 == w1.accounts_map()[addr]);
        assert(a1.storage_map() == Map::<Seq<u8>, Seq<u8>>::empty());
        assert(endpoint_writes(tx.code, Endpoint::Init, a1, tx.arguments@) == endpoint_writes(
            tx.code,
            Endpoint::Init,
            w3.accounts_map()[addr],
            tx.arguments@,
        ));
        assert(endpoint_of(tx.code, crate::contracts::init_name()) == Some(Endpoint::Init));
        assert(out_view(res.out@).len() == res.out@.len());
    }
    Ok(TxResponse {
        status: STATUS_OK,
        message: Vec::new(),
        out: res.out,
        new_address: Some(addr),
        promise_callbacks: 0,
        forwarded: Vec::new(),
    })
}

} // verus!
