//! Contracts the simulator can run, each a fixed table from endpoint name to
//! handler.
use vstd::prelude::*;
use crate::bytes::{be_bytes, be_value, bytes_eq, decode_be, encode_be};
use crate::world::{Account, Address};

verus! {

/// The code held by a contract account.
#[derive(Clone, Copy, Debug, PartialEq, Eq, Structural)]
pub enum ContractCode {
    /// Keeps a running sum under the key `sum`.
    Adder,
    /// Queues calls of four kinds and forwards them on request, counting the
    /// promise callbacks it receives under the key `callback_count`.
    ForwarderQueue,
}

/// How a queued call is performed when forwarded.
#[derive(Clone, Copy, Debug, PartialEq, Eq, Structural)]
pub enum CallKind {
    Sync,
    LegacyAsync,
    TransferExecute,
    Promise,
}

/// A call waiting in a contract's queue.
pub struct QueuedCall {
    pub kind: CallKind,
    pub to: Address,
    pub endpoint: Vec<u8>,
    pub args: Vec<Vec<u8>>,
    pub payment: u128,
}

/// A handler of a contract.
#[derive(Clone, Copy, Debug, PartialEq, Eq, Structural)]
pub enum Endpoint {
    Init,
    Add,
    GetSum,
    AddQueued(CallKind),
    Forward,
    CallbackCount,
    QueuedCalls,
    PromisesCallback,
    LegacyCallback,
}

/// The bytes of `init`.
pub open spec fn init_name() -> Seq<u8> {
    seq![105u8, 110, 105, 116]
}

/// The bytes of `add`.
pub open spec fn add_name() -> Seq<u8> {
    seq![97u8, 100, 100]
}

/// The bytes of `getSum`.
pub open spec fn get_sum_name() -> Seq<u8> {
    seq![103u8, 101, 116, 83, 117, 109]
}

/// The bytes of `add_queued_call_sync`.
pub open spec fn add_queued_sync_name() -> Seq<u8> {
    seq![97u8, 100, 100, 95, 113, 117, 101, 117, 101, 100, 95, 99, 97, 108, 108, 95, 115, 121, 110, 99]
}

/// The bytes of `add_queued_call_legacy_async`.
pub open spec fn add_queued_legacy_async_name() -> Seq<u8> {
    seq![97u8, 100, 100, 95, 113, 117, 101, 117, 101, 100, 95, 99, 97, 108, 108, 95, 108, 101, 103, 97, 99, 121, 95, 97, 115, 121, 110, 99]
}

/// The bytes of `add_queued_call_transfer_execute`.
pub open spec fn add_queued_transfer_execute_name() -> Seq<u8> {
    seq![97u8, 100, 100, 95, 113, 117, 101, 117, 101, 100, 95, 99, 97, 108, 108, 95, 116, 114, 97, 110, 115, 102, 101, 114, 95, 101, 120, 101, 99, 117, 116, 101]
}

/// The bytes of `add_queued_call_promise`.
pub open spec fn add_queued_promise_name() -> Seq<u8> {
    seq![97u8, 100, 100, 95, 113, 117, 101, 117, 101, 100, 95, 99, 97, 108, 108, 95, 112, 114, 111, 109, 105, 115, 101]
}

/// The bytes of `forward_queued_calls`.
pub open spec fn forward_queued_calls_name() -> Seq<u8> {
    seq![102u8, 111, 114, 119, 97, 114, 100, 95, 113, 117, 101, 117, 101, 100, 95, 99, 97, 108, 108, 115]
}

/// The bytes of `callback_count`.
pub open spec fn callback_count_name() -> Seq<u8> {
    seq![99u8, 97, 108, 108, 98, 97, 99, 107, 95, 99, 111, 117, 110, 116]
}

/// The bytes of `queued_calls`.
pub open spec fn queued_calls_name() -> Seq<u8> {
    seq![113u8, 117, 101, 117, 101, 100, 95, 99, 97, 108, 108, 115]
}

/// The bytes of `promises_callback_method`.
pub open spec fn promises_callback_method_name() -> Seq<u8> {
    seq![112u8, 114, 111, 109, 105, 115, 101, 115, 95, 99, 97, 108, 108, 98, 97, 99, 107, 95, 109, 101, 116, 104, 111, 100]
}

/// The bytes of `callBack`.
pub open spec fn legacy_callback_name() -> Seq<u8> {
    seq![99u8, 97, 108, 108, 66, 97, 99, 107]
}

/// The bytes of `sum`.
pub open spec fn sum_key_name() -> Seq<u8> {
    seq![115u8, 117, 109]
}

/// The bytes of `init`.
pub fn init_bytes() -> (r: Vec<u8>)
    ensures
        r@ == init_name(),
{
    let r: Vec<u8> = vec![105u8, 110, 105, 116];
    assert(r@ =~= init_name());
    r
}

/// The bytes of `add`.
pub fn add_bytes() -> (r: Vec<u8>)
    ensures
        r@ == add_name(),
{
    let r: Vec<u8> = vec![97u8, 100, 100];
    assert(r@ =~= add_name());
    r
}

/// The bytes of `getSum`.
pub fn get_sum_bytes() -> (r: Vec<u8>)
    ensures
        r@ == get_sum_name(),
{
    let r: Vec<u8> = vec![103u8, 101, 116, 83, 117, 109];
    assert(r@ =~= get_sum_name());
    r
}

/// The bytes of `add_queued_call_sync`.
pub fn add_queued_sync_bytes() -> (r: Vec<u8>)
    ensures
        r@ == add_queued_sync_name(),
{
    let r: Vec<u8> = vec![97u8, 100, 100, 95, 113, 117, 101, 117, 101, 100, 95, 99, 97, 108, 108, 95, 115, 121, 110, 99];
    assert(r@ =~= add_queued_sync_name());
    r
}

/// The bytes of `add_queued_call_legacy_async`.
pub fn add_queued_legacy_async_bytes() -> (r: Vec<u8>)
    ensures
        r@ == add_queued_legacy_async_name(),
{
    let r: Vec<u8> = vec![97u8, 100, 100, 95, 113, 117, 101, 117, 101, 100, 95, 99, 97, 108, 108, 95, 108, 101, 103, 97, 99, 121, 95, 97, 115, 121, 110, 99];
    assert(r@ =~= add_queued_legacy_async_name());
    r
}

/// The bytes of `add_queued_call_transfer_execute`.
pub fn add_queued_transfer_execute_bytes() -> (r: Vec<u8>)
    ensures
        r@ == add_queued_transfer_execute_name(),
{
    let r: Vec<u8> = vec![97u8, 100, 100, 95, 113, 117, 101, 117, 101, 100, 95, 99, 97, 108, 108, 95, 116, 114, 97, 110, 115, 102, 101, 114, 95, 101, 120, 101, 99, 117, 116, 101];
    assert(r@ =~= add_queued_transfer_execute_name());
    r
}

/// The bytes of `add_queued_call_promise`.
pub fn add_queued_promise_bytes() -> (r: Vec<u8>)
    ensures
        r@ == add_queued_promise_name(),
{
    let r: Vec<u8> = vec![97u8, 100, 100, 95, 113, 117, 101, 117, 101, 100, 95, 99, 97, 108, 108, 95, 112, 114, 111, 109, 105, 115, 101];
    assert(r@ =~= add_queued_promise_name());
    r
}

/// The bytes of `forward_queued_calls`.
pub fn forward_queued_calls_bytes() -> (r: Vec<u8>)
    ensures
        r@ == forward_queued_calls_name(),
{
    let r: Vec<u8> = vec![102u8, 111, 114, 119, 97, 114, 100, 95, 113, 117, 101, 117, 101, 100, 95, 99, 97, 108, 108, 115];
    assert(r@ =~= forward_queued_calls_name());
    r
}

/// The bytes of `callback_count`.
pub fn callback_count_bytes() -> (r: Vec<u8>)
    ensures
        r@ == callback_count_name(),
{
    let r: Vec<u8> = vec![99u8, 97, 108, 108, 98, 97, 99, 107, 95, 99, 111, 117, 110, 116];
    assert(r@ =~= callback_count_name());
    r
}

/// The bytes of `queued_calls`.
pub fn queued_calls_bytes() -> (r: Vec<u8>)
    ensures
        r@ == queued_calls_name(),
{
    let r: Vec<u8> = vec![113u8, 117, 101, 117, 101, 100, 95, 99, 97, 108, 108, 115];
    assert(r@ =~= queued_calls_name());
    r
}

/// The bytes of `promises_callback_method`.
pub fn promises_callback_method_bytes() -> (r: Vec<u8>)
    ensures
        r@ == promises_callback_method_name(),
{
    let r: Vec<u8> = vec![112u8, 114, 111, 109, 105, 115, 101, 115, 95, 99, 97, 108, 108, 98, 97, 99, 107, 95, 109, 101, 116, 104, 111, 100];
    assert(r@ =~= promises_callback_method_name());
    r
}

/// The bytes of `callBack`.
pub fn legacy_callback_bytes() -> (r: Vec<u8>)
    ensures
        r@ == legacy_callback_name(),
{
    let r: Vec<u8> = vec![99u8, 97, 108, 108, 66, 97, 99, 107];
    assert(r@ =~= legacy_callback_name());
    r
}

/// The bytes of `sum`.
pub fn sum_key_bytes() -> (r: Vec<u8>)
    ensures
        r@ == sum_key_name(),
{
    let r: Vec<u8> = vec![115u8, 117, 109];
    assert(r@ =~= sum_key_name());
    r
}

/// The endpoint that `name` selects on `code`; names are case-sensitive.
pub open spec fn endpoint_of(code: ContractCode, name: Seq<u8>) -> Option<Endpoint> {
    if name == init_name() {
        Some(Endpoint::Init)
    } else {
        match code {
            ContractCode::Adder => if name == add_name() {
                Some(Endpoint::Add)
            } else if name == get_sum_name() {
                Some(Endpoint::GetSum)
            } else {
                None
            },
            ContractCode::ForwarderQueue => if name == add_queued_sync_name() {
                Some(Endpoint::AddQueued(CallKind::Sync))
            } else if name == add_queued_legacy_async_name() {
                Some(Endpoint::AddQueued(CallKind::LegacyAsync))
            } else if name == add_queued_transfer_execute_name() {
                Some(Endpoint::AddQueued(CallKind::TransferExecute))
            } else if name == add_queued_promise_name() {
                Some(Endpoint::AddQueued(CallKind::Promise))
            } else if name == forward_queued_calls_name() {
                Some(Endpoint::Forward)
            } else if name == callback_count_name() {
                Some(Endpoint::CallbackCount)
            } else if name == queued_calls_name() {
                Some(Endpoint::QueuedCalls)
            } else if name == promises_callback_method_name() {
                Some(Endpoint::PromisesCallback)
            } else if name == legacy_callback_name() {
                Some(Endpoint::LegacyCallback)
            } else {
                None
            },
        }
    }
}

/// Looks `name` up in the endpoint table of `code`.
pub fn find_endpoint(code: ContractCode, name: &[u8]) -> (r: Option<Endpoint>)
    ensures
        r == endpoint_of(code, name@),
{
    if bytes_eq(name, init_bytes().as_slice()) {
        return Some(Endpoint::Init);
    }
    match code {
        ContractCode::Adder => {
            if bytes_eq(name, add_bytes().as_slice()) {
                Some(Endpoint::Add)
            } else if bytes_eq(name, get_sum_bytes().as_slice()) {
                Some(Endpoint::GetSum)
            } else {
                None
            }
        },
        ContractCode::ForwarderQueue => {
            if bytes_eq(name, add_queued_sync_bytes().as_slice()) {
                Some(Endpoint::AddQueued(CallKind::Sync))
            } else if bytes_eq(name, add_queued_legacy_async_bytes().as_slice()) {
                Some(Endpoint::AddQueued(CallKind::LegacyAsync))
            } else if bytes_eq(name, add_queued_transfer_execute_bytes().as_slice()) {
                Some(Endpoint::AddQueued(CallKind::TransferExecute))
            } else if bytes_eq(name, add_queued_promise_bytes().as_slice()) {
                Some(Endpoint::AddQueued(CallKind::Promise))
            } else if bytes_eq(name, forward_queued_calls_bytes().as_slice()) {
                Some(Endpoint::Forward)
            } else if bytes_eq(name, callback_count_bytes().as_slice()) {
                Some(Endpoint::CallbackCount)
            } else if bytes_eq(name, queued_calls_bytes().as_slice()) {
                Some(Endpoint::QueuedCalls)
            } else if bytes_eq(name, promises_callback_method_bytes().as_slice()) {
                Some(Endpoint::PromisesCallback)
            } else if bytes_eq(name, legacy_callback_bytes().as_slice()) {
                Some(Endpoint::LegacyCallback)
            } else {
                None
            }
        },
    }
}

} // verus!

verus! {

pub const STATUS_OK: u64 = 0;
pub const STATUS_FUNCTION_NOT_FOUND: u64 = 1;
pub const STATUS_CONTRACT_NOT_FOUND: u64 = 3;
pub const STATUS_USER_ERROR: u64 = 4;
pub const STATUS_OUT_OF_FUNDS: u64 = 7;

/// What one endpoint run asks for: status, message, results, storage writes
/// on the contract, a call to append to its queue, and whether to forward
/// (drain) its queue.
pub struct Outcome {
    pub status: u64,
    pub message: Vec<u8>,
    pub out: Vec<Vec<u8>>,
    pub writes: Vec<(Vec<u8>, Vec<u8>)>,
    pub enqueue: Option<QueuedCall>,
    pub drain: bool,
}

impl Outcome {
    /// An outcome that changes nothing and returns nothing.
    pub open spec fn inert(&self) -> bool {
        &&& self.out@.len() == 0
        &&& self.writes@.len() == 0
        &&& self.enqueue is None
        &&& !self.drain
    }

    /// A failure with the given status and message.
    pub fn fail(status: u64, message: &str) -> (r: Outcome)
        ensures
            r.status == status,
            r.inert(),
    {
        Outcome {
            status,
            message: crate::bytes::text_bytes(message),
            out: Vec::new(),
            writes: Vec::new(),
            enqueue: None,
            drain: false,
        }
    }

    fn success() -> (r: Outcome)
        ensures
            r.status == STATUS_OK,
            r.inert(),
            r.message@.len() == 0,
    {
        Outcome {
            status: STATUS_OK,
            message: Vec::new(),
            out: Vec::new(),
            writes: Vec::new(),
            enqueue: None,
            drain: false,
        }
    }
}

/// The number stored big-endian under `key` (zero when absent).
pub open spec fn stored_number(account: Account, key: Seq<u8>) -> nat {
    if account.storage_map().dom().contains(key) {
        be_value(account.storage_map()[key])
    } else {
        0
    }
}

/// The number stored under `key`, or `None` when it exceeds `u64`.
pub fn read_number(account: &Account, key: &[u8]) -> (r: Option<u64>)
    requires
        account.wf(),
    ensures
        r == (if stored_number(*account, key@) <= u64::MAX {
            Some(stored_number(*account, key@) as u64)
        } else {
            None::<u64>
        }),
{
    match account.storage_get(key) {
        Some(v) => decode_be(v.as_slice()),
        None => {
            assert(be_value(Seq::<u8>::empty()) == 0);
            Some(0)
        },
    }
}

/// The address whose 32 big-endian bytes are `b`.
pub open spec fn address_of(b: Seq<u8>) -> Option<Address> {
    if b.len() == 32 && be_value(b.subrange(0, 16)) <= u128::MAX && be_value(b.subrange(16, 32))
        <= u128::MAX {
        Some(
            Address {
                hi: be_value(b.subrange(0, 16)) as u128,
                lo: be_value(b.subrange(16, 32)) as u128,
            },
        )
    } else {
        None
    }
}

/// Reads a 32-byte address argument.
pub fn address_from_bytes(b: &[u8]) -> (r: Option<Address>)
    ensures
        r == address_of(b@),
{
    if b.len() != 32 {
        return None;
    }
    let hi_bytes = vstd::slice::slice_subrange(b, 0, 16);
    let lo_bytes = vstd::slice::slice_subrange(b, 16, 32);
    match (crate::bytes::decode_be_u128(hi_bytes), crate::bytes::decode_be_u128(lo_bytes)) {
        (Some(hi), Some(lo)) => Some(Address { hi, lo }),
        _ => None,
    }
}

/// The effect a run of `ep` is owed when it succeeds.
pub open spec fn success_condition(
    code: ContractCode,
    ep: Endpoint,
    account: Account,
    args: Seq<Vec<u8>>,
) -> bool {
    match ep {
        Endpoint::Init => match code {
            ContractCode::Adder => args.len() == 1 && be_value(args[0]@) <= u64::MAX,
            ContractCode::ForwarderQueue => args.len() == 0,
        },
        Endpoint::Add => args.len() == 1 && stored_number(account, sum_key_name()) + be_value(
            args[0]@,
        ) <= u64::MAX,
        Endpoint::GetSum => args.len() == 0 && stored_number(account, sum_key_name()) <= u64::MAX,
        Endpoint::AddQueued(_) => args.len() >= 2 && address_of(args[0]@) is Some,
        Endpoint::Forward => args.len() == 0,
        Endpoint::CallbackCount => args.len() == 0 && stored_number(account, callback_count_name())
            <= u64::MAX,
        Endpoint::QueuedCalls => args.len() == 0,
        Endpoint::PromisesCallback => stored_number(account, callback_count_name()) + 1
            <= u64::MAX,
        Endpoint::LegacyCallback => true,
    }
}

/// The storage writes a successful run of `ep` makes.
pub open spec fn endpoint_writes(
    code: ContractCode,
    ep: Endpoint,
    account: Account,
    args: Seq<Vec<u8>>,
) -> Seq<(Seq<u8>, Seq<u8>)> {
    match ep {
        Endpoint::Init => match code {
            ContractCode::Adder => seq![(sum_key_name(), be_bytes(be_value(args[0]@)))],
            ContractCode::ForwarderQueue => seq![],
        },
        Endpoint::Add => seq![
            (sum_key_name(), be_bytes(stored_number(account, sum_key_name()) + be_value(args[0]@))),
        ],
        Endpoint::PromisesCallback => seq![
            (callback_count_name(), be_bytes(stored_number(account, callback_count_name()) + 1)),
        ],
        _ => seq![],
    }
}

/// The two callback endpoints of the forwarder resolve by their names.
pub proof fn lemma_callback_endpoints()
    ensures
        endpoint_of(ContractCode::ForwarderQueue, promises_callback_method_name()) == Some(
            Endpoint::PromisesCallback,
        ),
        endpoint_of(ContractCode::ForwarderQueue, legacy_callback_name()) == Some(
            Endpoint::LegacyCallback,
        ),
        endpoint_of(ContractCode::ForwarderQueue, forward_queued_calls_name()) == Some(
            Endpoint::Forward,
        ),
{
    let p = promises_callback_method_name();
    let l = legacy_callback_name();
    let f = forward_queued_calls_name();
    assert(p.len() != init_name().len());
    assert(p.len() != add_queued_sync_name().len());
    assert(p.len() != add_queued_legacy_async_name().len());
    assert(p.len() != add_queued_transfer_execute_name().len());
    assert(p[0] != add_queued_promise_name()[0]);
    assert(p.len() != forward_queued_calls_name().len());
    assert(p.len() != callback_count_name().len());
    assert(p.len() != queued_calls_name().len());
    assert(l.len() != init_name().len());
    assert(l.len() != add_queued_sync_name().len());
    assert(l.len() != add_queued_legacy_async_name().len());
    assert(l.len() != add_queued_transfer_execute_name().len());
    assert(l.len() != add_queued_promise_name().len());
    assert(l.len() != forward_queued_calls_name().len());
    assert(l.len() != callback_count_name().len());
    assert(l.len() != queued_calls_name().len());
    assert(l.len() != promises_callback_method_name().len());
    assert(f.len() != init_name().len());
    assert(f[0] != add_queued_sync_name()[0]);
    assert(f.len() != add_queued_legacy_async_name().len());
    assert(f.len() != add_queued_transfer_execute_name().len());
    assert(f.len() != add_queued_promise_name().len());
}

/// The results a successful run of `ep` returns.
pub open spec fn endpoint_out(
    code: ContractCode,
    ep: Endpoint,
    account: Account,
    args: Seq<Vec<u8>>,
) -> Seq<Seq<u8>> {
    match ep {
        Endpoint::GetSum => seq![be_bytes(stored_number(account, sum_key_name()))],
        Endpoint::CallbackCount => seq![be_bytes(stored_number(account, callback_count_name()))],
        Endpoint::QueuedCalls => seq![be_bytes(account.queue@.len() as nat)],
        _ => seq![],
    }
}

pub open spec fn writes_view(w: Seq<(Vec<u8>, Vec<u8>)>) -> Seq<(Seq<u8>, Seq<u8>)> {
    crate::world::storage_view(w)
}

pub open spec fn out_view(o: Seq<Vec<u8>>) -> Seq<Seq<u8>> {
    o.map_values(|v: Vec<u8>| v@)
}

/// Runs endpoint `function` of `code` on `account` with a payment of `egld`.
/// The account is only read: the effects are returned in the outcome.
pub fn execute_endpoint(
    code: ContractCode,
    account: &Account,
    egld: u128,
    function: &[u8],
    args: &Vec<Vec<u8>>,
) -> (r: Outcome)
    requires
        account.wf(),
    ensures
        r.status != STATUS_OK ==> r.inert(),
        r.status == STATUS_OK ==> (endpoint_of(code, function@) matches Some(ep) && writes_view(
            r.writes@,
        ) == endpoint_writes(code, ep, *account, args@) && out_view(r.out@) == endpoint_out(
            code,
            ep,
            *account,
            args@,
        )),
        match endpoint_of(code, function@) {
            None => r.status == STATUS_FUNCTION_NOT_FOUND,
            Some(ep) => {
                &&& (r.status == STATUS_OK <==> success_condition(code, ep, *account, args@))
                &&& r.status != STATUS_OK ==> r.status == STATUS_USER_ERROR
                &&& r.status == STATUS_OK ==> match ep {
                    Endpoint::Init => match code {
                        ContractCode::Adder => writes_view(r.writes@) == seq![
                            (sum_key_name(), be_bytes(be_value(args@[0]@))),
                        ] && r.out@.len() == 0 && r.enqueue is None && !r.drain,
                        ContractCode::ForwarderQueue => r.inert(),
                    },
                    Endpoint::Add => writes_view(r.writes@) == seq![
                        (
                            sum_key_name(),
                            be_bytes(stored_number(*account, sum_key_name()) + be_value(args@[0]@)),
                        ),
                    ] && r.out@.len() == 0 && r.enqueue is None && !r.drain,
                    Endpoint::GetSum => out_view(r.out@) == seq![
                        be_bytes(stored_number(*account, sum_key_name())),
                    ] && r.writes@.len() == 0 && r.enqueue is None && !r.drain,
                    Endpoint::AddQueued(kind) => r.out@.len() == 0 && r.writes@.len() == 0 && !r.drain
                        && (r.enqueue matches Some(q) && q.kind == kind && Some(q.to) == address_of(
                        args@[0]@,
                    ) && q.endpoint@ == args@[1]@ && out_view(q.args@) == out_view(
                        args@.subrange(2, args@.len() as int),
                    ) && q.payment == egld),
                    Endpoint::Forward => r.drain && r.out@.len() == 0 && r.writes@.len() == 0
                        && r.enqueue is None,
                    Endpoint::CallbackCount => out_view(r.out@) == seq![
                        be_bytes(stored_number(*account, callback_count_name())),
                    ] && r.writes@.len() == 0 && r.enqueue is None && !r.drain,
                    Endpoint::QueuedCalls => out_view(r.out@) == seq![
                        be_bytes(account.queue@.len() as nat),
                    ] && r.writes@.len() == 0 && r.enqueue is None && !r.drain,
                    Endpoint::PromisesCallback => writes_view(r.writes@) == seq![
                        (
                            callback_count_name(),
                            be_bytes(stored_number(*account, callback_count_name()) + 1),
                        ),
                    ] && r.out@.len() == 0 && r.enqueue is None && !r.drain,
                    Endpoint::LegacyCallback => r.inert(),
                }
            },
        },
{
    let ep = match find_endpoint(code, function) {
        Some(ep) => ep,
        None => {
            return Outcome::fail(STATUS_FUNCTION_NOT_FOUND, "invalid function (not found)");
        },
    };
    match ep {
        Endpoint::Init => match code {
            ContractCode::Adder => {
                if args.len() != 1 {
                    return Outcome::fail(STATUS_USER_ERROR, "wrong number of arguments");
                }
                match decode_be(args[0].as_slice()) {
                    Some(v) => {
                        let mut r = Outcome::success();
                        r.writes.push((sum_key_bytes(), encode_be(v)));
                        assert(writes_view(r.writes@) =~= seq![
                            (sum_key_name(), be_bytes(be_value(args@[0]@))),
                        ]);
                        r
                    },
                    None => Outcome::fail(STATUS_USER_ERROR, "argument out of range"),
                }
            },
            ContractCode::ForwarderQueue => {
                if args.len() != 0 {
                    return Outcome::fail(STATUS_USER_ERROR, "wrong number of arguments");
                }
                Outcome::success()
            },
        },
        Endpoint::Add => {
            if args.len() != 1 {
                return Outcome::fail(STATUS_USER_ERROR, "wrong number of arguments");
            }
            let key = sum_key_bytes();
            let cur = read_number(account, key.as_slice());
            let arg = decode_be(args[0].as_slice());
            match (cur, arg) {
                (Some(c), Some(a)) => {
                    if c > u64::MAX - a {
                        return Outcome::fail(STATUS_USER_ERROR, "arithmetic overflow");
                    }
                    let mut r = Outcome::success();
                    r.writes.push((key, encode_be(c + a)));
                    assert(writes_view(r.writes@) =~= seq![
                        (
                            sum_key_name(),
                            be_bytes(stored_number(*account, sum_key_name()) + be_value(args@[0]@)),
                        ),
                    ]);
                    r
                },
                _ => Outcome::fail(STATUS_USER_ERROR, "arithmetic overflow"),
            }
        },
        Endpoint::GetSum => {
            if args.len() != 0 {
                return Outcome::fail(STATUS_USER_ERROR, "wrong number of arguments");
            }
            match read_number(account, sum_key_bytes().as_slice()) {
                Some(c) => {
                    let mut r = Outcome::success();
                    r.out.push(encode_be(c));
                    assert(out_view(r.out@) =~= seq![
                        be_bytes(stored_number(*account, sum_key_name())),
                    ]);
                    r
                },
                None => Outcome::fail(STATUS_USER_ERROR, "storage value out of range"),
            }
        },
        Endpoint::AddQueued(kind) => {
            if args.len() < 2 {
                return Outcome::fail(STATUS_USER_ERROR, "wrong number of arguments");
            }
            match address_from_bytes(args[0].as_slice()) {
                Some(to) => {
                    let mut rest: Vec<Vec<u8>> = Vec::new();
                    let mut i: usize = 2;
                    while i < args.len()
                        invariant
                            2 <= i <= args@.len(),
                            rest@.len() == i - 2,
                            forall|j: int| 0 <= j < i - 2 ==> #[trigger] rest@[j]@ == args@[j + 2]@,
                        decreases args@.len() - i,
                    {
                        rest.push(to_vec(&args[i]));
                        i = i + 1;
                    }
                    let ghost expected = args@.subrange(2, args@.len() as int);
                    let mut r = Outcome::success();
                    let q = QueuedCall {
                        kind,
                        to,
                        endpoint: to_vec(&args[1]),
                        args: rest,
                        payment: egld,
                    };
                    assert(out_view(q.args@) =~= out_view(expected));
                    r.enqueue = Some(q);
                    r
                },
                None => Outcome::fail(STATUS_USER_ERROR, "argument is not an address"),
            }
        },
        Endpoint::Forward => {
            if args.len() != 0 {
                return Outcome::fail(STATUS_USER_ERROR, "wrong number of arguments");
            }
            let mut r = Outcome::success();
            r.drain = true;
            r
        },
        Endpoint::CallbackCount => {
            if args.len() != 0 {
                return Outcome::fail(STATUS_USER_ERROR, "wrong number of arguments");
            }
            match read_number(account, callback_count_bytes().as_slice()) {
                Some(c) => {
                    let mut r = Outcome::success();
                    r.out.push(encode_be(c));
                    assert(out_view(r.out@) =~= seq![
                        be_bytes(stored_number(*account, callback_count_name())),
                    ]);
                    r
                },
                None => Outcome::fail(STATUS_USER_ERROR, "storage value out of range"),
            }
        },
        Endpoint::QueuedCalls => {
            if args.len() != 0 {
                return Outcome::fail(STATUS_USER_ERROR, "wrong number of arguments");
            }
            let n = account.queue.len();
            if n as u128 > u64::MAX as u128 {
                return Outcome::fail(STATUS_USER_ERROR, "storage value out of range");
            }
            let mut r = Outcome::success();
            r.out.push(encode_be(n as u64));
            assert(out_view(r.out@) =~= seq![be_bytes(account.queue@.len() as nat)]);
            r
        },
        Endpoint::PromisesCallback => {
            let key = callback_count_bytes();
            match read_number(account, key.as_slice()) {
                Some(c) => {
                    if c == u64::MAX {
                        return Outcome::fail(STATUS_USER_ERROR, "arithmetic overflow");
                    }
                    let mut r = Outcome::success();
                    r.writes.push((key, encode_be(c + 1)));
                    assert(writes_view(r.writes@) =~= seq![
                        (
                            callback_count_name(),
                            be_bytes(stored_number(*account, callback_count_name()) + 1),
                        ),
                    ]);
                    r
                },
                None => Outcome::fail(STATUS_USER_ERROR, "arithmetic overflow"),
            }
        },
        Endpoint::LegacyCallback => Outcome::success(),
    }
}

fn to_vec(v: &Vec<u8>) -> (r: Vec<u8>)
    ensures
        r@ == v@,
{
    v.clone()
}

} // verus!
