//! Scenario data: transactions, expectations, responses and the steps that
//! carry them.
use vstd::prelude::*;
use vstd::string::StringSliceAdditionalSpecFns;
use crate::bytes::{be_value, bytes_eq, decode_be, encode_be};
use crate::contracts::{CallKind, ContractCode};
use crate::world::Address;

verus! {

/// One token transfer attached to a call.
pub struct TokenTransfer {
    pub token_id: Vec<u8>,
    pub nonce: u64,
    pub amount: u128,
}

/// A call: sender, receiver, payment (native amount or token transfers, never
/// both), endpoint name, raw arguments and gas limit.
pub struct TxCall {
    pub from: Address,
    pub to: Address,
    pub egld_value: u128,
    pub esdt_value: Vec<TokenTransfer>,
    pub function: Vec<u8>,
    pub arguments: Vec<Vec<u8>>,
    pub gas_limit: u64,
}

/// A read-only probe of a contract endpoint.
pub struct TxQuery {
    pub to: Address,
    pub function: Vec<u8>,
    pub arguments: Vec<Vec<u8>>,
}

/// A deployment: sender, code, native payment, constructor arguments, gas.
pub struct TxDeploy {
    pub from: Address,
    pub code: ContractCode,
    pub egld_value: u128,
    pub arguments: Vec<Vec<u8>>,
    pub gas_limit: u64,
}

/// Errors that stop a scenario.
#[derive(Debug, PartialEq, Eq)]
pub enum ScenarioError {
    /// A call was given both a native amount and token transfers.
    PaymentConflict,
    /// A query enqueued or issued an outbound call.
    PendingCallsOnQuery,
    /// An account the step needs does not exist.
    UnknownAccount,
    /// The account addressed by a query holds no code.
    NotAContract,
    /// A deployment would land on an existing account.
    AccountCollision,
    /// A deployment landed elsewhere than the address predicted for it.
    AddressMismatch { expected: Address, actual: Address },
    /// A step's response or the ledger did not meet the declared expectation;
    /// every difference found is listed.
    ExpectationFailed { step_id: String, diffs: Vec<Mismatch> },
    /// A transfer step named a missing account or lacked funds.
    TransferFailed,
    /// A reward would overflow the balance or the cumulated reward.
    RewardOverflow,
    /// The backend runs whole scenarios only, not single steps.
    StepByStepUnsupported,
}

/// An expected result value: a number (compared with the big-endian value of
/// the actual bytes, so leading zeros do not matter) or exact bytes.
pub enum ExpectedValue {
    Number(u64),
    Bytes(Vec<u8>),
}

pub open spec fn value_matches(e: ExpectedValue, actual: Seq<u8>) -> bool {
    match e {
        ExpectedValue::Number(n) => be_value(actual) == n,
        ExpectedValue::Bytes(b) => b@ == actual,
    }
}

pub open spec fn is_decimal(s: Seq<u8>) -> bool {
    s.len() > 0 && forall|i: int| 0 <= i < s.len() ==> 48 <= #[trigger] s[i] <= 57
}

/// The value of a decimal digit string.
pub open spec fn dec_value(s: Seq<u8>) -> nat
    decreases s.len(),
{
    if s.len() == 0 {
        0
    } else {
        dec_value(s.drop_last()) * 10 + (s.last() - 48) as nat
    }
}

impl ExpectedValue {
    /// Reads a scenario value: a decimal number that fits in `u64` becomes a
    /// number, anything else is kept as raw bytes.
    pub fn from_text(text: &[u8]) -> (r: ExpectedValue)
        ensures
            if is_decimal(text@) && dec_value(text@) <= u64::MAX {
                r == ExpectedValue::Number(dec_value(text@) as u64)
            } else {
                r matches ExpectedValue::Bytes(b) && b@ == text@
            },
    {
        if text.len() == 0 {
            return ExpectedValue::Bytes(crate::bytes::to_bytes(text));
        }
        let mut acc: u64 = 0;
        let mut i: usize = 0;
        while i < text.len()
            invariant
                i <= text@.len(),
                text@.len() > 0,
                acc as nat == dec_value(text@.subrange(0, i as int)),
                forall|j: int| 0 <= j < i ==> 48 <= #[trigger] text@[j] <= 57,
            decreases text@.len() - i,
        {
            proof {
                assert(text@.subrange(0, i + 1).drop_last() =~= text@.subrange(0, i as int));
            }
            let b = text[i];
            if b < 48 || b > 57 {
                assert(!is_decimal(text@));
                return ExpectedValue::Bytes(crate::bytes::to_bytes(text));
            }
            if acc > (u64::MAX - (b - 48) as u64) / 10 {
                proof {
                    if is_decimal(text@) {
                        lemma_dec_prefix_monotone(text@, i as int + 1);
                    }
                }
                return ExpectedValue::Bytes(crate::bytes::to_bytes(text));
            }
            acc = acc * 10 + (b - 48) as u64;
            i = i + 1;
        }
        assert(text@.subrange(0, text@.len() as int) =~= text@);
        ExpectedValue::Number(acc)
    }

    /// Whether `actual` meets this expectation.
    pub fn matches_value(&self, actual: &[u8]) -> (r: bool)
        ensures
            r == value_matches(*self, actual@),
    {
        match self {
            ExpectedValue::Number(n) => match decode_be(actual) {
                Some(v) => v == *n,
                None => false,
            },
            ExpectedValue::Bytes(b) => bytes_eq(b.as_slice(), actual),
        }
    }
}

proof fn lemma_dec_prefix_monotone(s: Seq<u8>, k: int)
    requires
        0 <= k <= s.len(),
        is_decimal(s),
    ensures
        dec_value(s) >= dec_value(s.subrange(0, k)),
    decreases s.len() - k,
{
    if k < s.len() {
        lemma_dec_prefix_monotone(s, k + 1);
        assert(s.subrange(0, k + 1).drop_last() =~= s.subrange(0, k));
    } else {
        assert(s.subrange(0, k) =~= s);
    }
}

/// What a call is expected to produce: status, optionally the message, and
/// optionally the exact list of results.
pub struct TxExpect {
    pub status: u64,
    pub message: Option<Vec<u8>>,
    pub out: Option<Vec<ExpectedValue>>,
}

impl TxExpect {
    /// Success, with message and results left unchecked.
    pub fn ok() -> (r: TxExpect)
        ensures
            r.status == 0,
            r.message is None,
            r.out is None,
    {
        TxExpect { status: 0, message: None, out: None }
    }

    /// Failure with `status` and exactly `message`.
    pub fn err(status: u64, message: &str) -> (r: TxExpect)
        ensures
            r.status == status,
            r.message matches Some(m) && m@ == message.spec_bytes(),
            r.out is None,
    {
        TxExpect {
            status,
            message: Some(vstd::slice::slice_to_vec(message.as_bytes())),
            out: None,
        }
    }

    /// Expects an empty result list.
    pub fn no_result(self) -> (r: TxExpect)
        ensures
            r.status == self.status,
            r.message == self.message,
            r.out matches Some(v) && v@.len() == 0,
    {
        TxExpect { status: self.status, message: self.message, out: Some(Vec::new()) }
    }

    /// Appends one expected result.
    pub fn result(self, value: ExpectedValue) -> (r: TxExpect)
        ensures
            r.status == self.status,
            r.message == self.message,
            r.out matches Some(v) && v@ == match self.out {
                Some(w) => w@,
                None => Seq::<ExpectedValue>::empty(),
            }.push(value),
    {
        let mut out = match self.out {
            Some(w) => w,
            None => Vec::new(),
        };
        out.push(value);
        TxExpect { status: self.status, message: self.message, out: Some(out) }
    }
}

/// The callback run for a forwarded call: the arguments it was handed and
/// the status it ended with.
pub struct CallbackRecord {
    pub args: Vec<Vec<u8>>,
    pub status: u64,
}

/// One forwarded call, as it was performed.
pub struct ResolvedCall {
    pub kind: CallKind,
    pub to: Address,
    pub status: u64,
    pub message: Vec<u8>,
    pub out: Vec<Vec<u8>>,
    /// For transfer-and-execute: whether the payment moved (it stays moved
    /// when the endpoint then fails).
    pub payment_moved: bool,
    pub callback: Option<CallbackRecord>,
}

/// What a call produced.
pub struct TxResponse {
    pub status: u64,
    pub message: Vec<u8>,
    pub out: Vec<Vec<u8>>,
    /// The address a deployment created.
    pub new_address: Option<Address>,
    /// Promise callbacks run while the call forwarded its queue.
    pub promise_callbacks: u64,
    /// The queued calls this call forwarded, in queue order.
    pub forwarded: Vec<ResolvedCall>,
}

pub open spec fn expect_met(e: TxExpect, r: TxResponse) -> bool {
    &&& e.status == r.status
    &&& (e.message matches Some(m) ==> m@ == r.message@)
    &&& (e.out matches Some(v) ==> v@.len() == r.out@.len() && forall|i: int|
        0 <= i < v@.len() ==> value_matches(#[trigger] v@[i], r.out@[i]@))
}

/// Which part of a response or account differs from the expectation.
#[derive(Clone, Copy, Debug, PartialEq, Eq, Structural)]
pub enum CheckField {
    Status,
    Message,
    ResultCount,
    Result(u64),
    Missing,
    Nonce,
    Balance,
    Storage(u64),
    Token(u64),
}

/// One difference found by a check: the field, and the expected and actual
/// values as bytes (numbers big-endian).
#[derive(Clone, Debug, PartialEq, Eq)]
pub struct Mismatch {
    /// The account checked, for state checks.
    pub address: Option<Address>,
    pub field: CheckField,
    pub expected: Vec<u8>,
    pub actual: Vec<u8>,
}

impl ExpectedValue {
    /// The bytes this expectation stands for (a number, big-endian).
    pub fn to_bytes(&self) -> (r: Vec<u8>)
        ensures
            value_matches(*self, r@),
            r@ == match *self {
                ExpectedValue::Number(n) => crate::bytes::be_bytes(n as nat),
                ExpectedValue::Bytes(b) => b@,
            },
    {
        match self {
            ExpectedValue::Number(n) => {
                proof {
                    crate::bytes::lemma_be_bytes_value(*n as nat);
                }
                crate::bytes::encode_be(*n)
            },
            ExpectedValue::Bytes(b) => b.clone(),
        }
    }
}

/// Compares a response with an expectation, reporting every difference.
pub fn check_tx_output(expect: &TxExpect, response: &TxResponse) -> (r: Vec<Mismatch>)
    ensures
        r@.len() == 0 <==> expect_met(*expect, *response),
{
    let mut diffs: Vec<Mismatch> = Vec::new();
    if expect.status != response.status {
        diffs.push(
            Mismatch {
                address: None,
                field: CheckField::Status,
                expected: encode_be(expect.status),
                actual: encode_be(response.status),
            },
        );
    }
    match &expect.message {
        Some(m) => {
            if !bytes_eq(m.as_slice(), response.message.as_slice()) {
                diffs.push(
                    Mismatch {
                        address: None,
                        field: CheckField::Message,
                        expected: m.clone(),
                        actual: response.message.clone(),
                    },
                );
            }
        },
        None => {},
    }
    let ghost head_ok = diffs@.len() == 0;
    assert(head_ok == (expect.status == response.status && (expect.message matches Some(m) ==> m@
        == response.message@)));
    match &expect.out {
        Some(v) => {
            if v.len() != response.out.len() {
                diffs.push(
                    Mismatch {
                        address: None,
                        field: CheckField::ResultCount,
                        expected: encode_be(v.len() as u64),
                        actual: encode_be(response.out.len() as u64),
                    },
                );
            } else {
                let ghost d0 = diffs@.len();
                let mut i: usize = 0;
                while i < v.len()
                    invariant
                        v@.len() == response.out@.len(),
                        i <= v@.len(),
                        diffs@.len() >= d0,
                        (diffs@.len() == d0) == forall|j: int|
                            0 <= j < i ==> value_matches(#[trigger] v@[j], response.out@[j]@),
                    decreases v@.len() - i,
                {
                    if !v[i].matches_value(response.out[i].as_slice()) {
                        diffs.push(
                            Mismatch {
                                address: None,
                                field: CheckField::Result(i as u64),
                                expected: v[i].to_bytes(),
                                actual: response.out[i].clone(),
                            },
                        );
                    }
                    i = i + 1;
                }
            }
        },
        None => {},
    }
    diffs
}

/// A call step: the call, its optional expectation and, once run, its response.
pub struct ScCallStep {
    pub id: String,
    pub tx: TxCall,
    pub expect: Option<TxExpect>,
    pub response: Option<TxResponse>,
}

/// Setting a native amount is refused when it is non-zero and tokens are attached.
pub open spec fn egld_conflicts(tx: TxCall, amount: u128) -> bool {
    amount > 0 && tx.esdt_value@.len() > 0
}

/// Attaching a token transfer is refused when a non-zero native amount is set.
pub open spec fn esdt_conflicts(tx: TxCall) -> bool {
    tx.egld_value > 0
}

impl ScCallStep {
    /// An empty call from and to the zero address.
    pub fn new() -> (r: ScCallStep)
        ensures
            r.tx.egld_value == 0,
            r.tx.esdt_value@.len() == 0,
            r.tx.function@.len() == 0,
            r.tx.arguments@.len() == 0,
            r.expect is None,
            r.response is None,
    {
        ScCallStep {
            id: String::new(),
            tx: TxCall {
                from: Address { hi: 0, lo: 0 },
                to: Address { hi: 0, lo: 0 },
                egld_value: 0,
                esdt_value: Vec::new(),
                function: Vec::new(),
                arguments: Vec::new(),
                gas_limit: 0,
            },
            expect: None,
            response: None,
        }
    }

    /// The response; only available once the step has run.
    pub fn response(&self) -> (r: &TxResponse)
        requires
            self.response is Some,
        ensures
            self.response == Some(*r),
    {
        self.response.as_ref().unwrap()
    }

    pub fn from(self, address: Address) -> (r: ScCallStep)
        ensures
            r.tx.from == address,
            r.tx.to == self.tx.to,
            r.tx.egld_value == self.tx.egld_value,
            r.tx.esdt_value@ == self.tx.esdt_value@,
            r.tx.function@ == self.tx.function@,
            r.tx.arguments@ == self.tx.arguments@,
            r.expect == self.expect,
            r.id == self.id,
            r.response == self.response,
            r.tx.gas_limit == self.tx.gas_limit,
    {
        let mut s = self;
        s.tx.from = address;
        s
    }

    pub fn to(self, address: Address) -> (r: ScCallStep)
        ensures
            r.tx.to == address,
            r.tx.from == self.tx.from,
            r.tx.egld_value == self.tx.egld_value,
            r.tx.esdt_value@ == self.tx.esdt_value@,
            r.tx.function@ == self.tx.function@,
            r.tx.arguments@ == self.tx.arguments@,
            r.expect == self.expect,
            r.id == self.id,
            r.response == self.response,
            r.tx.gas_limit == self.tx.gas_limit,
    {
        let mut s = self;
        s.tx.to = address;
        s
    }

    /// Sets the native amount; refused with a payment conflict when the
    /// amount is non-zero and token transfers are already attached.
    pub fn egld_value(self, amount: u128) -> (r: Result<ScCallStep, ScenarioError>)
        ensures
            egld_conflicts(self.tx, amount) <==> r is Err,
            r matches Err(e) ==> e == ScenarioError::PaymentConflict,
            r matches Ok(s) ==> s.tx.egld_value == amount && s.tx.esdt_value@ == self.tx.esdt_value@
                && s.tx.from == self.tx.from && s.tx.to == self.tx.to && s.tx.function@
                == self.tx.function@ && s.tx.arguments@ == self.tx.arguments@,
            r matches Ok(s) ==> s.id == self.id && s.response == self.response && s.expect == self.expect
                && s.tx.gas_limit == self.tx.gas_limit,
    {
        if amount > 0 && self.tx.esdt_value.len() > 0 {
            return Err(ScenarioError::PaymentConflict);
        }
        let mut s = self;
        s.tx.egld_value = amount;
        Ok(s)
    }

    /// Attaches a token transfer; refused with a payment conflict when a
    /// non-zero native amount is set.
    pub fn esdt_transfer(self, token_id: Vec<u8>, token_nonce: u64, amount: u128) -> (r: Result<
        ScCallStep,
        ScenarioError,
    >)
        ensures
            esdt_conflicts(self.tx) <==> r is Err,
            r matches Err(e) ==> e == ScenarioError::PaymentConflict,
            r matches Ok(s) ==> s.tx.esdt_value@.len() == self.tx.esdt_value@.len() + 1
                && s.tx.esdt_value@.last().token_id@ == token_id@
                && s.tx.esdt_value@.last().nonce == token_nonce
                && s.tx.esdt_value@.last().amount == amount
                && s.tx.esdt_value@.drop_last() == self.tx.esdt_value@
                && s.tx.egld_value == self.tx.egld_value && s.tx.from == self.tx.from && s.tx.to
                == self.tx.to && s.tx.function@ == self.tx.function@ && s.tx.arguments@
                == self.tx.arguments@,
            r matches Ok(s) ==> s.id == self.id && s.response == self.response && s.expect == self.expect
                && s.tx.gas_limit == self.tx.gas_limit,
    {
        if self.tx.egld_value > 0 {
            return Err(ScenarioError::PaymentConflict);
        }
        let mut s = self;
        s.tx.esdt_value.push(TokenTransfer { token_id, nonce: token_nonce, amount });
        proof {
            assert(s.tx.esdt_value@.drop_last() =~= self.tx.esdt_value@);
        }
        Ok(s)
    }

    /// Sets the endpoint name.
    pub fn function(self, name: &str) -> (r: ScCallStep)
        ensures
            r.tx.function@ == name.spec_bytes(),
            r.tx.from == self.tx.from,
            r.tx.to == self.tx.to,
            r.tx.egld_value == self.tx.egld_value,
            r.tx.esdt_value@ == self.tx.esdt_value@,
            r.tx.arguments@ == self.tx.arguments@,
            r.expect == self.expect,
            r.id == self.id,
            r.response == self.response,
            r.tx.gas_limit == self.tx.gas_limit,
    {
        let mut s = self;
        s.tx.function = vstd::slice::slice_to_vec(name.as_bytes());
        s
    }

    /// Appends a raw argument.
    pub fn argument(self, arg: Vec<u8>) -> (r: ScCallStep)
        ensures
            r.tx.arguments@ == self.tx.arguments@.push(arg),
            r.tx.from == self.tx.from,
            r.tx.to == self.tx.to,
            r.tx.egld_value == self.tx.egld_value,
            r.tx.esdt_value@ == self.tx.esdt_value@,
            r.tx.function@ == self.tx.function@,
            r.expect == self.expect,
            r.id == self.id,
            r.response == self.response,
            r.tx.gas_limit == self.tx.gas_limit,
    {
        let mut s = self;
        s.tx.arguments.push(arg);
        s
    }

    pub fn gas_limit(self, value: u64) -> (r: ScCallStep)
        ensures
            r.tx.gas_limit == value,
            r.tx.from == self.tx.from,
            r.tx.to == self.tx.to,
            r.tx.egld_value == self.tx.egld_value,
            r.tx.esdt_value@ == self.tx.esdt_value@,
            r.tx.function@ == self.tx.function@,
            r.tx.arguments@ == self.tx.arguments@,
            r.expect == self.expect,
            r.id == self.id,
            r.response == self.response,
    {
        let mut s = self;
        s.tx.gas_limit = value;
        s
    }

    pub fn expect(self, expect: TxExpect) -> (r: ScCallStep)
        ensures
            r.expect == Some(expect),
            r.tx.from == self.tx.from,
            r.tx.to == self.tx.to,
            r.tx.egld_value == self.tx.egld_value,
            r.tx.esdt_value@ == self.tx.esdt_value@,
            r.tx.function@ == self.tx.function@,
            r.tx.arguments@ == self.tx.arguments@,
            r.id == self.id,
            r.response == self.response,
            r.tx.gas_limit == self.tx.gas_limit,
    {
        let mut s = self;
        s.expect = Some(expect);
        s
    }
}

impl ScCallStep {
    /// Sets receiver, endpoint and native amount, and appends the arguments;
    /// refused with a payment conflict as `egld_value` is.
    pub fn call(self, to: Address, function: &str, egld: u128, args: Vec<Vec<u8>>) -> (r: Result<
        ScCallStep,
        ScenarioError,
    >)
        ensures
            egld_conflicts(self.tx, egld) <==> r is Err,
            r matches Err(e) ==> e == ScenarioError::PaymentConflict,
            r matches Ok(s) ==> s.tx.to == to && s.tx.function@ == function.spec_bytes()
                && s.tx.egld_value == egld && s.tx.arguments@ == self.tx.arguments@ + args@
                && s.tx.from == self.tx.from && s.tx.esdt_value@ == self.tx.esdt_value@
                && s.tx.gas_limit == self.tx.gas_limit && s.id == self.id && s.expect == self.expect
                && s.response == self.response,
    {
        if egld > 0 && self.tx.esdt_value.len() > 0 {
            return Err(ScenarioError::PaymentConflict);
        }
        let mut s = self;
        s.tx.to = to;
        s.tx.function = vstd::slice::slice_to_vec(function.as_bytes());
        s.tx.egld_value = egld;
        let mut more = args;
        s.tx.arguments.append(&mut more);
        Ok(s)
    }
}

/// An expectation of success whose results are exactly the given encoded
/// values, in order.
pub fn format_expect(encoded: &Vec<Vec<u8>>) -> (r: TxExpect)
    ensures
        r.status == 0,
        r.message is None,
        r.out matches Some(v) && v@.len() == encoded@.len() && forall|i: int|
            0 <= i < v@.len() ==> (#[trigger] v@[i] matches ExpectedValue::Bytes(b) && b@
                == encoded@[i]@),
{
    let mut out: Vec<ExpectedValue> = Vec::new();
    let mut i: usize = 0;
    while i < encoded.len()
        invariant
            i <= encoded@.len(),
            out@.len() == i,
            forall|j: int|
                0 <= j < i ==> (#[trigger] out@[j] matches ExpectedValue::Bytes(b) && b@
                    == encoded@[j]@),
        decreases encoded@.len() - i,
    {
        out.push(ExpectedValue::Bytes(encoded[i].clone()));
        i = i + 1;
    }
    TxExpect { status: 0, message: None, out: Some(out) }
}

/// Whichever of the two payment kinds is attached first, attaching a
/// non-zero amount of the other one is refused.
pub proof fn lemma_payment_exclusivity(tx: TxCall, amount: u128)
    requires
        amount > 0,
    ensures
        tx.esdt_value@.len() > 0 ==> egld_conflicts(tx, amount),
        tx.egld_value > 0 ==> esdt_conflicts(tx),
        forall|t: TxCall| t.egld_value == amount ==> #[trigger] esdt_conflicts(t),
        forall|t: TxCall| t.esdt_value@.len() > 0 ==> #[trigger] egld_conflicts(t, amount),
{
}

} // verus!
