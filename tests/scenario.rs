use scenario_engine::bytes::convert_call_args;
use scenario_engine::contracts::ContractCode;
use scenario_engine::facade::{Backend, ScenarioWorld};
use scenario_engine::model::{
    check_tx_output, format_expect, CheckField, ExpectedValue, ScCallStep, ScenarioError, TxDeploy, TxExpect, TxQuery,
    TxResponse,
};
use scenario_engine::runner::{perform_sc_call, perform_sc_deploy, perform_sc_query};
use scenario_engine::steps::{
    AccountSetup, CheckAccount, CheckStateStep, ScDeployStep, ScQueryStep, SetStateStep, Step,
    StepKind, TransferStep, ValidatorRewardStep,
};
use scenario_engine::world::{derive_address, Account, Address, WorldState};

fn owner() -> Address {
    Address::new(0xAAAA_0000_0000_0000_0000_0000_0000_0001, 0x1234_5678_9ABC_DEF0_0000_0000_0000_0000)
}

fn addr_bytes(a: Address) -> Vec<u8> {
    let mut v = a.hi.to_be_bytes().to_vec();
    v.extend_from_slice(&a.lo.to_be_bytes());
    v
}

fn world_with_owner(balance: u128) -> WorldState {
    let mut w = WorldState::new();
    w.put_account(owner(), Account::new(1, balance, None));
    w
}

fn deploy(w: &mut WorldState, code: ContractCode, args: Vec<Vec<u8>>) -> Address {
    let resp = perform_sc_deploy(
        w,
        &TxDeploy { from: owner(), code, egld_value: 0, arguments: args, gas_limit: 5_000_000 },
    )
    .unwrap();
    assert_eq!(resp.status, 0);
    resp.new_address.unwrap()
}

fn call(w: &mut WorldState, to: Address, function: &str, args: Vec<Vec<u8>>) -> TxResponse {
    let mut step = ScCallStep::new().from(owner()).to(to).function(function);
    for a in args {
        step = step.argument(a);
    }
    perform_sc_call(w, &step.tx).unwrap()
}

fn query(w: &WorldState, to: Address, function: &str) -> Result<TxResponse, ScenarioError> {
    perform_sc_query(w, &TxQuery { to, function: function.as_bytes().to_vec(), arguments: vec![] })
}

#[test]
fn adder_round_trip() {
    let mut world = ScenarioWorld::new();
    world.start_trace();
    let adder = derive_address(owner(), 1);

    let mut set = Step::SetState(SetStateStep {
        accounts: vec![(owner(), AccountSetup { nonce: 1, balance: 0, code: None, storage: vec![], esdt: vec![] })],
        new_addresses: vec![(owner(), 1, adder)],
        block: None,
    });
    assert_eq!(world.for_each_runner_mut(&mut set), Ok(()));

    let mut deploy = Step::ScDeploy(ScDeployStep {
        id: "deploy".to_string(),
        tx: TxDeploy {
            from: owner(),
            code: ContractCode::Adder,
            egld_value: 0,
            arguments: vec![vec![5]],
            gas_limit: 5_000_000,
        },
        expect: Some(TxExpect::ok().no_result()),
        response: None,
    });
    assert_eq!(world.for_each_runner_mut(&mut deploy), Ok(()));
    match &deploy {
        Step::ScDeploy(d) => assert_eq!(d.response.as_ref().unwrap().new_address, Some(adder)),
        _ => unreachable!(),
    }

    let mut q = Step::ScQuery(ScQueryStep {
        id: "query".to_string(),
        tx: TxQuery { to: adder, function: b"getSum".to_vec(), arguments: vec![] },
        expect: Some(TxExpect::ok().result(ExpectedValue::from_text(b"5"))),
        response: None,
    });
    assert_eq!(world.for_each_runner_mut(&mut q), Ok(()));

    let add = ScCallStep::new()
        .from(owner())
        .to(adder)
        .function("add")
        .argument(vec![3])
        .gas_limit(5_000_000)
        .expect(TxExpect::ok().no_result());
    let mut add = Step::ScCall(add);
    assert_eq!(world.for_each_runner_mut(&mut add), Ok(()));

    let mut check = Step::CheckState(CheckStateStep {
        id: "check".to_string(),
        accounts: vec![
            (owner(), CheckAccount { nonce: None, balance: None, storage: vec![] , esdt: vec![] }),
            (
                adder,
                CheckAccount {
                    nonce: None,
                    balance: None,
                    storage: vec![(b"sum".to_vec(), ExpectedValue::from_text(b"8"))],
                    esdt: vec![],
                },
            ),
        ],
    });
    assert_eq!(world.for_each_runner_mut(&mut check), Ok(()));

    match &world.backend {
        Backend::Debugger(d) => assert_eq!(
            d.trace.as_ref().unwrap().steps,
            vec![StepKind::SetState, StepKind::ScDeploy, StepKind::ScQuery, StepKind::ScCall, StepKind::CheckState]
        ),
        Backend::VmGoBackend => unreachable!(),
    }
}

#[test]
fn failed_check_reports_and_is_not_traced() {
    let mut world = ScenarioWorld::new();
    world.start_trace();
    let mut check = Step::CheckState(CheckStateStep {
        id: "check".to_string(),
        accounts: vec![(owner(), CheckAccount { nonce: None, balance: None, storage: vec![] , esdt: vec![] })],
    });
    match world.for_each_runner_mut(&mut check) {
        Err(ScenarioError::ExpectationFailed { step_id, diffs }) => {
            assert_eq!(step_id, "check");
            assert_eq!(diffs.len(), 1);
            assert_eq!(diffs[0].field, CheckField::Missing);
        },
        other => panic!("unexpected result {:?}", other),
    }
    match &world.backend {
        Backend::Debugger(d) => assert!(d.trace.as_ref().unwrap().steps.is_empty()),
        Backend::VmGoBackend => unreachable!(),
    }
}

#[test]
fn whole_scenario_backend_refuses_steps() {
    let mut world = ScenarioWorld { backend: Backend::VmGoBackend };
    let mut step = Step::DumpState;
    assert_eq!(world.for_each_runner_mut(&mut step), Err(ScenarioError::StepByStepUnsupported));
}

#[test]
fn payment_conflict_in_both_orders() {
    let r = ScCallStep::new().egld_value(10).unwrap().esdt_transfer(b"TOK-123456".to_vec(), 0, 5);
    assert_eq!(r.err(), Some(ScenarioError::PaymentConflict));
    let r = ScCallStep::new().esdt_transfer(b"TOK-123456".to_vec(), 0, 5).unwrap().egld_value(10);
    assert_eq!(r.err(), Some(ScenarioError::PaymentConflict));
    let ok = ScCallStep::new().esdt_transfer(b"TOK-123456".to_vec(), 0, 5).unwrap().egld_value(0);
    assert!(ok.is_ok());
    let ok = ScCallStep::new().egld_value(7).unwrap().egld_value(8).unwrap();
    assert_eq!(ok.tx.egld_value, 8);
}

#[test]
fn query_that_queues_a_call_fails() {
    let mut w = world_with_owner(0);
    let fq = deploy(&mut w, ContractCode::ForwarderQueue, vec![]);
    let adder = deploy(&mut w, ContractCode::Adder, vec![vec![0]]);
    let r = perform_sc_query(
        &w,
        &TxQuery {
            to: fq,
            function: b"add_queued_call_promise".to_vec(),
            arguments: vec![addr_bytes(adder), b"add".to_vec(), vec![1]],
        },
    );
    assert_eq!(r.err(), Some(ScenarioError::PendingCallsOnQuery));
    let ok = query(&w, fq, "callback_count").unwrap();
    assert_eq!(ok.status, 0);
    assert_eq!(ok.out, vec![Vec::<u8>::new()]);
    assert_eq!(query(&w, fq, "forward_queued_calls").unwrap().status, 0);
}

#[test]
fn query_of_forwarding_with_queued_calls_fails() {
    let mut w = world_with_owner(0);
    let fq = deploy(&mut w, ContractCode::ForwarderQueue, vec![]);
    let adder = deploy(&mut w, ContractCode::Adder, vec![vec![0]]);
    let r = call(&mut w, fq, "add_queued_call_sync", vec![addr_bytes(adder), b"add".to_vec(), vec![1]]);
    assert_eq!(r.status, 0);
    assert_eq!(query(&w, fq, "forward_queued_calls").err(), Some(ScenarioError::PendingCallsOnQuery));
    assert_eq!(query(&w, fq, "queued_calls").unwrap().out, vec![vec![1]]);
}

#[test]
fn deterministic_addresses() {
    let a = derive_address(owner(), 7);
    assert_eq!(a, derive_address(owner(), 7));
    assert_ne!(a, derive_address(owner(), 8));
    assert_eq!(a.hi >> 64, 0);

    let mut w1 = world_with_owner(0);
    let mut w2 = world_with_owner(0);
    let d1 = deploy(&mut w1, ContractCode::Adder, vec![vec![1]]);
    let d2 = deploy(&mut w2, ContractCode::Adder, vec![vec![1]]);
    assert_eq!(d1, d2);
    assert_eq!(d1, derive_address(owner(), 1));
    let d3 = deploy(&mut w1, ContractCode::Adder, vec![vec![1]]);
    assert_ne!(d1, d3);
    assert_eq!(w1.get_account(owner()).unwrap().nonce, 3);
}

#[test]
fn promise_accounting() {
    let mut w = world_with_owner(0);
    let fq = deploy(&mut w, ContractCode::ForwarderQueue, vec![]);
    let adder = deploy(&mut w, ContractCode::Adder, vec![vec![0]]);
    for _ in 0..3 {
        let r = call(&mut w, fq, "add_queued_call_promise", vec![addr_bytes(adder), b"add".to_vec(), vec![2]]);
        assert_eq!(r.status, 0);
    }
    let r = call(&mut w, fq, "forward_queued_calls", vec![]);
    assert_eq!(r.status, 0);
    assert_eq!(r.promise_callbacks, 3);
    assert_eq!(query(&w, fq, "callback_count").unwrap().out, vec![vec![3]]);
    assert_eq!(query(&w, adder, "getSum").unwrap().out, vec![vec![6]]);
    assert_eq!(query(&w, fq, "queued_calls").unwrap().out, vec![Vec::<u8>::new()]);

    let again = call(&mut w, fq, "forward_queued_calls", vec![]);
    assert_eq!(again.status, 0);
    assert_eq!(again.promise_callbacks, 0);
    assert_eq!(query(&w, fq, "callback_count").unwrap().out, vec![vec![3]]);
}

#[test]
fn failed_promise_still_calls_back() {
    let mut w = world_with_owner(0);
    let fq = deploy(&mut w, ContractCode::ForwarderQueue, vec![]);
    let adder = deploy(&mut w, ContractCode::Adder, vec![vec![0]]);
    call(&mut w, fq, "add_queued_call_promise", vec![addr_bytes(adder), b"missing".to_vec()]);
    let r = call(&mut w, fq, "forward_queued_calls", vec![]);
    assert_eq!(r.promise_callbacks, 1);
    assert_eq!(query(&w, fq, "callback_count").unwrap().out, vec![vec![1]]);
}

#[test]
fn sync_and_legacy_calls() {
    let mut w = world_with_owner(0);
    let fq = deploy(&mut w, ContractCode::ForwarderQueue, vec![]);
    let adder = deploy(&mut w, ContractCode::Adder, vec![vec![10]]);
    call(&mut w, fq, "add_queued_call_sync", vec![addr_bytes(adder), b"getSum".to_vec()]);
    call(&mut w, fq, "add_queued_call_legacy_async", vec![addr_bytes(adder), b"add".to_vec(), vec![1]]);
    let r = call(&mut w, fq, "forward_queued_calls", vec![]);
    assert_eq!(r.status, 0);
    assert_eq!(r.out, vec![vec![10]]);
    assert_eq!(r.promise_callbacks, 0);
    assert_eq!(query(&w, adder, "getSum").unwrap().out, vec![vec![11]]);
}

#[test]
fn transfer_execute_moves_payment_even_when_call_fails() {
    let mut w = world_with_owner(100);
    let fq = deploy(&mut w, ContractCode::ForwarderQueue, vec![]);
    let adder = deploy(&mut w, ContractCode::Adder, vec![vec![0]]);
    let step = ScCallStep::new()
        .from(owner())
        .to(fq)
        .function("add_queued_call_transfer_execute")
        .egld_value(40)
        .unwrap()
        .argument(addr_bytes(adder))
        .argument(b"missing".to_vec());
    assert_eq!(perform_sc_call(&mut w, &step.tx).unwrap().status, 0);
    assert_eq!(w.get_account(fq).unwrap().balance, 40);
    let r = call(&mut w, fq, "forward_queued_calls", vec![]);
    assert_eq!(r.status, 1);
    assert_eq!(w.get_account(fq).unwrap().balance, 0);
    assert_eq!(w.get_account(adder).unwrap().balance, 40);
    assert_eq!(w.get_account(owner()).unwrap().balance, 60);
}

#[test]
fn call_errors_become_statuses() {
    let mut w = world_with_owner(5);
    let adder = deploy(&mut w, ContractCode::Adder, vec![vec![1]]);
    assert_eq!(call(&mut w, adder, "nope", vec![]).status, 1);
    assert_eq!(call(&mut w, adder, "add", vec![]).status, 4);
    let overflow = call(&mut w, adder, "add", vec![vec![0xff; 8]]);
    assert_eq!(overflow.status, 4);
    let step = ScCallStep::new().from(owner()).to(adder).function("add").argument(vec![1]).egld_value(6).unwrap();
    assert_eq!(perform_sc_call(&mut w, &step.tx).unwrap().status, 7);
    let missing = ScCallStep::new().from(Address::new(9, 9)).to(adder).function("add");
    assert_eq!(perform_sc_call(&mut w, &missing.tx).err(), Some(ScenarioError::UnknownAccount));
    assert_eq!(query(&w, Address::new(9, 9), "getSum").err(), Some(ScenarioError::UnknownAccount));
    assert_eq!(query(&w, owner(), "getSum").err(), Some(ScenarioError::NotAContract));
    assert!(w.get_account(Address::new(9, 9)).is_none());
}

#[test]
fn failed_constructor_leaves_no_account() {
    let mut w = world_with_owner(0);
    let r = perform_sc_deploy(
        &mut w,
        &TxDeploy { from: owner(), code: ContractCode::Adder, egld_value: 0, arguments: vec![], gas_limit: 0 },
    )
    .unwrap();
    assert_eq!(r.status, 4);
    assert_eq!(r.new_address, None);
    assert!(w.get_account(derive_address(owner(), 1)).is_none());
}

#[test]
fn expectation_checks() {
    let resp = TxResponse { status: 0, message: vec![], out: vec![vec![0, 0, 8]], new_address: None, promise_callbacks: 0, forwarded: vec![] };
    assert!(check_tx_output(&TxExpect::ok().result(ExpectedValue::from_text(b"8")), &resp).is_empty());
    assert_eq!(check_tx_output(&TxExpect::ok().result(ExpectedValue::from_text(b"9")), &resp).len(), 1);
    assert_eq!(check_tx_output(&TxExpect::ok().no_result(), &resp).len(), 1);
    assert!(check_tx_output(&TxExpect::ok(), &resp).is_empty());
    let failing = TxResponse { status: 4, message: b"boom".to_vec(), out: vec![], new_address: None, promise_callbacks: 0, forwarded: vec![] };
    assert!(check_tx_output(&TxExpect::err(4, "boom"), &failing).is_empty());
    let diffs = check_tx_output(&TxExpect::err(5, "bang").no_result(), &failing);
    assert_eq!(diffs.len(), 2);
    assert_eq!(diffs[0].field, CheckField::Status);
    assert_eq!(diffs[0].expected, vec![5]);
    assert_eq!(diffs[0].actual, vec![4]);
    assert_eq!(diffs[1].field, CheckField::Message);
    assert_eq!(diffs[1].expected, b"bang".to_vec());
    let wrong = check_tx_output(&TxExpect::ok().result(ExpectedValue::from_text(b"9")), &resp);
    assert_eq!(wrong[0].field, CheckField::Result(0));
    assert_eq!(wrong[0].expected, vec![9]);
    assert_eq!(wrong[0].actual, vec![0, 0, 8]);
    assert!(matches!(ExpectedValue::from_text(b"str:x"), ExpectedValue::Bytes(_)));
    assert!(matches!(ExpectedValue::from_text(b""), ExpectedValue::Bytes(_)));
    assert!(matches!(ExpectedValue::from_text(b"18446744073709551616"), ExpectedValue::Bytes(_)));
    assert!(matches!(ExpectedValue::from_text(b"18446744073709551615"), ExpectedValue::Number(u64::MAX)));
}

#[test]
fn transfer_step_moves_balance() {
    let mut world = ScenarioWorld::new();
    let other = Address::new(0, 2);
    let mut set = Step::SetState(SetStateStep {
        accounts: vec![
            (owner(), AccountSetup { nonce: 0, balance: 50, code: None, storage: vec![], esdt: vec![] }),
            (other, AccountSetup { nonce: 0, balance: 0, code: None, storage: vec![(b"k".to_vec(), b"v".to_vec())], esdt: vec![] }),
        ],
        new_addresses: vec![],
        block: None,
    });
    assert_eq!(world.for_each_runner_mut(&mut set), Ok(()));
    let mut t = Step::Transfer(TransferStep { from: owner(), to: other, amount: 20 });
    assert_eq!(world.for_each_runner_mut(&mut t), Ok(()));
    let mut too_much = Step::Transfer(TransferStep { from: owner(), to: other, amount: 31 });
    assert_eq!(world.for_each_runner_mut(&mut too_much), Err(ScenarioError::TransferFailed));
    let mut check = Step::CheckState(CheckStateStep {
        id: "check".to_string(),
        accounts: vec![(
            other,
            CheckAccount {
                nonce: Some(0),
                balance: Some(20),
                storage: vec![(b"k".to_vec(), ExpectedValue::Bytes(b"v".to_vec()))],
                    esdt: vec![],
            },
        )],
    });
    assert_eq!(world.for_each_runner_mut(&mut check), Ok(()));

    let mut wrong = Step::CheckState(CheckStateStep {
        id: "balances".to_string(),
        accounts: vec![(other, CheckAccount { nonce: Some(1), balance: Some(21), storage: vec![(b"k".to_vec(), ExpectedValue::from_text(b"7"))], esdt: vec![] })],
    });
    match world.for_each_runner_mut(&mut wrong) {
        Err(ScenarioError::ExpectationFailed { diffs, .. }) => {
            let fields: Vec<CheckField> = diffs.iter().map(|d| d.field).collect();
            assert_eq!(fields, vec![CheckField::Nonce, CheckField::Balance, CheckField::Storage(0)]);
            assert_eq!(diffs[1].expected, vec![21]);
            assert_eq!(diffs[1].actual, vec![20]);
            assert_eq!(diffs[2].actual, b"v".to_vec());
        },
        other => panic!("unexpected result {:?}", other),
    }
}

#[test]
fn call_arguments_as_hex_expressions() {
    assert_eq!(convert_call_args(&vec![vec![0x0a, 0xff], vec![]]), vec!["0x0aff".to_string(), "0x".to_string()]);
}

#[test]
fn validator_reward_grows_balance_and_cumulated_reward() {
    let mut world = ScenarioWorld::new();
    let mut set = Step::SetState(SetStateStep {
        accounts: vec![(owner(), AccountSetup { nonce: 0, balance: 5, code: None, storage: vec![], esdt: vec![] })],
        new_addresses: vec![],
        block: None,
    });
    assert_eq!(world.for_each_runner_mut(&mut set), Ok(()));
    for _ in 0..2 {
        let mut r = Step::ValidatorReward(ValidatorRewardStep { address: owner(), amount: 300 });
        assert_eq!(world.for_each_runner_mut(&mut r), Ok(()));
    }
    let mut check = Step::CheckState(CheckStateStep {
        id: "reward".to_string(),
        accounts: vec![(
            owner(),
            CheckAccount {
                nonce: None,
                balance: Some(605),
                storage: vec![(b"ELRONDrewards".to_vec(), ExpectedValue::from_text(b"600"))],
                    esdt: vec![],
            },
        )],
    });
    assert_eq!(world.for_each_runner_mut(&mut check), Ok(()));
    let mut missing = Step::ValidatorReward(ValidatorRewardStep { address: Address::new(3, 3), amount: 1 });
    assert_eq!(world.for_each_runner_mut(&mut missing), Err(ScenarioError::UnknownAccount));
    let mut overflow = Step::ValidatorReward(ValidatorRewardStep { address: owner(), amount: u128::MAX });
    assert_eq!(world.for_each_runner_mut(&mut overflow), Err(ScenarioError::RewardOverflow));
}

#[test]
fn deploy_at_unpredicted_address_fails() {
    let mut world = ScenarioWorld::new();
    let wrong = Address::new(7, 7);
    let mut set = Step::SetState(SetStateStep {
        accounts: vec![(owner(), AccountSetup { nonce: 1, balance: 0, code: None, storage: vec![], esdt: vec![] })],
        new_addresses: vec![(owner(), 1, wrong)],
        block: None,
    });
    assert_eq!(world.for_each_runner_mut(&mut set), Ok(()));
    let mut deploy = Step::ScDeploy(ScDeployStep {
        id: "deploy".to_string(),
        tx: TxDeploy { from: owner(), code: ContractCode::Adder, egld_value: 0, arguments: vec![vec![5]], gas_limit: 0 },
        expect: None,
        response: None,
    });
    assert_eq!(
        world.for_each_runner_mut(&mut deploy),
        Err(ScenarioError::AddressMismatch { expected: wrong, actual: derive_address(owner(), 1) })
    );
}

#[test]
fn call_builder_and_formatted_expectation() {
    let step = ScCallStep::new().gas_limit(9).call(owner(), "add", 0, vec![vec![1], vec![2]]).unwrap();
    assert_eq!(step.tx.to, owner());
    assert_eq!(step.tx.function, b"add".to_vec());
    assert_eq!(step.tx.arguments, vec![vec![1], vec![2]]);
    assert_eq!(step.tx.gas_limit, 9);
    let e = format_expect(&vec![vec![0, 8]]);
    let resp = TxResponse { status: 0, message: vec![], out: vec![vec![0, 8]], new_address: None, promise_callbacks: 0, forwarded: vec![] };
    assert!(check_tx_output(&e, &resp).is_empty());
}

#[test]
fn token_payments_move_with_successful_calls() {
    let mut world = ScenarioWorld::new();
    let mut set = Step::SetState(SetStateStep {
        accounts: vec![(
            owner(),
            AccountSetup { nonce: 1, balance: 0, code: None, storage: vec![], esdt: vec![(b"TOK-1".to_vec(), 0, 100)] },
        )],
        new_addresses: vec![],
        block: None,
    });
    assert_eq!(world.for_each_runner_mut(&mut set), Ok(()));
    let mut deploy = Step::ScDeploy(ScDeployStep {
        id: "d".to_string(),
        tx: TxDeploy { from: owner(), code: ContractCode::Adder, egld_value: 0, arguments: vec![vec![1]], gas_limit: 0 },
        expect: None,
        response: None,
    });
    assert_eq!(world.for_each_runner_mut(&mut deploy), Ok(()));
    let adder = derive_address(owner(), 1);

    let ok = ScCallStep::new().from(owner()).to(adder).function("add").argument(vec![1])
        .esdt_transfer(b"TOK-1".to_vec(), 0, 30).unwrap().expect(TxExpect::ok());
    assert_eq!(world.for_each_runner_mut(&mut Step::ScCall(ok)), Ok(()));
    let failing = ScCallStep::new().from(owner()).to(adder).function("nope")
        .esdt_transfer(b"TOK-1".to_vec(), 0, 30).unwrap();
    assert_eq!(world.for_each_runner_mut(&mut Step::ScCall(failing)), Ok(()));
    let too_much = ScCallStep::new().from(owner()).to(adder).function("add").argument(vec![1])
        .esdt_transfer(b"TOK-1".to_vec(), 0, 71).unwrap().expect(TxExpect::err(7, "token transfer not possible"));
    assert_eq!(world.for_each_runner_mut(&mut Step::ScCall(too_much)), Ok(()));

    let mut check = Step::CheckState(CheckStateStep {
        id: "tokens".to_string(),
        accounts: vec![
            (owner(), CheckAccount { nonce: Some(5), balance: None, storage: vec![], esdt: vec![(b"TOK-1".to_vec(), 0, 70)] }),
            (adder, CheckAccount { nonce: None, balance: None, storage: vec![], esdt: vec![(b"TOK-1".to_vec(), 0, 30)] }),
        ],
    });
    assert_eq!(world.for_each_runner_mut(&mut check), Ok(()));
    let mut wrong = Step::CheckState(CheckStateStep {
        id: "tokens".to_string(),
        accounts: vec![(adder, CheckAccount { nonce: None, balance: None, storage: vec![], esdt: vec![(b"TOK-1".to_vec(), 0, 31)] })],
    });
    match world.for_each_runner_mut(&mut wrong) {
        Err(ScenarioError::ExpectationFailed { diffs, .. }) => {
            assert_eq!(diffs[0].field, CheckField::Token(0));
            assert_eq!(diffs[0].address, Some(adder));
        },
        other => panic!("unexpected result {:?}", other),
    }
}

#[test]
fn forwarding_records_each_call_in_queue_order() {
    let mut w = world_with_owner(0);
    let fq = deploy(&mut w, ContractCode::ForwarderQueue, vec![]);
    let adder = deploy(&mut w, ContractCode::Adder, vec![vec![0]]);
    call(&mut w, fq, "add_queued_call_promise", vec![addr_bytes(adder), b"missing".to_vec()]);
    call(&mut w, fq, "add_queued_call_legacy_async", vec![addr_bytes(adder), b"getSum".to_vec()]);
    let r = call(&mut w, fq, "forward_queued_calls", vec![]);
    assert_eq!(r.forwarded.len(), 2);
    assert_eq!(r.forwarded[0].status, 1);
    let cb = r.forwarded[0].callback.as_ref().unwrap();
    assert_eq!(cb.args[0], vec![1]);
    assert_eq!(cb.status, 0);
    assert_eq!(r.forwarded[1].out, vec![Vec::<u8>::new()]);
    assert_eq!(r.forwarded[1].callback.as_ref().unwrap().args, vec![vec![], vec![], vec![]]);
}
