//! The interface between contract code and the host that runs it.
use vstd::prelude::*;
use crate::bytes::{decode_be, encode_be};
use crate::contracts::{execute_endpoint, ContractCode, Outcome};
use crate::world::{Account, Address};

verus! {

/// The error an asynchronous call reports back to its caller.
pub struct AsyncCallError {
    pub err_code: i32,
    pub err_msg: Vec<u8>,
}

/// The result an asynchronous call reports back to its caller.
pub enum AsyncCallResult<T> {
    Success(T),
    Failure(AsyncCallError),
}

/// Sign of a signed big integer.
#[derive(Clone, Copy, Debug, PartialEq, Eq, Structural)]
pub enum Sign {
    Minus,
    NoSign,
    Plus,
}

/// Storage key under which the protocol keeps a contract's cumulated
/// validator reward.
pub open spec fn reward_key_name() -> Seq<u8> {
    seq![69u8, 76, 82, 79, 78, 68, 114, 101, 119, 97, 114, 100, 115]
}

/// The bytes of the reward key, `ELRONDrewards`.
pub fn reward_key_bytes() -> (r: Vec<u8>)
    ensures
        r@ == reward_key_name(),
{
    let r: Vec<u8> = vec![69u8, 76, 82, 79, 78, 68, 114, 101, 119, 97, 114, 100, 115];
    assert(r@ =~= reward_key_name());
    r
}

/// Services the host offers to contract code. Contracts and the host are not
/// mutable through this interface: they pass data on and read it back.
pub trait ContractHookApi<BigInt, BigUint> {
    fn get_own_address(&self) -> Address;

    fn get_caller(&self) -> Address;

    fn get_balance(&self, address: &Address) -> BigUint;

    fn get_own_balance(&self) -> BigUint {
        self.get_balance(&self.get_own_address())
    }

    fn storage_store(&self, key: &[u8], value: &[u8]);

    fn storage_load(&self, key: &[u8]) -> Vec<u8>;

    fn storage_load_len(&self, key: &[u8]) -> usize;

    fn storage_store_bytes32(&self, key: &[u8], value: &[u8; 32]);

    fn storage_load_bytes32(&self, key: &[u8]) -> [u8; 32];

    fn storage_store_big_uint(&self, key: &[u8], value: &BigUint);

    fn storage_load_big_uint(&self, key: &[u8]) -> BigUint;

    fn storage_store_big_int(&self, key: &[u8], value: &BigInt);

    fn storage_load_big_int(&self, key: &[u8]) -> BigInt;

    fn storage_store_i64(&self, key: &[u8], value: i64);

    fn storage_load_i64(&self, key: &[u8]) -> Option<i64>;

    fn storage_load_cumulated_validator_reward(&self) -> BigUint {
        self.storage_load_big_uint(reward_key_bytes().as_slice())
    }

    fn get_call_value_big_uint(&self) -> BigUint;

    fn send_tx(&self, to: &Address, amount: &BigUint, message: &str);

    fn async_call(&self, to: &Address, amount: &BigUint, data: &[u8]);

    fn get_tx_hash(&self) -> [u8; 32];

    fn get_gas_left(&self) -> i64;

    fn get_block_timestamp(&self) -> u64;

    fn get_block_nonce(&self) -> u64;

    fn get_block_round(&self) -> u64;

    fn get_block_epoch(&self) -> u64;

    fn sha256(&self, data: &[u8]) -> [u8; 32];

    fn keccak256(&self, data: &[u8]) -> [u8; 32];
}

/// The message reported when a value fails to (de)serialize:
/// `<ser_type> (<value_type>): <err_msg>`.
pub open spec fn sd_error_text(ser_type: Seq<u8>, value_type: Seq<u8>, err_msg: Seq<u8>) -> Seq<u8> {
    ser_type + seq![32u8, 40] + value_type + seq![41u8, 58, 32] + err_msg
}

/// Builds the (de)serialization error message.
pub fn sd_error_message(ser_type: &[u8], value_type: &[u8], err_msg: &[u8]) -> (r: Vec<u8>)
    ensures
        r@ == sd_error_text(ser_type@, value_type@, err_msg@),
{
    let mut message: Vec<u8> = vstd::slice::slice_to_vec(ser_type);
    message.push(32u8);
    message.push(40u8);
    let mut t = vstd::slice::slice_to_vec(value_type);
    message.append(&mut t);
    message.push(41u8);
    message.push(58u8);
    message.push(32u8);
    let mut e = vstd::slice::slice_to_vec(err_msg);
    message.append(&mut e);
    assert(message@ =~= sd_error_text(ser_type@, value_type@, err_msg@));
    message
}

/// Argument and result plumbing used by endpoint dispatch code. Errors are
/// signalled to the host, which ends the call.
pub trait ContractIOApi<BigInt, BigUint> {
    fn get_num_arguments(&self) -> i32;

    fn check_num_arguments(&self, expected: i32) -> bool {
        let nr_args = self.get_num_arguments();
        if nr_args != expected {
            self.signal_error_bytes(crate::bytes::text_bytes("wrong number of arguments").as_slice());
        }
        true
    }

    fn check_not_payable(&self);

    fn get_argument_len(&self, arg_index: i32) -> usize;

    fn get_argument_vec(&self, arg_index: i32) -> Vec<u8>;

    fn get_argument_bytes32(&self, arg_index: i32) -> [u8; 32];

    fn get_argument_address(&self, arg_index: i32) -> Address;

    fn get_argument_big_int(&self, arg_id: i32) -> BigInt;

    fn get_argument_big_uint(&self, arg_id: i32) -> BigUint;

    fn get_argument_i64(&self, arg_id: i32) -> i64;

    /// An unsigned argument of at most eight big-endian bytes.
    fn get_argument_u64(&self, arg_id: i32) -> u64 {
        let bytes = self.get_argument_vec(arg_id);
        if bytes.len() > 8 {
            self.signal_error_bytes(crate::bytes::text_bytes("argument out of range").as_slice());
        }
        match decode_be(bytes.as_slice()) {
            Some(v) => v,
            None => 0,
        }
    }

    /// A boolean argument: 1 is true, 0 is false, anything else is an error.
    fn get_argument_bool(&self, arg_id: i32) -> bool {
        let arg_i64 = self.get_argument_i64(arg_id);
        if arg_i64 == 1 {
            true
        } else {
            if arg_i64 != 0 {
                self.signal_error_bytes(crate::bytes::text_bytes("wrong number of arguments").as_slice());
            }
            false
        }
    }

    fn finish_slice_u8(&self, slice: &[u8]);

    fn finish_bytes32(&self, bytes: &[u8; 32]);

    fn finish_big_int(&self, b: &BigInt);

    fn finish_big_uint(&self, b: &BigUint);

    fn finish_i64(&self, value: i64);

    /// Returns `value` as its minimal big-endian bytes.
    fn finish_u64(&self, value: u64) {
        let bytes = encode_be(value);
        self.finish_slice_u8(bytes.as_slice());
    }

    fn signal_error_bytes(&self, message: &[u8]);

    fn signal_error(&self, message: &str) {
        self.signal_error_bytes(message.as_bytes())
    }

    fn signal_sd_error(&self, ser_type: &str, value_type: &str, err_msg: &[u8]) {
        let message = sd_error_message(ser_type.as_bytes(), value_type.as_bytes(), err_msg);
        self.signal_error_bytes(message.as_slice())
    }

    fn write_log(&self, topics: &[[u8; 32]], data: &[u8]);
}

/// An unsigned big integer as the host provides it.
pub trait BigUintApi: Sized {
    fn zero() -> Self;

    fn byte_length(&self) -> i32;

    fn copy_to_slice_big_endian(&self, slice: &mut [u8]) -> i32;

    fn to_bytes_be(&self) -> Vec<u8>;

    fn to_bytes_be_pad_right(&self, nr_bytes: usize) -> Option<Vec<u8>>;

    fn from_bytes_be(bytes: &[u8]) -> Self;
}

/// A signed big integer as the host provides it.
pub trait BigIntApi<BigUint>: Sized {
    fn zero() -> Self;

    fn abs_uint(&self) -> BigUint;

    fn sign(&self) -> Sign;

    fn to_signed_bytes_be(&self) -> Vec<u8>;

    fn from_signed_bytes_be(bytes: &[u8]) -> Self;
}

/// How the simulator calls into a contract: run a named endpoint, or make a
/// copy of the contract to snapshot it.
pub trait CallableContract: Sized {
    fn call(&self, account: &Account, egld: u128, fn_name: &[u8], args: &Vec<Vec<u8>>) -> Outcome
        requires
            account.wf(),
    ;

    fn clone_contract(&self) -> Self;
}

impl CallableContract for ContractCode {
    fn call(&self, account: &Account, egld: u128, fn_name: &[u8], args: &Vec<Vec<u8>>) -> Outcome {
        execute_endpoint(*self, account, egld, fn_name, args)
    }

    fn clone_contract(&self) -> Self {
        *self
    }
}

} // verus!
