//! Reading validator sets from the staking contract.
//!
//! The library decides what to ask (`eth_call` requests for the contract's
//! getter methods) and how to read the reply, the hex text of the ABI
//! encoding of `(bytes[] pubkeys, uint64[] powers, address[] addresses)`;
//! sending the request over JSON-RPC is left to the caller.
use vstd::prelude::*;
use vstd::string::StringSliceAdditionalSpecFns;

use crate::abi::{
    abi_address, abi_array, abi_entry_decodes, abi_power, abi_pubkey, abi_validator_set,
    address_string, address_text, hex_decode, hex_decode_from, read_address, read_array,
    read_power, read_pubkey,
};

verus! {

/// Simplified representation of a validator from the staking contract.
#[derive(Debug, Clone)]
pub struct StakingValidator {
    /// 64 bytes uncompressed secp256k1 pubkey (x || y)
    pub pubkey: Vec<u8>,
    /// Voting power (stake / 1e18)
    pub power: u64,
    /// Ethereum address (0x...)
    pub address: String,
}

/// Errors in reading the staking contract.
#[derive(Debug, Clone, PartialEq, Eq, Structural)]
pub enum StakingError {
    /// The reply to `eth_call` was not a string.
    InvalidResponse,
    /// The reply was not the hex text of an ABI-encoded validator set.
    InvalidValidatorSet,
}

/// The message that describes each error.
pub open spec fn staking_error_message(e: StakingError) -> Seq<char> {
    match e {
        StakingError::InvalidResponse => "Invalid response from eth_call"@,
        StakingError::InvalidValidatorSet => "Invalid validator set encoding"@,
    }
}

impl StakingError {
    /// The human-readable message of this error.
    pub fn message(&self) -> (m: &'static str)
        ensures
            m@ == staking_error_message(*self),
    {
        match self {
            StakingError::InvalidResponse => "Invalid response from eth_call",
            StakingError::InvalidValidatorSet => "Invalid validator set encoding",
        }
    }
}

/// An `eth_call` request: the JSON-RPC method, the call object's `to` and
/// `data`, the block tag, and the time allowed for the reply.
#[derive(Debug, Clone)]
pub struct EthCall {
    pub method: String,
    pub to: String,
    pub data: String,
    pub block_tag: String,
    pub timeout_secs: u64,
}

/// The calldata of `getNextValidatorSet()`: its method selector.
pub open spec fn next_validator_set_selector() -> Seq<char> {
    "0x38c50ab8"@
}

/// The calldata of `getCurrentValidatorSet()`: its method selector.
pub open spec fn current_validator_set_selector() -> Seq<char> {
    "0x0940572e"@
}

/// The length of the `0x` prefix at the start of the bytes of a hex string:
/// 2 where it is there, else 0.
pub open spec fn hex_prefix_len(bytes: Seq<u8>) -> int {
    if bytes.len() >= 2 && bytes[0] == 0x30u8 && bytes[1] == 0x78u8 {
        2
    } else {
        0
    }
}

/// The validators that the hex text `text` of an ABI-encoded validator set
/// holds, after an optional `0x` prefix: none where fewer than 64 hex digits
/// follow the prefix; `None` where the text is not hex or the encoding does
/// not decode.
#[verifier::opaque]
pub open spec fn hex_validator_set(text: Seq<u8>) -> Option<Seq<(Seq<u8>, nat, Seq<u8>)>> {
    let body = text.subrange(hex_prefix_len(text), text.len() as int);
    if body.len() < 64 {
        Some(Seq::empty())
    } else {
        match hex_decode(body) {
            Some(d) => abi_validator_set(d),
            None => None,
        }
    }
}

/// The validators that a string reply (its UTF-8 bytes) to a validator-set
/// call holds: none for a reply of under 3 bytes (such as `0x`), else those
/// of its hex text.
pub open spec fn reply_validator_set(text: Seq<u8>) -> Option<Seq<(Seq<u8>, nat, Seq<u8>)>> {
    if text.len() < 3 {
        Some(Seq::empty())
    } else {
        hex_validator_set(text)
    }
}

/// `validators` are the decoded `(pubkey, power, address)` entries, in order,
/// with each address written as `0x` and lower-case hex.
pub open spec fn validators_match(
    validators: Seq<StakingValidator>,
    decoded: Seq<(Seq<u8>, nat, Seq<u8>)>,
) -> bool {
    &&& validators.len() == decoded.len()
    &&& forall|i: int|
        0 <= i < validators.len() ==> {
            &&& #[trigger] validators[i].pubkey@ == decoded[i].0
            &&& validators[i].power == decoded[i].1
            &&& validators[i].address@ == address_text(decoded[i].2)
        }
}

/// `r` is what reading a validator set gives where `decoded` is what the
/// reply holds: the validators, or `InvalidValidatorSet` where it is malformed.
pub open spec fn validator_set_result(
    r: Result<Vec<StakingValidator>, StakingError>,
    decoded: Option<Seq<(Seq<u8>, nat, Seq<u8>)>>,
) -> bool {
    match decoded {
        Some(vs) => r matches Ok(v) && validators_match(v@, vs),
        None => r == Err::<Vec<StakingValidator>, StakingError>(StakingError::InvalidValidatorSet),
    }
}

/// Staking contract interface for reading validator sets.
pub struct StakingContract<R> {
    rpc: R,
    contract_address: String,
}

impl<R> StakingContract<R> {
    /// The client with which requests are sent.
    pub closed spec fn rpc_client(&self) -> R {
        self.rpc
    }

    /// The address of the staking contract.
    pub closed spec fn address(&self) -> Seq<char> {
        self.contract_address@
    }

    /// Create a new staking contract interface.
    pub fn new(rpc: R, contract_address: String) -> (contract: Self)
        ensures
            contract.rpc_client() == rpc,
            contract.address() == contract_address@,
    {
        Self { rpc, contract_address }
    }

    /// The client with which requests are sent.
    pub fn rpc(&self) -> (rpc: &R)
        ensures
            *rpc == self.rpc_client(),
    {
        &self.rpc
    }

    /// The `eth_call` of `getter` on the contract at the given block.
    fn contract_call(&self, getter: &str, block_tag: &str) -> (call: EthCall)
        ensures
            call.method@ == "eth_call"@,
            call.to@ == self.address(),
            call.data@ == getter@,
            call.block_tag@ == block_tag@,
            call.timeout_secs == 30,
    {
        EthCall {
            method: "eth_call".to_owned(),
            to: self.contract_address.clone(),
            data: getter.to_owned(),
            block_tag: block_tag.to_owned(),
            timeout_secs: 30,
        }
    }

    /// The request for the next validator set (for H+1 semantics) at a
    /// specific block: `getNextValidatorSet()`.
    pub fn next_validator_set_call(&self, block_tag: &str) -> (call: EthCall)
        ensures
            call.method@ == "eth_call"@,
            call.to@ == self.address(),
            call.data@ == next_validator_set_selector(),
            call.block_tag@ == block_tag@,
            call.timeout_secs == 30,
    {
        self.contract_call("0x38c50ab8", block_tag)
    }

    /// The request for the current validator set at a specific block:
    /// `getCurrentValidatorSet()`.
    pub fn current_validator_set_call(&self, block_tag: &str) -> (call: EthCall)
        ensures
            call.method@ == "eth_call"@,
            call.to@ == self.address(),
            call.data@ == current_validator_set_selector(),
            call.block_tag@ == block_tag@,
            call.timeout_secs == 30,
    {
        self.contract_call("0x0940572e", block_tag)
    }

    /// The validator set read from the reply to one of the validator-set calls:
    /// `reply` is the reply's JSON value where it is a string, else `None`.
    ///
    /// A reply that is not a string is an error; a string reply of under 3
    /// bytes (such as `0x`) holds no validators, and a longer one is decoded.
    pub fn validator_set_from_reply(&self, reply: Option<&str>) -> (r: Result<
        Vec<StakingValidator>,
        StakingError,
    >)
        ensures
            reply is None ==> r == Err::<Vec<StakingValidator>, StakingError>(
                StakingError::InvalidResponse,
            ),
            reply matches Some(s) ==> validator_set_result(r, reply_validator_set(s.spec_bytes())),
    {
        let hex_result = match reply {
            Some(s) => s,
            None => return Err(StakingError::InvalidResponse),
        };
        if hex_result.as_bytes().len() < 3 {
            // No validators ("0x" alone is shorter than 3 bytes)
            let none: Vec<StakingValidator> = Vec::new();
            assert(validators_match(none@, Seq::empty()));
            return Ok(none);
        }
        self.parse_validator_set_response(hex_result)
    }

    /// Parse the ABI-encoded response from getNextValidatorSet() or
    /// getCurrentValidatorSet().
    /// Format: (bytes[] pubkeys, uint64[] powers, address[] addresses)
    fn parse_validator_set_response(&self, hex_data: &str) -> (r: Result<
        Vec<StakingValidator>,
        StakingError,
    >)
        ensures
            validator_set_result(r, hex_validator_set(hex_data.spec_bytes())),
    {
        reveal(hex_validator_set);
        // Remove 0x prefix
        let bytes = hex_data.as_bytes();
        let prefix: usize = if bytes.len() >= 2 && bytes[0] == 0x30u8 && bytes[1] == 0x78u8 {
            2
        } else {
            0
        };
        if bytes.len() - prefix < 64 {
            return Ok(Vec::new());
        }
        match hex_decode_from(bytes, prefix) {
            Some(data) => self.simple_abi_decode(data.as_slice()),
            None => Err(StakingError::InvalidValidatorSet),
        }
    }

    /// ABI decoder for the validator set response: the tuple
    /// `(bytes[] pubkeys, uint64[] powers, address[] addresses)`, entry `i` of
    /// the three arrays making validator `i`.
    fn simple_abi_decode(&self, data: &[u8]) -> (r: Result<Vec<StakingValidator>, StakingError>)
        ensures
            validator_set_result(r, abi_validator_set(data@)),
    {
        reveal(abi_validator_set);
        let len = data.len();
        let (ps, pn) = match read_array(data, 0) {
            Some(a) => a,
            None => return Err(StakingError::InvalidValidatorSet),
        };
        let (ws, wn) = match read_array(data, 1) {
            Some(a) => a,
            None => return Err(StakingError::InvalidValidatorSet),
        };
        let (ads, an) = match read_array(data, 2) {
            Some(a) => a,
            None => return Err(StakingError::InvalidValidatorSet),
        };
        if wn != pn || an != pn {
            return Err(StakingError::InvalidValidatorSet);
        }
        if pn > len as u64 {
            // Entry `len` would lie past the end of the data.
            assert(!abi_entry_decodes(data@, ps as int, ws as int, ads as int, len as int));
            return Err(StakingError::InvalidValidatorSet);
        }
        let n = pn as usize;
        let mut validators: Vec<StakingValidator> = Vec::new();
        let mut i: usize = 0;
        while i < n
            invariant
                i <= n,
                n == pn,
                abi_array(data@, 0) == Some((ps as int, pn as nat)),
                abi_array(data@, 1) == Some((ws as int, wn as nat)),
                abi_array(data@, 2) == Some((ads as int, an as nat)),
                wn == pn,
                an == pn,
                validators@.len() == i,
                forall|k: int|
                    0 <= k < i ==> #[trigger] abi_entry_decodes(
                        data@,
                        ps as int,
                        ws as int,
                        ads as int,
                        k,
                    ),
                forall|k: int|
                    0 <= k < i ==> {
                        &&& #[trigger] validators@[k].pubkey@ == abi_pubkey(
                            data@,
                            ps as int,
                            k,
                        ).unwrap()
                        &&& validators@[k].power == abi_power(data@, ws as int, k).unwrap()
                        &&& validators@[k].address@ == address_text(
                            abi_address(data@, ads as int, k).unwrap(),
                        )
                    },
            decreases n - i,
        {
            reveal(abi_validator_set);
            let pubkey = match read_pubkey(data, ps, i) {
                Some(v) => v,
                None => {
                    assert(!abi_entry_decodes(data@, ps as int, ws as int, ads as int, i as int));
                    return Err(StakingError::InvalidValidatorSet);
                },
            };
            let power = match read_power(data, ws, i) {
                Some(v) => v,
                None => {
                    assert(!abi_entry_decodes(data@, ps as int, ws as int, ads as int, i as int));
                    return Err(StakingError::InvalidValidatorSet);
                },
            };
            let address = match read_address(data, ads, i) {
                Some(v) => v,
                None => {
                    assert(!abi_entry_decodes(data@, ps as int, ws as int, ads as int, i as int));
                    return Err(StakingError::InvalidValidatorSet);
                },
            };
            let ghost pubkey_bytes = pubkey@;
            let ghost address_bytes = address@;
            let address = address_string(address.as_slice());
            let ghost before = validators@;
            validators.push(StakingValidator { pubkey, power, address });
            assert(abi_entry_decodes(data@, ps as int, ws as int, ads as int, i as int));
            assert(validators@[i as int].pubkey@ == pubkey_bytes);
            assert(validators@[i as int].address@ == address_text(address_bytes));
            assert(forall|k: int| 0 <= k < i ==> validators@[k] == before[k]);
            i = i + 1;
        }
        let ghost decoded = Seq::new(
            pn as nat,
            |k: int|
                (
                    abi_pubkey(data@, ps as int, k).unwrap(),
                    abi_power(data@, ws as int, k).unwrap(),
                    abi_address(data@, ads as int, k).unwrap(),
                ),
        );
        assert(abi_validator_set(data@) == Some(decoded));
        assert(validators_match(validators@, decoded));
        Ok(validators)
    }
}

} // verus!
