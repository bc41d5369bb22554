use signing_secp256k1::staking::{StakingContract, StakingError};
use signing_secp256k1::start::StartCmd;

const ADDRESS: &str = "0x742d35Cc6532C02532985A5C7E27A73e9e3d8f59";

#[test]
fn next_validator_set_call_targets_the_contract() {
    let contract = StakingContract::new(7u32, ADDRESS.to_string());
    let call = contract.next_validator_set_call("latest");
    assert_eq!(call.method, "eth_call");
    assert_eq!(call.to, ADDRESS);
    assert_eq!(call.data, "0x38c50ab8");
    assert_eq!(call.block_tag, "latest");
    assert_eq!(call.timeout_secs, 30);
    assert_eq!(*contract.rpc(), 7u32);
}

#[test]
fn current_validator_set_call_targets_the_contract() {
    let contract = StakingContract::new((), ADDRESS.to_string());
    let call = contract.current_validator_set_call("0x10");
    assert_eq!(call.method, "eth_call");
    assert_eq!(call.to, ADDRESS);
    assert_eq!(call.data, "0x0940572e");
    assert_eq!(call.block_tag, "0x10");
    assert_eq!(call.timeout_secs, 30);
}

#[test]
fn reply_that_is_not_a_string_is_an_error() {
    let contract = StakingContract::new((), ADDRESS.to_string());
    let result = contract.validator_set_from_reply(None);
    assert_eq!(result.err(), Some(StakingError::InvalidResponse));
    assert_eq!(StakingError::InvalidResponse.message(), "Invalid response from eth_call");
}

#[test]
fn empty_replies_hold_no_validators() {
    let contract = StakingContract::new((), ADDRESS.to_string());
    assert!(contract.validator_set_from_reply(Some("0x")).unwrap().is_empty());
    assert!(contract.validator_set_from_reply(Some("")).unwrap().is_empty());
    assert!(contract.validator_set_from_reply(Some("0x1")).unwrap().is_empty());
    let short_body = format!("0x{}", "0".repeat(63));
    assert!(contract.validator_set_from_reply(Some(&short_body)).unwrap().is_empty());
}

fn word(value: u64) -> String {
    format!("{:064x}", value)
}

/// The hex ABI encoding of `(bytes[] pubkeys, uint64[] powers, address[] addresses)`.
fn encode_validator_set(entries: &[(Vec<u8>, u64, [u8; 20])]) -> String {
    let n = entries.len() as u64;
    let pubkeys_size = 32 + 32 * n + 96 * n;
    let powers_size = 32 + 32 * n;
    let mut out = String::new();
    out.push_str(&word(96));
    out.push_str(&word(96 + pubkeys_size));
    out.push_str(&word(96 + pubkeys_size + powers_size));
    out.push_str(&word(n));
    for i in 0..n {
        out.push_str(&word(32 * n + 96 * i));
    }
    for (pubkey, _, _) in entries {
        out.push_str(&word(pubkey.len() as u64));
        for b in pubkey {
            out.push_str(&format!("{:02x}", b));
        }
    }
    out.push_str(&word(n));
    for (_, power, _) in entries {
        out.push_str(&word(*power));
    }
    out.push_str(&word(n));
    for (_, _, address) in entries {
        out.push_str(&"0".repeat(24));
        for b in address {
            out.push_str(&format!("{:02x}", b));
        }
    }
    out
}

fn entries() -> Vec<(Vec<u8>, u64, [u8; 20])> {
    vec![
        ((0..64).collect(), 1000, [0xABu8; 20]),
        ((100..164).collect(), u64::MAX, {
            let mut a = [0u8; 20];
            a[19] = 0x59;
            a[0] = 0x74;
            a
        }),
    ]
}

#[test]
fn reply_is_decoded_in_contract_order() {
    let contract = StakingContract::new((), ADDRESS.to_string());
    let reply = format!("0x{}", encode_validator_set(&entries()));
    let validators = contract.validator_set_from_reply(Some(&reply)).unwrap();
    assert_eq!(validators.len(), 2);
    assert_eq!(validators[0].pubkey, (0..64).collect::<Vec<u8>>());
    assert_eq!(validators[0].power, 1000);
    assert_eq!(validators[0].address, format!("0x{}", "ab".repeat(20)));
    assert_eq!(validators[1].pubkey, (100..164).collect::<Vec<u8>>());
    assert_eq!(validators[1].power, u64::MAX);
    assert_eq!(validators[1].address, format!("0x74{}59", "00".repeat(18)));
}

#[test]
fn reply_without_prefix_and_in_upper_case_is_decoded() {
    let contract = StakingContract::new((), ADDRESS.to_string());
    let reply = encode_validator_set(&entries()).to_uppercase();
    let validators = contract.validator_set_from_reply(Some(&reply)).unwrap();
    assert_eq!(validators.len(), 2);
    assert_eq!(validators[1].power, u64::MAX);
}

#[test]
fn empty_validator_set_is_decoded() {
    let contract = StakingContract::new((), ADDRESS.to_string());
    let reply = format!("0x{}", encode_validator_set(&[]));
    assert!(contract.validator_set_from_reply(Some(&reply)).unwrap().is_empty());
}

#[test]
fn malformed_replies_are_errors() {
    let contract = StakingContract::new((), ADDRESS.to_string());
    let not_hex = format!("0x{}", "zz".repeat(64));
    assert_eq!(
        contract.validator_set_from_reply(Some(&not_hex)).err(),
        Some(StakingError::InvalidValidatorSet)
    );
    let odd = format!("0x{}", "0".repeat(65));
    assert_eq!(
        contract.validator_set_from_reply(Some(&odd)).err(),
        Some(StakingError::InvalidValidatorSet)
    );
    let huge_offsets = format!("0x{}", "ab".repeat(100));
    assert_eq!(
        contract.validator_set_from_reply(Some(&huge_offsets)).err(),
        Some(StakingError::InvalidValidatorSet)
    );
    let full = encode_validator_set(&entries());
    let truncated = format!("0x{}", &full[..full.len() - 64]);
    assert_eq!(
        contract.validator_set_from_reply(Some(&truncated)).err(),
        Some(StakingError::InvalidValidatorSet)
    );
    assert_eq!(StakingError::InvalidValidatorSet.message(), "Invalid validator set encoding");
}

#[test]
fn lengths_must_agree_and_pubkeys_have_64_bytes() {
    let contract = StakingContract::new((), ADDRESS.to_string());
    let full = encode_validator_set(&entries());
    // The powers array claims three entries.
    let powers_length_at = 2 * (96 + 32 + 64 + 192);
    let mut mismatched = full.clone();
    mismatched.replace_range(powers_length_at..powers_length_at + 64, &word(3));
    assert_eq!(
        contract.validator_set_from_reply(Some(&mismatched)).err(),
        Some(StakingError::InvalidValidatorSet)
    );
    let short_keys = vec![((0..33).collect(), 1, [1u8; 20])];
    let reply = encode_validator_set(&short_keys);
    assert_eq!(
        contract.validator_set_from_reply(Some(&reply)).err(),
        Some(StakingError::InvalidValidatorSet)
    );
}

#[test]
fn the_two_getters_read_a_reply_alike() {
    let contract = StakingContract::new((), ADDRESS.to_string());
    let reply = format!("0x{}", encode_validator_set(&entries()));
    let next = contract.next_validator_set_call("latest");
    let current = contract.current_validator_set_call("latest");
    assert_ne!(next.data, current.data);
    let a = contract.validator_set_from_reply(Some(&reply)).unwrap();
    let b = contract.validator_set_from_reply(Some(&reply)).unwrap();
    assert_eq!(a.len(), b.len());
    assert_eq!(a[0].address, b[0].address);
}

#[test]
fn start_command_default_is_empty() {
    let cmd = StartCmd::default();
    assert_eq!(cmd.start_height, None);
    assert_eq!(cmd.staking_contract, None);
    assert_eq!(cmd.el_port_offset, 0);
    assert_eq!(cmd.clone(), cmd);
}
