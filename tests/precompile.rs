use ethers::abi::{AbiDecode, AbiEncode};
use ethers::types::{Bytes, H256};
use services_manager::precompile::{
    finish_call_service, get_service, GatewayError, PrecompileFailure, PrecompileOutput, Request,
    FIXED_GAS_COST,
};
use services_manager::registry::{constant_time_eq, words_eq, Address, ServicesManager, Word};

const ALICE: Address = [0xaa; 20];
const BOB: Address = [0xbb; 20];

fn get_service_input(name: &str, config: &[u8]) -> Vec<u8> {
    let mut input = ethers::utils::id("getService(string,bytes)").to_vec();
    input.extend((name.to_string(), Bytes::from(config.to_vec())).encode());
    input
}

fn call_service_input(handle: Word, data: &[u8]) -> Vec<u8> {
    let mut input = ethers::utils::id("callService(bytes32,bytes)").to_vec();
    input.extend((H256(handle), Bytes::from(data.to_vec())).encode());
    input
}

fn expect_instantiate(r: Result<Request, PrecompileFailure>) -> (String, Vec<u8>) {
    match r {
        Ok(Request::Instantiate { service_name, config }) => (service_name, config),
        Ok(Request::Invoke { .. }) => panic!("expected an instantiate request"),
        Err(e) => panic!("expected a request, got {:?}", e),
    }
}

fn expect_invoke(r: Result<Request, PrecompileFailure>) -> (Word, Vec<u8>) {
    match r {
        Ok(Request::Invoke { service_handle, call_data }) => (service_handle, call_data),
        Ok(Request::Instantiate { .. }) => panic!("expected an invoke request"),
        Err(e) => panic!("expected a request, got {:?}", e),
    }
}

fn expect_output(r: Result<PrecompileOutput, PrecompileFailure>) -> PrecompileOutput {
    match r {
        Ok(o) => o,
        Err(e) => panic!("expected an output, got {:?}", e),
    }
}

fn failure<T>(r: Result<T, PrecompileFailure>) -> PrecompileFailure {
    match r {
        Ok(_) => panic!("expected a failure"),
        Err(e) => e,
    }
}

#[test]
fn short_inputs_are_incorrect() {
    let m = ServicesManager::new();
    for input in [vec![], vec![1u8], vec![1u8, 2, 3]] {
        assert_eq!(failure(m.run(&input, 1_000_000, &ALICE)), PrecompileFailure::IncorrectInputs);
    }
    let prefix = ethers::utils::id("getService(string,bytes)");
    assert_eq!(failure(m.run(&prefix[..3], 1_000_000, &ALICE)), PrecompileFailure::IncorrectInputs);
}

#[test]
fn unknown_selector_is_incorrect() {
    let m = ServicesManager::new();
    let mut input = ethers::utils::id("transfer(address,uint256)").to_vec();
    input.extend(("echo".to_string(), Bytes::from(b"cfg".to_vec())).encode());
    assert_eq!(failure(m.run(&input, 1_000_000, &ALICE)), PrecompileFailure::IncorrectInputs);
    assert_eq!(failure(m.run(&[0, 0, 0, 0], 0, &ALICE)), PrecompileFailure::IncorrectInputs);
}

#[test]
fn get_service_below_fixed_gas_is_out_of_gas() {
    let m = ServicesManager::new();
    let input = get_service_input("echo", b"cfg");
    for gas in [0u64, 1, 9_999] {
        assert_eq!(failure(m.run(&input, gas, &ALICE)), PrecompileFailure::OutOfGas);
    }
    assert_eq!(failure(m.run(&[0xde, 0xad, 0xbe, 0xef], 0, &ALICE)), PrecompileFailure::IncorrectInputs);
    expect_instantiate(m.run(&input, FIXED_GAS_COST, &ALICE));
}

#[test]
fn call_service_below_fixed_gas_is_out_of_gas() {
    let m = ServicesManager::new();
    let input = call_service_input([3u8; 32], b"ping");
    assert_eq!(failure(m.run(&input, 9_999, &ALICE)), PrecompileFailure::OutOfGas);
}

#[test]
fn get_service_arguments_round_trip() {
    let m = ServicesManager::new();
    let cases: Vec<(&str, Vec<u8>)> = vec![
        ("echo", b"cfg".to_vec()),
        ("", vec![]),
        ("kv-store", vec![0u8; 100]),
        ("s\u{e9}rvice-\u{1f600}", (0u8..=255).collect()),
    ];
    for (name, config) in cases {
        let input = get_service_input(name, &config);
        let (n, c) = expect_instantiate(m.run(&input, 20_000, &ALICE));
        assert_eq!(n, name);
        assert_eq!(c, config);
        let (n2, c2) = expect_instantiate(get_service(&input, 20_000));
        assert_eq!(n2, name);
        assert_eq!(c2, config);
    }
}

#[test]
fn malformed_arguments_are_incorrect() {
    let m = ServicesManager::new();
    let mut input = get_service_input("echo", b"cfg");
    input.truncate(4 + 40);
    assert_eq!(failure(m.run(&input, 20_000, &ALICE)), PrecompileFailure::IncorrectInputs);
    let only_selector = ethers::utils::id("callService(bytes32,bytes)").to_vec();
    assert_eq!(failure(m.run(&only_selector, 20_000, &ALICE)), PrecompileFailure::IncorrectInputs);
}

#[test]
fn unreachable_gateway_is_a_soft_failure() {
    let mut m = ServicesManager::new();
    let message = b"error sending request: connection refused".to_vec();
    let out = expect_output(m.finish_get_service(
        &ALICE,
        Err(GatewayError { message: message.clone() }),
        &[9u8; 32],
    ));
    assert_eq!(out.gas_used, 10_000);
    assert_eq!(&out.output[..32], &[0u8; 32]);
    let (handle, err) = <(H256, Bytes)>::decode(&out.output).unwrap();
    assert_eq!(handle, H256::zero());
    assert_eq!(err.to_vec(), message);
    let text = String::from_utf8(err.to_vec()).unwrap();
    assert!(!text.is_empty() && text.contains("connection refused"));
    let mut expected = vec![0u8; 32];
    expected.extend([0u8; 31]);
    expected.push(64);
    expected.extend([0u8; 31]);
    expected.push(message.len() as u8);
    expected.extend(&message);
    expected.extend(vec![0u8; (32 - message.len() % 32) % 32]);
    assert_eq!(out.output, expected);
    assert_eq!(out.output, (H256::zero(), Bytes::from(message)).encode());
    assert!(m.lookup(&[9u8; 32], &ALICE).is_none());
}

#[test]
fn instantiate_reply_of_wrong_length_fails() {
    let mut m = ServicesManager::new();
    for len in [0usize, 1, 31, 33, 64] {
        let r = m.finish_get_service(&ALICE, Ok(vec![4u8; len]), &[9u8; 32]);
        assert_eq!(failure(r), PrecompileFailure::InstantiateFailed);
        assert!(m.lookup(&[9u8; 32], &ALICE).is_none());
    }
}

#[test]
fn successful_instantiate_returns_service_handle() {
    let mut m = ServicesManager::new();
    let service_handle = [0x5au8; 32];
    let contract_handle = [0x11u8; 32];
    let out = expect_output(m.finish_get_service(&ALICE, Ok(service_handle.to_vec()), &contract_handle));
    assert_eq!(out.gas_used, FIXED_GAS_COST);
    // The output carries the service handle and an empty error, not the
    // contract handle that keys the registry.
    let (handle, err) = <(H256, Bytes)>::decode(&out.output).unwrap();
    assert_eq!(handle, H256(service_handle));
    assert_ne!(handle, H256(contract_handle));
    assert!(err.is_empty());
    let mut expected = service_handle.to_vec();
    expected.extend([0u8; 31]);
    expected.push(64);
    expected.extend([0u8; 32]);
    assert_eq!(out.output, expected);
    assert_eq!(m.lookup(&contract_handle, &ALICE), Some(service_handle));
    assert_eq!(m.lookup(&service_handle, &ALICE), None);
}

#[test]
fn only_the_owner_reaches_the_service() {
    let mut m = ServicesManager::new();
    let service_handle = [0x42u8; 32];
    let contract_handle = [0x24u8; 32];
    expect_output(m.finish_get_service(&ALICE, Ok(service_handle.to_vec()), &contract_handle));
    let input = call_service_input(contract_handle, b"some call data");
    assert_eq!(failure(m.run(&input, 10_000, &BOB)), PrecompileFailure::ServiceMisconfigured);
    let (h, data) = expect_invoke(m.run(&input, 10_000, &ALICE));
    assert_eq!(h, service_handle);
    assert_eq!(data, b"some call data".to_vec());
    let unknown = call_service_input([0x25u8; 32], b"x");
    assert_eq!(failure(m.run(&unknown, 10_000, &ALICE)), PrecompileFailure::ServiceMisconfigured);
}

#[test]
fn failed_service_request_is_a_hard_error() {
    let r = finish_call_service(Err(GatewayError { message: b"timed out".to_vec() }));
    assert_eq!(failure(r), PrecompileFailure::ServiceRequestFailed);
    let out = expect_output(finish_call_service(Ok(b"pong".to_vec())));
    assert_eq!(out.gas_used, 10_000);
    assert_eq!(out.output, b"pong".to_vec());
}

#[test]
fn random_contract_handles_do_not_collide() {
    let mut m = ServicesManager::new();
    let mut handles: Vec<Word> = Vec::new();
    for i in 0..1000u32 {
        let mut service_handle = [0u8; 32];
        service_handle[..4].copy_from_slice(&i.to_be_bytes());
        let (r, h) = m.settle_get_service(&ALICE, Ok(service_handle.to_vec()));
        let mut expected = service_handle.to_vec();
        expected.extend((H256::zero(), Bytes::new()).encode()[32..].to_vec());
        assert_eq!(expect_output(r).output, expected);
        handles.push(h);
    }
    let mut sorted = handles.clone();
    sorted.sort();
    sorted.dedup();
    assert_eq!(sorted.len(), 1000);
    for (i, h) in handles.iter().enumerate() {
        let mut service_handle = [0u8; 32];
        service_handle[..4].copy_from_slice(&(i as u32).to_be_bytes());
        assert_eq!(m.lookup(h, &ALICE), Some(service_handle));
        assert_eq!(m.lookup(h, &BOB), None);
    }
}

/// A stand-in for the request manager: instantiating always yields `H`, and
/// the service behind `H` echoes what it is sent.
fn stub_gateway(request: Request) -> Result<Vec<u8>, GatewayError> {
    const H: Word = [0xe7; 32];
    match request {
        Request::Instantiate { service_name, config } => {
            assert_eq!(service_name, "echo");
            assert_eq!(config, b"cfg".to_vec());
            Ok(H.to_vec())
        }
        Request::Invoke { service_handle, call_data } => {
            if service_handle == H {
                Ok(call_data)
            } else {
                Err(GatewayError { message: b"unknown service".to_vec() })
            }
        }
    }
}

#[test]
fn echo_service_end_to_end() {
    let mut m = ServicesManager::new();
    let request = m.run(&get_service_input("echo", b"cfg"), 50_000, &ALICE).unwrap_or_else(|e| panic!("{:?}", e));
    let (answer, contract_handle) = m.settle_get_service(&ALICE, stub_gateway(request));
    let (handle, err) = <(H256, Bytes)>::decode(&expect_output(answer).output).unwrap();
    assert_eq!(handle, H256([0xe7; 32]));
    assert!(err.is_empty());
    let request = m.run(&call_service_input(contract_handle, b"ping"), 50_000, &ALICE)
        .unwrap_or_else(|e| panic!("{:?}", e));
    let out = expect_output(finish_call_service(stub_gateway(request)));
    assert_eq!(out.output, b"ping".to_vec());
    assert_eq!(out.gas_used, 10_000);
}

#[test]
fn byte_comparisons() {
    assert!(constant_time_eq(&ALICE, &ALICE));
    assert!(!constant_time_eq(&ALICE, &BOB));
    let mut almost = ALICE;
    almost[19] = 0;
    assert!(!constant_time_eq(&ALICE, &almost));
    assert!(words_eq(&[1u8; 32], &[1u8; 32]));
    let mut w = [1u8; 32];
    w[0] = 2;
    assert!(!words_eq(&[1u8; 32], &w));
}

#[test]
fn call_service_arguments_round_trip() {
    let mut m = ServicesManager::new();
    let service_handle = [0x77u8; 32];
    let contract_handle = [0x01u8; 32];
    expect_output(m.finish_get_service(&BOB, Ok(service_handle.to_vec()), &contract_handle));
    for data in [vec![], b"ping".to_vec(), vec![0xabu8; 65]] {
        let (h, d) = expect_invoke(m.call_service(&call_service_input(contract_handle, &data), 10_000, &BOB));
        assert_eq!(h, service_handle);
        assert_eq!(d, data);
    }
}
