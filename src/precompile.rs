use vstd::prelude::*;
use vstd::slice::slice_subrange;
use crate::abi::{
    abi_encoded_word_bytes, decode_string_bytes, decode_word_bytes, encode_word_bytes, selector,
    selector_of, string_bytes_args_of, word_bytes_args_of, zeros, MAX_ENCODED_BYTES_LEN,
};
use crate::registry::{granted, Address, BindingView, ServicesManager, Word};

verus! {

/// The gas that every call of the precompile is charged, whatever it does.
pub const FIXED_GAS_COST: u64 = 10000;

/// The hard errors that the precompile reports to the engine.
#[derive(Clone, Copy, Debug, PartialEq, Eq, Structural)]
pub enum PrecompileFailure {
    /// The gas limit is below the fixed charge.
    OutOfGas,
    /// Unknown selector, or arguments that do not decode.
    IncorrectInputs,
    /// The service was created but its handle is not 32 bytes long.
    InstantiateFailed,
    /// Unknown contract handle, or a caller that does not own it.
    ServiceMisconfigured,
    /// The request to the service did not go through.
    ServiceRequestFailed,
}

/// A successful answer to the engine: the gas used and the output bytes.
pub struct PrecompileOutput {
    pub gas_used: u64,
    pub output: Vec<u8>,
}

/// A failed exchange with the external request manager, with its text.
pub struct GatewayError {
    pub message: Vec<u8>,
}

/// The exchange with the request manager that a call needs next.
pub enum Request {
    /// Create a service of the named kind, handing it `config` unchanged.
    Instantiate { service_name: String, config: Vec<u8> },
    /// Send `call_data` unchanged to the service behind `service_handle`.
    Invoke { service_handle: Word, call_data: Vec<u8> },
}

/// The selector of `getService(string,bytes) returns (bytes32,bytes)`.
pub open spec fn get_service_selector() -> Seq<u8> {
    selector_of("getService(string,bytes)"@)
}

/// The selector of `callService(bytes32,bytes) returns (bytes)`.
pub open spec fn call_service_selector() -> Seq<u8> {
    selector_of("callService(bytes32,bytes)"@)
}

/// What `get_service` answers on `input` and `gas_limit`.
pub open spec fn get_service_answer(input: Seq<u8>, gas_limit: u64, r: Result<Request, PrecompileFailure>) -> bool {
    if gas_limit < FIXED_GAS_COST {
        r == Err::<Request, PrecompileFailure>(PrecompileFailure::OutOfGas)
    } else {
        match string_bytes_args_of(input.skip(4)) {
            None => r == Err::<Request, PrecompileFailure>(PrecompileFailure::IncorrectInputs),
            Some(args) => match r {
                Ok(Request::Instantiate { service_name, config }) => service_name@ == args.0
                    && config@ == args.1,
                _ => false,
            },
        }
    }
}

/// What `call_service` answers on `input`, `gas_limit` and `caller`, over
/// the registry `m`.
pub open spec fn call_service_answer(
    m: Map<Seq<u8>, BindingView>,
    input: Seq<u8>,
    gas_limit: u64,
    caller: Seq<u8>,
    r: Result<Request, PrecompileFailure>,
) -> bool {
    if gas_limit < FIXED_GAS_COST {
        r == Err::<Request, PrecompileFailure>(PrecompileFailure::OutOfGas)
    } else {
        match word_bytes_args_of(input.skip(4)) {
            None => r == Err::<Request, PrecompileFailure>(PrecompileFailure::IncorrectInputs),
            Some(args) => if granted(m, args.0, caller) {
                match r {
                    Ok(Request::Invoke { service_handle, call_data }) => service_handle@ == m[args.0].1
                        && call_data@ == args.1,
                    _ => false,
                }
            } else {
                r == Err::<Request, PrecompileFailure>(PrecompileFailure::ServiceMisconfigured)
            },
        }
    }
}

/// The output of `getService` when the request manager could not be reached:
/// the ABI encoding of `(bytes32 handle, bytes err)` with a zero handle and
/// the error text.
pub open spec fn soft_failure_output(message: Seq<u8>) -> Seq<u8> {
    abi_encoded_word_bytes(zeros(32), message)
}

/// The output of a successful `getService`: the ABI encoding of
/// `(bytes32 handle, bytes err)` with the service handle and an empty error.
pub open spec fn success_output(service_handle: Seq<u8>) -> Seq<u8> {
    abi_encoded_word_bytes(service_handle, Seq::empty())
}

/// Whether the error text of a failed exchange fits the ABI encoder.
pub open spec fn encodable_response(response: Result<Vec<u8>, GatewayError>) -> bool {
    response matches Err(e) ==> e.message@.len() <= MAX_ENCODED_BYTES_LEN
}

fn starts_with_selector(input: &[u8], sel: &[u8; 4]) -> (r: bool)
    ensures
        r == (input@.len() >= 4 && input@.take(4) == sel@),
{
    if input.len() < 4 {
        return false;
    }
    let mut i: usize = 0;
    while i < 4
        invariant
            i <= 4,
            input@.len() >= 4,
            sel@.len() == 4,
            forall|j: int| 0 <= j < i ==> input@[j] == sel@[j],
        decreases 4 - i,
    {
        if input[i] != sel[i] {
            assert(input@.take(4)[i as int] != sel@[i as int]);
            return false;
        }
        i = i + 1;
    }
    assert(input@.take(4) =~= sel@);
    true
}

impl ServicesManager {
    /// Routes a call by its selector and carries it as far as the first
    /// exchange with the request manager.
    pub fn run(&self, input: &[u8], gas_limit: u64, caller: &Address) -> (r: Result<Request, PrecompileFailure>)
        ensures
            input@.len() >= 4 && input@.take(4) == get_service_selector() ==> get_service_answer(
                input@,
                gas_limit,
                r,
            ),
            input@.len() >= 4 && input@.take(4) != get_service_selector() && input@.take(4)
                == call_service_selector() ==> call_service_answer(self@, input@, gas_limit, caller@, r),
            input@.len() < 4 || (input@.take(4) != get_service_selector() && input@.take(4)
                != call_service_selector()) ==> r == Err::<Request, PrecompileFailure>(
                PrecompileFailure::IncorrectInputs,
            ),
            input@.len() >= 4 && input@.take(4) == get_service_selector() && gas_limit
                < FIXED_GAS_COST ==> r == Err::<Request, PrecompileFailure>(
                PrecompileFailure::OutOfGas,
            ),
    {
        let get_sel = selector("getService(string,bytes)");
        let call_sel = selector("callService(bytes32,bytes)");
        if starts_with_selector(input, &get_sel) {
            get_service(input, gas_limit)
        } else if starts_with_selector(input, &call_sel) {
            self.call_service(input, gas_limit, caller)
        } else {
            Err(PrecompileFailure::IncorrectInputs)
        }
    }

    /// The `callService` route: charge gas, decode `(handle, call data)`,
    /// and check that `caller` owns the handle.
    pub fn call_service(&self, input: &[u8], gas_limit: u64, caller: &Address) -> (r: Result<Request, PrecompileFailure>)
        requires
            input@.len() >= 4,
        ensures
            call_service_answer(self@, input@, gas_limit, caller@, r),
    {
        if gas_limit < FIXED_GAS_COST {
            return Err(PrecompileFailure::OutOfGas);
        }
        let args = slice_subrange(input, 4, input.len());
        assert(args@ == input@.skip(4));
        match decode_word_bytes(args) {
            None => Err(PrecompileFailure::IncorrectInputs),
            Some((contract_handle, call_data)) => match self.lookup(&contract_handle, caller) {
                None => Err(PrecompileFailure::ServiceMisconfigured),
                Some(service_handle) => Ok(Request::Invoke { service_handle, call_data }),
            },
        }
    }
}

/// The `getService` route: charge gas and decode `(service name, config)`.
pub fn get_service(input: &[u8], gas_limit: u64) -> (r: Result<Request, PrecompileFailure>)
    requires
        input@.len() >= 4,
    ensures
        get_service_answer(input@, gas_limit, r),
{
    if gas_limit < FIXED_GAS_COST {
        return Err(PrecompileFailure::OutOfGas);
    }
    let args = slice_subrange(input, 4, input.len());
    assert(args@ == input@.skip(4));
    match decode_string_bytes(args) {
        None => Err(PrecompileFailure::IncorrectInputs),
        Some((service_name, config)) => Ok(Request::Instantiate { service_name, config }),
    }
}

/// What the `getService` route answers once the request manager has replied
/// with `response`: whether it succeeds and with which output bytes.
pub open spec fn instantiate_outcome(response: Result<Seq<u8>, Seq<u8>>) -> Result<Seq<u8>, PrecompileFailure> {
    match response {
        Err(message) => Ok(soft_failure_output(message)),
        Ok(body) => if body.len() == 32 {
            Ok(success_output(body))
        } else {
            Err(PrecompileFailure::InstantiateFailed)
        },
    }
}

/// The registry after the `getService` route has settled with `response`,
/// binding a new service under `contract_handle`.
pub open spec fn instantiate_registry(
    m: Map<Seq<u8>, BindingView>,
    caller: Seq<u8>,
    response: Result<Seq<u8>, Seq<u8>>,
    contract_handle: Seq<u8>,
) -> Map<Seq<u8>, BindingView> {
    match response {
        Ok(body) => if body.len() == 32 {
            m.insert(contract_handle, (caller, body))
        } else {
            m
        },
        Err(_) => m,
    }
}

/// A reply of the request manager: its body, or the text of its failure.
pub open spec fn response_view(response: Result<Vec<u8>, GatewayError>) -> Result<Seq<u8>, Seq<u8>> {
    match response {
        Ok(body) => Ok(body@),
        Err(e) => Err(e.message@),
    }
}

/// The output bytes of an answer, or its failure.
pub open spec fn answer_view(r: Result<PrecompileOutput, PrecompileFailure>) -> Result<Seq<u8>, PrecompileFailure> {
    match r {
        Ok(o) => Ok(o.output@),
        Err(f) => Err(f),
    }
}

/// Whether every successful answer charges exactly the fixed gas.
pub open spec fn charges_fixed_gas(r: Result<PrecompileOutput, PrecompileFailure>) -> bool {
    r is Ok ==> r->Ok_0.gas_used == FIXED_GAS_COST
}

/// Relies on `H256::random` of ethers: a fresh 32-byte value from a
/// cryptographically secure generator. Nothing is known of the bytes.
#[verifier::external_body]
fn random_word() -> (r: Word) {
    ethers::types::H256::random().0
}

fn copy_word(b: &Vec<u8>) -> (r: Word)
    requires
        b@.len() == 32,
    ensures
        r@ == b@,
{
    let mut w: Word = [0u8; 32];
    let mut i: usize = 0;
    while i < 32
        invariant
            i <= 32,
            b@.len() == 32,
            w@.len() == 32,
            forall|j: int| 0 <= j < i ==> w@[j] == b@[j],
        decreases 32 - i,
    {
        w[i] = b[i];
        i = i + 1;
    }
    assert(w@ =~= b@);
    w
}

impl ServicesManager {
    /// Settles the `getService` route with the request manager's reply. A
    /// failed exchange is no hard error: the output then carries a zero
    /// handle and the error text. A reply that is not a 32-byte handle is
    /// `InstantiateFailed`. Otherwise the handle is bound to `caller` under
    /// `contract_handle`, and the output carries the service handle and an
    /// empty error: the contract handle does not appear in it.
    pub fn finish_get_service(
        &mut self,
        caller: &Address,
        response: Result<Vec<u8>, GatewayError>,
        contract_handle: &Word,
    ) -> (r: Result<PrecompileOutput, PrecompileFailure>)
        requires
            encodable_response(response),
        ensures
            answer_view(r) == instantiate_outcome(response_view(response)),
            charges_fixed_gas(r),
            final(self)@ == instantiate_registry(
                old(self)@,
                caller@,
                response_view(response),
                contract_handle@,
            ),
    {
        match response {
            Err(e) => {
                let zero: Word = [0u8; 32];
                assert(zero@ =~= zeros(32));
                let output = encode_word_bytes(&zero, e.message.as_slice());
                Ok(PrecompileOutput { gas_used: FIXED_GAS_COST, output })
            },
            Ok(body) => {
                if body.len() != 32 {
                    return Err(PrecompileFailure::InstantiateFailed);
                }
                let service_handle = copy_word(&body);
                self.register(contract_handle, caller, &service_handle);
                let no_error: Vec<u8> = Vec::new();
                let output = encode_word_bytes(&service_handle, no_error.as_slice());
                Ok(PrecompileOutput { gas_used: FIXED_GAS_COST, output })
            },
        }
    }

    /// Settles the `getService` route as `finish_get_service` does, under a
    /// freshly drawn random contract handle, which is returned beside the
    /// answer so that the caller can reach the service later.
    pub fn settle_get_service(&mut self, caller: &Address, response: Result<Vec<u8>, GatewayError>) -> (r: (
        Result<PrecompileOutput, PrecompileFailure>,
        Word,
    ))
        requires
            encodable_response(response),
        ensures
            answer_view(r.0) == instantiate_outcome(response_view(response)),
            charges_fixed_gas(r.0),
            final(self)@ == instantiate_registry(old(self)@, caller@, response_view(response), r.1@),
    {
        let contract_handle = random_word();
        let answer = self.finish_get_service(caller, response, &contract_handle);
        (answer, contract_handle)
    }
}

/// Settles the `callService` route with the service's reply: its bytes are
/// the output, unchanged; a failed exchange is `ServiceRequestFailed`.
pub fn finish_call_service(response: Result<Vec<u8>, GatewayError>) -> (r: Result<PrecompileOutput, PrecompileFailure>)
    ensures
        answer_view(r) == match response_view(response) {
            Ok(body) => Ok::<Seq<u8>, PrecompileFailure>(body),
            Err(_) => Err(PrecompileFailure::ServiceRequestFailed),
        },
        charges_fixed_gas(r),
{
    match response {
        Ok(body) => Ok(PrecompileOutput { gas_used: FIXED_GAS_COST, output: body }),
        Err(_) => Err(PrecompileFailure::ServiceRequestFailed),
    }
}

} // verus!
