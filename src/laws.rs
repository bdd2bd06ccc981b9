use vstd::prelude::*;
use crate::abi::{
    abi_encoded_string_bytes, abi_encoded_word_bytes, abi_tail, abi_word, lemma_tail_reads_back,
    string_bytes_args_of, word_bytes_args_of, zeros, MAX_ENCODED_BYTES_LEN,
};
use crate::precompile::{
    call_service_answer, get_service_answer, get_service_selector, instantiate_registry,
    soft_failure_output, success_output, PrecompileFailure, Request, FIXED_GAS_COST,
};
use crate::registry::BindingView;
use vstd::utf8::{encode_utf8, encode_utf8_decode_utf8, encode_utf8_valid_utf8};

verus! {

/// When the request manager cannot be reached, the `getService` output
/// decodes as its declared return `(bytes32 handle, bytes err)` to the zero
/// handle and the error text.
pub proof fn lemma_soft_failure_decodes(message: Seq<u8>)
    requires
        message.len() <= MAX_ENCODED_BYTES_LEN,
    ensures
        word_bytes_args_of(soft_failure_output(message)) == Some((zeros(32), message)),
{
    lemma_word_bytes_round_trip(zeros(32), message);
}

/// A successful `getService` output decodes as `(bytes32 handle, bytes err)`
/// to the service handle and an empty error.
pub proof fn lemma_success_output_decodes(service_handle: Seq<u8>)
    requires
        service_handle.len() == 32,
    ensures
        word_bytes_args_of(success_output(service_handle)) == Some((service_handle, Seq::<u8>::empty())),
{
    lemma_word_bytes_round_trip(service_handle, Seq::empty());
}

/// Once `getService` has bound a 32-byte service handle under a contract
/// handle for caller `a`, a `callService` on that contract handle from any
/// other caller `b` is refused as misconfigured, while the same call from `a`
/// is sent to that service with exactly the call data it carried.
pub proof fn lemma_only_owner_reaches_service(
    m: Map<Seq<u8>, BindingView>,
    a: Seq<u8>,
    b: Seq<u8>,
    body: Seq<u8>,
    contract_handle: Seq<u8>,
    input: Seq<u8>,
    call_data: Seq<u8>,
    gas_limit: u64,
)
    requires
        a != b,
        body.len() == 32,
        gas_limit >= FIXED_GAS_COST,
        word_bytes_args_of(input.skip(4)) == Some((contract_handle, call_data)),
    ensures
        forall|r: Result<Request, PrecompileFailure>|
            call_service_answer(
                instantiate_registry(m, a, Ok(body), contract_handle),
                input,
                gas_limit,
                b,
                r,
            ) ==> r == Err::<Request, PrecompileFailure>(PrecompileFailure::ServiceMisconfigured),
        forall|r: Result<Request, PrecompileFailure>|
            call_service_answer(
                instantiate_registry(m, a, Ok(body), contract_handle),
                input,
                gas_limit,
                a,
                r,
            ) ==> (r matches Ok(Request::Invoke { service_handle, call_data: d }) && service_handle@
                == body && d@ == call_data),
{
}

/// Two `getService` calls settled under distinct contract handles leave
/// two bindings, each retrievable with what it was created with.
pub proof fn lemma_registrations_independent(
    m: Map<Seq<u8>, BindingView>,
    a1: Seq<u8>,
    body1: Seq<u8>,
    h1: Seq<u8>,
    a2: Seq<u8>,
    body2: Seq<u8>,
    h2: Seq<u8>,
)
    requires
        h1 != h2,
        body1.len() == 32,
        body2.len() == 32,
    ensures
        ({
            let m2 = instantiate_registry(
                instantiate_registry(m, a1, Ok(body1), h1),
                a2,
                Ok(body2),
                h2,
            );
            m2.contains_key(h1) && m2[h1] == (a1, body1) && m2.contains_key(h2) && m2[h2] == (a2, body2)
        }),
{
}

/// Decoding the ABI encoding of a `(string, bytes)` pair gives back the
/// string and the bytes unchanged, for every pair whose lengths the ABI's
/// 32-bit length words can hold.
pub proof fn lemma_string_bytes_round_trip(name: Seq<char>, config: Seq<u8>)
    requires
        encode_utf8(name).len() <= MAX_ENCODED_BYTES_LEN,
        config.len() <= MAX_ENCODED_BYTES_LEN,
    ensures
        string_bytes_args_of(abi_encoded_string_bytes(encode_utf8(name), config)) == Some(
            (name, config),
        ),
{
    broadcast use encode_utf8_valid_utf8, encode_utf8_decode_utf8;

    let text = encode_utf8(name);
    let t1 = abi_tail(text);
    let t2 = abi_tail(config);
    let o2 = (64 + t1.len()) as u64;
    let data = abi_encoded_string_bytes(text, config);
    assert(data.subrange(0, 32) =~= abi_word(64));
    assert(data.subrange(32, 64) =~= abi_word(o2));
    assert(data.subrange(64, 64 + t1.len() as int) =~= t1);
    assert(data.subrange(o2 as int, o2 + t2.len()) =~= t2);
    lemma_tail_reads_back(data, 0, 64, text);
    lemma_tail_reads_back(data, 32, o2, config);
}

/// Decoding the ABI encoding of a `(bytes32, bytes)` pair gives back both.
pub proof fn lemma_word_bytes_round_trip(w: Seq<u8>, call_data: Seq<u8>)
    requires
        w.len() == 32,
        call_data.len() <= MAX_ENCODED_BYTES_LEN,
    ensures
        word_bytes_args_of(abi_encoded_word_bytes(w, call_data)) == Some((w, call_data)),
{
    let t = abi_tail(call_data);
    let data = abi_encoded_word_bytes(w, call_data);
    assert(data.subrange(32, 64) =~= abi_word(64));
    assert(data.subrange(64, 64 + t.len() as int) =~= t);
    assert(data.take(32) =~= w);
    lemma_tail_reads_back(data, 32, 64, call_data);
}

/// A `getService` call whose arguments are the ABI encoding of a service
/// name and a config, given enough gas, asks to instantiate exactly that
/// service with exactly that config.
pub proof fn lemma_get_service_dispatch_round_trip(
    input: Seq<u8>,
    name: Seq<char>,
    config: Seq<u8>,
    gas_limit: u64,
    r: Result<Request, PrecompileFailure>,
)
    requires
        encode_utf8(name).len() <= MAX_ENCODED_BYTES_LEN,
        config.len() <= MAX_ENCODED_BYTES_LEN,
        gas_limit >= FIXED_GAS_COST,
        input.len() >= 4,
        input.take(4) == get_service_selector(),
        input.skip(4) == abi_encoded_string_bytes(encode_utf8(name), config),
        get_service_answer(input, gas_limit, r),
    ensures
        r matches Ok(Request::Instantiate { service_name, config: c }) && service_name@ == name
            && c@ == config,
{
    lemma_string_bytes_round_trip(name, config);
}

} // verus!
