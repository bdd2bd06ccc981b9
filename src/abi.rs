use vstd::prelude::*;
use crate::registry::Word;
use ethers::abi::{AbiDecode, AbiEncode};
use vstd::utf8::{decode_utf8, valid_utf8};

verus! {

/// The four-byte selector of a function signature.
pub uninterp spec fn selector_of(signature: Seq<char>) -> Seq<u8>;

/// The text that lossy UTF-8 decoding reads from `bytes`.
pub uninterp spec fn lossy_utf8_of(bytes: Seq<u8>) -> Seq<char>;

/// The value of the ABI word at `at` read as an offset or a length: its last
/// four bytes, big-endian, where its first 28 bytes are zero.
pub open spec fn word_value(data: Seq<u8>, at: int) -> Option<int> {
    if 0 <= at && at + 32 <= data.len() && (forall|i: int| at <= i < at + 28 ==> data[i] == 0u8) {
        Some(
            (data[at + 28] as int) * 0x100_0000 + (data[at + 29] as int) * 0x1_0000 + (data[at
                + 30] as int) * 0x100 + (data[at + 31] as int),
        )
    } else {
        None
    }
}

/// The dynamic `bytes` value whose head word stands at `head`: the head
/// holds the offset of a length word, which the bytes follow.
pub open spec fn dynamic_bytes_at(data: Seq<u8>, head: int) -> Option<Seq<u8>> {
    match word_value(data, head) {
        None => None,
        Some(offset) => match word_value(data, offset) {
            None => None,
            Some(len) => if offset + 32 + len <= data.len() {
                Some(data.subrange(offset + 32, offset + 32 + len))
            } else {
                None
            },
        },
    }
}

/// The text that lossy UTF-8 decoding reads from `bytes`: for valid UTF-8,
/// exactly the characters they encode.
pub open spec fn lossy_text(bytes: Seq<u8>) -> Seq<char> {
    if valid_utf8(bytes) {
        decode_utf8(bytes)
    } else {
        lossy_utf8_of(bytes)
    }
}

/// The `(string, bytes)` pair that ABI decoding reads from `data`: the text
/// is read from its bytes by lossy UTF-8 decoding. Bytes after what the two
/// values take are ignored.
pub open spec fn string_bytes_args_of(data: Seq<u8>) -> Option<(Seq<char>, Seq<u8>)> {
    match (dynamic_bytes_at(data, 0), dynamic_bytes_at(data, 32)) {
        (Some(text), Some(b)) => Some((lossy_text(text), b)),
        _ => None,
    }
}

/// The `(bytes32, bytes)` pair that ABI decoding reads from `data`. Bytes
/// after what the two values take are ignored.
pub open spec fn word_bytes_args_of(data: Seq<u8>) -> Option<(Seq<u8>, Seq<u8>)> {
    if data.len() >= 32 {
        match dynamic_bytes_at(data, 32) {
            Some(b) => Some((data.take(32), b)),
            None => None,
        }
    } else {
        None
    }
}

/// Relies on `ethers::utils::id`: the leading four bytes of the Keccak-256
/// digest of the signature text.
#[verifier::external_body]
pub(crate) fn selector(signature: &str) -> (r: [u8; 4])
    ensures
        r@ == selector_of(signature@),
{
    ethers::utils::id(signature)
}

/// Relies on `AbiDecode::decode` of ethers for the tuple `(String, Bytes)`:
/// ethabi's `decode` reads each head word, the offset and length words it
/// points to and the bytes after them, and turns the text's bytes into a
/// `String` with `String::from_utf8_lossy`, which std documents to return
/// valid UTF-8 unchanged.
#[verifier::external_body]
pub(crate) fn decode_string_bytes(data: &[u8]) -> (r: Option<(String, Vec<u8>)>)
    ensures
        match r {
            Some(p) => string_bytes_args_of(data@) == Some((p.0@, p.1@)),
            None => string_bytes_args_of(data@) is None,
        },
        !valid_utf8(dynamic_bytes_at(data@, 0)->0) ==> (r matches Some(p) ==> p.0@ == lossy_utf8_of(
            dynamic_bytes_at(data@, 0)->0,
        )),
{
    <(String, ethers::types::Bytes) as AbiDecode>::decode(data).ok().map(|(s, b)| (s, b.to_vec()))
}

/// Relies on `AbiDecode::decode` of ethers for the tuple `(H256, Bytes)`:
/// ethabi's `decode` takes the first 32 bytes as the word and reads the
/// `bytes` value through its head word.
#[verifier::external_body]
pub(crate) fn decode_word_bytes(data: &[u8]) -> (r: Option<(Word, Vec<u8>)>)
    ensures
        match r {
            Some(p) => word_bytes_args_of(data@) == Some((p.0@, p.1@)),
            None => word_bytes_args_of(data@) is None,
        },
{
    <(ethers::types::H256, ethers::types::Bytes) as AbiDecode>::decode(data).ok().map(
        |(h, b)| (h.0, b.to_vec()),
    )
}

/// The byte of `n` at the place that `unit` (a power of 256) marks.
pub open spec fn byte_at(n: u64, unit: u64) -> u8 {
    ((n / unit) % 256) as u8
}

/// `n` zero bytes.
pub open spec fn zeros(n: nat) -> Seq<u8> {
    Seq::new(n, |i: int| 0u8)
}

/// A 64-bit unsigned value as one 32-byte ABI word.
pub open spec fn abi_word(n: u64) -> Seq<u8> {
    zeros(24) + seq![
        byte_at(n, 0x100_0000_0000_0000),
        byte_at(n, 0x1_0000_0000_0000),
        byte_at(n, 0x100_0000_0000),
        byte_at(n, 0x1_0000_0000),
        byte_at(n, 0x100_0000),
        byte_at(n, 0x1_0000),
        byte_at(n, 0x100),
        byte_at(n, 1),
    ]
}

/// The zero bytes that bring a length up to a multiple of 32.
pub open spec fn padding_len(len: nat) -> nat {
    ((32 - len % 32) % 32) as nat
}

/// `b` padded with zeros to whole words.
pub open spec fn padded(b: Seq<u8>) -> Seq<u8> {
    b + zeros(padding_len(b.len()))
}

/// The tail of a dynamic `bytes` value: its length word, then its bytes
/// padded to whole words.
pub open spec fn abi_tail(b: Seq<u8>) -> Seq<u8> {
    abi_word(b.len() as u64) + padded(b)
}

/// The standard ABI encoding of a `(string, bytes)` pair, given the text's
/// UTF-8 bytes: two head words that point to the two tails.
pub open spec fn abi_encoded_string_bytes(text: Seq<u8>, b: Seq<u8>) -> Seq<u8> {
    abi_word(64) + abi_word((64 + abi_tail(text).len()) as u64) + abi_tail(text) + abi_tail(b)
}

/// The standard ABI encoding of a `(bytes32, bytes)` pair.
pub open spec fn abi_encoded_word_bytes(w: Seq<u8>, b: Seq<u8>) -> Seq<u8> {
    w + abi_word(64) + abi_tail(b)
}

/// A word written by `abi_word` reads back as the value it holds, where
/// that value fits the four bytes that a reader takes.
pub proof fn lemma_word_reads_back(data: Seq<u8>, at: int, n: u64)
    requires
        0 <= at,
        at + 32 <= data.len(),
        data.subrange(at, at + 32) == abi_word(n),
        n < 0x1_0000_0000,
    ensures
        word_value(data, at) == Some(n as int),
{
    let w = abi_word(n);
    assert(byte_at(n, 0x100_0000_0000_0000) == 0 && byte_at(n, 0x1_0000_0000_0000) == 0
        && byte_at(n, 0x100_0000_0000) == 0 && byte_at(n, 0x1_0000_0000) == 0) by (bit_vector)
        requires
            n < 0x1_0000_0000,
    ;
    assert forall|i: int| at <= i < at + 28 implies data[i] == 0u8 by {
        assert(data[i] == data.subrange(at, at + 32)[i - at]);
    }
    assert(((n / 0x100_0000) % 256) * 0x100_0000 + ((n / 0x1_0000) % 256) * 0x1_0000 + ((n
        / 0x100) % 256) * 0x100 + n % 256 == n) by (bit_vector)
        requires
            n < 0x1_0000_0000,
    ;
    assert(data[at + 28] == w[28]);
    assert(data[at + 29] == w[29]);
    assert(data[at + 30] == w[30]);
    assert(data[at + 31] == w[31]);
}

/// A tail written by `abi_tail` at the offset that a head word holds reads
/// back as the bytes it was written from.
pub proof fn lemma_tail_reads_back(data: Seq<u8>, head: int, offset: u64, b: Seq<u8>)
    requires
        0 <= head,
        head + 32 <= data.len(),
        data.subrange(head, head + 32) == abi_word(offset),
        offset < 0x1_0000_0000,
        b.len() < 0x1_0000_0000,
        offset + abi_tail(b).len() <= data.len(),
        data.subrange(offset as int, offset + abi_tail(b).len()) == abi_tail(b),
    ensures
        dynamic_bytes_at(data, head) == Some(b),
{
    lemma_word_reads_back(data, head, offset);
    let t = abi_tail(b);
    let o = offset as int;
    assert(data.subrange(o, o + 32) =~= t.subrange(0, 32));
    assert(t.subrange(0, 32) =~= abi_word(b.len() as u64));
    lemma_word_reads_back(data, o, b.len() as u64);
    assert(data.subrange(o + 32, o + 32 + b.len()) =~= b) by {
        assert forall|i: int| 0 <= i < b.len() implies data.subrange(o + 32, o + 32 + b.len())[i]
            == b[i] by {
            assert(data[o + 32 + i] == data.subrange(o, o + t.len())[32 + i]);
        }
    }
}

/// The longest `bytes` value that ethabi's encoder takes: it writes lengths
/// and offsets as 32-bit values, and the tail of a longer value overflows.
pub const MAX_ENCODED_BYTES_LEN: usize = 0xffff_ff00;

/// Relies on `AbiEncode::encode` of ethers for the tuple `(H256, Bytes)`:
/// ethabi's `encode` writes the word, the offset 64 of the tail, then the
/// length word and the bytes padded with zeros to whole words.
#[verifier::external_body]
pub(crate) fn encode_word_bytes(w: &Word, b: &[u8]) -> (r: Vec<u8>)
    requires
        b@.len() <= MAX_ENCODED_BYTES_LEN,
    ensures
        r@ == abi_encoded_word_bytes(w@, b@),
{
    (ethers::types::H256(*w), ethers::types::Bytes::from(b.to_vec())).encode()
}

} // verus!
