//! The encoding of byte strings as messages.

use crate::mux::error::{IpcError, MuxError, MuxErrorView};
use postcard::Error as PostcardError;
use vstd::prelude::*;
use vstd::string::*;

verus! {

/// `postcard::Error`, the reason why something could not be encoded or decoded.
#[verifier::external_type_specification]
#[verifier::external_body]
pub struct ExPostcardError(PostcardError);

/// A number in groups of seven bits, least significant group first. All bytes
/// but the last have their highest bit set.
pub open spec fn varint(n: nat) -> Seq<u8>
    decreases n,
{
    if n < 128 {
        seq![n as u8]
    } else {
        seq![(n % 128 + 128) as u8] + varint(n / 128)
    }
}

/// The encoding of a byte string: its length and its bytes.
pub open spec fn encoded(bytes: Seq<u8>) -> Seq<u8> {
    varint(bytes.len()) + bytes
}

/// The data begins with the encoding of the byte string.
pub open spec fn begins_with_encoding(data: Seq<u8>, bytes: Seq<u8>) -> bool {
    encoded(bytes).is_prefix_of(data)
}

/// The data breaks off within the encoding of some byte string.
pub open spec fn truncated(data: Seq<u8>) -> bool {
    exists|bytes: Seq<u8>|
        data.len() < encoded(bytes).len() && data.is_prefix_of(#[trigger] encoded(bytes))
}

/// Every byte string whose encoding the data begins with is what was decoded.
pub open spec fn decodes(data: Seq<u8>, decoded: Result<Vec<u8>, PostcardError>) -> bool {
    forall|bytes: Seq<u8>| #[trigger]
        begins_with_encoding(data, bytes) ==> decoded is Ok && decoded->Ok_0@ == bytes
}

/// `postcard::to_stdvec` on a `Vec<u8>`: the length of the vector as a varint
/// and its bytes.
#[verifier::external_body]
fn outside_encode(bytes: &Vec<u8>) -> (data: Result<Vec<u8>, PostcardError>)
    ensures
        data is Ok,
        data->Ok_0@ == encoded(bytes@),
{
    postcard::to_stdvec(bytes)
}

/// `postcard::from_bytes` to a `Vec<u8>`. Data that begins with the encoding of
/// a byte string gives that byte string, whatever follows; data that breaks off
/// within one is an error. Nothing is said of data that begins otherwise, that
/// is with a length in more bytes than it needs: how many are accepted depends
/// on the machine.
#[verifier::external_body]
fn outside_decode(data: &Vec<u8>) -> (bytes: Result<Vec<u8>, PostcardError>)
    ensures
        decodes(data@, bytes),
        truncated(data@) ==> bytes is Err,
{
    postcard::from_bytes(data.as_slice())
}

/// The error of an operation in which something could not be encoded or
/// decoded.
pub open spec fn serialization_error() -> MuxErrorView {
    MuxErrorView::IpcError(
        crate::mux::error::IpcErrorView::SerializationError(
            "Serialization/Deserialization error"@,
        ),
    )
}

/// Turns the reason why something could not be encoded or decoded into the
/// error of the operation.
pub fn from_postcard_error(_e: PostcardError) -> (error: MuxError)
    ensures
        error@ == serialization_error(),
{
    MuxError::IpcError(
        IpcError::SerializationError(String::from_str("Serialization/Deserialization error")),
    )
}

/// Encodes a byte string.
pub fn encode_bytes(bytes: &Vec<u8>) -> (data: Result<Vec<u8>, MuxError>)
    ensures
        data is Ok,
        data->Ok_0@ == encoded(bytes@),
{
    match outside_encode(bytes) {
        Ok(data) => Ok(data),
        Err(e) => Err(from_postcard_error(e)),
    }
}

/// Decodes a byte string.
pub fn decode_bytes(data: &Vec<u8>) -> (bytes: Result<Vec<u8>, MuxError>)
    ensures
        forall|expected: Seq<u8>| #[trigger]
            begins_with_encoding(data@, expected) ==> bytes is Ok && bytes->Ok_0@ == expected,
        truncated(data@) ==> bytes is Err,
        bytes is Err ==> bytes->Err_0@ == serialization_error(),
{
    match outside_decode(data) {
        Ok(bytes) => Ok(bytes),
        Err(e) => Err(from_postcard_error(e)),
    }
}

/// Decoding the encoding of a byte string, also one with something behind it,
/// gives the byte string back.
pub proof fn law_decoding_undoes_encoding(bytes: Seq<u8>, behind: Seq<u8>)
    ensures
        begins_with_encoding(encoded(bytes) + behind, bytes),
        begins_with_encoding(encoded(bytes), bytes),
{
    assert((encoded(bytes) + behind).subrange(0, encoded(bytes).len() as int) =~= encoded(bytes));
    assert(encoded(bytes).subrange(0, encoded(bytes).len() as int) =~= encoded(bytes));
}

/// The first byte of a number's encoding tells whether more follow.
proof fn lemma_varint_first(n: nat)
    ensures
        varint(n).len() > 0,
        varint(n)[0] == (if n < 128 {
            n
        } else {
            n % 128 + 128
        }),
{
}

/// No number's encoding is the beginning of another's.
proof fn lemma_varint_prefix_free(n: nat, m: nat, behind_n: Seq<u8>, behind_m: Seq<u8>)
    requires
        varint(n) + behind_n == varint(m) + behind_m,
    ensures
        n == m,
        behind_n == behind_m,
    decreases n,
{
    let whole = varint(n) + behind_n;
    lemma_varint_first(n);
    lemma_varint_first(m);
    assert(whole[0] == varint(n)[0]);
    assert((varint(m) + behind_m)[0] == varint(m)[0]);
    if n < 128 {
        assert(m == n);
        assert(whole.skip(1) =~= behind_n);
        assert((varint(m) + behind_m).skip(1) =~= behind_m);
    } else {
        assert(m >= 128);
        assert(n % 128 == m % 128);
        assert(whole.skip(1) =~= varint(n / 128) + behind_n);
        assert((varint(m) + behind_m).skip(1) =~= varint(m / 128) + behind_m);
        lemma_varint_prefix_free(n / 128, m / 128, behind_n, behind_m);
    }
}

/// Data begins with the encoding of at most one byte string: different byte
/// strings never look alike.
pub proof fn law_encodings_differ(data: Seq<u8>, first: Seq<u8>, second: Seq<u8>)
    requires
        begins_with_encoding(data, first),
        begins_with_encoding(data, second),
    ensures
        first == second,
{
    let behind_first = data.skip(encoded(first).len() as int);
    let behind_second = data.skip(encoded(second).len() as int);
    assert(data =~= encoded(first) + behind_first);
    assert(data =~= encoded(second) + behind_second);
    assert(encoded(first) + behind_first =~= varint(first.len()) + (first + behind_first));
    assert(encoded(second) + behind_second =~= varint(second.len()) + (second + behind_second));
    lemma_varint_prefix_free(
        first.len(),
        second.len(),
        first + behind_first,
        second + behind_second,
    );
    assert(first =~= (first + behind_first).take(first.len() as int));
    assert(second =~= (second + behind_second).take(second.len() as int));
}

} // verus!
