//! Fixed-capacity buffers and text decoding.
//!
//! Everything in this module is taken on trust: the types belong to
//! `heapless` and `core`, and the contracts below restate what their
//! sources and documentation say.

use vstd::prelude::*;
use vstd::string::*;
use vstd::utf8::valid_utf8;

verus! {

/// `heapless::String`, a string with a fixed capacity of `N` bytes.
#[verifier::external_type_specification]
#[verifier::external_body]
pub struct ExHeaplessString<const N: usize>(heapless::String<N>);

/// `heapless::Vec`, a vector with a fixed capacity of `N` elements.
#[verifier::external_type_specification]
#[verifier::external_body]
#[verifier::reject_recursive_types(T)]
pub struct ExHeaplessVec<T, const N: usize>(heapless::Vec<T, N>);

/// `core::str::Utf8Error`, the reason why bytes are not UTF-8.
#[verifier::external_type_specification]
#[verifier::external_body]
pub struct ExUtf8Error(core::str::Utf8Error);

/// The UTF-8 bytes that a payload string holds.
pub uninterp spec fn payload_bytes(payload: heapless::String<40>) -> Seq<u8>;

/// The bytes that a response buffer holds, in order.
pub uninterp spec fn response_bytes(response: heapless::Vec<u8, 64>) -> Seq<u8>;

/// The error that `core::str::from_utf8` reports for bytes that are not
/// UTF-8.
pub uninterp spec fn utf8_error_of(bytes: Seq<u8>) -> core::str::Utf8Error;

/// `core::str::from_utf8`: succeeds exactly on well-formed UTF-8 and then
/// returns the same bytes as text; otherwise it reports where decoding
/// stopped, which depends on the bytes alone.
#[verifier::external_body]
pub(crate) fn text_from_utf8(bytes: &[u8]) -> (res: Result<&str, core::str::Utf8Error>)
    ensures
        res is Ok <==> valid_utf8(bytes@),
        res is Ok ==> res->Ok_0.spec_bytes() == bytes@,
        res is Err ==> res->Err_0 == utf8_error_of(bytes@),
{
    core::str::from_utf8(bytes)
}

/// `<heapless::String<40> as FromStr>::from_str`: copies the text into a new
/// string if its bytes fit the capacity, and fails otherwise.
#[verifier::external_body]
pub(crate) fn payload_from_str(text: &str) -> (res: Result<heapless::String<40>, ()>)
    ensures
        res is Ok <==> text.spec_bytes().len() <= 40,
        res is Ok ==> payload_bytes(res->Ok_0) == text.spec_bytes(),
{
    core::str::FromStr::from_str(text)
}

/// `<heapless::String<40> as AsRef<[u8]>>::as_ref`: the bytes of the string.
#[verifier::external_body]
pub(crate) fn payload_as_bytes(payload: &heapless::String<40>) -> (res: &[u8])
    ensures
        res@ == payload_bytes(*payload),
{
    payload.as_ref()
}

/// `heapless::Vec::<u8, 64>::from_slice`: copies the bytes into a new buffer
/// if there are at most 64 of them, and fails otherwise.
#[verifier::external_body]
pub(crate) fn response_from_slice(bytes: &[u8]) -> (res: Result<heapless::Vec<u8, 64>, ()>)
    ensures
        res is Ok <==> bytes@.len() <= 64,
        res is Ok ==> response_bytes(res->Ok_0) == bytes@,
{
    heapless::Vec::from_slice(bytes)
}

} // verus!
