//! Encoding and decoding of the values that the registry stores.
//!
//! The bytes are produced and read by `bincode2` in its default configuration.
//! What this module claims of that crate is written out in [`crate::encoding`],
//! and the rest of the library is proved from those claims. `bincode2` reads a
//! value off the front of its input and does not mind what follows; the
//! library takes a stored value only where nothing follows.

use crate::encoding::{
    attestation_bytes, attestation_fits, flag_bytes, ids_bytes, ids_fit,
    lemma_attestation_read_is_written, lemma_attestation_round_trip, lemma_flag_read_is_written,
    lemma_flag_round_trip, lemma_ids_read_is_written, lemma_ids_round_trip,
    lemma_text_read_is_written, lemma_text_round_trip, parse_attestation, parse_flag, parse_ids,
    parse_text, text_bytes, text_fits, Attestation,
};
use crate::error::ContractError;
use crate::state::CompilationResult;
use vstd::prelude::*;
use vstd::utf8::encode_utf8;

verus! {

/// The error type of `bincode2`. Nothing is read from it.
#[verifier::external_type_specification]
#[verifier::external_body]
pub struct ExBincodeErrorKind(bincode2::ErrorKind);

/// A type of value that the store can hold, with its byte format.
pub trait Storable: View + Sized {
    /// The bytes that stand for a value.
    spec fn bytes_of(v: Self::V) -> Seq<u8>;

    /// The value that a run of bytes starts with, if it starts with one, and
    /// the bytes that follow the value.
    spec fn parse_front(b: Seq<u8>) -> Option<(Self::V, Seq<u8>)>;

    /// Whether the lengths inside a value can be written. Every value in memory fits.
    spec fn fits(v: Self::V) -> bool;

    /// What was written is read back, with the bytes behind it left over, and
    /// no value is written as nothing.
    proof fn lemma_round_trip(v: Self::V, tail: Seq<u8>)
        requires
            Self::fits(v),
        ensures
            Self::parse_front(Self::bytes_of(v) + tail) == Some((v, tail)),
            Self::bytes_of(v).len() > 0,
    ;

    /// What is read is what writing the value gives.
    proof fn lemma_read_is_written(b: Seq<u8>)
        ensures
            Self::parse_front(b) matches Some((v, rest)) ==> Self::fits(v) && b == Self::bytes_of(
                v,
            ) + rest,
    ;

    /// Encodes the value. The result leaves room for a failure of the
    /// encoder; for the values stored here there is none.
    fn encode(&self) -> (r: Result<Vec<u8>, ContractError>)
        ensures
            Self::fits(self@),
            r matches Ok(b) && b@ == Self::bytes_of(self@),
    ;

    /// Decodes the value at the front of `bytes` and tells how many bytes it
    /// takes up, or fails with `SerializationError` where `bytes` does not
    /// start with a value.
    fn decode_front(bytes: &[u8]) -> (r: Result<(Self, usize), ContractError>)
        ensures
            match r {
                Ok((v, used)) => used <= bytes@.len() && Self::parse_front(bytes@) == Some(
                    (v@, bytes@.subrange(used as int, bytes@.len() as int)),
                ),
                Err(e) => e == ContractError::SerializationError && Self::parse_front(bytes@)
                    is None,
            },
    ;
}

/// The value that `b` is the encoding of, if it is one: the value at the front
/// of `b`, where nothing follows it.
pub open spec fn parse<T: Storable>(b: Seq<u8>) -> Option<T::V> {
    match T::parse_front(b) {
        Some((v, rest)) => if rest.len() == 0 {
            Some(v)
        } else {
            None
        },
        None => None,
    }
}

/// Reading is the inverse of writing: `b` is read as `v` exactly when `b` is
/// what writing `v` gives.
pub proof fn lemma_parse_is_inverse<T: Storable>(b: Seq<u8>, v: T::V)
    ensures
        parse::<T>(b) == Some(v) <==> T::fits(v) && b == T::bytes_of(v),
        T::fits(v) ==> T::bytes_of(v).len() > 0,
{
    T::lemma_read_is_written(b);
    if T::fits(v) {
        T::lemma_round_trip(v, Seq::empty());
        assert(T::bytes_of(v) + Seq::<u8>::empty() =~= T::bytes_of(v));
    }
    if let Some((w, rest)) = T::parse_front(b) {
        if rest.len() == 0 {
            assert(T::bytes_of(w) + rest =~= T::bytes_of(w));
        }
    }
}

/// A flag is never taken for a text, a list of code ids or an attestation,
/// nor one of these for a flag: the encoding of a flag is one byte long, and
/// theirs are longer.
pub proof fn lemma_flag_unlike_other_values(b: Seq<u8>)
    ensures
        parse::<bool>(b) is Some ==> parse::<String>(b) is None && parse::<Vec<u32>>(b) is None
            && parse::<CompilationResult>(b) is None,
{
    if let Some(v) = parse::<bool>(b) {
        lemma_parse_is_inverse::<bool>(b, v);
        assert(b.len() == 1);
    }
    if let Some(s) = parse::<String>(b) {
        lemma_parse_is_inverse::<String>(b, s);
        lemma_text_round_trip(s, Seq::empty());
    }
    if let Some(ids) = parse::<Vec<u32>>(b) {
        lemma_parse_is_inverse::<Vec<u32>>(b, ids);
        lemma_ids_round_trip(ids, Seq::empty());
    }
    if let Some(a) = parse::<CompilationResult>(b) {
        lemma_parse_is_inverse::<CompilationResult>(b, a);
        lemma_attestation_round_trip(a, Seq::empty());
    }
}

/// Decodes `bytes` as one value of type `T`, or fails with
/// `SerializationError` where `bytes` is not what encoding a value gives.
pub fn decode<T: Storable>(bytes: &[u8]) -> (r: Result<T, ContractError>)
    ensures
        match r {
            Ok(v) => parse::<T>(bytes@) == Some(v@),
            Err(e) => e == ContractError::SerializationError && parse::<T>(bytes@) is None,
        },
{
    let (value, used) = T::decode_front(bytes)?;
    if used != bytes.len() {
        return Err(ContractError::SerializationError);
    }
    Ok(value)
}

/// `bincode2::serialize` on a `bool`. With the default configuration there is no
/// size limit and the bytes go to a vector, so the call succeeds; it yields the
/// single byte `1` or `0`.
#[verifier::external_body]
fn bincode_flag(v: bool) -> (r: Result<Vec<u8>, Box<bincode2::ErrorKind>>)
    ensures
        r is Ok,
        r->Ok_0@ == flag_bytes(v),
{
    bincode2::serialize(&v)
}

/// `bincode2::deserialize` to a `bool`. It reads one byte, takes `0` and `1`,
/// fails on any other byte and on empty input, and ignores what follows.
#[verifier::external_body]
fn bincode_to_flag(bytes: &[u8]) -> (r: Result<bool, Box<bincode2::ErrorKind>>)
    ensures
        match r {
            Ok(v) => parse_flag(bytes@) matches Some((x, _)) && x == v,
            Err(_) => parse_flag(bytes@) is None,
        },
{
    bincode2::deserialize::<bool>(bytes)
}

/// `bincode2::serialize` on a `String`. The call succeeds and yields the length
/// of the string in bytes as a little-endian `u64`, then the bytes.
#[verifier::external_body]
fn bincode_text(v: &String) -> (r: Result<Vec<u8>, Box<bincode2::ErrorKind>>)
    ensures
        r is Ok,
        r->Ok_0@ == text_bytes(v@),
{
    bincode2::serialize(v)
}

/// `bincode2::deserialize` to a `String`. It reads a little-endian `u64` count,
/// then that many bytes, which must be there and be valid UTF-8, and ignores
/// what follows.
#[verifier::external_body]
fn bincode_to_text(bytes: &[u8]) -> (r: Result<String, Box<bincode2::ErrorKind>>)
    ensures
        match r {
            Ok(v) => parse_text(bytes@) matches Some((x, _)) && x == v@,
            Err(_) => parse_text(bytes@) is None,
        },
{
    bincode2::deserialize::<String>(bytes)
}

/// `bincode2::serialize` on a `Vec<u32>`. The call succeeds and yields the
/// number of items as a little-endian `u64`, then each item in four
/// little-endian bytes.
#[verifier::external_body]
fn bincode_ids(v: &Vec<u32>) -> (r: Result<Vec<u8>, Box<bincode2::ErrorKind>>)
    ensures
        r is Ok,
        r->Ok_0@ == ids_bytes(v@),
{
    bincode2::serialize(v)
}

/// `bincode2::deserialize` to a `Vec<u32>`. It reads a little-endian `u64`
/// count, then that many items of four bytes, all of which must be there, and
/// ignores what follows.
#[verifier::external_body]
fn bincode_to_ids(bytes: &[u8]) -> (r: Result<Vec<u32>, Box<bincode2::ErrorKind>>)
    ensures
        match r {
            Ok(v) => parse_ids(bytes@) matches Some((x, _)) && x == v@,
            Err(_) => parse_ids(bytes@) is None,
        },
{
    bincode2::deserialize::<Vec<u32>>(bytes)
}

/// `bincode2::serialize` on the fields of a [`CompilationResult`] in their
/// order of declaration. The call succeeds and yields the fields one after the
/// other: the code id in four little-endian bytes, the three texts as strings,
/// the flag as one byte.
#[verifier::external_body]
fn bincode_attestation(v: &CompilationResult) -> (r: Result<Vec<u8>, Box<bincode2::ErrorKind>>)
    ensures
        r is Ok,
        r->Ok_0@ == attestation_bytes(v@),
{
    bincode2::serialize(&(v.code_id, &v.repo, &v.commit_hash, &v.method, v.verified))
}

/// `bincode2::deserialize` to the fields of a [`CompilationResult`]. It reads
/// the fields one after the other, fails where one of them is not there or is
/// malformed, and ignores what follows the last.
#[verifier::external_body]
fn bincode_to_attestation(bytes: &[u8]) -> (r: Result<CompilationResult, Box<bincode2::ErrorKind>>)
    ensures
        match r {
            Ok(v) => parse_attestation(bytes@) matches Some((x, _)) && x == v@,
            Err(_) => parse_attestation(bytes@) is None,
        },
{
    let (code_id, repo, commit_hash, method, verified) =
        bincode2::deserialize::<(u32, String, String, String, bool)>(bytes)?;
    Ok(CompilationResult { code_id, repo, commit_hash, method, verified })
}

/// The number of bytes that a text takes up in memory.
fn text_len(text: &String) -> (n: usize)
    ensures
        n == encode_utf8(text@).len(),
        text_fits(text@),
{
    text.as_str().as_bytes().len()
}

impl Storable for bool {
    open spec fn bytes_of(v: bool) -> Seq<u8> {
        flag_bytes(v)
    }

    open spec fn parse_front(b: Seq<u8>) -> Option<(bool, Seq<u8>)> {
        parse_flag(b)
    }

    open spec fn fits(v: bool) -> bool {
        true
    }

    proof fn lemma_round_trip(v: bool, tail: Seq<u8>) {
        lemma_flag_round_trip(v, tail);
    }

    proof fn lemma_read_is_written(b: Seq<u8>) {
        lemma_flag_read_is_written(b);
    }

    fn encode(&self) -> (r: Result<Vec<u8>, ContractError>) {
        match bincode_flag(*self) {
            Ok(bytes) => Ok(bytes),
            Err(_) => Err(ContractError::SerializationError),
        }
    }

    fn decode_front(bytes: &[u8]) -> (r: Result<(bool, usize), ContractError>) {
        match bincode_to_flag(bytes) {
            Ok(v) => Ok((v, 1)),
            Err(_) => Err(ContractError::SerializationError),
        }
    }
}

impl Storable for String {
    open spec fn bytes_of(v: Seq<char>) -> Seq<u8> {
        text_bytes(v)
    }

    open spec fn parse_front(b: Seq<u8>) -> Option<(Seq<char>, Seq<u8>)> {
        parse_text(b)
    }

    open spec fn fits(v: Seq<char>) -> bool {
        text_fits(v)
    }

    proof fn lemma_round_trip(v: Seq<char>, tail: Seq<u8>) {
        lemma_text_round_trip(v, tail);
    }

    proof fn lemma_read_is_written(b: Seq<u8>) {
        lemma_text_read_is_written(b);
    }

    fn encode(&self) -> (r: Result<Vec<u8>, ContractError>) {
        let _len = text_len(self);
        match bincode_text(self) {
            Ok(bytes) => Ok(bytes),
            Err(_) => Err(ContractError::SerializationError),
        }
    }

    fn decode_front(bytes: &[u8]) -> (r: Result<(String, usize), ContractError>) {
        let _total = bytes.len();
        match bincode_to_text(bytes) {
            Ok(v) => {
                let len = text_len(&v);
                proof {
                    let rest = parse_text(bytes@).unwrap().1;
                    lemma_text_read_is_written(bytes@);
                    lemma_text_round_trip(v@, rest);
                    assert(bytes@.subrange(8 + len, bytes@.len() as int) =~= rest);
                }
                Ok((v, 8 + len))
            },
            Err(_) => Err(ContractError::SerializationError),
        }
    }
}

impl Storable for Vec<u32> {
    open spec fn bytes_of(v: Seq<u32>) -> Seq<u8> {
        ids_bytes(v)
    }

    open spec fn parse_front(b: Seq<u8>) -> Option<(Seq<u32>, Seq<u8>)> {
        parse_ids(b)
    }

    open spec fn fits(v: Seq<u32>) -> bool {
        ids_fit(v)
    }

    proof fn lemma_round_trip(v: Seq<u32>, tail: Seq<u8>) {
        lemma_ids_round_trip(v, tail);
    }

    proof fn lemma_read_is_written(b: Seq<u8>) {
        lemma_ids_read_is_written(b);
    }

    fn encode(&self) -> (r: Result<Vec<u8>, ContractError>) {
        let _len = self.len();
        match bincode_ids(self) {
            Ok(bytes) => Ok(bytes),
            Err(_) => Err(ContractError::SerializationError),
        }
    }

    fn decode_front(bytes: &[u8]) -> (r: Result<(Vec<u32>, usize), ContractError>) {
        let _total = bytes.len();
        match bincode_to_ids(bytes) {
            Ok(v) => {
                let len = v.len();
                proof {
                    let rest = parse_ids(bytes@).unwrap().1;
                    lemma_ids_read_is_written(bytes@);
                    lemma_ids_round_trip(v@, rest);
                    assert(bytes@.subrange(8 + 4 * len, bytes@.len() as int) =~= rest);
                }
                Ok((v, 8 + 4 * len))
            },
            Err(_) => Err(ContractError::SerializationError),
        }
    }
}

impl Storable for CompilationResult {
    open spec fn bytes_of(v: Attestation) -> Seq<u8> {
        attestation_bytes(v)
    }

    open spec fn parse_front(b: Seq<u8>) -> Option<(Attestation, Seq<u8>)> {
        parse_attestation(b)
    }

    open spec fn fits(v: Attestation) -> bool {
        attestation_fits(v)
    }

    proof fn lemma_round_trip(v: Attestation, tail: Seq<u8>) {
        lemma_attestation_round_trip(v, tail);
    }

    proof fn lemma_read_is_written(b: Seq<u8>) {
        lemma_attestation_read_is_written(b);
    }

    fn encode(&self) -> (r: Result<Vec<u8>, ContractError>) {
        let _repo = text_len(&self.repo);
        let _commit = text_len(&self.commit_hash);
        let _method = text_len(&self.method);
        match bincode_attestation(self) {
            Ok(bytes) => Ok(bytes),
            Err(_) => Err(ContractError::SerializationError),
        }
    }

    fn decode_front(bytes: &[u8]) -> (r: Result<(CompilationResult, usize), ContractError>) {
        let _total = bytes.len();
        match bincode_to_attestation(bytes) {
            Ok(v) => {
                let repo = text_len(&v.repo);
                let commit = text_len(&v.commit_hash);
                let method = text_len(&v.method);
                proof {
                    let rest = parse_attestation(bytes@).unwrap().1;
                    lemma_attestation_read_is_written(bytes@);
                    lemma_attestation_round_trip(v@, rest);
                    assert(bytes@.subrange(29 + repo + commit + method, bytes@.len() as int)
                        =~= rest);
                }
                Ok((v, 29 + repo + commit + method))
            },
            Err(_) => Err(ContractError::SerializationError),
        }
    }
}

} // verus!
