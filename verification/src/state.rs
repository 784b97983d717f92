//! The store that holds the registry's state, and typed access to it.
//!
//! The store is the in-memory key-value storage of `cosmwasm_std`. The library
//! reads and writes it through three calls, `get`, `set` and `remove`, and
//! speaks of what it holds as a map from keys to values.

use crate::codec::{decode, lemma_parse_is_inverse, parse, Storable};
use crate::encoding::Attestation;
use crate::error::ContractError;
use cosmwasm_std::MemoryStorage;
use cosmwasm_std::Storage;
use vstd::prelude::*;

verus! {

/// One verification attempt as it is submitted and stored.
#[derive(Clone, Debug, PartialEq, Eq)]
pub struct CompilationResult {
    /// The code id that was checked.
    pub code_id: u32,
    /// The repository the code is said to come from.
    pub repo: String,
    /// The commit in that repository.
    pub commit_hash: String,
    /// How the code was built.
    pub method: String,
    /// Whether the build matched the published code.
    pub verified: bool,
}

impl View for CompilationResult {
    type V = Attestation;

    open spec fn view(&self) -> Attestation {
        Attestation {
            code_id: self.code_id,
            repo: self.repo@,
            commit_hash: self.commit_hash@,
            method: self.method@,
            verified: self.verified,
        }
    }
}

/// Responses are padded to a multiple of this many bytes.
pub const BLOCK_SIZE: usize = 256;

/// The key-value storage of `cosmwasm_std` that lives in memory.
#[verifier::external_type_specification]
#[verifier::external_body]
pub struct ExMemoryStorage(MemoryStorage);

/// The entries of a store: each key that is present, with its value.
pub uninterp spec fn entries(storage: MemoryStorage) -> Map<Seq<u8>, Seq<u8>>;

/// `Storage::get` of `MemoryStorage`: the value under `key`, if the key is present.
#[verifier::external_body]
fn storage_get(storage: &MemoryStorage, key: &[u8]) -> (value: Option<Vec<u8>>)
    ensures
        match value {
            Some(v) => entries(*storage).contains_key(key@) && entries(*storage)[key@] == v@,
            None => !entries(*storage).contains_key(key@),
        },
{
    storage.get(key)
}

/// `Storage::set` of `MemoryStorage`: puts `value` under `key`, in place of any
/// value that was there. The call panics on an empty value.
#[verifier::external_body]
fn storage_set(storage: &mut MemoryStorage, key: &[u8], value: &[u8])
    requires
        value@.len() > 0,
    ensures
        entries(*final(storage)) == entries(*old(storage)).insert(key@, value@),
{
    storage.set(key, value)
}

/// `Storage::remove` of `MemoryStorage`: takes `key` and its value out, if the key is present.
#[verifier::external_body]
fn storage_remove(storage: &mut MemoryStorage, key: &[u8])
    ensures
        entries(*final(storage)) == entries(*old(storage)).remove(key@),
{
    storage.remove(key)
}

/// What reading a value of type `T` under `key` finds: nothing where the key is
/// absent, the value where the bytes under it are the encoding of one, and
/// `SerializationError` where they are not.
pub open spec fn stored<T: Storable>(m: Map<Seq<u8>, Seq<u8>>, key: Seq<u8>) -> Result<
    Option<T::V>,
    ContractError,
> {
    if !m.contains_key(key) {
        Ok(None)
    } else {
        match parse::<T>(m[key]) {
            Some(v) => Ok(Some(v)),
            None => Err(ContractError::SerializationError),
        }
    }
}

/// What reading a value that must exist finds: as [`stored`], with `KeyAbsent`
/// where the key is absent.
pub open spec fn required<T: Storable>(m: Map<Seq<u8>, Seq<u8>>, key: Seq<u8>) -> Result<
    T::V,
    ContractError,
> {
    match stored::<T>(m, key) {
        Ok(Some(v)) => Ok(v),
        Ok(None) => Err(ContractError::KeyAbsent),
        Err(e) => Err(e),
    }
}

/// A value that was stored is found.
pub proof fn lemma_stored_round_trip<T: Storable>(v: T::V)
    requires
        T::fits(v),
    ensures
        parse::<T>(T::bytes_of(v)) == Some(v),
        T::bytes_of(v).len() > 0,
{
    lemma_parse_is_inverse::<T>(T::bytes_of(v), v);
}

/// Stores `value` under `key`, in place of any value that was there.
pub fn save<T: Storable>(storage: &mut MemoryStorage, key: &[u8], value: &T) -> (r: Result<
    (),
    ContractError,
>)
    ensures
        r is Ok,
        T::fits(value@),
        entries(*final(storage)) == entries(*old(storage)).insert(key@, T::bytes_of(value@)),
{
    let bytes = value.encode()?;
    proof {
        lemma_parse_is_inverse::<T>(bytes@, value@);
    }
    storage_set(storage, key, bytes.as_slice());
    Ok(())
}

/// Takes `key` and its value out of the store.
pub fn remove(storage: &mut MemoryStorage, key: &[u8])
    ensures
        entries(*final(storage)) == entries(*old(storage)).remove(key@),
{
    storage_remove(storage, key);
}

/// Reads the value under `key`, which must be there.
pub fn load<T: Storable>(storage: &MemoryStorage, key: &[u8]) -> (r: Result<T, ContractError>)
    ensures
        match r {
            Ok(v) => required::<T>(entries(*storage), key@) == Ok::<T::V, ContractError>(v@),
            Err(e) => required::<T>(entries(*storage), key@) == Err::<T::V, ContractError>(e),
        },
{
    match storage_get(storage, key) {
        Some(bytes) => decode::<T>(bytes.as_slice()),
        None => Err(ContractError::KeyAbsent),
    }
}

/// Reads the value under `key`, if there is one.
pub fn may_load<T: Storable>(storage: &MemoryStorage, key: &[u8]) -> (r: Result<
    Option<T>,
    ContractError,
>)
    ensures
        match r {
            Ok(Some(v)) => stored::<T>(entries(*storage), key@) == Ok::<
                Option<T::V>,
                ContractError,
            >(Some(v@)),
            Ok(None) => stored::<T>(entries(*storage), key@) == Ok::<Option<T::V>, ContractError>(
                None,
            ),
            Err(e) => stored::<T>(entries(*storage), key@) == Err::<Option<T::V>, ContractError>(
                e,
            ),
        },
{
    match storage_get(storage, key) {
        Some(bytes) => {
            let value = decode::<T>(bytes.as_slice())?;
            Ok(Some(value))
        },
        None => Ok(None),
    }
}

} // verus!
