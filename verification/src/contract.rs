//! The registry's operations: setting it up, the admin's commands, and the queries.
//!
//! Each operation is stated twice. A spec function says what the operation
//! decides and what it leaves in the store, as a function of the store's
//! entries; the executable function is proved to do exactly that. A command
//! reads everything it needs before it writes anything, so a rejected command
//! leaves the store untouched.

use crate::consistency::{
    law_rotation_keeps_well_formed, law_set_up_is_well_formed, law_well_formed_queries,
    law_write_keeps_well_formed, well_formed,
};
use crate::encoding::{attestation_bytes, flag_bytes, ids_bytes, text_bytes, Attestation};
use crate::error::ContractError;
use crate::keys::{admin_key, index_key, result_key, slot_key, specific_key, verified_key, Slot};
use crate::laws::law_accepted_attestation_is_recorded;
use crate::msg::{Answer, Command, ExecuteMsg, InstantiateMsg, QueryAnswer, QueryMsg};
use crate::state::{
    entries, lemma_stored_round_trip, load, may_load, required, save, stored, CompilationResult,
};
use cosmwasm_std::MemoryStorage;
use vstd::prelude::*;

verus! {

/// The admin gate: passes where `caller` is the admin on record.
pub open spec fn authorize(m: Map<Seq<u8>, Seq<u8>>, caller: Seq<char>) -> Result<
    (),
    ContractError,
> {
    match required::<String>(m, slot_key(Slot::Admin)) {
        Err(e) => Err(e),
        Ok(admin) => if admin == caller {
            Ok(())
        } else {
            Err(ContractError::Unauthorized)
        },
    }
}

/// The store after `admin` was made the admin.
pub open spec fn with_admin(m: Map<Seq<u8>, Seq<u8>>, admin: Seq<char>) -> Map<Seq<u8>, Seq<u8>> {
    m.insert(slot_key(Slot::Admin), text_bytes(admin))
}

/// The verified code ids on record, in order; none where no list was stored yet.
pub open spec fn verified_index(m: Map<Seq<u8>, Seq<u8>>) -> Result<Seq<u32>, ContractError> {
    match stored::<Vec<u32>>(m, slot_key(Slot::VerifiedIndex)) {
        Err(e) => Err(e),
        Ok(Some(ids)) => Ok(ids),
        Ok(None) => Ok(Seq::empty()),
    }
}

/// A list of code ids with `code_id` at its end, unless the list holds it already.
pub open spec fn index_with(ids: Seq<u32>, code_id: u32) -> Seq<u32> {
    if ids.contains(code_id) {
        ids
    } else {
        ids.push(code_id)
    }
}

/// Whether the attestation `a` from `caller` is accepted, and if not, why not.
///
/// The checks come in this order: the admin gate; the code id must not be
/// verified yet; the same attempt must not be on record as failed. A successful
/// attestation also needs the verified index to be readable.
pub open spec fn write_outcome(m: Map<Seq<u8>, Seq<u8>>, caller: Seq<char>, a: Attestation) -> Result<
    (),
    ContractError,
> {
    match authorize(m, caller) {
        Err(e) => Err(e),
        Ok(_) => match stored::<bool>(m, slot_key(Slot::Status(a.code_id))) {
            Err(e) => Err(e),
            Ok(Some(true)) => Err(ContractError::AlreadyVerified),
            Ok(_) => match stored::<CompilationResult>(
                m,
                slot_key(Slot::Attempt(a.code_id, a.repo, a.commit_hash)),
            ) {
                Err(e) => Err(e),
                Ok(Some(prior)) if !prior.verified => Err(ContractError::AlreadyAttemptedFailed),
                Ok(_) => if a.verified {
                    match verified_index(m) {
                        Err(e) => Err(e),
                        Ok(_) => Ok(()),
                    }
                } else {
                    Ok(())
                },
            },
        },
    }
}

/// The store after the attestation `a` was accepted: `a` under its attempt, the
/// status of its code id, and for a successful one also `a` as the canonical
/// result and the code id in the verified index.
pub open spec fn write_effect(m: Map<Seq<u8>, Seq<u8>>, a: Attestation) -> Map<Seq<u8>, Seq<u8>> {
    let attempted = m.insert(
        slot_key(Slot::Attempt(a.code_id, a.repo, a.commit_hash)),
        attestation_bytes(a),
    ).insert(slot_key(Slot::Status(a.code_id)), flag_bytes(a.verified));
    if a.verified {
        attempted.insert(slot_key(Slot::Canonical(a.code_id)), attestation_bytes(a)).insert(
            slot_key(Slot::VerifiedIndex),
            ids_bytes(index_with(verified_index(m).unwrap(), a.code_id)),
        )
    } else {
        attempted
    }
}

/// What an accepted attestation `a` leaves to be read: `a` under its attempt,
/// its flag as the status of its code id, and for a successful one `a` as the
/// answer for its code id and the code id in the verified index. The admin
/// stays who it was.
pub open spec fn recorded(
    before: Map<Seq<u8>, Seq<u8>>,
    after: Map<Seq<u8>, Seq<u8>>,
    a: Attestation,
) -> bool {
    &&& required::<String>(after, slot_key(Slot::Admin)) == required::<String>(
        before,
        slot_key(Slot::Admin),
    )
    &&& stored::<CompilationResult>(
        after,
        slot_key(Slot::Attempt(a.code_id, a.repo, a.commit_hash)),
    ) == Ok::<Option<Attestation>, ContractError>(Some(a))
    &&& stored::<bool>(after, slot_key(Slot::Status(a.code_id))) == Ok::<
        Option<bool>,
        ContractError,
    >(Some(a.verified))
    &&& if a.verified {
        &&& check_code_id(after, a.code_id) == Ok::<Attestation, ContractError>(a)
        &&& verified_index(before) matches Ok(ids)
        &&& verified_index(after) == Ok::<Seq<u32>, ContractError>(index_with(ids, a.code_id))
    } else {
        verified_index(after) == verified_index(before)
    }
}

/// Whether a command from `caller` is accepted, and if not, why not.
pub open spec fn outcome(m: Map<Seq<u8>, Seq<u8>>, caller: Seq<char>, command: Command) -> Result<
    (),
    ContractError,
> {
    match command {
        Command::SetAdmin { admin } => authorize(m, caller),
        Command::WriteResult { attestation } => write_outcome(m, caller, attestation),
    }
}

/// The store after a command from `caller`: changed as the command says where
/// it is accepted, and as it was where it is rejected.
pub open spec fn step(m: Map<Seq<u8>, Seq<u8>>, caller: Seq<char>, command: Command) -> Map<
    Seq<u8>,
    Seq<u8>,
> {
    if outcome(m, caller, command) is Ok {
        match command {
            Command::SetAdmin { admin } => with_admin(m, admin),
            Command::WriteResult { attestation } => write_effect(m, attestation),
        }
    } else {
        m
    }
}

/// The attestation that verified `code_id`, or `NotVerified` where the code id
/// was never attempted or only without success.
pub open spec fn check_code_id(m: Map<Seq<u8>, Seq<u8>>, code_id: u32) -> Result<
    Attestation,
    ContractError,
> {
    match stored::<bool>(m, slot_key(Slot::Status(code_id))) {
        Err(e) => Err(e),
        Ok(Some(true)) => required::<CompilationResult>(m, slot_key(Slot::Canonical(code_id))),
        Ok(_) => Err(ContractError::NotVerified),
    }
}

/// The answer to a question.
pub open spec fn answer(m: Map<Seq<u8>, Seq<u8>>, question: QueryMsg) -> Result<
    Answer,
    ContractError,
> {
    match question {
        QueryMsg::CheckCodeId { code_id } => match check_code_id(m, code_id) {
            Ok(a) => Ok(Answer::CodeId(a)),
            Err(e) => Err(e),
        },
        QueryMsg::CheckAllVerified {  } => match verified_index(m) {
            Ok(ids) => Ok(Answer::AllVerified(ids)),
            Err(e) => Err(e),
        },
    }
}

/// The keys that a command reads or writes. It touches no other.
pub open spec fn command_key_list(command: Command) -> Seq<Seq<u8>> {
    match command {
        Command::SetAdmin { admin } => seq![slot_key(Slot::Admin)],
        Command::WriteResult { attestation } => seq![
            slot_key(Slot::Admin),
            slot_key(Slot::Status(attestation.code_id)),
            slot_key(
                Slot::Attempt(attestation.code_id, attestation.repo, attestation.commit_hash),
            ),
            slot_key(Slot::Canonical(attestation.code_id)),
            slot_key(Slot::VerifiedIndex),
        ],
    }
}

/// The keys that a question reads.
pub open spec fn question_key_list(question: QueryMsg) -> Seq<Seq<u8>> {
    match question {
        QueryMsg::CheckCodeId { code_id } => seq![
            slot_key(Slot::Status(code_id)),
            slot_key(Slot::Canonical(code_id)),
        ],
        QueryMsg::CheckAllVerified {  } => seq![slot_key(Slot::VerifiedIndex)],
    }
}

/// The keys that `msg` reads or writes, for a host that keeps the store
/// elsewhere and brings in only what a command needs.
pub fn command_keys(msg: &ExecuteMsg) -> (keys: Vec<Vec<u8>>)
    ensures
        keys@.len() == command_key_list(msg@).len(),
        forall|i: int| 0 <= i < keys@.len() ==> (#[trigger] keys@[i])@ == command_key_list(msg@)[i],
{
    let mut keys: Vec<Vec<u8>> = Vec::new();
    keys.push(admin_key());
    match msg {
        ExecuteMsg::SetAdmin { admin } => {},
        ExecuteMsg::WriteResult { code_id, repo, commit_hash, method, verified } => {
            keys.push(verified_key(*code_id));
            keys.push(specific_key(*code_id, repo.as_str(), commit_hash.as_str()));
            keys.push(result_key(*code_id));
            keys.push(index_key());
        },
    }
    keys
}

/// The keys that `msg` reads.
pub fn question_keys(msg: &QueryMsg) -> (keys: Vec<Vec<u8>>)
    ensures
        keys@.len() == question_key_list(*msg).len(),
        forall|i: int| 0 <= i < keys@.len() ==> (#[trigger] keys@[i])@ == question_key_list(*msg)[i],
{
    let mut keys: Vec<Vec<u8>> = Vec::new();
    match msg {
        QueryMsg::CheckCodeId { code_id } => {
            keys.push(verified_key(*code_id));
            keys.push(result_key(*code_id));
        },
        QueryMsg::CheckAllVerified {  } => {
            keys.push(index_key());
        },
    }
    keys
}

/// Sets the registry up: `sender` becomes the admin.
pub fn instantiate(storage: &mut MemoryStorage, sender: &str, _msg: InstantiateMsg) -> (r: Result<
    (),
    ContractError,
>)
    ensures
        r is Ok,
        entries(*final(storage)) == with_admin(entries(*old(storage)), sender@),
        authorize(entries(*final(storage)), sender@) is Ok,
        entries(*old(storage)) == Map::<Seq<u8>, Seq<u8>>::empty() ==> well_formed(
            entries(*final(storage)),
        ),
        well_formed(entries(*old(storage))) ==> well_formed(entries(*final(storage))),
{
    let admin: String = sender.to_owned();
    let key = admin_key();
    save(storage, key.as_slice(), &admin)?;
    proof {
        lemma_stored_round_trip::<String>(sender@);
        law_set_up_is_well_formed(sender@);
        if well_formed(entries(*old(storage))) {
            law_rotation_keeps_well_formed(entries(*old(storage)), sender@);
        }
    }
    Ok(())
}

/// Carries out a command from `sender`, or rejects it and leaves the store as it was.
pub fn execute(storage: &mut MemoryStorage, sender: &str, msg: ExecuteMsg) -> (r: Result<
    (),
    ContractError,
>)
    ensures
        r == outcome(entries(*old(storage)), sender@, msg@),
        entries(*final(storage)) == step(entries(*old(storage)), sender@, msg@),
        r is Ok ==> match msg@ {
            Command::SetAdmin { admin } => authorize(entries(*final(storage)), admin) is Ok,
            Command::WriteResult { attestation } => recorded(
                entries(*old(storage)),
                entries(*final(storage)),
                attestation,
            ),
        },
        well_formed(entries(*old(storage))) ==> well_formed(entries(*final(storage))),
{
    match msg {
        ExecuteMsg::SetAdmin { admin } => try_set_admin(storage, sender, admin),
        ExecuteMsg::WriteResult {
            code_id,
            repo,
            commit_hash,
            method,
            verified,
        } => try_write_result(storage, sender, code_id, repo, commit_hash, method, verified),
    }
}

/// Checks `sender` against the admin on record. Nothing is changed.
pub fn check_admin(storage: &MemoryStorage, sender: &str) -> (r: Result<(), ContractError>)
    ensures
        r == authorize(entries(*storage), sender@),
{
    let key = admin_key();
    let current: String = load(storage, key.as_slice())?;
    let caller: String = sender.to_owned();
    if current != caller {
        return Err(ContractError::Unauthorized);
    }
    Ok(())
}

/// Hands the admin role from `sender`, who must hold it, to `admin`.
pub fn try_set_admin(storage: &mut MemoryStorage, sender: &str, admin: String) -> (r: Result<
    (),
    ContractError,
>)
    ensures
        r == authorize(entries(*old(storage)), sender@),
        entries(*final(storage)) == if r is Ok {
            with_admin(entries(*old(storage)), admin@)
        } else {
            entries(*old(storage))
        },
        r is Ok ==> authorize(entries(*final(storage)), admin@) is Ok,
        well_formed(entries(*old(storage))) ==> well_formed(entries(*final(storage))),
{
    check_admin(storage, sender)?;
    let key = admin_key();
    save(storage, key.as_slice(), &admin)?;
    proof {
        lemma_stored_round_trip::<String>(admin@);
        if well_formed(entries(*old(storage))) {
            law_rotation_keeps_well_formed(entries(*old(storage)), admin@);
        }
    }
    Ok(())
}

/// Whether `ids` holds `code_id`.
fn holds(ids: &Vec<u32>, code_id: u32) -> (found: bool)
    ensures
        found == ids@.contains(code_id),
{
    let mut i: usize = 0;
    while i < ids.len()
        invariant
            i <= ids.len(),
            forall|j: int| 0 <= j < i ==> ids@[j] != code_id,
        decreases ids.len() - i,
    {
        if ids[i] == code_id {
            return true;
        }
        i += 1;
    }
    false
}

/// Records the outcome of one verification attempt, submitted by `sender`.
pub fn try_write_result(
    storage: &mut MemoryStorage,
    sender: &str,
    code_id: u32,
    repo: String,
    commit_hash: String,
    method: String,
    verified: bool,
) -> (r: Result<(), ContractError>)
    ensures
        r == write_outcome(
            entries(*old(storage)),
            sender@,
            Attestation { code_id, repo: repo@, commit_hash: commit_hash@, method: method@, verified },
        ),
        entries(*final(storage)) == if r is Ok {
            write_effect(
                entries(*old(storage)),
                Attestation {
                    code_id,
                    repo: repo@,
                    commit_hash: commit_hash@,
                    method: method@,
                    verified,
                },
            )
        } else {
            entries(*old(storage))
        },
        r is Ok ==> recorded(
            entries(*old(storage)),
            entries(*final(storage)),
            Attestation { code_id, repo: repo@, commit_hash: commit_hash@, method: method@, verified },
        ),
        well_formed(entries(*old(storage))) ==> well_formed(entries(*final(storage))),
{
    check_admin(storage, sender)?;

    let status_key = verified_key(code_id);
    let is_verified: Option<bool> = may_load(storage, status_key.as_slice())?;
    if let Some(true) = is_verified {
        return Err(ContractError::AlreadyVerified);
    }

    let attempt_key = specific_key(code_id, repo.as_str(), commit_hash.as_str());
    let prior: Option<CompilationResult> = may_load(storage, attempt_key.as_slice())?;
    if let Some(earlier) = prior {
        if !earlier.verified {
            return Err(ContractError::AlreadyAttemptedFailed);
        }
    }

    let mut verified_ids: Vec<u32> = Vec::new();
    if verified {
        let list_key = index_key();
        let listed: Option<Vec<u32>> = may_load(storage, list_key.as_slice())?;
        if let Some(ids) = listed {
            verified_ids = ids;
        }
        if !holds(&verified_ids, code_id) {
            verified_ids.push(code_id);
        }
    }

    let result = CompilationResult { code_id, repo, commit_hash, method, verified };
    save(storage, attempt_key.as_slice(), &result)?;
    save(storage, status_key.as_slice(), &verified)?;
    if verified {
        let canonical_key = result_key(code_id);
        let list_key = index_key();
        save(storage, canonical_key.as_slice(), &result)?;
        save(storage, list_key.as_slice(), &verified_ids)?;
    }
    proof {
        law_accepted_attestation_is_recorded(entries(*old(storage)), sender@, result@);
        if well_formed(entries(*old(storage))) {
            law_write_keeps_well_formed(entries(*old(storage)), sender@, result@);
        }
    }
    Ok(())
}

/// Answers a question about the registry.
pub fn query(storage: &MemoryStorage, msg: QueryMsg) -> (r: Result<QueryAnswer, ContractError>)
    ensures
        match r {
            Ok(found) => answer(entries(*storage), msg) == Ok::<Answer, ContractError>(found@),
            Err(e) => answer(entries(*storage), msg) == Err::<Answer, ContractError>(e),
        },
{
    match msg {
        QueryMsg::CheckCodeId { code_id } => {
            let result = query_check_code_id(storage, code_id)?;
            Ok(QueryAnswer::CodeId(result))
        },
        QueryMsg::CheckAllVerified {  } => {
            let ids = query_check_all_verified(storage)?;
            Ok(QueryAnswer::AllVerified(ids))
        },
    }
}

/// Looks up the attestation that verified `code_id`.
pub fn query_check_code_id(storage: &MemoryStorage, code_id: u32) -> (r: Result<
    CompilationResult,
    ContractError,
>)
    ensures
        match r {
            Ok(found) => check_code_id(entries(*storage), code_id) == Ok::<
                Attestation,
                ContractError,
            >(found@),
            Err(e) => check_code_id(entries(*storage), code_id) == Err::<
                Attestation,
                ContractError,
            >(e),
        },
        well_formed(entries(*storage)) ==> (r matches Err(e) ==> e == ContractError::NotVerified),
{
    proof {
        if well_formed(entries(*storage)) {
            law_well_formed_queries(entries(*storage), code_id);
        }
    }
    let status_key = verified_key(code_id);
    let status: Option<bool> = may_load(storage, status_key.as_slice())?;
    match status {
        Some(true) => {
            let canonical_key = result_key(code_id);
            load(storage, canonical_key.as_slice())
        },
        _ => Err(ContractError::NotVerified),
    }
}

/// Lists the verified code ids in the order in which they were verified.
pub fn query_check_all_verified(storage: &MemoryStorage) -> (r: Result<Vec<u32>, ContractError>)
    ensures
        match r {
            Ok(ids) => verified_index(entries(*storage)) == Ok::<Seq<u32>, ContractError>(ids@),
            Err(e) => verified_index(entries(*storage)) == Err::<Seq<u32>, ContractError>(e),
        },
        well_formed(entries(*storage)) ==> r is Ok,
{
    let list_key = index_key();
    let listed: Option<Vec<u32>> = may_load(storage, list_key.as_slice())?;
    match listed {
        Some(ids) => Ok(ids),
        None => Ok(Vec::new()),
    }
}

} // verus!
