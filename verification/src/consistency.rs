//! The shape of a store that the registry has written, and what follows from it.
//!
//! A store is well formed when it holds an admin, when every value in it can be
//! read as what its slot is meant to hold, and when status flags, canonical
//! results, attempts and the verified index agree with one another. Setting the
//! registry up on an empty store makes a well-formed store, and every command
//! keeps it so. On a well-formed store no operation fails for want of a
//! record or on a record it cannot read.

use crate::contract::{
    authorize, check_code_id, index_with, outcome, step, verified_index, with_admin,
    write_effect, write_outcome,
};
use crate::encoding::{attestation_fits, text_fits, Attestation};
use crate::error::ContractError;
use crate::keys::{lemma_slot_key_injective, slot_key, Slot};
use crate::laws::{
    attempt_of, command_fits, has_status, is_verified, lemma_write_effect_elsewhere,
    lemma_write_effect_reads, run, Call,
};
use crate::msg::Command;
use crate::state::{lemma_stored_round_trip, required, stored, CompilationResult};
use vstd::prelude::*;
use vstd::set_lib::{lemma_len_subset, FiniteFull, FiniteRange};

verus! {

/// The status of a code id, where there is one, can be read.
pub open spec fn status_readable(m: Map<Seq<u8>, Seq<u8>>, code_id: u32) -> bool {
    stored::<bool>(m, slot_key(Slot::Status(code_id))) is Ok
}

/// A verified code id has its canonical result: an attestation for that code
/// id with `verified` set.
pub open spec fn canonical_agrees(m: Map<Seq<u8>, Seq<u8>>, code_id: u32) -> bool {
    is_verified(m, code_id) ==> {
        &&& check_code_id(m, code_id) matches Ok(a)
        &&& a.code_id == code_id
        &&& a.verified
    }
}

/// The verified index lists a code id exactly when it is verified.
pub open spec fn index_agrees(m: Map<Seq<u8>, Seq<u8>>, code_id: u32) -> bool {
    verified_index(m) matches Ok(ids) && (ids.contains(code_id) <==> is_verified(m, code_id))
}

/// An attempt on record can be read, is filed under its own code id,
/// repository and commit, and its code id has a status, which is set where
/// the attempt succeeded.
pub open spec fn attempt_agrees(
    m: Map<Seq<u8>, Seq<u8>>,
    code_id: u32,
    repo: Seq<char>,
    commit_hash: Seq<char>,
) -> bool {
    match stored::<CompilationResult>(m, slot_key(Slot::Attempt(code_id, repo, commit_hash))) {
        Err(_) => false,
        Ok(None) => true,
        Ok(Some(a)) => {
            &&& a.code_id == code_id
            &&& a.repo == repo
            &&& a.commit_hash == commit_hash
            &&& has_status(m, code_id)
            &&& a.verified ==> is_verified(m, code_id)
        },
    }
}

/// The registry's invariant.
pub open spec fn well_formed(m: Map<Seq<u8>, Seq<u8>>) -> bool {
    &&& required::<String>(m, slot_key(Slot::Admin)) is Ok
    &&& verified_index(m) matches Ok(ids) && ids.no_duplicates()
    &&& forall|code_id: u32| #[trigger] status_readable(m, code_id)
    &&& forall|code_id: u32| #[trigger] canonical_agrees(m, code_id)
    &&& forall|code_id: u32| #[trigger] index_agrees(m, code_id)
    &&& forall|code_id: u32, repo: Seq<char>, commit_hash: Seq<char>|
        text_fits(repo) && text_fits(commit_hash) ==> #[trigger] attempt_agrees(
            m,
            code_id,
            repo,
            commit_hash,
        )
}

/// A list of code ids without repetition has at most as many entries as there are code ids.
pub proof fn lemma_distinct_ids_bounded(ids: Seq<u32>)
    requires
        ids.no_duplicates(),
    ensures
        ids.len() <= 0x1_0000_0000,
{
    ids.unique_seq_to_set();
    let all = Set::<u32>::full();
    u32::full_properties();
    u32::range_properties(u32::MIN, u32::MAX);
    assert(all =~= Set::<u32>::range_inclusive(u32::MIN, u32::MAX));
    assert(all.len() <= 0x1_0000_0000);
    lemma_len_subset(ids.to_set(), all);
}

/// Setting the registry up on an empty store makes a well-formed store.
pub proof fn law_set_up_is_well_formed(sender: Seq<char>)
    requires
        text_fits(sender),
    ensures
        well_formed(with_admin(Map::empty(), sender)),
{
    let m = with_admin(Map::<Seq<u8>, Seq<u8>>::empty(), sender);
    lemma_stored_round_trip::<String>(sender);
    if slot_key(Slot::VerifiedIndex) == slot_key(Slot::Admin) {
        lemma_slot_key_injective(Slot::VerifiedIndex, Slot::Admin);
    }
    assert(verified_index(m) == Ok::<Seq<u32>, ContractError>(Seq::empty()));
    assert forall|code_id: u32|
        #![trigger status_readable(m, code_id)]
        #![trigger canonical_agrees(m, code_id)]
        #![trigger index_agrees(m, code_id)]
        status_readable(m, code_id) && canonical_agrees(m, code_id) && index_agrees(
            m,
            code_id,
        ) by {
        if slot_key(Slot::Status(code_id)) == slot_key(Slot::Admin) {
            lemma_slot_key_injective(Slot::Status(code_id), Slot::Admin);
        }
    }
    assert forall|code_id: u32, repo: Seq<char>, commit_hash: Seq<char>|
        text_fits(repo) && text_fits(commit_hash) implies #[trigger] attempt_agrees(
        m,
        code_id,
        repo,
        commit_hash,
    ) by {
        let slot = Slot::Attempt(code_id, repo, commit_hash);
        if slot_key(slot) == slot_key(Slot::Admin) {
            lemma_slot_key_injective(slot, Slot::Admin);
        }
    }
}

/// Handing the admin role on keeps a well-formed store well formed.
pub proof fn law_rotation_keeps_well_formed(m: Map<Seq<u8>, Seq<u8>>, admin: Seq<char>)
    requires
        well_formed(m),
        text_fits(admin),
    ensures
        well_formed(with_admin(m, admin)),
{
    let m1 = with_admin(m, admin);
    lemma_stored_round_trip::<String>(admin);
    lemma_rotation_elsewhere(m, admin, Slot::VerifiedIndex);
    assert forall|code_id: u32|
        #![trigger status_readable(m1, code_id)]
        #![trigger canonical_agrees(m1, code_id)]
        #![trigger index_agrees(m1, code_id)]
        status_readable(m1, code_id) && canonical_agrees(m1, code_id) && index_agrees(
            m1,
            code_id,
        ) by {
        lemma_rotation_elsewhere(m, admin, Slot::Status(code_id));
        lemma_rotation_elsewhere(m, admin, Slot::Canonical(code_id));
        assert(status_readable(m, code_id));
        assert(canonical_agrees(m, code_id));
        assert(index_agrees(m, code_id));
    }
    assert forall|code_id: u32, repo: Seq<char>, commit_hash: Seq<char>|
        text_fits(repo) && text_fits(commit_hash) implies #[trigger] attempt_agrees(
        m1,
        code_id,
        repo,
        commit_hash,
    ) by {
        lemma_rotation_elsewhere(m, admin, Slot::Attempt(code_id, repo, commit_hash));
        lemma_rotation_elsewhere(m, admin, Slot::Status(code_id));
        assert(attempt_agrees(m, code_id, repo, commit_hash));
    }
}

/// Handing the admin role on leaves every slot but the admin's as it was.
proof fn lemma_rotation_elsewhere(m: Map<Seq<u8>, Seq<u8>>, admin: Seq<char>, slot: Slot)
    requires
        slot != Slot::Admin,
    ensures
        with_admin(m, admin).contains_key(slot_key(slot)) == m.contains_key(slot_key(slot)),
        with_admin(m, admin)[slot_key(slot)] == m[slot_key(slot)],
{
    if slot_key(slot) == slot_key(Slot::Admin) {
        lemma_slot_key_injective(slot, Slot::Admin);
    }
}

/// An accepted attestation keeps a well-formed store well formed.
pub proof fn law_write_keeps_well_formed(
    m: Map<Seq<u8>, Seq<u8>>,
    caller: Seq<char>,
    a: Attestation,
)
    requires
        well_formed(m),
        attestation_fits(a),
        write_outcome(m, caller, a) is Ok,
    ensures
        well_formed(write_effect(m, a)),
{
    let m1 = write_effect(m, a);
    let ids = verified_index(m).unwrap();
    let ids1 = index_with(ids, a.code_id);
    lemma_distinct_ids_bounded(ids);
    lemma_write_effect_reads(m, a);
    lemma_write_effect_elsewhere(m, a, Slot::Admin);
    assert(index_agrees(m, a.code_id));
    assert(!ids.contains(a.code_id));
    assert(verified_index(m1) == Ok::<Seq<u32>, ContractError>(if a.verified {
        ids1
    } else {
        ids
    }));
    if a.verified {
        assert(ids1 == ids.push(a.code_id));
        assert(ids1.no_duplicates());
    }
    assert forall|code_id: u32|
        #![trigger status_readable(m1, code_id)]
        #![trigger canonical_agrees(m1, code_id)]
        #![trigger index_agrees(m1, code_id)]
        status_readable(m1, code_id) && canonical_agrees(m1, code_id) && index_agrees(
            m1,
            code_id,
        ) by {
        assert(status_readable(m, code_id));
        assert(canonical_agrees(m, code_id));
        assert(index_agrees(m, code_id));
        if code_id != a.code_id {
            lemma_write_effect_elsewhere(m, a, Slot::Status(code_id));
            lemma_write_effect_elsewhere(m, a, Slot::Canonical(code_id));
            if a.verified {
                assert(ids1.contains(code_id) <==> ids.contains(code_id)) by {
                    if ids.contains(code_id) {
                        let i = choose|i: int| 0 <= i < ids.len() && ids[i] == code_id;
                        assert(ids1[i] == code_id);
                    }
                }
            }
        } else {
            if a.verified {
                assert(ids1[ids.len() as int] == code_id);
            }
        }
    }
    assert forall|code_id: u32, repo: Seq<char>, commit_hash: Seq<char>|
        text_fits(repo) && text_fits(commit_hash) implies #[trigger] attempt_agrees(
        m1,
        code_id,
        repo,
        commit_hash,
    ) by {
        let slot = Slot::Attempt(code_id, repo, commit_hash);
        assert(attempt_agrees(m, code_id, repo, commit_hash));
        assert(status_readable(m, code_id));
        if slot != attempt_of(a) {
            lemma_write_effect_elsewhere(m, a, slot);
            if code_id != a.code_id {
                lemma_write_effect_elsewhere(m, a, Slot::Status(code_id));
            }
        }
    }
}

/// Every command keeps a well-formed store well formed, accepted or not.
pub proof fn law_step_keeps_well_formed(
    m: Map<Seq<u8>, Seq<u8>>,
    caller: Seq<char>,
    command: Command,
)
    requires
        well_formed(m),
        command_fits(command),
    ensures
        well_formed(step(m, caller, command)),
{
    if outcome(m, caller, command) is Ok {
        match command {
            Command::SetAdmin { admin } => {
                law_rotation_keeps_well_formed(m, admin);
            },
            Command::WriteResult { attestation } => {
                law_write_keeps_well_formed(m, caller, attestation);
            },
        }
    }
}

/// Every run of calls keeps a well-formed store well formed.
pub proof fn law_run_keeps_well_formed(m: Map<Seq<u8>, Seq<u8>>, calls: Seq<Call>)
    requires
        well_formed(m),
        forall|i: int| 0 <= i < calls.len() ==> command_fits(#[trigger] calls[i].command),
    ensures
        well_formed(run(m, calls)),
    decreases calls.len(),
{
    if calls.len() > 0 {
        let before = calls.drop_last();
        assert forall|i: int| 0 <= i < before.len() implies command_fits(
            #[trigger] before[i].command,
        ) by {
            assert(before[i] == calls[i]);
        }
        law_run_keeps_well_formed(m, before);
        law_step_keeps_well_formed(run(m, before), calls.last().caller, calls.last().command);
    }
}

/// On a well-formed store an attestation is judged by three questions alone:
/// is the caller the admin, is the code id verified already, and is this
/// attempt on record. No other rejection occurs.
pub proof fn law_well_formed_write_outcome(
    m: Map<Seq<u8>, Seq<u8>>,
    caller: Seq<char>,
    a: Attestation,
)
    requires
        well_formed(m),
        attestation_fits(a),
    ensures
        write_outcome(m, caller, a) == if authorize(m, caller) is Err {
            Err::<(), ContractError>(ContractError::Unauthorized)
        } else if is_verified(m, a.code_id) {
            Err::<(), ContractError>(ContractError::AlreadyVerified)
        } else if m.contains_key(slot_key(attempt_of(a))) {
            Err::<(), ContractError>(ContractError::AlreadyAttemptedFailed)
        } else {
            Ok::<(), ContractError>(())
        },
{
    assert(status_readable(m, a.code_id));
    assert(attempt_agrees(m, a.code_id, a.repo, a.commit_hash));
}

/// On a well-formed store a query for a code id answers with an attestation
/// for that code id exactly when the code id is verified, which is exactly
/// when the verified index lists it; otherwise the answer is `NotVerified`.
pub proof fn law_well_formed_queries(m: Map<Seq<u8>, Seq<u8>>, code_id: u32)
    requires
        well_formed(m),
    ensures
        verified_index(m) is Ok,
        verified_index(m).unwrap().contains(code_id) <==> is_verified(m, code_id),
        canonical_agrees(m, code_id),
        !is_verified(m, code_id) ==> check_code_id(m, code_id) == Err::<
            Attestation,
            ContractError,
        >(ContractError::NotVerified),
{
    assert(status_readable(m, code_id));
    assert(canonical_agrees(m, code_id));
    assert(index_agrees(m, code_id));
}

/// On a well-formed store an accepted successful attestation puts its code id
/// at the end of the verified index: the code id is not listed before.
pub proof fn law_success_appends_to_index(
    m: Map<Seq<u8>, Seq<u8>>,
    caller: Seq<char>,
    a: Attestation,
)
    requires
        well_formed(m),
        attestation_fits(a),
        a.verified,
        write_outcome(m, caller, a) is Ok,
    ensures
        verified_index(m) matches Ok(ids) && verified_index(write_effect(m, a)) == Ok::<
            Seq<u32>,
            ContractError,
        >(ids.push(a.code_id)),
{
    let ids = verified_index(m).unwrap();
    assert(index_agrees(m, a.code_id));
    lemma_distinct_ids_bounded(ids);
    lemma_write_effect_reads(m, a);
}

/// On a well-formed store in which no code id is verified, the list of
/// verified code ids is empty.
pub proof fn law_no_success_means_empty_index(m: Map<Seq<u8>, Seq<u8>>)
    requires
        well_formed(m),
        forall|code_id: u32| !is_verified(m, code_id),
    ensures
        verified_index(m) == Ok::<Seq<u32>, ContractError>(Seq::empty()),
{
    let ids = verified_index(m).unwrap();
    if ids.len() > 0 {
        assert(index_agrees(m, ids[0]));
        assert(ids.contains(ids[0]));
    }
    assert(ids =~= Seq::empty());
}

/// Where a code id stands.
pub enum CodeState {
    /// Nothing was accepted for the code id yet.
    Unattempted,
    /// Attestations were accepted for the code id, none of them successful.
    Failed,
    /// A successful attestation was accepted for the code id. This is final.
    Verified,
}

/// Where a code id stands, by its status flag.
pub open spec fn code_state(m: Map<Seq<u8>, Seq<u8>>, code_id: u32) -> CodeState {
    match stored::<bool>(m, slot_key(Slot::Status(code_id))) {
        Ok(Some(true)) => CodeState::Verified,
        Ok(Some(false)) => CodeState::Failed,
        _ => CodeState::Unattempted,
    }
}

/// How an attestation from the admin moves its code id, on a well-formed store.
///
/// A verified code id takes nothing more. Before that, an attempt that is on
/// record is rejected, which can only happen after a failure; any other
/// attempt is accepted and leaves the code id verified or failed as the
/// attestation says. No other code id moves.
pub proof fn law_code_state_transitions(
    m: Map<Seq<u8>, Seq<u8>>,
    caller: Seq<char>,
    a: Attestation,
    other: u32,
)
    requires
        well_formed(m),
        attestation_fits(a),
        authorize(m, caller) is Ok,
        other != a.code_id,
    ensures
        ({
            let verdict = write_outcome(m, caller, a);
            let after = step(m, caller, Command::WriteResult { attestation: a });
            let on_record = m.contains_key(slot_key(attempt_of(a)));
            &&& code_state(after, other) == code_state(m, other)
            &&& match code_state(m, a.code_id) {
                CodeState::Verified => {
                    &&& verdict == Err::<(), ContractError>(ContractError::AlreadyVerified)
                    &&& code_state(after, a.code_id) == CodeState::Verified
                },
                CodeState::Failed => if on_record {
                    &&& verdict == Err::<(), ContractError>(ContractError::AlreadyAttemptedFailed)
                    &&& code_state(after, a.code_id) == CodeState::Failed
                } else {
                    &&& verdict is Ok
                    &&& code_state(after, a.code_id) == if a.verified {
                        CodeState::Verified
                    } else {
                        CodeState::Failed
                    }
                },
                CodeState::Unattempted => {
                    &&& !on_record
                    &&& verdict is Ok
                    &&& code_state(after, a.code_id) == if a.verified {
                        CodeState::Verified
                    } else {
                        CodeState::Failed
                    }
                },
            }
        }),
{
    law_well_formed_write_outcome(m, caller, a);
    assert(status_readable(m, a.code_id));
    assert(attempt_agrees(m, a.code_id, a.repo, a.commit_hash));
    if write_outcome(m, caller, a) is Ok {
        lemma_write_effect_reads(m, a);
        lemma_write_effect_elsewhere(m, a, Slot::Status(other));
    }
}

} // verus!
