//! What holds of the registry over any run of commands.
//!
//! The laws are stated over the spec functions of [`crate::contract`], which
//! the executable operations are proved to follow.

use crate::contract::{
    answer, authorize, check_code_id, command_key_list, index_with, outcome,
    question_key_list, recorded, step, verified_index, write_effect, write_outcome,
};
use crate::encoding::{attestation_fits, ids_fit, text_fits, Attestation};
use crate::error::ContractError;
use crate::keys::{lemma_slot_key_injective, slot_fits, slot_key, Slot};
use crate::msg::{Command, QueryMsg};
use crate::state::{lemma_stored_round_trip, required, stored, CompilationResult};
use vstd::prelude::*;

verus! {

/// One command together with the identity that gave it.
pub struct Call {
    pub caller: Seq<char>,
    pub command: Command,
}

/// The store after a run of calls, each carried out or rejected in its turn.
pub open spec fn run(m: Map<Seq<u8>, Seq<u8>>, calls: Seq<Call>) -> Map<Seq<u8>, Seq<u8>>
    decreases calls.len(),
{
    if calls.len() == 0 {
        m
    } else {
        step(run(m, calls.drop_last()), calls.last().caller, calls.last().command)
    }
}

/// The texts of a command can be written.
pub open spec fn command_fits(command: Command) -> bool {
    match command {
        Command::SetAdmin { admin } => text_fits(admin),
        Command::WriteResult { attestation } => attestation_fits(attestation),
    }
}

/// The code id is on record as verified.
pub open spec fn is_verified(m: Map<Seq<u8>, Seq<u8>>, code_id: u32) -> bool {
    stored::<bool>(m, slot_key(Slot::Status(code_id))) == Ok::<Option<bool>, ContractError>(
        Some(true),
    )
}

/// The attempt is on record as failed.
pub open spec fn is_failed_attempt(
    m: Map<Seq<u8>, Seq<u8>>,
    code_id: u32,
    repo: Seq<char>,
    commit_hash: Seq<char>,
) -> bool {
    stored::<CompilationResult>(m, slot_key(Slot::Attempt(code_id, repo, commit_hash)))
        matches Ok(Some(prior)) && !prior.verified
}

/// A status flag is on record for the code id, set or not.
pub open spec fn has_status(m: Map<Seq<u8>, Seq<u8>>, code_id: u32) -> bool {
    stored::<bool>(m, slot_key(Slot::Status(code_id))) matches Ok(Some(_))
}

/// The slot of the attempt that an attestation belongs to.
pub open spec fn attempt_of(a: Attestation) -> Slot {
    Slot::Attempt(a.code_id, a.repo, a.commit_hash)
}

/// An accepted attestation leaves every slot but its own four as it was.
pub proof fn lemma_write_effect_elsewhere(m: Map<Seq<u8>, Seq<u8>>, a: Attestation, slot: Slot)
    requires
        slot != attempt_of(a),
        slot != Slot::Status(a.code_id),
        slot != Slot::Canonical(a.code_id),
        slot != Slot::VerifiedIndex,
        slot is Attempt ==> slot_fits(slot) && slot_fits(attempt_of(a)),
    ensures
        write_effect(m, a).contains_key(slot_key(slot)) == m.contains_key(slot_key(slot)),
        write_effect(m, a)[slot_key(slot)] == m[slot_key(slot)],
{
    if slot_key(slot) == slot_key(attempt_of(a)) {
        lemma_slot_key_injective(slot, attempt_of(a));
    }
    if slot_key(slot) == slot_key(Slot::Status(a.code_id)) {
        lemma_slot_key_injective(slot, Slot::Status(a.code_id));
    }
    if slot_key(slot) == slot_key(Slot::Canonical(a.code_id)) {
        lemma_slot_key_injective(slot, Slot::Canonical(a.code_id));
    }
    if slot_key(slot) == slot_key(Slot::VerifiedIndex) {
        lemma_slot_key_injective(slot, Slot::VerifiedIndex);
    }
}

/// What an accepted attestation leaves in its own slots.
pub proof fn lemma_write_effect_reads(m: Map<Seq<u8>, Seq<u8>>, a: Attestation)
    requires
        attestation_fits(a),
    ensures
        stored::<CompilationResult>(write_effect(m, a), slot_key(attempt_of(a))) == Ok::<
            Option<Attestation>,
            ContractError,
        >(Some(a)),
        stored::<bool>(write_effect(m, a), slot_key(Slot::Status(a.code_id))) == Ok::<
            Option<bool>,
            ContractError,
        >(Some(a.verified)),
        a.verified ==> stored::<CompilationResult>(
            write_effect(m, a),
            slot_key(Slot::Canonical(a.code_id)),
        ) == Ok::<Option<Attestation>, ContractError>(Some(a)),
        !a.verified ==> write_effect(m, a).contains_key(slot_key(Slot::Canonical(a.code_id)))
            == m.contains_key(slot_key(Slot::Canonical(a.code_id))) && write_effect(
            m,
            a,
        )[slot_key(Slot::Canonical(a.code_id))] == m[slot_key(Slot::Canonical(a.code_id))],
        !a.verified ==> write_effect(m, a).contains_key(slot_key(Slot::VerifiedIndex))
            == m.contains_key(slot_key(Slot::VerifiedIndex)) && write_effect(m, a)[slot_key(
            Slot::VerifiedIndex,
        )] == m[slot_key(Slot::VerifiedIndex)],
        a.verified && verified_index(m) is Ok && ids_fit(
            index_with(verified_index(m).unwrap(), a.code_id),
        ) ==> verified_index(write_effect(m, a)) == Ok::<Seq<u32>, ContractError>(
            index_with(verified_index(m).unwrap(), a.code_id),
        ),
{
    let attempt = slot_key(attempt_of(a));
    let status = slot_key(Slot::Status(a.code_id));
    let canonical = slot_key(Slot::Canonical(a.code_id));
    let index = slot_key(Slot::VerifiedIndex);
    if attempt == status {
        lemma_slot_key_injective(attempt_of(a), Slot::Status(a.code_id));
    }
    if attempt == canonical {
        lemma_slot_key_injective(attempt_of(a), Slot::Canonical(a.code_id));
    }
    if attempt == index {
        lemma_slot_key_injective(attempt_of(a), Slot::VerifiedIndex);
    }
    if status == canonical {
        lemma_slot_key_injective(Slot::Status(a.code_id), Slot::Canonical(a.code_id));
    }
    if status == index {
        lemma_slot_key_injective(Slot::Status(a.code_id), Slot::VerifiedIndex);
    }
    if canonical == index {
        lemma_slot_key_injective(Slot::Canonical(a.code_id), Slot::VerifiedIndex);
    }
    lemma_stored_round_trip::<CompilationResult>(a);
    lemma_stored_round_trip::<bool>(a.verified);
    if a.verified && verified_index(m) is Ok {
        let ids = index_with(verified_index(m).unwrap(), a.code_id);
        if ids_fit(ids) {
            lemma_stored_round_trip::<Vec<u32>>(ids);
        }
    }
}

/// An accepted attestation can be read back in every place where it was put.
pub proof fn law_accepted_attestation_is_recorded(
    m: Map<Seq<u8>, Seq<u8>>,
    caller: Seq<char>,
    a: Attestation,
)
    requires
        attestation_fits(a),
        write_outcome(m, caller, a) is Ok,
        a.verified ==> ids_fit(index_with(verified_index(m).unwrap(), a.code_id)),
    ensures
        recorded(m, write_effect(m, a), a),
{
    lemma_write_effect_reads(m, a);
    lemma_write_effect_elsewhere(m, a, Slot::Admin);
}

/// **Verified means served.** Once an attestation with `verified` set is
/// accepted, a query for its code id answers with that attestation.
pub proof fn law_verified_result_is_served(
    m: Map<Seq<u8>, Seq<u8>>,
    caller: Seq<char>,
    a: Attestation,
)
    requires
        attestation_fits(a),
        a.verified,
        write_outcome(m, caller, a) is Ok,
    ensures
        check_code_id(step(m, caller, Command::WriteResult { attestation: a }), a.code_id) == Ok::<
            Attestation,
            ContractError,
        >(a),
{
    lemma_write_effect_reads(m, a);
}

/// A code id that is verified stays verified, whatever command comes next and
/// whoever gives it.
pub proof fn law_verified_persists(
    m: Map<Seq<u8>, Seq<u8>>,
    code_id: u32,
    caller: Seq<char>,
    command: Command,
)
    requires
        is_verified(m, code_id),
    ensures
        is_verified(step(m, caller, command), code_id),
{
    match command {
        Command::SetAdmin { admin } => {
            if slot_key(Slot::Status(code_id)) == slot_key(Slot::Admin) {
                lemma_slot_key_injective(Slot::Status(code_id), Slot::Admin);
            }
        },
        Command::WriteResult { attestation } => {
            if outcome(m, caller, command) is Ok {
                assert(attestation.code_id != code_id);
                lemma_write_effect_elsewhere(m, attestation, Slot::Status(code_id));
            }
        },
    }
}

/// A code id that is verified stays verified over any run of calls.
pub proof fn law_verified_persists_over_runs(
    m: Map<Seq<u8>, Seq<u8>>,
    code_id: u32,
    calls: Seq<Call>,
)
    requires
        is_verified(m, code_id),
    ensures
        is_verified(run(m, calls), code_id),
    decreases calls.len(),
{
    if calls.len() > 0 {
        law_verified_persists_over_runs(m, code_id, calls.drop_last());
        law_verified_persists(
            run(m, calls.drop_last()),
            code_id,
            calls.last().caller,
            calls.last().command,
        );
    }
}

/// **Idempotent-success lock.** Once an attestation with `verified` set was
/// accepted for a code id, every later attestation for that code id is
/// rejected, whatever its repository, commit, method and flag, whatever
/// happened in between and whoever submits it. From a caller that passes the
/// admin gate the rejection is `AlreadyVerified`.
pub proof fn law_idempotent_success_lock(
    m: Map<Seq<u8>, Seq<u8>>,
    caller: Seq<char>,
    a: Attestation,
    between: Seq<Call>,
    later_caller: Seq<char>,
    later: Attestation,
)
    requires
        a.verified,
        write_outcome(m, caller, a) is Ok,
        later.code_id == a.code_id,
    ensures
        write_outcome(run(write_effect(m, a), between), later_caller, later) is Err,
        authorize(run(write_effect(m, a), between), later_caller) is Ok ==> write_outcome(
            run(write_effect(m, a), between),
            later_caller,
            later,
        ) == Err::<(), ContractError>(ContractError::AlreadyVerified),
{
    let m1 = write_effect(m, a);
    assert(is_verified(m1, a.code_id)) by {
        let status = slot_key(Slot::Status(a.code_id));
        if status == slot_key(Slot::Canonical(a.code_id)) {
            lemma_slot_key_injective(Slot::Status(a.code_id), Slot::Canonical(a.code_id));
        }
        if status == slot_key(Slot::VerifiedIndex) {
            lemma_slot_key_injective(Slot::Status(a.code_id), Slot::VerifiedIndex);
        }
        lemma_stored_round_trip::<bool>(true);
    }
    law_verified_persists_over_runs(m1, a.code_id, between);
}

/// An attempt that is on record as failed stays so, whatever command comes next.
pub proof fn law_failed_attempt_persists(
    m: Map<Seq<u8>, Seq<u8>>,
    code_id: u32,
    repo: Seq<char>,
    commit_hash: Seq<char>,
    caller: Seq<char>,
    command: Command,
)
    requires
        text_fits(repo),
        text_fits(commit_hash),
        command_fits(command),
        is_failed_attempt(m, code_id, repo, commit_hash),
    ensures
        is_failed_attempt(step(m, caller, command), code_id, repo, commit_hash),
{
    let slot = Slot::Attempt(code_id, repo, commit_hash);
    match command {
        Command::SetAdmin { admin } => {
            if slot_key(slot) == slot_key(Slot::Admin) {
                lemma_slot_key_injective(slot, Slot::Admin);
            }
        },
        Command::WriteResult { attestation } => {
            if outcome(m, caller, command) is Ok {
                assert(attempt_of(attestation) != slot);
                lemma_write_effect_elsewhere(m, attestation, slot);
            }
        },
    }
}

/// An attempt that is on record as failed stays so over any run of calls.
pub proof fn law_failed_attempt_persists_over_runs(
    m: Map<Seq<u8>, Seq<u8>>,
    code_id: u32,
    repo: Seq<char>,
    commit_hash: Seq<char>,
    calls: Seq<Call>,
)
    requires
        text_fits(repo),
        text_fits(commit_hash),
        forall|i: int| 0 <= i < calls.len() ==> command_fits(#[trigger] calls[i].command),
        is_failed_attempt(m, code_id, repo, commit_hash),
    ensures
        is_failed_attempt(run(m, calls), code_id, repo, commit_hash),
    decreases calls.len(),
{
    if calls.len() > 0 {
        let before = calls.drop_last();
        assert forall|i: int| 0 <= i < before.len() implies command_fits(
            #[trigger] before[i].command,
        ) by {
            assert(before[i] == calls[i]);
        }
        law_failed_attempt_persists_over_runs(m, code_id, repo, commit_hash, before);
        law_failed_attempt_persists(
            run(m, before),
            code_id,
            repo,
            commit_hash,
            calls.last().caller,
            calls.last().command,
        );
    }
}

/// A code id that has a status keeps one, whatever command comes next.
pub proof fn law_status_persists(
    m: Map<Seq<u8>, Seq<u8>>,
    code_id: u32,
    caller: Seq<char>,
    command: Command,
)
    requires
        command_fits(command),
        has_status(m, code_id),
    ensures
        has_status(step(m, caller, command), code_id),
{
    match command {
        Command::SetAdmin { admin } => {
            if slot_key(Slot::Status(code_id)) == slot_key(Slot::Admin) {
                lemma_slot_key_injective(Slot::Status(code_id), Slot::Admin);
            }
        },
        Command::WriteResult { attestation } => {
            if outcome(m, caller, command) is Ok {
                if attestation.code_id == code_id {
                    lemma_write_effect_reads(m, attestation);
                } else {
                    lemma_write_effect_elsewhere(m, attestation, Slot::Status(code_id));
                }
            }
        },
    }
}

/// A code id that has a status keeps one over any run of calls.
pub proof fn law_status_persists_over_runs(
    m: Map<Seq<u8>, Seq<u8>>,
    code_id: u32,
    calls: Seq<Call>,
)
    requires
        forall|i: int| 0 <= i < calls.len() ==> command_fits(#[trigger] calls[i].command),
        has_status(m, code_id),
    ensures
        has_status(run(m, calls), code_id),
    decreases calls.len(),
{
    if calls.len() > 0 {
        let before = calls.drop_last();
        assert forall|i: int| 0 <= i < before.len() implies command_fits(
            #[trigger] before[i].command,
        ) by {
            assert(before[i] == calls[i]);
        }
        law_status_persists_over_runs(m, code_id, before);
        law_status_persists(run(m, before), code_id, calls.last().caller, calls.last().command);
    }
}

/// **Same-attempt lock.** Once an attestation without success was accepted,
/// every later attestation for the same code id, repository and commit is
/// rejected, whatever its method and flag, whatever happened in between and
/// whoever submits it. From a caller that passes the admin gate the rejection
/// is `AlreadyAttemptedFailed`, or `AlreadyVerified` where the code id was
/// verified through another attempt in between.
pub proof fn law_same_attempt_lock(
    m: Map<Seq<u8>, Seq<u8>>,
    caller: Seq<char>,
    a: Attestation,
    between: Seq<Call>,
    later_caller: Seq<char>,
    later: Attestation,
)
    requires
        attestation_fits(a),
        forall|i: int| 0 <= i < between.len() ==> command_fits(#[trigger] between[i].command),
        !a.verified,
        write_outcome(m, caller, a) is Ok,
        later.code_id == a.code_id,
        later.repo == a.repo,
        later.commit_hash == a.commit_hash,
    ensures
        write_outcome(run(write_effect(m, a), between), later_caller, later) is Err,
        authorize(run(write_effect(m, a), between), later_caller) is Ok ==> {
            let rejection = write_outcome(run(write_effect(m, a), between), later_caller, later);
            if is_verified(run(write_effect(m, a), between), a.code_id) {
                rejection == Err::<(), ContractError>(ContractError::AlreadyVerified)
            } else {
                rejection == Err::<(), ContractError>(ContractError::AlreadyAttemptedFailed)
            }
        },
{
    let m1 = write_effect(m, a);
    lemma_write_effect_reads(m, a);
    assert(is_failed_attempt(m1, a.code_id, a.repo, a.commit_hash));
    law_failed_attempt_persists_over_runs(m1, a.code_id, a.repo, a.commit_hash, between);
    law_status_persists_over_runs(m1, a.code_id, between);
}

/// **Distinct-attempt permission.** An attestation without success does not
/// stand in the way of another attempt for the same code id: an attestation
/// for another repository or commit is judged after it exactly as it would
/// have been judged before it.
pub proof fn law_distinct_attempt_permitted(
    m: Map<Seq<u8>, Seq<u8>>,
    caller: Seq<char>,
    a: Attestation,
    other: Attestation,
)
    requires
        attestation_fits(a),
        attestation_fits(other),
        !a.verified,
        write_outcome(m, caller, a) is Ok,
        other.code_id == a.code_id,
        other.repo != a.repo || other.commit_hash != a.commit_hash,
    ensures
        write_outcome(write_effect(m, a), caller, other) == write_outcome(m, caller, other),
{
    lemma_write_effect_reads(m, a);
    lemma_write_effect_elsewhere(m, a, Slot::Admin);
    lemma_write_effect_elsewhere(m, a, attempt_of(other));
}

/// **Admin gating.** A command from anyone but the admin on record is rejected
/// as `Unauthorized` and leaves the store as it was.
pub proof fn law_admin_gate(
    m: Map<Seq<u8>, Seq<u8>>,
    admin: Seq<char>,
    caller: Seq<char>,
    command: Command,
)
    requires
        required::<String>(m, slot_key(Slot::Admin)) == Ok::<Seq<char>, ContractError>(admin),
        caller != admin,
    ensures
        outcome(m, caller, command) == Err::<(), ContractError>(ContractError::Unauthorized),
        step(m, caller, command) == m,
{
}

/// A rejected command leaves the store as it was, whatever the reason.
pub proof fn law_rejection_changes_nothing(
    m: Map<Seq<u8>, Seq<u8>>,
    caller: Seq<char>,
    command: Command,
)
    requires
        outcome(m, caller, command) is Err,
    ensures
        step(m, caller, command) == m,
{
}

/// **Admin rotation.** The admin can hand its role on. From then on every
/// command of the former admin is rejected as `Unauthorized`, and the new
/// admin is the one let through: it can hand the role on itself, and its
/// attestations are judged on their merits.
pub proof fn law_admin_rotation(
    m: Map<Seq<u8>, Seq<u8>>,
    current: Seq<char>,
    new_admin: Seq<char>,
    command: Command,
)
    requires
        text_fits(new_admin),
        required::<String>(m, slot_key(Slot::Admin)) == Ok::<Seq<char>, ContractError>(current),
        new_admin != current,
    ensures
        outcome(m, current, Command::SetAdmin { admin: new_admin }) is Ok,
        ({
            let rotated = step(m, current, Command::SetAdmin { admin: new_admin });
            &&& required::<String>(rotated, slot_key(Slot::Admin)) == Ok::<
                Seq<char>,
                ContractError,
            >(new_admin)
            &&& outcome(rotated, current, command) == Err::<(), ContractError>(
                ContractError::Unauthorized,
            )
            &&& authorize(rotated, new_admin) is Ok
            &&& command is SetAdmin ==> outcome(rotated, new_admin, command) is Ok
            &&& outcome(rotated, new_admin, command) != Err::<(), ContractError>(
                ContractError::Unauthorized,
            )
        }),
{
    lemma_stored_round_trip::<String>(new_admin);
}

/// Two stores hold the same under each of the keys.
pub open spec fn agree_on(
    m1: Map<Seq<u8>, Seq<u8>>,
    m2: Map<Seq<u8>, Seq<u8>>,
    keys: Seq<Seq<u8>>,
) -> bool {
    forall|i: int|
        0 <= i < keys.len() ==> {
            &&& m1.contains_key(#[trigger] keys[i]) == m2.contains_key(keys[i])
            &&& m1.contains_key(keys[i]) ==> m1[keys[i]] == m2[keys[i]]
        }
}

/// A command is judged by what the store holds under the command's own keys,
/// writes under those keys only, and writes there what it would have written
/// to any other store that holds the same under them.
pub proof fn law_commands_are_local(
    m1: Map<Seq<u8>, Seq<u8>>,
    m2: Map<Seq<u8>, Seq<u8>>,
    caller: Seq<char>,
    command: Command,
)
    requires
        agree_on(m1, m2, command_key_list(command)),
    ensures
        outcome(m1, caller, command) == outcome(m2, caller, command),
        agree_on(step(m1, caller, command), step(m2, caller, command), command_key_list(command)),
        forall|key: Seq<u8>|
            !command_key_list(command).contains(key) ==> {
                &&& #[trigger] step(m1, caller, command).contains_key(key) == m1.contains_key(key)
                &&& step(m1, caller, command)[key] == m1[key]
            },
{
    let keys = command_key_list(command);
    assert forall|i: int| 0 <= i < keys.len() implies keys.contains(#[trigger] keys[i]) by {}
    match command {
        Command::SetAdmin { admin } => {
            assert(keys[0] == slot_key(Slot::Admin));
        },
        Command::WriteResult { attestation } => {
            assert(keys[0] == slot_key(Slot::Admin));
            assert(keys[1] == slot_key(Slot::Status(attestation.code_id)));
            assert(keys[2] == slot_key(attempt_of(attestation)));
            assert(keys[3] == slot_key(Slot::Canonical(attestation.code_id)));
            assert(keys[4] == slot_key(Slot::VerifiedIndex));
        },
    }
}

/// A question is answered from what the store holds under the question's own keys.
pub proof fn law_questions_are_local(
    m1: Map<Seq<u8>, Seq<u8>>,
    m2: Map<Seq<u8>, Seq<u8>>,
    question: QueryMsg,
)
    requires
        agree_on(m1, m2, question_key_list(question)),
    ensures
        answer(m1, question) == answer(m2, question),
{
    let keys = question_key_list(question);
    match question {
        QueryMsg::CheckCodeId { code_id } => {
            assert(keys[0] == slot_key(Slot::Status(code_id)));
            assert(keys[1] == slot_key(Slot::Canonical(code_id)));
        },
        QueryMsg::CheckAllVerified {  } => {
            assert(keys[0] == slot_key(Slot::VerifiedIndex));
        },
    }
}

} // verus!
