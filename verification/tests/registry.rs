use code_registry::contract::{
    check_admin, command_keys, execute, instantiate, query, query_check_all_verified,
    query_check_code_id, question_keys, try_set_admin, try_write_result,
};
use code_registry::error::ContractError;
use code_registry::msg::{ExecuteMsg, InstantiateMsg, QueryAnswer, QueryMsg};
use code_registry::state::CompilationResult;
use cosmwasm_std::{MemoryStorage, Order, Storage};

const ADMIN: &str = "admin";
const OTHER: &str = "mallory";

fn fresh() -> MemoryStorage {
    let mut storage = MemoryStorage::new();
    assert_eq!(instantiate(&mut storage, ADMIN, InstantiateMsg {}), Ok(()));
    storage
}

fn snapshot(storage: &MemoryStorage) -> Vec<(Vec<u8>, Vec<u8>)> {
    storage.range(None, None, Order::Ascending).collect()
}

fn write(
    storage: &mut MemoryStorage,
    sender: &str,
    code_id: u32,
    repo: &str,
    commit_hash: &str,
    method: &str,
    verified: bool,
) -> Result<(), ContractError> {
    try_write_result(
        storage,
        sender,
        code_id,
        repo.to_string(),
        commit_hash.to_string(),
        method.to_string(),
        verified,
    )
}

fn attestation(code_id: u32, repo: &str, commit_hash: &str, method: &str, verified: bool) -> CompilationResult {
    CompilationResult {
        code_id,
        repo: repo.to_string(),
        commit_hash: commit_hash.to_string(),
        method: method.to_string(),
        verified,
    }
}

#[test]
fn instantiate_records_the_sender_as_admin() {
    let storage = fresh();
    assert_eq!(
        snapshot(&storage),
        vec![(b"admin".to_vec(), vec![5, 0, 0, 0, 0, 0, 0, 0, b'a', b'd', b'm', b'i', b'n'])]
    );
    assert_eq!(check_admin(&storage, ADMIN), Ok(()));
    assert_eq!(check_admin(&storage, OTHER), Err(ContractError::Unauthorized));
}

#[test]
fn once_verified_every_later_write_is_rejected() {
    let mut storage = fresh();
    assert_eq!(write(&mut storage, ADMIN, 7, "r", "c", "m", true), Ok(()));
    let after = snapshot(&storage);
    let later = [
        ("r", "c", "m", true),
        ("r", "c", "m", false),
        ("r", "c", "other method", true),
        ("r", "c2", "m", true),
        ("r2", "c", "m", false),
        ("", "", "", false),
    ];
    for (repo, commit, method, verified) in later {
        assert_eq!(
            write(&mut storage, ADMIN, 7, repo, commit, method, verified),
            Err(ContractError::AlreadyVerified)
        );
        assert_eq!(snapshot(&storage), after);
    }
    // other code ids are not affected
    assert_eq!(write(&mut storage, ADMIN, 8, "r", "c", "m", false), Ok(()));
    assert_eq!(
        write(&mut storage, ADMIN, 7, "r", "c3", "m", true),
        Err(ContractError::AlreadyVerified)
    );
}

#[test]
fn same_attempt_is_locked_after_failure() {
    let mut storage = fresh();
    assert_eq!(write(&mut storage, ADMIN, 5, "r", "c", "m", false), Ok(()));
    let after = snapshot(&storage);
    assert_eq!(
        write(&mut storage, ADMIN, 5, "r", "c", "m2", true),
        Err(ContractError::AlreadyAttemptedFailed)
    );
    assert_eq!(
        write(&mut storage, ADMIN, 5, "r", "c", "m", false),
        Err(ContractError::AlreadyAttemptedFailed)
    );
    assert_eq!(snapshot(&storage), after);
    assert_eq!(query_check_code_id(&storage, 5), Err(ContractError::NotVerified));
}

#[test]
fn distinct_attempt_is_permitted_after_failure() {
    let mut storage = fresh();
    assert_eq!(write(&mut storage, ADMIN, 5, "r", "c1", "m", false), Ok(()));
    assert_eq!(query_check_code_id(&storage, 5), Err(ContractError::NotVerified));
    assert_eq!(write(&mut storage, ADMIN, 5, "r", "c2", "m2", true), Ok(()));
    assert_eq!(query_check_code_id(&storage, 5), Ok(attestation(5, "r", "c2", "m2", true)));
    assert_eq!(query_check_all_verified(&storage), Ok(vec![5]));
    // the failed attempt stays locked, now behind the lock of the code id
    assert_eq!(
        write(&mut storage, ADMIN, 5, "r", "c1", "m", true),
        Err(ContractError::AlreadyVerified)
    );
}

#[test]
fn failed_attempts_may_follow_one_another() {
    let mut storage = fresh();
    assert_eq!(write(&mut storage, ADMIN, 5, "r", "c1", "m", false), Ok(()));
    assert_eq!(write(&mut storage, ADMIN, 5, "r", "c2", "m", false), Ok(()));
    assert_eq!(write(&mut storage, ADMIN, 5, "r2", "c1", "m", false), Ok(()));
    assert_eq!(query_check_code_id(&storage, 5), Err(ContractError::NotVerified));
    assert_eq!(query_check_all_verified(&storage), Ok(vec![]));
    for (repo, commit) in [("r", "c1"), ("r", "c2"), ("r2", "c1")] {
        assert_eq!(
            write(&mut storage, ADMIN, 5, repo, commit, "m", true),
            Err(ContractError::AlreadyAttemptedFailed)
        );
    }
}

#[test]
fn attempts_whose_texts_hold_the_separators_do_not_collide() {
    let mut storage = fresh();
    assert_eq!(write(&mut storage, ADMIN, 5, "a#b", "c", "m", false), Ok(()));
    // joined with '#', both attempts would read "a#b#c"
    assert_eq!(write(&mut storage, ADMIN, 5, "a", "b#c", "m", true), Ok(()));
    assert_eq!(query_check_code_id(&storage, 5), Ok(attestation(5, "a", "b#c", "m", true)));

    let mut storage = fresh();
    assert_eq!(write(&mut storage, ADMIN, 1, "2 - x", "y", "m", false), Ok(()));
    assert_eq!(write(&mut storage, ADMIN, 1, "", "2 - x#y", "m", false), Ok(()));
    assert_eq!(write(&mut storage, ADMIN, 12, " - x", "y", "m", false), Ok(()));
}

#[test]
fn non_admin_commands_are_rejected_and_change_nothing() {
    let mut storage = fresh();
    assert_eq!(write(&mut storage, ADMIN, 1, "r", "c", "m", true), Ok(()));
    assert_eq!(write(&mut storage, ADMIN, 2, "r", "c", "m", false), Ok(()));
    let before = snapshot(&storage);

    assert_eq!(
        write(&mut storage, OTHER, 3, "r", "c", "m", true),
        Err(ContractError::Unauthorized)
    );
    assert_eq!(
        write(&mut storage, OTHER, 2, "r", "c", "m", true),
        Err(ContractError::Unauthorized)
    );
    assert_eq!(
        write(&mut storage, OTHER, 1, "r", "c", "m", true),
        Err(ContractError::Unauthorized)
    );
    assert_eq!(
        try_set_admin(&mut storage, OTHER, OTHER.to_string()),
        Err(ContractError::Unauthorized)
    );
    assert_eq!(
        execute(&mut storage, OTHER, ExecuteMsg::SetAdmin { admin: ADMIN.to_string() }),
        Err(ContractError::Unauthorized)
    );
    assert_eq!(
        execute(
            &mut storage,
            "",
            ExecuteMsg::WriteResult {
                code_id: 9,
                repo: "r".to_string(),
                commit_hash: "c".to_string(),
                method: "m".to_string(),
                verified: false,
            }
        ),
        Err(ContractError::Unauthorized)
    );
    assert_eq!(snapshot(&storage), before);
}

#[test]
fn queries_on_a_fresh_registry() {
    let storage = fresh();
    assert_eq!(query_check_code_id(&storage, 99), Err(ContractError::NotVerified));
    assert_eq!(query_check_all_verified(&storage), Ok(vec![]));
    assert_eq!(
        query(&storage, QueryMsg::CheckCodeId { code_id: 99 }),
        Err(ContractError::NotVerified)
    );
    assert_eq!(query(&storage, QueryMsg::CheckAllVerified {}), Ok(QueryAnswer::AllVerified(vec![])));
    // queries need no admin either
    let empty = MemoryStorage::new();
    assert_eq!(query_check_code_id(&empty, 0), Err(ContractError::NotVerified));
    assert_eq!(query_check_all_verified(&empty), Ok(vec![]));
}

#[test]
fn admin_rotation_moves_the_gate() {
    let mut storage = fresh();
    assert_eq!(
        execute(&mut storage, ADMIN, ExecuteMsg::SetAdmin { admin: "next".to_string() }),
        Ok(())
    );
    assert_eq!(check_admin(&storage, ADMIN), Err(ContractError::Unauthorized));
    assert_eq!(check_admin(&storage, "next"), Ok(()));
    assert_eq!(
        write(&mut storage, ADMIN, 1, "r", "c", "m", true),
        Err(ContractError::Unauthorized)
    );
    assert_eq!(
        try_set_admin(&mut storage, ADMIN, ADMIN.to_string()),
        Err(ContractError::Unauthorized)
    );
    assert_eq!(write(&mut storage, "next", 1, "r", "c", "m", true), Ok(()));
    assert_eq!(try_set_admin(&mut storage, "next", ADMIN.to_string()), Ok(()));
    assert_eq!(write(&mut storage, ADMIN, 2, "r", "c", "m", true), Ok(()));
    assert_eq!(query_check_all_verified(&storage), Ok(vec![1, 2]));
}

#[test]
fn rotation_to_oneself_keeps_the_role() {
    let mut storage = fresh();
    assert_eq!(try_set_admin(&mut storage, ADMIN, ADMIN.to_string()), Ok(()));
    assert_eq!(check_admin(&storage, ADMIN), Ok(()));
}

#[test]
fn commands_before_set_up_find_no_admin() {
    let mut storage = MemoryStorage::new();
    assert_eq!(check_admin(&storage, ADMIN), Err(ContractError::KeyAbsent));
    assert_eq!(
        write(&mut storage, ADMIN, 1, "r", "c", "m", true),
        Err(ContractError::KeyAbsent)
    );
    assert_eq!(
        try_set_admin(&mut storage, ADMIN, ADMIN.to_string()),
        Err(ContractError::KeyAbsent)
    );
    assert_eq!(snapshot(&storage), vec![]);
}

#[test]
fn a_successful_write_fills_four_slots() {
    let mut storage = fresh();
    assert_eq!(write(&mut storage, ADMIN, 5, "r", "c1", "", true), Ok(()));
    let record: Vec<u8> = vec![
        5, 0, 0, 0, //
        1, 0, 0, 0, 0, 0, 0, 0, b'r', //
        2, 0, 0, 0, 0, 0, 0, 0, b'c', b'1', //
        0, 0, 0, 0, 0, 0, 0, 0, //
        1,
    ];
    let mut attempt_key = b"specific_".to_vec();
    attempt_key.extend_from_slice(&[5, 0, 0, 0]);
    attempt_key.extend_from_slice(&[1, 0, 0, 0, 0, 0, 0, 0, b'r']);
    attempt_key.extend_from_slice(&[2, 0, 0, 0, 0, 0, 0, 0, b'c', b'1']);
    assert_eq!(storage.get(b"codeid_5"), Some(vec![1]));
    assert_eq!(storage.get(b"result_5"), Some(record.clone()));
    assert_eq!(storage.get(&attempt_key), Some(record));
    assert_eq!(storage.get(b"all_verified"), Some(vec![1, 0, 0, 0, 0, 0, 0, 0, 5, 0, 0, 0]));
    assert_eq!(snapshot(&storage).len(), 5);
}

#[test]
fn a_failed_write_fills_two_slots() {
    let mut storage = fresh();
    assert_eq!(write(&mut storage, ADMIN, 4294967295, "r", "c", "m", false), Ok(()));
    assert_eq!(storage.get(b"codeid_4294967295"), Some(vec![0]));
    assert_eq!(storage.get(b"result_4294967295"), None);
    assert_eq!(storage.get(b"all_verified"), None);
    assert_eq!(snapshot(&storage).len(), 3);
}

#[test]
fn verified_ids_are_listed_in_order_of_verification() {
    let mut storage = fresh();
    for code_id in [30u32, 10, 20] {
        assert_eq!(write(&mut storage, ADMIN, code_id, "r", "c", "m", true), Ok(()));
    }
    assert_eq!(write(&mut storage, ADMIN, 15, "r", "c", "m", false), Ok(()));
    assert_eq!(query_check_all_verified(&storage), Ok(vec![30, 10, 20]));
    assert_eq!(
        query(&storage, QueryMsg::CheckAllVerified {}),
        Ok(QueryAnswer::AllVerified(vec![30, 10, 20]))
    );
    assert_eq!(
        query(&storage, QueryMsg::CheckCodeId { code_id: 10 }),
        Ok(QueryAnswer::CodeId(attestation(10, "r", "c", "m", true)))
    );
    assert_eq!(
        query(&storage, QueryMsg::CheckCodeId { code_id: 15 }),
        Err(ContractError::NotVerified)
    );
}

#[test]
fn a_code_id_already_listed_is_not_listed_twice() {
    let mut storage = fresh();
    // a list left behind by someone else
    storage.set(b"all_verified", &[2, 0, 0, 0, 0, 0, 0, 0, 9, 0, 0, 0, 4, 0, 0, 0]);
    assert_eq!(write(&mut storage, ADMIN, 4, "r", "c", "m", true), Ok(()));
    assert_eq!(query_check_all_verified(&storage), Ok(vec![9, 4]));
    assert_eq!(write(&mut storage, ADMIN, 3, "r", "c", "m", true), Ok(()));
    assert_eq!(query_check_all_verified(&storage), Ok(vec![9, 4, 3]));
}

#[test]
fn unreadable_records_are_reported_and_nothing_is_written() {
    // the admin record
    let mut storage = MemoryStorage::new();
    storage.set(b"admin", &[1]);
    assert_eq!(check_admin(&storage, ADMIN), Err(ContractError::SerializationError));
    assert_eq!(
        write(&mut storage, ADMIN, 1, "r", "c", "m", true),
        Err(ContractError::SerializationError)
    );

    // the status flag
    let mut storage = fresh();
    storage.set(b"codeid_1", &[2]);
    let before = snapshot(&storage);
    assert_eq!(
        write(&mut storage, ADMIN, 1, "r", "c", "m", true),
        Err(ContractError::SerializationError)
    );
    assert_eq!(query_check_code_id(&storage, 1), Err(ContractError::SerializationError));
    assert_eq!(snapshot(&storage), before);

    // the attempt: a flag where an attestation belongs
    let mut storage = fresh();
    let keys = command_keys(&ExecuteMsg::WriteResult {
        code_id: 1,
        repo: "r".to_string(),
        commit_hash: "c".to_string(),
        method: "m".to_string(),
        verified: true,
    });
    storage.set(&keys[2], &[0]);
    let before = snapshot(&storage);
    assert_eq!(
        write(&mut storage, ADMIN, 1, "r", "c", "m", true),
        Err(ContractError::SerializationError)
    );
    assert_eq!(snapshot(&storage), before);

    // the verified index, which is read before anything is written
    let mut storage = fresh();
    storage.set(b"all_verified", &[1, 0, 0, 0, 0, 0, 0, 0, 9]);
    let before = snapshot(&storage);
    assert_eq!(
        write(&mut storage, ADMIN, 1, "r", "c", "m", true),
        Err(ContractError::SerializationError)
    );
    assert_eq!(snapshot(&storage), before);
    assert_eq!(query_check_all_verified(&storage), Err(ContractError::SerializationError));
    // an attestation without success does not need the index
    assert_eq!(write(&mut storage, ADMIN, 1, "r", "c", "m", false), Ok(()));
}

#[test]
fn a_status_without_its_result_is_reported() {
    let mut storage = fresh();
    storage.set(b"codeid_1", &[1]);
    assert_eq!(query_check_code_id(&storage, 1), Err(ContractError::KeyAbsent));
    storage.set(b"result_1", &[1]);
    assert_eq!(query_check_code_id(&storage, 1), Err(ContractError::SerializationError));
}

#[test]
fn an_earlier_success_under_the_same_attempt_does_not_block() {
    let mut storage = fresh();
    let keys = command_keys(&ExecuteMsg::WriteResult {
        code_id: 1,
        repo: "r".to_string(),
        commit_hash: "c".to_string(),
        method: "m".to_string(),
        verified: false,
    });
    // an attempt on record as successful, but no status for the code id
    let record: Vec<u8> = vec![
        1, 0, 0, 0, //
        1, 0, 0, 0, 0, 0, 0, 0, b'r', //
        1, 0, 0, 0, 0, 0, 0, 0, b'c', //
        1, 0, 0, 0, 0, 0, 0, 0, b'm', //
        1,
    ];
    storage.set(&keys[2], &record);
    assert_eq!(write(&mut storage, ADMIN, 1, "r", "c", "m", false), Ok(()));
    assert_eq!(
        write(&mut storage, ADMIN, 1, "r", "c", "m", false),
        Err(ContractError::AlreadyAttemptedFailed)
    );
}

#[test]
fn command_keys_name_what_a_command_touches() {
    let set_admin = ExecuteMsg::SetAdmin { admin: "next".to_string() };
    assert_eq!(command_keys(&set_admin), vec![b"admin".to_vec()]);

    let write_result = ExecuteMsg::WriteResult {
        code_id: 120,
        repo: "é".to_string(),
        commit_hash: "".to_string(),
        method: "m".to_string(),
        verified: true,
    };
    let mut attempt_key = b"specific_".to_vec();
    attempt_key.extend_from_slice(&[120, 0, 0, 0]);
    attempt_key.extend_from_slice(&[2, 0, 0, 0, 0, 0, 0, 0, 0xc3, 0xa9]);
    attempt_key.extend_from_slice(&[0, 0, 0, 0, 0, 0, 0, 0]);
    assert_eq!(
        command_keys(&write_result),
        vec![
            b"admin".to_vec(),
            b"codeid_120".to_vec(),
            attempt_key,
            b"result_120".to_vec(),
            b"all_verified".to_vec(),
        ]
    );

    // a command run on a copy of just these entries does what it does on the whole store
    let mut whole = fresh();
    assert_eq!(write(&mut whole, ADMIN, 1, "r", "c", "m", true), Ok(()));
    assert_eq!(write(&mut whole, ADMIN, 2, "r", "c", "m", false), Ok(()));
    let mut part = MemoryStorage::new();
    for key in command_keys(&write_result) {
        if let Some(value) = whole.get(&key) {
            part.set(&key, &value);
        }
    }
    assert_eq!(execute(&mut part, ADMIN, write_result.clone()), Ok(()));
    assert_eq!(execute(&mut whole, ADMIN, write_result.clone()), Ok(()));
    for key in command_keys(&write_result) {
        assert_eq!(part.get(&key), whole.get(&key));
    }
    assert_eq!(query_check_all_verified(&whole), Ok(vec![1, 120]));
}

#[test]
fn question_keys_name_what_a_question_reads() {
    assert_eq!(
        question_keys(&QueryMsg::CheckCodeId { code_id: 0 }),
        vec![b"codeid_0".to_vec(), b"result_0".to_vec()]
    );
    assert_eq!(
        question_keys(&QueryMsg::CheckCodeId { code_id: 1000000 }),
        vec![b"codeid_1000000".to_vec(), b"result_1000000".to_vec()]
    );
    assert_eq!(question_keys(&QueryMsg::CheckAllVerified {}), vec![b"all_verified".to_vec()]);
}

#[test]
fn execute_dispatches_both_commands() {
    let mut storage = fresh();
    let msg = ExecuteMsg::WriteResult {
        code_id: 3,
        repo: "https://example.org/repo".to_string(),
        commit_hash: "0123abcd".to_string(),
        method: "docker".to_string(),
        verified: true,
    };
    assert_eq!(execute(&mut storage, ADMIN, msg.clone()), Ok(()));
    assert_eq!(execute(&mut storage, ADMIN, msg), Err(ContractError::AlreadyVerified));
    assert_eq!(
        query_check_code_id(&storage, 3),
        Ok(attestation(3, "https://example.org/repo", "0123abcd", "docker", true))
    );
    assert_eq!(
        execute(&mut storage, ADMIN, ExecuteMsg::SetAdmin { admin: OTHER.to_string() }),
        Ok(())
    );
    assert_eq!(check_admin(&storage, OTHER), Ok(()));
}
