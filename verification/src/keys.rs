//! Where each piece of the registry's state lives in the store.
//!
//! | slot | key | value |
//! |---|---|---|
//! | admin | `admin` | the admin's identity, a text |
//! | status of a code id | `codeid_` and the id in decimal | a flag, true once verified |
//! | canonical result | `result_` and the id in decimal | the attestation that verified the id |
//! | attempt | `specific_`, the id in four bytes, then repository and commit as length-prefixed texts | the attestation submitted |
//! | verified index | `all_verified` | the list of verified ids |
//!
//! The key of an attempt carries the length of each text, so that no two
//! attempts share a key, whatever characters their texts hold.

use crate::encoding::{lemma_text_round_trip, text_bytes, text_fits};
use vstd::bytes::*;
use vstd::prelude::*;
use vstd::utf8::*;

verus! {

/// A place in the store.
pub enum Slot {
    /// The identity of the admin.
    Admin,
    /// The list of verified code ids.
    VerifiedIndex,
    /// Whether a code id is verified.
    Status(u32),
    /// The attestation that verified a code id.
    Canonical(u32),
    /// The attestation submitted for a code id, a repository and a commit.
    Attempt(u32, Seq<char>, Seq<char>),
}

/// The digits of `n` in base ten, most significant first, as ASCII.
pub open spec fn decimal(n: nat) -> Seq<u8>
    decreases n,
{
    if n < 10 {
        seq![(48 + n) as u8]
    } else {
        decimal(n / 10).push((48 + n % 10) as u8)
    }
}

/// `codeid_`
pub open spec fn status_prefix() -> Seq<u8> {
    seq![99u8, 111u8, 100u8, 101u8, 105u8, 100u8, 95u8]
}

/// `result_`
pub open spec fn canonical_prefix() -> Seq<u8> {
    seq![114u8, 101u8, 115u8, 117u8, 108u8, 116u8, 95u8]
}

/// `specific_`
pub open spec fn attempt_prefix() -> Seq<u8> {
    seq![115u8, 112u8, 101u8, 99u8, 105u8, 102u8, 105u8, 99u8, 95u8]
}

/// The key under which a slot is stored.
pub open spec fn slot_key(slot: Slot) -> Seq<u8> {
    match slot {
        // `admin`
        Slot::Admin => seq![97u8, 100u8, 109u8, 105u8, 110u8],
        // `all_verified`
        Slot::VerifiedIndex => seq![
            97u8,
            108u8,
            108u8,
            95u8,
            118u8,
            101u8,
            114u8,
            105u8,
            102u8,
            105u8,
            101u8,
            100u8,
        ],
        Slot::Status(code_id) => status_prefix() + decimal(code_id as nat),
        Slot::Canonical(code_id) => canonical_prefix() + decimal(code_id as nat),
        Slot::Attempt(code_id, repo, commit_hash) => attempt_prefix() + spec_u32_to_le_bytes(
            code_id,
        ) + text_bytes(repo) + text_bytes(commit_hash),
    }
}

/// A slot has a key when the texts that name it can be written.
pub open spec fn slot_fits(slot: Slot) -> bool {
    match slot {
        Slot::Attempt(_, repo, commit_hash) => text_fits(repo) && text_fits(commit_hash),
        _ => true,
    }
}

/// A decimal numeral is never empty.
pub proof fn lemma_decimal_nonempty(n: nat)
    ensures
        decimal(n).len() >= 1,
    decreases n,
{
    if n >= 10 {
        lemma_decimal_nonempty(n / 10);
    }
}

/// Two numbers with the same decimal numeral are the same number.
pub proof fn lemma_decimal_injective(a: nat, b: nat)
    requires
        decimal(a) == decimal(b),
    ensures
        a == b,
    decreases a,
{
    lemma_decimal_nonempty(a / 10);
    lemma_decimal_nonempty(b / 10);
    if a < 10 && b < 10 {
        assert(decimal(a)[0] == (48 + a) as u8);
        assert(decimal(b)[0] == (48 + b) as u8);
    } else if a >= 10 && b >= 10 {
        assert(decimal(a).last() == (48 + a % 10) as u8);
        assert(decimal(b).last() == (48 + b % 10) as u8);
        assert(a % 10 == b % 10);
        assert(decimal(a).drop_last() =~= decimal(a / 10));
        assert(decimal(b).drop_last() =~= decimal(b / 10));
        lemma_decimal_injective(a / 10, b / 10);
    } else {
        assert(decimal(a).len() == decimal(b).len());
    }
}

/// The first byte of a key tells the kind of its slot apart, but for the
/// admin and the verified index, which differ in the second.
proof fn lemma_slot_key_head(slot: Slot)
    ensures
        slot_key(slot).len() >= 5,
        slot_key(slot)[0] == match slot {
            Slot::Admin => 97u8,
            Slot::VerifiedIndex => 97u8,
            Slot::Status(_) => 99u8,
            Slot::Canonical(_) => 114u8,
            Slot::Attempt(_, _, _) => 115u8,
        },
        slot is Admin ==> slot_key(slot)[1] == 100u8,
        slot is VerifiedIndex ==> slot_key(slot)[1] == 108u8,
{
    match slot {
        Slot::Status(code_id) => {
            assert(status_prefix().len() == 7);
            assert(slot_key(slot)[0] == status_prefix()[0]);
        },
        Slot::Canonical(code_id) => {
            assert(canonical_prefix().len() == 7);
            assert(slot_key(slot)[0] == canonical_prefix()[0]);
        },
        Slot::Attempt(code_id, repo, commit_hash) => {
            assert(attempt_prefix().len() == 9);
            assert(slot_key(slot)[0] == attempt_prefix()[0]);
        },
        _ => {},
    }
}

/// No two slots share a key.
pub proof fn lemma_slot_key_injective(a: Slot, b: Slot)
    requires
        a is Attempt && b is Attempt ==> slot_fits(a) && slot_fits(b),
        slot_key(a) == slot_key(b),
    ensures
        a == b,
{
    let ka = slot_key(a);
    let kb = slot_key(b);
    lemma_slot_key_head(a);
    lemma_slot_key_head(b);
    match (a, b) {
        (Slot::Status(x), Slot::Status(y)) => {
            assert(ka.subrange(7, ka.len() as int) =~= decimal(x as nat));
            assert(kb.subrange(7, kb.len() as int) =~= decimal(y as nat));
            lemma_decimal_injective(x as nat, y as nat);
        },
        (Slot::Canonical(x), Slot::Canonical(y)) => {
            assert(ka.subrange(7, ka.len() as int) =~= decimal(x as nat));
            assert(kb.subrange(7, kb.len() as int) =~= decimal(y as nat));
            lemma_decimal_injective(x as nat, y as nat);
        },
        (Slot::Attempt(x, xr, xc), Slot::Attempt(y, yr, yc)) => {
            lemma_auto_spec_u32_to_from_le_bytes();
            assert(ka.subrange(9, 13) =~= spec_u32_to_le_bytes(x));
            assert(kb.subrange(9, 13) =~= spec_u32_to_le_bytes(y));
            assert(x == y);
            assert(ka.subrange(13, ka.len() as int) =~= text_bytes(xr) + text_bytes(xc));
            assert(kb.subrange(13, kb.len() as int) =~= text_bytes(yr) + text_bytes(yc));
            lemma_text_round_trip(xr, text_bytes(xc));
            lemma_text_round_trip(yr, text_bytes(yc));
            assert(xr == yr);
            assert(text_bytes(xc) == text_bytes(yc));
            assert(text_bytes(xc) + Seq::<u8>::empty() =~= text_bytes(xc));
            assert(text_bytes(yc) + Seq::<u8>::empty() =~= text_bytes(yc));
            lemma_text_round_trip(xc, Seq::empty());
            lemma_text_round_trip(yc, Seq::empty());
            assert(xc == yc);
        },
        _ => {},
    }
}

/// Appends the decimal numeral of `n` to `out`.
fn push_decimal(out: &mut Vec<u8>, n: u32)
    ensures
        final(out)@ == old(out)@ + decimal(n as nat),
    decreases n,
{
    if n >= 10 {
        push_decimal(out, n / 10);
    }
    let digit: u8 = 48 + (n % 10) as u8;
    out.push(digit);
    assert(out@ =~= old(out)@ + decimal(n as nat));
}

/// Appends a text in its stored form, count first, to `out`.
fn push_text(out: &mut Vec<u8>, text: &str)
    ensures
        final(out)@ == old(out)@ + text_bytes(text@),
        text_fits(text@),
{
    let body = text.as_bytes();
    let count: u64 = body.len() as u64;
    let prefix = u64_to_le_bytes(count);
    out.extend_from_slice(prefix.as_slice());
    out.extend_from_slice(body);
    assert(out@ =~= old(out)@ + text_bytes(text@));
}

/// The key of the admin slot.
pub fn admin_key() -> (key: Vec<u8>)
    ensures
        key@ == slot_key(Slot::Admin),
{
    vec![97u8, 100u8, 109u8, 105u8, 110u8]
}

/// The key of the verified index.
pub fn index_key() -> (key: Vec<u8>)
    ensures
        key@ == slot_key(Slot::VerifiedIndex),
{
    vec![97u8, 108u8, 108u8, 95u8, 118u8, 101u8, 114u8, 105u8, 102u8, 105u8, 101u8, 100u8]
}

/// The key of the status flag of `code_id`.
pub fn verified_key(code_id: u32) -> (key: Vec<u8>)
    ensures
        key@ == slot_key(Slot::Status(code_id)),
{
    let mut key: Vec<u8> = vec![99u8, 111u8, 100u8, 101u8, 105u8, 100u8, 95u8];
    push_decimal(&mut key, code_id);
    key
}

/// The key of the canonical result of `code_id`.
pub fn result_key(code_id: u32) -> (key: Vec<u8>)
    ensures
        key@ == slot_key(Slot::Canonical(code_id)),
{
    let mut key: Vec<u8> = vec![114u8, 101u8, 115u8, 117u8, 108u8, 116u8, 95u8];
    push_decimal(&mut key, code_id);
    key
}

/// The key of the attempt for `code_id` at `repo` and `commit_hash`.
pub fn specific_key(code_id: u32, repo: &str, commit_hash: &str) -> (key: Vec<u8>)
    ensures
        key@ == slot_key(Slot::Attempt(code_id, repo@, commit_hash@)),
        slot_fits(Slot::Attempt(code_id, repo@, commit_hash@)),
{
    let mut key: Vec<u8> = vec![115u8, 112u8, 101u8, 99u8, 105u8, 102u8, 105u8, 99u8, 95u8];
    let id_bytes = u32_to_le_bytes(code_id);
    key.extend_from_slice(id_bytes.as_slice());
    assert(key@ =~= attempt_prefix() + spec_u32_to_le_bytes(code_id));
    push_text(&mut key, repo);
    push_text(&mut key, commit_hash);
    key
}

} // verus!
