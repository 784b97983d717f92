//! The byte format of stored values.
//!
//! Every value is written in a fixed field order with fixed-width little-endian
//! integers and length-prefixed text. A flag is one byte, a code id four bytes,
//! a text an eight-byte count of its UTF-8 bytes followed by those bytes, a list
//! of code ids an eight-byte count followed by the ids.
//!
//! For each kind of value this module says what is written, and how a value is
//! read off the front of a run of bytes, leaving the rest. The two are inverse
//! to one another: what was written is read back, and what is read is what
//! writing the value gives.

use vstd::bytes::*;
use vstd::prelude::*;
use vstd::utf8::*;

verus! {

/// The bytes of a flag: `1` for true, `0` for false.
pub open spec fn flag_bytes(v: bool) -> Seq<u8> {
    seq![if v { 1u8 } else { 0u8 }]
}

/// The flag that `b` starts with, and the bytes that follow it.
pub open spec fn parse_flag(b: Seq<u8>) -> Option<(bool, Seq<u8>)> {
    if b.len() >= 1 && b[0] == 0u8 {
        Some((false, b.subrange(1, b.len() as int)))
    } else if b.len() >= 1 && b[0] == 1u8 {
        Some((true, b.subrange(1, b.len() as int)))
    } else {
        None
    }
}

/// A text can be written when the count of its UTF-8 bytes fits in eight bytes.
pub open spec fn text_fits(s: Seq<char>) -> bool {
    encode_utf8(s).len() <= u64::MAX
}

/// The bytes of a text: the count of its UTF-8 bytes, then the UTF-8 bytes.
pub open spec fn text_bytes(s: Seq<char>) -> Seq<u8> {
    spec_u64_to_le_bytes(encode_utf8(s).len() as u64) + encode_utf8(s)
}

/// The text that `b` starts with, and the bytes that follow it.
#[verifier::opaque]
pub open spec fn parse_text(b: Seq<u8>) -> Option<(Seq<char>, Seq<u8>)> {
    if b.len() < 8 {
        None
    } else {
        let n = spec_u64_from_le_bytes(b.subrange(0, 8)) as int;
        if b.len() - 8 < n {
            None
        } else if !valid_utf8(b.subrange(8, 8 + n)) {
            None
        } else {
            Some((decode_utf8(b.subrange(8, 8 + n)), b.subrange(8 + n, b.len() as int)))
        }
    }
}

/// A list of code ids can be written when its length fits in eight bytes.
pub open spec fn ids_fit(ids: Seq<u32>) -> bool {
    ids.len() <= u64::MAX
}

/// The bytes of a list of code ids: the count, then four bytes for each id.
pub open spec fn ids_bytes(ids: Seq<u32>) -> Seq<u8> {
    spec_u64_to_le_bytes(ids.len() as u64) + Seq::new(
        4 * ids.len(),
        |i: int| spec_u32_to_le_bytes(ids[i / 4])[i % 4],
    )
}

/// The list of code ids that `b` starts with, and the bytes that follow it.
pub open spec fn parse_ids(b: Seq<u8>) -> Option<(Seq<u32>, Seq<u8>)> {
    if b.len() < 8 {
        None
    } else {
        let n = spec_u64_from_le_bytes(b.subrange(0, 8)) as int;
        if b.len() - 8 < 4 * n {
            None
        } else {
            Some(
                (
                    Seq::new(
                        n as nat,
                        |i: int| spec_u32_from_le_bytes(b.subrange(8 + 4 * i, 12 + 4 * i)),
                    ),
                    b.subrange(8 + 4 * n, b.len() as int),
                ),
            )
        }
    }
}

/// What one verification attempt states, as mathematical values.
pub struct Attestation {
    pub code_id: u32,
    pub repo: Seq<char>,
    pub commit_hash: Seq<char>,
    pub method: Seq<char>,
    pub verified: bool,
}

/// An attestation can be written when each of its texts can.
pub open spec fn attestation_fits(a: Attestation) -> bool {
    text_fits(a.repo) && text_fits(a.commit_hash) && text_fits(a.method)
}

/// The bytes of an attestation: its fields in the order of declaration.
pub open spec fn attestation_bytes(a: Attestation) -> Seq<u8> {
    spec_u32_to_le_bytes(a.code_id) + text_bytes(a.repo) + text_bytes(a.commit_hash) + text_bytes(
        a.method,
    ) + flag_bytes(a.verified)
}

/// The attestation that `b` starts with, and the bytes that follow it.
pub open spec fn parse_attestation(b: Seq<u8>) -> Option<(Attestation, Seq<u8>)> {
    if b.len() < 4 {
        None
    } else {
        match parse_text(b.subrange(4, b.len() as int)) {
            None => None,
            Some((repo, after_repo)) => match parse_text(after_repo) {
                None => None,
                Some((commit_hash, after_commit)) => match parse_text(after_commit) {
                    None => None,
                    Some((method, after_method)) => match parse_flag(after_method) {
                        None => None,
                        Some((verified, rest)) => Some(
                            (
                                Attestation {
                                    code_id: spec_u32_from_le_bytes(b.subrange(0, 4)),
                                    repo,
                                    commit_hash,
                                    method,
                                    verified,
                                },
                                rest,
                            ),
                        ),
                    },
                },
            },
        }
    }
}

/// A flag that was written is read back, and the bytes behind it are left.
pub proof fn lemma_flag_round_trip(v: bool, tail: Seq<u8>)
    ensures
        parse_flag(flag_bytes(v) + tail) == Some((v, tail)),
        flag_bytes(v).len() == 1,
{
    let b = flag_bytes(v) + tail;
    assert(b.subrange(1, b.len() as int) =~= tail);
}

/// A flag that is read is what writing it gives.
pub proof fn lemma_flag_read_is_written(b: Seq<u8>)
    ensures
        parse_flag(b) matches Some((v, rest)) ==> b == flag_bytes(v) + rest,
{
    if let Some((v, rest)) = parse_flag(b) {
        assert(b =~= flag_bytes(v) + rest);
    }
}

/// A text that was written is read back, and the bytes behind it are left.
pub proof fn lemma_text_round_trip(s: Seq<char>, tail: Seq<u8>)
    requires
        text_fits(s),
    ensures
        parse_text(text_bytes(s) + tail) == Some((s, tail)),
        text_bytes(s).len() == 8 + encode_utf8(s).len(),
{
    reveal(parse_text);
    lemma_auto_spec_u64_to_from_le_bytes();
    let body = encode_utf8(s);
    let n = body.len() as u64;
    let b = text_bytes(s) + tail;
    assert(b.subrange(0, 8) =~= spec_u64_to_le_bytes(n));
    assert(b.subrange(8, 8 + n) =~= body);
    assert(b.subrange(8 + n, b.len() as int) =~= tail);
    encode_utf8_valid_utf8(s);
    encode_utf8_decode_utf8(s);
}

/// A text that is read is what writing it gives.
pub proof fn lemma_text_read_is_written(b: Seq<u8>)
    ensures
        parse_text(b) matches Some((s, rest)) ==> text_fits(s) && b == text_bytes(s) + rest,
{
    reveal(parse_text);
    if let Some((s, rest)) = parse_text(b) {
        lemma_auto_spec_u64_to_from_le_bytes();
        let count = b.subrange(0, 8);
        let n = spec_u64_from_le_bytes(count);
        let body = b.subrange(8, 8 + n);
        decode_utf8_encode_utf8(body);
        assert(spec_u64_to_le_bytes(n) == count);
        assert(b =~= count + body + rest);
    }
}

/// A list of code ids that was written is read back, and the bytes behind it are left.
pub proof fn lemma_ids_round_trip(ids: Seq<u32>, tail: Seq<u8>)
    requires
        ids_fit(ids),
    ensures
        parse_ids(ids_bytes(ids) + tail) == Some((ids, tail)),
        ids_bytes(ids).len() == 8 + 4 * ids.len(),
{
    lemma_auto_spec_u64_to_from_le_bytes();
    lemma_auto_spec_u32_to_from_le_bytes();
    let n = ids.len() as u64;
    let b = ids_bytes(ids) + tail;
    assert(b.subrange(0, 8) =~= spec_u64_to_le_bytes(n));
    let read = Seq::new(n as nat, |i: int| spec_u32_from_le_bytes(b.subrange(8 + 4 * i, 12 + 4 * i)));
    assert forall|i: int| 0 <= i < ids.len() implies read[i] == ids[i] by {
        assert(b.subrange(8 + 4 * i, 12 + 4 * i) =~= spec_u32_to_le_bytes(ids[i]));
    }
    assert(read =~= ids);
    assert(b.subrange(8 + 4 * n, b.len() as int) =~= tail);
}

/// A list of code ids that is read is what writing it gives.
pub proof fn lemma_ids_read_is_written(b: Seq<u8>)
    ensures
        parse_ids(b) matches Some((ids, rest)) ==> ids_fit(ids) && b == ids_bytes(ids) + rest,
{
    if let Some((ids, rest)) = parse_ids(b) {
        lemma_auto_spec_u64_to_from_le_bytes();
        lemma_auto_spec_u32_to_from_le_bytes();
        let count = b.subrange(0, 8);
        let n = spec_u64_from_le_bytes(count);
        assert(spec_u64_to_le_bytes(n) == count);
        let written = ids_bytes(ids) + rest;
        assert(written.len() == b.len());
        assert forall|k: int| 0 <= k < b.len() implies written[k] == b[k] by {
            if 8 <= k < 8 + 4 * n {
                let i = (k - 8) / 4;
                let chunk = b.subrange(8 + 4 * i, 12 + 4 * i);
                assert(ids[i] == spec_u32_from_le_bytes(chunk));
                assert(spec_u32_to_le_bytes(ids[i]) == chunk);
                assert(chunk[(k - 8) % 4] == b[k]);
            } else if k < 8 {
                assert(count[k] == b[k]);
            }
        }
        assert(written =~= b);
    }
}

/// An attestation that was written is read back, and the bytes behind it are left.
pub proof fn lemma_attestation_round_trip(a: Attestation, tail: Seq<u8>)
    requires
        attestation_fits(a),
    ensures
        parse_attestation(attestation_bytes(a) + tail) == Some((a, tail)),
        attestation_bytes(a).len() == 29 + encode_utf8(a.repo).len() + encode_utf8(
            a.commit_hash,
        ).len() + encode_utf8(a.method).len(),
{
    lemma_auto_spec_u32_to_from_le_bytes();
    let b = attestation_bytes(a) + tail;
    let after_method = flag_bytes(a.verified) + tail;
    let after_commit = text_bytes(a.method) + after_method;
    let after_repo = text_bytes(a.commit_hash) + after_commit;
    assert(b.subrange(0, 4) =~= spec_u32_to_le_bytes(a.code_id));
    assert(b.subrange(4, b.len() as int) =~= text_bytes(a.repo) + after_repo);
    lemma_text_round_trip(a.repo, after_repo);
    lemma_text_round_trip(a.commit_hash, after_commit);
    lemma_text_round_trip(a.method, after_method);
    lemma_flag_round_trip(a.verified, tail);
}

/// An attestation that is read is what writing it gives.
pub proof fn lemma_attestation_read_is_written(b: Seq<u8>)
    ensures
        parse_attestation(b) matches Some((a, rest)) ==> attestation_fits(a) && b
            == attestation_bytes(a) + rest,
{
    if let Some((a, rest)) = parse_attestation(b) {
        let id = b.subrange(0, 4);
        let after_id = b.subrange(4, b.len() as int);
        let after_repo = parse_text(after_id).unwrap().1;
        let after_commit = parse_text(after_repo).unwrap().1;
        let after_method = parse_text(after_commit).unwrap().1;
        lemma_text_read_is_written(after_id);
        lemma_text_read_is_written(after_repo);
        lemma_text_read_is_written(after_commit);
        lemma_flag_read_is_written(after_method);
        assert(spec_u32_to_le_bytes(a.code_id) == id) by {
            lemma_auto_spec_u32_to_from_le_bytes();
        }
        let tail_method = text_bytes(a.method) + flag_bytes(a.verified);
        let tail_commit = text_bytes(a.commit_hash) + tail_method;
        let tail_repo = text_bytes(a.repo) + tail_commit;
        assert(after_commit == tail_method + rest) by {
            assert(text_bytes(a.method) + (flag_bytes(a.verified) + rest) =~= tail_method + rest);
        }
        assert(after_repo == tail_commit + rest) by {
            assert(text_bytes(a.commit_hash) + (tail_method + rest) =~= tail_commit + rest);
        }
        assert(after_id == tail_repo + rest) by {
            assert(text_bytes(a.repo) + (tail_commit + rest) =~= tail_repo + rest);
        }
        assert(b == (id + tail_repo) + rest) by {
            assert(b =~= id + after_id);
            assert(id + (tail_repo + rest) =~= (id + tail_repo) + rest);
        }
        assert(attestation_bytes(a) == id + tail_repo) by {
            assert(attestation_bytes(a) =~= id + tail_repo);
        }
    }
}

} // verus!
