use code_registry::codec::{decode, Storable};
use code_registry::error::ContractError;
use code_registry::state::CompilationResult;

fn sample(verified: bool) -> CompilationResult {
    CompilationResult {
        code_id: 5,
        repo: "r".to_string(),
        commit_hash: "c1".to_string(),
        method: "".to_string(),
        verified,
    }
}

#[test]
fn flag_is_one_byte() {
    assert_eq!(true.encode(), Ok(vec![1u8]));
    assert_eq!(false.encode(), Ok(vec![0u8]));
}

#[test]
fn flag_reads_zero_and_one_only() {
    assert_eq!(decode::<bool>(&[0]), Ok(false));
    assert_eq!(decode::<bool>(&[1]), Ok(true));
    assert_eq!(decode::<bool>(&[2]), Err(ContractError::SerializationError));
    assert_eq!(decode::<bool>(&[255]), Err(ContractError::SerializationError));
    assert_eq!(decode::<bool>(&[]), Err(ContractError::SerializationError));
}

#[test]
fn flag_at_the_front_is_read_whatever_follows() {
    assert_eq!(bool::decode_front(&[1, 9, 9]), Ok((true, 1)));
    assert_eq!(bool::decode_front(&[0, 1]), Ok((false, 1)));
    assert_eq!(bool::decode_front(&[1]), Ok((true, 1)));
    assert_eq!(bool::decode_front(&[2, 1]), Err(ContractError::SerializationError));
    assert_eq!(bool::decode_front(&[]), Err(ContractError::SerializationError));
}

#[test]
fn flag_with_bytes_behind_it_is_no_stored_flag() {
    assert_eq!(decode::<bool>(&[1, 9, 9]), Err(ContractError::SerializationError));
    assert_eq!(decode::<bool>(&[0, 1]), Err(ContractError::SerializationError));
    assert_eq!(decode::<bool>(&[0, 0]), Err(ContractError::SerializationError));
}

#[test]
fn text_is_length_prefixed_utf8() {
    assert_eq!(
        "admin".to_string().encode(),
        Ok(vec![5, 0, 0, 0, 0, 0, 0, 0, b'a', b'd', b'm', b'i', b'n'])
    );
    assert_eq!("".to_string().encode(), Ok(vec![0, 0, 0, 0, 0, 0, 0, 0]));
    // two characters, five bytes
    assert_eq!(
        "é€".to_string().encode(),
        Ok(vec![5, 0, 0, 0, 0, 0, 0, 0, 0xc3, 0xa9, 0xe2, 0x82, 0xac])
    );
}

#[test]
fn text_round_trips() {
    for s in ["", "a", "admin", "é€", "line\nbreak", "𝄞 clef"] {
        let bytes = s.to_string().encode().unwrap();
        assert_eq!(decode::<String>(&bytes), Ok(s.to_string()));
    }
}

#[test]
fn text_reading_rejects_malformed_input() {
    // too short for a count
    assert_eq!(decode::<String>(&[1, 0, 0]), Err(ContractError::SerializationError));
    // count says three bytes, two are there
    assert_eq!(
        decode::<String>(&[3, 0, 0, 0, 0, 0, 0, 0, b'a', b'b']),
        Err(ContractError::SerializationError)
    );
    // not UTF-8
    assert_eq!(
        decode::<String>(&[2, 0, 0, 0, 0, 0, 0, 0, 0xff, 0xfe]),
        Err(ContractError::SerializationError)
    );
    // a surrogate, encoded
    assert_eq!(
        decode::<String>(&[3, 0, 0, 0, 0, 0, 0, 0, 0xed, 0xa0, 0x80]),
        Err(ContractError::SerializationError)
    );
    // an overlong encoding
    assert_eq!(
        decode::<String>(&[2, 0, 0, 0, 0, 0, 0, 0, 0xc0, 0x80]),
        Err(ContractError::SerializationError)
    );
    // a count beyond any input
    assert_eq!(
        decode::<String>(&[255, 255, 255, 255, 255, 255, 255, 255, b'a']),
        Err(ContractError::SerializationError)
    );
}

#[test]
fn text_reading_follows_the_bounds_of_utf8() {
    // the largest scalar value, and the first value beyond it
    assert_eq!(
        decode::<String>(&[4, 0, 0, 0, 0, 0, 0, 0, 0xf4, 0x8f, 0xbf, 0xbf]),
        Ok("\u{10ffff}".to_string())
    );
    assert_eq!(
        decode::<String>(&[4, 0, 0, 0, 0, 0, 0, 0, 0xf4, 0x90, 0x80, 0x80]),
        Err(ContractError::SerializationError)
    );
    assert_eq!(
        decode::<String>(&[4, 0, 0, 0, 0, 0, 0, 0, 0xf5, 0x80, 0x80, 0x80]),
        Err(ContractError::SerializationError)
    );
    // the values around the surrogates
    assert_eq!(
        decode::<String>(&[3, 0, 0, 0, 0, 0, 0, 0, 0xed, 0x9f, 0xbf]),
        Ok("\u{d7ff}".to_string())
    );
    assert_eq!(
        decode::<String>(&[3, 0, 0, 0, 0, 0, 0, 0, 0xed, 0xbf, 0xbf]),
        Err(ContractError::SerializationError)
    );
    assert_eq!(
        decode::<String>(&[3, 0, 0, 0, 0, 0, 0, 0, 0xee, 0x80, 0x80]),
        Ok("\u{e000}".to_string())
    );
    // overlong forms of three and four bytes
    assert_eq!(
        decode::<String>(&[3, 0, 0, 0, 0, 0, 0, 0, 0xe0, 0x9f, 0xbf]),
        Err(ContractError::SerializationError)
    );
    assert_eq!(
        decode::<String>(&[4, 0, 0, 0, 0, 0, 0, 0, 0xf0, 0x8f, 0xbf, 0xbf]),
        Err(ContractError::SerializationError)
    );
    // a continuation byte alone, and a sequence cut short
    assert_eq!(
        decode::<String>(&[1, 0, 0, 0, 0, 0, 0, 0, 0x80]),
        Err(ContractError::SerializationError)
    );
    assert_eq!(
        decode::<String>(&[2, 0, 0, 0, 0, 0, 0, 0, 0xe2, 0x82]),
        Err(ContractError::SerializationError)
    );
    // the smallest values of each width
    assert_eq!(
        decode::<String>(&[9, 0, 0, 0, 0, 0, 0, 0, 0xc2, 0x80, 0xe0, 0xa0, 0x80, 0xf0, 0x90, 0x80, 0x80]),
        Ok("\u{80}\u{800}\u{10000}".to_string())
    );
}

#[test]
fn text_at_the_front_is_read_whatever_follows() {
    assert_eq!(
        String::decode_front(&[1, 0, 0, 0, 0, 0, 0, 0, b'a', b'b', 0xff]),
        Ok(("a".to_string(), 9))
    );
    assert_eq!(String::decode_front(&[0, 0, 0, 0, 0, 0, 0, 0, 7]), Ok(("".to_string(), 8)));
    assert_eq!(
        String::decode_front(&[2, 0, 0, 0, 0, 0, 0, 0, 0xc3, 0xa9]),
        Ok(("é".to_string(), 10))
    );
    assert_eq!(
        String::decode_front(&[2, 0, 0, 0, 0, 0, 0, 0, 0xc3]),
        Err(ContractError::SerializationError)
    );
}

#[test]
fn text_with_bytes_behind_it_is_no_stored_text() {
    assert_eq!(
        decode::<String>(&[1, 0, 0, 0, 0, 0, 0, 0, b'a', b'b']),
        Err(ContractError::SerializationError)
    );
    assert_eq!(
        decode::<String>(&[0, 0, 0, 0, 0, 0, 0, 0, 0]),
        Err(ContractError::SerializationError)
    );
}

#[test]
fn ids_are_count_then_four_bytes_each() {
    assert_eq!(Vec::<u32>::new().encode(), Ok(vec![0, 0, 0, 0, 0, 0, 0, 0]));
    assert_eq!(
        vec![5u32, 0x01020304, u32::MAX].encode(),
        Ok(vec![3, 0, 0, 0, 0, 0, 0, 0, 5, 0, 0, 0, 4, 3, 2, 1, 255, 255, 255, 255])
    );
}

#[test]
fn ids_round_trip() {
    for ids in [vec![], vec![0u32], vec![7, 7, 7], vec![1, 2, 3, 4, 5, u32::MAX]] {
        let bytes = ids.encode().unwrap();
        assert_eq!(decode::<Vec<u32>>(&bytes), Ok(ids));
    }
}

#[test]
fn ids_reading_rejects_malformed_input() {
    assert_eq!(decode::<Vec<u32>>(&[]), Err(ContractError::SerializationError));
    assert_eq!(decode::<Vec<u32>>(&[0, 0, 0, 0, 0, 0, 0]), Err(ContractError::SerializationError));
    // two announced, one and a half there
    assert_eq!(
        decode::<Vec<u32>>(&[2, 0, 0, 0, 0, 0, 0, 0, 1, 0, 0, 0, 2, 0]),
        Err(ContractError::SerializationError)
    );
    assert_eq!(
        decode::<Vec<u32>>(&[255, 255, 255, 255, 255, 255, 255, 63, 1, 0, 0, 0]),
        Err(ContractError::SerializationError)
    );
    assert_eq!(
        decode::<Vec<u32>>(&[255, 255, 255, 255, 255, 255, 255, 255, 1, 0, 0, 0]),
        Err(ContractError::SerializationError)
    );
}

#[test]
fn ids_at_the_front_are_read_whatever_follows() {
    assert_eq!(
        Vec::<u32>::decode_front(&[1, 0, 0, 0, 0, 0, 0, 0, 9, 0, 0, 0, 1, 2, 3]),
        Ok((vec![9u32], 12))
    );
    assert_eq!(Vec::<u32>::decode_front(&[0, 0, 0, 0, 0, 0, 0, 0]), Ok((vec![], 8)));
    assert_eq!(
        Vec::<u32>::decode_front(&[2, 0, 0, 0, 0, 0, 0, 0, 1, 0, 0, 0, 2, 0, 0, 0, 3, 0, 0, 0]),
        Ok((vec![1u32, 2], 16))
    );
    assert_eq!(
        Vec::<u32>::decode_front(&[1, 0, 0, 0, 0, 0, 0, 0, 9, 0, 0]),
        Err(ContractError::SerializationError)
    );
}

#[test]
fn ids_with_bytes_behind_them_are_no_stored_list() {
    assert_eq!(
        decode::<Vec<u32>>(&[1, 0, 0, 0, 0, 0, 0, 0, 9, 0, 0, 0, 1]),
        Err(ContractError::SerializationError)
    );
    assert_eq!(
        decode::<Vec<u32>>(&[0, 0, 0, 0, 0, 0, 0, 0, 9, 0, 0, 0]),
        Err(ContractError::SerializationError)
    );
}

#[test]
fn attestation_is_its_fields_in_order() {
    let expected: Vec<u8> = vec![
        5, 0, 0, 0, // code id
        1, 0, 0, 0, 0, 0, 0, 0, b'r', // repo
        2, 0, 0, 0, 0, 0, 0, 0, b'c', b'1', // commit
        0, 0, 0, 0, 0, 0, 0, 0, // method
        1, // verified
    ];
    assert_eq!(sample(true).encode(), Ok(expected));
}

#[test]
fn attestation_round_trips() {
    for result in [
        sample(true),
        sample(false),
        CompilationResult {
            code_id: u32::MAX,
            repo: "https://example.org/a#b - c".to_string(),
            commit_hash: "ünïcödé".to_string(),
            method: "docker:1.2.3".to_string(),
            verified: false,
        },
    ] {
        let bytes = result.encode().unwrap();
        assert_eq!(decode::<CompilationResult>(&bytes), Ok(result));
    }
}

#[test]
fn attestation_reading_rejects_malformed_input() {
    let good = sample(true).encode().unwrap();
    // every proper prefix lacks something
    for cut in 0..good.len() {
        assert_eq!(
            decode::<CompilationResult>(&good[..cut]),
            Err(ContractError::SerializationError),
            "prefix of {} bytes",
            cut
        );
    }
    // the flag at the end must be 0 or 1
    let mut bad_flag = good.clone();
    let last = bad_flag.len() - 1;
    bad_flag[last] = 2;
    assert_eq!(decode::<CompilationResult>(&bad_flag), Err(ContractError::SerializationError));
    // a text that is not UTF-8
    let mut bad_text = good.clone();
    bad_text[12] = 0xff;
    assert_eq!(decode::<CompilationResult>(&bad_text), Err(ContractError::SerializationError));
}

#[test]
fn attestation_at_the_front_is_read_whatever_follows() {
    let mut bytes = sample(false).encode().unwrap();
    let length = bytes.len();
    assert_eq!(length, 29 + 1 + 2);
    assert_eq!(CompilationResult::decode_front(&bytes), Ok((sample(false), length)));
    bytes.extend_from_slice(&[7, 7, 7]);
    assert_eq!(CompilationResult::decode_front(&bytes), Ok((sample(false), length)));
    assert_eq!(
        CompilationResult::decode_front(&bytes[..length - 1]),
        Err(ContractError::SerializationError)
    );
}

#[test]
fn attestation_with_bytes_behind_it_is_no_stored_attestation() {
    let mut bytes = sample(false).encode().unwrap();
    bytes.push(0);
    assert_eq!(decode::<CompilationResult>(&bytes), Err(ContractError::SerializationError));
}

#[test]
fn a_value_of_another_type_is_not_taken_for_a_flag() {
    // whatever byte the other value starts with
    for code_id in [0u32, 1, 5, 256, 257] {
        let mut result = sample(false);
        result.code_id = code_id;
        let bytes = result.encode().unwrap();
        assert_eq!(decode::<bool>(&bytes), Err(ContractError::SerializationError));
    }
    for ids in [vec![], vec![0u32], vec![1u32]] {
        let bytes = ids.encode().unwrap();
        assert_eq!(decode::<bool>(&bytes), Err(ContractError::SerializationError));
    }
    for text in ["", "\u{0}", "\u{1}"] {
        let bytes = text.to_string().encode().unwrap();
        assert_eq!(decode::<bool>(&bytes), Err(ContractError::SerializationError));
    }
    // a flag is too short for a list, a text or an attestation
    for flag in [true, false] {
        let bytes = flag.encode().unwrap();
        assert_eq!(decode::<Vec<u32>>(&bytes), Err(ContractError::SerializationError));
        assert_eq!(decode::<CompilationResult>(&bytes), Err(ContractError::SerializationError));
        assert_eq!(decode::<String>(&bytes), Err(ContractError::SerializationError));
    }
}

#[test]
fn rejections_have_their_texts() {
    assert_eq!(ContractError::Unauthorized.message(), "Unauthorized");
    assert_eq!(ContractError::AlreadyVerified.message(), "Already verified successfully");
    assert_eq!(
        ContractError::AlreadyAttemptedFailed.message(),
        "Already verified without success with this repo"
    );
    assert_eq!(ContractError::NotVerified.message(), "Not verified");
    assert_eq!(ContractError::SerializationError.message(), "Error parsing stored value");
    assert_eq!(ContractError::KeyAbsent.message(), "Stored value not found");
}
