use learning_management_system::base58::{self, DecodeError};
use learning_management_system::hash;
use learning_management_system::id::Id;
use learning_management_system::numeral::recode;

#[test]
fn base58_known_texts() {
    assert_eq!(base58::to_string(b"Hello World!"), "2NEpo7TZRRrLZSi2U");
    assert_eq!(base58::to_string(&[0, 0, 0x28, 0x7f, 0xb4, 0xcd]), "11233QC4");
    assert_eq!(base58::to_string(b"abc"), "ZiCa");
    assert_eq!(base58::to_string(b"a"), "2g");
    assert_eq!(base58::to_string(&[0]), "1");
    assert_eq!(base58::to_string(&[]), "");
    assert_eq!(base58::encode(b"abc"), b"ZiCa".to_vec());
}

#[test]
fn base58_decodes_known_texts() {
    assert_eq!(base58::decode("2NEpo7TZRRrLZSi2U"), Ok(b"Hello World!".to_vec()));
    assert_eq!(base58::decode("11233QC4"), Ok(vec![0, 0, 0x28, 0x7f, 0xb4, 0xcd]));
    assert_eq!(base58::decode("1"), Ok(vec![0]));
    assert_eq!(base58::decode_bytes(b"ZiCa"), Ok(b"abc".to_vec()));
}

#[test]
fn base58_rejects_empty_text() {
    assert_eq!(base58::decode(""), Err(DecodeError::Empty));
    assert_eq!(base58::decode_bytes(b""), Err(DecodeError::Empty));
}

#[test]
fn base58_rejects_foreign_characters() {
    assert_eq!(
        base58::decode("not-in-alphabet!!"),
        Err(DecodeError::InvalidCharacter { position: 3 })
    );
    assert_eq!(base58::decode("0"), Err(DecodeError::InvalidCharacter { position: 0 }));
    assert_eq!(base58::decode("aO"), Err(DecodeError::InvalidCharacter { position: 1 }));
    assert_eq!(base58::decode("abI"), Err(DecodeError::InvalidCharacter { position: 2 }));
    assert_eq!(base58::decode("l"), Err(DecodeError::InvalidCharacter { position: 0 }));
    assert_eq!(base58::decode("a b"), Err(DecodeError::InvalidCharacter { position: 1 }));
    assert_eq!(base58::decode("é"), Err(DecodeError::InvalidCharacter { position: 0 }));
}

#[test]
fn base58_round_trip_on_samples() {
    let samples: Vec<Vec<u8>> = vec![
        vec![0],
        vec![0, 0, 0],
        vec![1],
        vec![255],
        vec![0, 255, 0],
        vec![57, 58, 59],
        (0..=255).collect(),
        vec![255; 40],
    ];
    for bytes in samples {
        let text = base58::to_string(&bytes);
        assert!(text.bytes().all(|c| c.is_ascii_alphanumeric()));
        assert_eq!(base58::decode(&text), Ok(bytes));
    }
}

#[test]
fn recode_keeps_leading_zeros() {
    assert_eq!(recode(&[0, 0, 1, 0], 256, 58), vec![0, 0, 4, 24]);
    assert_eq!(recode(&[0, 0, 4, 24], 58, 256), vec![0, 0, 1, 0]);
    assert_eq!(recode(&[], 10, 2), Vec::<u8>::new());
    assert_eq!(recode(&[1, 0], 10, 2), vec![1, 0, 1, 0]);
}

#[test]
fn id_bytes_are_big_endian() {
    let id = Id { raw: 0xa1a2a3a4b1b2c1c2d1d2d3d4d5d6d7d8 };
    assert_eq!(
        id.to_bytes(),
        vec![
            0xa1, 0xa2, 0xa3, 0xa4, 0xb1, 0xb2, 0xc1, 0xc2, 0xd1, 0xd2, 0xd3, 0xd4, 0xd5, 0xd6,
            0xd7, 0xd8
        ]
    );
    assert_eq!(Id::from_bytes(&id.to_bytes()), Ok(id));
    assert_eq!(Id { raw: 1 }.to_bytes(), vec![0, 0, 0, 0, 0, 0, 0, 0, 0, 0, 0, 0, 0, 0, 0, 1]);
}

#[test]
fn id_rejects_other_widths() {
    assert_eq!(Id::from_bytes(&[1, 2, 3]), Err(DecodeError::InvalidLength { length: 3 }));
    assert_eq!(Id::from_bytes(&[0; 17]), Err(DecodeError::InvalidLength { length: 17 }));
    assert_eq!(Id::from_bytes(&[]), Err(DecodeError::InvalidLength { length: 0 }));
}

#[test]
fn id_token_known_texts() {
    let id = Id { raw: 0xa1a2a3a4b1b2c1c2d1d2d3d4d5d6d7d8 };
    assert_eq!(id.token(), "LxeUnqNwLWQUv2JDtUgQij");
    assert_eq!(Id { raw: 0 }.token(), "1111111111111111");
    assert_eq!(Id { raw: 1 }.token(), "1111111111111112");
    assert_eq!(Id { raw: u128::MAX }.token(), "YcVfxkQb6JRzqk5kF2tNLv");
}

#[test]
fn id_token_round_trip() {
    for raw in [0u128, 1, 57, 58, 255, 256, 1 << 64, 1 << 120, u128::MAX - 1, u128::MAX] {
        let id = Id { raw };
        assert_eq!(Id::from_token(id.token().as_bytes()), Ok(id));
    }
    for _ in 0..20 {
        let id = Id::random();
        assert_eq!(Id::from_token(id.token().as_bytes()), Ok(id));
    }
}

#[test]
fn id_token_failures() {
    assert_eq!(Id::from_token(b""), Err(DecodeError::Empty));
    assert_eq!(
        Id::from_token(b"not-in-alphabet!!"),
        Err(DecodeError::InvalidCharacter { position: 3 })
    );
    assert_eq!(Id::from_token(b"abc"), Err(DecodeError::InvalidLength { length: 3 }));
    assert_eq!(
        Id::from_token(b"11111111111111111"),
        Err(DecodeError::InvalidLength { length: 17 })
    );
}

#[test]
fn id_hyphenated_text() {
    let id = Id { raw: 0xa1a2a3a4b1b2c1c2d1d2d3d4d5d6d7d8 };
    assert_eq!(id.to_string(), "a1a2a3a4-b1b2-c1c2-d1d2-d3d4d5d6d7d8");
    assert_eq!(Id { raw: 0 }.to_string(), "00000000-0000-0000-0000-000000000000");
}

#[test]
fn random_ids_have_the_random_form() {
    for _ in 0..50 {
        let id = Id::random();
        assert_eq!(id.raw & 0x0000_0000_0000_f000_c000_0000_0000_0000, 0x0000_0000_0000_4000_8000_0000_0000_0000);
        let text = id.to_string();
        assert_eq!(text.as_bytes()[14], b'4');
        assert!(matches!(text.as_bytes()[19], b'8' | b'9' | b'a' | b'b'));
    }
}

#[test]
fn random_ids_differ() {
    assert_ne!(Id::random(), Id::random());
}

#[test]
fn hash_known_record() {
    assert_eq!(
        hash::make("a", "bc").to_string(),
        "sha256$2g$DYu3G8aGTMBW1WrTw76zxQJQU4DHLw9MLyy7peG4LKkY"
    );
    assert_eq!(
        hash::make("a1a2a3a4-b1b2-c1c2-d1d2-d3d4d5d6d7d8", "LetMe!nM4te").to_string(),
        "sha256$jofPfxhrQ6BWrgpqbxSUWPKm5KvB7VgmtenqJ1TYSXWvLEVWX$AuatoXEfK3tJ2fytsv9UsPnZV3gAhvinkaqgrC166wu"
    );
    assert_eq!(
        hash::record(b"a", b"bc"),
        b"sha256$2g$DYu3G8aGTMBW1WrTw76zxQJQU4DHLw9MLyy7peG4LKkY".to_vec()
    );
}

#[test]
fn hash_verifies_its_own_record() {
    let record = hash::make("user-1", "Password123!");
    assert!(hash::verify(&record, "user-1", "Password123!"));
    let stored = hash::Hash::from_string(record.to_string());
    assert!(hash::verify(&stored, "user-1", "Password123!"));
}

#[test]
fn hash_rejects_wrong_password() {
    let record = hash::make("user-1", "Password123!");
    assert!(!hash::verify(&record, "user-1", "password123!"));
    assert!(!hash::verify(&record, "user-1", ""));
}

#[test]
fn hash_differs_between_users() {
    let first = hash::make("user-1", "Password123!");
    let second = hash::make("user-2", "Password123!");
    assert_ne!(first.to_string(), second.to_string());
    assert!(!hash::verify(&first, "user-2", "Password123!"));
    assert!(!hash::verify(&second, "user-1", "Password123!"));
}

#[test]
fn hash_salt_and_password_do_not_run_together() {
    let first = hash::make("ab", "c");
    let second = hash::make("a", "bc");
    assert_ne!(first.to_string(), second.to_string());
    assert!(!hash::verify(&first, "a", "bc"));
}

#[test]
fn hash_malformed_records_do_not_verify() {
    let good = hash::make("user-1", "pw").to_string();
    let truncated = good[..good.len() - 1].to_string();
    let wrong_tag = good.replacen("sha256", "sha512", 1);
    for text in [String::new(), "garbage".to_string(), truncated, wrong_tag, "sha256$".to_string()]
    {
        assert!(!hash::verify(&hash::Hash::from_string(text), "user-1", "pw"));
    }
}

#[test]
fn constant_time_eq_compares_bytes() {
    assert!(hash::constant_time_eq(b"", b""));
    assert!(hash::constant_time_eq(b"abc", b"abc"));
    assert!(!hash::constant_time_eq(b"abc", b"abd"));
    assert!(!hash::constant_time_eq(b"abc", b"ab"));
    assert!(!hash::constant_time_eq(b"\x00", b"\x80"));
}
