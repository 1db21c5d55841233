use cruid::{Bytes, Cruid, EncryptionKey, Error};

const EXAMPLE_CRUID: &str = "123e4567-e89b-12d3-a456-426614174000";
const EXAMPLE_BYTES: Bytes = [
    18, 62, 69, 103, 232, 155, 18, 211, 164, 86, 66, 102, 20, 23, 64, 0,
];

#[test]
fn from_bytes() {
    let cruid = Cruid::from_bytes(&EXAMPLE_BYTES);
    assert_eq!(cruid.as_str(), EXAMPLE_CRUID);
}

#[test]
fn parse_ok() {
    let cruid = Cruid::parse(EXAMPLE_CRUID.as_bytes()).unwrap();
    assert_eq!(cruid.as_str(), EXAMPLE_CRUID);
}

#[test]
fn parse_err() {
    let err = Cruid::parse(&[]).err().unwrap();
    assert_eq!(err, Error::Length);
}

#[test]
fn to_bytes() {
    let cruid = Cruid::parse(EXAMPLE_CRUID.as_bytes()).unwrap();
    assert_eq!(cruid.to_bytes(), EXAMPLE_BYTES);
}

#[test]
fn uuid_round_trip() {
    let cruid = Cruid::parse(EXAMPLE_CRUID.as_bytes()).unwrap();
    let uuid = uuid::Uuid::from(cruid);
    assert_eq!(cruid, Cruid::from(uuid));
}

#[test]
fn uuid_keeps_bytes() {
    let cruid = Cruid::parse(EXAMPLE_CRUID.as_bytes()).unwrap();
    let uuid = uuid::Uuid::from(cruid);
    assert_eq!(uuid.as_bytes(), &EXAMPLE_BYTES);
    assert_eq!(uuid.to_string(), EXAMPLE_CRUID);
}

#[test]
fn format_then_decode_gives_bytes_back() {
    let samples: [Bytes; 4] = [
        [0u8; 16],
        [0xffu8; 16],
        EXAMPLE_BYTES,
        [0, 1, 2, 3, 4, 5, 6, 7, 8, 9, 10, 11, 12, 13, 14, 15],
    ];
    for raw in samples.iter() {
        assert_eq!(Cruid::from_bytes(raw).to_bytes(), *raw);
    }
}

#[test]
fn format_all_ones_and_zeros() {
    assert_eq!(
        Cruid::from_bytes(&[0xffu8; 16]).as_str(),
        "ffffffff-ffff-ffff-ffff-ffffffffffff"
    );
    assert_eq!(
        Cruid::from_bytes(&[0u8; 16]).as_str(),
        "00000000-0000-0000-0000-000000000000"
    );
}

#[test]
fn example_formats_and_parses_back() {
    let cruid = Cruid::from_bytes(&EXAMPLE_BYTES);
    assert_eq!(cruid.as_str(), EXAMPLE_CRUID);
    let parsed = Cruid::parse(cruid.as_str().as_bytes()).unwrap();
    assert_eq!(parsed.to_bytes(), EXAMPLE_BYTES);
}

#[test]
fn parse_rejects_wrong_lengths() {
    for len in [0usize, 1, 35, 37, 72] {
        let input = vec![b'0'; len];
        assert_eq!(Cruid::parse(&input), Err(Error::Length));
    }
    let short = &EXAMPLE_CRUID.as_bytes()[..35];
    assert_eq!(Cruid::parse(short), Err(Error::Length));
    let mut long = EXAMPLE_CRUID.as_bytes().to_vec();
    long.push(b'0');
    assert_eq!(Cruid::parse(&long), Err(Error::Length));
}

#[test]
fn parse_rejects_bad_separators() {
    for pos in [8usize, 13, 18, 23] {
        let mut input = EXAMPLE_CRUID.as_bytes().to_vec();
        input[pos] = b'0';
        assert_eq!(Cruid::parse(&input), Err(Error::Encoding));
        input[pos] = b'_';
        assert_eq!(Cruid::parse(&input), Err(Error::Encoding));
    }
}

#[test]
fn parse_rejects_non_hex_in_each_field() {
    for pos in [0usize, 7, 9, 12, 14, 17, 19, 22, 24, 35] {
        for bad in [b'g', b'G', b'-', b' ', b'z'] {
            let mut input = EXAMPLE_CRUID.as_bytes().to_vec();
            input[pos] = bad;
            assert_eq!(Cruid::parse(&input), Err(Error::Encoding));
        }
    }
}

#[test]
fn parse_keeps_case_and_decodes_uppercase() {
    let upper = "123E4567-E89B-12D3-A456-426614174000";
    let cruid = Cruid::parse(upper.as_bytes()).unwrap();
    assert_eq!(cruid.as_str(), upper);
    assert_eq!(cruid.to_bytes(), EXAMPLE_BYTES);
    let canonical = Cruid::from_bytes(&cruid.to_bytes());
    assert_eq!(canonical.as_str(), EXAMPLE_CRUID);
    assert_ne!(canonical, cruid);
}

#[test]
fn from_str_parses() {
    let cruid: Cruid = EXAMPLE_CRUID.parse().unwrap();
    assert_eq!(cruid.as_str(), EXAMPLE_CRUID);
    let as_ref: &str = cruid.as_ref();
    assert_eq!(as_ref, EXAMPLE_CRUID);
    assert_eq!("".parse::<Cruid>(), Err(Error::Length));
}

#[test]
fn encrypt_then_decrypt_gives_value_back() {
    let key = EncryptionKey::new(&[7u8; 16]);
    for v in [0u64, 1, 42, 0xdead_beef, u64::MAX, 1 << 63] {
        let cruid = key.encrypt(v);
        assert_eq!(key.decrypt(&cruid), Ok(v));
    }
}

#[test]
fn encrypt_is_deterministic_and_checks_the_key() {
    let key = EncryptionKey::new(&[0u8; 16]);
    let first = key.encrypt(42);
    let second = key.encrypt(42);
    assert_eq!(first.as_str(), second.as_str());
    assert_eq!(key.decrypt(&first), Ok(42));
    let other = EncryptionKey::new(&[1u8; 16]);
    assert_eq!(other.decrypt(&first), Err(Error::Decryption));
}

#[test]
fn decrypt_under_other_keys_fails() {
    let keys = [[0u8; 16], [1u8; 16], [0xaau8; 16], *b"0123456789abcdef"];
    for (i, k1) in keys.iter().enumerate() {
        for (j, k2) in keys.iter().enumerate() {
            if i == j {
                continue;
            }
            let enc = EncryptionKey::new(k1);
            let dec = EncryptionKey::new(k2);
            for v in [0u64, 42, u64::MAX] {
                assert_eq!(dec.decrypt(&enc.encrypt(v)), Err(Error::Decryption));
            }
        }
    }
}

#[test]
fn encrypt_hides_the_value() {
    let key = EncryptionKey::new(&[0u8; 16]);
    let cruid = key.encrypt(42);
    let mut plain = [0u8; 16];
    plain[0] = 42;
    assert_ne!(cruid.to_bytes(), plain);
    assert_ne!(cruid.as_str(), Cruid::from_bytes(&plain).as_str());
}

#[test]
fn encrypt_matches_aes_128() {
    // FIPS-197 appendix C.1: this block decrypts to 00112233...eeff, whose
    // high eight bytes are not a zero tag.
    let key: [u8; 16] = [0, 1, 2, 3, 4, 5, 6, 7, 8, 9, 10, 11, 12, 13, 14, 15];
    let key = EncryptionKey::new(&key);
    let cipher = Cruid::parse("69c4e0d8-6a7b-0430-d8cd-b78070b4c55a".as_bytes()).unwrap();
    assert_eq!(key.decrypt(&cipher), Err(Error::Decryption));
}

#[test]
fn decrypt_of_arbitrary_cruid_fails() {
    let key = EncryptionKey::new(&[0u8; 16]);
    let cruid = Cruid::parse(EXAMPLE_CRUID.as_bytes()).unwrap();
    assert_eq!(key.decrypt(&cruid), Err(Error::Decryption));
}

#[test]
fn error_messages() {
    assert_eq!(Error::Decryption.message(), "decryption failed");
    assert_eq!(Error::Encoding.message(), "encoding invalid");
    assert_eq!(Error::Length.message(), "length invalid");
}

#[test]
fn key_size_is_sixteen_bytes() {
    assert_eq!(EncryptionKey::BYTE_SIZE, 16);
}

#[test]
fn fields_follow_the_uuid_layout() {
    let cruid = Cruid::parse(EXAMPLE_CRUID.as_bytes()).unwrap();
    let fields = cruid.iter_fields();
    let expected: [&[u8]; 5] = [b"123e4567", b"e89b", b"12d3", b"a456", b"426614174000"];
    assert_eq!(fields.len(), 5);
    for (field, want) in fields.iter().zip(expected.iter()) {
        assert_eq!(field, want);
    }
}

#[test]
fn uuid_converts_to_cruid() {
    let uuid = uuid::Uuid::from_bytes(EXAMPLE_BYTES);
    let cruid = Cruid::from(uuid);
    assert_eq!(cruid.as_str(), EXAMPLE_CRUID);
}

#[test]
fn uuid_to_cruid_and_back() {
    let uuid = uuid::Uuid::from_bytes([9u8; 16]);
    assert_eq!(uuid::Uuid::from(Cruid::from(uuid)), uuid);
}

#[test]
fn authenticated_cruid_is_the_encryption_of_its_value() {
    let key = EncryptionKey::new(&[3u8; 16]);
    let cruid = key.encrypt(123_456);
    let upper = cruid.as_str().to_ascii_uppercase();
    let parsed = Cruid::parse(upper.as_bytes()).unwrap();
    assert_eq!(key.decrypt(&parsed), Ok(123_456));
    assert_eq!(parsed.to_bytes(), key.encrypt(123_456).to_bytes());
}
