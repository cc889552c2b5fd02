use rpgmv_codec::encryption_key::EncryptionKey;
use rpgmv_codec::error::Error;
use rpgmv_codec::image::{decrypt, decrypt_derive_key, derive_key, DEFAULT_PNG_HEADER};

const KEY_BYTES: [u8; 16] = [
    0x00, 0x11, 0x22, 0x33, 0x44, 0x55, 0x66, 0x77, 0x88, 0x99, 0xaa, 0xbb, 0xcc, 0xdd, 0xee, 0xff,
];

fn container(key: &[u8; 16], body: &[u8]) -> Vec<u8> {
    let mut source = vec![0x52u8, 0x50, 0x47, 0x4d, 0x56, 0, 0, 0, 0, 3, 1, 0, 0, 0, 0, 0];
    for i in 0..16 {
        source.push(DEFAULT_PNG_HEADER[i] ^ key[i]);
    }
    source.extend_from_slice(body);
    source
}

#[test]
fn key_from_lower_case_hex() {
    let key = EncryptionKey::from_hex_str("00112233445566778899aabbccddeeff").unwrap();
    assert_eq!(key, EncryptionKey::new(KEY_BYTES));
}

#[test]
fn key_from_upper_and_mixed_case_hex() {
    let upper = EncryptionKey::from_hex_str("00112233445566778899AABBCCDDEEFF").unwrap();
    let mixed = EncryptionKey::from_hex_str("00112233445566778899aAbBcCdDeEfF").unwrap();
    assert_eq!(upper, EncryptionKey::new(KEY_BYTES));
    assert_eq!(mixed, EncryptionKey::new(KEY_BYTES));
}

#[test]
fn key_digits_are_read_high_digit_first() {
    let key = EncryptionKey::from_hex_str("0f10a5000000000000000000000000ff").unwrap();
    let mut expected = [0u8; 16];
    expected[0] = 0x0f;
    expected[1] = 0x10;
    expected[2] = 0xa5;
    expected[15] = 0xff;
    assert_eq!(key, EncryptionKey::new(expected));
}

#[test]
fn key_of_wrong_length_is_refused() {
    assert_eq!(
        EncryptionKey::from_hex_str("abc"),
        Err(Error::Key("Invalid encryption key length: abc".to_string()))
    );
    assert_eq!(
        EncryptionKey::from_hex_str(""),
        Err(Error::Key("Invalid encryption key length: ".to_string()))
    );
    let long = "00112233445566778899aabbccddeeff00";
    assert_eq!(
        EncryptionKey::from_hex_str(long),
        Err(Error::Key(format!("Invalid encryption key length: {long}")))
    );
}

#[test]
fn key_with_a_character_that_is_no_digit_is_refused() {
    let expected = Err(Error::Key(
        "Invalid encryption key data: invalid digit found in string".to_string(),
    ));
    assert_eq!(EncryptionKey::from_hex_str("00112233445566778899aabbccddeefg"), expected);
    assert_eq!(EncryptionKey::from_hex_str("0011223344556677 899aabbccddeeff"), expected);
    assert_eq!(EncryptionKey::from_hex_str("+0112233445566778899aabbccddeeff"), expected);
    assert_eq!(EncryptionKey::from_hex_str("-0112233445566778899aabbccddeeff"), expected);
}

#[test]
fn key_with_a_character_beyond_ascii_is_refused() {
    // 30 digits and one character of two bytes: 32 bytes, 31 characters.
    let text = "00112233445566778899aabbccddeeé";
    assert_eq!(text.len(), 32);
    assert_eq!(
        EncryptionKey::from_hex_str(text),
        Err(Error::Key(
            "Invalid encryption key data: invalid digit found in string".to_string()
        ))
    );
    // 32 characters, 33 bytes.
    let text = "00112233445566778899aabbccddeefé";
    assert!(matches!(EncryptionKey::from_hex_str(text), Err(Error::Key(_))));
}

#[test]
fn xor_combines_each_byte_with_the_key_byte_of_its_place() {
    let key = EncryptionKey::new(KEY_BYTES);
    assert_eq!(key.xor(&[]), Vec::<u8>::new());
    assert_eq!(key.xor(&[0xff]), vec![0xff]);
    assert_eq!(key.xor(&[0xff, 0xff, 0x0f]), vec![0xff, 0xee, 0x2d]);
}

#[test]
fn xor_starts_the_key_again_after_sixteen_bytes() {
    let key = EncryptionKey::new(KEY_BYTES);
    let data = [0u8; 40];
    let out = key.xor(&data);
    assert_eq!(out.len(), 40);
    for i in 0..40 {
        assert_eq!(out[i], KEY_BYTES[i % 16]);
    }
}

#[test]
fn xor_twice_gives_the_data_back() {
    let key = EncryptionKey::new(KEY_BYTES);
    let data: Vec<u8> = (0..=255u8).chain(0..100u8).collect();
    let once = key.xor(&data);
    assert_ne!(once, data);
    assert_eq!(key.xor(&once), data);
}

#[test]
fn decrypt_with_the_key_gives_header_and_body() {
    let body = [1u8, 2, 3, 4, 5];
    let source = container(&KEY_BYTES, &body);
    let out = decrypt(Some(EncryptionKey::new(KEY_BYTES)), &source).unwrap();
    let mut expected = DEFAULT_PNG_HEADER.to_vec();
    expected.extend_from_slice(&body);
    assert_eq!(out, expected);
    assert_eq!(out.len(), source.len() - 16);
}

#[test]
fn decrypt_with_another_key_gives_another_header() {
    let source = container(&KEY_BYTES, &[9, 9]);
    let out = decrypt(Some(EncryptionKey::new([0u8; 16])), &source).unwrap();
    assert_eq!(&out[..16], &source[16..32]);
    assert_eq!(&out[16..], &[9, 9]);
}

#[test]
fn decrypt_without_a_key_derives_it() {
    let body = [0xde, 0xad, 0xbe, 0xef];
    let source = container(&KEY_BYTES, &body);
    assert_eq!(derive_key(&source), Ok(EncryptionKey::new(KEY_BYTES)));
    let mut expected = DEFAULT_PNG_HEADER.to_vec();
    expected.extend_from_slice(&body);
    assert_eq!(decrypt(None, &source), Ok(expected.clone()));
    assert_eq!(decrypt_derive_key(&source), Ok(expected));
}

#[test]
fn decrypt_of_exactly_the_two_blocks_has_no_body() {
    let source = container(&KEY_BYTES, &[]);
    assert_eq!(source.len(), 32);
    assert_eq!(decrypt_derive_key(&source), Ok(DEFAULT_PNG_HEADER.to_vec()));
}

#[test]
fn decrypt_of_a_short_source_is_refused() {
    let key = || Some(EncryptionKey::new(KEY_BYTES));
    assert_eq!(decrypt(key(), &[]), Err(Error::Truncated));
    assert_eq!(decrypt(key(), &[0u8; 16]), Err(Error::Truncated));
    assert_eq!(decrypt(key(), &[0u8; 31]), Err(Error::Truncated));
    assert_eq!(decrypt(None, &[0u8; 31]), Err(Error::Truncated));
    assert_eq!(decrypt_derive_key(&[0u8; 5]), Err(Error::Truncated));
    assert_eq!(derive_key(&[0u8; 31]), Err(Error::Truncated));
}
