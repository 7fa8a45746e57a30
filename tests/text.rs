use rcli::{
    decode_text, encode_text, process_text_decrypt, process_text_encrypt, process_text_generate,
    process_text_sign, process_text_verify, Blake3, Chacha20, Ed25519Signer, Ed25519Verifier,
    KeyGenerator, KeyLoader, TextCryptoFormat, TextDecrypt, TextEncrypt, TextError, TextSign,
    TextSignFormat, TextVerify,
};

const ZERO_KEY_HELLO: [u8; 32] = [
    224, 246, 139, 254, 195, 97, 33, 110, 192, 47, 193, 87, 54, 100, 58, 112, 71, 29, 150, 38, 11,
    15, 230, 242, 115, 169, 9, 187, 139, 109, 189, 129,
];

fn hex(s: &str) -> Vec<u8> {
    (0..s.len())
        .step_by(2)
        .map(|i| u8::from_str_radix(&s[i..i + 2], 16).unwrap())
        .collect()
}

fn password_key() -> Vec<u8> {
    b"Hx7#kQ2@pZ9!mW4$tR6^yN3&vB8*cF5_".to_vec()
}

#[test]
fn test_blake_sign_verify() {
    let blake3 = Blake3::load(&password_key()).unwrap();
    let data = b"hello";
    let sig = blake3.sign(&data[..]);
    assert!(blake3.verify(&data[..], &sig).unwrap());
}

#[test]
fn test_ed25519_sign_verify() {
    let keys = Ed25519Signer::generate().unwrap();
    let sk = Ed25519Signer::load(&keys[0]).unwrap();
    let pk = Ed25519Verifier::load(&keys[1]).unwrap();
    let data = b"hello";
    let sig = sk.sign(&data[..]);
    assert!(pk.verify(&data[..], &sig).unwrap());
}

#[test]
fn keyed_hash_golden_value() {
    let signer = Blake3::new([0u8; 32]);
    assert_eq!(signer.sign(b"hello"), ZERO_KEY_HELLO.to_vec());
    let text = process_text_sign(b"hello", &[0u8; 32], TextSignFormat::Blake3).unwrap();
    assert_eq!(text, "4PaL_sNhIW7AL8FXNmQ6cEcdliYLD-byc6kJu4ttvYE");
}

#[test]
fn keyed_hash_round_trip_on_many_inputs() {
    let signer = Blake3::load(&password_key()).unwrap();
    for m in [&b""[..], b"a", b"hello world", &[0u8; 1000][..], &[255u8; 3000][..]] {
        let sig = signer.sign(m);
        assert_eq!(sig.len(), 32);
        assert_eq!(signer.verify(m, &sig), Ok(true));
    }
}

#[test]
fn keyed_hash_rejects_bit_flips() {
    let signer = Blake3::new([7u8; 32]);
    let message = b"integrity matters".to_vec();
    let sig = signer.sign(&message);
    for byte in 0..message.len() {
        for bit in 0..8 {
            let mut changed = message.clone();
            changed[byte] ^= 1 << bit;
            assert_eq!(signer.verify(&changed, &sig), Ok(false));
        }
    }
}

#[test]
fn keyed_hash_rejects_other_key_and_short_signature() {
    let signer = Blake3::new([1u8; 32]);
    let other = Blake3::new([2u8; 32]);
    let sig = signer.sign(b"hello");
    assert_eq!(other.verify(b"hello", &sig), Ok(false));
    assert_eq!(signer.verify(b"hello", &sig[..31]), Err(TextError::Format));
    let mut long = sig.clone();
    long.push(0);
    assert_eq!(signer.verify(b"hello", &long), Err(TextError::Format));
}

#[test]
fn ed25519_rfc8032_vector() {
    let secret = hex("9d61b19deffd5a60ba844af492ec2cc44449c5697b326919703bac031cae7f60");
    let public = hex("d75a980182b10ab7d54bfed3c964073a0ee172f3daa62325af021a68f707511a");
    let expected = hex(
        "e5564300c360ac729086e2cc806e828a84877f1eb8e5d974d873e065224901555fb8821590a33bacc61e39701cf9b46bd25bf5f0595bbe24655141438e7a100b",
    );
    let signer = Ed25519Signer::try_new(&secret).unwrap();
    assert_eq!(signer.sign(b""), expected);
    let verifier = Ed25519Verifier::try_new(&public).unwrap();
    assert_eq!(verifier.verify(b"", &expected), Ok(true));
    let derived = signer.verifying_key();
    assert_eq!(derived.verify(b"", &expected), Ok(true));
}

#[test]
fn ed25519_round_trip_and_bit_flips() {
    let keys = process_text_generate(TextSignFormat::Ed25519).unwrap();
    assert_eq!(keys.len(), 2);
    assert_eq!(keys[0].len(), 32);
    assert_eq!(keys[1].len(), 32);
    let signer = Ed25519Signer::load(&keys[0]).unwrap();
    let verifier = Ed25519Verifier::load(&keys[1]).unwrap();
    let message = b"signed text".to_vec();
    let sig = signer.sign(&message);
    assert_eq!(sig.len(), 64);
    assert_eq!(verifier.verify(&message, &sig), Ok(true));
    assert_eq!(signer.verifying_key().verify(&message, &sig), Ok(true));
    for byte in 0..message.len() {
        let mut changed = message.clone();
        changed[byte] ^= 0x10;
        assert_eq!(verifier.verify(&changed, &sig), Ok(false));
    }
}

#[test]
fn ed25519_shape_errors() {
    let keys = Ed25519Signer::generate().unwrap();
    let verifier = Ed25519Verifier::load(&keys[1]).unwrap();
    assert_eq!(verifier.verify(b"x", &[0u8; 63]), Err(TextError::Format));
    assert_eq!(verifier.verify(b"x", &[0u8; 65]), Err(TextError::Format));
    assert!(Ed25519Verifier::try_new(&[0u8; 31]).is_err());
    assert_eq!(
        Ed25519Verifier::try_new(&[0u8; 33]).err(),
        Some(TextError::Format)
    );
    let mut off_curve = [0u8; 32];
    off_curve[0] = 2;
    assert_eq!(Ed25519Verifier::try_new(&off_curve).err(), Some(TextError::Crypto));
    assert_eq!(Ed25519Signer::try_new(&[0u8; 31]).err(), Some(TextError::Length));
}

#[test]
fn keyed_hash_generated_keys_differ() {
    let a = process_text_generate(TextSignFormat::Blake3).unwrap();
    let b = Blake3::generate().unwrap();
    assert_eq!(a.len(), 1);
    assert_eq!(b.len(), 1);
    assert_eq!(a[0].len(), 32);
    assert_eq!(b[0].len(), 32);
    assert_ne!(a[0], b[0]);
    let signer = Blake3::load(&a[0]).unwrap();
    let sig = signer.sign(b"hello");
    assert_eq!(signer.verify(b"hello", &sig), Ok(true));
}

#[test]
fn key_file_of_forty_bytes_uses_first_thirty_two() {
    let mut contents = vec![9u8; 32];
    contents.extend_from_slice(b"trailing");
    assert_eq!(contents.len(), 40);
    let loaded = Blake3::load(&contents).unwrap();
    let direct = Blake3::new([9u8; 32]);
    assert_eq!(loaded.sign(b"msg"), direct.sign(b"msg"));
    let text_a = process_text_sign(b"msg", &contents, TextSignFormat::Blake3).unwrap();
    let text_b = process_text_sign(b"msg", &[9u8; 32], TextSignFormat::Blake3).unwrap();
    assert_eq!(text_a, text_b);
}

#[test]
fn short_key_is_a_length_error() {
    assert_eq!(Blake3::try_new(&[0u8; 31]).err(), Some(TextError::Length));
    assert_eq!(
        process_text_sign(b"m", &[0u8; 10], TextSignFormat::Ed25519),
        Err(TextError::Length)
    );
    assert_eq!(
        process_text_encrypt(b"m", &[0u8; 32], &[0u8; 11], TextCryptoFormat::Chacha20),
        Err(TextError::Length)
    );
    assert_eq!(
        process_text_decrypt(b"AAAA", &[0u8; 31], &[0u8; 12], TextCryptoFormat::Chacha20),
        Err(TextError::Length)
    );
}

#[test]
fn text_sign_then_verify() {
    let key = password_key();
    let sig = process_text_sign(b"hello", &key, TextSignFormat::Blake3).unwrap();
    assert_eq!(
        process_text_verify(b"hello", &key, TextSignFormat::Blake3, &sig),
        Ok(true)
    );
    assert_eq!(
        process_text_verify(b"hellp", &key, TextSignFormat::Blake3, &sig),
        Ok(false)
    );
    let padded = format!("  {}\n", sig);
    assert_eq!(
        process_text_verify(b"hello", &key, TextSignFormat::Blake3, &padded),
        Ok(true)
    );
    assert_eq!(
        process_text_verify(b"hello", &key, TextSignFormat::Blake3, "not base64!"),
        Err(TextError::Format)
    );

    let keys = process_text_generate(TextSignFormat::Ed25519).unwrap();
    let sig = process_text_sign(b"hello", &keys[0], TextSignFormat::Ed25519).unwrap();
    assert_eq!(
        process_text_verify(b"hello", &keys[1], TextSignFormat::Ed25519, &sig),
        Ok(true)
    );
    assert_eq!(
        process_text_verify(b"Hello", &keys[1], TextSignFormat::Ed25519, &sig),
        Ok(false)
    );
    assert_eq!(
        process_text_verify(b"hello", &keys[1], TextSignFormat::Ed25519, "AAAA"),
        Err(TextError::Format)
    );
}

#[test]
fn cipher_round_trip() {
    let cipher = Chacha20::new([3u8; 32], [4u8; 12]);
    for plain in [&b""[..], b"hello", &[200u8; 5000][..]] {
        let sealed = cipher.encrypt(plain).unwrap();
        assert_eq!(sealed.len(), plain.len() + 16);
        let text = encode_text(&sealed);
        assert_eq!(cipher.decrypt(text.as_bytes()).unwrap(), plain.to_vec());
    }
    let key = [5u8; 40];
    let nonce = b"0123456789ab\n";
    let text = process_text_encrypt(b"secret message", &key, nonce, TextCryptoFormat::Chacha20)
        .unwrap();
    let plain = process_text_decrypt(text.as_bytes(), &key, nonce, TextCryptoFormat::Chacha20);
    assert_eq!(plain, Ok("secret message".to_string()));
}

#[test]
fn cipher_wrong_key_or_nonce_fails() {
    let text = process_text_encrypt(b"payload", &[1u8; 32], &[2u8; 12], TextCryptoFormat::Chacha20)
        .unwrap();
    assert_eq!(
        process_text_decrypt(text.as_bytes(), &[9u8; 32], &[2u8; 12], TextCryptoFormat::Chacha20),
        Err(TextError::Crypto)
    );
    assert_eq!(
        process_text_decrypt(text.as_bytes(), &[1u8; 32], &[3u8; 12], TextCryptoFormat::Chacha20),
        Err(TextError::Crypto)
    );
    let cipher = Chacha20::try_new(&[1u8; 32], &[2u8; 12]).unwrap();
    let mut sealed = decode_text(text.as_bytes()).unwrap();
    sealed[0] ^= 1;
    assert_eq!(cipher.decrypt(encode_text(&sealed).as_bytes()), Err(TextError::Crypto));
    assert_eq!(cipher.decrypt(b"AAAA"), Err(TextError::Crypto));
}

#[test]
fn decrypt_rejects_bad_text_and_non_utf8() {
    let key = [1u8; 32];
    let nonce = [2u8; 12];
    assert_eq!(
        process_text_decrypt(b"abc$def", &key, &nonce, TextCryptoFormat::Chacha20),
        Err(TextError::Format)
    );
    let text = process_text_encrypt(&[0xff, 0xfe], &key, &nonce, TextCryptoFormat::Chacha20)
        .unwrap();
    assert_eq!(
        process_text_decrypt(text.as_bytes(), &key, &nonce, TextCryptoFormat::Chacha20),
        Err(TextError::Format)
    );
}

#[test]
fn codec_round_trip_and_invalid_characters() {
    assert_eq!(encode_text(b"hello"), "aGVsbG8");
    assert_eq!(encode_text(&[0xfb, 0xff]), "-_8");
    assert_eq!(decode_text(b"aGVsbG8"), Ok(b"hello".to_vec()));
    assert_eq!(decode_text(b" \t aGVsbG8\r\n"), Ok(b"hello".to_vec()));
    assert_eq!(decode_text(b"\x0baGVsbG8\x0c\x0b"), Ok(b"hello".to_vec()));
    assert_eq!(decode_text(b""), Ok(Vec::new()));
    assert_eq!(decode_text(b"aGVs*G8"), Err(TextError::Format));
    assert_eq!(decode_text(b"aGVsbG8="), Err(TextError::Format));
    assert_eq!(decode_text(b"+/8"), Err(TextError::Format));
    assert_eq!(decode_text(b"aGV sbG8"), Err(TextError::Format));
}

#[test]
fn error_messages() {
    assert_eq!(TextError::Format.message(), "invalid format");
    assert_eq!(TextError::Length.message(), "key material is too short");
    assert_eq!(TextError::Crypto.message(), "cryptographic check failed");
}

#[test]
fn signature_texts_have_scheme_lengths_and_url_safe_alphabet() {
    let key = password_key();
    let blake = process_text_sign(b"some input", &key, TextSignFormat::Blake3).unwrap();
    assert_eq!(blake.len(), 43);
    let keys = process_text_generate(TextSignFormat::Ed25519).unwrap();
    let ed = process_text_sign(b"some input", &keys[0], TextSignFormat::Ed25519).unwrap();
    assert_eq!(ed.len(), 86);
    for text in [&blake, &ed] {
        assert!(text
            .bytes()
            .all(|b| b.is_ascii_alphanumeric() || b == b'-' || b == b'_'));
    }
    let short = encode_text(&Blake3::new([1u8; 32]).sign(b"x")[..31]);
    assert_eq!(
        process_text_verify(b"x", &[1u8; 32], TextSignFormat::Blake3, &short),
        Err(TextError::Format)
    );
}

#[test]
fn sealed_text_tolerates_surrounding_whitespace() {
    let key = [6u8; 32];
    let nonce = [7u8; 12];
    let text = process_text_encrypt(b"line one", &key, &nonce, TextCryptoFormat::Chacha20).unwrap();
    assert_eq!(text.len(), (4 * (8 + 16) + 2) / 3);
    let padded = format!("  {}\n", text);
    assert_eq!(
        process_text_decrypt(padded.as_bytes(), &key, &nonce, TextCryptoFormat::Chacha20),
        Ok("line one".to_string())
    );
    let cipher = Chacha20::new(key, nonce);
    assert_eq!(cipher.decrypt(padded.as_bytes()), Ok(b"line one".to_vec()));
}

#[test]
fn invalid_text_is_a_format_error_at_every_reader() {
    let cipher = Chacha20::new([1u8; 32], [2u8; 12]);
    assert_eq!(cipher.decrypt(b" aGV#sbG8 \n"), Err(TextError::Format));
    assert_eq!(
        process_text_decrypt(b"aGV=sbG8", &[1u8; 32], &[2u8; 12], TextCryptoFormat::Chacha20),
        Err(TextError::Format)
    );
    assert_eq!(
        process_text_verify(b"m", &[1u8; 32], TextSignFormat::Blake3, "abc.def"),
        Err(TextError::Format)
    );
}
