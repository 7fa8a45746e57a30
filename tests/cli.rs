use rcli::{
    expiration_at, key_file_names, generate_password, parse_base64_format, parse_crypto_format, parse_format,
    parse_sig_format, process_genpass, verify_expiration, verify_file, verify_input_file,
    verify_path, Base64Format, OutputFormat, TextCryptoFormat, TextError, TextSignFormat,
};

#[test]
fn test_verify_input_file() {
    assert_eq!(verify_file("-"), Ok("-".into()));
    assert_eq!(verify_file("src/lib.rs"), Ok("src/lib.rs".into()));
    assert_eq!(verify_file("nonexistent.txt"), Err("File does not exist"));
}

#[test]
fn ttt() {}

#[test]
fn input_file_and_directory_checks() {
    assert_eq!(verify_input_file("src/lib.rs"), Ok("src/lib.rs".into()));
    assert_eq!(verify_input_file("-"), Err("File does not exist"));
    assert_eq!(verify_path("tests"), Ok("tests".into()));
    assert_eq!(
        verify_path("src/lib.rs"),
        Err("Path does not exist or is not directory")
    );
    assert_eq!(
        verify_path("no_such_dir"),
        Err("Path does not exist or is not directory")
    );
}

#[test]
fn format_names() {
    assert_eq!(parse_sig_format("blake3"), Ok(TextSignFormat::Blake3));
    assert_eq!(parse_sig_format("ed25519"), Ok(TextSignFormat::Ed25519));
    assert_eq!(parse_sig_format("rsa"), Err(TextError::Format));
    assert_eq!(parse_crypto_format("chacha20"), Ok(TextCryptoFormat::Chacha20));
    assert_eq!(parse_crypto_format("aes"), Err(TextError::Format));
    assert_eq!(parse_base64_format("standard"), Ok(Base64Format::Standard));
    assert_eq!(parse_base64_format("urlsafe"), Ok(Base64Format::UrlSafe));
    assert_eq!(parse_base64_format("url"), Err(TextError::Format));
    assert_eq!(parse_format("json"), Ok(OutputFormat::Json));
    assert_eq!(parse_format("yaml"), Ok(OutputFormat::Yaml));
    assert_eq!(parse_format("toml"), Err(TextError::Format));
    assert_eq!(TextSignFormat::Ed25519.name(), "ed25519");
    assert_eq!(TextCryptoFormat::Chacha20.name(), "chacha20");
    assert_eq!(Base64Format::UrlSafe.name(), "urlsafe");
    assert_eq!(OutputFormat::Yaml.name(), "yaml");
}

#[test]
fn expiration_times() {
    assert_eq!(expiration_at("1700000000", 5), Some(1700000000));
    assert_eq!(expiration_at("+42", 5), Some(42));
    assert_eq!(expiration_at("2d", 1000), Some(1000 + 2 * 86400));
    assert_eq!(expiration_at("3D", 0), Some(3 * 86400));
    assert_eq!(expiration_at("18446744073709551615", 0), Some(u64::MAX));
    assert_eq!(expiration_at("18446744073709551616", 0), None);
    assert_eq!(expiration_at("", 0), None);
    assert_eq!(expiration_at("d", 0), None);
    assert_eq!(expiration_at("-1", 0), None);
    assert_eq!(expiration_at("12x", 0), None);
    assert_eq!(expiration_at("213503982334601d", 0), Some(18446744073709526400));
    assert_eq!(expiration_at("213503982334602d", 0), None);
    assert_eq!(expiration_at("213503982334601d", 25216), None);
    assert_eq!(verify_expiration("123"), Some(123));
    assert_eq!(verify_expiration("xd"), None);
    let later = verify_expiration("1d").unwrap();
    assert!(later > 86400 + 1_600_000_000);
}

#[test]
fn passwords() {
    let p = generate_password(32, true, true, true, true).unwrap();
    assert_eq!(p.len(), 32);
    assert!(p.iter().any(|b| b.is_ascii_uppercase()));
    assert!(p.iter().any(|b| b.is_ascii_lowercase()));
    assert!(p.iter().any(|b| b.is_ascii_digit()));
    assert!(p.iter().any(|b| b"!@#$%^&*_".contains(b)));
    assert!(!p.iter().any(|b| b"IOl0".contains(b)));
    let digits = process_genpass(10, false, false, true, false).unwrap();
    assert_eq!(digits.len(), 10);
    assert!(digits.bytes().all(|b| (b'1'..=b'9').contains(&b)));
    assert_eq!(process_genpass(8, false, false, false, false), Err(TextError::Format));
    assert_eq!(process_genpass(3, true, true, true, true), Err(TextError::Length));
    assert_eq!(process_genpass(0, false, false, false, false), Err(TextError::Format));
    assert_eq!(process_genpass(4, true, true, true, true).unwrap().len(), 4);
}

#[test]
fn generated_key_file_names() {
    assert_eq!(key_file_names(TextSignFormat::Blake3), vec!["blake3.txt"]);
    assert_eq!(
        key_file_names(TextSignFormat::Ed25519),
        vec!["ed25519.sk", "ed25519.pk"]
    );
}

