//! A small text-security toolkit: keyed-hash and Ed25519 signing of whole
//! messages, ChaCha20-Poly1305 encryption, the base64 text form of their
//! results, key generation, and the checks and parsers that the command
//! line around them needs.
pub mod cli;
pub mod codec;
pub mod error;
pub mod expiration;
pub mod format;
pub mod genpass;
pub mod jwt;
pub mod primitives;
pub mod text;

pub use cli::{
    key_file_names, verify_file, verify_input_file, verify_path, Base64DecodeOpts,
    Base64EncodeOpts, Base64SubCommand, CsvOpts, GenPassOpts, HttpServeOpts, HttpSubCommand,
    JwtSignOpts, JwtSubCommand, JwtVerifyOpts, Opts, Player, SubCommand, TextDecryptOpts,
    TextEncryptOpts, TextKeyGenerateOpts, TextSignOpts, TextSubCommand, TextVerifyOpts,
};
pub use codec::{decode_text, encode_text, process_decode, process_encode};
pub use error::TextError;
pub use expiration::{expiration_at, verify_expiration};
pub use format::{
    parse_base64_format, parse_crypto_format, parse_format, parse_sig_format, Base64Format,
    OutputFormat, TextCryptoFormat, TextSignFormat,
};
pub use genpass::{generate_password, process_genpass};
pub use jwt::{proceess_jwt_sign, process_jwt_verify, JwtError};
pub use text::{
    process_text_decrypt, process_text_encrypt, process_text_generate, process_text_sign,
    process_text_verify, Blake3, Chacha20, Ed25519Signer, Ed25519Verifier, KeyGenerator,
    KeyLoader, TextDecrypt, TextEncrypt, TextSign, TextVerify,
};
