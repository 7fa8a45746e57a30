//! The commands of the command-line tool, as plain values, and the checks on
//! arguments that name files and directories.
use crate::format::{Base64Format, OutputFormat, TextCryptoFormat, TextSignFormat};
use crate::primitives::{path_exists, path_is_dir};
use vstd::prelude::*;

verus! {

/// Whether two texts are the same.
fn same_text(a: &str, b: &str) -> (r: bool)
    ensures
        r == (a@ == b@),
{
    a.to_owned() == b.to_owned()
}

/// Accepts `-` (standard input) or the name of something that exists.
pub fn verify_file(filename: &str) -> (r: Result<String, &'static str>)
    ensures
        filename@ == "-"@ ==> r is Ok,
        match r {
            Ok(name) => name@ == filename@,
            Err(m) => filename@ != "-"@ && m@ == "File does not exist"@,
        },
{
    if same_text(filename, "-") || path_exists(filename) {
        Ok(filename.to_owned())
    } else {
        Err("File does not exist")
    }
}

/// Accepts the name of something that exists.
pub fn verify_input_file(filename: &str) -> (r: Result<String, &'static str>)
    ensures
        match r {
            Ok(name) => name@ == filename@,
            Err(m) => m@ == "File does not exist"@,
        },
{
    if path_exists(filename) {
        Ok(filename.to_owned())
    } else {
        Err("File does not exist")
    }
}

/// Accepts the name of an existing directory.
pub fn verify_path(path: &str) -> (r: Result<String, &'static str>)
    ensures
        match r {
            Ok(name) => name@ == path@,
            Err(m) => m@ == "Path does not exist or is not directory"@,
        },
{
    if path_exists(path) && path_is_dir(path) {
        Ok(path.to_owned())
    } else {
        Err("Path does not exist or is not directory")
    }
}

/// The command line: one subcommand.
#[derive(Debug)]
pub struct Opts {
    pub cmd: SubCommand,
}

/// The subcommands.
#[derive(Debug)]
pub enum SubCommand {
    /// Show CSV, or convert CSV to other formats.
    Csv(CsvOpts),
    /// Generate a random password.
    GenPass(GenPassOpts),
    /// Base64 encoding and decoding.
    Base64(Base64SubCommand),
    /// Signing, verification, key generation and encryption of text.
    Text(TextSubCommand),
    /// Serving a directory over HTTP.
    Http(HttpSubCommand),
    /// Signing and verifying tokens.
    Jwt(JwtSubCommand),
}

/// Options of the CSV conversion.
#[derive(Debug)]
pub struct CsvOpts {
    pub input: String,
    pub output: Option<String>,
    pub format: OutputFormat,
    pub delimiter: char,
    pub header: bool,
}

/// Options of the password generator.
#[derive(Debug)]
pub struct GenPassOpts {
    pub length: u8,
    pub uppercase: bool,
    pub lowercase: bool,
    pub number: bool,
    pub symbol: bool,
}

/// A row of the player table that the CSV conversion is tried on.
#[derive(Debug)]
pub struct Player {
    pub name: String,
    pub position: String,
    pub dob: String,
    pub nationality: String,
    pub kit: u8,
}

/// Base64 subcommands.
#[derive(Debug)]
pub enum Base64SubCommand {
    Encode(Base64EncodeOpts),
    Decode(Base64DecodeOpts),
}

/// Options of base64 encoding: the input file (`-` for standard input).
#[derive(Debug)]
pub struct Base64EncodeOpts {
    pub input: String,
    pub format: Base64Format,
}

/// Options of base64 decoding: the input file (`-` for standard input).
#[derive(Debug)]
pub struct Base64DecodeOpts {
    pub input: String,
    pub format: Base64Format,
}

/// HTTP subcommands.
#[derive(Debug)]
pub enum HttpSubCommand {
    Serve(HttpServeOpts),
}

/// Options of the file server: the directory and the port.
#[derive(Debug)]
pub struct HttpServeOpts {
    pub dir: String,
    pub port: u16,
}

/// Token subcommands.
#[derive(Debug)]
pub enum JwtSubCommand {
    Sign(JwtSignOpts),
    Verify(JwtVerifyOpts),
}

/// Claims of a token to sign: subject, audience and expiration time.
#[derive(Debug)]
pub struct JwtSignOpts {
    pub sub: String,
    pub aud: String,
    pub exp: u64,
}

/// A token to verify.
#[derive(Debug)]
pub struct JwtVerifyOpts {
    pub token: String,
}

/// Text subcommands.
#[derive(Debug)]
pub enum TextSubCommand {
    Sign(TextSignOpts),
    Verify(TextVerifyOpts),
    Generate(TextKeyGenerateOpts),
    Encrypt(TextEncryptOpts),
    Decrypt(TextDecryptOpts),
}

/// Options of signing: the input (`-` for standard input) and the key file.
#[derive(Debug)]
pub struct TextSignOpts {
    pub input: String,
    pub key: String,
    pub format: TextSignFormat,
}

/// Options of verification: input, key file and signature text.
#[derive(Debug)]
pub struct TextVerifyOpts {
    pub input: String,
    pub key: String,
    pub sig: String,
    pub format: TextSignFormat,
}

/// Options of key generation: the scheme and the output directory.
#[derive(Debug)]
pub struct TextKeyGenerateOpts {
    pub format: TextSignFormat,
    pub output: String,
}

/// Options of encryption: input, key file and nonce file.
#[derive(Debug)]
pub struct TextEncryptOpts {
    pub input: String,
    pub key: String,
    pub nonce: String,
    pub format: TextCryptoFormat,
}

/// Options of decryption: input, key file and nonce file.
#[derive(Debug)]
pub struct TextDecryptOpts {
    pub input: String,
    pub key: String,
    pub nonce: String,
    pub format: TextCryptoFormat,
}

/// The names of the files, in the output directory, that receive the keys
/// that key generation gives for `format`, one per key and in the same order.
pub fn key_file_names(format: TextSignFormat) -> (r: Vec<&'static str>)
    ensures
        match format {
            TextSignFormat::Blake3 => r@.len() == 1 && r@[0]@ == "blake3.txt"@,
            TextSignFormat::Ed25519 => r@.len() == 2 && r@[0]@ == "ed25519.sk"@ && r@[1]@
                == "ed25519.pk"@,
        },
{
    match format {
        TextSignFormat::Blake3 => vec!["blake3.txt"],
        TextSignFormat::Ed25519 => vec!["ed25519.sk", "ed25519.pk"],
    }
}

} // verus!
