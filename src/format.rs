//! The names by which algorithms and output formats are chosen.
use crate::error::TextError;
use vstd::prelude::*;

verus! {

/// Whether two texts are the same.
fn same_text(a: &str, b: &str) -> (r: bool)
    ensures
        r == (a@ == b@),
{
    a.to_owned() == b.to_owned()
}

/// The signing schemes.
#[derive(Debug, Clone, Copy, PartialEq, Eq, Structural)]
pub enum TextSignFormat {
    /// A BLAKE3 keyed hash: one 32-byte key signs and verifies.
    Blake3,
    /// Ed25519: a secret key signs, its public key verifies.
    Ed25519,
}

impl TextSignFormat {
    /// The name of the scheme.
    pub open spec fn spec_name(self) -> Seq<char> {
        match self {
            TextSignFormat::Blake3 => "blake3"@,
            TextSignFormat::Ed25519 => "ed25519"@,
        }
    }

    /// The name of the scheme.
    pub fn name(&self) -> (r: &'static str)
        ensures
            r@ == self.spec_name(),
    {
        match self {
            TextSignFormat::Blake3 => "blake3",
            TextSignFormat::Ed25519 => "ed25519",
        }
    }
}

/// The signing scheme called `format`: `blake3` or `ed25519`.
pub fn parse_sig_format(format: &str) -> (r: Result<TextSignFormat, TextError>)
    ensures
        match r {
            Ok(f) => format@ == f.spec_name(),
            Err(e) => e == TextError::Format && format@ != "blake3"@ && format@ != "ed25519"@,
        },
{
    if same_text(format, "blake3") {
        Ok(TextSignFormat::Blake3)
    } else if same_text(format, "ed25519") {
        Ok(TextSignFormat::Ed25519)
    } else {
        Err(TextError::Format)
    }
}

/// The ciphers.
#[derive(Debug, Clone, Copy, PartialEq, Eq, Structural)]
pub enum TextCryptoFormat {
    /// ChaCha20-Poly1305 with a 32-byte key and a 12-byte nonce.
    Chacha20,
}

impl TextCryptoFormat {
    /// The name of the cipher.
    pub open spec fn spec_name(self) -> Seq<char> {
        match self {
            TextCryptoFormat::Chacha20 => "chacha20"@,
        }
    }

    /// The name of the cipher.
    pub fn name(&self) -> (r: &'static str)
        ensures
            r@ == self.spec_name(),
    {
        match self {
            TextCryptoFormat::Chacha20 => "chacha20",
        }
    }
}

/// The cipher called `format`: `chacha20`.
pub fn parse_crypto_format(format: &str) -> (r: Result<TextCryptoFormat, TextError>)
    ensures
        match r {
            Ok(f) => format@ == f.spec_name(),
            Err(e) => e == TextError::Format && format@ != "chacha20"@,
        },
{
    if same_text(format, "chacha20") {
        Ok(TextCryptoFormat::Chacha20)
    } else {
        Err(TextError::Format)
    }
}

/// The base64 alphabets.
#[derive(Debug, Clone, Copy, PartialEq, Eq, Structural)]
pub enum Base64Format {
    /// The standard alphabet, padded.
    Standard,
    /// The URL-safe alphabet, unpadded.
    UrlSafe,
}

impl Base64Format {
    /// The name of the alphabet.
    pub open spec fn spec_name(self) -> Seq<char> {
        match self {
            Base64Format::Standard => "standard"@,
            Base64Format::UrlSafe => "urlsafe"@,
        }
    }

    /// The name of the alphabet.
    pub fn name(&self) -> (r: &'static str)
        ensures
            r@ == self.spec_name(),
    {
        match self {
            Base64Format::Standard => "standard",
            Base64Format::UrlSafe => "urlsafe",
        }
    }
}

/// The base64 alphabet called `format`: `standard` or `urlsafe`.
pub fn parse_base64_format(format: &str) -> (r: Result<Base64Format, TextError>)
    ensures
        match r {
            Ok(f) => format@ == f.spec_name(),
            Err(e) => e == TextError::Format && format@ != "standard"@ && format@ != "urlsafe"@,
        },
{
    if same_text(format, "standard") {
        Ok(Base64Format::Standard)
    } else if same_text(format, "urlsafe") {
        Ok(Base64Format::UrlSafe)
    } else {
        Err(TextError::Format)
    }
}

/// The formats into which tabular data can be converted.
#[derive(Debug, Clone, Copy, PartialEq, Eq, Structural)]
pub enum OutputFormat {
    Json,
    Yaml,
}

impl OutputFormat {
    /// The name of the format.
    pub open spec fn spec_name(self) -> Seq<char> {
        match self {
            OutputFormat::Json => "json"@,
            OutputFormat::Yaml => "yaml"@,
        }
    }

    /// The name of the format.
    pub fn name(&self) -> (r: &'static str)
        ensures
            r@ == self.spec_name(),
    {
        match self {
            OutputFormat::Json => "json",
            OutputFormat::Yaml => "yaml",
        }
    }
}

/// The output format called `format`: `json` or `yaml`.
pub fn parse_format(format: &str) -> (r: Result<OutputFormat, TextError>)
    ensures
        match r {
            Ok(f) => format@ == f.spec_name(),
            Err(e) => e == TextError::Format && format@ != "json"@ && format@ != "yaml"@,
        },
{
    if same_text(format, "json") {
        Ok(OutputFormat::Json)
    } else if same_text(format, "yaml") {
        Ok(OutputFormat::Yaml)
    } else {
        Err(TextError::Format)
    }
}

} // verus!
