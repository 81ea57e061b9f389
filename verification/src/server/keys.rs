//! Key files and client profiles.
//!
//! A key file holds, in base64, a signing key pair for each security level and, optionally, a key
//! pair for each level that hides who a client is. Older files hold one signing key pair.

use crate::text::{
    chars_of, decimal, lowercase, lowered, push_decimal, same_text, texts,
};
use base64::Engine;
use vstd::prelude::*;

verus! {

/// What `base64` decoding with the standard alphabet makes of a text: bytes, or what is wrong.
pub uninterp spec fn base64_bytes(text: Seq<char>) -> Result<Seq<u8>, Seq<char>>;

/// What `base64` encoding with the standard alphabet makes of bytes.
pub uninterp spec fn base64_text(data: Seq<u8>) -> Seq<char>;

/// What decoding gives when all went well.
pub open spec fn decoded_as(data: Seq<u8>) -> Result<Seq<u8>, Seq<char>> {
    Ok(data)
}

/// `base64::Engine::decode` of the standard engine. What it makes of a text is only named.
#[verifier::external_body]
fn base64_decode(text: &str) -> (r: Result<Vec<u8>, String>)
    ensures
        match r {
            Ok(v) => base64_bytes(text@) == Ok::<Seq<u8>, Seq<char>>(v@),
            Err(m) => base64_bytes(text@) == Err::<Seq<u8>, Seq<char>>(m@),
        },
{
    base64::engine::general_purpose::STANDARD.decode(text).map_err(|e| e.to_string())
}

/// Whether the four characters for each three bytes fit in memory.
pub open spec fn encodable(data: Seq<u8>) -> bool {
    (data.len() + 2) / 3 * 4 <= isize::MAX
}

/// `base64::Engine::encode` of the standard engine. What it makes of bytes is only named, and that
/// decoding gives the bytes back.
#[verifier::external_body]
fn base64_encode(data: &[u8]) -> (s: String)
    requires
        encodable(data@),
    ensures
        s@ == base64_text(data@),
        base64_bytes(s@) == decoded_as(data@),
{
    base64::engine::general_purpose::STANDARD.encode(data)
}

/// A key pair in base64.
#[derive(Debug)]
pub struct KeySection {
    /// Secret key.
    pub secret_key: String,
    /// Public key.
    pub public_key: String,
}

/// The key pairs of a key file or of a configuration.
#[derive(Debug)]
pub struct KeyFile {
    /// The only signing key pair of an older file.
    pub keypair: Option<KeySection>,
    /// Signing key pair of level 3.
    pub keypair_level3: Option<KeySection>,
    /// Signing key pair of level 5.
    pub keypair_level5: Option<KeySection>,
    /// Identity hiding key pair of level 3.
    pub kem_keypair_level3: Option<KeySection>,
    /// Identity hiding key pair of level 5.
    pub kem_keypair_level5: Option<KeySection>,
}

/// Bytes of public signing keys.
#[derive(Debug, Clone, Copy)]
pub struct KeySizes {
    /// At level 3.
    pub level3: usize,
    /// At level 5.
    pub level5: usize,
}

/// Which signing keys a file offers.
#[derive(Debug, Clone, Copy, PartialEq, Eq, Structural)]
pub enum SigningFormat {
    /// One pair for each level.
    Dual,
    /// One pair for all.
    Legacy,
    /// None.
    Missing,
}

impl KeyFile {
    /// Which signing keys the file offers.
    pub open spec fn signing(self) -> SigningFormat {
        if self.keypair_level3 is Some && self.keypair_level5 is Some {
            SigningFormat::Dual
        } else if self.keypair is Some {
            SigningFormat::Legacy
        } else {
            SigningFormat::Missing
        }
    }

    /// Which signing keys the file offers; a pair for each level goes before a pair for all.
    pub fn signing_format(&self) -> (f: SigningFormat)
        ensures
            f == self.signing(),
    {
        if self.keypair_level3.is_some() && self.keypair_level5.is_some() {
            SigningFormat::Dual
        } else if self.keypair.is_some() {
            SigningFormat::Legacy
        } else {
            SigningFormat::Missing
        }
    }
}

/// What is wrong with the size of a public key.
pub open spec fn size_text(label: Seq<char>, expected: usize, got: nat) -> Seq<char> {
    label + "public key size: expected "@ + decimal(expected as nat) + ", got "@ + decimal(got)
}

/// What is wrong with a public key that was decoded.
pub open spec fn key_complaint(
    decoded: Result<Seq<u8>, Seq<char>>,
    expected: usize,
    label: Seq<char>,
) -> Option<Seq<char>> {
    match decoded {
        Err(m) => Some(m),
        Ok(bytes) => if bytes.len() != expected {
            Some(size_text(label, expected, bytes.len()))
        } else {
            None
        },
    }
}

/// The view of a decoded key.
pub open spec fn decoded_view(r: Result<Vec<u8>, String>) -> Result<Seq<u8>, Seq<char>> {
    match r {
        Ok(v) => Ok(v@),
        Err(m) => Err(m@),
    }
}

/// Checks the size of a public key that was decoded.
pub fn check_key(decoded: &Result<Vec<u8>, String>, expected: usize, label: &str) -> (r: Result<
    (),
    String,
>)
    ensures
        match r {
            Ok(_) => key_complaint(decoded_view(*decoded), expected, label@) is None,
            Err(m) => key_complaint(decoded_view(*decoded), expected, label@) == Some(m@),
        },
{
    match decoded {
        Err(m) => Err(String::from_str(m.as_str())),
        Ok(bytes) => {
            if bytes.len() != expected {
                let mut m = String::from_str(label);
                m.append("public key size: expected ");
                push_decimal(&mut m, expected as u64);
                m.append(", got ");
                push_decimal(&mut m, bytes.len() as u64);
                return Err(m);
            }
            Ok(())
        },
    }
}

/// The bytes of both keys of a pair, or what is wrong: the secret key is decoded first, then the
/// public key, whose size is then checked when one is expected.
pub open spec fn pair_bytes(
    secret: Result<Seq<u8>, Seq<char>>,
    public: Result<Seq<u8>, Seq<char>>,
    expected: Option<usize>,
    label: Seq<char>,
) -> Result<(Seq<u8>, Seq<u8>), Seq<char>> {
    match (secret, public) {
        (Err(m), _) => Err(m),
        (Ok(_), Err(m)) => Err(m),
        (Ok(s), Ok(p)) => match expected {
            Some(n) => if p.len() != n {
                Err(size_text(label, n, p.len()))
            } else {
                Ok((s, p))
            },
            None => Ok((s, p)),
        },
    }
}

/// Decodes a key pair.
pub fn decode_pair(section: &KeySection, expected: Option<usize>, label: &str) -> (r: Result<
    (Vec<u8>, Vec<u8>),
    String,
>)
    ensures
        ({
            let want = pair_bytes(
                base64_bytes(section.secret_key@),
                base64_bytes(section.public_key@),
                expected,
                label@,
            );
            match r {
                Ok(p) => want == Ok::<(Seq<u8>, Seq<u8>), Seq<char>>((p.0@, p.1@)),
                Err(m) => want == Err::<(Seq<u8>, Seq<u8>), Seq<char>>(m@),
            }
        }),
{
    let secret = base64_decode(section.secret_key.as_str());
    let public = base64_decode(section.public_key.as_str());
    join_pair(secret, public, expected, label)
}

/// Puts a decoded pair together.
pub fn join_pair(
    secret: Result<Vec<u8>, String>,
    public: Result<Vec<u8>, String>,
    expected: Option<usize>,
    label: &str,
) -> (r: Result<(Vec<u8>, Vec<u8>), String>)
    ensures
        ({
            let want = pair_bytes(decoded_view(secret), decoded_view(public), expected, label@);
            match r {
                Ok(p) => want == Ok::<(Seq<u8>, Seq<u8>), Seq<char>>((p.0@, p.1@)),
                Err(m) => want == Err::<(Seq<u8>, Seq<u8>), Seq<char>>(m@),
            }
        }),
{
    let s = match secret {
        Ok(v) => v,
        Err(m) => {
            return Err(m);
        },
    };
    let p = match public {
        Ok(v) => v,
        Err(m) => {
            return Err(m);
        },
    };
    if let Some(n) = expected {
        if p.len() != n {
            let mut m = String::from_str(label);
            m.append("public key size: expected ");
            push_decimal(&mut m, n as u64);
            m.append(", got ");
            push_decimal(&mut m, p.len() as u64);
            return Err(m);
        }
    }
    Ok((s, p))
}

/// What the signing key pair of a level is decoded to. Where there is only one pair it serves all
/// levels, and the size of its public key is not checked.
pub open spec fn signing_bytes(kf: KeyFile, sizes: KeySizes, level: ProfileLevel) -> Result<
    (Seq<u8>, Seq<u8>),
    Seq<char>,
> {
    match kf.signing() {
        SigningFormat::Dual => match level {
            ProfileLevel::Standard => pair_bytes(
                base64_bytes(kf.keypair_level3->0.secret_key@),
                base64_bytes(kf.keypair_level3->0.public_key@),
                Some(sizes.level3),
                "Invalid Level 3 "@,
            ),
            ProfileLevel::High => pair_bytes(
                base64_bytes(kf.keypair_level5->0.secret_key@),
                base64_bytes(kf.keypair_level5->0.public_key@),
                Some(sizes.level5),
                "Invalid Level 5 "@,
            ),
        },
        SigningFormat::Legacy => pair_bytes(
            base64_bytes(kf.keypair->0.secret_key@),
            base64_bytes(kf.keypair->0.public_key@),
            None,
            "Invalid "@,
        ),
        SigningFormat::Missing => Err(missing_keys_text()),
    }
}

/// What is said when a configuration has no signing keys.
pub open spec fn missing_keys_text() -> Seq<char> {
    "No keypair found in config. Run 'hpn-server genkey' to generate keypairs."@
}

/// Decodes the signing key pair that the server uses at a level.
pub fn load_signing(kf: &KeyFile, sizes: &KeySizes, level: ProfileLevel) -> (r: Result<
    (Vec<u8>, Vec<u8>),
    String,
>)
    ensures
        match r {
            Ok(p) => signing_bytes(*kf, *sizes, level) == Ok::<(Seq<u8>, Seq<u8>), Seq<char>>(
                (p.0@, p.1@),
            ),
            Err(m) => signing_bytes(*kf, *sizes, level) == Err::<(Seq<u8>, Seq<u8>), Seq<char>>(m@),
        },
{
    match (&kf.keypair_level3, &kf.keypair_level5, &kf.keypair) {
        (Some(level3), Some(level5), _) => match level {
            ProfileLevel::Standard => decode_pair(level3, Some(sizes.level3), "Invalid Level 3 "),
            ProfileLevel::High => decode_pair(level5, Some(sizes.level5), "Invalid Level 5 "),
        },
        (_, _, Some(single)) => decode_pair(single, None, "Invalid "),
        _ => Err(
            String::from_str(
                "No keypair found in config. Run 'hpn-server genkey' to generate keypairs.",
            ),
        ),
    }
}

/// A line with a public key, or with a word in its place.
pub open spec fn key_line(label: Seq<char>, section: Option<KeySection>) -> Seq<char> {
    label + (match section {
        Some(k) => k.public_key@,
        None => "(not configured)"@,
    })
}

/// The lines that show the public keys of a pair for each level.
pub open spec fn dual_lines(kf: KeyFile) -> Seq<Seq<char>> {
    seq![
        ""@,
        "=== Server Public Keys (share with clients) ==="@,
        ""@,
        "Standard security (Level 3):"@,
        key_line("  Signing (ML-DSA-65):  "@, kf.keypair_level3),
        key_line("  KEM (ML-KEM-768):     "@, kf.kem_keypair_level3),
        ""@,
        "High security (Level 5):"@,
        key_line("  Signing (ML-DSA-87):  "@, kf.keypair_level5),
        key_line("  KEM (ML-KEM-1024):    "@, kf.kem_keypair_level5),
        ""@,
        "Client configuration:"@,
        "  \"Server Public Key\"     = Signing key (ML-DSA) for your security level"@,
        "  \"Server KEM Public Key\" = KEM key (optional, enables identity hiding)"@,
    ]
}

/// What is wrong with the public signing keys of a file, given what decoding made of each: at
/// level 3, at level 5, and the only one.
pub open spec fn file_complaint(
    format: SigningFormat,
    level3: Result<Seq<u8>, Seq<char>>,
    level5: Result<Seq<u8>, Seq<char>>,
    single: Result<Seq<u8>, Seq<char>>,
    sizes: KeySizes,
) -> Option<Seq<char>> {
    match format {
        SigningFormat::Dual => match key_complaint(level3, sizes.level3, "Invalid Level 3 "@) {
            Some(m) => Some(m),
            None => key_complaint(level5, sizes.level5, "Invalid Level 5 "@),
        },
        SigningFormat::Legacy => key_complaint(single, sizes.level3, "Invalid "@),
        SigningFormat::Missing => Some("No keypair found in file"@),
    }
}

/// What decoding makes of the public key of a section; nothing is decoded where there is none.
pub open spec fn public_bytes(section: Option<KeySection>) -> Result<Seq<u8>, Seq<char>> {
    match section {
        Some(k) => base64_bytes(k.public_key@),
        None => Ok(Seq::empty()),
    }
}

/// The lines that show the public keys of a file.
pub open spec fn pubkey_lines(kf: KeyFile) -> Seq<Seq<char>> {
    match kf.signing() {
        SigningFormat::Dual => dual_lines(kf),
        SigningFormat::Legacy => seq![kf.keypair->0.public_key@],
        SigningFormat::Missing => Seq::empty(),
    }
}

fn line_with_key(label: &str, section: &Option<KeySection>) -> (s: String)
    ensures
        s@ == key_line(label@, *section),
{
    let mut s = String::from_str(label);
    match section {
        Some(k) => {
            s.append(k.public_key.as_str());
        },
        None => {
            s.append("(not configured)");
        },
    }
    s
}

fn decode_public(section: &Option<KeySection>) -> (r: Result<Vec<u8>, String>)
    ensures
        decoded_view(r) == public_bytes(*section),
{
    match section {
        Some(k) => base64_decode(k.public_key.as_str()),
        None => Ok(Vec::new()),
    }
}

/// Show the server's public keys from a key file: the lines to print.
pub fn show_pubkey(kf: &KeyFile, sizes: &KeySizes) -> (r: Result<Vec<String>, String>)
    ensures
        ({
            let complaint = file_complaint(
                kf.signing(),
                public_bytes(kf.keypair_level3),
                public_bytes(kf.keypair_level5),
                public_bytes(kf.keypair),
                *sizes,
            );
            match r {
                Ok(v) => complaint is None && texts(v@) == pubkey_lines(*kf),
                Err(m) => complaint == Some(m@),
            }
        }),
{
    match kf.signing_format() {
        SigningFormat::Dual => {
            let level3 = decode_public(&kf.keypair_level3);
            if let Err(m) = check_key(&level3, sizes.level3, "Invalid Level 3 ") {
                return Err(m);
            }
            let level5 = decode_public(&kf.keypair_level5);
            if let Err(m) = check_key(&level5, sizes.level5, "Invalid Level 5 ") {
                return Err(m);
            }
        },
        SigningFormat::Legacy => {
            let single = decode_public(&kf.keypair);
            if let Err(m) = check_key(&single, sizes.level3, "Invalid ") {
                return Err(m);
            }
        },
        SigningFormat::Missing => {
            return Err(String::from_str("No keypair found in file"));
        },
    }
    Ok(print_pubkeys(kf))
}

/// The lines that show the public keys of a file.
pub fn print_pubkeys(kf: &KeyFile) -> (v: Vec<String>)
    ensures
        texts(v@) == pubkey_lines(*kf),
{
    let mut v: Vec<String> = Vec::new();
    match kf.signing_format() {
        SigningFormat::Dual => {
            v.push(String::from_str(""));
            v.push(String::from_str("=== Server Public Keys (share with clients) ==="));
            v.push(String::from_str(""));
            v.push(String::from_str("Standard security (Level 3):"));
            v.push(line_with_key("  Signing (ML-DSA-65):  ", &kf.keypair_level3));
            v.push(line_with_key("  KEM (ML-KEM-768):     ", &kf.kem_keypair_level3));
            v.push(String::from_str(""));
            v.push(String::from_str("High security (Level 5):"));
            v.push(line_with_key("  Signing (ML-DSA-87):  ", &kf.keypair_level5));
            v.push(line_with_key("  KEM (ML-KEM-1024):    ", &kf.kem_keypair_level5));
            v.push(String::from_str(""));
            v.push(String::from_str("Client configuration:"));
            v.push(
                String::from_str(
                    "  \"Server Public Key\"     = Signing key (ML-DSA) for your security level",
                ),
            );
            v.push(
                String::from_str(
                    "  \"Server KEM Public Key\" = KEM key (optional, enables identity hiding)",
                ),
            );
            proof {
                assert(texts(v@) =~= dual_lines(*kf));
            }
        },
        SigningFormat::Legacy => {
            if let Some(k) = &kf.keypair {
                v.push(String::from_str(k.public_key.as_str()));
                proof {
                    assert(texts(v@) =~= seq![kf.keypair->0.public_key@]);
                }
            }
        },
        SigningFormat::Missing => {
            proof {
                assert(texts(v@) =~= Seq::empty());
            }
        },
    }
    v
}

/// Both keys of a pair in base64.
#[derive(Debug)]
pub struct EncodedPair {
    /// Secret key.
    pub secret: String,
    /// Public key.
    pub public: String,
}

/// Encodes a key pair.
pub fn encode_pair(secret: &[u8], public: &[u8]) -> (p: EncodedPair)
    requires
        encodable(secret@),
        encodable(public@),
    ensures
        p.secret@ == base64_text(secret@),
        p.public@ == base64_text(public@),
        base64_bytes(p.secret@) == decoded_as(secret@),
        base64_bytes(p.public@) == decoded_as(public@),
{
    EncodedPair { secret: base64_encode(secret), public: base64_encode(public) }
}

/// New key pairs of all levels.
#[derive(Debug)]
pub struct NewKeys {
    /// Signing key pair of level 3.
    pub signing_level3: EncodedPair,
    /// Identity hiding key pair of level 3.
    pub kem_level3: EncodedPair,
    /// Signing key pair of level 5.
    pub signing_level5: EncodedPair,
    /// Identity hiding key pair of level 5.
    pub kem_level5: EncodedPair,
}

impl NewKeys {
    /// The key file.
    pub open spec fn file_text(self) -> Seq<char> {
        "# HPN Server Keypairs\n# Generated by hpn-server genkey\n# KEEP THE SECRET KEYS SECURE!\n#\n# Four keypairs are generated:\n# - Signing (ML-DSA): For authenticating the server in handshakes\n# - KEM: For identity hiding (encrypting client's ephemeral public key)\n#\n# Clients need both public keys for full identity hiding support.\n\n# Level 3 / Standard security (ML-DSA-65 + ML-KEM-768, ~AES-192 equivalent)\n[keypair_level3]\nsecret_key = \""@
            + self.signing_level3.secret@
            + "\"\npublic_key = \""@
            + self.signing_level3.public@
            + "\"\n\n[kem_keypair_level3]\nsecret_key = \""@
            + self.kem_level3.secret@
            + "\"\npublic_key = \""@
            + self.kem_level3.public@
            + "\"\n\n# Level 5 / High security (ML-DSA-87 + ML-KEM-1024, ~AES-256 equivalent)\n[keypair_level5]\nsecret_key = \""@
            + self.signing_level5.secret@
            + "\"\npublic_key = \""@
            + self.signing_level5.public@
            + "\"\n\n[kem_keypair_level5]\nsecret_key = \""@
            + self.kem_level5.secret@
            + "\"\npublic_key = \""@
            + self.kem_level5.public@
            + "\"\n"@
    }

    /// The text of the key file.
    pub fn to_file(&self) -> (s: String)
        ensures
            s@ == self.file_text(),
    {
        let mut s = String::from_str(
            "# HPN Server Keypairs\n# Generated by hpn-server genkey\n# KEEP THE SECRET KEYS SECURE!\n#\n# Four keypairs are generated:\n# - Signing (ML-DSA): For authenticating the server in handshakes\n# - KEM: For identity hiding (encrypting client's ephemeral public key)\n#\n# Clients need both public keys for full identity hiding support.\n\n# Level 3 / Standard security (ML-DSA-65 + ML-KEM-768, ~AES-192 equivalent)\n[keypair_level3]\nsecret_key = \"",
        );
        s.append(self.signing_level3.secret.as_str());
        s.append("\"\npublic_key = \"");
        s.append(self.signing_level3.public.as_str());
        s.append("\"\n\n[kem_keypair_level3]\nsecret_key = \"");
        s.append(self.kem_level3.secret.as_str());
        s.append("\"\npublic_key = \"");
        s.append(self.kem_level3.public.as_str());
        s.append("\"\n\n# Level 5 / High security (ML-DSA-87 + ML-KEM-1024, ~AES-256 equivalent)\n[keypair_level5]\nsecret_key = \"");
        s.append(self.signing_level5.secret.as_str());
        s.append("\"\npublic_key = \"");
        s.append(self.signing_level5.public.as_str());
        s.append("\"\n\n[kem_keypair_level5]\nsecret_key = \"");
        s.append(self.kem_level5.secret.as_str());
        s.append("\"\npublic_key = \"");
        s.append(self.kem_level5.public.as_str());
        s.append("\"\n");
        s
    }

    /// The lines that show the public keys of a file that was written.
    pub open spec fn written_lines(self) -> Seq<Seq<char>> {
        seq![
            ""@,
            "=== Server Public Keys (share with clients) ==="@,
            ""@,
            "Standard security (Level 3):"@,
            "  Signing (ML-DSA-65):  "@ + self.signing_level3.public@,
            "  KEM (ML-KEM-768):     "@ + self.kem_level3.public@,
            ""@,
            "High security (Level 5):"@,
            "  Signing (ML-DSA-87):  "@ + self.signing_level5.public@,
            "  KEM (ML-KEM-1024):    "@ + self.kem_level5.public@,
        ]
    }

    /// The lines to print after the file was written.
    pub fn print_written(&self) -> (v: Vec<String>)
        ensures
            texts(v@) == self.written_lines(),
    {
        let mut v: Vec<String> = Vec::new();
        v.push(String::from_str(""));
        v.push(String::from_str("=== Server Public Keys (share with clients) ==="));
        v.push(String::from_str(""));
        v.push(String::from_str("Standard security (Level 3):"));
        v.push(joined("  Signing (ML-DSA-65):  ", self.signing_level3.public.as_str()));
        v.push(joined("  KEM (ML-KEM-768):     ", self.kem_level3.public.as_str()));
        v.push(String::from_str(""));
        v.push(String::from_str("High security (Level 5):"));
        v.push(joined("  Signing (ML-DSA-87):  ", self.signing_level5.public.as_str()));
        v.push(joined("  KEM (ML-KEM-1024):    ", self.kem_level5.public.as_str()));
        proof {
            assert(texts(v@) =~= self.written_lines());
        }
        v
    }

    /// The lines that follow the file when it is printed.
    pub open spec fn printed_lines(self) -> Seq<Seq<char>> {
        seq![
            ""@,
            "# Public keys for clients:"@,
            "# Standard (Level 3) Signing: "@ + self.signing_level3.public@,
            "# Standard (Level 3) KEM:     "@ + self.kem_level3.public@,
            "# High (Level 5) Signing:     "@ + self.signing_level5.public@,
            "# High (Level 5) KEM:         "@ + self.kem_level5.public@,
        ]
    }

    /// The lines to print after the file was printed.
    pub fn print_public(&self) -> (v: Vec<String>)
        ensures
            texts(v@) == self.printed_lines(),
    {
        let mut v: Vec<String> = Vec::new();
        v.push(String::from_str(""));
        v.push(String::from_str("# Public keys for clients:"));
        v.push(joined("# Standard (Level 3) Signing: ", self.signing_level3.public.as_str()));
        v.push(joined("# Standard (Level 3) KEM:     ", self.kem_level3.public.as_str()));
        v.push(joined("# High (Level 5) Signing:     ", self.signing_level5.public.as_str()));
        v.push(joined("# High (Level 5) KEM:         ", self.kem_level5.public.as_str()));
        proof {
            assert(texts(v@) =~= self.printed_lines());
        }
        v
    }
}

fn joined(label: &str, text: &str) -> (s: String)
    ensures
        s@ == label@ + text@,
{
    let mut s = String::from_str(label);
    s.append(text);
    s
}

/// Whether a character counts as a letter or a digit by `char::is_alphanumeric`.
pub uninterp spec fn alphanumeric(c: char) -> bool;

/// `char::is_alphanumeric`. Of ASCII characters these are the letters and the digits; of others it
/// is only named.
#[verifier::external_body]
fn is_alphanumeric(c: char) -> (b: bool)
    ensures
        b == alphanumeric(c),
        (c as u32) < 128 ==> b == (('0' <= c && c <= '9') || ('a' <= c && c <= 'z') || ('A' <= c && c
            <= 'Z')),
{
    c.is_alphanumeric()
}

/// Security levels of profiles.
#[derive(Debug, Clone, Copy, PartialEq, Eq, Structural)]
pub enum ProfileLevel {
    /// Level 3.
    Standard,
    /// Level 5.
    High,
}

/// The level that a word stands for, in whichever case.
pub open spec fn level_of(word: Seq<char>) -> Option<ProfileLevel> {
    let w = lowercase(word);
    if w == "standard"@ || w == "level3"@ || w == "3"@ {
        Some(ProfileLevel::Standard)
    } else if w == "high"@ || w == "level5"@ || w == "5"@ {
        Some(ProfileLevel::High)
    } else {
        None
    }
}

/// Reads a security level.
pub fn parse_level(word: &str) -> (r: Result<ProfileLevel, String>)
    ensures
        match r {
            Ok(l) => level_of(word@) == Some(l),
            Err(m) => level_of(word@) is None && m@ == "Invalid security level: "@ + word@
                + ". Use 'standard' or 'high'"@,
        },
{
    let w = lowered(word);
    let w = w.as_str();
    if same_text(w, "standard") || same_text(w, "level3") || same_text(w, "3") {
        return Ok(ProfileLevel::Standard);
    }
    if same_text(w, "high") || same_text(w, "level5") || same_text(w, "5") {
        return Ok(ProfileLevel::High);
    }
    let mut m = String::from_str("Invalid security level: ");
    m.append(word);
    m.append(". Use 'standard' or 'high'");
    Err(m)
}

impl ProfileLevel {
    /// The word for the level.
    pub open spec fn word(self) -> Seq<char> {
        match self {
            ProfileLevel::Standard => "standard"@,
            ProfileLevel::High => "high"@,
        }
    }

    /// The word for the level in a profile.
    pub fn as_str(&self) -> (s: &'static str)
        ensures
            s@ == self.word(),
    {
        match self {
            ProfileLevel::Standard => "standard",
            ProfileLevel::High => "high",
        }
    }
}

/// A client profile.
#[derive(Debug)]
pub struct Profile {
    /// Profile name.
    pub name: String,
    /// Server address.
    pub server: String,
    /// Server port.
    pub port: u16,
    /// The server's public signing key.
    pub server_public_key: String,
    /// The server's public identity hiding key.
    pub server_kem_public_key: Option<String>,
    /// Security level.
    pub level: ProfileLevel,
    /// Whether clients must authenticate.
    pub requires_auth: bool,
}

fn public_of(section: &Option<KeySection>) -> (r: Option<String>)
    ensures
        match (*section, r) {
            (Some(k), Some(s)) => s@ == k.public_key@,
            (None, None) => true,
            _ => false,
        },
{
    match section {
        Some(k) => Some(String::from_str(k.public_key.as_str())),
        None => None,
    }
}

/// The signing and identity hiding sections of a level.
pub open spec fn sections_of(kf: KeyFile, level: ProfileLevel) -> (
    Option<KeySection>,
    Option<KeySection>,
) {
    match level {
        ProfileLevel::Standard => (kf.keypair_level3, kf.kem_keypair_level3),
        ProfileLevel::High => (kf.keypair_level5, kf.kem_keypair_level5),
    }
}

/// The profile for clients of a server with these keys.
pub fn build_profile(
    name: &str,
    server: &str,
    port: u16,
    requires_auth: bool,
    level: ProfileLevel,
    kf: &KeyFile,
) -> (r: Result<Profile, String>)
    ensures
        match (sections_of(*kf, level).0, r) {
            (None, Err(m)) => m@ == (match level {
                ProfileLevel::Standard => "keypair_level3 not found in keyfile"@,
                ProfileLevel::High => "keypair_level5 not found in keyfile"@,
            }),
            (Some(k), Ok(p)) => {
                &&& p.name@ == name@
                &&& p.server@ == server@
                &&& p.port == port
                &&& p.requires_auth == requires_auth
                &&& p.level == level
                &&& p.server_public_key@ == k.public_key@
                &&& match (sections_of(*kf, level).1, p.server_kem_public_key) {
                    (Some(e), Some(s)) => s@ == e.public_key@,
                    (None, None) => true,
                    _ => false,
                }
            },
            _ => false,
        },
{
    let (signing, kem) = match level {
        ProfileLevel::Standard => (public_of(&kf.keypair_level3), public_of(&kf.kem_keypair_level3)),
        ProfileLevel::High => (public_of(&kf.keypair_level5), public_of(&kf.kem_keypair_level5)),
    };
    match signing {
        None => Err(
            String::from_str(
                match level {
                    ProfileLevel::Standard => "keypair_level3 not found in keyfile",
                    ProfileLevel::High => "keypair_level5 not found in keyfile",
                },
            ),
        ),
        Some(key) => Ok(
            Profile {
                name: String::from_str(name),
                server: String::from_str(server),
                port,
                server_public_key: key,
                server_kem_public_key: kem,
                level,
                requires_auth,
            },
        ),
    }
}

/// A character of a file name: what is no letter, digit, hyphen or underscore becomes an
/// underscore.
pub open spec fn safe_char(c: char) -> char {
    if alphanumeric(c) || c == '-' || c == '_' {
        c
    } else {
        '_'
    }
}

/// The file that a profile is written to when none is given.
pub open spec fn profile_file(name: Seq<char>) -> Seq<char> {
    name.map_values(|c: char| safe_char(c)) + ".hpn"@
}

/// The name of the file that a profile is written to when none is given.
pub fn default_profile_file(name: &str) -> (s: String)
    ensures
        s@ == profile_file(name@),
{
    let chars = chars_of(name);
    let mut s = String::new();
    let ghost all = name@.map_values(|c: char| safe_char(c));
    let mut i: usize = 0;
    proof {
        assert(s@ =~= all.take(0));
    }
    while i < chars.len()
        invariant
            i <= chars@.len(),
            chars@ == name@,
            all == name@.map_values(|c: char| safe_char(c)),
            s@ == all.take(i as int),
        decreases chars@.len() - i,
    {
        let c = chars[i];
        if is_alphanumeric(c) || c == '-' || c == '_' {
            s.push(c);
        } else {
            s.push('_');
        }
        proof {
            assert(all.take(i + 1) =~= all.take(i as int).push(all[i as int]));
        }
        i += 1;
    }
    proof {
        assert(all.take(all.len() as int) =~= all);
    }
    s.append(".hpn");
    s
}

/// The lines that describe a profile that was written.
pub open spec fn profile_lines(p: Profile) -> Seq<Seq<char>> {
    seq![
        ""@,
        "Profile details:"@,
        "  Name:           "@ + p.name@,
        "  Server:         "@ + p.server@ + ":"@ + decimal(p.port as nat),
        "  Security Level: "@ + p.level.word(),
        "  Requires Auth:  "@ + if p.requires_auth {
            "true"@
        } else {
            "false"@
        },
        "  Identity Hiding: "@ + if p.server_kem_public_key is Some {
            "enabled"@
        } else {
            "disabled"@
        },
    ]
}

/// Version of the format of profiles.
pub const PROFILE_VERSION: u64 = 1;

/// The value of a field of a profile.
#[derive(Debug)]
pub enum ProfileValue {
    Text(String),
    Number(u16),
    Flag(bool),
    Nothing,
}

/// What a field of a profile holds.
pub enum FieldContent {
    Text(Seq<char>),
    Number(u16),
    Flag(bool),
    Nothing,
}

impl View for ProfileValue {
    type V = FieldContent;

    open spec fn view(&self) -> FieldContent {
        match *self {
            ProfileValue::Text(t) => FieldContent::Text(t@),
            ProfileValue::Number(n) => FieldContent::Number(n),
            ProfileValue::Flag(b) => FieldContent::Flag(b),
            ProfileValue::Nothing => FieldContent::Nothing,
        }
    }
}

/// The names of fields with what they hold.
pub open spec fn fields_view(v: Seq<(&'static str, ProfileValue)>) -> Seq<
    (Seq<char>, FieldContent),
> {
    v.map_values(|f: (&'static str, ProfileValue)| (f.0@, f.1@))
}

/// The fields of a profile in order. Clients split no traffic.
pub open spec fn profile_fields(p: Profile) -> Seq<(Seq<char>, FieldContent)> {
    seq![
        ("name"@, FieldContent::Text(p.name@)),
        ("server"@, FieldContent::Text(p.server@)),
        ("port"@, FieldContent::Number(p.port)),
        ("serverPublicKey"@, FieldContent::Text(p.server_public_key@)),
        (
            "serverKemPublicKey"@,
            match p.server_kem_public_key {
                Some(k) => FieldContent::Text(k@),
                None => FieldContent::Nothing,
            },
        ),
        ("securityLevel"@, FieldContent::Text(p.level.word())),
        ("requiresAuth"@, FieldContent::Flag(p.requires_auth)),
        ("splitTunnel"@, FieldContent::Nothing),
    ]
}

fn text_value(s: &str) -> (v: ProfileValue)
    ensures
        v@ == FieldContent::Text(s@),
{
    ProfileValue::Text(String::from_str(s))
}

impl Profile {
    /// The fields of the profile in order.
    pub fn fields(&self) -> (v: Vec<(&'static str, ProfileValue)>)
        ensures
            fields_view(v@) == profile_fields(*self),
    {
        let mut v: Vec<(&'static str, ProfileValue)> = Vec::new();
        v.push(("name", text_value(self.name.as_str())));
        v.push(("server", text_value(self.server.as_str())));
        v.push(("port", ProfileValue::Number(self.port)));
        v.push(("serverPublicKey", text_value(self.server_public_key.as_str())));
        v.push(
            (
                "serverKemPublicKey",
                match &self.server_kem_public_key {
                    Some(k) => text_value(k.as_str()),
                    None => ProfileValue::Nothing,
                },
            ),
        );
        v.push(("securityLevel", text_value(self.level.as_str())));
        v.push(("requiresAuth", ProfileValue::Flag(self.requires_auth)));
        v.push(("splitTunnel", ProfileValue::Nothing));
        proof {
            assert(fields_view(v@) =~= profile_fields(*self));
        }
        v
    }

    /// The lines to print after the profile was written.
    pub fn describe(&self) -> (v: Vec<String>)
        ensures
            texts(v@) == profile_lines(*self),
    {
        let mut v: Vec<String> = Vec::new();
        v.push(String::from_str(""));
        v.push(String::from_str("Profile details:"));
        v.push(joined("  Name:           ", self.name.as_str()));
        let mut server = joined("  Server:         ", self.server.as_str());
        server.append(":");
        push_decimal(&mut server, self.port as u64);
        v.push(server);
        v.push(joined("  Security Level: ", self.level.as_str()));
        v.push(
            joined(
                "  Requires Auth:  ",
                if self.requires_auth {
                    "true"
                } else {
                    "false"
                },
            ),
        );
        v.push(
            joined(
                "  Identity Hiding: ",
                if self.server_kem_public_key.is_some() {
                    "enabled"
                } else {
                    "disabled"
                },
            ),
        );
        proof {
            assert(texts(v@) =~= profile_lines(*self));
        }
        v
    }
}

/// A generated key pair is read back as it was: whatever the bytes, decoding the encoded pair
/// gives them, provided the public key has the size that is expected of it.
pub proof fn law_generated_keys_are_read_back(
    p: EncodedPair,
    secret: Seq<u8>,
    public: Seq<u8>,
    expected: Option<usize>,
    label: Seq<char>,
)
    requires
        base64_bytes(p.secret@) == decoded_as(secret),
        base64_bytes(p.public@) == decoded_as(public),
        expected matches Some(n) ==> public.len() == n,
    ensures
        pair_bytes(base64_bytes(p.secret@), base64_bytes(p.public@), expected, label) == Ok::<
            (Seq<u8>, Seq<u8>),
            Seq<char>,
        >((secret, public)),
{
}

/// The name of a profile's file names no directory and no hidden file: it has only safe characters
/// before its ending.
pub proof fn law_profile_files_are_plain(name: Seq<char>, i: int)
    requires
        0 <= i < name.len(),
    ensures
        ({
            let c = profile_file(name)[i];
            alphanumeric(c) || c == '-' || c == '_'
        }),
        profile_file(name).len() == name.len() + 4,
{
    reveal_strlit(".hpn");
}

/// What is shown of a file's keys never depends on its secret keys: files with the same public keys
/// show the same lines.
pub proof fn law_secret_keys_are_never_shown(a: KeyFile, b: KeyFile)
    requires
        same_public(a.keypair, b.keypair),
        same_public(a.keypair_level3, b.keypair_level3),
        same_public(a.keypair_level5, b.keypair_level5),
        same_public(a.kem_keypair_level3, b.kem_keypair_level3),
        same_public(a.kem_keypair_level5, b.kem_keypair_level5),
    ensures
        pubkey_lines(a) == pubkey_lines(b),
{
    if a.signing() is Dual {
        assert(pubkey_lines(a) =~= pubkey_lines(b));
    }
}

/// Whether two sections are both missing or have the same public key.
pub open spec fn same_public(a: Option<KeySection>, b: Option<KeySection>) -> bool {
    match (a, b) {
        (Some(x), Some(y)) => x.public_key@ == y.public_key@,
        (None, None) => true,
        _ => false,
    }
}

/// Whether two sections are both missing or hold the same keys.
pub open spec fn same_section(a: Option<KeySection>, b: Option<KeySection>) -> bool {
    same_public(a, b) && (a is Some ==> a->0.secret_key@ == b->0.secret_key@)
}

/// Each level has keys of its own: where there is a pair for each, the keys of one level do not
/// depend on those of the other, nor on those of an older file.
pub proof fn law_levels_have_their_own_keys(a: KeyFile, b: KeyFile, sizes: KeySizes)
    requires
        a.keypair_level3 is Some && a.keypair_level5 is Some,
        b.keypair_level3 is Some && b.keypair_level5 is Some,
    ensures
        same_section(a.keypair_level3, b.keypair_level3) ==> signing_bytes(
            a,
            sizes,
            ProfileLevel::Standard,
        ) == signing_bytes(b, sizes, ProfileLevel::Standard),
        same_section(a.keypair_level5, b.keypair_level5) ==> signing_bytes(
            a,
            sizes,
            ProfileLevel::High,
        ) == signing_bytes(b, sizes, ProfileLevel::High),
        sections_of(a, ProfileLevel::Standard) == (a.keypair_level3, a.kem_keypair_level3),
        sections_of(a, ProfileLevel::High) == (a.keypair_level5, a.kem_keypair_level5),
{
}

/// A pair whose public key has the wrong size is refused, and so is one that cannot be decoded; a
/// pair that is accepted is what was decoded.
pub proof fn law_only_whole_pairs_are_accepted(
    secret: Result<Seq<u8>, Seq<char>>,
    public: Result<Seq<u8>, Seq<char>>,
    expected: Option<usize>,
    label: Seq<char>,
)
    ensures
        pair_bytes(secret, public, expected, label) is Ok <==> secret is Ok && public is Ok && (
        expected matches Some(n) ==> public->Ok_0.len() == n),
        pair_bytes(secret, public, expected, label) matches Ok(p) ==> secret == Ok::<
            Seq<u8>,
            Seq<char>,
        >(p.0) && public == Ok::<Seq<u8>, Seq<char>>(p.1),
{
}

/// The keys of a file are shown exactly when each signing key that it offers decodes to the size
/// of its level.
pub proof fn law_only_sound_files_are_shown(
    format: SigningFormat,
    level3: Result<Seq<u8>, Seq<char>>,
    level5: Result<Seq<u8>, Seq<char>>,
    single: Result<Seq<u8>, Seq<char>>,
    sizes: KeySizes,
)
    ensures
        file_complaint(format, level3, level5, single, sizes) is None <==> match format {
            SigningFormat::Dual => level3 is Ok && level3->Ok_0.len() == sizes.level3 && level5
                is Ok && level5->Ok_0.len() == sizes.level5,
            SigningFormat::Legacy => single is Ok && single->Ok_0.len() == sizes.level3,
            SigningFormat::Missing => false,
        },
{
}

/// A level is read back from its word, and no word stands for both levels.
pub proof fn law_levels_are_read_back(level: ProfileLevel)
    ensures
        level_of(level.word()) == Some(level),
{
    reveal_strlit("standard");
    reveal_strlit("high");
    reveal_strlit("level3");
    reveal_strlit("3");
    assert(lowercase("standard"@) =~= "standard"@);
    assert(lowercase("high"@) =~= "high"@);
}

} // verus!
