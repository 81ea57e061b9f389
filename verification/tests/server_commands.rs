//! Key files, profiles, users, start-up, log files and privacy.

use hpn::log_file::{LogFile, RollingFile, RotateStep};
use hpn::net::{IpAddr, SocketAddr};
use hpn::privacy::{addr, init, is_enabled, Privacy, Redact};
use hpn::server::config::ServerConfig;
use hpn::server::keys::{
    build_profile, check_key, decode_pair, default_profile_file, encode_pair, join_pair,
    load_signing, parse_level, show_pubkey, KeyFile, KeySection, KeySizes, NewKeys, ProfileLevel,
    ProfileValue, SigningFormat, PROFILE_VERSION,
};
use hpn::server::privileges::ProcessIds;
use hpn::server::startup::{
    check_root, identity_hiding_line, log_settings, next_start_step, next_write_step,
    temporary_name, StartStep, WriteStep,
};
use hpn::server::users::{
    change_message, confirm_password, format_timestamp_at, user_list, UserChange, UserInfo,
};

const SIZES: KeySizes = KeySizes { level3: 3, level5: 5 };

fn section(secret: &str, public: &str) -> Option<KeySection> {
    Some(KeySection { secret_key: secret.to_string(), public_key: public.to_string() })
}

fn empty() -> KeyFile {
    KeyFile {
        keypair: None,
        keypair_level3: None,
        keypair_level5: None,
        kem_keypair_level3: None,
        kem_keypair_level5: None,
    }
}

/// "abc" and "hello" in base64.
fn dual() -> KeyFile {
    KeyFile {
        keypair_level3: section("c2VjcmV0", "YWJj"),
        keypair_level5: section("c2VjcmV0", "aGVsbG8="),
        kem_keypair_level5: section("eA==", "eQ=="),
        ..empty()
    }
}

#[test]
fn public_keys_are_shown() {
    assert_eq!(dual().signing_format(), SigningFormat::Dual);
    assert_eq!(
        show_pubkey(&dual(), &SIZES).unwrap(),
        vec![
            "",
            "=== Server Public Keys (share with clients) ===",
            "",
            "Standard security (Level 3):",
            "  Signing (ML-DSA-65):  YWJj",
            "  KEM (ML-KEM-768):     (not configured)",
            "",
            "High security (Level 5):",
            "  Signing (ML-DSA-87):  aGVsbG8=",
            "  KEM (ML-KEM-1024):    eQ==",
            "",
            "Client configuration:",
            "  \"Server Public Key\"     = Signing key (ML-DSA) for your security level",
            "  \"Server KEM Public Key\" = KEM key (optional, enables identity hiding)",
        ]
    );
    let legacy = KeyFile { keypair: section("c2VjcmV0", "YWJj"), ..empty() };
    assert_eq!(legacy.signing_format(), SigningFormat::Legacy);
    assert_eq!(show_pubkey(&legacy, &SIZES).unwrap(), vec!["YWJj"]);
}

#[test]
fn bad_public_keys_are_refused() {
    assert_eq!(show_pubkey(&empty(), &SIZES).unwrap_err(), "No keypair found in file");
    let mut kf = dual();
    kf.keypair_level3 = section("", "YWI=");
    assert_eq!(
        show_pubkey(&kf, &SIZES).unwrap_err(),
        "Invalid Level 3 public key size: expected 3, got 2"
    );
    let mut kf = dual();
    kf.keypair_level5 = section("", "YWI=");
    assert_eq!(
        show_pubkey(&kf, &SIZES).unwrap_err(),
        "Invalid Level 5 public key size: expected 5, got 2"
    );
    let legacy = KeyFile { keypair: section("", ""), ..empty() };
    assert_eq!(
        show_pubkey(&legacy, &SIZES).unwrap_err(),
        "Invalid public key size: expected 3, got 0"
    );
    let mut kf = dual();
    kf.keypair_level3 = section("", "Y*Jj");
    assert_eq!(show_pubkey(&kf, &SIZES).unwrap_err(), "Invalid symbol 42, offset 1.");
    assert!(check_key(&Ok(vec![1, 2, 3]), 3, "Invalid ").is_ok());
    assert_eq!(check_key(&Err("no".to_string()), 3, "Invalid ").unwrap_err(), "no");
}

#[test]
fn signing_keys_are_loaded_for_each_level() {
    let (s, p) = load_signing(&dual(), &SIZES, ProfileLevel::Standard).unwrap();
    assert_eq!((s, p), (b"secret".to_vec(), b"abc".to_vec()));
    let (_, p) = load_signing(&dual(), &SIZES, ProfileLevel::High).unwrap();
    assert_eq!(p, b"hello".to_vec());
    let legacy = KeyFile { keypair: section("c2VjcmV0", "eHg="), ..empty() };
    assert_eq!(load_signing(&legacy, &SIZES, ProfileLevel::High).unwrap().1, b"xx".to_vec());
    assert_eq!(
        load_signing(&empty(), &SIZES, ProfileLevel::High).unwrap_err(),
        "No keypair found in config. Run 'hpn-server genkey' to generate keypairs."
    );
    let ok = |b: &[u8]| Ok(b.to_vec());
    assert_eq!(join_pair(Err("s".to_string()), Err("p".to_string()), None, "x").unwrap_err(), "s");
    assert_eq!(join_pair(ok(b""), Err("p".to_string()), None, "x").unwrap_err(), "p");
    assert_eq!(
        join_pair(ok(b""), ok(b"1"), Some(2), "Bad ").unwrap_err(),
        "Bad public key size: expected 2, got 1"
    );
}

#[test]
fn generated_keys_are_read_back() {
    let secret: Vec<u8> = (0..=255).collect();
    let pair = encode_pair(&secret, b"abc");
    assert_eq!(pair.public, "YWJj");
    let s = KeySection { secret_key: pair.secret, public_key: pair.public };
    assert_eq!(decode_pair(&s, Some(3), "x").unwrap(), (secret, b"abc".to_vec()));
}

#[test]
fn key_files_have_all_pairs() {
    let keys = NewKeys {
        signing_level3: encode_pair(b"s3", b"p3"),
        kem_level3: encode_pair(b"k3", b"q3"),
        signing_level5: encode_pair(b"s5", b"p5"),
        kem_level5: encode_pair(b"k5", b"q5"),
    };
    let text = keys.to_file();
    assert!(text.starts_with("# HPN Server Keypairs\n# Generated by hpn-server genkey\n"));
    let parsed: toml::Value = toml::from_str(&text).unwrap();
    for (table, secret, public) in [
        ("keypair_level3", &keys.signing_level3.secret, &keys.signing_level3.public),
        ("kem_keypair_level3", &keys.kem_level3.secret, &keys.kem_level3.public),
        ("keypair_level5", &keys.signing_level5.secret, &keys.signing_level5.public),
        ("kem_keypair_level5", &keys.kem_level5.secret, &keys.kem_level5.public),
    ] {
        assert_eq!(parsed[table]["secret_key"].as_str(), Some(secret.as_str()));
        assert_eq!(parsed[table]["public_key"].as_str(), Some(public.as_str()));
    }
    assert_eq!(keys.print_written()[4], "  Signing (ML-DSA-65):  cDM=");
    assert_eq!(keys.print_written()[9], "  KEM (ML-KEM-1024):    cTU=");
    assert_eq!(keys.print_public()[2], "# Standard (Level 3) Signing: cDM=");
    assert_eq!(keys.print_public()[5], "# High (Level 5) KEM:         cTU=");
}

#[test]
fn profiles_carry_the_keys_of_their_level() {
    assert_eq!(parse_level("STANDARD").unwrap(), ProfileLevel::Standard);
    assert_eq!(parse_level("level3").unwrap(), ProfileLevel::Standard);
    assert_eq!(parse_level("5").unwrap(), ProfileLevel::High);
    assert_eq!(
        parse_level("low").unwrap_err(),
        "Invalid security level: low. Use 'standard' or 'high'"
    );
    let p = build_profile("Home", "vpn.example", 51820, true, ProfileLevel::High, &dual()).unwrap();
    assert_eq!(p.server_public_key, "aGVsbG8=");
    assert_eq!(p.server_kem_public_key.as_deref(), Some("eQ=="));
    assert_eq!(
        p.describe(),
        vec![
            "",
            "Profile details:",
            "  Name:           Home",
            "  Server:         vpn.example:51820",
            "  Security Level: high",
            "  Requires Auth:  true",
            "  Identity Hiding: enabled",
        ]
    );
    let names: Vec<&str> = p.fields().iter().map(|f| f.0).collect();
    assert_eq!(
        names,
        vec![
            "name",
            "server",
            "port",
            "serverPublicKey",
            "serverKemPublicKey",
            "securityLevel",
            "requiresAuth",
            "splitTunnel",
        ]
    );
    let fields = p.fields();
    assert!(matches!(&fields[0].1, ProfileValue::Text(t) if t == "Home"));
    assert!(matches!(fields[2].1, ProfileValue::Number(51820)));
    assert!(matches!(&fields[4].1, ProfileValue::Text(t) if t == "eQ=="));
    assert!(matches!(&fields[5].1, ProfileValue::Text(t) if t == "high"));
    assert!(matches!(fields[6].1, ProfileValue::Flag(true)));
    assert!(matches!(fields[7].1, ProfileValue::Nothing));
    assert_eq!(PROFILE_VERSION, 1);
    let p = build_profile("x", "y", 1, false, ProfileLevel::Standard, &dual()).unwrap();
    assert_eq!(p.server_kem_public_key, None);
    assert!(matches!(p.fields()[4].1, ProfileValue::Nothing));
    assert_eq!(
        build_profile("x", "y", 1, false, ProfileLevel::Standard, &empty()).unwrap_err(),
        "keypair_level3 not found in keyfile"
    );
    assert_eq!(
        build_profile("x", "y", 1, false, ProfileLevel::High, &empty()).unwrap_err(),
        "keypair_level5 not found in keyfile"
    );
}

#[test]
fn profile_files_have_safe_names() {
    assert_eq!(default_profile_file("My VPN/../x-1_"), "My_VPN____x-1_.hpn");
    assert_eq!(default_profile_file("caf\u{e9}\u{1f600}"), "caf\u{e9}_.hpn");
}

fn user(name: &str) -> UserInfo {
    UserInfo {
        username: name.to_string(),
        enabled: true,
        last_login: Some(1000),
        failed_attempts: 3,
        locked_until: None,
    }
}

#[test]
fn users_are_listed() {
    assert_eq!(user_list(&vec![], 0), vec!["No users configured"]);
    let mut b = user("a-name-of-more-than-twenty");
    b.enabled = false;
    b.last_login = None;
    b.locked_until = Some(2000);
    let lines = user_list(&vec![user("alice"), b], 1120);
    assert_eq!(
        lines[0],
        format!("{:<20} {:<10} {:<20} {:<8} {:<20}", "Username", "Status", "Last Login", "Failed", "Locked Until")
    );
    assert_eq!(lines[1], "-".repeat(84));
    assert_eq!(
        lines[2],
        format!("{:<20} {:<10} {:<20} {:<8} {:<20}", "alice", "enabled", "2 min ago", 3, "-")
    );
    assert_eq!(
        lines[3],
        format!("{:<20} {:<10} {:<20} {:<8} {:<20}", "a-name-of-more-than-twenty", "disabled", "never", 3, "just now")
    );
    assert_eq!(lines[2].len(), 82);
}

#[test]
fn times_are_told_by_their_distance() {
    assert_eq!(format_timestamp_at(100, 50), "just now");
    assert_eq!(format_timestamp_at(0, 59), "just now");
    assert_eq!(format_timestamp_at(0, 60), "1 min ago");
    assert_eq!(format_timestamp_at(0, 3599), "59 min ago");
    assert_eq!(format_timestamp_at(0, 3600), "1 hours ago");
    assert_eq!(format_timestamp_at(0, 86399), "23 hours ago");
    assert_eq!(format_timestamp_at(0, 172800), "2 days ago");
}

#[test]
fn commands_on_users_are_answered() {
    let say = |c, found| change_message(c, "bob", found);
    assert_eq!(say(UserChange::Added, true), "User 'bob' added successfully");
    assert_eq!(say(UserChange::Removed, true), "User 'bob' removed");
    assert_eq!(say(UserChange::Disabled, true), "User 'bob' disabled");
    assert_eq!(say(UserChange::Enabled, true), "User 'bob' enabled");
    assert_eq!(say(UserChange::PasswordChanged, true), "Password changed for user 'bob'");
    assert_eq!(say(UserChange::Unlocked, true), "User 'bob' unlocked (failed attempts reset)");
    assert_eq!(say(UserChange::PasswordChanged, false), "User 'bob' not found");
    assert_eq!(say(UserChange::Removed, false), "User 'bob' not found");
    assert_eq!(confirm_password("a".to_string(), "a").unwrap(), "a");
    assert_eq!(confirm_password("a".to_string(), "b").unwrap_err(), "Passwords do not match");
}

#[test]
fn logging_follows_the_configuration() {
    let s = log_settings(None);
    assert!(s.enabled && !s.no_log && s.file.is_none());
    let mut c = ServerConfig::default();
    c.log_enabled = false;
    c.log_file = Some("/var/log/hpn.log".to_string());
    let s = log_settings(Some(&c));
    assert!(!s.enabled && s.no_log);
    let f = s.file.unwrap();
    assert_eq!((f.path.as_str(), f.max_size_mb, f.max_files), ("/var/log/hpn.log", 100, 5));
}

#[test]
fn root_is_refused_without_a_user() {
    let root = ProcessIds { uid: 0, gid: 0 };
    let mut c = ServerConfig::default();
    assert!(check_root(&root, &c, false).unwrap_err().starts_with("Refusing to run as root"));
    assert!(check_root(&root, &c, true).is_ok());
    assert!(check_root(&ProcessIds { uid: 1, gid: 0 }, &c, false).is_ok());
    c.run_as_user = Some("hpn".to_string());
    assert!(check_root(&root, &c, false).is_ok());
}

#[test]
fn the_server_starts_step_by_step() {
    let mut step = StartStep::SigningKeys;
    let mut seen = vec![step];
    while step != StartStep::Stopped {
        step = next_start_step(step, true);
        seen.push(step);
    }
    assert_eq!(
        seen,
        vec![
            StartStep::SigningKeys,
            StartStep::HidingKeys,
            StartStep::Validate,
            StartStep::CheckRoot,
            StartStep::FindTarget,
            StartStep::Create,
            StartStep::Initialize,
            StartStep::DropPrivileges,
            StartStep::Run,
            StartStep::Stopped,
        ]
    );
    assert_eq!(next_start_step(StartStep::HidingKeys, false), StartStep::Validate);
    assert_eq!(next_start_step(StartStep::DropPrivileges, false), StartStep::Failed);
    assert_eq!(next_start_step(StartStep::Failed, true), StartStep::Failed);
    assert_eq!(identity_hiding_line(true, false), "Identity hiding enabled: Level3=true, Level5=false");
    assert_eq!(
        identity_hiding_line(false, false),
        "Identity hiding: disabled (no KEM keypairs configured)"
    );
}

#[test]
fn secrets_are_written_whole_or_not_at_all() {
    assert_eq!(temporary_name("key.toml", 42), ".key.toml.tmp-42");
    let mut step = WriteStep::Create;
    for _ in 0..4 {
        step = next_write_step(step, true);
    }
    assert_eq!(step, WriteStep::Finished(true));
    assert_eq!(next_write_step(WriteStep::Write, false), WriteStep::Discard);
    assert_eq!(next_write_step(WriteStep::Rename, false), WriteStep::Discard);
    assert_eq!(next_write_step(WriteStep::Discard, true), WriteStep::Finished(false));
}

#[test]
fn log_files_are_rotated() {
    let mut f = RollingFile::new("/x/a.log".to_string(), 1, 3, 0);
    assert!(!f.written(1024 * 1024 - 1));
    assert!(!f.written(1));
    assert!(f.written(1));
    assert_eq!(f.path_for(LogFile::Rotated(2)), "/x/a.log.2");
    let steps = f.rotation_steps();
    assert!(!steps.is_empty());
    assert!(steps.iter().any(|s| *s == RotateStep::Rename { from: LogFile::Primary, to: LogFile::Rotated(1) }));
    f.rotated();
    assert!(!f.written(10));
}

#[test]
fn rotation_moves_the_files_that_are_there() {
    let f = RollingFile::new("app.log".to_string(), 1, 4, 0);
    let mut disk = vec![
        (LogFile::Primary, "now"),
        (LogFile::Rotated(1), "one"),
        (LogFile::Rotated(3), "three"),
        (LogFile::Rotated(4), "four"),
    ];
    for step in f.rotation_steps() {
        match step {
            RotateStep::Remove(gone) => disk.retain(|e| e.0 != gone),
            RotateStep::Rename { from, to } => {
                if let Some(i) = disk.iter().position(|e| e.0 == from) {
                    let kept = disk.remove(i).1;
                    disk.retain(|e| e.0 != to);
                    disk.push((to, kept));
                }
            }
        }
    }
    let none = RollingFile::new("app.log".to_string(), 1, 0, 0);
    assert_eq!(none.rotation_steps(), vec![RotateStep::Remove(LogFile::Primary)]);
    assert_eq!(disk.len(), 3);
    assert!(disk.contains(&(LogFile::Rotated(1), "now")));
    assert!(disk.contains(&(LogFile::Rotated(2), "one")));
    assert!(disk.contains(&(LogFile::Rotated(4), "three")));
}

#[test]
fn addresses_are_redacted() {
    let a = SocketAddr::new(IpAddr::v4(1, 2, 3, 4), 5);
    let mut p = Privacy::default();
    init(&mut p, false);
    assert!(!is_enabled(&p));
    assert_eq!(addr(a).show(&p), "1.2.3.4:5");
    assert_eq!(addr(a).show_debug(&p), "1.2.3.4:5");
    assert_eq!(Redact(IpAddr::V6(1)).show(&p), "::1");
    assert_eq!(Redact(IpAddr::V6(1)).show_debug(&p), "::1");
    assert_eq!(Redact("a \"b\"".to_string()).show(&p), "a \"b\"");
    assert_eq!(Redact("a \"b\"".to_string()).show_debug(&p), "\"a \\\"b\\\"\"");
    init(&mut p, true);
    assert!(is_enabled(&p));
    let hidden = addr(a).show(&p);
    assert!(!hidden.contains("1.2.3.4"));
    assert_eq!(hidden, "[redacted]");
    assert_eq!(addr(a).show_debug(&p), hidden);
    assert_eq!(Redact(IpAddr::V6(1)).show(&p), hidden);
    assert_eq!(Redact(IpAddr::V6(1)).show_debug(&p), hidden);
    assert_eq!(Redact("name".to_string()).show(&p), hidden);
    assert_eq!(Redact("name".to_string()).show_debug(&p), hidden);
}
