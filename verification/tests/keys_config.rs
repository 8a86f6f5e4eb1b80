//! Key material, hex conversion, and daemon policy.

use p2term_core::config::{
    build_shell_command, create_access, effective_shell, P2TermdAccess, P2TermdCfg, ShellCfg,
};
use p2term_core::errors::ErrorKind;
use p2term_core::keys::{
    any_secret_key, bytes_eq, bytes_to_vec, generate_secret_key, Bytes32Convert, HexConvert,
    PeerKey, SecretKeyBytes,
};
use p2term_core::proto::ClientOpt;

// RFC 8032 test vector 1: this seed derives this public key.
const SEED_HEX: &str = "9d61b19deffd5a60ba844af492ec2cc44449c5697b326919703bac031cae7f60";
const PUBLIC_HEX: &str = "d75a980182b10ab7d54bfed3c964073a0ee172f3daa62325af021a68f707511a";

// y = 2 is not on the edwards25519 curve, so this is not a valid public key.
const INVALID_POINT_HEX: &str = "0200000000000000000000000000000000000000000000000000000000000000";

#[test]
fn secret_key_hex_round_trip() {
    let bytes: Vec<u8> = (0u8..32).collect();
    let key = SecretKeyBytes::from_bytes_32(&bytes).unwrap();
    let hex = key.to_hex();
    assert_eq!(hex, "000102030405060708090a0b0c0d0e0f101112131415161718191a1b1c1d1e1f");
    let back = SecretKeyBytes::try_from_hex(hex.as_bytes()).unwrap();
    assert_eq!(back.to_bytes_32(), &bytes);
}

#[test]
fn secret_key_round_trip_runs() {
    let key = generate_secret_key();
    let back = p2term_core::keys::secret_key_hex_round_trip(&key).unwrap();
    assert_eq!(back, key);
}

#[test]
fn secret_key_hex_uppercase_accepted() {
    let lower = SecretKeyBytes::try_from_hex(SEED_HEX.as_bytes()).unwrap();
    let upper = SecretKeyBytes::try_from_hex(SEED_HEX.to_uppercase().as_bytes()).unwrap();
    assert_eq!(lower.to_bytes_32(), upper.to_bytes_32());
}

#[test]
fn secret_key_bad_hex_rejected() {
    // Odd length.
    assert_eq!(SecretKeyBytes::try_from_hex(b"abc"), Err(ErrorKind::Config));
    // A non-digit byte.
    let mut bad = SEED_HEX.to_string().into_bytes();
    bad[10] = b'g';
    assert_eq!(SecretKeyBytes::try_from_hex(&bad), Err(ErrorKind::Config));
    // Decodes, but not to 32 bytes.
    assert_eq!(SecretKeyBytes::try_from_hex(b"0011"), Err(ErrorKind::Config));
}

#[test]
fn secret_key_from_bytes_length_checked() {
    assert!(SecretKeyBytes::from_bytes_32(&[7u8; 32]).is_ok());
    assert_eq!(SecretKeyBytes::from_bytes_32(&[7u8; 31]), Err(ErrorKind::Config));
    assert_eq!(SecretKeyBytes::from_bytes_32(&[7u8; 33]), Err(ErrorKind::Config));
}

#[test]
fn derive_public_key_known_vector() {
    let seed = SecretKeyBytes::try_from_hex(SEED_HEX.as_bytes()).unwrap();
    let pk = seed.public_key();
    assert_eq!(pk.to_hex(), PUBLIC_HEX);
}

#[test]
fn public_key_accepts_valid_point_only() {
    assert!(PeerKey::try_from_hex(PUBLIC_HEX.as_bytes()).is_ok());
    assert_eq!(PeerKey::try_from_hex(INVALID_POINT_HEX.as_bytes()), Err(ErrorKind::Config));
}

#[test]
fn public_key_round_trip_through_hex() {
    let pk = PeerKey::try_from_hex(PUBLIC_HEX.as_bytes()).unwrap();
    let again = PeerKey::try_from_hex(pk.to_hex().as_bytes()).unwrap();
    assert!(pk.matches(&again));
}

#[test]
fn generated_key_is_usable() {
    let sk = generate_secret_key();
    assert_eq!(sk.to_bytes_32().len(), 32);
    let pk = sk.public_key();
    // The derived key is not the secret itself, and parses back as valid.
    assert!(!bytes_eq(sk.to_bytes_32(), pk.to_bytes_32()));
    let parsed = PeerKey::try_from_hex(pk.to_hex().as_bytes()).unwrap();
    assert!(pk.matches(&parsed));
}

#[test]
fn any_secret_key_prefers_hex() {
    let file = vec![9u8; 32];
    let k = any_secret_key(Some(SEED_HEX), Some(&file)).unwrap();
    assert_eq!(k.to_hex(), SEED_HEX);
}

#[test]
fn any_secret_key_reads_file_bytes() {
    let file = vec![9u8; 32];
    let k = any_secret_key(None, Some(&file)).unwrap();
    assert_eq!(k.to_bytes_32(), &file);
    let short = vec![9u8; 31];
    assert_eq!(any_secret_key(None, Some(&short)), Err(ErrorKind::Config));
}

#[test]
fn any_secret_key_generates_when_nothing_given() {
    let k = any_secret_key(None, None).unwrap();
    assert_eq!(k.to_bytes_32().len(), 32);
}

#[test]
fn any_secret_key_rejects_bad_hex() {
    assert_eq!(any_secret_key(Some("zz"), None), Err(ErrorKind::Config));
}

#[test]
fn bytes_helpers() {
    let v = bytes_to_vec(&[1, 2, 3]);
    assert_eq!(v, vec![1, 2, 3]);
    assert!(bytes_eq(&vec![1, 2], &vec![1, 2]));
    assert!(!bytes_eq(&vec![1, 2], &vec![1, 3]));
    assert!(!bytes_eq(&vec![1, 2], &vec![1, 2, 3]));
}

#[test]
fn access_any_allows_everyone() {
    let access = create_access(None).unwrap();
    assert!(matches!(access, P2TermdAccess::Any));
    let pk = PeerKey::try_from_hex(PUBLIC_HEX.as_bytes()).unwrap();
    assert!(access.is_allowed(&pk));
    let empty = create_access(Some(vec![])).unwrap();
    assert!(matches!(empty, P2TermdAccess::Any));
}

#[test]
fn access_list_admits_only_listed_peers() {
    let listed = PeerKey::try_from_hex(PUBLIC_HEX.as_bytes()).unwrap();
    let other = generate_secret_key().public_key();
    let access = create_access(Some(vec![PUBLIC_HEX.to_string()])).unwrap();
    assert!(matches!(access, P2TermdAccess::AllowedNodes(_)));
    assert!(access.is_allowed(&listed));
    assert!(!access.is_allowed(&other));
}

#[test]
fn access_list_rejects_bad_entries() {
    assert_eq!(
        create_access(Some(vec!["not hex".to_string()])).map(|_| ()),
        Err(ErrorKind::Config)
    );
    assert_eq!(
        create_access(Some(vec![PUBLIC_HEX.to_string(), INVALID_POINT_HEX.to_string()]))
            .map(|_| ()),
        Err(ErrorKind::Config)
    );
}

#[test]
fn shell_cfg_keeps_default_allowed() {
    let cfg = ShellCfg::from_overrides(Some("/bin/zsh".to_string()), None, vec![]);
    assert_eq!(cfg.default_shell, "/bin/zsh");
    assert_eq!(cfg.allowed_shells, vec!["/bin/zsh".to_string()]);

    let cfg = ShellCfg::from_overrides(
        Some("/bin/zsh".to_string()),
        None,
        vec!["/bin/zsh".to_string(), "/bin/bash".to_string()],
    );
    assert_eq!(cfg.allowed_shells.len(), 2);
}

#[test]
fn shell_cfg_default_falls_back() {
    let cfg = ShellCfg::from_overrides(None, Some("/bin/fish".to_string()), vec![]);
    assert_eq!(cfg.default_shell, "/bin/fish");
    let cfg = ShellCfg::from_overrides(None, None, vec![]);
    assert_eq!(cfg.default_shell, "/bin/bash");
    assert_eq!(cfg.allowed_shells, vec!["/bin/bash".to_string()]);
}

#[test]
fn validate_opt_enforces_policy() {
    let cfg = ShellCfg::from_overrides(Some("/bin/bash".to_string()), None, vec![]);
    let none = ClientOpt { shell: None, cwd: None, term: None };
    assert!(cfg.validate_opt(&none).is_ok());
    let allowed = ClientOpt { shell: Some("/bin/bash".to_string()), cwd: None, term: None };
    assert!(cfg.validate_opt(&allowed).is_ok());
    let refused = ClientOpt { shell: Some("/bin/zsh".to_string()), cwd: None, term: None };
    assert_eq!(cfg.validate_opt(&refused), Err(ErrorKind::ShellPolicy));
}

#[test]
fn effective_shell_prefers_client_choice() {
    let default = "/bin/bash".to_string();
    assert_eq!(effective_shell(&Some("/bin/zsh".to_string()), &default), "/bin/zsh");
    assert_eq!(effective_shell(&None, &default), "/bin/bash");
}

#[test]
fn shell_command_is_login_shell() {
    let c = build_shell_command("/bin/bash".to_string(), Some("/tmp".to_string()), None);
    assert_eq!(c.program, "/bin/bash");
    assert_eq!(c.args, vec!["-l".to_string()]);
    assert_eq!(c.term, "xterm-256color");
    assert_eq!(c.cwd, Some("/tmp".to_string()));
    let c = build_shell_command("/bin/sh".to_string(), None, Some("vt100".to_string()));
    assert_eq!(c.term, "vt100");
    assert_eq!(c.cwd, None);
}

#[test]
fn daemon_cfg_from_settings() {
    let cfg = P2TermdCfg::from_settings(
        Some(SEED_HEX),
        None,
        Some(vec![PUBLIC_HEX.to_string()]),
        Some("/bin/bash".to_string()),
        None,
        Some(vec!["/bin/zsh".to_string()]),
    )
    .unwrap();
    assert_eq!(cfg.secret_key.to_hex(), SEED_HEX);
    assert!(matches!(cfg.access, P2TermdAccess::AllowedNodes(_)));
    assert_eq!(cfg.shell_cfg.default_shell, "/bin/bash");
    assert!(cfg.shell_cfg.allowed_shells.contains(&"/bin/bash".to_string()));
    assert!(cfg.shell_cfg.allowed_shells.contains(&"/bin/zsh".to_string()));

    let bad = P2TermdCfg::from_settings(Some("xx"), None, None, None, None, None);
    assert!(bad.is_err());
}

#[test]
fn daemon_cfg_fresh_allows_any() {
    let cfg = P2TermdCfg::fresh(Some("/bin/sh".to_string()));
    assert!(matches!(cfg.access, P2TermdAccess::Any));
    assert_eq!(cfg.shell_cfg.default_shell, "/bin/sh");
}
