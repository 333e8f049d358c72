use base64::Engine;
use wormhole_gui::updater::{
    check_download, decode_pubkey, is_newer_version, plan_update, verify_signature, Manifest,
    PlatformEntry, UpdaterError, PLATFORM_KEY,
};

#[test]
fn newer_version_simple() {
    assert!(is_newer_version("0.3.1", "0.3.0"));
    assert!(is_newer_version("v0.3.1", "0.3.0"));
    assert!(is_newer_version("1.0.0", "0.99.99"));
    assert!(!is_newer_version("0.3.0", "0.3.0"));
    assert!(!is_newer_version("0.2.5", "0.3.0"));
}

#[test]
fn newer_version_ignores_v_prefix() {
    assert!(is_newer_version("v0.3.1", "v0.3.0"));
    assert!(!is_newer_version("v0.3.0", "v0.3.0"));
}

#[test]
fn newer_version_component_rules() {
    assert!(is_newer_version("1.0.0", "1.0"));
    assert!(!is_newer_version("1.0", "1.0.0"));
    assert!(is_newer_version("0.10.0", "0.9.9"));
    assert!(is_newer_version("vv2", "1"));
    // Not numeric: compared as text.
    assert!(is_newer_version("beta", "alpha"));
    assert!(!is_newer_version("1.0.0-rc1", "1.0.0-rc2"));
    assert!(is_newer_version("0.3.0a", "0.3.0"));
}

fn manifest(version: &str, keys: &[&str]) -> Manifest {
    Manifest {
        version: version.to_string(),
        notes: "notes".to_string(),
        pub_date: "2026-01-01".to_string(),
        platforms: keys
            .iter()
            .map(|k| {
                (
                    k.to_string(),
                    PlatformEntry { signature: format!("sig-{k}"), url: format!("https://x/{k}") },
                )
            })
            .collect(),
    }
}

#[test]
fn plan_picks_portable_entry_of_newer_version() {
    let plan = plan_update(manifest("0.4.0", &["windows-x86_64", PLATFORM_KEY]), "0.3.0")
        .unwrap()
        .unwrap();
    assert_eq!(plan.info.version, "0.4.0");
    assert_eq!(plan.info.notes, "notes");
    assert_eq!(plan.url, "https://x/windows-x86_64-portable");
    assert_eq!(plan.signature, "sig-windows-x86_64-portable");
    assert!(plan_update(manifest("0.3.0", &[PLATFORM_KEY]), "0.3.0").unwrap().is_none());
    match plan_update(manifest("0.4.0", &["windows-x86_64"]), "0.3.0") {
        Err(UpdaterError::NoPlatform(k)) => assert_eq!(k, PLATFORM_KEY),
        _ => panic!("expected NoPlatform"),
    }
}

#[test]
fn empty_download_refused() {
    assert!(matches!(check_download(0), Err(UpdaterError::EmptyDownload)));
    assert!(check_download(1).is_ok());
    assert_eq!(UpdaterError::EmptyDownload.message(), "downloaded file is empty");
    assert_eq!(
        UpdaterError::NoPlatform(PLATFORM_KEY).message(),
        "manifest has no entry for windows-x86_64-portable"
    );
}

fn b64(bytes: &[u8]) -> String {
    base64::engine::general_purpose::STANDARD.encode(bytes)
}

fn wrapped_test_key() -> String {
    let mut raw = vec![0x45u8, 0x64];
    raw.extend_from_slice(&[1, 2, 3, 4, 5, 6, 7, 8]);
    raw.extend_from_slice(&[7u8; 32]);
    let text = format!("untrusted comment: test key\n{}\n", b64(&raw));
    b64(text.as_bytes())
}

fn wrapped_test_signature() -> String {
    let mut sig = vec![0x45u8, 0x44];
    sig.extend_from_slice(&[9, 9, 9, 9, 9, 9, 9, 9]);
    sig.extend_from_slice(&[0u8; 64]);
    let text = format!(
        "untrusted comment: sig\n{}\ntrusted comment: t\n{}\n",
        b64(&sig),
        b64(&[0u8; 64])
    );
    b64(text.as_bytes())
}

#[test]
fn embedded_key_envelope_decodes() {
    assert!(decode_pubkey(&wrapped_test_key()).is_ok());
    assert!(decode_pubkey(&format!("  {}\n", wrapped_test_key())).is_ok());
    assert!(matches!(decode_pubkey("not base64!"), Err(UpdaterError::BadPubkey)));
    assert!(matches!(decode_pubkey(&b64(b"hello")), Err(UpdaterError::BadPubkey)));
    assert!(matches!(decode_pubkey(&b64(&[0xff, 0xfe])), Err(UpdaterError::BadPubkey)));
}

#[test]
fn signature_errors_by_stage() {
    let key = wrapped_test_key();
    assert!(matches!(
        verify_signature("???", &wrapped_test_signature(), Ok(b"data".to_vec())),
        Err(UpdaterError::BadPubkey)
    ));
    assert!(matches!(
        verify_signature(&key, "%%%", Ok(b"data".to_vec())),
        Err(UpdaterError::BadSignatureFormat)
    ));
    assert!(matches!(
        verify_signature(&key, &b64(b"one line only"), Ok(b"data".to_vec())),
        Err(UpdaterError::BadSignatureFormat)
    ));
    // Well-formed, but made with another key id.
    assert!(matches!(
        verify_signature(&key, &wrapped_test_signature(), Ok(b"data".to_vec())),
        Err(UpdaterError::BadSignature)
    ));
}

const REAL_KEY: &str = "untrusted comment: minisign public key E7620F1842B4E81F
RWQf6LRCGA9i53mlYecO4IzT51TGPpvWucNSCh1CBM0QTaLn73Y7GFO3";

const REAL_SIGNATURE: &str = "untrusted comment: signature from minisign secret key
RUQf6LRCGA9i559r3g7V1qNyJDApGip8MfqcadIgT9CuhV3EMhHoN1mGTkUidF/z7SrlQgXdy8ofjb7bNJJylDOocrCo8KLzZwo=
trusted comment: timestamp:1556193335\tfile:test
y/rUw2y8/hOUYjZU71eHp/Wo1KZ40fGy2VJEDl34XMJM+TX48Ss/17u3IvIfbVR1FkZZSNCisQbuQY+bHwhEBg==";

#[test]
fn genuine_signature_accepted_and_tampered_data_refused() {
    let key = b64(REAL_KEY.as_bytes());
    let sig = b64(REAL_SIGNATURE.as_bytes());
    assert!(verify_signature(&key, &sig, Ok(b"test".to_vec())).is_ok());
    assert!(verify_signature(&format!(" {key}\n"), &sig, Ok(b"test".to_vec())).is_ok());
    assert!(matches!(verify_signature(&key, &sig, Ok(b"Test".to_vec())), Err(UpdaterError::BadSignature)));
    assert!(matches!(verify_signature(&key, &sig, Ok(b"".to_vec())), Err(UpdaterError::BadSignature)));
}

#[test]
fn unreadable_download_reports_io_after_the_texts_decode() {
    let key = b64(REAL_KEY.as_bytes());
    let sig = b64(REAL_SIGNATURE.as_bytes());
    let gone = || Err(std::io::Error::new(std::io::ErrorKind::NotFound, "gone"));
    assert!(matches!(verify_signature(&key, &sig, gone()), Err(UpdaterError::Io(_))));
    assert!(matches!(verify_signature("???", &sig, gone()), Err(UpdaterError::BadPubkey)));
    assert!(matches!(verify_signature(&key, "%%%", gone()), Err(UpdaterError::BadSignatureFormat)));
}
