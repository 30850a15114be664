use mstsc_mgr::crypto::{protect_rdp_password, protect_text, unprotect, unprotect_text, CryptoError};

/// Stands in for DPAPI: a reversible transformation of the bytes.
fn xor(bytes: &[u8]) -> Option<Vec<u8>> {
    Some(bytes.iter().map(|b| b ^ 0xa5).collect())
}

#[test]
fn rdp_password_uses_dpapi_over_utf16le() {
    let password = "P@ssw0rd-测试";
    let hex = protect_rdp_password(password, xor).expect("protect RDP password");
    assert!(!hex.is_empty());
    assert!(hex.bytes().all(|byte| byte.is_ascii_hexdigit()));
    assert_eq!(hex.len() % 2, 0);

    let encrypted = (0..hex.len())
        .step_by(2)
        .map(|index| u8::from_str_radix(&hex[index..index + 2], 16).expect("hex byte"))
        .collect::<Vec<_>>();
    let clear = unprotect(&encrypted, xor).expect("unprotect RDP password");
    assert_eq!(clear.len() % 2, 0);
    let units = clear
        .chunks_exact(2)
        .map(|bytes| u16::from_le_bytes([bytes[0], bytes[1]]))
        .collect::<Vec<_>>();
    assert_eq!(String::from_utf16(&units).expect("UTF-16 password"), password);
}

#[test]
fn rdp_password_is_upper_hex_of_the_blob() {
    let identity = |b: &[u8]| Some(b.to_vec());
    assert_eq!(protect_rdp_password("Pa", identity).unwrap(), "50006100");
    assert_eq!(protect_rdp_password("", |_| None).unwrap(), "");
    assert_eq!(protect_rdp_password("x", |_| None), Err(CryptoError::ProtectFailed));
    assert_eq!(protect_rdp_password("x", |_| Some(vec![])), Err(CryptoError::EmptyBlob));
    assert_eq!(protect_rdp_password("\u{ff}", |_| Some(vec![0xab, 0x01])).unwrap(), "AB01");
}

#[test]
fn stored_password_roundtrip() {
    let stored = protect_text("s3cr\u{e9}t", xor).unwrap();
    assert_ne!(stored, "s3cr\u{e9}t");
    assert_eq!(unprotect_text(&stored, xor).unwrap(), "s3cr\u{e9}t");
    let identity = |b: &[u8]| Some(b.to_vec());
    assert_eq!(protect_text("hello", identity).unwrap(), "aGVsbG8=");
    assert_eq!(protect_text("", |_| None).unwrap(), "");
    assert_eq!(unprotect_text("", |_| None).unwrap(), "");
}

#[test]
fn stored_password_errors() {
    let identity = |b: &[u8]| Some(b.to_vec());
    assert_eq!(unprotect_text("not base64!", identity), Err(CryptoError::InvalidBase64));
    assert_eq!(unprotect_text("/w==", identity), Err(CryptoError::InvalidUtf8));
    assert_eq!(unprotect_text("aGVsbG8=", |_| None), Err(CryptoError::UnprotectFailed));
    assert_eq!(unprotect_text("aGVsbG8=", |_| Some(vec![])), Err(CryptoError::EmptyBlob));
    assert_eq!(protect_text("x", |_| None), Err(CryptoError::ProtectFailed));
}
