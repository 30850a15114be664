//! Password protection around the Windows data-protection service (DPAPI).
//!
//! The service itself is reached through a function handed in by the caller
//! (`service`): it returns the output blob, or `None` when the service call
//! failed. Everything around it — the size limit, the empty-blob check, the
//! Base64 and UTF-8 conversions of stored passwords, and the UTF-16LE input and
//! hexadecimal output of the MSTSC `password 51:b:` field — is done here.
use vstd::prelude::*;
use vstd::utf8::*;
use crate::text::{hex_upper, to_hex_upper, utf16le, utf16le_bytes};

verus! {

/// Why protecting or recovering a password failed.
#[derive(Clone, Copy, Debug, PartialEq, Eq, Structural)]
pub enum CryptoError {
    /// The input is longer than the service accepts (`u32::MAX` bytes).
    TooLarge,
    /// The service refused to protect the data (`CryptProtectData` failed).
    ProtectFailed,
    /// The service refused to recover the data (`CryptUnprotectData` failed).
    UnprotectFailed,
    /// The service returned an empty output blob.
    EmptyBlob,
    /// The stored password is not valid Base64.
    InvalidBase64,
    /// The recovered password is not valid UTF-8.
    InvalidUtf8,
}

/// A byte result, by its view.
pub open spec fn bytes_view(r: Result<Vec<u8>, CryptoError>) -> Result<Seq<u8>, CryptoError> {
    match r {
        Ok(v) => Ok(v@),
        Err(e) => Err(e),
    }
}

/// A text result, by its view.
pub open spec fn text_view(r: Result<String, CryptoError>) -> Result<Seq<char>, CryptoError> {
    match r {
        Ok(s) => Ok(s@),
        Err(e) => Err(e),
    }
}

/// What a service answer becomes: `failure` when the call failed, `EmptyBlob`
/// for an empty blob, the blob otherwise.
pub open spec fn blob_outcome(out: Option<Vec<u8>>, failure: CryptoError) -> Result<Seq<u8>, CryptoError> {
    match out {
        None => Err(failure),
        Some(v) => if v@.len() == 0 {
            Err(CryptoError::EmptyBlob)
        } else {
            Ok(v@)
        },
    }
}

/// The Base64 digit of a 6-bit value (RFC 4648 standard alphabet).
pub open spec fn base64_digit(v: int) -> char {
    if v < 26 {
        (65 + v) as char
    } else if v < 52 {
        (97 + v - 26) as char
    } else if v < 62 {
        (48 + v - 52) as char
    } else if v == 62 {
        '+'
    } else {
        '/'
    }
}

/// Standard, padded Base64 (RFC 4648) of a byte string: each group of three
/// bytes becomes four digits; a last group of one or two bytes is padded
/// with `=` to four characters.
pub open spec fn base64_std(b: Seq<u8>) -> Seq<char>
    decreases b.len(),
{
    if b.len() == 0 {
        Seq::empty()
    } else {
        let x0 = b[0] as int;
        let x1 = if b.len() > 1 { b[1] as int } else { 0 };
        let x2 = if b.len() > 2 { b[2] as int } else { 0 };
        let c0 = base64_digit(x0 / 4);
        let c1 = base64_digit((x0 % 4) * 16 + x1 / 16);
        let c2 = base64_digit((x1 % 16) * 4 + x2 / 64);
        let c3 = base64_digit(x2 % 64);
        if b.len() == 1 {
            seq![c0, c1, '=', '=']
        } else if b.len() == 2 {
            seq![c0, c1, c2, '=']
        } else {
            seq![c0, c1, c2, c3] + base64_std(b.skip(3))
        }
    }
}

/// `t` is the standard, padded Base64 of some byte string.
pub open spec fn is_base64_std(t: Seq<char>) -> bool {
    exists|b: Seq<u8>| #[trigger] base64_std(b) == t
}

/// `base64::engine::general_purpose::STANDARD.encode`: the standard, padded
/// Base64 of `bytes`. The crate panics when the output length overflows
/// `usize`, which the bound on the input leaves out.
#[verifier::external_body]
fn base64_encode(bytes: &[u8]) -> (r: String)
    requires
        bytes@.len() <= isize::MAX,
    ensures
        r@ == base64_std(bytes@),
{
    base64::Engine::encode(&base64::engine::general_purpose::STANDARD, bytes)
}

/// `base64::engine::general_purpose::STANDARD.decode`: the `STANDARD` engine
/// requires canonical padding and no trailing bits, so it accepts exactly the
/// texts that are the standard Base64 of some bytes, and gives those bytes;
/// `None` where the crate reports a `DecodeError`.
#[verifier::external_body]
fn base64_decode(text: &str) -> (r: Option<Vec<u8>>)
    ensures
        r matches Some(v) ==> base64_std(v@) == text@,
        r is None ==> !is_base64_std(text@),
{
    base64::Engine::decode(&base64::engine::general_purpose::STANDARD, text).ok()
}

/// `String::from_utf8`: the text when `bytes` is valid UTF-8, `None` otherwise.
#[verifier::external_body]
fn string_from_utf8(bytes: Vec<u8>) -> (r: Option<String>)
    ensures
        r is Some <==> valid_utf8(bytes@),
        r matches Some(s) ==> s@ == decode_utf8(bytes@),
{
    String::from_utf8(bytes).ok()
}

/// Protects `bytes` with the service. Empty input is returned as is without a
/// service call; input over `u32::MAX` bytes is refused; a failed call gives
/// `ProtectFailed` and an empty blob `EmptyBlob`.
pub fn protect<F>(bytes: &[u8], service: F) -> (r: Result<Vec<u8>, CryptoError>)
    where
        F: Fn(&[u8]) -> Option<Vec<u8>>,
    requires
        forall|b: &[u8]| #[trigger] call_requires(service, (b,)),
    ensures
        bytes@.len() == 0 ==> bytes_view(r) == Ok::<Seq<u8>, CryptoError>(Seq::empty()),
        bytes@.len() > u32::MAX ==> r == Err::<Vec<u8>, CryptoError>(CryptoError::TooLarge),
        0 < bytes@.len() <= u32::MAX ==> exists|out: Option<Vec<u8>>|
            #[trigger] call_ensures(service, (bytes,), out) && bytes_view(r) == blob_outcome(
                out,
                CryptoError::ProtectFailed,
            ),
{
    if bytes.len() == 0 {
        return Ok(Vec::new());
    }
    if bytes.len() > 0xffff_ffff {
        return Err(CryptoError::TooLarge);
    }
    let out = service(bytes);
    match out {
        None => Err(CryptoError::ProtectFailed),
        Some(v) => if v.len() == 0 {
            Err(CryptoError::EmptyBlob)
        } else {
            Ok(v)
        },
    }
}

/// Recovers `bytes` with the service; the same rules as `protect`, with
/// `UnprotectFailed` for a failed call.
pub fn unprotect<F>(bytes: &[u8], service: F) -> (r: Result<Vec<u8>, CryptoError>)
    where
        F: Fn(&[u8]) -> Option<Vec<u8>>,
    requires
        forall|b: &[u8]| #[trigger] call_requires(service, (b,)),
    ensures
        bytes@.len() == 0 ==> bytes_view(r) == Ok::<Seq<u8>, CryptoError>(Seq::empty()),
        bytes@.len() > u32::MAX ==> r == Err::<Vec<u8>, CryptoError>(CryptoError::TooLarge),
        0 < bytes@.len() <= u32::MAX ==> exists|out: Option<Vec<u8>>|
            #[trigger] call_ensures(service, (bytes,), out) && bytes_view(r) == blob_outcome(
                out,
                CryptoError::UnprotectFailed,
            ),
{
    if bytes.len() == 0 {
        return Ok(Vec::new());
    }
    if bytes.len() > 0xffff_ffff {
        return Err(CryptoError::TooLarge);
    }
    let out = service(bytes);
    match out {
        None => Err(CryptoError::UnprotectFailed),
        Some(v) => if v.len() == 0 {
            Err(CryptoError::EmptyBlob)
        } else {
            Ok(v)
        },
    }
}


/// What protected bytes become as stored text: their Base64 form.
pub open spec fn stored_text_outcome(p: Result<Seq<u8>, CryptoError>) -> Result<Seq<char>, CryptoError> {
    match p {
        Ok(b) => if b.len() > isize::MAX {
            Err(CryptoError::TooLarge)
        } else {
            Ok(base64_std(b))
        },
        Err(e) => Err(e),
    }
}

/// What `protect_text` gives for `clear`: an empty text for an empty
/// password; `TooLarge` when its UTF-8 bytes exceed `u32::MAX`; otherwise the
/// service is handed those bytes and its answer becomes the stored text.
pub open spec fn protected_text_result<F: Fn(&[u8]) -> Option<Vec<u8>>>(
    service: F,
    clear: Seq<char>,
    r: Result<Seq<char>, CryptoError>,
) -> bool {
    if clear.len() == 0 {
        r == Ok::<Seq<char>, CryptoError>(Seq::empty())
    } else if encode_utf8(clear).len() > u32::MAX {
        r == Err::<Seq<char>, CryptoError>(CryptoError::TooLarge)
    } else {
        exists|b: &[u8], out: Option<Vec<u8>>|
            b@ == encode_utf8(clear) && #[trigger] call_ensures(service, (b,), out) && r
                == stored_text_outcome(blob_outcome(out, CryptoError::ProtectFailed))
    }
}

/// Protects a password for storage: the service protects its UTF-8 bytes and
/// the blob is stored as standard Base64. An empty password is stored as an
/// empty text without a service call.
pub fn protect_text<F>(cleartext: &str, service: F) -> (r: Result<String, CryptoError>)
    where
        F: Fn(&[u8]) -> Option<Vec<u8>>,
    requires
        forall|b: &[u8]| #[trigger] call_requires(service, (b,)),
    ensures
        protected_text_result(service, cleartext@, text_view(r)),
{
    if cleartext.is_empty() {
        return Ok(String::new());
    }
    let bytes = cleartext.as_bytes();
    assert(bytes@.len() > 0);
    match protect(bytes, service) {
        Err(e) => Err(e),
        Ok(encrypted) => {
            if encrypted.len() > isize::MAX as usize {
                Err(CryptoError::TooLarge)
            } else {
                Ok(base64_encode(encrypted.as_slice()))
            }
        },
    }
}

/// What a recovered blob becomes as a password: its UTF-8 text.
pub open spec fn recovered_text_outcome(p: Result<Seq<u8>, CryptoError>) -> Result<Seq<char>, CryptoError> {
    match p {
        Ok(b) => if valid_utf8(b) {
            Ok(decode_utf8(b))
        } else {
            Err(CryptoError::InvalidUtf8)
        },
        Err(e) => Err(e),
    }
}

/// What `unprotect_text` gives for the stored text `encoded`: an empty
/// password for an empty text; `InvalidBase64` when it is not standard
/// padded Base64; otherwise, for the bytes it encodes: an empty password for
/// an empty blob; `TooLarge` for a blob over `u32::MAX`
/// bytes; otherwise the service is handed the decoded blob and its answer is
/// read as UTF-8.
pub open spec fn recovered_text_result<F: Fn(&[u8]) -> Option<Vec<u8>>>(
    service: F,
    encoded: Seq<char>,
    r: Result<Seq<char>, CryptoError>,
) -> bool {
    if encoded.len() == 0 {
        r == Ok::<Seq<char>, CryptoError>(Seq::empty())
    } else {
        if !is_base64_std(encoded) {
            r == Err::<Seq<char>, CryptoError>(CryptoError::InvalidBase64)
        } else {
            exists|d: Seq<u8>|
                #[trigger] base64_std(d) == encoded && if d.len() == 0 {
                    r == Ok::<Seq<char>, CryptoError>(Seq::empty())
                } else if d.len() > u32::MAX {
                    r == Err::<Seq<char>, CryptoError>(CryptoError::TooLarge)
                } else {
                    exists|b: &[u8], out: Option<Vec<u8>>|
                        b@ == d && #[trigger] call_ensures(service, (b,), out) && r
                            == recovered_text_outcome(blob_outcome(out, CryptoError::UnprotectFailed))
                }
        }
    }
}

/// Recovers a stored password: Base64-decodes it, has the service recover the
/// blob and reads the result as UTF-8. An empty stored text is an empty password.
pub fn unprotect_text<F>(encoded: &str, service: F) -> (r: Result<String, CryptoError>)
    where
        F: Fn(&[u8]) -> Option<Vec<u8>>,
    requires
        forall|b: &[u8]| #[trigger] call_requires(service, (b,)),
    ensures
        recovered_text_result(service, encoded@, text_view(r)),
{
    if encoded.is_empty() {
        return Ok(String::new());
    }
    let decoded = match base64_decode(encoded) {
        None => return Err(CryptoError::InvalidBase64),
        Some(d) => d,
    };
    match unprotect(decoded.as_slice(), service) {
        Err(e) => Err(e),
        Ok(clear) => {
            proof {
                broadcast use vstd::utf8::encode_utf8_valid_utf8;
            }
            match string_from_utf8(clear) {
                None => Err(CryptoError::InvalidUtf8),
                Some(s) => Ok(s),
            }
        },
    }
}

/// What a protected UTF-16LE password becomes in an `.rdp` file: the blob as
/// upper-case hexadecimal.
pub open spec fn rdp_field_outcome(p: Result<Seq<u8>, CryptoError>) -> Result<Seq<char>, CryptoError> {
    match p {
        Ok(b) => Ok(hex_upper(b)),
        Err(e) => Err(e),
    }
}

/// What `protect_rdp_password` gives for `clear`: an empty field for an
/// empty password; `TooLarge` when its UTF-16LE bytes exceed `u32::MAX`;
/// otherwise the service is handed those bytes and its blob is written in
/// upper-case hexadecimal.
pub open spec fn rdp_field_result<F: Fn(&[u8]) -> Option<Vec<u8>>>(
    service: F,
    clear: Seq<char>,
    r: Result<Seq<char>, CryptoError>,
) -> bool {
    if clear.len() == 0 {
        r == Ok::<Seq<char>, CryptoError>(Seq::empty())
    } else if utf16le(clear).len() > u32::MAX {
        r == Err::<Seq<char>, CryptoError>(CryptoError::TooLarge)
    } else {
        exists|b: &[u8], out: Option<Vec<u8>>|
            b@ == utf16le(clear) && #[trigger] call_ensures(service, (b,), out) && r
                == rdp_field_outcome(blob_outcome(out, CryptoError::ProtectFailed))
    }
}

/// The value of the MSTSC `password 51:b:` field for a password: the service
/// protects the password's UTF-16LE bytes and the blob is written in upper-case
/// hexadecimal. An empty password gives an empty field without a service call.
pub fn protect_rdp_password<F>(cleartext: &str, service: F) -> (r: Result<String, CryptoError>)
    where
        F: Fn(&[u8]) -> Option<Vec<u8>>,
    requires
        forall|b: &[u8]| #[trigger] call_requires(service, (b,)),
    ensures
        rdp_field_result(service, cleartext@, text_view(r)),
{
    if cleartext.is_empty() {
        return Ok(String::new());
    }
    let utf16 = utf16le_bytes(cleartext);
    proof {
        crate::text::lemma_utf16le_nonempty(cleartext@);
    }
    match protect(utf16.as_slice(), service) {
        Err(e) => Err(e),
        Ok(encrypted) => Ok(to_hex_upper(encrypted.as_slice())),
    }
}


/// A stored password, once its blob is recovered as the UTF-8 bytes that were
/// protected, reads back as the same password.
pub proof fn law_recovered_password_matches(clear: Seq<char>)
    ensures
        recovered_text_outcome(Ok(encode_utf8(clear))) == Ok::<Seq<char>, CryptoError>(clear),
{
    broadcast use vstd::utf8::encode_utf8_valid_utf8, vstd::utf8::encode_utf8_decode_utf8;
}

} // verus!
