//! The guest helper that replays schedules inside a Windows VM: its shared
//! secret (checked in constant time, generated from OS entropy, stored as
//! hex) and the reply it sends a client.

use crate::text::chars_of;
use crate::hotkey::{trim, trim_chars};
use subtle::ConstantTimeEq;
use vstd::string::StringSliceAdditionalSpecFns;
use vstd::prelude::*;

verus! {

/// The port the helper listens on when none is configured.
pub const DEFAULT_PORT: u16 = 9847;

/// Calls `<[u8] as subtle::ConstantTimeEq>::ct_eq` and converts the
/// `Choice` to `bool`: true exactly when both slices have the same length
/// and the same bytes.
#[verifier::external_body]
fn ct_eq_bytes(a: &[u8], b: &[u8]) -> (r: bool)
    ensures
        r == (a@ == b@),
{
    a.ct_eq(b).into()
}

/// Whether the client's secret is the expected one, byte for byte, compared
/// in constant time.
pub fn secrets_match(actual: &str, expected: &str) -> (r: bool)
    ensures
        r == (actual.spec_bytes() == expected.spec_bytes()),
{
    ct_eq_bytes(actual.as_bytes(), expected.as_bytes())
}

/// Calls `getrandom::getrandom` on a 32-byte buffer: `Some` with 32 bytes
/// from OS entropy, or `None` when the OS has none to give.
#[verifier::external_body]
fn os_random_32() -> (r: Option<Vec<u8>>)
    ensures
        r matches Some(b) ==> b@.len() == 32,
{
    let mut bytes = [0u8; 32];
    match getrandom::getrandom(&mut bytes) {
        Ok(()) => Some(bytes.to_vec()),
        Err(_) => None,
    }
}

/// Lowercase hex digit of `d` (0 to 15).
pub open spec fn hex_digit(d: u8) -> char {
    if d < 10 {
        ((48 + d) as u8) as char
    } else {
        ((87 + d) as u8) as char
    }
}

/// Lowercase hex, two digits per byte.
pub open spec fn hex_of(bytes: Seq<u8>) -> Seq<char>
    decreases bytes.len(),
{
    if bytes.len() == 0 {
        Seq::empty()
    } else {
        hex_of(bytes.drop_last()) + seq![hex_digit(bytes.last() / 16), hex_digit(bytes.last() % 16)]
    }
}

fn hex_char(d: u8) -> (r: char)
    requires
        d < 16,
    ensures
        r == hex_digit(d),
{
    if d < 10 {
        (48u8 + d) as char
    } else {
        (87u8 + d) as char
    }
}

/// Lowercase two-digit hex of every byte, in order.
pub fn hex_encode(bytes: &[u8]) -> (r: String)
    ensures
        r@ == hex_of(bytes@),
{
    let mut out: Vec<char> = Vec::new();
    let mut i: usize = 0;
    while i < bytes.len()
        invariant
            i <= bytes@.len(),
            out@ == hex_of(bytes@.take(i as int)),
        decreases bytes@.len() - i,
    {
        assert(bytes@.take(i + 1).drop_last() =~= bytes@.take(i as int));
        let b = bytes[i];
        out.push(hex_char(b / 16));
        out.push(hex_char(b % 16));
        i = i + 1;
        assert(out@ =~= hex_of(bytes@.take(i as int)));
    }
    assert(bytes@.take(i as int) =~= bytes@);
    crate::text::string_of(&out)
}

/// A fresh secret: 32 bytes of OS entropy as 64 lowercase hex chars, or
/// `None` when no entropy is available (an all-zero or predictable secret
/// would expose the local typing port, so there is no fallback).
pub fn new_secret() -> (r: Option<String>)
    ensures
        r matches Some(s) ==> exists|b: Seq<u8>| b.len() == 32 && s@ == hex_of(b),
{
    match os_random_32() {
        Some(b) => Some(hex_encode(b.as_slice())),
        None => None,
    }
}

/// The stored secret, trimmed, when the file held a non-blank one.
pub fn stored_secret(contents: Option<&str>) -> (r: Option<String>)
    ensures
        match contents {
            Some(c) => if trim(c@).len() > 0 {
                r matches Some(s) && s@ == trim(c@)
            } else {
                r is None
            },
            None => r is None,
        },
{
    match contents {
        Some(c) => {
            let t = trim_chars(&chars_of(c));
            if t.len() > 0 {
                Some(crate::text::string_of(&t))
            } else {
                None
            }
        },
        None => None,
    }
}

/// What the helper answers a client.
#[derive(Debug, Clone)]
pub struct ServerReply {
    pub ok: bool,
    pub error: Option<String>,
}

/// The reply before any typing: an auth failure when the secret does not
/// match, `None` to go ahead and play the schedule.
pub fn auth_reply(secret: &str, expected: &str) -> (r: Option<ServerReply>)
    ensures
        r is None == (secret.spec_bytes() == expected.spec_bytes()),
        r matches Some(rep) ==> (!rep.ok && (rep.error matches Some(e) && e@ == "auth"@)),
{
    if secrets_match(secret, expected) {
        None
    } else {
        Some(ServerReply { ok: false, error: Some(crate::text::owned("auth")) })
    }
}

/// The reply after the schedule played.
pub fn ok_reply() -> (r: ServerReply)
    ensures
        r.ok,
        r.error is None,
{
    ServerReply { ok: true, error: None }
}

/// How long to wait before a key due at `target_ms`, `elapsed_ms` into the
/// playback; nothing when it is already due.
pub fn wait_before(target_ms: u64, elapsed_ms: u64) -> (r: Option<u64>)
    ensures
        r == if target_ms > elapsed_ms {
            Some((target_ms - elapsed_ms) as u64)
        } else {
            None::<u64>
        },
{
    if target_ms > elapsed_ms {
        Some(target_ms - elapsed_ms)
    } else {
        None
    }
}

} // verus!
