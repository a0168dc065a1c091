//! Derivation of the current one-time code from a stored secret.
use vstd::prelude::*;
use std::time::SystemTimeError;
use totp_rs::{Algorithm, Secret, SecretParseError, TOTP};
use crate::error::OvaError;
use crate::text::{blank, is_blank};

verus! {

#[verifier::external_type_specification]
#[verifier::external_body]
pub struct ExSecretParseError(SecretParseError);

#[verifier::external_type_specification]
pub struct ExAlgorithm(Algorithm);

#[verifier::external_type_specification]
pub struct ExTotp(TOTP);

#[verifier::external_type_specification]
#[verifier::external_body]
pub struct ExSystemTimeError(SystemTimeError);

/// The bytes that a base32 text decodes to.
pub uninterp spec fn base32_bytes(s: Seq<char>) -> Seq<u8>;

/// The code that HMAC-SHA-1 TOTP gives for a secret, a number of digits and
/// a time step counter (RFC 6238 over RFC 4226).
pub uninterp spec fn totp_code(secret: Seq<u8>, digits: usize, counter: u64) -> Seq<char>;

/// The number of decimal digits of a code.
pub const CODE_DIGITS: usize = 6;

/// The number of steps before and after the current one that a check accepts.
pub const CODE_SKEW: u8 = 1;

/// The length of a time step, in seconds.
pub const CODE_STEP: u64 = 30;

/// `digits` ASCII decimal digits.
pub open spec fn is_digits(s: Seq<char>, digits: usize) -> bool {
    s.len() == digits && forall|i: int| 0 <= i < s.len() ==> '0' <= #[trigger] s[i] <= '9'
}

/// `c` is the code of `key` for some time step.
pub open spec fn is_code_of(key: Seq<char>, c: Seq<char>) -> bool {
    exists|n: u64| c == #[trigger] totp_code(base32_bytes(key), CODE_DIGITS, n)
}

/// The code of `key` for the step that holds the Unix time `time`.
pub open spec fn code_of(key: Seq<char>, time: u64) -> Seq<char> {
    totp_code(base32_bytes(key), CODE_DIGITS, (time / CODE_STEP) as u64)
}

/// A character of the RFC 4648 base32 alphabet.
pub open spec fn is_base32_char(c: char) -> bool {
    ('A' <= c && c <= 'Z') || ('2' <= c && c <= '7')
}

/// A text of RFC 4648 base32 characters, without padding.
pub open spec fn is_base32(s: Seq<char>) -> bool {
    forall|i: int| 0 <= i < s.len() ==> is_base32_char(#[trigger] s[i])
}

/// A code: exactly `CODE_DIGITS` ASCII decimal digits.
pub open spec fn is_code(s: Seq<char>) -> bool {
    s.len() == CODE_DIGITS && forall|i: int| 0 <= i < s.len() ==> '0' <= #[trigger] s[i] <= '9'
}

/// A secret that a code can be derived from: not blank, and base32.
pub open spec fn usable_secret(key: Seq<char>) -> bool {
    !is_blank(key) && is_base32(key)
}

/// Relies on `totp_rs::Secret::to_bytes` of a `Secret::Encoded`: it calls
/// `base32::decode` with the RFC 4648 alphabet without padding, which gives
/// `None` exactly where a character lies outside `A`-`Z` and `2`-`7`, and
/// otherwise `len * 5 / 8` bytes.
#[verifier::external_body]
fn decode_secret(key: &str) -> (r: Result<Vec<u8>, SecretParseError>)
    ensures
        r is Ok <==> is_base32(key@),
        r matches Ok(b) ==> b@ == base32_bytes(key@) && b@.len() == key@.len() * 5 / 8,
{
    Secret::Encoded(key.to_string()).to_bytes()
}

/// Relies on `totp_rs::TOTP::new_unchecked`: it stores its arguments as
/// given.
#[verifier::external_body]
fn new_totp(algorithm: Algorithm, digits: usize, skew: u8, step: u64, secret: Vec<u8>) -> (r:
    TOTP)
    ensures
        r.algorithm == algorithm,
        r.digits == digits,
        r.skew == skew,
        r.step == step,
        r.secret == secret,
{
    TOTP::new_unchecked(algorithm, digits, skew, step, secret)
}

/// Relies on `totp_rs::TOTP::generate`: with SHA-1 it signs the counter
/// `time / step` with the secret, and writes the truncated result zero-padded
/// to `digits` decimal digits; below 10 digits the power of ten it reduces by
/// fits a `u32`.
#[verifier::external_body]
fn generate(totp: &TOTP, time: u64) -> (r: String)
    requires
        totp.algorithm == Algorithm::SHA1,
        1 <= totp.digits <= 9,
        totp.step > 0,
    ensures
        r@ == totp_code(totp.secret@, totp.digits, (time / totp.step) as u64),
        is_digits(r@, totp.digits),
{
    totp.generate(time)
}

/// Relies on `totp_rs::TOTP::generate_current`: `generate` at the current
/// Unix time in seconds, or an error where the clock stands before the Unix
/// epoch. Which step that is depends on the clock.
#[verifier::external_body]
fn generate_current(totp: &TOTP) -> (r: Result<String, SystemTimeError>)
    requires
        totp.algorithm == Algorithm::SHA1,
        1 <= totp.digits <= 9,
        totp.step > 0,
    ensures
        r matches Ok(c) ==> exists|n: u64| c@ == #[trigger] totp_code(totp.secret@, totp.digits, n),
        r matches Ok(c) ==> is_digits(c@, totp.digits),
{
    totp.generate_current()
}

/// The TOTP of a decoded secret with SHA-1, `CODE_DIGITS` digits and steps
/// of `CODE_STEP` seconds.
fn totp_of(secret: Vec<u8>) -> (r: TOTP)
    ensures
        r.algorithm == Algorithm::SHA1,
        r.digits == CODE_DIGITS,
        r.step == CODE_STEP,
        r.secret == secret,
{
    new_totp(Algorithm::SHA1, CODE_DIGITS, CODE_SKEW, CODE_STEP, secret)
}

/// The code of the base32 secret `key` for the 30-second step that holds the
/// Unix time `time`.
///
/// Fails with `InvalidSecret` exactly where `key` is blank or not base32.
pub fn code_at(key: &str, time: u64) -> (r: Result<String, OvaError>)
    ensures
        !usable_secret(key@) ==> r == Err::<String, OvaError>(OvaError::InvalidSecret),
        usable_secret(key@) ==> (r matches Ok(c) && c@ == code_of(key@, time)),
        r matches Ok(c) ==> is_code(c@),
{
    if blank(key) {
        return Err(OvaError::InvalidSecret);
    }
    let bytes = match decode_secret(key) {
        Ok(b) => b,
        Err(_) => return Err(OvaError::InvalidSecret),
    };
    let totp = totp_of(bytes);
    Ok(generate(&totp, time))
}

/// Two times in the same step give the same code.
pub proof fn lemma_code_stable_within_step(key: Seq<char>, t1: u64, t2: u64)
    requires
        t1 / CODE_STEP == t2 / CODE_STEP,
    ensures
        code_of(key, t1) == code_of(key, t2),
{
}

/// The code of the current 30-second step for the base32 secret `key`.
///
/// Fails with `InvalidSecret` exactly where `key` is blank or not base32, and
/// otherwise only with `ClockError`, where the clock stands before the Unix
/// epoch. A code that comes back is six digits: the code of the secret for
/// some step, the one that the clock stood in.
pub fn get_2fa_code(key: &str) -> (r: Result<String, OvaError>)
    ensures
        !usable_secret(key@) ==> r == Err::<String, OvaError>(OvaError::InvalidSecret),
        usable_secret(key@) ==> (r is Ok || r == Err::<String, OvaError>(OvaError::ClockError)),
        r matches Ok(c) ==> is_code(c@),
        r matches Ok(c) ==> is_code_of(key@, c@),
{
    if blank(key) {
        return Err(OvaError::InvalidSecret);
    }
    let bytes = match decode_secret(key) {
        Ok(b) => b,
        Err(_) => return Err(OvaError::InvalidSecret),
    };
    let totp = totp_of(bytes);
    match generate_current(&totp) {
        Ok(code) => Ok(code),
        Err(_) => Err(OvaError::ClockError),
    }
}

} // verus!
