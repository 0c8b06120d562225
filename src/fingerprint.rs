//! The content fingerprint of a certificate: a SHA-256 digest over the
//! student's name, the course name, the course duration, the grade and the
//! issuance time, rendered in base58.

use vstd::prelude::*;
use vstd::utf8::encode_utf8;

verus! {

/// The SHA-256 digest of `data`.
pub uninterp spec fn sha256_of(data: Seq<u8>) -> Seq<u8>;

/// The base58 text of `bytes`.
pub uninterp spec fn base58_of(bytes: Seq<u8>) -> Seq<char>;

/// Relies on `solana_program::hash::hash`, as anchor-lang re-exports it: the
/// SHA-256 digest of the bytes.
#[verifier::external_body]
fn sha256(data: &[u8]) -> (r: [u8; 32])
    ensures
        r@ == sha256_of(data@),
{
    anchor_lang::solana_program::hash::hash(data).to_bytes()
}

/// Relies on `solana_program::hash::Hash::new_from_array` and the `Display`
/// of `Hash`, as anchor-lang re-exports them: the base58 text of the
/// digest's bytes.
#[verifier::external_body]
fn base58_text(digest: [u8; 32]) -> (r: String)
    ensures
        r@ == base58_of(digest@),
{
    anchor_lang::solana_program::hash::Hash::new_from_array(digest).to_string()
}

/// The ASCII digit for `d < 10`.
pub open spec fn digit_byte(d: nat) -> u8 {
    (48 + d) as u8
}

/// The decimal digits of `n`, most significant first, without leading zeros.
pub open spec fn decimal_nat(n: nat) -> Seq<u8>
    decreases n,
{
    if n < 10 {
        seq![digit_byte(n)]
    } else {
        decimal_nat(n / 10).push(digit_byte(n % 10))
    }
}

/// The decimal text of `n`, with a leading `-` when it is negative.
pub open spec fn decimal_int(n: int) -> Seq<u8> {
    if n < 0 {
        seq![45u8] + decimal_nat((-n) as nat)
    } else {
        decimal_nat(n as nat)
    }
}

/// The bytes that the fingerprint digests: the UTF-8 of the student's name,
/// of the course name, the decimal duration, the UTF-8 of the grade and the
/// decimal issuance time, one after the other.
pub open spec fn content_bytes(
    student_name: Seq<char>,
    course_name: Seq<char>,
    course_duration: u32,
    grade: Seq<char>,
    issued_at: i64,
) -> Seq<u8> {
    encode_utf8(student_name) + encode_utf8(course_name) + decimal_int(course_duration as int)
        + encode_utf8(grade) + decimal_int(issued_at as int)
}

/// The fingerprint of a certificate with the given content.
pub open spec fn fingerprint(
    student_name: Seq<char>,
    course_name: Seq<char>,
    course_duration: u32,
    grade: Seq<char>,
    issued_at: i64,
) -> Seq<char> {
    base58_of(sha256_of(content_bytes(student_name, course_name, course_duration, grade, issued_at)))
}

/// Appends the decimal digits of `n`.
fn push_decimal(out: &mut Vec<u8>, n: u64)
    ensures
        final(out)@ == old(out)@ + decimal_nat(n as nat),
    decreases n,
{
    if n >= 10 {
        push_decimal(out, n / 10);
    }
    out.push((48 + n % 10) as u8);
    assert(final(out)@ =~= old(out)@ + decimal_nat(n as nat));
}

/// Appends the decimal text of `n`.
fn push_signed_decimal(out: &mut Vec<u8>, n: i64)
    ensures
        final(out)@ == old(out)@ + decimal_int(n as int),
{
    if n < 0 {
        out.push(45u8);
        let m: u64 = (0i128 - n as i128) as u64;
        push_decimal(out, m);
        assert(final(out)@ =~= old(out)@ + decimal_int(n as int));
    } else {
        push_decimal(out, n as u64);
    }
}

/// Appends `bytes`.
fn push_bytes(out: &mut Vec<u8>, bytes: &[u8])
    ensures
        final(out)@ == old(out)@ + bytes@,
{
    let mut i: usize = 0;
    while i < bytes.len()
        invariant
            0 <= i <= bytes@.len(),
            out@ == old(out)@ + bytes@.subrange(0, i as int),
        decreases bytes@.len() - i,
    {
        out.push(bytes[i]);
        i = i + 1;
        assert(out@ =~= old(out)@ + bytes@.subrange(0, i as int));
    }
    assert(bytes@.subrange(0, i as int) =~= bytes@);
}

/// The bytes that the fingerprint of a certificate with this content digests.
pub fn certificate_content(
    student_name: &str,
    course_name: &str,
    course_duration: u32,
    grade: &str,
    issued_at: i64,
) -> (r: Vec<u8>)
    ensures
        r@ == content_bytes(student_name@, course_name@, course_duration, grade@, issued_at),
{
    let mut out: Vec<u8> = Vec::new();
    push_bytes(&mut out, student_name.as_bytes());
    push_bytes(&mut out, course_name.as_bytes());
    push_decimal(&mut out, course_duration as u64);
    push_bytes(&mut out, grade.as_bytes());
    push_signed_decimal(&mut out, issued_at);
    assert(out@ =~= content_bytes(student_name@, course_name@, course_duration, grade@, issued_at));
    out
}

/// The fingerprint of a certificate with this content: anyone holding the
/// content can recompute it and compare.
pub fn certificate_fingerprint(
    student_name: &str,
    course_name: &str,
    course_duration: u32,
    grade: &str,
    issued_at: i64,
) -> (r: String)
    ensures
        r@ == fingerprint(student_name@, course_name@, course_duration, grade@, issued_at),
{
    let content = certificate_content(student_name, course_name, course_duration, grade, issued_at);
    let digest = sha256(content.as_slice());
    base58_text(digest)
}

} // verus!
