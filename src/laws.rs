//! What holds across operations.

use vstd::prelude::*;
use crate::fingerprint::fingerprint;
use crate::key::{lemma_le_bytes_injective, Pubkey};
use crate::ledger::{has_key, key_index, lemma_key_index, lemma_update_unique, Ledger};
use crate::records::{CertificateData, CustomError};
use crate::youth_certification::{
    byte_len, certificate_address, certificate_at, certificate_seeds, institution_at, issue_error,
    issued, revoke_error, revoked, shows, skills_fit, strings_view, verify_certificate_error,
    with_one_more, IssueCertificate, RevokeCertificate, VerifyCertificate,
};

verus! {

/// Reading a certificate right after it was issued succeeds, and what comes
/// back echoes what was issued: not revoked, and with a fingerprint that
/// anyone recomputes from the name, course, duration, grade and issuance time
/// it shows.
pub proof fn lemma_issue_then_verify(
    old: Ledger,
    new: Ledger,
    ctx: IssueCertificate,
    a: Pubkey,
    student_name: Seq<char>,
    course_name: Seq<char>,
    course_duration: u32,
    skills: Seq<String>,
    grade: Seq<char>,
    metadata_uri: Seq<char>,
    now: i64,
    d: CertificateData,
)
    requires
        new.wf(),
        issued(old, new, ctx, a.bytes@, student_name, course_name, course_duration, skills, grade, metadata_uri, now),
        shows(d, certificate_at(new, a.bytes@)),
    ensures
        verify_certificate_error(new, VerifyCertificate { certificate: a }) is None,
        d.student_wallet == ctx.student,
        d.institution == ctx.institution,
        d.student_name@ == student_name,
        d.course_name@ == course_name,
        d.course_duration == course_duration,
        strings_view(d.skills_acquired@) == strings_view(skills),
        d.grade@ == grade,
        d.issued_at == now,
        !d.is_revoked,
        d.certificate_hash@ == fingerprint(d.student_name@, d.course_name@, d.course_duration, d.grade@, d.issued_at),
{
    lemma_key_index(new.certificates@, a.bytes@, new.certificates@.len() - 1);
}

/// Two certificates issued one after the other by the same institution to
/// the same student sit at two different addresses, derived from the
/// sequence numbers n and n + 1, and each issuance adds exactly one to the
/// institution's count.
pub proof fn lemma_two_issues(
    l0: Ledger,
    l1: Ledger,
    l2: Ledger,
    ctx: IssueCertificate,
    a1: Pubkey,
    a2: Pubkey,
    student_name: Seq<char>,
    course_name: Seq<char>,
    course_duration: u32,
    skills: Seq<String>,
    grade: Seq<char>,
    metadata_uri: Seq<char>,
    now1: i64,
    now2: i64,
)
    requires
        l0.wf(),
        l1.wf(),
        issue_error(l0, ctx, student_name, course_name, skills, grade, metadata_uri) is None,
        certificate_address(l0, ctx.institution.bytes@, ctx.student.bytes@,
            institution_at(l0, ctx.institution.bytes@).certificates_issued) == Some(a1.bytes@),
        issued(l0, l1, ctx, a1.bytes@, student_name, course_name, course_duration, skills, grade, metadata_uri, now1),
        issue_error(l1, ctx, student_name, course_name, skills, grade, metadata_uri) is None,
        certificate_address(l1, ctx.institution.bytes@, ctx.student.bytes@,
            institution_at(l1, ctx.institution.bytes@).certificates_issued) == Some(a2.bytes@),
        issued(l1, l2, ctx, a2.bytes@, student_name, course_name, course_duration, skills, grade, metadata_uri, now2),
    ensures
        a1.bytes@ != a2.bytes@,
        institution_at(l1, ctx.institution.bytes@).certificates_issued
            == institution_at(l0, ctx.institution.bytes@).certificates_issued + 1,
        institution_at(l2, ctx.institution.bytes@).certificates_issued
            == institution_at(l1, ctx.institution.bytes@).certificates_issued + 1,
        certificate_seeds(ctx.institution.bytes@, ctx.student.bytes@,
            institution_at(l0, ctx.institution.bytes@).certificates_issued)
            != certificate_seeds(ctx.institution.bytes@, ctx.student.bytes@,
            institution_at(l1, ctx.institution.bytes@).certificates_issued),
{
    let x = ctx.institution.bytes@;
    let i0 = key_index(l0.institutions@, x);
    lemma_update_unique(l0.institutions@, i0, with_one_more(l0.institutions@[i0].1));
    let i1 = key_index(l1.institutions@, x);
    lemma_update_unique(l1.institutions@, i1, with_one_more(l1.institutions@[i1].1));
    lemma_key_index(l1.certificates@, a1.bytes@, l1.certificates@.len() - 1);
    let n0 = institution_at(l0, x).certificates_issued;
    let n1 = institution_at(l1, x).certificates_issued;
    lemma_le_bytes_injective(n0, n1);
    assert(certificate_seeds(x, ctx.student.bytes@, n0)[3] != certificate_seeds(x, ctx.student.bytes@, n1)[3]);
}

/// Issuing from an institution that is not verified is refused with
/// `InstitutionNotVerified`, whatever the content, once the content is
/// within bounds and the institution exists; a refusal leaves the ledger as
/// it was.
pub proof fn lemma_unverified_refused(
    l: Ledger,
    ctx: IssueCertificate,
    student_name: Seq<char>,
    course_name: Seq<char>,
    skills: Seq<String>,
    grade: Seq<char>,
    metadata_uri: Seq<char>,
)
    requires
        byte_len(student_name) <= 64,
        byte_len(course_name) <= 128,
        byte_len(grade) <= 10,
        skills.len() <= 20,
        skills_fit(skills),
        byte_len(metadata_uri) <= 200,
        l.platform is Some,
        has_key(l.institutions@, ctx.institution.bytes@),
        !institution_at(l, ctx.institution.bytes@).is_verified,
    ensures
        issue_error(l, ctx, student_name, course_name, skills, grade, metadata_uri)
            == Some(CustomError::InstitutionNotVerified),
{
}

/// Once revoked, a certificate can no longer be read, and every further
/// attempt to revoke it is refused, which leaves it revoked.
pub proof fn lemma_revoked_is_terminal(l: Ledger, ctx: RevokeCertificate)
    requires
        has_key(l.certificates@, ctx.certificate.bytes@),
        certificate_at(l, ctx.certificate.bytes@).is_revoked,
    ensures
        verify_certificate_error(l, VerifyCertificate { certificate: ctx.certificate })
            == Some(CustomError::CertificateRevoked),
        revoke_error(l, ctx) is Some,
{
}

/// After a successful revocation, reading the certificate is refused with
/// `CertificateRevoked`.
pub proof fn lemma_revoke_then_verify(old: Ledger, new: Ledger, ctx: RevokeCertificate, now: i64)
    requires
        old.wf(),
        revoke_error(old, ctx) is None,
        revoked(old, new, ctx, now),
    ensures
        has_key(new.certificates@, ctx.certificate.bytes@),
        certificate_at(new, ctx.certificate.bytes@).is_revoked,
        verify_certificate_error(new, VerifyCertificate { certificate: ctx.certificate })
            == Some(CustomError::CertificateRevoked),
{
    let i = key_index(old.certificates@, ctx.certificate.bytes@);
    lemma_update_unique(old.certificates@, i, crate::youth_certification::as_revoked(old.certificates@[i].1));
}

} // verus!
