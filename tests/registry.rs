use std::str::FromStr;

use skill_certificate::fingerprint::{certificate_content, certificate_fingerprint};
use skill_certificate::key::{to_le_bytes, Pubkey};
use skill_certificate::ledger::Ledger;
use skill_certificate::records::CustomError;
use skill_certificate::youth_certification::{
    derive_certificate_address, derive_institution_address, get_student_certificates,
    initialize, issue_certificate, register_institution, revoke_certificate, verify_certificate,
    verify_institution, GetStudentCertificates, Initialize, IssueCertificate, RegisterInstitution,
    RevokeCertificate, VerifyCertificate, VerifyInstitution,
};

const PROGRAM: &str = "FAwTaMVpFMsBWrHhMSrwpECmixYP6F9ToSzPRgGCfAEu";

fn program_id() -> Pubkey {
    Pubkey::new_from_array(anchor_lang::prelude::Pubkey::from_str(PROGRAM).unwrap().to_bytes())
}

fn key(b: u8) -> Pubkey {
    Pubkey::new_from_array([b; 32])
}

fn s(x: &str) -> String {
    x.to_string()
}

const ADMIN: u8 = 1;
const SCHOOL: u8 = 2;
const STUDENT: u8 = 3;
const STRANGER: u8 = 4;

/// A ledger with the platform set up and one registered institution,
/// verified or not. Returns the institution's address too.
fn setup(verified: bool) -> (Ledger, Pubkey) {
    let mut l = Ledger::new(program_id());
    initialize(&mut l, &Initialize { authority: key(ADMIN) }).unwrap();
    let inst = register_institution(
        &mut l,
        &RegisterInstitution { authority: key(SCHOOL) },
        s("Acme University"),
        s("h1"),
        1_000,
    )
    .unwrap();
    if verified {
        verify_institution(&mut l, &VerifyInstitution { institution: inst, authority: key(ADMIN) }).unwrap();
    }
    (l, inst)
}

fn issue(l: &mut Ledger, inst: Pubkey, now: i64) -> Result<Pubkey, CustomError> {
    issue_certificate(
        l,
        &IssueCertificate { institution: inst, student: key(STUDENT), authority: key(SCHOOL) },
        s("Jane Doe"),
        s("Algorithms"),
        40,
        vec![s("sorting"), s("graphs")],
        s("A"),
        s("https://x/1"),
        now,
    )
}

fn issue_with(
    l: &mut Ledger,
    inst: Pubkey,
    name: &str,
    course: &str,
    skills: Vec<String>,
    grade: &str,
    uri: &str,
) -> Result<Pubkey, CustomError> {
    issue_certificate(
        l,
        &IssueCertificate { institution: inst, student: key(STUDENT), authority: key(SCHOOL) },
        s(name),
        s(course),
        40,
        skills,
        s(grade),
        s(uri),
        5,
    )
}

#[test]
fn end_to_end_issue_and_revoke() {
    let (mut l, inst) = setup(true);
    let addr1 = issue(&mut l, inst, 1_700_000_000).unwrap();
    assert_eq!(l.institutions[0].1.certificates_issued, 1);
    assert_eq!(l.platform.unwrap().total_certificates, 1);
    assert_eq!(l.platform.unwrap().total_institutions, 1);
    revoke_certificate(&mut l, &RevokeCertificate { certificate: addr1, authority: key(SCHOOL) }, 1_700_000_100)
        .unwrap();
    let r = verify_certificate(&l, &VerifyCertificate { certificate: addr1 });
    assert_eq!(r.err(), Some(CustomError::CertificateRevoked));
    assert_eq!(l.certificates.len(), 1);
    assert!(l.certificates[0].1.is_revoked);
    assert_eq!(l.events.len(), 4);
}

#[test]
fn issue_then_verify_echoes_content() {
    let (mut l, inst) = setup(true);
    let addr = issue(&mut l, inst, 1_700_000_000).unwrap();
    let d = verify_certificate(&l, &VerifyCertificate { certificate: addr }).unwrap();
    assert_eq!(d.student_wallet.bytes, [STUDENT; 32]);
    assert_eq!(d.institution.bytes, inst.bytes);
    assert_eq!(d.student_name, "Jane Doe");
    assert_eq!(d.course_name, "Algorithms");
    assert_eq!(d.course_duration, 40);
    assert_eq!(d.skills_acquired, vec![s("sorting"), s("graphs")]);
    assert_eq!(d.grade, "A");
    assert_eq!(d.issued_at, 1_700_000_000);
    assert!(!d.is_revoked);
    let again = certificate_fingerprint(&d.student_name, &d.course_name, d.course_duration, &d.grade, d.issued_at);
    assert_eq!(d.certificate_hash, again);
    assert_eq!(l.certificates[0].1.metadata_uri, "https://x/1");
}

#[test]
fn fingerprint_is_base58_sha256_of_content() {
    let expected = anchor_lang::solana_program::hash::hash(
        format!("{}{}{}{}{}", "Jane Doe", "Algorithms", 40u32, "A", 1_700_000_000i64).as_bytes(),
    )
    .to_string();
    let got = certificate_fingerprint("Jane Doe", "Algorithms", 40, "A", 1_700_000_000);
    assert_eq!(got, expected);
    assert_ne!(got, "Jane DoeAlgorithms40A1700000000");
    assert!(got.len() >= 32 && got.len() <= 44);
}

#[test]
fn content_bytes_concatenate_fields() {
    assert_eq!(certificate_content("Jane", "Alg", 40, "A", 17), b"JaneAlg40A17".to_vec());
    assert_eq!(certificate_content("", "", 0, "", -5), b"0-5".to_vec());
    assert_eq!(
        certificate_content("x", "y", u32::MAX, "z", i64::MIN),
        format!("xy{}z{}", u32::MAX, i64::MIN).into_bytes()
    );
    assert_eq!(certificate_content("é", "", 7, "", 0), "é70".as_bytes().to_vec());
}

#[test]
fn fingerprint_changes_with_time() {
    let a = certificate_fingerprint("Jane Doe", "Algorithms", 40, "A", 1);
    let b = certificate_fingerprint("Jane Doe", "Algorithms", 40, "A", 2);
    assert_ne!(a, b);
}

#[test]
fn two_issues_get_distinct_addresses() {
    let (mut l, inst) = setup(true);
    assert_eq!(l.institutions[0].1.certificates_issued, 0);
    let a1 = issue(&mut l, inst, 10).unwrap();
    assert_eq!(l.institutions[0].1.certificates_issued, 1);
    let a2 = issue(&mut l, inst, 10).unwrap();
    assert_eq!(l.institutions[0].1.certificates_issued, 2);
    assert_ne!(a1.bytes, a2.bytes);
    let e0 = derive_certificate_address(&program_id(), &inst, &key(STUDENT), 0).unwrap();
    let e1 = derive_certificate_address(&program_id(), &inst, &key(STUDENT), 1).unwrap();
    assert_eq!(a1.bytes, e0.bytes);
    assert_eq!(a2.bytes, e1.bytes);
    assert_eq!(l.platform.unwrap().total_certificates, 2);
}

#[test]
fn certificate_address_matches_anchor_derivation() {
    let program = anchor_lang::prelude::Pubkey::from_str(PROGRAM).unwrap();
    let inst = anchor_lang::prelude::Pubkey::new_from_array([SCHOOL; 32]);
    let student = anchor_lang::prelude::Pubkey::new_from_array([STUDENT; 32]);
    let (expected, _) = anchor_lang::prelude::Pubkey::find_program_address(
        &[b"certificate", inst.as_ref(), student.as_ref(), &7u64.to_le_bytes()],
        &program,
    );
    let got = derive_certificate_address(&program_id(), &key(SCHOOL), &key(STUDENT), 7).unwrap();
    assert_eq!(got.bytes, expected.to_bytes());
    assert_ne!(got.bytes, [SCHOOL; 32]);
}

#[test]
fn institution_address_matches_anchor_derivation() {
    let program = anchor_lang::prelude::Pubkey::from_str(PROGRAM).unwrap();
    let auth = anchor_lang::prelude::Pubkey::new_from_array([SCHOOL; 32]);
    let (expected, _) =
        anchor_lang::prelude::Pubkey::find_program_address(&[b"institution", auth.as_ref()], &program);
    let got = derive_institution_address(&program_id(), &key(SCHOOL)).unwrap();
    assert_eq!(got.bytes, expected.to_bytes());
    let (_, inst) = setup(false);
    assert_eq!(inst.bytes, expected.to_bytes());
}

#[test]
fn le_bytes_of_numbers() {
    assert_eq!(to_le_bytes(0), vec![0; 8]);
    assert_eq!(to_le_bytes(1), vec![1, 0, 0, 0, 0, 0, 0, 0]);
    assert_eq!(to_le_bytes(0x0102_0304_0506_0708), 0x0102_0304_0506_0708u64.to_le_bytes().to_vec());
    assert_eq!(to_le_bytes(u64::MAX), vec![255; 8]);
}

#[test]
fn unverified_institution_cannot_issue() {
    let (mut l, inst) = setup(false);
    let r = issue(&mut l, inst, 10);
    assert_eq!(r.err(), Some(CustomError::InstitutionNotVerified));
    assert_eq!(l.platform.unwrap().total_certificates, 0);
    assert_eq!(l.platform.unwrap().total_institutions, 1);
    assert_eq!(l.institutions[0].1.certificates_issued, 0);
    assert_eq!(l.certificates.len(), 0);
}

#[test]
fn revoke_twice_is_refused_and_stays_revoked() {
    let (mut l, inst) = setup(true);
    let a = issue(&mut l, inst, 10).unwrap();
    let ctx = RevokeCertificate { certificate: a, authority: key(SCHOOL) };
    assert!(revoke_certificate(&mut l, &ctx, 11).is_ok());
    assert_eq!(revoke_certificate(&mut l, &ctx, 12).err(), Some(CustomError::CertificateRevoked));
    assert_eq!(revoke_certificate(&mut l, &ctx, 13).err(), Some(CustomError::CertificateRevoked));
    let r = verify_certificate(&l, &VerifyCertificate { certificate: a });
    assert_eq!(r.err(), Some(CustomError::CertificateRevoked));
    assert_eq!(l.platform.unwrap().total_certificates, 1);
}

#[test]
fn register_name_of_64_bytes_is_accepted_and_65_refused() {
    let mut l = Ledger::new(program_id());
    initialize(&mut l, &Initialize { authority: key(ADMIN) }).unwrap();
    let r = register_institution(&mut l, &RegisterInstitution { authority: key(SCHOOL) }, "n".repeat(65), s("h"), 0);
    assert_eq!(r.err(), Some(CustomError::NameTooLong));
    assert_eq!(l.institutions.len(), 0);
    let r = register_institution(&mut l, &RegisterInstitution { authority: key(SCHOOL) }, "n".repeat(64), s("h"), 0);
    assert!(r.is_ok());
    assert_eq!(l.institutions.len(), 1);
    assert!(!l.institutions[0].1.is_verified);
    assert_eq!(l.institutions[0].1.created_at, 0);
}

#[test]
fn register_hash_too_long() {
    let mut l = Ledger::new(program_id());
    initialize(&mut l, &Initialize { authority: key(ADMIN) }).unwrap();
    let r = register_institution(&mut l, &RegisterInstitution { authority: key(SCHOOL) }, s("A"), "h".repeat(65), 0);
    assert_eq!(r.err(), Some(CustomError::HashTooLong));
}

#[test]
fn register_twice_is_duplicate() {
    let (mut l, _) = setup(false);
    let r = register_institution(&mut l, &RegisterInstitution { authority: key(SCHOOL) }, s("B"), s("h"), 0);
    assert_eq!(r.err(), Some(CustomError::DuplicateInstitution));
    assert_eq!(l.platform.unwrap().total_institutions, 1);
}

#[test]
fn register_before_initialize() {
    let mut l = Ledger::new(program_id());
    let r = register_institution(&mut l, &RegisterInstitution { authority: key(SCHOOL) }, s("A"), s("h"), 0);
    assert_eq!(r.err(), Some(CustomError::NotInitialized));
}

#[test]
fn initialize_twice_is_refused() {
    let mut l = Ledger::new(program_id());
    assert!(initialize(&mut l, &Initialize { authority: key(ADMIN) }).is_ok());
    let p = l.platform.unwrap();
    assert_eq!(p.total_certificates, 0);
    assert_eq!(p.total_institutions, 0);
    let r = initialize(&mut l, &Initialize { authority: key(STRANGER) });
    assert_eq!(r.err(), Some(CustomError::AlreadyInitialized));
    assert_eq!(l.platform.unwrap().authority.bytes, [ADMIN; 32]);
}

#[test]
fn verify_institution_needs_platform_authority() {
    let (mut l, inst) = setup(false);
    let r = verify_institution(&mut l, &VerifyInstitution { institution: inst, authority: key(STRANGER) });
    assert_eq!(r.err(), Some(CustomError::Unauthorized));
    assert!(!l.institutions[0].1.is_verified);
    let r = verify_institution(&mut l, &VerifyInstitution { institution: key(99), authority: key(ADMIN) });
    assert_eq!(r.err(), Some(CustomError::InstitutionNotFound));
}

#[test]
fn verify_institution_twice_is_harmless() {
    let (mut l, inst) = setup(true);
    assert!(verify_institution(&mut l, &VerifyInstitution { institution: inst, authority: key(ADMIN) }).is_ok());
    assert!(l.institutions[0].1.is_verified);
    assert_eq!(l.events.len(), 3);
}

#[test]
fn issue_field_bounds() {
    let (mut l, inst) = setup(true);
    let two = vec![s("a"), s("b")];
    assert_eq!(issue_with(&mut l, inst, &"n".repeat(65), "c", two.clone(), "A", "u").err(), Some(CustomError::NameTooLong));
    assert_eq!(issue_with(&mut l, inst, "n", &"c".repeat(129), two.clone(), "A", "u").err(), Some(CustomError::CourseTooLong));
    assert_eq!(issue_with(&mut l, inst, "n", "c", two.clone(), &"g".repeat(11), "u").err(), Some(CustomError::GradeTooLong));
    let many: Vec<String> = (0..21).map(|i| format!("s{}", i)).collect();
    assert_eq!(issue_with(&mut l, inst, "n", "c", many, "A", "u").err(), Some(CustomError::TooManySkills));
    assert_eq!(issue_with(&mut l, inst, "n", "c", vec!["k".repeat(33)], "A", "u").err(), Some(CustomError::SkillTooLong));
    assert_eq!(issue_with(&mut l, inst, "n", "c", two.clone(), "A", &"u".repeat(201)).err(), Some(CustomError::URITooLong));
    assert_eq!(l.certificates.len(), 0);
    let at_limit: Vec<String> = (0..20).map(|_| "k".repeat(32)).collect();
    let r = issue_with(&mut l, inst, &"n".repeat(64), &"c".repeat(128), at_limit, &"g".repeat(10), &"u".repeat(200));
    assert!(r.is_ok());
}

#[test]
fn issue_by_stranger_is_unauthorized() {
    let (mut l, inst) = setup(true);
    let r = issue_certificate(
        &mut l,
        &IssueCertificate { institution: inst, student: key(STUDENT), authority: key(STRANGER) },
        s("Jane"),
        s("C"),
        1,
        vec![],
        s("A"),
        s("u"),
        0,
    );
    assert_eq!(r.err(), Some(CustomError::Unauthorized));
    let r = issue_certificate(
        &mut l,
        &IssueCertificate { institution: key(98), student: key(STUDENT), authority: key(SCHOOL) },
        s("Jane"),
        s("C"),
        1,
        vec![],
        s("A"),
        s("u"),
        0,
    );
    assert_eq!(r.err(), Some(CustomError::InstitutionNotFound));
}

#[test]
fn revoke_by_stranger_is_unauthorized() {
    let (mut l, inst) = setup(true);
    let a = issue(&mut l, inst, 10).unwrap();
    let r = revoke_certificate(&mut l, &RevokeCertificate { certificate: a, authority: key(STRANGER) }, 11);
    assert_eq!(r.err(), Some(CustomError::Unauthorized));
    assert!(verify_certificate(&l, &VerifyCertificate { certificate: a }).is_ok());
    let r = revoke_certificate(&mut l, &RevokeCertificate { certificate: key(97), authority: key(SCHOOL) }, 11);
    assert_eq!(r.err(), Some(CustomError::CertificateNotFound));
    let r = verify_certificate(&l, &VerifyCertificate { certificate: key(97) });
    assert_eq!(r.err(), Some(CustomError::CertificateNotFound));
}

#[test]
fn student_query_is_left_to_an_indexer() {
    let (mut l, inst) = setup(true);
    issue(&mut l, inst, 10).unwrap();
    let r = get_student_certificates(&l, &GetStudentCertificates { student: key(STUDENT) }).unwrap();
    assert!(r.is_empty());
}

#[test]
fn error_messages() {
    assert_eq!(CustomError::NameTooLong.message(), "Name is too long");
    assert_eq!(CustomError::CertificateRevoked.message(), "Certificate is revoked");
}
