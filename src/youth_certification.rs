//! The operations of the program. Each one checks everything first and then
//! commits in full, or refuses and leaves the ledger as it was.

use vstd::prelude::*;
use vstd::utf8::encode_utf8;
use crate::fingerprint::{certificate_fingerprint, fingerprint};
use crate::key::{find_program_address, le_bytes, program_address_of, seeds_view, to_le_bytes, Pubkey};
use crate::ledger::{
    count_issued, find_key, has_key, key_index, lemma_count_push, lemma_count_update, lemma_count_zero,
    lemma_push_unique, lemma_update_unique, Ledger,
};
use crate::records::{
    Certificate, CertificateData, CertificateIssued, CertificateRevoked, CustomError, Event,
    Institution, InstitutionRegistered, InstitutionVerified, Platform,
};

verus! {

/// Who creates the platform.
#[derive(Clone, Copy, Debug)]
pub struct Initialize {
    pub authority: Pubkey,
}

/// Who registers an institution; the institution's address derives from it.
#[derive(Clone, Copy, Debug)]
pub struct RegisterInstitution {
    pub authority: Pubkey,
}

/// The institution to verify, and who signs for the platform.
#[derive(Clone, Copy, Debug)]
pub struct VerifyInstitution {
    pub institution: Pubkey,
    pub authority: Pubkey,
}

/// The issuing institution, the student, and who signs for the institution.
#[derive(Clone, Copy, Debug)]
pub struct IssueCertificate {
    pub institution: Pubkey,
    pub student: Pubkey,
    pub authority: Pubkey,
}

/// The certificate to read.
#[derive(Clone, Copy, Debug)]
pub struct VerifyCertificate {
    pub certificate: Pubkey,
}

/// The certificate to revoke, and who signs for its institution.
#[derive(Clone, Copy, Debug)]
pub struct RevokeCertificate {
    pub certificate: Pubkey,
    pub authority: Pubkey,
}

/// The student whose certificates are asked for.
#[derive(Clone, Copy, Debug)]
pub struct GetStudentCertificates {
    pub student: Pubkey,
}

/// The length of `s` in UTF-8 bytes.
pub open spec fn byte_len(s: Seq<char>) -> nat {
    encode_utf8(s).len()
}

/// The seed that starts every institution address: `institution` in ASCII.
pub open spec fn institution_tag() -> Seq<u8> {
    seq![105u8, 110, 115, 116, 105, 116, 117, 116, 105, 111, 110]
}

/// The seed that starts every certificate address: `certificate` in ASCII.
pub open spec fn certificate_tag() -> Seq<u8> {
    seq![99u8, 101, 114, 116, 105, 102, 105, 99, 97, 116, 101]
}

/// The seeds of the address of the institution registered by `authority`.
pub open spec fn institution_seeds(authority: Seq<u8>) -> Seq<Seq<u8>> {
    seq![institution_tag(), authority]
}

/// The seeds of the address of the `index`-th certificate (counting from 0)
/// that `institution` issues to `student`.
pub open spec fn certificate_seeds(institution: Seq<u8>, student: Seq<u8>, index: u64) -> Seq<Seq<u8>> {
    seq![certificate_tag(), institution, student, le_bytes(index)]
}

/// The address of the institution registered by `authority`.
pub open spec fn institution_address(l: Ledger, authority: Seq<u8>) -> Option<Seq<u8>> {
    program_address_of(institution_seeds(authority), l.program_id.bytes@)
}

/// The address of the `index`-th certificate of `institution` to `student`.
pub open spec fn certificate_address(l: Ledger, institution: Seq<u8>, student: Seq<u8>, index: u64) -> Option<Seq<u8>> {
    program_address_of(certificate_seeds(institution, student, index), l.program_id.bytes@)
}

/// The institution at address `a`.
pub open spec fn institution_at(l: Ledger, a: Seq<u8>) -> Institution {
    l.institutions@[key_index(l.institutions@, a)].1
}

/// The certificate at address `a`.
pub open spec fn certificate_at(l: Ledger, a: Seq<u8>) -> Certificate {
    l.certificates@[key_index(l.certificates@, a)].1
}

fn tag_bytes(institution: bool) -> (r: Vec<u8>)
    ensures
        r@ == (if institution { institution_tag() } else { certificate_tag() }),
{
    let v: Vec<u8> = if institution {
        vec![105u8, 110, 115, 116, 105, 116, 117, 116, 105, 111, 110]
    } else {
        vec![99u8, 101, 114, 116, 105, 102, 105, 99, 97, 116, 101]
    };
    assert(v@ =~= (if institution { institution_tag() } else { certificate_tag() }));
    v
}

/// The address of the institution registered by `authority`.
pub fn derive_institution_address(program_id: &Pubkey, authority: &Pubkey) -> (r: Option<Pubkey>)
    ensures
        crate::key::key_bytes(r) == program_address_of(institution_seeds(authority.bytes@), program_id.bytes@),
{
    let mut seeds: Vec<Vec<u8>> = Vec::new();
    seeds.push(tag_bytes(true));
    seeds.push(authority.to_vec());
    assert(seeds_view(seeds@) =~= institution_seeds(authority.bytes@));
    find_program_address(&seeds, program_id)
}

/// The address of the `index`-th certificate of `institution` to `student`.
pub fn derive_certificate_address(program_id: &Pubkey, institution: &Pubkey, student: &Pubkey, index: u64) -> (r: Option<Pubkey>)
    ensures
        crate::key::key_bytes(r) == program_address_of(
            certificate_seeds(institution.bytes@, student.bytes@, index),
            program_id.bytes@,
        ),
{
    let mut seeds: Vec<Vec<u8>> = Vec::new();
    seeds.push(tag_bytes(false));
    seeds.push(institution.to_vec());
    seeds.push(student.to_vec());
    seeds.push(to_le_bytes(index));
    assert(seeds_view(seeds@) =~= certificate_seeds(institution.bytes@, student.bytes@, index));
    find_program_address(&seeds, program_id)
}

/// Creates the platform, owned by the signer, with both counters at zero.
/// Refused with `AlreadyInitialized` when the platform exists.
pub fn initialize(ledger: &mut Ledger, ctx: &Initialize) -> (r: Result<(), CustomError>)
    requires
        old(ledger).wf(),
    ensures
        final(ledger).wf(),
        match r {
            Ok(()) => {
                &&& old(ledger).platform is None
                &&& final(ledger).platform == Some(
                    Platform { authority: ctx.authority, total_certificates: 0, total_institutions: 0 },
                )
                &&& final(ledger).program_id == old(ledger).program_id
                &&& final(ledger).institutions == old(ledger).institutions
                &&& final(ledger).certificates == old(ledger).certificates
                &&& final(ledger).events == old(ledger).events
            },
            Err(e) => e == CustomError::AlreadyInitialized && old(ledger).platform is Some
                && *final(ledger) == *old(ledger),
        },
{
    if ledger.platform.is_some() {
        return Err(CustomError::AlreadyInitialized);
    }
    ledger.platform = Some(Platform { authority: ctx.authority, total_certificates: 0, total_institutions: 0 });
    Ok(())
}

/// Why registering an institution would be refused, if it would.
pub open spec fn register_error(l: Ledger, authority: Pubkey, name: Seq<char>, verification_hash: Seq<char>) -> Option<CustomError> {
    if byte_len(name) > 64 {
        Some(CustomError::NameTooLong)
    } else if byte_len(verification_hash) > 64 {
        Some(CustomError::HashTooLong)
    } else if l.platform is None {
        Some(CustomError::NotInitialized)
    } else if l.platform->0.total_institutions == u64::MAX {
        Some(CustomError::CounterOverflow)
    } else if institution_address(l, authority.bytes@) is None {
        Some(CustomError::NoViableAddress)
    } else if has_key(l.institutions@, institution_address(l, authority.bytes@)->0) {
        Some(CustomError::DuplicateInstitution)
    } else {
        None
    }
}

/// `new` is `old` with the institution at address `a` registered by
/// `authority` at time `now`, and its notification.
pub open spec fn registered(
    old: Ledger,
    new: Ledger,
    a: Seq<u8>,
    authority: Pubkey,
    name: Seq<char>,
    verification_hash: Seq<char>,
    now: i64,
) -> bool {
    let inst = new.institutions@.last().1;
    let p = old.platform->0;
    &&& new.program_id == old.program_id
    &&& new.platform == Some(Platform { total_institutions: (p.total_institutions + 1) as u64, ..p })
    &&& new.institutions@.len() == old.institutions@.len() + 1
    &&& new.institutions@.drop_last() == old.institutions@
    &&& new.institutions@.last().0.bytes@ == a
    &&& inst.authority == authority
    &&& inst.name@ == name
    &&& inst.verification_hash@ == verification_hash
    &&& !inst.is_verified
    &&& inst.certificates_issued == 0
    &&& inst.created_at == now
    &&& new.certificates == old.certificates
    &&& new.events@.drop_last() == old.events@
    &&& new.events@.len() == old.events@.len() + 1
    &&& match new.events@.last() {
        Event::InstitutionRegistered(ev) => ev.institution.bytes@ == a && ev.name@ == name
            && ev.authority == authority,
        _ => false,
    }
}

/// Registers an institution for the signer, at the address derived from the
/// signer's key, unverified and with no certificate issued. Returns its address.
pub fn register_institution(
    ledger: &mut Ledger,
    ctx: &RegisterInstitution,
    name: String,
    verification_hash: String,
    now: i64,
) -> (r: Result<Pubkey, CustomError>)
    requires
        old(ledger).wf(),
    ensures
        final(ledger).wf(),
        match r {
            Ok(a) => register_error(*old(ledger), ctx.authority, name@, verification_hash@) is None
                && institution_address(*old(ledger), ctx.authority.bytes@) == Some(a.bytes@)
                && registered(*old(ledger), *final(ledger), a.bytes@, ctx.authority, name@, verification_hash@, now),
            Err(e) => register_error(*old(ledger), ctx.authority, name@, verification_hash@) == Some(e)
                && *final(ledger) == *old(ledger),
        },
{
    if name.as_str().as_bytes().len() > 64 {
        return Err(CustomError::NameTooLong);
    }
    if verification_hash.as_str().as_bytes().len() > 64 {
        return Err(CustomError::HashTooLong);
    }
    let p = match ledger.platform {
        Some(p) => p,
        None => return Err(CustomError::NotInitialized),
    };
    if p.total_institutions == u64::MAX {
        return Err(CustomError::CounterOverflow);
    }
    let a = match derive_institution_address(&ledger.program_id, &ctx.authority) {
        Some(a) => a,
        None => return Err(CustomError::NoViableAddress),
    };
    if find_key(&ledger.institutions, &a).is_some() {
        return Err(CustomError::DuplicateInstitution);
    }
    let ev_name = name.clone();
    let inst = Institution {
        authority: ctx.authority,
        name,
        verification_hash,
        is_verified: false,
        certificates_issued: 0,
        created_at: now,
    };
    proof {
        lemma_push_unique(ledger.institutions@, a, inst);
        let certs = ledger.certificates@;
        assert forall|j: int| 0 <= j < certs.len() implies (#[trigger] certs[j]).1.institution.bytes@ != a.bytes@ by {
            assert(has_key(ledger.institutions@, certs[j].1.institution.bytes@));
        }
        lemma_count_zero(certs, a.bytes@);
    }
    ledger.institutions.push((a, inst));
    ledger.platform = Some(Platform { total_institutions: p.total_institutions + 1, ..p });
    ledger.events.push(
        Event::InstitutionRegistered(
            InstitutionRegistered { institution: a, name: ev_name, authority: ctx.authority },
        ),
    );
    assert(ledger.institutions@.drop_last() =~= old(ledger).institutions@);
    assert(ledger.events@.drop_last() =~= old(ledger).events@);
    Ok(a)
}

/// Why verifying an institution would be refused, if it would.
pub open spec fn verify_institution_error(l: Ledger, ctx: VerifyInstitution) -> Option<CustomError> {
    if l.platform is None {
        Some(CustomError::NotInitialized)
    } else if l.platform->0.authority.bytes@ != ctx.authority.bytes@ {
        Some(CustomError::Unauthorized)
    } else if !has_key(l.institutions@, ctx.institution.bytes@) {
        Some(CustomError::InstitutionNotFound)
    } else {
        None
    }
}

/// `inst` marked verified, all else kept.
pub open spec fn as_verified(inst: Institution) -> Institution {
    Institution { is_verified: true, ..inst }
}

/// Marks an institution verified; only the platform authority may. Verifying
/// an institution that is verified already changes nothing but the notification.
pub fn verify_institution(ledger: &mut Ledger, ctx: &VerifyInstitution) -> (r: Result<(), CustomError>)
    requires
        old(ledger).wf(),
    ensures
        final(ledger).wf(),
        match r {
            Ok(()) => {
                let i = key_index(old(ledger).institutions@, ctx.institution.bytes@);
                let inst = old(ledger).institutions@[i];
                &&& verify_institution_error(*old(ledger), *ctx) is None
                &&& final(ledger).institutions@ == old(ledger).institutions@.update(i, (inst.0, as_verified(inst.1)))
                &&& final(ledger).program_id == old(ledger).program_id
                &&& final(ledger).platform == old(ledger).platform
                &&& final(ledger).certificates == old(ledger).certificates
                &&& final(ledger).events@.drop_last() == old(ledger).events@
                &&& final(ledger).events@.len() == old(ledger).events@.len() + 1
                &&& match final(ledger).events@.last() {
                    Event::InstitutionVerified(ev) => ev.institution == ctx.institution
                        && ev.name@ == inst.1.name@,
                    _ => false,
                }
            },
            Err(e) => verify_institution_error(*old(ledger), *ctx) == Some(e)
                && *final(ledger) == *old(ledger),
        },
{
    let p = match ledger.platform {
        Some(p) => p,
        None => return Err(CustomError::NotInitialized),
    };
    if !p.authority.same_as(&ctx.authority) {
        return Err(CustomError::Unauthorized);
    }
    let i = match find_key(&ledger.institutions, &ctx.institution) {
        Some(i) => i,
        None => return Err(CustomError::InstitutionNotFound),
    };
    let (k, mut inst) = ledger.institutions.remove(i);
    let ghost before = inst;
    let ev_name = inst.name.clone();
    inst.is_verified = true;
    assert(inst == as_verified(before));
    ledger.institutions.insert(i, (k, inst));
    proof {
        lemma_update_unique(old(ledger).institutions@, i as int, as_verified(before));
        assert(ledger.institutions@ =~= old(ledger).institutions@.update(i as int, (k, as_verified(before))));
    }
    ledger.events.push(
        Event::InstitutionVerified(InstitutionVerified { institution: ctx.institution, name: ev_name }),
    );
    Ok(())
}

/// The texts that a list of strings holds.
pub open spec fn strings_view(s: Seq<String>) -> Seq<Seq<char>> {
    s.map_values(|x: String| x@)
}

/// Every skill is at most 32 bytes long.
pub open spec fn skills_fit(skills: Seq<String>) -> bool {
    forall|k: int| 0 <= k < skills.len() ==> byte_len(#[trigger] skills[k]@) <= 32
}

/// Whether every skill is at most 32 bytes long.
fn skills_within_bounds(skills: &Vec<String>) -> (r: bool)
    ensures
        r == skills_fit(skills@),
{
    let mut j: usize = 0;
    while j < skills.len()
        invariant
            0 <= j <= skills@.len(),
            forall|k: int| 0 <= k < j ==> byte_len(#[trigger] skills@[k]@) <= 32,
        decreases skills@.len() - j,
    {
        if skills[j].as_str().as_bytes().len() > 32 {
            return false;
        }
        j = j + 1;
    }
    true
}

/// Why issuing a certificate would be refused, if it would.
pub open spec fn issue_error(
    l: Ledger,
    ctx: IssueCertificate,
    student_name: Seq<char>,
    course_name: Seq<char>,
    skills: Seq<String>,
    grade: Seq<char>,
    metadata_uri: Seq<char>,
) -> Option<CustomError> {
    let inst = institution_at(l, ctx.institution.bytes@);
    if byte_len(student_name) > 64 {
        Some(CustomError::NameTooLong)
    } else if byte_len(course_name) > 128 {
        Some(CustomError::CourseTooLong)
    } else if byte_len(grade) > 10 {
        Some(CustomError::GradeTooLong)
    } else if skills.len() > 20 {
        Some(CustomError::TooManySkills)
    } else if !skills_fit(skills) {
        Some(CustomError::SkillTooLong)
    } else if byte_len(metadata_uri) > 200 {
        Some(CustomError::URITooLong)
    } else if l.platform is None {
        Some(CustomError::NotInitialized)
    } else if !has_key(l.institutions@, ctx.institution.bytes@) {
        Some(CustomError::InstitutionNotFound)
    } else if !inst.is_verified {
        Some(CustomError::InstitutionNotVerified)
    } else if inst.authority.bytes@ != ctx.authority.bytes@ {
        Some(CustomError::Unauthorized)
    } else if inst.certificates_issued == u64::MAX || l.platform->0.total_certificates == u64::MAX {
        Some(CustomError::CounterOverflow)
    } else if certificate_address(l, ctx.institution.bytes@, ctx.student.bytes@, inst.certificates_issued) is None {
        Some(CustomError::NoViableAddress)
    } else if has_key(
        l.certificates@,
        certificate_address(l, ctx.institution.bytes@, ctx.student.bytes@, inst.certificates_issued)->0,
    ) {
        Some(CustomError::AddressInUse)
    } else {
        None
    }
}

/// `inst` with one more certificate issued, all else kept.
pub open spec fn with_one_more(inst: Institution) -> Institution {
    Institution { certificates_issued: (inst.certificates_issued + 1) as u64, ..inst }
}

/// `new` is `old` with the certificate at address `a` issued by
/// `ctx.institution` to `ctx.student` at time `now`, the counters moved on by
/// one, and its notification.
pub open spec fn issued(
    old: Ledger,
    new: Ledger,
    ctx: IssueCertificate,
    a: Seq<u8>,
    student_name: Seq<char>,
    course_name: Seq<char>,
    course_duration: u32,
    skills: Seq<String>,
    grade: Seq<char>,
    metadata_uri: Seq<char>,
    now: i64,
) -> bool {
    let i = key_index(old.institutions@, ctx.institution.bytes@);
    let entry = old.institutions@[i];
    let p = old.platform->0;
    let c = new.certificates@.last().1;
    &&& new.program_id == old.program_id
    &&& new.platform == Some(Platform { total_certificates: (p.total_certificates + 1) as u64, ..p })
    &&& new.institutions@ == old.institutions@.update(i, (entry.0, with_one_more(entry.1)))
    &&& new.certificates@.len() == old.certificates@.len() + 1
    &&& new.certificates@.drop_last() == old.certificates@
    &&& new.certificates@.last().0.bytes@ == a
    &&& c.student_wallet == ctx.student
    &&& c.institution == ctx.institution
    &&& c.student_name@ == student_name
    &&& c.course_name@ == course_name
    &&& c.course_duration == course_duration
    &&& c.skills_acquired@ == skills
    &&& c.grade@ == grade
    &&& c.issued_at == now
    &&& c.certificate_hash@ == fingerprint(student_name, course_name, course_duration, grade, now)
    &&& c.metadata_uri@ == metadata_uri
    &&& !c.is_revoked
    &&& new.events@.drop_last() == old.events@
    &&& new.events@.len() == old.events@.len() + 1
    &&& match new.events@.last() {
        Event::CertificateIssued(ev) => ev.certificate.bytes@ == a && ev.student == ctx.student
            && ev.institution == ctx.institution && ev.course_name@ == course_name
            && ev.issued_at == now,
        _ => false,
    }
}

/// Issues a certificate from a verified institution to a student, at the
/// address derived from the institution, the student and the number of
/// certificates the institution had issued before. Returns that address.
pub fn issue_certificate(
    ledger: &mut Ledger,
    ctx: &IssueCertificate,
    student_name: String,
    course_name: String,
    course_duration: u32,
    skills_acquired: Vec<String>,
    grade: String,
    metadata_uri: String,
    now: i64,
) -> (r: Result<Pubkey, CustomError>)
    requires
        old(ledger).wf(),
    ensures
        final(ledger).wf(),
        match r {
            Ok(a) => {
                let inst = institution_at(*old(ledger), ctx.institution.bytes@);
                &&& issue_error(*old(ledger), *ctx, student_name@, course_name@, skills_acquired@, grade@, metadata_uri@) is None
                &&& certificate_address(*old(ledger), ctx.institution.bytes@, ctx.student.bytes@, inst.certificates_issued)
                    == Some(a.bytes@)
                &&& issued(*old(ledger), *final(ledger), *ctx, a.bytes@, student_name@, course_name@,
                    course_duration, skills_acquired@, grade@, metadata_uri@, now)
            },
            Err(e) => issue_error(*old(ledger), *ctx, student_name@, course_name@, skills_acquired@, grade@, metadata_uri@)
                == Some(e) && *final(ledger) == *old(ledger),
        },
{
    if student_name.as_str().as_bytes().len() > 64 {
        return Err(CustomError::NameTooLong);
    }
    if course_name.as_str().as_bytes().len() > 128 {
        return Err(CustomError::CourseTooLong);
    }
    if grade.as_str().as_bytes().len() > 10 {
        return Err(CustomError::GradeTooLong);
    }
    if skills_acquired.len() > 20 {
        return Err(CustomError::TooManySkills);
    }
    if !skills_within_bounds(&skills_acquired) {
        return Err(CustomError::SkillTooLong);
    }
    if metadata_uri.as_str().as_bytes().len() > 200 {
        return Err(CustomError::URITooLong);
    }
    let p = match ledger.platform {
        Some(p) => p,
        None => return Err(CustomError::NotInitialized),
    };
    let i = match find_key(&ledger.institutions, &ctx.institution) {
        Some(i) => i,
        None => return Err(CustomError::InstitutionNotFound),
    };
    if !ledger.institutions[i].1.is_verified {
        return Err(CustomError::InstitutionNotVerified);
    }
    if !ledger.institutions[i].1.authority.same_as(&ctx.authority) {
        return Err(CustomError::Unauthorized);
    }
    let index = ledger.institutions[i].1.certificates_issued;
    if index == u64::MAX || p.total_certificates == u64::MAX {
        return Err(CustomError::CounterOverflow);
    }
    let a = match derive_certificate_address(&ledger.program_id, &ctx.institution, &ctx.student, index) {
        Some(a) => a,
        None => return Err(CustomError::NoViableAddress),
    };
    if find_key(&ledger.certificates, &a).is_some() {
        return Err(CustomError::AddressInUse);
    }
    let certificate_hash = certificate_fingerprint(
        student_name.as_str(),
        course_name.as_str(),
        course_duration,
        grade.as_str(),
        now,
    );
    let ev_course = course_name.clone();
    let c = Certificate {
        student_wallet: ctx.student,
        institution: ctx.institution,
        student_name,
        course_name,
        course_duration,
        skills_acquired,
        grade,
        issued_at: now,
        certificate_hash,
        metadata_uri,
        is_revoked: false,
    };
    proof {
        lemma_push_unique(ledger.certificates@, a, c);
    }
    ledger.certificates.push((a, c));
    let (k, mut inst) = ledger.institutions.remove(i);
    let ghost before = inst;
    inst.certificates_issued = index + 1;
    assert(inst == with_one_more(before));
    ledger.institutions.insert(i, (k, inst));
    proof {
        lemma_update_unique(old(ledger).institutions@, i as int, with_one_more(before));
        assert(ledger.institutions@ =~= old(ledger).institutions@.update(i as int, (k, with_one_more(before))));
    }
    ledger.platform = Some(Platform { total_certificates: p.total_certificates + 1, ..p });
    ledger.events.push(
        Event::CertificateIssued(
            CertificateIssued {
                certificate: a,
                student: ctx.student,
                institution: ctx.institution,
                course_name: ev_course,
                issued_at: now,
            },
        ),
    );
    assert(ledger.certificates@.drop_last() =~= old(ledger).certificates@);
    assert(ledger.events@.drop_last() =~= old(ledger).events@);
    Ok(a)
}

/// Why reading a certificate would be refused, if it would.
pub open spec fn verify_certificate_error(l: Ledger, ctx: VerifyCertificate) -> Option<CustomError> {
    if !has_key(l.certificates@, ctx.certificate.bytes@) {
        Some(CustomError::CertificateNotFound)
    } else if certificate_at(l, ctx.certificate.bytes@).is_revoked {
        Some(CustomError::CertificateRevoked)
    } else {
        None
    }
}

/// `d` shows every field of `c` that a verifier reads.
pub open spec fn shows(d: CertificateData, c: Certificate) -> bool {
    &&& d.student_wallet == c.student_wallet
    &&& d.institution == c.institution
    &&& d.student_name@ == c.student_name@
    &&& d.course_name@ == c.course_name@
    &&& d.course_duration == c.course_duration
    &&& strings_view(d.skills_acquired@) == strings_view(c.skills_acquired@)
    &&& d.grade@ == c.grade@
    &&& d.issued_at == c.issued_at
    &&& d.certificate_hash@ == c.certificate_hash@
    &&& d.is_revoked == c.is_revoked
}

/// A copy of each string.
fn clone_strings(v: &Vec<String>) -> (r: Vec<String>)
    ensures
        strings_view(r@) == strings_view(v@),
{
    let mut out: Vec<String> = Vec::new();
    let mut i: usize = 0;
    while i < v.len()
        invariant
            0 <= i <= v@.len(),
            out@.len() == i,
            forall|k: int| 0 <= k < i ==> (#[trigger] out@[k])@ == v@[k]@,
        decreases v@.len() - i,
    {
        out.push(v[i].clone());
        i = i + 1;
    }
    assert(strings_view(out@) =~= strings_view(v@));
    out
}

/// Reads a certificate that has not been revoked.
pub fn verify_certificate(ledger: &Ledger, ctx: &VerifyCertificate) -> (r: Result<CertificateData, CustomError>)
    requires
        ledger.wf(),
    ensures
        match r {
            Ok(d) => verify_certificate_error(*ledger, *ctx) is None
                && shows(d, certificate_at(*ledger, ctx.certificate.bytes@)),
            Err(e) => verify_certificate_error(*ledger, *ctx) == Some(e),
        },
{
    let i = match find_key(&ledger.certificates, &ctx.certificate) {
        Some(i) => i,
        None => return Err(CustomError::CertificateNotFound),
    };
    let c = &ledger.certificates[i].1;
    if c.is_revoked {
        return Err(CustomError::CertificateRevoked);
    }
    Ok(CertificateData {
        student_wallet: c.student_wallet,
        institution: c.institution,
        student_name: c.student_name.clone(),
        course_name: c.course_name.clone(),
        course_duration: c.course_duration,
        skills_acquired: clone_strings(&c.skills_acquired),
        grade: c.grade.clone(),
        issued_at: c.issued_at,
        certificate_hash: c.certificate_hash.clone(),
        is_revoked: c.is_revoked,
    })
}

/// Why revoking a certificate would be refused, if it would.
pub open spec fn revoke_error(l: Ledger, ctx: RevokeCertificate) -> Option<CustomError> {
    let c = certificate_at(l, ctx.certificate.bytes@);
    if !has_key(l.certificates@, ctx.certificate.bytes@) {
        Some(CustomError::CertificateNotFound)
    } else if !has_key(l.institutions@, c.institution.bytes@) {
        Some(CustomError::InstitutionNotFound)
    } else if institution_at(l, c.institution.bytes@).authority.bytes@ != ctx.authority.bytes@ {
        Some(CustomError::Unauthorized)
    } else if c.is_revoked {
        Some(CustomError::CertificateRevoked)
    } else {
        None
    }
}

/// `c` marked revoked, all else kept.
pub open spec fn as_revoked(c: Certificate) -> Certificate {
    Certificate { is_revoked: true, ..c }
}

/// `new` is `old` with the certificate at `ctx.certificate` marked revoked at
/// time `now`, and its notification.
pub open spec fn revoked(old: Ledger, new: Ledger, ctx: RevokeCertificate, now: i64) -> bool {
    let i = key_index(old.certificates@, ctx.certificate.bytes@);
    let entry = old.certificates@[i];
    &&& new.certificates@ == old.certificates@.update(i, (entry.0, as_revoked(entry.1)))
    &&& new.program_id == old.program_id
    &&& new.platform == old.platform
    &&& new.institutions == old.institutions
    &&& new.events@.drop_last() == old.events@
    &&& new.events@.len() == old.events@.len() + 1
    &&& match new.events@.last() {
        Event::CertificateRevoked(ev) => ev.certificate.bytes@ == ctx.certificate.bytes@
            && ev.institution == entry.1.institution && ev.revoked_at == now,
        _ => false,
    }
}

/// Revokes a certificate; only the authority of the institution that issued
/// it may. The certificate stays stored. Revoking it again is refused with
/// `CertificateRevoked`.
pub fn revoke_certificate(ledger: &mut Ledger, ctx: &RevokeCertificate, now: i64) -> (r: Result<(), CustomError>)
    requires
        old(ledger).wf(),
    ensures
        final(ledger).wf(),
        match r {
            Ok(()) => revoke_error(*old(ledger), *ctx) is None && revoked(*old(ledger), *final(ledger), *ctx, now),
            Err(e) => revoke_error(*old(ledger), *ctx) == Some(e) && *final(ledger) == *old(ledger),
        },
{
    let i = match find_key(&ledger.certificates, &ctx.certificate) {
        Some(i) => i,
        None => return Err(CustomError::CertificateNotFound),
    };
    let institution = ledger.certificates[i].1.institution;
    let j = match find_key(&ledger.institutions, &institution) {
        Some(j) => j,
        None => return Err(CustomError::InstitutionNotFound),
    };
    if !ledger.institutions[j].1.authority.same_as(&ctx.authority) {
        return Err(CustomError::Unauthorized);
    }
    if ledger.certificates[i].1.is_revoked {
        return Err(CustomError::CertificateRevoked);
    }
    let (k, mut c) = ledger.certificates.remove(i);
    let ghost before = c;
    c.is_revoked = true;
    assert(c == as_revoked(before));
    ledger.certificates.insert(i, (k, c));
    proof {
        let olds = old(ledger).certificates@;
        lemma_update_unique(olds, i as int, as_revoked(before));
        assert(ledger.certificates@ =~= olds.update(i as int, (k, as_revoked(before))));
        assert forall|a: Seq<u8>| #[trigger] count_issued(ledger.certificates@, a) == count_issued(olds, a) by {
            lemma_count_update(olds, i as int, (k, as_revoked(before)), a);
        }
        assert forall|j: int| 0 <= j < ledger.certificates@.len() implies
            has_key(ledger.institutions@, #[trigger] ledger.certificates@[j].1.institution.bytes@) by {
            assert(ledger.certificates@[j].1.institution == olds[j].1.institution);
        }
    }
    ledger.events.push(
        Event::CertificateRevoked(CertificateRevoked { certificate: k, institution, revoked_at: now }),
    );
    assert(ledger.events@.drop_last() =~= old(ledger).events@);
    Ok(())
}

/// The certificates of a student. The program keeps no index by student: a
/// student's certificates are found by an outside indexer, which knows the
/// institutions the student dealt with. This always answers with no address.
pub fn get_student_certificates(ledger: &Ledger, ctx: &GetStudentCertificates) -> (r: Result<Vec<Pubkey>, CustomError>)
    ensures
        r matches Ok(v) && v@.len() == 0,
{
    Ok(Vec::new())
}

} // verus!
