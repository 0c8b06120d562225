//! The records that the program keeps, the views it hands out, the
//! notifications it emits and the errors it reports.

use vstd::prelude::*;
use crate::key::Pubkey;

verus! {

/// The platform: the one global record, owned by the platform authority.
#[derive(Clone, Copy, Debug)]
pub struct Platform {
    pub authority: Pubkey,
    pub total_certificates: u64,
    pub total_institutions: u64,
}

/// An institution, registered by its own authority and verified by the
/// platform authority.
#[derive(Clone, Debug)]
pub struct Institution {
    pub authority: Pubkey,
    pub name: String,
    pub verification_hash: String,
    pub is_verified: bool,
    pub certificates_issued: u64,
    pub created_at: i64,
}

/// A certificate: content fixed at issuance, and a revocation flag.
#[derive(Clone, Debug)]
pub struct Certificate {
    pub student_wallet: Pubkey,
    pub institution: Pubkey,
    pub student_name: String,
    pub course_name: String,
    pub course_duration: u32,
    pub skills_acquired: Vec<String>,
    pub grade: String,
    pub issued_at: i64,
    pub certificate_hash: String,
    pub metadata_uri: String,
    pub is_revoked: bool,
}

/// What a verifier of a certificate gets back.
#[derive(Clone, Debug)]
pub struct CertificateData {
    pub student_wallet: Pubkey,
    pub institution: Pubkey,
    pub student_name: String,
    pub course_name: String,
    pub course_duration: u32,
    pub skills_acquired: Vec<String>,
    pub grade: String,
    pub issued_at: i64,
    pub certificate_hash: String,
    pub is_revoked: bool,
}

#[derive(Clone, Debug)]
pub struct InstitutionRegistered {
    pub institution: Pubkey,
    pub name: String,
    pub authority: Pubkey,
}

#[derive(Clone, Debug)]
pub struct InstitutionVerified {
    pub institution: Pubkey,
    pub name: String,
}

#[derive(Clone, Debug)]
pub struct CertificateIssued {
    pub certificate: Pubkey,
    pub student: Pubkey,
    pub institution: Pubkey,
    pub course_name: String,
    pub issued_at: i64,
}

#[derive(Clone, Copy, Debug)]
pub struct CertificateRevoked {
    pub certificate: Pubkey,
    pub institution: Pubkey,
    pub revoked_at: i64,
}

/// A notification that a change was committed, for outside observers.
#[derive(Clone, Debug)]
pub enum Event {
    InstitutionRegistered(InstitutionRegistered),
    InstitutionVerified(InstitutionVerified),
    CertificateIssued(CertificateIssued),
    CertificateRevoked(CertificateRevoked),
}

/// Why an operation was refused. Every refusal leaves all records as they were.
#[derive(Clone, Copy, Debug, PartialEq, Eq, Structural)]
pub enum CustomError {
    NameTooLong,
    CourseTooLong,
    GradeTooLong,
    TooManySkills,
    SkillTooLong,
    URITooLong,
    HashTooLong,
    InstitutionNotVerified,
    CertificateRevoked,
    AlreadyInitialized,
    NotInitialized,
    DuplicateInstitution,
    InstitutionNotFound,
    CertificateNotFound,
    Unauthorized,
    AddressInUse,
    NoViableAddress,
    CounterOverflow,
}

impl CustomError {
    /// The message that describes the error.
    pub fn message(&self) -> (r: String) {
        let s: &str = match self {
            CustomError::NameTooLong => "Name is too long",
            CustomError::CourseTooLong => "Course name is too long",
            CustomError::GradeTooLong => "Grade is too long",
            CustomError::TooManySkills => "Too many skills",
            CustomError::SkillTooLong => "Skill is too long",
            CustomError::URITooLong => "URI is too long",
            CustomError::HashTooLong => "Hash is too long",
            CustomError::InstitutionNotVerified => "Institution is not verified",
            CustomError::CertificateRevoked => "Certificate is revoked",
            CustomError::AlreadyInitialized => "Platform is already initialized",
            CustomError::NotInitialized => "Platform is not initialized",
            CustomError::DuplicateInstitution => "Institution is already registered",
            CustomError::InstitutionNotFound => "Institution does not exist",
            CustomError::CertificateNotFound => "Certificate does not exist",
            CustomError::Unauthorized => "Signer is not the required authority",
            CustomError::AddressInUse => "Address already holds a record",
            CustomError::NoViableAddress => "No address can be derived from these seeds",
            CustomError::CounterOverflow => "Counter would overflow",
        };
        s.to_owned()
    }
}

} // verus!
