//! A registry of educational certificates: a platform authority verifies
//! institutions, verified institutions issue certificates to students, and an
//! issuing institution may later revoke them. Every record lives at an
//! address derived from the identities that name it, and every certificate
//! carries a digest of its visible content.

pub mod key;
pub mod fingerprint;
pub mod records;
pub mod ledger;
pub mod youth_certification;
pub mod laws;
