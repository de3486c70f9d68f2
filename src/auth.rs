use vstd::prelude::*;
use crate::error::Error;
use crate::ids::{BranchId, TenantId, TenantStatus};

verus! {

/// `s` is a well-formed PHC password-hash string.
pub uninterp spec fn phc_parses(s: Seq<char>) -> bool;

/// Argon2 verification of `key` against the PHC string `stored` succeeds.
pub uninterp spec fn argon2_accepts(key: Seq<char>, stored: Seq<char>) -> bool;

/// Relies on `argon2::PasswordHash::new` (parsing the PHC string) and
/// `PasswordVerifier::verify_password` of `Argon2::default()`; the outcome depends on
/// the key and the string alone.
#[verifier::external_body]
fn argon2_verify(key: &str, stored: &str) -> (r: Option<bool>)
    ensures
        r is None <==> !phc_parses(stored@),
        r matches Some(ok) ==> ok == argon2_accepts(key@, stored@),
{
    match argon2::PasswordHash::new(stored) {
        Ok(h) => Some(
            argon2::PasswordVerifier::verify_password(&argon2::Argon2::default(), key.as_bytes(), &h).is_ok(),
        ),
        Err(_) => None,
    }
}

/// Relies on `PasswordHasher::hash_password` of `Argon2::default()` with a fresh random
/// salt from the operating system: the PHC string it yields parses, and verifying the
/// same key against it succeeds.
#[verifier::external_body]
fn argon2_hash(key: &str) -> (r: Option<String>)
    ensures
        r matches Some(h) ==> phc_parses(h@) && argon2_accepts(key@, h@),
{
    let salt = argon2::password_hash::SaltString::generate(&mut argon2::password_hash::rand_core::OsRng);
    match argon2::PasswordHasher::hash_password(&argon2::Argon2::default(), key.as_bytes(), &salt) {
        Ok(h) => Some(h.to_string()),
        Err(_) => None,
    }
}

/// Checks an API key against its stored Argon2 hash. A stored value that is not a PHC
/// string is an authentication failure.
pub fn verify_api_key(api_key: &str, stored_hash: &str) -> (r: Result<bool, Error>)
    ensures
        r is Err <==> !phc_parses(stored_hash@),
        r matches Err(e) ==> e is AuthenticationFailed,
        r matches Ok(ok) ==> ok == argon2_accepts(api_key@, stored_hash@),
{
    match argon2_verify(api_key, stored_hash) {
        Some(ok) => Ok(ok),
        None => Err(Error::AuthenticationFailed(String::from_str("Invalid hash"))),
    }
}

/// Hashes an API key with a random salt, for storage in the catalog.
pub fn hash_api_key(api_key: &str) -> (r: Result<String, Error>)
    ensures
        r matches Ok(h) ==> phc_parses(h@) && argon2_accepts(api_key@, h@),
        r matches Err(e) ==> e is Internal,
{
    match argon2_hash(api_key) {
        Some(h) => Ok(h),
        None => Err(Error::Internal(String::from_str("Failed to hash"))),
    }
}

/// Only active tenants may authenticate.
pub fn tenant_may_authenticate(status: TenantStatus) -> (r: bool)
    ensures
        r == (status == TenantStatus::Active),
{
    status == TenantStatus::Active
}

/// The branch found in the catalog must belong to the tenant the caller asserted.
pub fn check_branch_owner(tenant_id: &TenantId, branch_tenant_id: &TenantId) -> (r: Result<(), Error>)
    ensures
        r is Ok <==> tenant_id@ == branch_tenant_id@,
        r matches Err(e) ==> e is AuthorizationFailed,
{
    if tenant_id.eq_id(branch_tenant_id) {
        Ok(())
    } else {
        Err(Error::AuthorizationFailed(String::from_str("Branch does not belong to tenant")))
    }
}

/// The hub's authentication rule, given what the catalog holds: the tenant's status,
/// the tenant that owns the branch, and the branch's stored key hash. Only an active
/// tenant may authenticate; a branch of another tenant is an authorization failure; and
/// the key must verify against the hash.
pub fn authenticate_branch(
    tenant_id: &TenantId,
    tenant_status: TenantStatus,
    branch_tenant_id: &TenantId,
    api_key: &str,
    stored_hash: &str,
) -> (r: Result<bool, Error>)
    ensures
        tenant_status != TenantStatus::Active ==> r matches Ok(false),
        tenant_status == TenantStatus::Active && tenant_id@ != branch_tenant_id@ ==> r matches Err(
            Error::AuthorizationFailed(_),
        ),
        tenant_status == TenantStatus::Active && tenant_id@ == branch_tenant_id@ && !phc_parses(
            stored_hash@,
        ) ==> r matches Err(Error::AuthenticationFailed(_)),
        tenant_status == TenantStatus::Active && tenant_id@ == branch_tenant_id@ && phc_parses(
            stored_hash@,
        ) ==> (r matches Ok(ok) && ok == argon2_accepts(api_key@, stored_hash@)),
{
    if !tenant_may_authenticate(tenant_status) {
        return Ok(false);
    }
    match check_branch_owner(tenant_id, branch_tenant_id) {
        Err(e) => Err(e),
        Ok(()) => verify_api_key(api_key, stored_hash),
    }
}

/// Content of a bearer token.
#[derive(Debug, Clone)]
pub struct Claims {
    pub tenant_id: String,
    pub branch_id: String,
    pub exp: i64,
    pub iat: i64,
}

#[derive(Debug, Clone)]
pub struct TokenRequest {
    pub tenant_id: String,
    pub branch_id: String,
    pub api_key: String,
}

#[derive(Debug, Clone)]
pub struct TokenResponse {
    pub token: String,
    pub expires_at: i64,
}

/// Claims of a token issued at `now` for `expiry_secs` seconds; `None` when the expiry
/// time does not fit.
pub fn issue_claims(tenant_id: &TenantId, branch_id: &BranchId, now: i64, expiry_secs: i64) -> (r:
    Option<Claims>)
    ensures
        r is None <==> !(i64::MIN <= now + expiry_secs <= i64::MAX),
        r matches Some(c) ==> c.tenant_id@ == tenant_id@ && c.branch_id@ == branch_id@ && c.iat
            == now && c.exp == now + expiry_secs,
{
    let e: i128 = now as i128 + expiry_secs as i128;
    if e > i64::MAX as i128 || e < i64::MIN as i128 {
        return None;
    }
    Some(
        Claims {
            tenant_id: tenant_id.0.clone(),
            branch_id: branch_id.0.clone(),
            exp: e as i64,
            iat: now,
        },
    )
}

} // verus!
