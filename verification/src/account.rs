//! The signed-in user's own data: profile, subscription, consents and
//! privacy requests.
use vstd::prelude::*;

use crate::error::ApiMessage;

verus! {

/// A user's plan and the state of their subscription.
pub struct SubscriptionStatus {
    pub plan: String,
    pub status: String,
}

/// One recorded consent.
pub struct ConsentRow {
    pub consent_type: String,
    pub granted: bool,
    pub version: String,
}

/// A consent the user gives or withdraws.
pub struct ConsentPayload {
    pub consent_type: String,
    pub granted: bool,
    pub version: String,
}

/// The signed-in user as shown to them.
pub struct MeResponse {
    pub username: String,
}

/// Profile changes the user asks for.
pub struct MePatchPayload {
    pub display_name: Option<String>,
}

/// The signed-in user's profile: their user name.
pub fn get_me(username: String) -> (r: MeResponse)
    ensures
        r.username == username,
{
    MeResponse { username }
}

/// Profile updates are acknowledged; no field is stored yet.
pub fn patch_me(payload: MePatchPayload) -> (r: ApiMessage)
    ensures
        r.message@ == "profile updated"@,
{
    ApiMessage { message: String::from_str("profile updated") }
}

/// Reply once a data export was requested.
pub fn data_export_submitted() -> (r: ApiMessage)
    ensures
        r.message@ == "data export request submitted"@,
{
    ApiMessage { message: String::from_str("data export request submitted") }
}

/// Reply once an account deletion was requested.
pub fn deletion_submitted() -> (r: ApiMessage)
    ensures
        r.message@ == "account deletion request submitted"@,
{
    ApiMessage { message: String::from_str("account deletion request submitted") }
}

/// Reply once a consent was recorded.
pub fn consent_saved() -> (r: ApiMessage)
    ensures
        r.message@ == "consent saved"@,
{
    ApiMessage { message: String::from_str("consent saved") }
}

/// The audit entry written with every consent change: action and resource.
pub fn consent_audit_entry() -> (r: (&'static str, &'static str))
    ensures
        r.0@ == "consent.update"@,
        r.1@ == "consents"@,
{
    ("consent.update", "consents")
}

} // verus!
