//! Billing replies: payments are not set up yet.
use vstd::prelude::*;

verus! {

/// A billing reply carrying one message.
pub struct BillingMessage {
    pub message: &'static str,
}

/// The state of billing.
pub struct BillingStatus {
    pub provider: &'static str,
    pub enabled: bool,
    pub message: &'static str,
}

/// The message of every billing reply while billing is not configured.
pub open spec fn not_configured_text() -> Seq<char> {
    "billing is not configured yet"@
}

/// The reply to billing requests while billing is not configured.
pub fn not_configured() -> (m: BillingMessage)
    ensures
        m.message@ == not_configured_text(),
{
    BillingMessage { message: "billing is not configured yet" }
}

/// Billing is provided by Stripe and is not enabled yet.
pub fn billing_status() -> (s: BillingStatus)
    ensures
        s.provider@ == "stripe"@,
        !s.enabled,
        s.message@ == not_configured_text(),
{
    BillingStatus { provider: "stripe", enabled: false, message: "billing is not configured yet" }
}

/// A checkout cannot start while billing is not configured.
pub fn billing_checkout() -> (m: BillingMessage)
    ensures
        m.message@ == not_configured_text(),
{
    not_configured()
}

/// The billing portal is unavailable while billing is not configured.
pub fn billing_portal() -> (m: BillingMessage)
    ensures
        m.message@ == not_configured_text(),
{
    not_configured()
}

/// Billing webhooks are not processed while billing is not configured.
pub fn billing_webhook() -> (m: BillingMessage)
    ensures
        m.message@ == not_configured_text(),
{
    not_configured()
}

} // verus!
