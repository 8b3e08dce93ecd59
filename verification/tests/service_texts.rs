use trend_scope::account::{
    consent_audit_entry, consent_saved, data_export_submitted, deletion_submitted, get_me, patch_me, MePatchPayload,
};
use trend_scope::billing::{billing_checkout, billing_portal, billing_status, billing_webhook, not_configured};
use trend_scope::metrics::{metrics_body, metrics_content_type, MetricCounts};

#[test]
fn billing_is_not_configured() {
    assert_eq!(not_configured().message, "billing is not configured yet");
    let s = billing_status();
    assert_eq!((s.provider, s.enabled, s.message), ("stripe", false, "billing is not configured yet"));
    assert_eq!(billing_checkout().message, "billing is not configured yet");
    assert_eq!(billing_portal().message, "billing is not configured yet");
    assert_eq!(billing_webhook().message, "billing is not configured yet");
}

#[test]
fn account_replies() {
    assert_eq!(get_me("alice".into()).username, "alice");
    assert_eq!(patch_me(MePatchPayload { display_name: Some("A".into()) }).message, "profile updated");
    assert_eq!(data_export_submitted().message, "data export request submitted");
    assert_eq!(deletion_submitted().message, "account deletion request submitted");
    assert_eq!(consent_saved().message, "consent saved");
    assert_eq!(consent_audit_entry(), ("consent.update", "consents"));
}

#[test]
fn metrics_page() {
    let c = MetricCounts {
        reports_pending: 1,
        reports_completed: 2,
        reports_failed: 0,
        alert_deliveries_sent: 10,
        alert_deliveries_failed: 3,
        alert_deliveries_skipped: 4,
        notifications_unread: 5,
        email_logs_sent: 6,
        email_logs_failed: 7,
        email_logs_skipped: 8,
    };
    assert_eq!(
        metrics_body(&c),
        "trend_scope_reports_pending 1\ntrend_scope_reports_completed_total 2\ntrend_scope_reports_failed_total 0\ntrend_scope_alert_deliveries_sent_total 10\ntrend_scope_alert_deliveries_failed_total 3\ntrend_scope_alert_deliveries_skipped_total 4\ntrend_scope_notifications_unread_total 5\ntrend_scope_email_logs_sent_total 6\ntrend_scope_email_logs_failed_total 7\ntrend_scope_email_logs_skipped_total 8\n"
    );
    assert_eq!(metrics_content_type(), "text/plain; version=0.0.4");
}
