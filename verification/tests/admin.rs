use trend_scope::admin::{
    count_or_zero, ensure_admin, filters_from_query, page_window, smtp_test_mail, smtp_test_target, source_status,
    telegram_test_message,
    telegram_test_target, AdminUserFilters, AdminUsersQuery, TestSend, TestSmtpPayload, TestTelegramPayload,
};
use trend_scope::error::AppError;

fn filters(page: i64, page_size: i64) -> AdminUserFilters {
    AdminUserFilters { page, page_size, ..AdminUserFilters::default() }
}

#[test]
fn pages_are_clamped() {
    let w = page_window(&filters(1, 50));
    assert_eq!((w.limit, w.offset), (50, 0));
    let w = page_window(&filters(3, 20));
    assert_eq!((w.limit, w.offset), (20, 40));
    let w = page_window(&filters(0, 0));
    assert_eq!((w.limit, w.offset), (1, 0));
    let w = page_window(&filters(-5, 500));
    assert_eq!((w.limit, w.offset), (50, 0));
    let w = page_window(&filters(2, 51));
    assert_eq!((w.limit, w.offset), (50, 50));
}

#[test]
fn query_defaults() {
    let q = AdminUsersQuery { page: None, page_size: None, plan: Some("pro".into()), role: None, search: None };
    let f = filters_from_query(q);
    assert_eq!((f.page, f.page_size), (1, 50));
    assert_eq!(f.plan.as_deref(), Some("pro"));
    let d = AdminUserFilters::default();
    assert_eq!((d.page, d.page_size), (0, 0));
}

#[test]
fn only_admins_pass() {
    assert_eq!(ensure_admin(&Some("admin".into())), Ok(()));
    assert_eq!(ensure_admin(&Some("user".into())), Err(AppError::Forbidden));
    assert_eq!(ensure_admin(&Some("Admin".into())), Err(AppError::Forbidden));
    assert_eq!(ensure_admin(&None), Err(AppError::Forbidden));
}

#[test]
fn sources() {
    let s = source_status("");
    assert_eq!((s.youtube, s.tiktok, s.instagram), ("not_configured", "coming_soon", "coming_soon"));
    assert_eq!(source_status("key").youtube, "configured");
}

#[test]
fn counts_default_to_zero() {
    assert_eq!(count_or_zero(Some(12)), 12);
    assert_eq!(count_or_zero(None), 0);
}

#[test]
fn test_message_targets() {
    let t = telegram_test_target(false, TestTelegramPayload { chat_id: Some("1".into()) }, &None);
    assert_eq!(t.reason(), Some("not_configured"));
    let t = telegram_test_target(true, TestTelegramPayload { chat_id: None }, &None);
    assert_eq!(t.reason(), Some("chat_id_missing"));
    let t = telegram_test_target(true, TestTelegramPayload { chat_id: None }, &Some("9".into()));
    assert!(matches!(t, TestSend::Send(ref c) if c == "9"));
    let t = telegram_test_target(true, TestTelegramPayload { chat_id: Some("1".into()) }, &Some("9".into()));
    assert!(matches!(t, TestSend::Send(ref c) if c == "1"));
    assert_eq!(t.reason(), None);
    let s = smtp_test_target(false, TestSmtpPayload { to: "a@b.c".into() });
    assert_eq!(s.reason(), Some("not_configured"));
    let s = smtp_test_target(true, TestSmtpPayload { to: "a@b.c".into() });
    assert!(matches!(s, TestSend::Send(ref to) if to == "a@b.c"));
}

#[test]
fn test_mail_and_message() {
    let m = smtp_test_mail("ops@example.org".into());
    assert_eq!((m.to.as_str(), m.subject.as_str(), m.html.as_str()), ("ops@example.org", "Trend Scope SMTP test", "<p>SMTP test admin</p>"));
    let t = telegram_test_message("42".into());
    assert_eq!((t.chat_id.as_str(), t.title.as_str(), t.platform.as_str()), ("42", "Test admin ops", "youtube"));
    assert_eq!((t.region, t.category, t.views_per_hour, t.url), (None, None, Some(1234), None));
}
