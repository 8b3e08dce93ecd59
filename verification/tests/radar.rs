use trend_scope::radar::{radar_fetch_limit, radar_response, remaining_today, select_radar_trends, usage_after_marking};

#[test]
fn free_plan_sees_what_is_left() {
    let s = select_radar_trends(vec![1, 2, 3, 4], Some(3), 1);
    assert_eq!(s.trends, vec![1, 2]);
    assert!(!s.upgrade_required);
    assert!(s.message.is_none());
}

#[test]
fn used_up_allowance_requires_upgrade() {
    let s = select_radar_trends(vec![1, 2, 3], Some(3), 3);
    assert!(s.trends.is_empty());
    assert!(s.upgrade_required);
    assert_eq!(
        s.message.as_deref(),
        Some("Tu as consulté tes 3 tendances gratuites du jour. Passe en Pro pour débloquer toutes les tendances.")
    );
    let s = select_radar_trends(vec![1], Some(3), 10);
    assert!(s.upgrade_required);
}

#[test]
fn unlimited_plan_sees_everything() {
    let s = select_radar_trends(vec![1, 2, 3], None, 1000);
    assert_eq!(s.trends, vec![1, 2, 3]);
    assert!(!s.upgrade_required);
    assert_eq!(radar_fetch_limit(None), 100);
    assert_eq!(radar_fetch_limit(Some(3)), 3);
}

#[test]
fn fewer_trends_than_allowed() {
    let s = select_radar_trends(vec![1], Some(3), 0);
    assert_eq!(s.trends, vec![1]);
    assert!(!s.upgrade_required);
}

#[test]
fn remaining_allowance() {
    let usage = usage_after_marking(1, 2);
    assert_eq!(usage, 3);
    assert_eq!(remaining_today(Some(3), usage), Some(0));
    assert_eq!(remaining_today(Some(3), 1), Some(2));
    assert_eq!(remaining_today(Some(3), 7), Some(0));
    assert_eq!(remaining_today(None, 7), None);
}

#[test]
fn radar_response_counts_new_views() {
    let s = select_radar_trends(vec!["a", "b", "c", "d"], Some(3), 1);
    let r = radar_response("free", 3u32, Some(3), 1, s, 2);
    assert_eq!(r.plan, "free");
    assert_eq!(r.usage_today, 3);
    assert_eq!(r.remaining_today, Some(0));
    assert_eq!(r.trends, vec!["a", "b"]);
    assert!(!r.upgrade_required);
    let s = select_radar_trends(vec!["a"], None, 5);
    let r = radar_response("pro", 0u32, None, 5, s, 1);
    assert_eq!((r.usage_today, r.remaining_today), (6, None));
}
