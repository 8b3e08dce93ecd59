use trend_scope::alerts::{alert_matches_rule, AlertRuleMatchInput, TrendMatchInput};

fn base_trend() -> TrendMatchInput {
    TrendMatchInput {
        platform: "youtube".into(),
        region: "FR".into(),
        category: "business".into(),
        title: "AI for startups".into(),
        description: "Practical growth tips".into(),
        views_per_hour: 5000,
    }
}

fn rule() -> AlertRuleMatchInput {
    AlertRuleMatchInput { platform: None, region: None, category: None, keyword: None, min_views_per_hour: None }
}

#[test]
fn match_par_plateforme() {
    let rule = AlertRuleMatchInput { platform: Some("youtube".into()), ..rule() };
    assert!(alert_matches_rule(&rule, &base_trend(), false));
}

#[test]
fn refuse_mauvaise_plateforme() {
    let rule = AlertRuleMatchInput { platform: Some("tiktok".into()), ..rule() };
    assert!(!alert_matches_rule(&rule, &base_trend(), false));
}

#[test]
fn match_keyword_case_insensitive() {
    let rule = AlertRuleMatchInput { keyword: Some("STARTUPS".into()), ..rule() };
    assert!(alert_matches_rule(&rule, &base_trend(), false));
}

#[test]
fn refuse_views_trop_faible() {
    let rule = AlertRuleMatchInput { min_views_per_hour: Some(6000), ..rule() };
    assert!(!alert_matches_rule(&rule, &base_trend(), false));
}

#[test]
fn unfiltered_rule_matches() {
    assert!(alert_matches_rule(&rule(), &base_trend(), false));
}

#[test]
fn score_below_minimum_refuses() {
    assert!(!alert_matches_rule(&rule(), &base_trend(), true));
}

#[test]
fn keyword_spans_title_and_description() {
    let r = AlertRuleMatchInput { keyword: Some("startups practical".into()), ..rule() };
    assert!(alert_matches_rule(&r, &base_trend(), false));
    let r = AlertRuleMatchInput { keyword: Some("growth".into()), ..rule() };
    assert!(alert_matches_rule(&r, &base_trend(), false));
    let r = AlertRuleMatchInput { keyword: Some("crypto".into()), ..rule() };
    assert!(!alert_matches_rule(&r, &base_trend(), false));
    let r = AlertRuleMatchInput { keyword: Some("".into()), ..rule() };
    assert!(alert_matches_rule(&r, &base_trend(), false));
}

#[test]
fn region_category_and_views_filters() {
    let r = AlertRuleMatchInput { region: Some("US".into()), ..rule() };
    assert!(!alert_matches_rule(&r, &base_trend(), false));
    let r = AlertRuleMatchInput { region: Some("fr".into()), ..rule() };
    assert!(!alert_matches_rule(&r, &base_trend(), false));
    let r = AlertRuleMatchInput { category: Some("business".into()), min_views_per_hour: Some(5000), ..rule() };
    assert!(alert_matches_rule(&r, &base_trend(), false));
}

#[test]
fn keyword_lowercases_accented_letters() {
    let trend = TrendMatchInput { title: "Un élan nouveau".into(), ..base_trend() };
    let r = AlertRuleMatchInput { keyword: Some("ÉLAN".into()), ..rule() };
    assert!(alert_matches_rule(&r, &trend, false));
    let r = AlertRuleMatchInput { keyword: Some("ELAN".into()), ..rule() };
    assert!(!alert_matches_rule(&r, &trend, false));
}
