use trend_scope::alerts::{
    alert_email_html, alert_email_subject, alert_notification_body, alert_notification_title, delivery_record,
    mask_chat_id, plan_delivery, DeliveryPlan, DeliveryStatus, SkipReason,
};

#[test]
fn mask_keeps_last_four_characters() {
    assert_eq!(mask_chat_id("123456789"), "***6789");
    assert_eq!(mask_chat_id("12345"), "***2345");
    assert_eq!(mask_chat_id("1234"), "****");
    assert_eq!(mask_chat_id(""), "****");
    assert_eq!(mask_chat_id("-100123"), "***0123");
}

#[test]
fn mask_works_on_bytes() {
    // "é" is two bytes: the last four bytes are "é" and "ab".
    assert_eq!(mask_chat_id("xxéab"), "***éab");
}

#[test]
fn web_channel_logs_a_notification() {
    let plan = plan_delivery("web", "", false, &None, &None);
    assert!(matches!(plan, DeliveryPlan::Notify));
    let rec = delivery_record(&plan, &Ok(()), "token").unwrap();
    assert_eq!(rec.status, DeliveryStatus::Logged);
    assert_eq!(rec.status.as_str(), "logged");
    assert!(rec.error_message.is_none());
    assert!(!rec.delivered);
}

#[test]
fn email_channel_without_smtp_is_skipped() {
    let plan = plan_delivery("email", "", true, &None, &None);
    assert!(matches!(plan, DeliveryPlan::Skip(SkipReason::SmtpNotConfigured)));
    let rec = delivery_record(&plan, &Ok(()), "").unwrap();
    assert_eq!(rec.status.as_str(), "skipped");
    assert_eq!(rec.error_message.as_deref(), Some("SMTP is not configured"));
}

#[test]
fn email_channel_sends_and_records_result() {
    let plan = plan_delivery("email", "smtp.example.org", false, &None, &None);
    assert!(matches!(plan, DeliveryPlan::SendEmail));
    let sent = delivery_record(&plan, &Ok(()), "").unwrap();
    assert_eq!(sent.status.as_str(), "sent");
    assert!(sent.delivered);
    let failed = delivery_record(&plan, &Err("boom".to_string()), "").unwrap();
    assert_eq!(failed.status.as_str(), "failed");
    assert_eq!(failed.error_message.as_deref(), Some("Email send failed"));
    assert!(!failed.delivered);
}

#[test]
fn telegram_channel_decisions() {
    let plan = plan_delivery("telegram", "", false, &Some("42".into()), &None);
    assert!(matches!(plan, DeliveryPlan::Skip(SkipReason::TelegramNotConfigured)));
    let rec = delivery_record(&plan, &Ok(()), "").unwrap();
    assert_eq!(rec.error_message.as_deref(), Some("Telegram bot token is not configured"));

    let plan = plan_delivery("telegram", "", true, &None, &None);
    assert!(matches!(plan, DeliveryPlan::Skip(SkipReason::TelegramChatIdMissing)));
    let rec = delivery_record(&plan, &Ok(()), "").unwrap();
    assert_eq!(rec.error_message.as_deref(), Some("Telegram chat id is not configured"));

    let plan = plan_delivery("telegram", "", true, &None, &Some("987654321".into()));
    match &plan {
        DeliveryPlan::SendTelegram { chat_id } => assert_eq!(chat_id, "987654321"),
        _ => panic!("expected a telegram send"),
    }
    let plan = plan_delivery("telegram", "", true, &Some("111222".into()), &Some("987654321".into()));
    match &plan {
        DeliveryPlan::SendTelegram { chat_id } => assert_eq!(chat_id, "111222"),
        _ => panic!("expected a telegram send"),
    }
}

#[test]
fn telegram_failure_hides_the_bot_token() {
    let plan = plan_delivery("telegram", "", true, &Some("123456789".into()), &None);
    let rec = delivery_record(&plan, &Err("error sending to https://api/botSECRET-TOKEN/send (SECRET-TOKEN)".into()), "SECRET-TOKEN").unwrap();
    assert_eq!(rec.status, DeliveryStatus::Failed);
    assert_eq!(rec.error_message.as_deref(), Some("error sending to https://api/bot***/send (***)"));
    assert_eq!(rec.telegram_chat_id.as_deref(), Some("***6789"));
    let ok = delivery_record(&plan, &Ok(()), "SECRET-TOKEN").unwrap();
    assert_eq!(ok.status, DeliveryStatus::Sent);
    assert!(ok.delivered);
    assert_eq!(ok.telegram_chat_id.as_deref(), Some("***6789"));
}

#[test]
fn unknown_channel_is_ignored() {
    let plan = plan_delivery("sms", "smtp", true, &Some("1".into()), &None);
    assert!(matches!(plan, DeliveryPlan::Ignore));
    assert!(delivery_record(&plan, &Ok(()), "").is_none());
    assert!(matches!(plan_delivery("Web", "", false, &None, &None), DeliveryPlan::Ignore));
}

#[test]
fn alert_texts() {
    assert_eq!(alert_notification_title(), "Nouvelle tendance détectée");
    assert_eq!(alert_notification_body("AI", "youtube"), "AI accélère sur youtube");
    assert_eq!(alert_email_subject("AI"), "Alerte tendance: AI");
    assert_eq!(
        alert_email_html("AI", "youtube", 1234),
        "<h1>Nouvelle tendance détectée</h1><p><strong>AI</strong></p><p>Plateforme : youtube</p><p>Vues / heure : 1234</p>"
    );
}
