//! Alert rules: matching a trend against a user's rule, and deciding what
//! happens to each matching (rule, trend) pair.
use vstd::prelude::*;

use crate::text::{
    lemma_replace_removes_pattern, chars_of, contains_chars, decimal, i64_to_decimal, lowercase, occurs_in, replace_all, replace_text,
    same_text, to_lowercase,
};
use vstd::utf8::{decode_utf8, encode_utf8_decode_utf8, is_char_boundary};

verus! {

/// The trend fields that an alert rule is checked against.
pub struct TrendMatchInput {
    pub platform: String,
    pub region: String,
    pub category: String,
    pub title: String,
    pub description: String,
    pub views_per_hour: i64,
}

/// The filters of an alert rule. Each `None` filter accepts every trend.
/// The minimum trend score is a floating-point threshold: whether a trend's
/// score falls below it is decided outside the library and handed to
/// [`alert_matches_rule`] as a boolean.
pub struct AlertRuleMatchInput {
    pub platform: Option<String>,
    pub region: Option<String>,
    pub category: Option<String>,
    pub keyword: Option<String>,
    pub min_views_per_hour: Option<i64>,
}

/// An exact-text filter: absent, or equal to the value.
pub open spec fn text_filter_passes(filter: Option<String>, value: Seq<char>) -> bool {
    match filter {
        Some(x) => x@ == value,
        None => true,
    }
}

/// The text searched by a keyword filter: lowercased title, a space,
/// lowercased description.
pub open spec fn keyword_haystack(title: Seq<char>, description: Seq<char>) -> Seq<char> {
    lowercase(title) + seq![' '] + lowercase(description)
}

/// A keyword filter: absent, or its lowercased text occurs in the haystack.
pub open spec fn keyword_filter_passes(keyword: Option<String>, title: Seq<char>, description: Seq<char>) -> bool {
    match keyword {
        Some(k) => occurs_in(keyword_haystack(title, description), lowercase(k@)),
        None => true,
    }
}

/// A minimum-views filter: absent, or the trend reaches it.
pub open spec fn views_filter_passes(min: Option<i64>, views: i64) -> bool {
    match min {
        Some(m) => views >= m,
        None => true,
    }
}

/// A trend matches a rule when every filter of the rule accepts it and its
/// score is not below the rule's minimum score.
pub open spec fn rule_matches(rule: AlertRuleMatchInput, trend: TrendMatchInput, below_min_score: bool) -> bool {
    &&& text_filter_passes(rule.platform, trend.platform@)
    &&& text_filter_passes(rule.region, trend.region@)
    &&& text_filter_passes(rule.category, trend.category@)
    &&& keyword_filter_passes(rule.keyword, trend.title@, trend.description@)
    &&& views_filter_passes(rule.min_views_per_hour, trend.views_per_hour)
    &&& !below_min_score
}

fn text_filter(filter: &Option<String>, value: &String) -> (r: bool)
    ensures
        r == text_filter_passes(*filter, value@),
{
    match filter {
        Some(x) => x.eq(value),
        None => true,
    }
}

fn keyword_filter(keyword: &Option<String>, title: &String, description: &String) -> (r: bool)
    ensures
        r == keyword_filter_passes(*keyword, title@, description@),
{
    match keyword {
        Some(k) => {
            let mut hay = to_lowercase(title.as_str());
            let space = String::from_str(" ");
            proof {
                reveal_strlit(" ");
            }
            hay.append(space.as_str());
            let lowered_description = to_lowercase(description.as_str());
            hay.append(lowered_description.as_str());
            let needle = to_lowercase(k.as_str());
            assert(hay@ == keyword_haystack(title@, description@));
            contains_chars(&chars_of(hay.as_str()), &chars_of(needle.as_str()))
        },
        None => true,
    }
}

/// Whether `trend` should raise an alert for `rule`. `below_min_score` tells
/// whether the rule has a minimum trend score that the trend's score is below.
pub fn alert_matches_rule(rule: &AlertRuleMatchInput, trend: &TrendMatchInput, below_min_score: bool) -> (r: bool)
    ensures
        r == rule_matches(*rule, *trend, below_min_score),
        r ==> (rule.platform matches Some(p) ==> p@ == trend.platform@),
        r ==> (rule.region matches Some(x) ==> x@ == trend.region@),
        r ==> (rule.category matches Some(c) ==> c@ == trend.category@),
        r ==> (rule.min_views_per_hour matches Some(m) ==> trend.views_per_hour >= m),
        r ==> !below_min_score,
{
    if !text_filter(&rule.platform, &trend.platform) || !text_filter(&rule.region, &trend.region)
        || !text_filter(&rule.category, &trend.category) {
        return false;
    }
    if !keyword_filter(&rule.keyword, &trend.title, &trend.description) {
        return false;
    }
    let views_ok = match rule.min_views_per_hour {
        Some(m) => trend.views_per_hour >= m,
        None => true,
    };
    views_ok && !below_min_score
}


/// A chat id can be masked unless it is longer than four bytes and its last
/// four bytes do not start on a character boundary (slicing there panics).
/// Its byte length fits in `usize`, as that of every text in memory does.
pub open spec fn chat_id_maskable(value: Seq<char>) -> bool {
    let bytes = vstd::utf8::encode_utf8(value);
    &&& bytes.len() <= usize::MAX
    &&& bytes.len() <= 4 || is_char_boundary(bytes, bytes.len() - 4)
}

/// What a masked chat id shows: four stars for an id of at most four bytes,
/// else three stars and the characters of the id's last four bytes.
pub open spec fn masked_chat_id(value: Seq<char>) -> Seq<char> {
    let bytes = vstd::utf8::encode_utf8(value);
    if bytes.len() <= 4 {
        seq!['*', '*', '*', '*']
    } else {
        seq!['*', '*', '*'] + decode_utf8(bytes.subrange(bytes.len() - 4, bytes.len() as int))
    }
}

/// Hides all but the last four bytes of a chat id.
pub fn mask_chat_id(value: &str) -> (r: String)
    requires
        chat_id_maskable(value@),
    ensures
        r@ == masked_chat_id(value@),
{
    let n = value.len();
    if n <= 4 {
        proof {
            reveal_strlit("****");
        }
        String::from_str("****")
    } else {
        let (_, tail) = value.split_at(n - 4);
        proof {
            reveal_strlit("***");
            encode_utf8_decode_utf8(tail@);
        }
        let mut r = String::from_str("***");
        r.append(tail);
        r
    }
}


/// A match honours every filter the rule has: each exact filter present
/// equals the trend's field, the keyword occurs (ignoring case) in the title
/// or description, the views reach the minimum, and the score is not below
/// the minimum. Conversely a trend meeting every present filter matches.
pub proof fn lemma_match_means_every_filter_holds(rule: AlertRuleMatchInput, trend: TrendMatchInput, below_min_score: bool)
    ensures
        rule_matches(rule, trend, below_min_score) <==> {
            &&& (rule.platform matches Some(p) ==> p@ == trend.platform@)
            &&& (rule.region matches Some(x) ==> x@ == trend.region@)
            &&& (rule.category matches Some(c) ==> c@ == trend.category@)
            &&& (rule.keyword matches Some(k) ==> exists|i: int|
                0 <= i && i + lowercase(k@).len() <= lowercase(trend.title@).len() + 1 + lowercase(
                    trend.description@,
                ).len() && #[trigger] (lowercase(trend.title@) + seq![' '] + lowercase(trend.description@)).subrange(
                    i,
                    i + lowercase(k@).len(),
                ) == lowercase(k@))
            &&& (rule.min_views_per_hour matches Some(m) ==> trend.views_per_hour >= m)
            &&& !below_min_score
        },
{
}

/// A rule without any filter matches every trend whose score is not below
/// a minimum.
pub proof fn lemma_unfiltered_rule_matches_every_trend(rule: AlertRuleMatchInput, trend: TrendMatchInput)
    requires
        rule.platform is None,
        rule.region is None,
        rule.category is None,
        rule.keyword is None,
        rule.min_views_per_hour is None,
    ensures
        rule_matches(rule, trend, false),
{
}

/// Keyword matching ignores case: two rules that differ only in keywords with
/// the same lowercase form give the same verdict on every trend.
pub proof fn lemma_keyword_match_ignores_case(
    rule1: AlertRuleMatchInput,
    rule2: AlertRuleMatchInput,
    k1: String,
    k2: String,
    trend: TrendMatchInput,
    below_min_score: bool,
)
    requires
        rule1.platform == rule2.platform,
        rule1.region == rule2.region,
        rule1.category == rule2.category,
        rule1.min_views_per_hour == rule2.min_views_per_hour,
        rule1.keyword == Some(k1),
        rule2.keyword == Some(k2),
        lowercase(k1@) == lowercase(k2@),
    ensures
        rule_matches(rule1, trend, below_min_score) == rule_matches(rule2, trend, below_min_score),
{
}

/// More views per hour never turn a match into a non-match: a trend that
/// differs only by more views still matches, provided its score is below the
/// minimum only if the first trend's was (a score grows with the views).
pub proof fn lemma_more_views_keep_match(
    rule: AlertRuleMatchInput,
    t1: TrendMatchInput,
    t2: TrendMatchInput,
    below1: bool,
    below2: bool,
)
    requires
        rule_matches(rule, t1, below1),
        t2.platform == t1.platform,
        t2.region == t1.region,
        t2.category == t1.category,
        t2.title == t1.title,
        t2.description == t1.description,
        t2.views_per_hour >= t1.views_per_hour,
        below2 ==> below1,
    ensures
        rule_matches(rule, t2, below2),
{
}

/// `loose` keeps a subset of the filters of `strict`, with the same values.
pub open spec fn rule_relaxes(loose: AlertRuleMatchInput, strict: AlertRuleMatchInput) -> bool {
    &&& (loose.platform is None || loose.platform == strict.platform)
    &&& (loose.region is None || loose.region == strict.region)
    &&& (loose.category is None || loose.category == strict.category)
    &&& (loose.keyword is None || loose.keyword == strict.keyword)
    &&& (loose.min_views_per_hour is None || loose.min_views_per_hour == strict.min_views_per_hour)
}

/// Dropping filters from a rule never loses a match.
pub proof fn lemma_relaxed_rule_keeps_matches(
    loose: AlertRuleMatchInput,
    strict: AlertRuleMatchInput,
    trend: TrendMatchInput,
    below_min_score: bool,
)
    requires
        rule_relaxes(loose, strict),
        rule_matches(strict, trend, below_min_score),
    ensures
        rule_matches(loose, trend, below_min_score),
{
}

/// Why an alert delivery was skipped.
#[derive(PartialEq, Eq, Structural, Clone, Copy, Debug)]
pub enum SkipReason {
    SmtpNotConfigured,
    TelegramNotConfigured,
    TelegramChatIdMissing,
}

/// What to do for one matching (rule, trend) pair.
pub enum DeliveryPlan {
    /// Create an in-app notification; the delivery is recorded as logged.
    Notify,
    /// Send an alert e-mail to the rule's owner.
    SendEmail,
    /// Send a Telegram message to this chat.
    SendTelegram { chat_id: String },
    /// Record a skipped delivery.
    Skip(SkipReason),
    /// The rule's channel is unknown: nothing is sent or recorded.
    Ignore,
}

/// The chat a Telegram alert goes to: the rule's own, else the fallback.
pub open spec fn chosen_chat_id(rule_chat_id: Option<String>, fallback_chat_id: Option<String>) -> Option<Seq<char>> {
    match rule_chat_id {
        Some(c) => Some(c@),
        None => match fallback_chat_id {
            Some(c) => Some(c@),
            None => None,
        },
    }
}

/// Decides the delivery of an alert on `channel`. `smtp_host` is the
/// configured SMTP host (empty when unset); `telegram_configured` tells
/// whether a Telegram bot token is configured.
pub fn plan_delivery(
    channel: &str,
    smtp_host: &str,
    telegram_configured: bool,
    rule_chat_id: &Option<String>,
    fallback_chat_id: &Option<String>,
) -> (r: DeliveryPlan)
    ensures
        if channel@ == "web"@ {
            r is Notify
        } else if channel@ == "email"@ {
            if smtp_host@.len() == 0 {
                r == DeliveryPlan::Skip(SkipReason::SmtpNotConfigured)
            } else {
                r is SendEmail
            }
        } else if channel@ == "telegram"@ {
            if !telegram_configured {
                r == DeliveryPlan::Skip(SkipReason::TelegramNotConfigured)
            } else {
                match chosen_chat_id(*rule_chat_id, *fallback_chat_id) {
                    Some(c) => r matches DeliveryPlan::SendTelegram { chat_id } && chat_id@ == c,
                    None => r == DeliveryPlan::Skip(SkipReason::TelegramChatIdMissing),
                }
            }
        } else {
            r is Ignore
        },
{
    if same_text(channel, "web") {
        DeliveryPlan::Notify
    } else if same_text(channel, "email") {
        if smtp_host.is_empty() {
            DeliveryPlan::Skip(SkipReason::SmtpNotConfigured)
        } else {
            DeliveryPlan::SendEmail
        }
    } else if same_text(channel, "telegram") {
        if !telegram_configured {
            DeliveryPlan::Skip(SkipReason::TelegramNotConfigured)
        } else {
            match rule_chat_id {
                Some(c) => DeliveryPlan::SendTelegram { chat_id: c.clone() },
                None => match fallback_chat_id {
                    Some(c) => DeliveryPlan::SendTelegram { chat_id: c.clone() },
                    None => DeliveryPlan::Skip(SkipReason::TelegramChatIdMissing),
                },
            }
        }
    } else {
        DeliveryPlan::Ignore
    }
}

/// The recorded status of an alert delivery.
#[derive(PartialEq, Eq, Structural, Clone, Copy, Debug)]
pub enum DeliveryStatus {
    Logged,
    Sent,
    Failed,
    Skipped,
}

/// The text stored for a delivery status.
pub open spec fn status_text(status: DeliveryStatus) -> Seq<char> {
    match status {
        DeliveryStatus::Logged => "logged"@,
        DeliveryStatus::Sent => "sent"@,
        DeliveryStatus::Failed => "failed"@,
        DeliveryStatus::Skipped => "skipped"@,
    }
}

impl DeliveryStatus {
    /// The text stored for this status.
    pub fn as_str(&self) -> (r: &'static str)
        ensures
            r@ == status_text(*self),
    {
        match self {
            DeliveryStatus::Logged => "logged",
            DeliveryStatus::Sent => "sent",
            DeliveryStatus::Failed => "failed",
            DeliveryStatus::Skipped => "skipped",
        }
    }
}

/// The error message recorded for a skipped delivery.
pub open spec fn skip_message(reason: SkipReason) -> Seq<char> {
    match reason {
        SkipReason::SmtpNotConfigured => "SMTP is not configured"@,
        SkipReason::TelegramNotConfigured => "Telegram bot token is not configured"@,
        SkipReason::TelegramChatIdMissing => "Telegram chat id is not configured"@,
    }
}

fn skip_message_text(reason: SkipReason) -> (r: String)
    ensures
        r@ == skip_message(reason),
{
    match reason {
        SkipReason::SmtpNotConfigured => String::from_str("SMTP is not configured"),
        SkipReason::TelegramNotConfigured => String::from_str("Telegram bot token is not configured"),
        SkipReason::TelegramChatIdMissing => String::from_str("Telegram chat id is not configured"),
    }
}

/// The row stored for one delivery attempt.
pub struct DeliveryRecord {
    pub status: DeliveryStatus,
    pub error_message: Option<String>,
    /// The masked chat id of a Telegram delivery.
    pub telegram_chat_id: Option<String>,
    /// Whether a delivery time is recorded (only for sent alerts).
    pub delivered: bool,
}

/// `text` is present and holds `expected`.
pub open spec fn holds_text(text: Option<String>, expected: Seq<char>) -> bool {
    text matches Some(t) && t@ == expected
}

/// The record of one delivery, given its plan and, for plans that send, the
/// result of sending (the error's text on failure). Telegram error texts are
/// stored with every occurrence of the bot token replaced by `***`.
pub open spec fn record_fits(plan: DeliveryPlan, send_result: Result<(), String>, bot_token: Seq<char>, rec: DeliveryRecord) -> bool {
    &&& rec.delivered == (rec.status == DeliveryStatus::Sent)
    &&& match plan {
        DeliveryPlan::Notify => {
            &&& rec.status == DeliveryStatus::Logged
            &&& rec.error_message is None
            &&& rec.telegram_chat_id is None
        },
        DeliveryPlan::SendEmail => {
            &&& rec.telegram_chat_id is None
            &&& match send_result {
                Ok(_) => rec.status == DeliveryStatus::Sent && rec.error_message is None,
                Err(_) => rec.status == DeliveryStatus::Failed && holds_text(rec.error_message, "Email send failed"@),
            }
        },
        DeliveryPlan::SendTelegram { chat_id } => {
            &&& holds_text(rec.telegram_chat_id, masked_chat_id(chat_id@))
            &&& match send_result {
                Ok(_) => rec.status == DeliveryStatus::Sent && rec.error_message is None,
                Err(e) => rec.status == DeliveryStatus::Failed && holds_text(
                    rec.error_message,
                    replace_all(e@, bot_token, "***"@),
                ),
            }
        },
        DeliveryPlan::Skip(reason) => {
            &&& rec.status == DeliveryStatus::Skipped
            &&& holds_text(rec.error_message, skip_message(reason))
            &&& rec.telegram_chat_id is None
        },
        DeliveryPlan::Ignore => false,
    }
}

/// The delivery row to store for `plan`, or `None` when nothing is stored.
/// `send_result` matters only for plans that send.
pub fn delivery_record(plan: &DeliveryPlan, send_result: &Result<(), String>, bot_token: &str) -> (r: Option<DeliveryRecord>)
    requires
        plan matches DeliveryPlan::SendTelegram { chat_id } ==> chat_id_maskable(chat_id@),
    ensures
        r is None <==> plan is Ignore,
        r matches Some(rec) ==> record_fits(*plan, *send_result, bot_token@, rec),
{
    match plan {
        DeliveryPlan::Notify => Some(
            DeliveryRecord {
                status: DeliveryStatus::Logged,
                error_message: None,
                telegram_chat_id: None,
                delivered: false,
            },
        ),
        DeliveryPlan::SendEmail => match send_result {
            Ok(_) => Some(
                DeliveryRecord {
                    status: DeliveryStatus::Sent,
                    error_message: None,
                    telegram_chat_id: None,
                    delivered: true,
                },
            ),
            Err(_) => Some(
                DeliveryRecord {
                    status: DeliveryStatus::Failed,
                    error_message: Some(String::from_str("Email send failed")),
                    telegram_chat_id: None,
                    delivered: false,
                },
            ),
        },
        DeliveryPlan::SendTelegram { chat_id } => {
            let masked = mask_chat_id(chat_id.as_str());
            match send_result {
                Ok(_) => Some(
                    DeliveryRecord {
                        status: DeliveryStatus::Sent,
                        error_message: None,
                        telegram_chat_id: Some(masked),
                        delivered: true,
                    },
                ),
                Err(e) => Some(
                    DeliveryRecord {
                        status: DeliveryStatus::Failed,
                        error_message: Some(replace_text(e.as_str(), bot_token, "***")),
                        telegram_chat_id: Some(masked),
                        delivered: false,
                    },
                ),
            }
        },
        DeliveryPlan::Skip(reason) => Some(
            DeliveryRecord {
                status: DeliveryStatus::Skipped,
                error_message: Some(skip_message_text(*reason)),
                telegram_chat_id: None,
                delivered: false,
            },
        ),
        DeliveryPlan::Ignore => None,
    }
}

/// A failed Telegram delivery never stores the bot token: every occurrence
/// is replaced by `***`, and none is left, for a non-empty token without `*`.
pub proof fn lemma_stored_error_hides_token(error: Seq<char>, bot_token: Seq<char>)
    requires
        bot_token.len() > 0,
        !bot_token.contains('*'),
    ensures
        !occurs_in(replace_all(error, bot_token, "***"@), bot_token),
{
    reveal_strlit("***");
    assert forall|i: int, j: int| 0 <= i < bot_token.len() && 0 <= j < "***"@.len() implies bot_token[i] != "***"@[j] by {
        if bot_token[i] == '*' {
            assert(bot_token.contains('*'));
        }
    }
    lemma_replace_removes_pattern(error, bot_token, "***"@);
}

/// Title of the in-app notification for a new trend.
pub fn alert_notification_title() -> (r: String)
    ensures
        r@ == "Nouvelle tendance détectée"@,
{
    String::from_str("Nouvelle tendance détectée")
}

/// Body of the in-app notification: "<title> accélère sur <platform>".
pub fn alert_notification_body(title: &str, platform: &str) -> (r: String)
    ensures
        r@ == title@ + " accélère sur "@ + platform@,
{
    let mut r = String::from_str(title);
    r.append(" accélère sur ");
    r.append(platform);
    r
}

/// Subject of the alert e-mail: "Alerte tendance: <title>".
pub fn alert_email_subject(title: &str) -> (r: String)
    ensures
        r@ == "Alerte tendance: "@ + title@,
{
    let mut r = String::from_str("Alerte tendance: ");
    r.append(title);
    r
}

/// HTML body of the alert e-mail, naming the trend, its platform and its
/// views per hour.
pub fn alert_email_html(title: &str, platform: &str, views_per_hour: i64) -> (r: String)
    ensures
        r@ == "<h1>Nouvelle tendance détectée</h1><p><strong>"@ + title@ + "</strong></p><p>Plateforme : "@
            + platform@ + "</p><p>Vues / heure : "@ + decimal(views_per_hour as int) + "</p>"@,
{
    let mut r = String::from_str("<h1>Nouvelle tendance détectée</h1><p><strong>");
    r.append(title);
    r.append("</strong></p><p>Plateforme : ");
    r.append(platform);
    r.append("</p><p>Vues / heure : ");
    let views = i64_to_decimal(views_per_hour);
    r.append(views.as_str());
    r.append("</p>");
    r
}

} // verus!
