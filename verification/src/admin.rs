//! Administration: access check, user listing pages, source status and the
//! test-message decisions of the admin console.
use vstd::prelude::*;

use crate::error::AppError;
use crate::text::same_text;

verus! {

/// Filters of the admin user list.
pub struct AdminUserFilters {
    pub page: i64,
    pub page_size: i64,
    pub plan: Option<String>,
    pub role: Option<String>,
    pub search: Option<String>,
}

impl Default for AdminUserFilters {
    fn default() -> (r: Self)
        ensures
            r.page == 0,
            r.page_size == 0,
            r.plan is None,
            r.role is None,
            r.search is None,
    {
        AdminUserFilters { page: 0, page_size: 0, plan: None, role: None, search: None }
    }
}

/// Query parameters of the admin user list.
pub struct AdminUsersQuery {
    pub page: Option<i64>,
    pub page_size: Option<i64>,
    pub plan: Option<String>,
    pub role: Option<String>,
    pub search: Option<String>,
}

/// The filters a user-list query asks for: page 1 and pages of 50 users
/// unless the query says otherwise.
pub fn filters_from_query(q: AdminUsersQuery) -> (f: AdminUserFilters)
    ensures
        f.page == (match q.page {
            Some(p) => p,
            None => 1,
        }),
        f.page_size == (match q.page_size {
            Some(s) => s,
            None => 50,
        }),
        f.plan == q.plan,
        f.role == q.role,
        f.search == q.search,
{
    AdminUserFilters {
        page: match q.page {
            Some(p) => p,
            None => 1,
        },
        page_size: match q.page_size {
            Some(s) => s,
            None => 50,
        },
        plan: q.plan,
        role: q.role,
        search: q.search,
    }
}

/// The page actually served: at least the first.
pub open spec fn effective_page(page: i64) -> int {
    if page < 1 {
        1
    } else {
        page as int
    }
}

/// The page size actually served: between 1 and 50.
pub open spec fn effective_page_size(page_size: i64) -> int {
    if page_size < 1 {
        1
    } else if page_size > 50 {
        50
    } else {
        page_size as int
    }
}

/// The number of users before the served page.
pub open spec fn page_offset(page: i64, page_size: i64) -> int {
    (effective_page(page) - 1) * effective_page_size(page_size)
}

/// The rows of one page of a listing: how many, after how many.
pub struct PageWindow {
    pub limit: i64,
    pub offset: i64,
}

/// The window of the user list that `filters` select.
pub fn page_window(filters: &AdminUserFilters) -> (w: PageWindow)
    requires
        page_offset(filters.page, filters.page_size) <= i64::MAX,
    ensures
        w.limit == effective_page_size(filters.page_size),
        w.offset == page_offset(filters.page, filters.page_size),
        1 <= w.limit <= 50,
        1 <= filters.page_size <= 50 ==> w.limit == filters.page_size,
        filters.page_size < 1 ==> w.limit == 1,
        filters.page_size > 50 ==> w.limit == 50,
        filters.page >= 1 ==> w.offset == (filters.page - 1) * w.limit,
        filters.page < 1 ==> w.offset == 0,
{
    let page: i64 = if filters.page < 1 {
        1
    } else {
        filters.page
    };
    let page_size: i64 = if filters.page_size < 1 {
        1
    } else if filters.page_size > 50 {
        50
    } else {
        filters.page_size
    };
    assert(0 <= (page - 1) * page_size) by (nonlinear_arith)
        requires
            page >= 1,
            page_size >= 1,
    ;
    PageWindow { limit: page_size, offset: (page - 1) * page_size }
}

/// A page size within 1 to 50 is served as asked, a smaller one as 1 and a
/// larger one as 50; a page from the first on starts after the rows of the
/// pages before it, and a page below the first is the first.
pub proof fn lemma_page_size_served_as_asked(page: i64, page_size: i64)
    ensures
        1 <= page_size <= 50 ==> effective_page_size(page_size) == page_size,
        page_size < 1 ==> effective_page_size(page_size) == 1,
        page_size > 50 ==> effective_page_size(page_size) == 50,
        page >= 1 ==> page_offset(page, page_size) == (page - 1) * effective_page_size(page_size),
        page < 1 ==> page_offset(page, page_size) == 0,
{
    assert(0 * effective_page_size(page_size) == 0);
}

/// Pages follow one another: for every page from the first on, the next page
/// starts where it ends, and no page starts before the first row.
pub proof fn lemma_pages_are_adjacent(page: i64, page_size: i64)
    requires
        page >= 1,
        page < i64::MAX,
    ensures
        page_offset((page + 1) as i64, page_size) == page_offset(page, page_size) + effective_page_size(
            page_size,
        ),
        page_offset(page, page_size) >= 0,
{
    let s = effective_page_size(page_size);
    assert((page + 1 - 1) * s == (page - 1) * s + s) by (nonlinear_arith);
    assert((page - 1) * s >= 0) by (nonlinear_arith)
        requires
            page >= 1,
            s >= 1,
    ;
}

/// Filters are taken as served: a page below 1 acts as page 1, a page size
/// below 1 as 1 and above 50 as 50, so normalised filters select the same
/// window.
pub proof fn lemma_filters_normalise(page: i64, page_size: i64)
    ensures
        effective_page_size(effective_page_size(page_size) as i64) == effective_page_size(page_size),
        page_offset(effective_page(page) as i64, effective_page_size(page_size) as i64) == page_offset(
            page,
            page_size,
        ),
{
}

/// The state of each video source.
pub struct SourceStatus {
    pub youtube: &'static str,
    pub tiktok: &'static str,
    pub instagram: &'static str,
}

/// YouTube is configured when an API key is set; TikTok and Instagram are
/// coming soon.
pub fn source_status(youtube_api_key: &str) -> (s: SourceStatus)
    ensures
        s.youtube@ == (if youtube_api_key@.len() == 0 {
            "not_configured"@
        } else {
            "configured"@
        }),
        s.tiktok@ == "coming_soon"@,
        s.instagram@ == "coming_soon"@,
{
    SourceStatus {
        youtube: if youtube_api_key.is_empty() {
            "not_configured"
        } else {
            "configured"
        },
        tiktok: "coming_soon",
        instagram: "coming_soon",
    }
}

/// A secondary count: the query's value, or 0 when the query failed.
pub fn count_or_zero(query_result: Option<i64>) -> (n: i64)
    ensures
        n == (match query_result {
            Some(v) => v,
            None => 0,
        }),
{
    match query_result {
        Some(v) => v,
        None => 0,
    }
}

/// Grants admin operations to users whose role is `admin`; every other role,
/// and an unknown user (no role), is forbidden.
pub fn ensure_admin(role: &Option<String>) -> (r: Result<(), AppError>)
    ensures
        r is Ok <==> (role matches Some(x) && x@ == "admin"@),
        r is Err ==> r == Err::<(), AppError>(AppError::Forbidden),
{
    match role {
        Some(x) => {
            if same_text(x.as_str(), "admin") {
                Ok(())
            } else {
                Err(AppError::Forbidden)
            }
        },
        None => Err(AppError::Forbidden),
    }
}

/// Body of the admin Telegram test request.
pub struct TestTelegramPayload {
    pub chat_id: Option<String>,
}

/// Body of the admin SMTP test request.
pub struct TestSmtpPayload {
    pub to: String,
}

/// What an admin test-message request does.
pub enum TestSend {
    /// The channel is not configured; nothing is sent.
    NotConfigured,
    /// No chat to send to; nothing is sent.
    ChatIdMissing,
    /// Send the test message to this recipient.
    Send(String),
}

impl TestSend {
    /// Why nothing was sent, if nothing was.
    pub fn reason(&self) -> (r: Option<&'static str>)
        ensures
            match self {
                TestSend::NotConfigured => r matches Some(t) && t@ == "not_configured"@,
                TestSend::ChatIdMissing => r matches Some(t) && t@ == "chat_id_missing"@,
                TestSend::Send(_) => r is None,
            },
    {
        match self {
            TestSend::NotConfigured => Some("not_configured"),
            TestSend::ChatIdMissing => Some("chat_id_missing"),
            TestSend::Send(_) => None,
        }
    }
}

/// The Telegram test: nothing when the bot is not configured; else the chat
/// of the request, or the fallback chat, or nothing when neither is set.
pub fn telegram_test_target(configured: bool, payload: TestTelegramPayload, fallback_chat_id: &Option<String>) -> (r: TestSend)
    ensures
        !configured ==> r is NotConfigured,
        configured ==> match payload.chat_id {
            Some(c) => r == TestSend::Send(c),
            None => match fallback_chat_id {
                Some(f) => r matches TestSend::Send(c) && c@ == f@,
                None => r is ChatIdMissing,
            },
        },
{
    if !configured {
        return TestSend::NotConfigured;
    }
    match payload.chat_id {
        Some(c) => TestSend::Send(c),
        None => match fallback_chat_id {
            Some(f) => TestSend::Send(f.clone()),
            None => TestSend::ChatIdMissing,
        },
    }
}

/// The SMTP test: nothing when SMTP is not configured, else a message to the
/// requested address.
pub fn smtp_test_target(configured: bool, payload: TestSmtpPayload) -> (r: TestSend)
    ensures
        !configured ==> r is NotConfigured,
        configured ==> r == TestSend::Send(payload.to),
{
    if !configured {
        TestSend::NotConfigured
    } else {
        TestSend::Send(payload.to)
    }
}


/// The mail sent by the admin SMTP test.
pub struct TestMail {
    pub to: String,
    pub subject: String,
    pub html: String,
}

/// The SMTP test mail to `to`: subject "Trend Scope SMTP test", body
/// "<p>SMTP test admin</p>".
pub fn smtp_test_mail(to: String) -> (m: TestMail)
    ensures
        m.to == to,
        m.subject@ == "Trend Scope SMTP test"@,
        m.html@ == "<p>SMTP test admin</p>"@,
{
    TestMail {
        to,
        subject: String::from_str("Trend Scope SMTP test"),
        html: String::from_str("<p>SMTP test admin</p>"),
    }
}

/// The message sent by the admin Telegram test, but for its trend score,
/// which is a floating-point value set by the sender.
pub struct TelegramTestMessage {
    pub chat_id: String,
    pub title: String,
    pub platform: String,
    pub region: Option<String>,
    pub category: Option<String>,
    pub views_per_hour: Option<i64>,
    pub url: Option<String>,
}

/// The Telegram test message to `chat_id`: title "Test admin ops", platform
/// youtube, 1234 views per hour, no region, category or link.
pub fn telegram_test_message(chat_id: String) -> (m: TelegramTestMessage)
    ensures
        m.chat_id == chat_id,
        m.title@ == "Test admin ops"@,
        m.platform@ == "youtube"@,
        m.region is None,
        m.category is None,
        m.views_per_hour == Some(1234i64),
        m.url is None,
{
    TelegramTestMessage {
        chat_id,
        title: String::from_str("Test admin ops"),
        platform: String::from_str("youtube"),
        region: None,
        category: None,
        views_per_hour: Some(1234),
        url: None,
    }
}

} // verus!
