//! The daily trend radar: how many trends a user may see today.
use vstd::prelude::*;

verus! {

/// How many trends are fetched for the radar: the plan's daily limit, or 100
/// for plans without one.
pub fn radar_fetch_limit(daily_limit: Option<u32>) -> (n: i64)
    ensures
        n == (match daily_limit {
            Some(l) => l as int,
            None => 100,
        }),
{
    match daily_limit {
        Some(l) => l as i64,
        None => 100,
    }
}

/// How many more trends a plan with a daily limit allows after `usage`
/// views today (never negative).
pub open spec fn allowance(limit: u32, usage: i64) -> int {
    if limit - usage > 0 {
        limit - usage
    } else {
        0
    }
}

/// `limit - usage` fits in an `i64` (the subtraction panics otherwise).
pub open spec fn allowance_computable(daily_limit: Option<u32>, usage: i64) -> bool {
    daily_limit matches Some(l) ==> l - usage <= i64::MAX
}

/// Text shown when the daily allowance is used up.
pub open spec fn daily_limit_message() -> Seq<char> {
    "Tu as consulté tes 3 tendances gratuites du jour. Passe en Pro pour débloquer toutes les tendances."@
}

/// The trends shown today, and whether the user must upgrade to see more.
pub struct RadarSelection<T> {
    pub trends: Vec<T>,
    pub upgrade_required: bool,
    pub message: Option<String>,
}

/// Keeps the trends the user may still see today. With a daily limit, the
/// first `allowance` trends are kept, and the user must upgrade when the
/// allowance is used up; without a limit every trend is kept.
pub fn select_radar_trends<T>(trends: Vec<T>, daily_limit: Option<u32>, usage_today: i64) -> (s: RadarSelection<T>)
    requires
        allowance_computable(daily_limit, usage_today),
    ensures
        match daily_limit {
            Some(l) => {
                &&& s.trends@ == trends@.take(
                    if allowance(l, usage_today) < trends@.len() {
                        allowance(l, usage_today)
                    } else {
                        trends@.len() as int
                    },
                )
                &&& s.upgrade_required == (allowance(l, usage_today) == 0)
                &&& s.upgrade_required ==> (s.message matches Some(m) && m@ == daily_limit_message())
                &&& !s.upgrade_required ==> s.message is None
            },
            None => s.trends@ == trends@ && !s.upgrade_required && s.message is None,
        },
{
    match daily_limit {
        Some(l) => {
            let diff: i64 = l as i64 - usage_today;
            let allowed: i64 = if diff > 0 {
                diff
            } else {
                0
            };
            let mut visible = trends;
            if (allowed as u64) < (visible.len() as u64) {
                visible.truncate(allowed as usize);
            }
            assert(visible@ == trends@.take(
                if allowance(l, usage_today) < trends@.len() {
                    allowance(l, usage_today)
                } else {
                    trends@.len() as int
                },
            ));
            let blocked = allowed == 0;
            let message = if blocked {
                Some(
                    String::from_str(
                        "Tu as consulté tes 3 tendances gratuites du jour. Passe en Pro pour débloquer toutes les tendances.",
                    ),
                )
            } else {
                None
            };
            RadarSelection { trends: visible, upgrade_required: blocked, message }
        },
        None => RadarSelection { trends, upgrade_required: false, message: None },
    }
}

/// Today's views after `newly_counted` new trends were marked as seen (the
/// count is converted to an `i64` with `as`, wrapping above `i64::MAX`).
pub fn usage_after_marking(usage_today: i64, newly_counted: u64) -> (n: i64)
    requires
        i64::MIN <= usage_today + (newly_counted as i64) <= i64::MAX,
    ensures
        n == usage_today + (newly_counted as i64),
{
    usage_today + newly_counted as i64
}

/// What remains of the daily allowance after `usage` views; `None` without a
/// daily limit.
pub fn remaining_today(daily_limit: Option<u32>, usage: i64) -> (r: Option<i64>)
    requires
        allowance_computable(daily_limit, usage),
    ensures
        match daily_limit {
            Some(l) => r == Some(allowance(l, usage) as i64),
            None => r is None,
        },
{
    match daily_limit {
        Some(l) => {
            let diff: i64 = l as i64 - usage;
            Some(
                if diff > 0 {
                    diff
                } else {
                    0
                },
            )
        },
        None => None,
    }
}

/// The radar answer. The plan tier, the plan's limits and the trend type
/// are the service's own types, which the library carries through.
pub struct RadarResponse<P, L, V> {
    pub plan: P,
    pub limits: L,
    pub usage_today: i64,
    pub remaining_today: Option<i64>,
    pub trends: Vec<V>,
    pub upgrade_required: bool,
    pub message: Option<String>,
}

/// The radar answer once the shown trends were marked as seen:
/// `newly_counted` of them were new today.
pub fn radar_response<P, L, V>(
    plan: P,
    limits: L,
    daily_limit: Option<u32>,
    usage_today: i64,
    selection: RadarSelection<V>,
    newly_counted: u64,
) -> (r: RadarResponse<P, L, V>)
    requires
        i64::MIN <= usage_today + (newly_counted as i64) <= i64::MAX,
        allowance_computable(daily_limit, (usage_today + (newly_counted as i64)) as i64),
    ensures
        r.plan == plan,
        r.limits == limits,
        r.usage_today == usage_today + (newly_counted as i64),
        match daily_limit {
            Some(l) => r.remaining_today == Some(allowance(l, r.usage_today) as i64),
            None => r.remaining_today is None,
        },
        r.trends == selection.trends,
        r.upgrade_required == selection.upgrade_required,
        r.message == selection.message,
{
    let usage = usage_after_marking(usage_today, newly_counted);
    let remaining = remaining_today(daily_limit, usage);
    RadarResponse {
        plan,
        limits,
        usage_today: usage,
        remaining_today: remaining,
        trends: selection.trends,
        upgrade_required: selection.upgrade_required,
        message: selection.message,
    }
}

/// Seeing trends spends the allowance one for one: after `seen` new views,
/// no more than the allowance, what remains is the allowance minus `seen`,
/// and it never goes below zero.
pub proof fn lemma_viewing_spends_allowance(limit: u32, usage: i64, seen: int)
    requires
        0 <= seen <= allowance(limit, usage),
        usage + seen <= i64::MAX,
    ensures
        allowance(limit, (usage + seen) as i64) == allowance(limit, usage) - seen,
        allowance(limit, (usage + seen) as i64) >= 0,
{
}


/// A radar call never pushes the day's usage past the plan's limit: the new
/// views are among the trends shown, and no more trends are shown than the
/// allowance.
pub proof fn lemma_usage_stays_within_limit(limit: u32, usage: i64, shown: int, newly_counted: int)
    requires
        0 <= newly_counted <= shown <= allowance(limit, usage),
    ensures
        usage + newly_counted <= (if usage >= limit {
            usage as int
        } else {
            limit as int
        }),
{
}

} // verus!
