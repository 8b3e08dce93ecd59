//! The plain-text metrics page.
use vstd::prelude::*;

use crate::text::{decimal, i64_to_decimal, lemma_decimal_reads_back, read_decimal};

verus! {

/// The counts shown on the metrics page.
pub struct MetricCounts {
    pub reports_pending: i64,
    pub reports_completed: i64,
    pub reports_failed: i64,
    pub alert_deliveries_sent: i64,
    pub alert_deliveries_failed: i64,
    pub alert_deliveries_skipped: i64,
    pub notifications_unread: i64,
    pub email_logs_sent: i64,
    pub email_logs_failed: i64,
    pub email_logs_skipped: i64,
}

/// One metrics line: the metric's name, a space, its value, a newline.
pub open spec fn metric_line(name: Seq<char>, value: i64) -> Seq<char> {
    name + seq![' '] + decimal(value as int) + seq!['\n']
}

/// The metrics page: one line per count, in a fixed order.
pub open spec fn metrics_text(c: MetricCounts) -> Seq<char> {
    metric_line("trend_scope_reports_pending"@, c.reports_pending)
        + metric_line("trend_scope_reports_completed_total"@, c.reports_completed)
        + metric_line("trend_scope_reports_failed_total"@, c.reports_failed)
        + metric_line("trend_scope_alert_deliveries_sent_total"@, c.alert_deliveries_sent)
        + metric_line("trend_scope_alert_deliveries_failed_total"@, c.alert_deliveries_failed)
        + metric_line("trend_scope_alert_deliveries_skipped_total"@, c.alert_deliveries_skipped)
        + metric_line("trend_scope_notifications_unread_total"@, c.notifications_unread)
        + metric_line("trend_scope_email_logs_sent_total"@, c.email_logs_sent)
        + metric_line("trend_scope_email_logs_failed_total"@, c.email_logs_failed)
        + metric_line("trend_scope_email_logs_skipped_total"@, c.email_logs_skipped)
}

/// Named values shown one per line, in order.
pub open spec fn metric_page(lines: Seq<(Seq<char>, i64)>) -> Seq<char>
    decreases lines.len(),
{
    if lines.len() == 0 {
        Seq::empty()
    } else {
        metric_line(lines[0].0, lines[0].1) + metric_page(lines.drop_first())
    }
}

/// The named counts of the metrics page, in page order.
pub open spec fn metric_entries(c: MetricCounts) -> Seq<(Seq<char>, i64)> {
    seq![
        ("trend_scope_reports_pending"@, c.reports_pending),
        ("trend_scope_reports_completed_total"@, c.reports_completed),
        ("trend_scope_reports_failed_total"@, c.reports_failed),
        ("trend_scope_alert_deliveries_sent_total"@, c.alert_deliveries_sent),
        ("trend_scope_alert_deliveries_failed_total"@, c.alert_deliveries_failed),
        ("trend_scope_alert_deliveries_skipped_total"@, c.alert_deliveries_skipped),
        ("trend_scope_notifications_unread_total"@, c.notifications_unread),
        ("trend_scope_email_logs_sent_total"@, c.email_logs_sent),
        ("trend_scope_email_logs_failed_total"@, c.email_logs_failed),
        ("trend_scope_email_logs_skipped_total"@, c.email_logs_skipped),
    ]
}

/// Two texts ending in a newline, neither holding another, that start two
/// equal pages are equal, and so are the rests of the pages.
proof fn lemma_line_cancel(d1: Seq<char>, d2: Seq<char>, r1: Seq<char>, r2: Seq<char>)
    requires
        forall|i: int| 0 <= i < d1.len() ==> #[trigger] d1[i] != '\n',
        forall|i: int| 0 <= i < d2.len() ==> #[trigger] d2[i] != '\n',
        d1 + seq!['\n'] + r1 == d2 + seq!['\n'] + r2,
    ensures
        d1 == d2,
        r1 == r2,
{
    let x = d1 + seq!['\n'] + r1;
    let y = d2 + seq!['\n'] + r2;
    if d1.len() < d2.len() {
        assert(x[d1.len() as int] == '\n');
        assert(y[d1.len() as int] == d2[d1.len() as int]);
    } else if d2.len() < d1.len() {
        assert(y[d2.len() as int] == '\n');
        assert(x[d2.len() as int] == d1[d2.len() as int]);
    } else {
        assert(d1 =~= x.take(d1.len() as int));
        assert(d2 =~= y.take(d2.len() as int));
        assert(r1 =~= x.skip(d1.len() + 1int));
        assert(r2 =~= y.skip(d2.len() + 1int));
    }
}

/// Two pages that begin with lines of the same name are equal only if those
/// lines show the same value and the rests are equal.
proof fn lemma_metric_line_cancel(n: Seq<char>, v1: i64, v2: i64, r1: Seq<char>, r2: Seq<char>)
    requires
        metric_line(n, v1) + r1 == metric_line(n, v2) + r2,
    ensures
        v1 == v2,
        r1 == r2,
{
    lemma_decimal_reads_back(v1 as int);
    lemma_decimal_reads_back(v2 as int);
    let d1 = decimal(v1 as int);
    let d2 = decimal(v2 as int);
    let k: int = n.len() + 1int;
    assert((metric_line(n, v1) + r1).skip(k) =~= d1 + seq!['\n'] + r1);
    assert((metric_line(n, v2) + r2).skip(k) =~= d2 + seq!['\n'] + r2);
    assert forall|i: int| 0 <= i < d1.len() implies #[trigger] d1[i] != '\n' by {
        assert(d1[i] == '-' || 48 <= (d1[i] as u32) <= 57);
    }
    assert forall|i: int| 0 <= i < d2.len() implies #[trigger] d2[i] != '\n' by {
        assert(d2[i] == '-' || 48 <= (d2[i] as u32) <= 57);
    }
    lemma_line_cancel(d1, d2, r1, r2);
}

/// Pages of lines with the same names, in the same order, are equal only if
/// every line shows the same value.
proof fn lemma_metric_page_injective(a: Seq<(Seq<char>, i64)>, b: Seq<(Seq<char>, i64)>)
    requires
        a.len() == b.len(),
        forall|i: int| 0 <= i < a.len() ==> #[trigger] a[i].0 == b[i].0,
        metric_page(a) == metric_page(b),
    ensures
        forall|i: int| 0 <= i < a.len() ==> #[trigger] a[i].1 == b[i].1,
    decreases a.len(),
{
    if a.len() > 0 {
        assert(a[0].0 == b[0].0);
        lemma_metric_line_cancel(a[0].0, a[0].1, b[0].1, metric_page(a.drop_first()), metric_page(b.drop_first()));
        lemma_metric_page_injective(a.drop_first(), b.drop_first());
        assert forall|i: int| 0 <= i < a.len() implies #[trigger] a[i].1 == b[i].1 by {
            if i > 0 {
                assert(a[i] == a.drop_first()[i - 1]);
                assert(b[i] == b.drop_first()[i - 1]);
            }
        }
    }
}

/// Adding a line at the end of a page appends it.
proof fn lemma_metric_page_push(s: Seq<(Seq<char>, i64)>, x: (Seq<char>, i64))
    ensures
        metric_page(s.push(x)) == metric_page(s) + metric_line(x.0, x.1),
    decreases s.len(),
{
    if s.len() == 0 {
        assert(s.push(x).drop_first() =~= s);
        assert(metric_page(s.push(x)) =~= metric_page(s) + metric_line(x.0, x.1));
    } else {
        assert(s.push(x).drop_first() =~= s.drop_first().push(x));
        lemma_metric_page_push(s.drop_first(), x);
        assert(metric_page(s.push(x)) =~= metric_page(s) + metric_line(x.0, x.1));
    }
}

/// A page of the first `k + 1` lines is the page of the first `k` lines
/// followed by line `k`.
proof fn lemma_metric_page_take_step(e: Seq<(Seq<char>, i64)>, k: int)
    requires
        0 <= k < e.len(),
    ensures
        metric_page(e.take(k + 1)) == metric_page(e.take(k)) + metric_line(e[k].0, e[k].1),
{
    assert(e.take(k + 1) =~= e.take(k).push(e[k]));
    lemma_metric_page_push(e.take(k), e[k]);
}

proof fn lemma_metrics_text_as_page(c: MetricCounts)
    ensures
        metrics_text(c) == metric_page(metric_entries(c)),
{
    let e = metric_entries(c);
    assert(e.take(0) =~= Seq::<(Seq<char>, i64)>::empty());
    assert(metric_page(e.take(0)) =~= Seq::<char>::empty());
    lemma_metric_page_take_step(e, 0);
    lemma_metric_page_take_step(e, 1);
    lemma_metric_page_take_step(e, 2);
    lemma_metric_page_take_step(e, 3);
    lemma_metric_page_take_step(e, 4);
    lemma_metric_page_take_step(e, 5);
    lemma_metric_page_take_step(e, 6);
    lemma_metric_page_take_step(e, 7);
    lemma_metric_page_take_step(e, 8);
    lemma_metric_page_take_step(e, 9);
    assert(e.take(10) =~= e);
    assert(metrics_text(c) =~= metric_page(e));
}

/// The metrics page shows every count: pages for different counts differ,
/// whichever count differs.
pub proof fn lemma_metrics_page_shows_every_count(c1: MetricCounts, c2: MetricCounts)
    requires
        metrics_text(c1) == metrics_text(c2),
    ensures
        c1.reports_pending == c2.reports_pending,
        c1.reports_completed == c2.reports_completed,
        c1.reports_failed == c2.reports_failed,
        c1.alert_deliveries_sent == c2.alert_deliveries_sent,
        c1.alert_deliveries_failed == c2.alert_deliveries_failed,
        c1.alert_deliveries_skipped == c2.alert_deliveries_skipped,
        c1.notifications_unread == c2.notifications_unread,
        c1.email_logs_sent == c2.email_logs_sent,
        c1.email_logs_failed == c2.email_logs_failed,
        c1.email_logs_skipped == c2.email_logs_skipped,
{
    let a = metric_entries(c1);
    let b = metric_entries(c2);
    lemma_metrics_text_as_page(c1);
    lemma_metrics_text_as_page(c2);
    assert forall|i: int| 0 <= i < a.len() implies #[trigger] a[i].0 == b[i].0 by {}
    lemma_metric_page_injective(a, b);
    assert(a[0].1 == b[0].1);
    assert(a[1].1 == b[1].1);
    assert(a[2].1 == b[2].1);
    assert(a[3].1 == b[3].1);
    assert(a[4].1 == b[4].1);
    assert(a[5].1 == b[5].1);
    assert(a[6].1 == b[6].1);
    assert(a[7].1 == b[7].1);
    assert(a[8].1 == b[8].1);
    assert(a[9].1 == b[9].1);
}

/// `page` holds a whole line made of `name`, a space, `value` in decimal
/// digits, and a newline.
pub open spec fn page_has_line(page: Seq<char>, name: Seq<char>, value: int) -> bool {
    exists|before: Seq<char>, after: Seq<char>|
        #![trigger before.len(), after.len()]
        (before.len() == 0 || before.last() == '\n') && page == before + name + seq![' '] + decimal(value)
            + seq!['\n'] + after
}

proof fn lemma_has_line(before: Seq<char>, n: Seq<char>, v: i64, after: Seq<char>)
    requires
        before.len() == 0 || before.last() == '\n',
    ensures
        page_has_line(before + metric_line(n, v) + after, n, v as int),
{
    assert(before + metric_line(n, v) + after =~= before + n + seq![' '] + decimal(v as int) + seq!['\n']
        + after);
    assert(before.len() == before.len() && after.len() == after.len());
}

proof fn lemma_ends_with_newline(x: Seq<char>, n: Seq<char>, v: i64)
    ensures
        (x + metric_line(n, v)).last() == '\n',
{
    let l = metric_line(n, v);
    assert(l[l.len() - 1] == '\n');
    assert((x + l)[x.len() + l.len() - 1] == l[l.len() - 1]);
}

/// A page of two lists of lines is the page of the first followed by the
/// page of the second.
proof fn lemma_metric_page_append(a: Seq<(Seq<char>, i64)>, b: Seq<(Seq<char>, i64)>)
    ensures
        metric_page(a + b) == metric_page(a) + metric_page(b),
    decreases a.len(),
{
    if a.len() == 0 {
        assert(a + b =~= b);
        assert(metric_page(a) + metric_page(b) =~= metric_page(b));
    } else {
        assert((a + b).drop_first() =~= a.drop_first() + b);
        assert((a + b)[0] == a[0]);
        lemma_metric_page_append(a.drop_first(), b);
        assert(metric_page(a + b) =~= metric_page(a) + metric_page(b));
    }
}

/// Each line of a page stands whole in it.
proof fn lemma_page_has_every_line(e: Seq<(Seq<char>, i64)>, k: int)
    requires
        0 <= k < e.len(),
    ensures
        page_has_line(metric_page(e), e[k].0, e[k].1 as int),
{
    let before = e.take(k);
    let one = seq![e[k]];
    let rest = e.skip(k + 1);
    assert(e =~= before + (one + rest));
    lemma_metric_page_append(before, one + rest);
    lemma_metric_page_append(one, rest);
    assert(one.drop_first() =~= Seq::<(Seq<char>, i64)>::empty());
    assert(metric_page(one.drop_first()) =~= Seq::<char>::empty());
    assert(one[0] == e[k]);
    assert(metric_page(one) =~= metric_line(e[k].0, e[k].1));
    if k > 0 {
        assert(before =~= before.drop_last().push(before.last()));
        lemma_metric_page_push(before.drop_last(), before.last());
        lemma_ends_with_newline(metric_page(before.drop_last()), before.last().0, before.last().1);
    } else {
        assert(before.len() == 0);
    }
    assert(metric_page(e) =~= metric_page(before) + metric_line(e[k].0, e[k].1) + metric_page(rest));
    lemma_has_line(metric_page(before), e[k].0, e[k].1, metric_page(rest));
}

/// Every line of the metrics page shows its own count: the page holds, as a
/// whole line, each metric's name, a space and that metric's count in
/// decimal digits.
pub proof fn lemma_metrics_page_lines(c: MetricCounts)
    ensures
        page_has_line(metrics_text(c), "trend_scope_reports_pending"@, c.reports_pending as int),
        page_has_line(metrics_text(c), "trend_scope_reports_completed_total"@, c.reports_completed as int),
        page_has_line(metrics_text(c), "trend_scope_reports_failed_total"@, c.reports_failed as int),
        page_has_line(metrics_text(c), "trend_scope_alert_deliveries_sent_total"@, c.alert_deliveries_sent as int),
        page_has_line(
            metrics_text(c),
            "trend_scope_alert_deliveries_failed_total"@,
            c.alert_deliveries_failed as int,
        ),
        page_has_line(
            metrics_text(c),
            "trend_scope_alert_deliveries_skipped_total"@,
            c.alert_deliveries_skipped as int,
        ),
        page_has_line(metrics_text(c), "trend_scope_notifications_unread_total"@, c.notifications_unread as int),
        page_has_line(metrics_text(c), "trend_scope_email_logs_sent_total"@, c.email_logs_sent as int),
        page_has_line(metrics_text(c), "trend_scope_email_logs_failed_total"@, c.email_logs_failed as int),
        page_has_line(metrics_text(c), "trend_scope_email_logs_skipped_total"@, c.email_logs_skipped as int),
{
    let e = metric_entries(c);
    lemma_metrics_text_as_page(c);
    lemma_page_has_every_line(e, 0);
    lemma_page_has_every_line(e, 1);
    lemma_page_has_every_line(e, 2);
    lemma_page_has_every_line(e, 3);
    lemma_page_has_every_line(e, 4);
    lemma_page_has_every_line(e, 5);
    lemma_page_has_every_line(e, 6);
    lemma_page_has_every_line(e, 7);
    lemma_page_has_every_line(e, 8);
    lemma_page_has_every_line(e, 9);
}

fn push_metric(body: &mut String, name: &str, value: i64)
    ensures
        final(body)@ == old(body)@ + metric_line(name@, value),
{
    proof {
        reveal_strlit(" ");
        reveal_strlit("\n");
    }
    body.append(name);
    body.append(" ");
    let digits = i64_to_decimal(value);
    body.append(digits.as_str());
    body.append("\n");
}

/// The metrics page for these counts.
pub fn metrics_body(c: &MetricCounts) -> (body: String)
    ensures
        body@ == metrics_text(*c),
{
    let mut body = String::new();
    push_metric(&mut body, "trend_scope_reports_pending", c.reports_pending);
    push_metric(&mut body, "trend_scope_reports_completed_total", c.reports_completed);
    push_metric(&mut body, "trend_scope_reports_failed_total", c.reports_failed);
    push_metric(&mut body, "trend_scope_alert_deliveries_sent_total", c.alert_deliveries_sent);
    push_metric(&mut body, "trend_scope_alert_deliveries_failed_total", c.alert_deliveries_failed);
    push_metric(&mut body, "trend_scope_alert_deliveries_skipped_total", c.alert_deliveries_skipped);
    push_metric(&mut body, "trend_scope_notifications_unread_total", c.notifications_unread);
    push_metric(&mut body, "trend_scope_email_logs_sent_total", c.email_logs_sent);
    push_metric(&mut body, "trend_scope_email_logs_failed_total", c.email_logs_failed);
    push_metric(&mut body, "trend_scope_email_logs_skipped_total", c.email_logs_skipped);
    assert(body@ =~= metrics_text(*c));
    body
}

/// The content type of the metrics page.
pub fn metrics_content_type() -> (r: &'static str)
    ensures
        r@ == "text/plain; version=0.0.4"@,
{
    "text/plain; version=0.0.4"
}

} // verus!
