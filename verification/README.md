# trend_scope

The verified core of the Trend Scope backend, a service that spots fast-rising
videos and alerts its users. The library is written in Verus; every public
function carries a contract that Verus proves.

- `src/alerts.rs`: matching a trend against an alert rule, masking chat ids,
  deciding each alert delivery and the record stored for it, alert texts.
- `src/reports.rs`: report key figures, report summary, CSV export (through the
  `csv` crate), report outputs and export file names (through the `uuid` crate).
- `src/csv_out.rs`: the `csv` writer, behind trusted functions.
- `src/admin.rs`: admin access, user-list pages, source status, test messages.
- `src/radar.rs`: the daily trend allowance of each plan.
- `src/metrics.rs`: the plain-text metrics page.
- `src/billing.rs`, `src/account.rs`, `src/error.rs`: replies and plain types.
- `src/text.rs`: character views, substring search, replacement, decimals.
- `app/`: database access (sqlx), JSON bodies (serde), floating-point scores
  and the background jobs, around the library.
