//! Trend reports: key figures, summary and CSV export.
use vstd::prelude::*;

use crate::csv_format::{
    csv_document_text, csv_parse, csv_record_bytes, csv_record_text, lemma_csv_round_trip, lemma_encode_utf8_concat,
};
use vstd::utf8::{decode_utf8, encode_utf8};
use crate::csv_out::{csv_first_record_len, csv_into_bytes, csv_write_record, csv_writer_new, csv_written};
use crate::error::AppError;
use crate::text::{decimal, i64_to_decimal, lemma_decimal_reads_back, read_decimal, same_text};

verus! {

/// One trend listed in a report.
pub struct ReportTrend {
    pub title: String,
    pub platform: String,
    pub category: String,
    pub region: String,
    pub views_per_hour: i64,
}

/// Trends with at least this many views per hour are strong opportunities.
pub const STRONG_OPPORTUNITY_VIEWS: i64 = 10000;

/// Sum of the views per hour of `trends`.
pub open spec fn views_sum(trends: Seq<ReportTrend>) -> int
    decreases trends.len(),
{
    if trends.len() == 0 {
        0
    } else {
        views_sum(trends.drop_last()) + trends.last().views_per_hour
    }
}

/// Every running total of the views fits in an `i64` (summing panics
/// otherwise).
pub open spec fn views_sum_fits(trends: Seq<ReportTrend>) -> bool {
    forall|k: int| 0 <= k <= trends.len() ==> i64::MIN <= #[trigger] views_sum(trends.take(k)) <= i64::MAX
}

/// Number of strong opportunities among `trends`.
pub open spec fn strong_count(trends: Seq<ReportTrend>) -> nat
    decreases trends.len(),
{
    if trends.len() == 0 {
        0
    } else {
        strong_count(trends.drop_last()) + if trends.last().views_per_hour >= STRONG_OPPORTUNITY_VIEWS {
            1nat
        } else {
            0nat
        }
    }
}

/// Whether a trend is a strong opportunity.
pub open spec fn is_strong(t: ReportTrend) -> bool {
    t.views_per_hour >= 10000
}

/// The strong opportunities are counted one by one: their number is the
/// length of the list of trends with at least 10000 views per hour; adding a
/// strong trend adds exactly one, adding another adds none.
pub proof fn lemma_strong_count_counts_each(trends: Seq<ReportTrend>, t: ReportTrend)
    ensures
        strong_count(trends) == trends.filter(|x: ReportTrend| is_strong(x)).len(),
        strong_count(trends.push(t)) == strong_count(trends) + (if t.views_per_hour >= 10000 {
            1int
        } else {
            0int
        }),
        (forall|i: int| 0 <= i < trends.len() ==> #[trigger] trends[i].views_per_hour >= 10000) ==> strong_count(
            trends,
        ) == trends.len(),
        (forall|i: int| 0 <= i < trends.len() ==> #[trigger] trends[i].views_per_hour < 10000) ==> strong_count(
            trends,
        ) == 0,
    decreases trends.len(),
{
    reveal(Seq::filter);
    assert(trends.push(t).drop_last() =~= trends);
    if trends.len() > 0 {
        let init = trends.drop_last();
        lemma_strong_count_counts_each(init, trends.last());
        assert(forall|i: int| 0 <= i < init.len() ==> init[i] == trends[i]);
        assert(trends.last() == trends[trends.len() - 1]);
    }
}

/// Integer division rounding toward zero, as `/` does on `i64`.
pub open spec fn div_toward_zero(a: int, b: int) -> int {
    if a >= 0 {
        a / b
    } else {
        -((-a) / b)
    }
}

/// Average views per hour of `trends`, rounded toward zero; 0 without trends.
pub open spec fn average_views(trends: Seq<ReportTrend>) -> int {
    if trends.len() == 0 {
        0
    } else {
        div_toward_zero(views_sum(trends), trends.len() as int)
    }
}

/// Key figures of a report.
pub struct ReportKpis {
    pub total_trends: i64,
    pub average_views_per_hour: i64,
    pub strong_opportunities: usize,
}

/// The key figures of a report listing `trends`.
pub fn report_kpis(trends: &Vec<ReportTrend>) -> (k: ReportKpis)
    requires
        views_sum_fits(trends@),
        trends@.len() <= i64::MAX,
    ensures
        k.total_trends == trends@.len(),
        k.average_views_per_hour == average_views(trends@),
        k.strong_opportunities == strong_count(trends@),
        k.strong_opportunities == trends@.filter(|x: ReportTrend| is_strong(x)).len(),
{
    proof {
        lemma_strong_count_counts_each(trends@, trends@[0]);
    }
    let n = trends.len();
    let mut total_views: i64 = 0;
    let mut strong: usize = 0;
    let mut i: usize = 0;
    while i < n
        invariant
            n == trends@.len(),
            i <= n,
            views_sum_fits(trends@),
            total_views == views_sum(trends@.take(i as int)),
            strong == strong_count(trends@.take(i as int)),
            strong <= i,
        decreases n - i,
    {
        assert(trends@.take(i + 1).drop_last() == trends@.take(i as int));
        assert(views_sum(trends@.take(i + 1)) <= i64::MAX);
        assert(views_sum(trends@.take(i + 1)) >= i64::MIN);
        total_views = total_views + trends[i].views_per_hour;
        if trends[i].views_per_hour >= STRONG_OPPORTUNITY_VIEWS {
            strong = strong + 1;
        }
        i = i + 1;
    }
    assert(trends@.take(n as int) == trends@);
    let total = n as i64;
    let average = if total > 0 {
        total_views / total
    } else {
        0
    };
    ReportKpis { total_trends: total, average_views_per_hour: average, strong_opportunities: strong }
}


impl ReportTrend {
    /// A copy of this trend.
    pub fn copy(&self) -> (r: ReportTrend)
        ensures
            r == *self,
    {
        ReportTrend {
            title: self.title.clone(),
            platform: self.platform.clone(),
            category: self.category.clone(),
            region: self.region.clone(),
            views_per_hour: self.views_per_hour,
        }
    }
}

fn copy_trends(trends: &Vec<ReportTrend>) -> (r: Vec<ReportTrend>)
    ensures
        r@ == trends@,
{
    let mut r: Vec<ReportTrend> = Vec::new();
    let n = trends.len();
    let mut i: usize = 0;
    while i < n
        invariant
            n == trends@.len(),
            i <= n,
            r@ == trends@.take(i as int),
        decreases n - i,
    {
        r.push(trends[i].copy());
        assert(trends@.take(i + 1) == trends@.take(i as int).push(trends@[i as int]));
        i = i + 1;
    }
    assert(trends@.take(n as int) == trends@);
    r
}

fn copy_texts(texts: &Vec<String>) -> (r: Vec<String>)
    ensures
        r@ == texts@,
{
    let mut r: Vec<String> = Vec::new();
    let n = texts.len();
    let mut i: usize = 0;
    while i < n
        invariant
            n == texts@.len(),
            i <= n,
            r@ == texts@.take(i as int),
        decreases n - i,
    {
        r.push(texts[i].clone());
        assert(texts@.take(i + 1) == texts@.take(i as int).push(texts@[i as int]));
        i = i + 1;
    }
    assert(texts@.take(n as int) == texts@);
    r
}

/// The summary stored with a completed report.
pub struct ReportSummary {
    pub top_platforms: Vec<String>,
    pub top_categories: Vec<String>,
    pub top_trends: Vec<ReportTrend>,
    pub kpis: ReportKpis,
    pub recommendations: Vec<String>,
}

/// The fixed recommendations of every report, followed by one naming the
/// requested format.
pub open spec fn recommendations_of(format: Seq<char>) -> Seq<Seq<char>> {
    seq![
        "Surveiller les tendances business en forte accélération."@,
        "Préparer des formats courts autour des catégories dominantes."@,
        "format="@ + format,
    ]
}

/// Summarises a report: the requested platforms and categories, the listed
/// trends, their key figures and the recommendations.
pub fn build_report_summary(
    trends: &Vec<ReportTrend>,
    platforms: &Vec<String>,
    categories: &Vec<String>,
    format: &str,
) -> (r: ReportSummary)
    requires
        views_sum_fits(trends@),
        trends@.len() <= i64::MAX,
    ensures
        r.top_platforms@ == platforms@,
        r.top_categories@ == categories@,
        r.top_trends@ == trends@,
        r.kpis.total_trends == trends@.len(),
        r.kpis.average_views_per_hour == average_views(trends@),
        r.kpis.strong_opportunities == strong_count(trends@),
        r.recommendations.deep_view() == recommendations_of(format@),
{
    let kpis = report_kpis(trends);
    let mut recommendations: Vec<String> = Vec::new();
    recommendations.push(String::from_str("Surveiller les tendances business en forte accélération."));
    recommendations.push(String::from_str("Préparer des formats courts autour des catégories dominantes."));
    let mut last = String::from_str("format=");
    last.append(format);
    recommendations.push(last);
    assert(recommendations.deep_view() =~= recommendations_of(format@));
    ReportSummary {
        top_platforms: copy_texts(platforms),
        top_categories: copy_texts(categories),
        top_trends: copy_trends(trends),
        kpis,
        recommendations,
    }
}

/// The report key figures are consistent: strong opportunities are among the
/// listed trends, and a report without trends averages 0 views per hour.
pub proof fn lemma_kpis_consistent(trends: Seq<ReportTrend>)
    ensures
        strong_count(trends) <= trends.len(),
        trends.len() == 0 ==> average_views(trends) == 0,
    decreases trends.len(),
{
    if trends.len() > 0 {
        lemma_kpis_consistent(trends.drop_last());
    }
}


/// The header record of a CSV export.
pub open spec fn csv_header_fields() -> Seq<Seq<char>> {
    seq!["title"@, "platform"@, "category"@, "region"@, "views_per_hour"@]
}

/// The record of one trend in a CSV export.
pub open spec fn trend_csv_fields(t: ReportTrend) -> Seq<Seq<char>> {
    seq![t.title@, t.platform@, t.category@, t.region@, decimal(t.views_per_hour as int)]
}

/// The bytes of the records of `trends`, in order.
pub open spec fn csv_rows(trends: Seq<ReportTrend>) -> Seq<u8>
    decreases trends.len(),
{
    if trends.len() == 0 {
        Seq::empty()
    } else {
        csv_rows(trends.drop_last()) + csv_record_bytes(trend_csv_fields(trends.last()))
    }
}

/// The records of a CSV export: the header, then one record per trend.
pub open spec fn export_records(trends: Seq<ReportTrend>) -> Seq<Seq<Seq<char>>> {
    seq![csv_header_fields()] + Seq::new(trends.len(), |i: int| trend_csv_fields(trends[i]))
}

proof fn lemma_export_bytes(trends: Seq<ReportTrend>)
    ensures
        csv_record_bytes(csv_header_fields()) + csv_rows(trends) == encode_utf8(
            csv_document_text(export_records(trends)),
        ),
    decreases trends.len(),
{
    if trends.len() == 0 {
        let recs = export_records(trends);
        assert(recs.len() == 1);
        assert(recs.drop_last() =~= Seq::<Seq<Seq<char>>>::empty());
        assert(csv_document_text(recs.drop_last()) =~= Seq::<char>::empty());
        assert(recs.last() == csv_header_fields());
        assert(csv_document_text(recs) =~= csv_record_text(csv_header_fields()));
        assert(csv_record_bytes(csv_header_fields()) + csv_rows(trends) =~= csv_record_bytes(csv_header_fields()));
    } else {
        let init = trends.drop_last();
        lemma_export_bytes(init);
        let recs = export_records(trends);
        assert(recs.drop_last() =~= export_records(init));
        assert(recs.last() == trend_csv_fields(trends.last()));
        lemma_encode_utf8_concat(
            csv_document_text(export_records(init)),
            csv_record_text(trend_csv_fields(trends.last())),
        );
        assert(csv_record_bytes(csv_header_fields()) + csv_rows(trends) =~= (csv_record_bytes(
            csv_header_fields(),
        ) + csv_rows(init)) + csv_record_bytes(trend_csv_fields(trends.last())));
    }
}

/// Reading a CSV export back gives the header record, then one record per
/// trend with its title, platform, category, region and views per hour, in
/// order; fields holding commas, quotes or line breaks come back unchanged.
pub proof fn lemma_csv_export_reads_back(trends: Seq<ReportTrend>)
    ensures
        csv_parse(decode_utf8(csv_record_bytes(csv_header_fields()) + csv_rows(trends))) == export_records(
            trends,
        ),
{
    lemma_export_bytes(trends);
    let recs = export_records(trends);
    assert forall|i: int| 0 <= i < recs.len() implies (#[trigger] recs[i]).len() >= 1 by {
        if i > 0 {
            assert(recs[i] == trend_csv_fields(trends[i - 1]));
        }
    }
    lemma_csv_round_trip(recs);
}

/// Reading a CSV export back gives the header, then for each trend, in
/// order, a record of five fields: its full title, platform, category and
/// region unchanged, and a number equal to its views per hour.
pub proof fn lemma_csv_export_fields(trends: Seq<ReportTrend>, i: int)
    requires
        0 <= i < trends.len(),
    ensures
        ({
            let recs = csv_parse(decode_utf8(csv_record_bytes(csv_header_fields()) + csv_rows(trends)));
            &&& recs.len() == trends.len() + 1
            &&& recs[0] == seq!["title"@, "platform"@, "category"@, "region"@, "views_per_hour"@]
            &&& recs[i + 1].len() == 5
            &&& recs[i + 1][0] == trends[i].title@
            &&& recs[i + 1][1] == trends[i].platform@
            &&& recs[i + 1][2] == trends[i].category@
            &&& recs[i + 1][3] == trends[i].region@
            &&& read_decimal(recs[i + 1][4]) == trends[i].views_per_hour
        }),
{
    lemma_csv_export_reads_back(trends);
    let recs = export_records(trends);
    assert(recs[i + 1] == trend_csv_fields(trends[i]));
    lemma_decimal_reads_back(trends[i].views_per_hour as int);
}

fn header_fields() -> (v: Vec<String>)
    ensures
        v.deep_view() == csv_header_fields(),
        v@.len() == 5,
{
    let mut v: Vec<String> = Vec::new();
    v.push(String::from_str("title"));
    v.push(String::from_str("platform"));
    v.push(String::from_str("category"));
    v.push(String::from_str("region"));
    v.push(String::from_str("views_per_hour"));
    assert(v.deep_view() =~= csv_header_fields());
    v
}

fn trend_fields(t: &ReportTrend) -> (v: Vec<String>)
    ensures
        v.deep_view() == trend_csv_fields(*t),
        v@.len() == 5,
{
    let mut v: Vec<String> = Vec::new();
    v.push(t.title.clone());
    v.push(t.platform.clone());
    v.push(t.category.clone());
    v.push(t.region.clone());
    v.push(i64_to_decimal(t.views_per_hour));
    assert(v.deep_view() =~= trend_csv_fields(*t));
    v
}

/// The CSV export of a report: a header record, then one record per trend
/// (title, platform, category, region, views per hour), in order; reading
/// it back gives exactly these records.
pub fn build_csv_export(trends: &Vec<ReportTrend>) -> (r: Result<Vec<u8>, AppError>)
    ensures
        r matches Ok(bytes) && bytes@ == csv_record_bytes(csv_header_fields()) + csv_rows(trends@),
        r matches Ok(bytes) && csv_parse(decode_utf8(bytes@)) == export_records(trends@),
        r matches Ok(bytes) ==> csv_parse(decode_utf8(bytes@)).len() == trends@.len() + 1,
        r matches Ok(bytes) ==> forall|i: int|
            0 <= i < trends@.len() ==> {
                let rec = #[trigger] csv_parse(decode_utf8(bytes@))[i + 1];
                &&& rec.len() == 5
                &&& rec[0] == trends@[i].title@
                &&& rec[1] == trends@[i].platform@
                &&& rec[2] == trends@[i].category@
                &&& rec[3] == trends@[i].region@
                &&& read_decimal(rec[4]) == trends@[i].views_per_hour
            },
{
    proof {
        lemma_csv_export_reads_back(trends@);
        assert forall|i: int| 0 <= i < trends@.len() implies {
            let rec = #[trigger] export_records(trends@)[i + 1];
            &&& rec.len() == 5
            &&& rec[0] == trends@[i].title@
            &&& rec[1] == trends@[i].platform@
            &&& rec[2] == trends@[i].category@
            &&& rec[3] == trends@[i].region@
            &&& read_decimal(rec[4]) == trends@[i].views_per_hour
        } by {
            lemma_csv_export_fields(trends@, i);
        }
    }
    let header = header_fields();
    let mut w = match csv_write_record(csv_writer_new(), &header) {
        Ok(w) => w,
        Err(_) => return Err(AppError::Internal),
    };
    let n = trends.len();
    let mut i: usize = 0;
    assert(csv_rows(trends@.take(0)) == Seq::<u8>::empty());
    assert(csv_written(w) =~= csv_record_bytes(csv_header_fields()) + csv_rows(trends@.take(0)));
    while i < n
        invariant
            n == trends@.len(),
            i <= n,
            csv_first_record_len(w) == Some(5nat),
            csv_written(w) == csv_record_bytes(csv_header_fields()) + csv_rows(trends@.take(i as int)),
        decreases n - i,
    {
        let fields = trend_fields(&trends[i]);
        w = match csv_write_record(w, &fields) {
            Ok(next) => next,
            Err(_) => return Err(AppError::Internal),
        };
        assert(trends@.take(i + 1).drop_last() == trends@.take(i as int));
        i = i + 1;
    }
    assert(trends@.take(n as int) == trends@);
    match csv_into_bytes(w) {
        Some(bytes) => Ok(bytes),
        None => Err(AppError::Internal),
    }
}


/// The lowercase hexadecimal digit of `d` (0 to 15).
pub open spec fn hex_char(d: u128) -> char {
    if d < 10 {
        ((d + 48) as u32) as char
    } else {
        ((d + 87) as u32) as char
    }
}

/// The 32 hexadecimal digits of `id`, most significant first.
pub open spec fn uuid_hex(id: u128) -> Seq<char> {
    Seq::new(32, |k: int| hex_char((id >> ((4 * (31 - k)) as u128)) & 0xfu128))
}

/// The hyphenated form of the UUID whose big-endian value is `id`:
/// 8-4-4-4-12 lowercase hexadecimal digits.
pub open spec fn hyphenated_uuid(id: u128) -> Seq<char> {
    let h = uuid_hex(id);
    h.subrange(0, 8) + seq!['-'] + h.subrange(8, 12) + seq!['-'] + h.subrange(12, 16) + seq!['-']
        + h.subrange(16, 20) + seq!['-'] + h.subrange(20, 32)
}

/// Calls `uuid::Uuid::from_u128` and formats the UUID with `to_string`.
/// Trusted: `from_u128` reads `id` big-endian, and `Display` writes the
/// hyphenated lowercase form.
#[verifier::external_body]
fn uuid_text(id: u128) -> (s: String)
    ensures
        s@ == hyphenated_uuid(id),
{
    uuid::Uuid::from_u128(id).to_string()
}

/// What is produced besides the summary when a report completes.
#[derive(PartialEq, Eq, Structural, Clone, Copy, Debug)]
pub enum ReportOutput {
    /// A CSV export is built and stored.
    CsvFile,
    /// The summary notes that a PDF file is planned.
    PdfPlanned,
    /// Only the summary.
    SummaryOnly,
}

impl ReportOutput {
    /// The note added to the summary about file generation, if any.
    pub fn file_generation(&self) -> (r: Option<&'static str>)
        ensures
            *self == ReportOutput::PdfPlanned ==> (r matches Some(t) && t@ == "pdf_planned"@),
            *self != ReportOutput::PdfPlanned ==> r is None,
    {
        match self {
            ReportOutput::PdfPlanned => Some("pdf_planned"),
            _ => None,
        }
    }
}

/// The output of a report requested in `format`.
pub fn report_output(format: &str) -> (r: ReportOutput)
    ensures
        r == (if format@ == "csv"@ {
            ReportOutput::CsvFile
        } else if format@ == "pdf"@ {
            ReportOutput::PdfPlanned
        } else {
            ReportOutput::SummaryOnly
        }),
{
    if same_text(format, "csv") {
        ReportOutput::CsvFile
    } else if same_text(format, "pdf") {
        ReportOutput::PdfPlanned
    } else {
        ReportOutput::SummaryOnly
    }
}

/// The file name of the CSV export of the report whose id is `id`:
/// `report-<hyphenated id>.csv`.
pub fn report_filename(id: u128) -> (r: String)
    ensures
        r@ == "report-"@ + hyphenated_uuid(id) + ".csv"@,
{
    let mut r = String::from_str("report-");
    let text = uuid_text(id);
    r.append(text.as_str());
    r.append(".csv");
    r
}

} // verus!
