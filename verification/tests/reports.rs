use trend_scope::reports::{
    build_csv_export, build_report_summary, report_filename, report_kpis, report_output, ReportOutput,
    ReportTrend,
};

fn trend(title: &str, region: &str, views: i64) -> ReportTrend {
    ReportTrend {
        title: title.into(),
        platform: "youtube".into(),
        category: "biz".into(),
        region: region.into(),
        views_per_hour: views,
    }
}

#[test]
fn summary_kpis_are_correct() {
    let trends = vec![trend("A", "FR", 1000), trend("B", "US", 15000)];
    let summary = build_report_summary(&trends, &vec!["youtube".into()], &vec!["biz".into()], "csv");
    assert_eq!(summary.kpis.total_trends, 2);
    assert_eq!(summary.kpis.average_views_per_hour, 8000);
    assert_eq!(summary.kpis.strong_opportunities, 1);
}

#[test]
fn csv_export_contains_headers_and_row() {
    let trends = vec![trend("A", "FR", 1000)];
    let csv = String::from_utf8(build_csv_export(&trends).expect("csv")).expect("utf8");
    assert!(csv.contains("title,platform,category,region,views_per_hour"));
    assert!(csv.contains("A,youtube,biz,FR,1000"));
}

#[test]
fn csv_export_is_exact_and_quotes_where_needed() {
    let trends = vec![trend("Hello, world", "FR", -42), trend("plain", "US", 0)];
    let csv = String::from_utf8(build_csv_export(&trends).unwrap()).unwrap();
    assert_eq!(
        csv,
        "title,platform,category,region,views_per_hour\n\"Hello, world\",youtube,biz,FR,-42\nplain,youtube,biz,US,0\n"
    );
}

#[test]
fn csv_export_of_no_trends_is_the_header() {
    let csv = String::from_utf8(build_csv_export(&vec![]).unwrap()).unwrap();
    assert_eq!(csv, "title,platform,category,region,views_per_hour\n");
}

#[test]
fn summary_lists_inputs_and_recommendations() {
    let trends = vec![trend("A", "FR", 1000)];
    let summary = build_report_summary(&trends, &vec!["youtube".into(), "tiktok".into()], &vec![], "pdf");
    assert_eq!(summary.top_platforms, vec!["youtube".to_string(), "tiktok".to_string()]);
    assert!(summary.top_categories.is_empty());
    assert_eq!(summary.top_trends.len(), 1);
    assert_eq!(summary.top_trends[0].title, "A");
    assert_eq!(summary.recommendations.len(), 3);
    assert_eq!(summary.recommendations[0], "Surveiller les tendances business en forte accélération.");
    assert_eq!(summary.recommendations[1], "Préparer des formats courts autour des catégories dominantes.");
    assert_eq!(summary.recommendations[2], "format=pdf");
}

#[test]
fn kpis_of_no_trends_are_zero() {
    let k = report_kpis(&vec![]);
    assert_eq!(k.total_trends, 0);
    assert_eq!(k.average_views_per_hour, 0);
    assert_eq!(k.strong_opportunities, 0);
}

#[test]
fn kpis_average_rounds_toward_zero() {
    let k = report_kpis(&vec![trend("A", "FR", -7), trend("B", "FR", 0)]);
    assert_eq!(k.average_views_per_hour, -3);
    let k = report_kpis(&vec![trend("A", "FR", 7), trend("B", "FR", 0)]);
    assert_eq!(k.average_views_per_hour, 3);
    let k = report_kpis(&vec![trend("A", "FR", 10000), trend("B", "FR", 9999)]);
    assert_eq!(k.strong_opportunities, 1);
}

#[test]
fn report_outputs_by_format() {
    assert_eq!(report_output("csv"), ReportOutput::CsvFile);
    assert_eq!(report_output("pdf"), ReportOutput::PdfPlanned);
    assert_eq!(report_output("json"), ReportOutput::SummaryOnly);
    assert_eq!(report_output("CSV"), ReportOutput::SummaryOnly);
}

#[test]
fn report_filename_uses_hyphenated_id() {
    let id: u128 = 0x67e5504410b1426f9247bb680e5fe0c8;
    assert_eq!(report_filename(id), "report-67e55044-10b1-426f-9247-bb680e5fe0c8.csv");
    assert_eq!(report_filename(0), "report-00000000-0000-0000-0000-000000000000.csv");
}

#[test]
fn csv_export_quotes_special_fields() {
    let trends = vec![ReportTrend {
        title: "say \"hi\"".into(),
        platform: "you\ntube".into(),
        category: "".into(),
        region: "a\rb".into(),
        views_per_hour: 5,
    }];
    let csv = String::from_utf8(build_csv_export(&trends).unwrap()).unwrap();
    assert_eq!(
        csv,
        "title,platform,category,region,views_per_hour\n\"say \"\"hi\"\"\",\"you\ntube\",,\"a\rb\",5\n"
    );
}
