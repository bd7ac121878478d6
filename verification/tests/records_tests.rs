use alpha_rust::csvids::{ids_from_table, read_ids_from_csv, CsvIdsError};
use alpha_rust::dates::{advances_start, generate_date_periods, periods_from_day, settled_cutoff, PeriodError};
use alpha_rust::log::{
    log_day_folder, run_header, run_header_at, run_log_file, run_log_file_at, summary_footer,
    RunSummary,
};
use alpha_rust::text::{i32_text, text_less, trim, u64_text};

fn s(v: &str) -> String {
    v.to_string()
}

// 2024-10-07 is day 739166 of the common era.
const OCT_7_2024: i32 = 739_166;

#[test]
fn date_periods_from_stored_start() {
    let p = generate_date_periods(Some(" 2024-10-07\n"), "2000-01-01", OCT_7_2024 + 3).unwrap();
    assert_eq!(
        p,
        vec![
            (s("2024-10-07"), s("2024-10-08")),
            (s("2024-10-08"), s("2024-10-09")),
            (s("2024-10-09"), s("2024-10-10")),
        ]
    );
    let p = generate_date_periods(None, "2024-10-07", OCT_7_2024 + 1).unwrap();
    assert_eq!(p, vec![(s("2024-10-07"), s("2024-10-08"))]);
    assert!(generate_date_periods(None, "2024-10-07", OCT_7_2024).unwrap().is_empty());
    assert_eq!(generate_date_periods(Some("10/07/2024"), "2024-10-07", OCT_7_2024), Err(PeriodError::InvalidDate));
    assert_eq!(periods_from_day(i32::MAX - 1, i32::MAX), None);
}

#[test]
fn settling_the_start_date() {
    assert_eq!(settled_cutoff(OCT_7_2024 + 3), Some(s("2024-10-07")));
    assert!(advances_start("2024-10-06", "2024-10-07"));
    assert!(!advances_start("2024-10-07", "2024-10-07"));
    assert!(!advances_start("2024-10-08", "2024-10-07"));
}

#[test]
fn csv_ids() {
    assert_eq!(read_ids_from_csv("id,region\nA1,USA\n,USA\nB2,CHN\n"), Ok(vec![s("A1"), s("B2")]));
    assert_eq!(read_ids_from_csv("region,id\nUSA,X\n"), Ok(vec![s("X")]));
    assert_eq!(read_ids_from_csv("name,region\nx,USA\n"), Err(CsvIdsError::NoIdColumn));
    assert_eq!(read_ids_from_csv(""), Err(CsvIdsError::NoIdColumn));
    assert_eq!(read_ids_from_csv("id,a\nx,1,2\n"), Err(CsvIdsError::Malformed));
    assert_eq!(
        ids_from_table(&vec![s("a"), s("id")], Some(&vec![vec![s("1"), s("Q")], vec![s("2")]])),
        Ok(vec![s("Q")])
    );
    assert_eq!(ids_from_table(&vec![s("id")], None), Err(CsvIdsError::Malformed));
}

#[test]
fn log_names_and_header() {
    assert_eq!(log_day_folder(0), Some(s("1970-01-01")));
    assert_eq!(run_log_file("hunt", 3661), Some(s("hunt_01-01-01.log")));
    assert_eq!(run_log_file_at("check", "16-20-00"), "check_16-20-00.log");
    assert_eq!(run_header("refine", 86_400), Some(s("=== refine started at 1970-01-02 00:00:00 UTC ===\n")));
    assert_eq!(run_header_at("hunt", "T"), "=== hunt started at T ===\n");
}

#[test]
fn log_footer() {
    let summary = RunSummary {
        expressions_simulated: Some(12),
        alphas_submitable: Some(vec![s("a"), s("b")]),
        alphas_submitted: Some(Vec::new()),
    };
    assert_eq!(
        summary_footer("hunt", "1.50", &summary),
        "\n---\ncommand: hunt\nexecution_time: 1.50s\nexpressions_simulated: 12\nalphas_submitable: a, b\n---\n"
    );
    assert_eq!(
        summary_footer("submit", "0.00", &RunSummary::default()),
        "\n---\ncommand: submit\nexecution_time: 0.00s\n---\n"
    );
}

#[test]
fn text_helpers() {
    assert_eq!(trim("\u{3000} a b\t\u{85}"), "a b");
    assert_eq!(trim("   "), "");
    assert!(text_less("abc", "abd"));
    assert!(text_less("ab", "abc"));
    assert!(!text_less("b", "abc"));
    assert!(text_less("Z", "a"));
    assert_eq!(u64_text(0), "0");
    assert_eq!(u64_text(18_446_744_073_709_551_615), "18446744073709551615");
    assert_eq!(i32_text(i32::MIN), "-2147483648");
    assert_eq!(i32_text(-7), "-7");
}
