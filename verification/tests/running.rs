use afmer_etl::reports::{report_year, year_from_path, years_line, Step, Walk};
use afmer_etl::run::{admission, plan, Admission, Plan, Request};

#[test]
fn report_names_tell_their_year() {
    assert_eq!(year_from_path("AFMER-2023"), Some(2023));
    assert_eq!(year_from_path("12023"), Some(2023));
    assert_eq!(year_from_path("x20001990"), Some(2000));
    assert_eq!(year_from_path("AFMER-1989"), None);
    assert_eq!(year_from_path("AFMER-2101"), None);
    assert_eq!(year_from_path("01990-2100"), Some(1990));
    assert_eq!(year_from_path("202"), None);
    assert_eq!(year_from_path("\u{e9}2100"), Some(2100));
}

#[test]
fn reports_of_a_directory_are_pdfs_of_that_name() {
    assert_eq!(report_year(Some("pdf"), "afmer-2023.pdf", "afmer-2023"), Some(2023));
    assert_eq!(report_year(Some("PDF"), "AFMER-2023.PDF", "AFMER-2023"), None);
    assert_eq!(report_year(Some("pdf"), "REPORT-2023.pdf", "REPORT-2023"), None);
    assert_eq!(report_year(Some("pdf"), "AFMER-x.pdf", "AFMER-x"), None);
    assert_eq!(report_year(None, "AFMER-2023", "AFMER-2023"), None);
}

fn walk(years: Vec<i32>, from: Option<i32>, current: &[i32]) -> (Vec<i32>, Vec<Step>, Vec<i32>) {
    let mut w = Walk::begin(years.clone(), from);
    let mut tried: Vec<i32> = Vec::new();
    let mut steps: Vec<Step> = Vec::new();
    loop {
        let k = match w.next() {
            Some(k) => k,
            None => break,
        };
        tried.push(years[k]);
        let (next, step) = w.take(current.contains(&years[k]));
        w = next;
        steps.push(step);
    }
    let done = w.ingested();
    (tried, steps, done)
}

#[test]
fn a_walk_takes_the_first_run_of_current_reports() {
    let (tried, steps, done) =
        walk(vec![2020, 2024, 2022, 2023, 2021, 2019], None, &[2022, 2023, 2019]);
    assert_eq!(tried, vec![2024, 2023, 2022, 2021]);
    assert_eq!(steps, vec![Step::Skipped, Step::Ingested, Step::Ingested, Step::Stopped]);
    assert_eq!(done, vec![2022, 2023]);
    assert_eq!(years_line(&done), "2022, 2023");
}

#[test]
fn a_walk_begins_at_the_year_asked_for() {
    let (tried, _, done) = walk(vec![2020, 2024, 2022], Some(2022), &[2020, 2022, 2024]);
    assert_eq!(tried, vec![2022, 2020]);
    assert_eq!(done, vec![2020, 2022]);
    assert_eq!(Walk::begin(vec![2020, 2024, 2022], None).start(), 2024);
    assert_eq!(Walk::begin(vec![], None).start(), 0);
    assert_eq!(Walk::begin(vec![], Some(5)).start(), 5);
    let (tried, _, done) = walk(vec![], None, &[]);
    assert!(tried.is_empty() && done.is_empty());
    assert_eq!(years_line(&done), "");
}

#[test]
fn reports_of_one_year_keep_their_order() {
    let mut w = Walk::begin(vec![2022, 2023, 2022, 2023], None);
    let mut order: Vec<usize> = Vec::new();
    while let Some(k) = w.next() {
        order.push(k);
        w = w.take(true).0;
    }
    assert_eq!(order, vec![1, 3, 0, 2]);
}

fn request(sources: bool, no_ingest: bool, licenses: bool, links: bool, export: bool) -> Request {
    Request {
        has_sources: sources,
        no_ingest,
        has_licenses: licenses,
        has_links: links,
        has_export: export,
    }
}

#[test]
fn a_run_follows_what_is_asked_for() {
    assert_eq!(plan(&request(false, false, true, false, false)), Plan::Nothing);
    assert_eq!(plan(&request(true, false, true, false, false)), Plan::Ingest);
    assert_eq!(plan(&request(true, false, false, true, true)), Plan::MissingLicenses);
    assert_eq!(plan(&request(false, false, false, true, false)), Plan::PostProcess);
    assert_eq!(plan(&request(false, false, false, false, true)), Plan::PostProcess);
    assert_eq!(plan(&request(true, true, true, false, false)), Plan::PostProcess);
}

#[test]
fn a_loaded_year_is_left_untouched() {
    assert_eq!(admission(None, false), Admission::NoYear);
    assert_eq!(admission(Some(2005), true), Admission::AlreadyLoaded);
    assert_eq!(admission(Some(2005), false), Admission::Ingest(2005));
}
