use afmer_etl::cells::Cell;
use afmer_etl::columns::COUNT_COLS;
use afmer_etl::ffl::{FflRecord, FflStore};
use afmer_etl::histpdf;
use afmer_etl::pdf;
use afmer_etl::pdf::{AfmerRow, NameSource};
use afmer_etl::xlsx;
use afmer_etl::xlsx::Role;

fn store() -> FflStore {
    let rec = |seqn: &str, name: &str, street: &str, city: &str| FflRecord {
        lic_regn: "1".to_string(),
        lic_dist: "66".to_string(),
        lic_seqn: seqn.to_string(),
        license_name: name.to_string(),
        premise_street: street.to_string(),
        premise_city: city.to_string(),
        premise_state: "NV".to_string(),
        ..Default::default()
    };
    FflStore::new().add_snapshot(
        "2023-01",
        "rds-2023.csv",
        2023,
        vec![
            rec("332", "ACME 2000 ARMS", "12 MAIN ST", "CARSON CITY"),
            rec("333", "OTHER NAME", "12 MAIN ST", ""),
        ],
    )
}

fn counts(first: i64) -> String {
    let mut s = String::new();
    let mut i: i64 = 0;
    while i < 22 {
        s.push_str(&format!(" {}", first + i));
        i += 1;
    }
    s
}

fn header() -> String {
    let mut s = "APP_RDS_KEY APP_LIC_TYPE APP_LICENSE_NAME APP_PREMISE_CITY APP_PREMISE_STATE"
        .to_string();
    for c in COUNT_COLS {
        s.push(' ');
        s.push_str(&c.to_uppercase());
    }
    s
}

fn parsed(outcome: pdf::Outcome) -> (Vec<AfmerRow>, pdf::ParseStats) {
    match outcome {
        pdf::Outcome::Parsed(rows, stats) => (rows, stats),
        pdf::Outcome::FormatMismatch { .. } => panic!("mismatch"),
    }
}

#[test]
fn name_sources_have_labels() {
    assert_eq!(NameSource::FflPrefix.as_str(), "ffl-prefix");
    assert_eq!(NameSource::FflSuffix.as_str(), "ffl-suffix");
    assert_eq!(NameSource::Heuristic.as_str(), "heuristic");
    assert_eq!(NameSource::Xlsx.as_str(), "xlsx");
}

#[test]
fn current_reports_give_rows() {
    let text = format!(
        "AFMER 2023\n{}\n16600332 07 ACME 2000 ARMS 12 MAIN ST NV{}\n\
         16600333 07 SOME BODY 12 MAIN ST NV{}\r\n\
         99900001 06 NOBODY 7 ELM NV{}\n\
         99900002 06 NO COUNTS NV 1 2\n\
         page 1 of 9\n",
        header(),
        counts(0),
        counts(100),
        counts(200)
    );
    let (rows, stats) = parsed(pdf::parse(&text, 2023, &store()));
    assert_eq!(rows.len(), 3);
    assert_eq!((stats.parsed, stats.skipped, stats.ffl_matched), (3, 1, 2));
    assert_eq!(rows[0].app_license_name, "ACME 2000 ARMS");
    assert_eq!(rows[0].app_premise_city, "12 MAIN ST");
    assert_eq!(rows[0].app_premise_street, "");
    assert_eq!(rows[0].app_premise_state, "NV");
    assert_eq!(rows[0].app_lic_type, "07");
    assert_eq!(rows[0].counts[21], 21);
    assert!(matches!(rows[0].name_source, NameSource::FflPrefix));
    assert_eq!(rows[0].ffl_version_first_seen, Some("2023-01".to_string()));
    assert_eq!(rows[1].app_license_name, "SOME BODY");
    assert!(matches!(rows[1].name_source, NameSource::FflSuffix));
    assert_eq!(rows[2].app_license_name, "NOBODY");
    assert_eq!(rows[2].app_premise_city, "7 ELM");
    assert!(matches!(rows[2].name_source, NameSource::Heuristic));
    assert_eq!(rows[2].ffl_version_first_seen, None);
}

#[test]
fn reports_in_another_format_are_told() {
    match pdf::parse(" APP_RDS_KEY OTHER \n", 2021, &store()) {
        pdf::Outcome::FormatMismatch { found } => {
            assert_eq!(found, Some("APP_RDS_KEY OTHER".to_string()));
        }
        pdf::Outcome::Parsed(..) => panic!("parsed"),
    }
    match pdf::parse("prose", 1998, &store()) {
        pdf::Outcome::FormatMismatch { found } => assert_eq!(found, None),
        pdf::Outcome::Parsed(..) => panic!("parsed"),
    }
}

#[test]
fn a_data_line_needs_key_type_state_and_counts() {
    let s = store();
    let line = |key: &str, kind: &str, state: &str, tail: &str| {
        format!("{} {} A 1 B {}{}{}", key, kind, state, counts(1), tail)
    };
    assert!(pdf::parse_line(&line("123456", "07", "NV", ""), 2023, &s).is_some());
    assert!(pdf::parse_line(&line("12345", "07", "NV", ""), 2023, &s).is_none());
    assert!(pdf::parse_line(&line("123456", "7", "NV", ""), 2023, &s).is_none());
    assert!(pdf::parse_line(&line("123456", "07", "N1", ""), 2023, &s).is_none());
    assert!(pdf::parse_line(&line("123456", "07", "NV", " x"), 2023, &s).is_none());
    assert!(pdf::parse_line(&format!("123456 07 A NV{}", counts(1)), 2023, &s).is_none());
    assert!(pdf::is_candidate_data_line("123456 07 rest"));
    assert!(!pdf::is_candidate_data_line("12345 07 rest"));
}

#[test]
fn names_without_a_house_number_take_all_words() {
    let ws: Vec<String> = ["A", "B", "C"].iter().map(|s| s.to_string()).collect();
    let (name, street, source) = pdf::split_name_street(&ws, None);
    assert_eq!((name.as_str(), street.as_str()), ("A B C", ""));
    assert!(matches!(source, NameSource::Heuristic));
}

#[test]
fn the_street_begins_at_the_first_word_with_a_digit() {
    let words = |s: &str| s.split(' ').map(|w| w.to_string()).collect::<Vec<String>>();
    let (name, street, source) = pdf::split_name_street(&words("ACME ARMS 9 ELM 4"), None);
    assert_eq!((name.as_str(), street.as_str()), ("ACME ARMS", "9 ELM 4"));
    assert!(matches!(source, NameSource::Heuristic));
    let blob = words("2ND AMENDMENT ARMS 12 MAIN ST");
    let (name, street, _) = pdf::split_name_street(&blob, None);
    assert_eq!((name.as_str(), street.as_str()), ("", "2ND AMENDMENT ARMS 12 MAIN ST"));
    let (name, street, city, resolved) = histpdf::split_fields(&blob, None);
    assert_eq!((name.as_str(), street.as_str()), ("", "2ND AMENDMENT ARMS 12 MAIN ST"));
    assert_eq!((city.as_str(), resolved), ("", false));
}

#[test]
fn header_line_is_the_27_columns() {
    let h = pdf::canonical_header();
    assert_eq!(h.len(), 27);
    assert_eq!(h.join(" "), header());
}

#[test]
fn section_headers_name_their_columns() {
    assert_eq!(
        histpdf::parse_count_columns("RDS Key License Name Street City State Pistol 22 Pistol Total"),
        vec![0, 6]
    );
    assert_eq!(
        histpdf::parse_count_columns("RDS Key x STATE Revolver 357 Revolver 38 Revolver"),
        vec![10, 9]
    );
    assert_eq!(histpdf::parse_count_columns("RDS Key State Rifles Manufactured"), vec![14]);
    assert!(histpdf::parse_count_columns("RDS Key State").is_empty());
    assert!(histpdf::parse_count_columns("RDS Key Name").is_empty());
}

#[test]
fn historic_sections_join_by_key() {
    let text = "intro 1 2 3\n\
        RDS Key License Name Street City State Pistol 22 Pistol 25 Pistol Total\n\
        16600332 ACME 2000 ARMS 12 MAIN ST CARSON CITY NV 1,000 2 1,002\n\
        99900001 LONE MAKER 7 ELM RENO NV 5 0 5\n\
        bad line\n\
        99900001 LONE MAKER 7 ELM RENO NV x 0 5\n\
        rds key License Name Street City State Rifles Manufactured\n\
        16600332 ACME 2000 ARMS 12 MAIN ST CARSON CITY NV 77\n";
    assert!(histpdf::lines_are_comparable(text));
    match histpdf::parse(text, 2018, &store()) {
        histpdf::Outcome::Parsed(rows, stats) => {
            assert_eq!(rows.len(), 2);
            assert_eq!((stats.rows, stats.sections, stats.ffl_matched, stats.unsplit), (2, 2, 1, 1));
            assert_eq!(rows[0].rds_key, "16600332");
            assert_eq!(rows[0].app_license_name, "ACME 2000 ARMS");
            assert_eq!(rows[0].app_premise_street, "12 MAIN ST");
            assert_eq!(rows[0].app_premise_city, "CARSON CITY");
            assert_eq!(rows[0].counts[0], 1000);
            assert_eq!(rows[0].counts[6], 1002);
            assert_eq!(rows[0].counts[14], 77);
            assert!(matches!(rows[0].name_source, NameSource::FflPrefix));
            assert_eq!(rows[1].app_license_name, "LONE MAKER");
            assert_eq!(rows[1].app_premise_street, "7 ELM RENO");
            assert_eq!(rows[1].app_premise_city, "");
            assert!(matches!(rows[1].name_source, NameSource::Heuristic));
        }
        histpdf::Outcome::Unusable(why) => panic!("{}", why),
    }
}

#[test]
fn historic_reports_without_sections_are_unusable() {
    match histpdf::parse("aggregate only", 1998, &store()) {
        histpdf::Outcome::Unusable(why) => assert_eq!(
            why,
            "no per-manufacturer 'RDS Key' sections found (aggregate-only report?)"
        ),
        histpdf::Outcome::Parsed(..) => panic!("parsed"),
    }
}

#[test]
fn lines_are_compared_at_character_boundaries() {
    assert!(histpdf::lines_are_comparable("short\n\u{e9}\n"));
    assert!(!histpdf::lines_are_comparable("abcdef\u{e9}x"));
    assert!(histpdf::lines_are_comparable("abcde\u{e9}x"));
}

fn text(s: &str) -> Cell {
    Cell::Text(s.to_string())
}

#[test]
fn workbook_columns_have_roles() {
    assert_eq!(xlsx::classify("APP_RDS_KEY"), Role::Key);
    assert_eq!(xlsx::classify("Rds Key"), Role::Key);
    assert_eq!(xlsx::classify("lic type"), Role::LicType);
    assert_eq!(xlsx::classify("APP_LICENSE_NAME"), Role::Name);
    assert_eq!(xlsx::classify("street"), Role::Street);
    assert_eq!(xlsx::classify("City"), Role::City);
    assert_eq!(xlsx::classify("ST"), Role::State);
    assert_eq!(xlsx::classify("Pistol 22"), Role::Count(0));
    assert_eq!(xlsx::classify("whatever"), Role::Ignore);
    assert!(xlsx::is_valid_key("123"));
    assert!(!xlsx::is_valid_key(""));
    assert!(!xlsx::is_valid_key("12a"));
    assert_eq!(xlsx::parse_count(" 1,234 "), 1234);
    assert_eq!(xlsx::parse_count("n/a"), 0);
}

#[test]
fn flat_workbooks_keep_every_row() {
    let sheets = vec![Some(vec![
        vec![text("RDS Key"), text("License Name"), text("City"), text("State"), text("Rifle Mfg")],
        vec![Cell::Int(16600332), text("ACME"), text("X"), text("NV"), Cell::Int(5)],
        vec![Cell::Int(16600332), text("ACME"), text("X"), text("NV"), text("1,006")],
        vec![text("none"), text("acme 2000 arms"), text("carson city"), text("nv"), Cell::Int(7)],
        vec![text("none"), text("UNKNOWN"), text("X"), text("NV"), Cell::Int(8)],
        vec![Cell::Empty, Cell::Empty],
    ])];
    match xlsx::ingest(&sheets, 2021, &store()) {
        xlsx::Outcome::Parsed(rows, stats) => {
            assert_eq!(rows.len(), 3);
            assert_eq!(
                (stats.rows, stats.keyless_skipped, stats.keys_synthesized, stats.ffl_matched),
                (3, 1, 1, 3)
            );
            assert_eq!(rows[0].counts[14], 5);
            assert_eq!(rows[1].counts[14], 1006);
            assert_eq!(rows[2].rds_key, "16600332");
            assert_eq!(rows[2].app_license_name, "acme 2000 arms");
            assert!(matches!(rows[2].name_source, NameSource::Xlsx));
        }
        xlsx::Outcome::Unusable(why) => panic!("{}", why),
    }
}

#[test]
fn sheets_of_a_workbook_join_by_key() {
    let sheets = vec![
        Some(vec![
            vec![text("RDS KEY"), text("LICENSE NAME"), text("PISTOL 22")],
            vec![Cell::Int(1), text(""), Cell::Int(5)],
            vec![Cell::Int(2), text("TWO"), Cell::Int(6)],
        ]),
        None,
        Some(vec![]),
        Some(vec![vec![text("nothing"), text("RIFLE MFG")], vec![text("x"), Cell::Int(3)]]),
        Some(vec![
            vec![text("RDS KEY"), text("LICENSE NAME"), text("RIFLE MFG"), text("PISTOL 22")],
            vec![Cell::Int(1), text("ONE"), Cell::Int(9), Cell::Int(0)],
        ]),
    ];
    match xlsx::ingest(&sheets, 2005, &store()) {
        xlsx::Outcome::Parsed(rows, stats) => {
            assert_eq!(stats.rows, 2);
            assert_eq!(rows[0].rds_key, "1");
            assert_eq!(rows[0].app_license_name, "ONE");
            assert_eq!(rows[0].counts[0], 5);
            assert_eq!(rows[0].counts[14], 9);
            assert_eq!(rows[1].app_license_name, "TWO");
        }
        xlsx::Outcome::Unusable(why) => panic!("{}", why),
    }
}

#[test]
fn workbooks_without_counts_are_unusable() {
    let sheets = vec![Some(vec![vec![text("RDS KEY")], vec![Cell::Int(1)]])];
    match xlsx::ingest(&sheets, 2005, &store()) {
        xlsx::Outcome::Unusable(why) => assert_eq!(why, "no recognizable AFMER count columns"),
        xlsx::Outcome::Parsed(..) => panic!("parsed"),
    }
}

#[test]
fn lines_of_one_license_are_all_kept() {
    let line = format!("16600332 07 ACME 2000 ARMS 12 MAIN ST NV{}", counts(1));
    let (rows, stats) =
        parsed(pdf::parse(&format!("{}\n{}\n{}\n", header(), line, line), 2023, &store()));
    assert_eq!(rows.len(), 2);
    assert_eq!(stats.parsed, 2);
    assert_eq!(rows[0].rds_key, rows[1].rds_key);
}

#[test]
fn the_order_of_the_columns_does_not_matter() {
    let read = |text: &str| match histpdf::parse(text, 2018, &store()) {
        histpdf::Outcome::Parsed(rows, st) => (
            rows.iter().map(|r| (r.rds_key.clone(), r.app_license_name.clone(), r.counts)).collect::<Vec<_>>(),
            (st.rows, st.sections, st.ffl_matched, st.unsplit),
        ),
        histpdf::Outcome::Unusable(why) => panic!("{}", why),
    };
    let tail = "RDS Key Name Street City State Rifles Manufactured\n99900001 LONE MAKER 7 ELM NV 4\n";
    let a = format!(
        "RDS Key Name Street City State Revolver 38 Revolver 357 Revolver Total\n\
         99900001 LONE MAKER 7 ELM NV 1 2 3\nfooter\n16600332 ACME 2000 ARMS 12 MAIN ST NV 5 6 x\n{}",
        tail
    );
    let b = format!(
        "RDS Key Name Street City State Revolver Total Revolver 38 Revolver 357\n\
         99900001 LONE MAKER 7 ELM NV 3 1 2\nfooter\n16600332 ACME 2000 ARMS 12 MAIN ST NV x 5 6\n{}",
        tail
    );
    assert_eq!(read(&a), read(&b));
    assert_eq!(read(&a).0[0].2[10], 2);
}
