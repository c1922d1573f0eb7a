use afmer_etl::cells::Cell;
use afmer_etl::ffl::{FflRecord, FflStore};
use afmer_etl::loading::{read_records, Contents, FflError, Loading};
use afmer_etl::records::{norm_header, read_csv, read_xlsx, records_of, set_field};
use afmer_etl::snapshots::{file_kind, load_order, parse_snapshot_date, FileKind};

fn record(seqn: &str, name: &str, street: &str, city: &str, state: &str) -> FflRecord {
    FflRecord {
        lic_regn: "1".to_string(),
        lic_dist: "66".to_string(),
        lic_seqn: seqn.to_string(),
        license_name: name.to_string(),
        premise_street: street.to_string(),
        premise_city: city.to_string(),
        premise_state: state.to_string(),
        ..Default::default()
    }
}

fn strings(v: &[&str]) -> Vec<String> {
    v.iter().map(|s| s.to_string()).collect()
}

#[test]
fn rds_key_is_region_district_and_sequence() {
    assert_eq!(record("332", "", "", "", "").rds_key(), Some("16600332".to_string()));
    let mut r = record(" 00332 ", "", "", "", "");
    r.lic_dist = "+6".to_string();
    assert_eq!(r.rds_key(), Some("10600332".to_string()));
    r.lic_seqn = "12x".to_string();
    assert_eq!(r.rds_key(), None);
    r.lic_seqn = "123456".to_string();
    r.lic_dist = "166".to_string();
    assert_eq!(r.rds_key(), Some("1166123456".to_string()));
    assert_eq!(FflRecord::default().rds_key(), None);
}

#[test]
fn content_leaves_the_key_fields_out() {
    let a = record("1", "ACME", "1 MAIN ST", "RENO", "NV");
    let mut b = record("2", "ACME", "1 MAIN ST", "RENO", "NV");
    assert!(a.has_same_content(&b));
    b.voice_phone = "555".to_string();
    assert!(!a.has_same_content(&b));
}

#[test]
fn equal_snapshots_are_one_version() {
    let store = FflStore::new()
        .add_snapshot("2020-01", "a.csv", 2020, vec![record("332", "ACME", "1 MAIN", "RENO", "NV")])
        .add_snapshot("2021-01", "b.csv", 2021, vec![record("332", "ACME", "1 MAIN", "RENO", "NV")])
        .add_snapshot(
            "2023-02",
            "c.csv",
            2023,
            vec![record("332", "ACME LLC", "1 MAIN", "RENO", "NV"), FflRecord::default()],
        );
    assert_eq!(store.licenses().len(), 1);
    let license = &store.licenses()[0];
    assert_eq!(license.rds_key, "16600332");
    assert_eq!(license.chain.len(), 2);
    assert_eq!(license.chain[0].first_seen, "2020-01");
    assert_eq!(license.chain[0].last_seen, "2021-01");
    assert_eq!(license.chain[0].last_year, 2021);
    assert_eq!(license.chain[1].first_seen, "2023-02");
    assert_eq!(license.chain[1].seq, 1);
    assert_eq!(store.snapshots().len(), 3);
    assert_eq!(store.snapshots()[2].row_count, 1);
    assert_eq!(store.snapshots()[2].source_file, "c.csv");
}

#[test]
fn effective_version_is_nearest_and_latest() {
    let store = FflStore::new()
        .add_snapshot("2020-01", "a", 2020, vec![record("332", "A", "", "", "")])
        .add_snapshot("2022-01", "b", 2022, vec![record("332", "B", "", "", "")])
        .add_snapshot("2022-06", "c", 2022, vec![record("332", "C", "", "", "")]);
    let name = |year: i32| {
        store.version_for_year("16600332", year).map(|v| v.record.license_name.clone())
    };
    assert_eq!(name(1990), Some("A".to_string()));
    assert_eq!(name(2020), Some("A".to_string()));
    assert_eq!(name(2021), Some("C".to_string()));
    assert_eq!(name(2022), Some("C".to_string()));
    assert_eq!(name(i32::MAX), Some("C".to_string()));
    assert!(store.version_for_year("1", 2022).is_none());
}

#[test]
fn a_key_is_synthesized_where_one_license_matches() {
    let store = FflStore::new().add_snapshot(
        "2020-01",
        "a",
        2020,
        vec![
            record("1", "ACME  Arms", "", "Reno", "NV"),
            record("2", "TWIN", "", "RENO", "NV"),
            record("3", "TWIN", "", "RENO", "NV"),
            record("4", "", "", "RENO", "NV"),
        ],
    );
    assert_eq!(store.synthesize_key("acme arms", " RENO ", "nv"), Some("16600001".to_string()));
    assert_eq!(store.synthesize_key("acme arms", "ELKO", "nv"), None);
    assert_eq!(store.synthesize_key("TWIN", "RENO", "NV"), None);
    assert_eq!(store.synthesize_key(" ", "RENO", "NV"), None);
}

#[test]
fn column_names_ignore_case_blanks_and_marks() {
    assert_eq!(norm_header("\u{feff}Lic Regn"), "LIC_REGN");
    assert_eq!(norm_header(" lic_regn "), "LIC_REGN");
    assert_eq!(norm_header("\u{feff}\u{feff}Premise  Zip\tCode"), "PREMISE_ZIP_CODE");
    assert_eq!(norm_header(""), "");
}

#[test]
fn fields_are_set_by_column_name() {
    let names = [
        "LIC_REGN", "LIC_DIST", "LIC_CNTY", "LIC_TYPE", "LIC_XPRDTE", "LIC_SEQN", "LICENSE_NAME",
        "BUSINESS_NAME", "PREMISE_STREET", "PREMISE_CITY", "PREMISE_STATE", "PREMISE_ZIP_CODE",
        "MAIL_STREET", "MAIL_CITY", "MAIL_STATE", "MAIL_ZIP_CODE", "VOICE_PHONE",
    ];
    let mut r = FflRecord::default();
    for n in names {
        set_field(&mut r, n, &format!(" {} ", n.to_lowercase()));
    }
    assert_eq!(r.lic_regn, "lic_regn");
    assert_eq!(r.lic_dist, "lic_dist");
    assert_eq!(r.lic_cnty, "lic_cnty");
    assert_eq!(r.lic_type, "lic_type");
    assert_eq!(r.lic_xprdte, "lic_xprdte");
    assert_eq!(r.lic_seqn, "lic_seqn");
    assert_eq!(r.license_name, "license_name");
    assert_eq!(r.business_name, "business_name");
    assert_eq!(r.premise_street, "premise_street");
    assert_eq!(r.premise_city, "premise_city");
    assert_eq!(r.premise_state, "premise_state");
    assert_eq!(r.premise_zip, "premise_zip_code");
    assert_eq!(r.mail_street, "mail_street");
    assert_eq!(r.mail_city, "mail_city");
    assert_eq!(r.mail_state, "mail_state");
    assert_eq!(r.mail_zip, "mail_zip_code");
    assert_eq!(r.voice_phone, "voice_phone");
    set_field(&mut r, "APP_LICENSE_NAME", "x");
    set_field(&mut r, "PREMISE_ZIP", "y");
    set_field(&mut r, "MAIL_ZIP", "z");
    set_field(&mut r, "RDS_KEY", "w");
    assert_eq!(r.license_name, "x");
    assert_eq!(r.premise_zip, "y");
    assert_eq!(r.mail_zip, "z");
}

#[test]
fn rows_may_be_shorter_or_longer_than_the_headers() {
    let headers = strings(&["Lic Regn", "Other", "Lic Seqn"]);
    let rows = vec![strings(&["1"]), strings(&["2", "x", "3", "extra"]), strings(&[])];
    let rs = records_of(&headers, &rows);
    assert_eq!(rs.len(), 3);
    assert_eq!(rs[0].lic_regn, "1");
    assert_eq!(rs[0].lic_seqn, "");
    assert_eq!(rs[1].lic_regn, "2");
    assert_eq!(rs[1].lic_seqn, "3");
    assert_eq!(rs[2].lic_regn, "");
}

#[test]
fn csv_documents_give_records() {
    let data = "\u{feff}LIC_REGN,Lic Dist,LIC_SEQN,License Name\n\
                1,66,332,\"ACME, INC\"\n2,7\n3,8,9,\"A \"\"B\"\"\",extra\n";
    let rs = read_csv(data.as_bytes()).unwrap();
    assert_eq!(rs.len(), 3);
    assert_eq!(rs[0].license_name, "ACME, INC");
    assert_eq!(rs[0].rds_key(), Some("16600332".to_string()));
    assert_eq!(rs[1].lic_dist, "7");
    assert_eq!(rs[1].license_name, "");
    assert_eq!(rs[2].license_name, "A \"B\"");
    assert_eq!(read_csv(b"").unwrap().len(), 0);
    assert!(read_csv(b"LIC_REGN\n\xff\xfe\n").is_err());
}

#[test]
fn sheets_give_records() {
    let rows = vec![
        vec![Cell::Text("Lic Regn".to_string()), Cell::Text("Lic Dist".to_string()), Cell::Text(
            "Lic Seqn".to_string(),
        )],
        vec![Cell::Int(1), Cell::Int(66), Cell::Int(332)],
        vec![Cell::Empty, Cell::Bool(true)],
    ];
    let rs = read_xlsx(&rows);
    assert_eq!(rs.len(), 2);
    assert_eq!(rs[0].rds_key(), Some("16600332".to_string()));
    assert_eq!(rs[1].lic_dist, "true");
    assert_eq!(read_xlsx(&vec![]).len(), 0);
}

#[test]
fn file_names_tell_snapshot_dates() {
    assert_eq!(parse_snapshot_date("2024-02-ffl-list"), Some((2024, 2)));
    assert_eq!(parse_snapshot_date("0126-ffl-list"), Some((2026, 1)));
    assert_eq!(parse_snapshot_date("rds-2023"), Some((2023, 1)));
    assert_eq!(parse_snapshot_date("rds-2023-extra"), Some((2023, 1)));
    assert_eq!(parse_snapshot_date("rds-20"), None);
    assert_eq!(parse_snapshot_date("rds-20x3-ffl-list"), None);
    assert_eq!(parse_snapshot_date("2024-2-ffl-list"), None);
    assert_eq!(parse_snapshot_date("012-ffl-list"), None);
    assert_eq!(parse_snapshot_date("+202-+1-ffl-list"), Some((202, 1)));
    assert_eq!(parse_snapshot_date("-ffl-list"), None);
    assert_eq!(parse_snapshot_date("2024-02"), None);
    assert_eq!(parse_snapshot_date("\u{e9}12-02-ffl-list"), None);
}

#[test]
fn snapshots_load_in_chronological_order() {
    let stems = strings(&[
        "0124-FFL-LIST", "2023-12-ffl-list", "notes", "RDS-2024", "2024-01-ffl-list", "rds-0987",
    ]);
    let order = load_order(&stems);
    let got: Vec<(usize, String)> = order.iter().map(|s| (s.source, s.label.clone())).collect();
    assert_eq!(
        got,
        vec![
            (5, "0987-01".to_string()),
            (1, "2023-12".to_string()),
            (0, "2024-01".to_string()),
            (3, "2024-01".to_string()),
            (4, "2024-01".to_string()),
        ]
    );
}

#[test]
fn kinds_of_license_files() {
    assert!(matches!(file_kind(Some("csv")), Some(FileKind::Csv)));
    assert!(matches!(file_kind(Some("xlsx")), Some(FileKind::Xlsx)));
    assert!(file_kind(Some("CSV")).is_none());
    assert!(file_kind(None).is_none());
}

#[test]
fn a_load_takes_every_file_once() {
    let stems = strings(&["2024-02-ffl-list", "readme", "rds-2023"]);
    let mut loading = Loading::start(&stems).ok().unwrap();
    let mut seen: Vec<usize> = Vec::new();
    loop {
        let source = match loading.next() {
            Some(s) => s.source,
            None => break,
        };
        seen.push(source);
        let text = if source == 2 {
            "LIC_REGN,LIC_DIST,LIC_SEQN,LICENSE_NAME\n1,66,332,OLD\n"
        } else {
            "LIC_REGN,LIC_DIST,LIC_SEQN,LICENSE_NAME\n1,66,332,NEW\n"
        };
        let contents = Contents::Csv(text.as_bytes().to_vec());
        loading = loading.take(&stems[source], &contents).ok().unwrap();
    }
    assert_eq!(seen, vec![2, 0]);
    let store = loading.finish();
    let chain = &store.licenses()[0].chain;
    assert_eq!(chain.len(), 2);
    assert_eq!(chain[0].record.license_name, "OLD");
    assert_eq!(chain[0].first_seen, "2023-01");
    assert_eq!(chain[1].first_seen, "2024-02");
    assert_eq!(store.snapshots()[0].source_file, "rds-2023");
}

#[test]
fn a_load_without_snapshots_is_refused() {
    assert!(matches!(Loading::start(&strings(&["a", "b"])), Err(FflError::NoSnapshots)));
    assert!(matches!(Loading::start(&vec![]), Err(FflError::NoSnapshots)));
}

#[test]
fn files_that_cannot_be_read_are_told_apart() {
    assert!(matches!(read_records(&Contents::Other), Err(FflError::UnsupportedType)));
    assert!(matches!(read_records(&Contents::Sheet(None)), Err(FflError::NoWorksheet)));
    assert!(matches!(
        read_records(&Contents::Csv(b"A\n\xff\n".to_vec())),
        Err(FflError::Csv(_))
    ));
    assert_eq!(read_records(&Contents::Sheet(Some(vec![]))).ok().unwrap().len(), 0);
    let stems = strings(&["rds-2023"]);
    let loading = Loading::start(&stems).ok().unwrap();
    assert!(matches!(loading.take("x", &Contents::Other), Err(FflError::UnsupportedType)));
}

#[test]
fn the_last_column_of_a_name_counts() {
    let headers = strings(&["LIC_TYPE", "lic type"]);
    let rows = vec![strings(&["01", " 07 "]), strings(&["01"])];
    let rs = records_of(&headers, &rows);
    assert_eq!(rs[0].lic_type, "07");
    assert_eq!(rs[1].lic_type, "01");
}

#[test]
fn labels_of_snapshots_sort_by_date() {
    let stems = strings(&["1299-ffl-list", "2024-10-ffl-list", "2024-02-ffl-list", "rds-0999"]);
    let labels: Vec<String> = load_order(&stems).iter().map(|s| s.label.clone()).collect();
    assert_eq!(labels, strings(&["0999-01", "2024-02", "2024-10", "2099-12"]));
    let mut sorted = labels.clone();
    sorted.sort();
    assert_eq!(labels, sorted);
}
