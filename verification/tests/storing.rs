use afmer_etl::columns::COUNT_COLS;
use afmer_etl::database::{
    schema_sql, select_sql, statement, write_afmer, write_ffl, write_labels, write_links, Change,
    SqlValue, CLEAR_GROUPS_SQL, CLEAR_LINKS_SQL, CLEAR_YEAR_SQL, GROUP_SQL, LABEL_SQL, LINK_SQL,
    SNAPSHOT_SQL, VERSION_SQL,
};
use afmer_etl::export::{
    column_names, file_name_of, labels_json_body, meta_json, total_rows, year_file, year_text,
    ExportRow, YearRows,
};
use afmer_etl::ffl::{FflRecord, FflStore};
use afmer_etl::jsonout::json_str;
use afmer_etl::labels::{read_labels, Label};
use afmer_etl::links::{GroupName, Link, Links};
use afmer_etl::pdf::{AfmerRow, NameSource};

fn shown(v: &SqlValue) -> String {
    match v {
        SqlValue::Null => "null".to_string(),
        SqlValue::Int(n) => n.to_string(),
        SqlValue::Text(s) => format!("'{}'", s),
    }
}

fn shown_all(c: &Change) -> Vec<String> {
    statement(c).values.iter().map(shown).collect()
}

fn row(key: &str, seen: Option<&str>) -> AfmerRow {
    let mut counts = [0i64; 22];
    counts[0] = 11;
    counts[21] = -4;
    AfmerRow {
        rds_key: key.to_string(),
        app_lic_type: "07".to_string(),
        app_license_name: "ACME".to_string(),
        app_premise_street: "".to_string(),
        app_premise_city: "RENO".to_string(),
        app_premise_state: "NV".to_string(),
        counts,
        ffl_version_first_seen: seen.map(|s| s.to_string()),
        name_source: NameSource::FflPrefix,
    }
}

#[test]
fn a_report_replaces_the_rows_of_its_year() {
    let rows = vec![row("1", Some("2023-01")), row("2", None)];
    let changes = write_afmer(2023, "AFMER-2023.pdf", &rows);
    assert_eq!(changes.len(), 3);
    assert_eq!(statement(&changes[0]).sql, CLEAR_YEAR_SQL);
    assert_eq!(shown_all(&changes[0]), vec!["2023".to_string()]);
    let first = shown_all(&changes[1]);
    assert_eq!(first.len(), 32);
    assert_eq!(first[0], "2023");
    assert_eq!(first[1], "'AFMER-2023.pdf'");
    assert_eq!(first[2], "'1'");
    assert_eq!(first[7], "'NV'");
    assert_eq!(first[8], "11");
    assert_eq!(first[29], "-4");
    assert_eq!(first[30], "'2023-01'");
    assert_eq!(first[31], "'ffl-prefix'");
    assert_eq!(shown_all(&changes[2])[30], "null");
    let sql = statement(&changes[1]).sql;
    assert!(sql.contains("pstl_22, pstl_25"));
    assert!(sql.ends_with("?31, ?32)"));
    assert_eq!(sql.matches('?').count(), 32);
}

#[test]
fn a_links_file_replaces_all_links() {
    let links = Links {
        links: vec![Link { rds_key: "k".to_string(), group_id: "g".to_string() }],
        names: vec![GroupName { group_id: "g".to_string(), name: "n".to_string() }],
    };
    let changes = write_links(&links);
    let sqls: Vec<String> = changes.iter().map(|c| statement(c).sql).collect();
    assert_eq!(sqls, vec![CLEAR_LINKS_SQL, CLEAR_GROUPS_SQL, LINK_SQL, GROUP_SQL]);
    assert_eq!(shown_all(&changes[2]), vec!["'k'".to_string(), "'g'".to_string()]);
    assert_eq!(shown_all(&changes[3]), vec!["'g'".to_string(), "'n'".to_string()]);
}

#[test]
fn labels_are_stored_by_code() {
    let labels = vec![Label {
        code: "c".to_string(),
        name: "n".to_string(),
        json: "{}".to_string(),
    }];
    let changes = write_labels(&labels);
    assert_eq!(changes.len(), 1);
    assert_eq!(statement(&changes[0]).sql, LABEL_SQL);
    assert_eq!(
        shown_all(&changes[0]),
        vec!["'c'".to_string(), "'n'".to_string(), "'{}'".to_string()]
    );
}

#[test]
fn the_license_dimension_is_stored_whole() {
    let rec = |name: &str, seqn: &str| FflRecord {
        lic_regn: "1".to_string(),
        lic_dist: "66".to_string(),
        lic_seqn: seqn.to_string(),
        license_name: name.to_string(),
        voice_phone: "555".to_string(),
        ..Default::default()
    };
    let store = FflStore::new()
        .add_snapshot("2022-01", "a", 2022, vec![rec("A", "1"), rec("X", "2")])
        .add_snapshot("2023-01", "b", 2023, vec![rec("B", "1")]);
    let changes = write_ffl(&store);
    assert_eq!(changes.len(), 5);
    assert_eq!(statement(&changes[0]).sql, SNAPSHOT_SQL);
    assert_eq!(
        shown_all(&changes[0]),
        vec!["'2022-01'".to_string(), "'a'".to_string(), "2".to_string()]
    );
    let versions: Vec<Vec<String>> = changes[2..].iter().map(shown_all).collect();
    assert_eq!(statement(&changes[2]).sql, VERSION_SQL);
    assert_eq!(VERSION_SQL.matches('?').count(), 21);
    for v in &versions {
        assert_eq!(v.len(), 21);
        assert_eq!(v[20], "'555'");
    }
    assert!(versions.iter().any(|v| v[0] == "'16600001'" && v[1] == "1" && v[2] == "'2023-01'"
        && v[10] == "'B'"));
    assert!(versions.iter().any(|v| v[0] == "'16600002'" && v[1] == "0" && v[10] == "'X'"));
}

#[test]
fn the_schema_has_every_count_column() {
    let sql = schema_sql();
    for c in COUNT_COLS {
        assert!(sql.contains(&format!("\n  {} INTEGER NOT NULL DEFAULT 0,\n", c)), "{}", c);
    }
    assert!(sql.contains("CREATE VIEW IF NOT EXISTS afmer_grouped AS"));
    assert!(select_sql().starts_with("SELECT source_year, rds_key, "));
    assert!(select_sql().contains("misc_fa_exp, name_source FROM afmer"));
}

#[test]
fn the_statements_run_on_a_database() {
    let conn = rusqlite::Connection::open_in_memory().unwrap();
    conn.execute_batch(&schema_sql()).unwrap();
    let run = |changes: &Vec<Change>| run_on(&conn, changes);
    let rows = vec![row("k1", None), row("k2", Some("2023-01"))];
    run(&write_afmer(2023, "f", &rows));
    run(&write_afmer(2023, "f", &rows));
    run(&write_afmer(2022, "g", &rows));
    let count = |sql: &str| conn.query_row(sql, [], |r| r.get::<_, i64>(0)).unwrap();
    assert_eq!(count("SELECT COUNT(*) FROM afmer WHERE source_year = 2023"), 2);
    assert_eq!(count("SELECT COUNT(*) FROM afmer"), 4);
    assert_eq!(count("SELECT SUM(pstl_22) FROM afmer WHERE source_year = 2022"), 22);
    let links = Links {
        links: vec![Link { rds_key: "k1".to_string(), group_id: "g".to_string() }],
        names: vec![GroupName { group_id: "g".to_string(), name: "G".to_string() }],
    };
    run(&write_links(&links));
    assert_eq!(count("SELECT COUNT(*) FROM afmer_grouped WHERE group_key = 'g'"), 2);
    assert_eq!(count("SELECT COUNT(*) FROM afmer_grouped WHERE group_key = 'k2'"), 2);
    run(&write_links(&Links { links: vec![], names: vec![] }));
    assert_eq!(count("SELECT COUNT(*) FROM rds_link"), 0);
    assert_eq!(count("SELECT COUNT(*) FROM rds_group"), 0);
    let rec = FflRecord {
        lic_regn: "1".to_string(),
        lic_dist: "2".to_string(),
        lic_seqn: "3".to_string(),
        ..Default::default()
    };
    let store = FflStore::new().add_snapshot("2023-01", "s", 2023, vec![rec]);
    run(&write_ffl(&store));
    assert_eq!(count("SELECT COUNT(*) FROM ffl_version WHERE rds_key = '10200003'"), 1);
    assert_eq!(count("SELECT row_count FROM ffl_snapshot"), 1);
    let mut stmt = conn.prepare(&select_sql()).unwrap();
    let keys: Vec<String> = stmt
        .query_map([2023], |r| r.get::<_, String>(1))
        .unwrap()
        .map(|k| k.unwrap())
        .collect();
    assert_eq!(keys, vec!["k1".to_string(), "k2".to_string()]);
}

#[test]
fn json_strings_are_escaped() {
    let mut s = String::from("x");
    json_str(&mut s, "a\"\\\n\r\t\u{1}\u{1f}\u{7f}\u{e9}");
    assert_eq!(s, "x\"a\\\"\\\\\\n\\r\\t\\u0001\\u001f\u{7f}\u{e9}\"");
    let mut all = String::new();
    let mut n: u32 = 0;
    while n < 0x300 {
        all.push(char::from_u32(n).unwrap());
        n += 1;
    }
    let mut t = String::new();
    json_str(&mut t, &all);
    let back: serde_json::Value = serde_json::from_str(&t).unwrap();
    assert_eq!(back.as_str(), Some(all.as_str()));
}

fn export_row(key: &str) -> ExportRow {
    let mut counts = [0i64; 22];
    counts[1] = 5;
    ExportRow {
        year: 2023,
        rds_key: key.to_string(),
        lic_type: "07".to_string(),
        name: "A \"B\"".to_string(),
        street: "".to_string(),
        city: "C".to_string(),
        state: "NV".to_string(),
        counts,
        name_source: "xlsx".to_string(),
    }
}

#[test]
fn exported_rows_are_arrays() {
    assert_eq!(year_text(&vec![]), "[]");
    let one = "[2023,\"k\",\"07\",\"A \\\"B\\\"\",\"\",\"C\",\"NV\",\
               0,5,0,0,0,0,0,0,0,0,0,0,0,0,0,0,0,0,0,0,0,0,\"xlsx\"]";
    assert_eq!(year_text(&vec![export_row("k")]), format!("[{}]", one));
    assert_eq!(
        year_text(&vec![export_row("k"), export_row("k")]),
        format!("[{},{}]", one, one)
    );
    let back: serde_json::Value = serde_json::from_str(&year_text(&vec![export_row("k")])).unwrap();
    assert_eq!(back[0].as_array().unwrap().len(), column_names().len());
    assert_eq!(back[0][3].as_str(), Some("A \"B\""));
    assert_eq!(back[0][8].as_i64(), Some(5));
}

#[test]
fn a_year_file_is_a_gzip_stream_of_its_rows() {
    let rows = vec![export_row("k"), export_row("l")];
    let bytes = year_file(&rows).unwrap();
    assert_eq!(bytes[0], 0x1f);
    assert_eq!(bytes[1], 0x8b);
    let mut text = String::new();
    let mut gz = flate2::read::GzDecoder::new(&bytes[..]);
    std::io::Read::read_to_string(&mut gz, &mut text).unwrap();
    assert_eq!(text, year_text(&rows));
    assert_eq!(year_file(&rows).unwrap(), bytes);
}

#[test]
fn the_index_lists_what_there_is() {
    let years = vec![YearRows { year: 2022, rows: 3 }, YearRows { year: 2023, rows: 40 }];
    let links = vec![Link { rds_key: "k".to_string(), group_id: "g".to_string() }];
    let names = vec![GroupName { group_id: "g".to_string(), name: "G".to_string() }];
    let labels = vec![
        Label { code: "a".to_string(), name: "A".to_string(), json: "\"A\"".to_string() },
        Label { code: "b".to_string(), name: "B".to_string(), json: "{\"name\":\"B\"}".to_string() },
    ];
    assert_eq!(total_rows(&years), 43);
    assert_eq!(labels_json_body(&labels), "\"a\": \"A\", \"b\": {\"name\":\"B\"}");
    assert_eq!(file_name_of(2023), "afmer-2023.json.gz");
    let meta = meta_json(
        &vec!["AZ".to_string(), "NV".to_string()],
        &years,
        &links,
        &names,
        &labels,
    );
    assert!(meta.starts_with("{\n  \"columns\": [\"year\",\"rds_key\",\"lic_type\",\"name\","));
    assert!(meta.contains("],\n  \"count_columns\": [\"pstl_22\",\"pstl_25\","));
    assert!(meta.ends_with(
        "\"misc_fa_exp\"],\n  \"states\": [\"AZ\",\"NV\"],\n  \"years\": [\
         \n    {\"year\": 2022, \"rows\": 3, \"file\": \"afmer-2022.json.gz\"},\
         \n    {\"year\": 2023, \"rows\": 40, \"file\": \"afmer-2023.json.gz\"}\
         \n  ],\n  \"total_rows\": 43,\n  \"groups\": [\
         {\"id\": \"g\", \"name\": \"G\", \"keys\": [\"k\"]}],\n  \"labels\": {\
         \"a\": \"A\", \"b\": {\"name\":\"B\"}}\n}\n"
    ));
    let back: serde_json::Value = serde_json::from_str(&meta).unwrap();
    assert_eq!(back["columns"].as_array().unwrap().len(), 30);
    assert_eq!(back["count_columns"].as_array().unwrap().len(), 22);
}

#[test]
fn the_index_reads_back_as_what_it_lists() {
    let odd = "a\"b\\c\n\u{1}\u{1f600}/";
    let years = vec![YearRows { year: -3, rows: 0 }, YearRows { year: 2023, rows: 10 }];
    let link = |key: &str, id: &str| Link { rds_key: key.to_string(), group_id: id.to_string() };
    let links = vec![link("k", odd), link(odd, odd), link("l", "z")];
    let names = vec![GroupName { group_id: odd.to_string(), name: odd.to_string() }];
    let file = "{\"x\": {\"name\": \"\\u00e9\\b\", \"f\": [1.5, -0.25e-9, 1e300, null, true]}, \"y\\\"\": [{}, []]}";
    let labels = read_labels(file).ok().unwrap();
    for l in &labels {
        assert!(serde_json::from_str::<serde_json::Value>(&l.json).is_ok());
    }
    let meta = meta_json(&vec![odd.to_string()], &years, &links, &names, &labels);
    let back: serde_json::Value = serde_json::from_str(&meta).unwrap();
    let keys: Vec<&String> = back.as_object().unwrap().keys().collect();
    assert_eq!(keys.len(), 7);
    let columns: Vec<&str> =
        back["columns"].as_array().unwrap().iter().map(|c| c.as_str().unwrap()).collect();
    assert_eq!(columns, column_names());
    let counts: Vec<&str> =
        back["count_columns"].as_array().unwrap().iter().map(|c| c.as_str().unwrap()).collect();
    assert_eq!(counts[..], columns[7..29]);
    assert_eq!(back["states"].as_array().unwrap().len(), 1);
    assert_eq!(back["states"][0].as_str(), Some(odd));
    assert_eq!(back["years"][0]["year"].as_i64(), Some(-3));
    assert_eq!(back["years"][0]["rows"].as_i64(), Some(0));
    assert_eq!(back["years"][0]["file"].as_str(), Some("afmer--3.json.gz"));
    assert_eq!(back["years"][1]["file"].as_str(), Some("afmer-2023.json.gz"));
    assert_eq!(back["total_rows"].as_i64(), Some(10));
    assert_eq!(back["groups"][0]["id"].as_str(), Some(odd));
    assert_eq!(back["groups"][0]["name"].as_str(), Some(odd));
    assert_eq!(back["groups"][0]["keys"].as_array().unwrap().len(), 2);
    assert_eq!(back["groups"][1]["id"].as_str(), Some("z"));
    let expected: serde_json::Value = serde_json::from_str(file).unwrap();
    assert_eq!(back["labels"], expected);
    let empty = meta_json(&vec![], &vec![], &vec![], &vec![], &vec![]);
    let back: serde_json::Value = serde_json::from_str(&empty).unwrap();
    assert_eq!(back["years"].as_array().unwrap().len(), 0);
    assert_eq!(back["total_rows"].as_i64(), Some(0));
    assert_eq!(back["labels"].as_object().unwrap().len(), 0);
}

fn run_on(conn: &rusqlite::Connection, changes: &Vec<Change>) {
    for c in changes {
        let s = statement(c);
        let values: Vec<rusqlite::types::Value> = s
            .values
            .iter()
            .map(|v| match v {
                SqlValue::Null => rusqlite::types::Value::Null,
                SqlValue::Int(n) => rusqlite::types::Value::Integer(*n),
                SqlValue::Text(t) => rusqlite::types::Value::Text(t.clone()),
            })
            .collect();
        conn.execute(&s.sql, rusqlite::params_from_iter(values.iter())).unwrap();
    }
}

#[test]
fn enriched_rows_find_their_version() {
    let conn = rusqlite::Connection::open_in_memory().unwrap();
    conn.execute_batch(&schema_sql()).unwrap();
    let rec = |name: &str| FflRecord {
        lic_regn: "1".to_string(),
        lic_dist: "66".to_string(),
        lic_seqn: "332".to_string(),
        license_name: name.to_string(),
        ..Default::default()
    };
    let store = FflStore::new()
        .add_snapshot("2020-01", "a", 2020, vec![rec("OLD"), rec("OLDER")])
        .add_snapshot("2023-01", "b", 2023, vec![rec("NEW")]);
    run_on(&conn, &write_ffl(&store));
    let seen = store.version_for_year("16600332", 2023).unwrap().first_seen.clone();
    run_on(&conn, &write_afmer(2023, "f", &vec![row("16600332", Some(&seen))]));
    let text = |sql: &str| conn.query_row(sql, [], |r| r.get::<_, String>(0)).unwrap();
    assert_eq!(text("SELECT ffl_license_name FROM afmer_enriched"), "NEW");
    assert_eq!(text("SELECT license_name FROM ffl_version WHERE first_seen = '2020-01'"), "OLDER");
    assert_eq!(text("SELECT license_name FROM ffl_current"), "NEW");
}

#[test]
fn stored_labels_and_links_follow_their_files() {
    let conn = rusqlite::Connection::open_in_memory().unwrap();
    conn.execute_batch(&schema_sql()).unwrap();
    let label = |code: &str, name: &str| Label {
        code: code.to_string(),
        name: name.to_string(),
        json: "{}".to_string(),
    };
    run_on(&conn, &write_labels(&vec![label("a", "A"), label("b", "B")]));
    run_on(&conn, &write_labels(&vec![label("b", "C")]));
    let text = |sql: &str| conn.query_row(sql, [], |r| r.get::<_, String>(0)).unwrap();
    assert_eq!(text("SELECT name FROM label WHERE code = 'a'"), "A");
    assert_eq!(text("SELECT name FROM label WHERE code = 'b'"), "C");
    let link = |key: &str, id: &str| Link { rds_key: key.to_string(), group_id: id.to_string() };
    let links = Links { links: vec![link("k", "g"), link("k", "h")], names: vec![] };
    run_on(&conn, &write_links(&links));
    assert_eq!(text("SELECT group_id FROM rds_link WHERE rds_key = 'k'"), "h");
}

#[test]
fn snapshot_files_of_one_month_are_all_noted() {
    let conn = rusqlite::Connection::open_in_memory().unwrap();
    conn.execute_batch(&schema_sql()).unwrap();
    let recs = |n: u32| {
        (0..n)
            .map(|i| FflRecord {
                lic_regn: "1".to_string(),
                lic_dist: "66".to_string(),
                lic_seqn: i.to_string(),
                ..Default::default()
            })
            .collect::<Vec<FflRecord>>()
    };
    let store = FflStore::new()
        .add_snapshot("2023-01", "0123-ffl-list.csv", 2023, recs(3))
        .add_snapshot("2023-01", "rds-2023.csv", 2023, recs(5));
    run_on(&conn, &write_ffl(&store));
    run_on(&conn, &write_ffl(&store));
    let mut stmt = conn
        .prepare("SELECT snapshot, source_file, row_count FROM ffl_snapshot ORDER BY source_file")
        .unwrap();
    let rows: Vec<(String, String, i64)> = stmt
        .query_map([], |r| Ok((r.get(0)?, r.get(1)?, r.get(2)?)))
        .unwrap()
        .map(|r| r.unwrap())
        .collect();
    assert_eq!(
        rows,
        vec![
            ("2023-01".to_string(), "0123-ffl-list.csv".to_string(), 3),
            ("2023-01".to_string(), "rds-2023.csv".to_string(), 5),
        ]
    );
}

#[test]
fn the_views_show_what_is_stored() {
    let conn = rusqlite::Connection::open_in_memory().unwrap();
    conn.execute_batch(&schema_sql()).unwrap();
    let rec = |seqn: &str, name: &str| FflRecord {
        lic_regn: "1".to_string(),
        lic_dist: "66".to_string(),
        lic_seqn: seqn.to_string(),
        license_name: name.to_string(),
        ..Default::default()
    };
    let store = FflStore::new()
        .add_snapshot("2020-01", "a", 2020, vec![rec("1", "A"), rec("2", "X")])
        .add_snapshot("2021-01", "b", 2021, vec![rec("1", "B"), rec("2", "X")])
        .add_snapshot("2022-01", "c", 2022, vec![rec("1", "C")]);
    run_on(&conn, &write_ffl(&store));
    let rows = vec![row("16600001", Some("2021-01")), row("16600001", None), row("k", Some("2020-01"))];
    run_on(&conn, &write_afmer(2021, "f", &rows));
    let links = Links {
        links: vec![Link { rds_key: "16600001".to_string(), group_id: "g".to_string() }],
        names: vec![GroupName { group_id: "g".to_string(), name: "G".to_string() }],
    };
    run_on(&conn, &write_links(&links));
    conn.execute_batch(&schema_sql()).unwrap();
    let texts = |sql: &str| {
        let mut stmt = conn.prepare(sql).unwrap();
        let n = stmt.column_count();
        let rows = stmt
            .query_map([], |r| {
                let mut cells: Vec<String> = Vec::new();
                for i in 0..n {
                    cells.push(r.get::<_, Option<String>>(i)?.unwrap_or("-".to_string()));
                }
                Ok(cells.join(" "))
            })
            .unwrap();
        rows.map(|r| r.unwrap()).collect::<Vec<String>>()
    };
    assert_eq!(
        texts("SELECT rds_key, license_name FROM ffl_current ORDER BY rds_key"),
        vec!["16600001 C", "16600002 X"]
    );
    assert_eq!(
        texts("SELECT rds_key, CAST(versions AS TEXT), first_seen, last_seen FROM ffl_changes"),
        vec!["16600001 3 2020-01 2022-01"]
    );
    assert_eq!(
        texts("SELECT rds_key, ffl_license_name FROM afmer_enriched ORDER BY row_id"),
        vec!["16600001 B", "16600001 -", "k -"]
    );
    assert_eq!(
        texts("SELECT rds_key, group_key, group_name FROM afmer_grouped ORDER BY row_id"),
        vec!["16600001 g G", "16600001 g G", "k k -"]
    );
}
