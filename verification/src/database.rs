//! The tables of the database, the changes that are made to them and the SQL of
//! each change.

use crate::columns::{count_col, count_names, COUNT_COLS};
use crate::ffl::{
    chain_text, FflRecord, FflStore, FflVersion, License, SnapshotMeta, SnapshotText, VersionText,
    Versions,
};
use crate::labels::{label_texts, Label, LabelText};
use crate::links::{GroupName, Link, Links, LinksText};
use crate::number::{decimal, decimal_of};
use crate::pdf::{row_texts, source_label, AfmerRow, RowText};
use crate::text::{join, join_all, push_text, texts};
use vstd::prelude::*;

verus! {

/// The schema up to the count columns of the report table.
pub const SCHEMA_HEAD: &'static str = "
        CREATE TABLE IF NOT EXISTS ffl_snapshot (
            snapshot    TEXT NOT NULL,
            source_file TEXT NOT NULL,
            row_count   INTEGER NOT NULL,
            PRIMARY KEY (snapshot, source_file)
        );

        -- Friendly names for column/activity codes, seeded from activity-labels.json
        -- and kept in the DB for continuity. `json` holds the full label object.
        CREATE TABLE IF NOT EXISTS label (
            code TEXT PRIMARY KEY,
            name TEXT NOT NULL,
            json TEXT NOT NULL
        );

        CREATE TABLE IF NOT EXISTS ffl_version (
            rds_key        TEXT NOT NULL,
            version_seq    INTEGER NOT NULL,
            first_seen     TEXT NOT NULL,
            last_seen      TEXT NOT NULL,
            lic_regn       TEXT, lic_dist TEXT, lic_cnty TEXT, lic_type TEXT,
            lic_xprdte     TEXT, lic_seqn TEXT,
            license_name   TEXT, business_name TEXT,
            premise_street TEXT, premise_city TEXT, premise_state TEXT, premise_zip TEXT,
            mail_street    TEXT, mail_city TEXT, mail_state TEXT, mail_zip TEXT,
            voice_phone    TEXT,
            PRIMARY KEY (rds_key, first_seen)
        );
        CREATE INDEX IF NOT EXISTS idx_ffl_version_key ON ffl_version(rds_key);

        -- A license may file more than one line in a year (e.g. separate 07/10
        -- licenses share an RDS key), so the key is a surrogate id and several
        -- rows per (source_year, rds_key) are allowed — matching the source.
        CREATE TABLE IF NOT EXISTS afmer (
            row_id            INTEGER PRIMARY KEY AUTOINCREMENT,
            source_year       INTEGER NOT NULL,
            source_file       TEXT NOT NULL,
            rds_key           TEXT NOT NULL,
            app_lic_type      TEXT,
            app_license_name  TEXT,
            app_premise_street TEXT,
            app_premise_city  TEXT,
            app_premise_state TEXT,
";

/// The schema behind the count columns.
pub const SCHEMA_TAIL: &'static str = "
            ffl_version_first_seen TEXT,
            name_source       TEXT NOT NULL
        );
        CREATE INDEX IF NOT EXISTS idx_afmer_year_key ON afmer(source_year, rds_key);

        -- Manually curated links between RDS keys that belong to the same
        -- manufacturer (e.g. a licensee re-issued a new key after a region or
        -- ownership change). `group_id` is the cluster's canonical key; a key
        -- with no link is simply its own group.
        CREATE TABLE IF NOT EXISTS rds_link (
            rds_key  TEXT PRIMARY KEY,
            group_id TEXT NOT NULL
        );
        CREATE INDEX IF NOT EXISTS idx_rds_link_group ON rds_link(group_id);

        -- Optional friendly name for a linked group (e.g. Sturm Ruger
        -- Aggregate), keyed by the cluster's canonical group_id.
        CREATE TABLE IF NOT EXISTS rds_group (
            group_id TEXT PRIMARY KEY,
            name     TEXT NOT NULL
        );

        -- Latest known metadata per license.
        CREATE VIEW IF NOT EXISTS ffl_current AS
            SELECT v.*
            FROM ffl_version v
            JOIN (SELECT rds_key, MAX(version_seq) AS ms FROM ffl_version GROUP BY rds_key) m
              ON v.rds_key = m.rds_key AND v.version_seq = m.ms;

        -- Licenses whose metadata changed at least once across snapshots.
        CREATE VIEW IF NOT EXISTS ffl_changes AS
            SELECT rds_key,
                   COUNT(*)        AS versions,
                   MIN(first_seen) AS first_seen,
                   MAX(last_seen)  AS last_seen
            FROM ffl_version
            GROUP BY rds_key
            HAVING COUNT(*) > 1;

        -- AFMER rows joined to the FFL version effective for the report year.
        CREATE VIEW IF NOT EXISTS afmer_enriched AS
            SELECT a.*,
                   v.license_name   AS ffl_license_name,
                   v.business_name  AS ffl_business_name,
                   v.premise_street AS ffl_premise_street,
                   v.premise_city   AS ffl_premise_city,
                   v.premise_state  AS ffl_premise_state,
                   v.premise_zip    AS ffl_premise_zip,
                   v.lic_cnty       AS ffl_lic_cnty,
                   v.lic_xprdte     AS ffl_lic_xprdte,
                   v.voice_phone    AS ffl_voice_phone
            FROM afmer a
            LEFT JOIN ffl_version v
              ON v.rds_key = a.rds_key AND v.first_seen = a.ffl_version_first_seen;

        -- AFMER rows with a stable grouping key: the linked group when one
        -- exists, else the row's own RDS key, plus the group's friendly name
        -- when one was supplied. Aggregating by `group_key` rolls up a
        -- manufacturer's full history across re-issued keys.
        CREATE VIEW IF NOT EXISTS afmer_grouped AS
            SELECT a.*,
                   COALESCE(l.group_id, a.rds_key) AS group_key,
                   g.name AS group_name
            FROM afmer a
            LEFT JOIN rds_link l ON l.rds_key = a.rds_key
            LEFT JOIN rds_group g ON g.group_id = COALESCE(l.group_id, a.rds_key);
        ";

pub const CLEAR_YEAR_SQL: &'static str = "DELETE FROM afmer WHERE source_year = ?1";

pub const CLEAR_LINKS_SQL: &'static str = "DELETE FROM rds_link";

pub const CLEAR_GROUPS_SQL: &'static str = "DELETE FROM rds_group";

pub const LINK_SQL: &'static str = "INSERT OR REPLACE INTO rds_link (rds_key, group_id) VALUES (?1, ?2)";

pub const GROUP_SQL: &'static str = "INSERT OR REPLACE INTO rds_group (group_id, name) VALUES (?1, ?2)";

pub const LABEL_SQL: &'static str = "INSERT OR REPLACE INTO label (code, name, json) VALUES (?1, ?2, ?3)";

pub const SNAPSHOT_SQL: &'static str = "INSERT OR REPLACE INTO ffl_snapshot (snapshot, source_file, row_count)
             VALUES (?1, ?2, ?3)";

pub const VERSION_SQL: &'static str = "INSERT OR REPLACE INTO ffl_version (
                rds_key, version_seq, first_seen, last_seen,
                lic_regn, lic_dist, lic_cnty, lic_type, lic_xprdte, lic_seqn,
                license_name, business_name,
                premise_street, premise_city, premise_state, premise_zip,
                mail_street, mail_city, mail_state, mail_zip, voice_phone
             ) VALUES (
                ?1, ?2, ?3, ?4, ?5, ?6, ?7, ?8, ?9, ?10,
                ?11, ?12, ?13, ?14, ?15, ?16, ?17, ?18, ?19, ?20, ?21
             )";

/// The insertion of a report row up to the count columns.
pub const INSERT_HEAD: &'static str = "INSERT INTO afmer (
            source_year, source_file, rds_key, app_lic_type,
            app_license_name, app_premise_street, app_premise_city, app_premise_state,
            ";

/// The insertion of a report row between the count columns and the values.
pub const INSERT_MIDDLE: &'static str = ",
            ffl_version_first_seen, name_source
         ) VALUES (";

/// The query for the rows of a year up to the count columns.
pub const SELECT_HEAD: &'static str = "SELECT source_year, rds_key, app_lic_type, app_license_name, app_premise_street, app_premise_city, app_premise_state, ";

/// The query for the rows of a year behind the count columns.
pub const SELECT_TAIL: &'static str = ", name_source FROM afmer WHERE source_year = ?1 ORDER BY rds_key";

/// The query for the number of rows of a year.
pub const YEAR_COUNT_SQL: &'static str = "SELECT COUNT(*) FROM afmer WHERE source_year = ?1";

/// The query for the years that have rows.
pub const YEARS_SQL: &'static str = "SELECT DISTINCT source_year FROM afmer ORDER BY source_year";

/// The query for the states that rows name.
pub const STATES_SQL: &'static str = "SELECT DISTINCT app_premise_state FROM afmer WHERE app_premise_state <> '' ORDER BY app_premise_state";

/// The query for the labels.
pub const LABELS_SQL: &'static str = "SELECT code, name, json FROM label ORDER BY code";

/// The query for the names of the groups.
pub const GROUP_NAMES_SQL: &'static str = "SELECT group_id, name FROM rds_group";

/// The query for the linked keys.
pub const LINKS_SQL: &'static str = "SELECT rds_key, group_id FROM rds_link ORDER BY group_id, rds_key";

/// A value of a statement.
pub enum SqlValue {
    Null,
    Int(i64),
    Text(String),
}

/// What a value of a statement holds.
pub enum SqlText {
    Null,
    Int(i64),
    Text(Seq<char>),
}

impl View for SqlValue {
    type V = SqlText;

    open spec fn view(&self) -> SqlText {
        match self {
            SqlValue::Null => SqlText::Null,
            SqlValue::Int(n) => SqlText::Int(*n),
            SqlValue::Text(s) => SqlText::Text(s@),
        }
    }
}

pub open spec fn value_texts(v: Seq<SqlValue>) -> Seq<SqlText> {
    Seq::new(v.len(), |i: int| v[i]@)
}

/// A statement with the values of its placeholders.
pub struct Statement {
    pub sql: String,
    pub values: Vec<SqlValue>,
}

/// What a statement holds.
pub struct StatementText {
    pub sql: Seq<char>,
    pub values: Seq<SqlText>,
}

impl View for Statement {
    type V = StatementText;

    open spec fn view(&self) -> StatementText {
        StatementText { sql: self.sql@, values: value_texts(self.values@) }
    }
}

/// A change to the tables.
pub enum Change<'a> {
    /// Removes the report rows of a year.
    ClearYear(i32),
    /// Adds a report row.
    AddRow { year: i32, source_file: &'a str, row: &'a AfmerRow },
    /// Removes all linked keys.
    ClearLinks,
    /// Removes all names of groups.
    ClearGroupNames,
    /// Links a key to a group.
    SetLink(&'a Link),
    /// Names a group.
    SetGroupName(&'a GroupName),
    /// Labels a code.
    SetLabel(&'a Label),
    /// Notes a snapshot of the license list.
    SetSnapshot(&'a SnapshotMeta),
    /// Stores a version of a license.
    SetVersion { rds_key: &'a String, version: &'a FflVersion },
}

/// What a change holds.
pub enum ChangeText {
    ClearYear(i32),
    AddRow(StoredRow),
    ClearLinks,
    ClearGroupNames,
    SetLink(Seq<char>, Seq<char>),
    SetGroupName(Seq<char>, Seq<char>),
    SetLabel(LabelText),
    SetSnapshot(SnapshotText),
    SetVersion(Seq<char>, VersionText),
}

/// A row of the report table.
pub struct StoredRow {
    pub year: i32,
    pub source_file: Seq<char>,
    pub row: RowText,
}

impl<'a> View for Change<'a> {
    type V = ChangeText;

    open spec fn view(&self) -> ChangeText {
        match self {
            Change::ClearYear(year) => ChangeText::ClearYear(*year),
            Change::AddRow { year, source_file, row } => ChangeText::AddRow(
                StoredRow { year: *year, source_file: source_file@, row: row@ },
            ),
            Change::ClearLinks => ChangeText::ClearLinks,
            Change::ClearGroupNames => ChangeText::ClearGroupNames,
            Change::SetLink(link) => ChangeText::SetLink(link.rds_key@, link.group_id@),
            Change::SetGroupName(name) => ChangeText::SetGroupName(name.group_id@, name.name@),
            Change::SetLabel(label) => ChangeText::SetLabel(label@),
            Change::SetSnapshot(snap) => ChangeText::SetSnapshot(snap@),
            Change::SetVersion { rds_key, version } => ChangeText::SetVersion(rds_key@, version@),
        }
    }
}

pub open spec fn change_texts(v: Seq<Change>) -> Seq<ChangeText> {
    Seq::new(v.len(), |i: int| v[i]@)
}

/// The contents of the tables.
pub struct Tables {
    /// The report rows in the order in which they were added.
    pub rows: Seq<StoredRow>,
    /// The groups of the linked keys.
    pub links: Map<Seq<char>, Seq<char>>,
    /// The names of the groups.
    pub group_names: Map<Seq<char>, Seq<char>>,
    /// The labels by code.
    pub labels: Map<Seq<char>, LabelText>,
    /// The snapshots by label and source file.
    pub snapshots: Map<(Seq<char>, Seq<char>), SnapshotText>,
    /// The versions of the licenses by key and first snapshot.
    pub versions: Map<(Seq<char>, Seq<char>), VersionText>,
}

/// The report rows of a year.
pub open spec fn rows_of_year(rows: Seq<StoredRow>, year: i32) -> Seq<StoredRow>
    decreases rows.len(),
{
    if rows.len() == 0 {
        Seq::empty()
    } else {
        let before = rows_of_year(rows.drop_last(), year);
        if rows.last().year == year {
            before.push(rows.last())
        } else {
            before
        }
    }
}

/// The report rows of all other years.
pub open spec fn rows_of_other_years(rows: Seq<StoredRow>, year: i32) -> Seq<StoredRow>
    decreases rows.len(),
{
    if rows.len() == 0 {
        Seq::empty()
    } else {
        let before = rows_of_other_years(rows.drop_last(), year);
        if rows.last().year == year {
            before
        } else {
            before.push(rows.last())
        }
    }
}

/// The tables after a change.
pub open spec fn changed(t: Tables, c: ChangeText) -> Tables {
    match c {
        ChangeText::ClearYear(year) => Tables { rows: rows_of_other_years(t.rows, year), ..t },
        ChangeText::AddRow(row) => Tables { rows: t.rows.push(row), ..t },
        ChangeText::ClearLinks => Tables { links: Map::empty(), ..t },
        ChangeText::ClearGroupNames => Tables { group_names: Map::empty(), ..t },
        ChangeText::SetLink(key, id) => Tables { links: t.links.insert(key, id), ..t },
        ChangeText::SetGroupName(id, name) => Tables {
            group_names: t.group_names.insert(id, name),
            ..t
        },
        ChangeText::SetLabel(label) => Tables { labels: t.labels.insert(label.code, label), ..t },
        ChangeText::SetSnapshot(snap) => Tables {
            snapshots: t.snapshots.insert((snap.label, snap.source_file), snap),
            ..t
        },
        ChangeText::SetVersion(key, version) => Tables {
            versions: t.versions.insert((key, version.first_seen), version),
            ..t
        },
    }
}

/// The tables after some changes, one after the other.
pub open spec fn after_all(t: Tables, changes: Seq<ChangeText>) -> Tables
    decreases changes.len(),
{
    if changes.len() == 0 {
        t
    } else {
        changed(after_all(t, changes.drop_last()), changes.last())
    }
}

/// The changes that replace the rows of a year.
pub open spec fn reload(year: i32, source_file: Seq<char>, rows: Seq<RowText>) -> Seq<ChangeText> {
    seq![ChangeText::ClearYear(year)] + Seq::new(
        rows.len(),
        |i: int| ChangeText::AddRow(StoredRow { year, source_file, row: rows[i] }),
    )
}

/// The changes that replace all linked keys and names of groups.
pub open spec fn relink(links: LinksText) -> Seq<ChangeText> {
    seq![ChangeText::ClearLinks, ChangeText::ClearGroupNames] + Seq::new(
        links.links.len(),
        |i: int| ChangeText::SetLink(links.links[i].0, links.links[i].1),
    ) + Seq::new(
        links.names.len(),
        |i: int| ChangeText::SetGroupName(links.names[i].0, links.names[i].1),
    )
}

/// The changes that store labels.
pub open spec fn label_changes(labels: Seq<LabelText>) -> Seq<ChangeText> {
    Seq::new(labels.len(), |i: int| ChangeText::SetLabel(labels[i]))
}

/// The changes that note snapshots.
pub open spec fn snapshot_changes(snapshots: Seq<SnapshotText>) -> Seq<ChangeText> {
    Seq::new(snapshots.len(), |i: int| ChangeText::SetSnapshot(snapshots[i]))
}

/// The changes that store the versions of a license.
pub open spec fn chain_changes(key: Seq<char>, chain: Seq<VersionText>) -> Seq<ChangeText> {
    Seq::new(chain.len(), |i: int| ChangeText::SetVersion(key, chain[i]))
}

/// The changes that store the versions of some licenses, one after the other.
pub open spec fn version_changes(versions: Versions, keys: Seq<Seq<char>>) -> Seq<ChangeText>
    decreases keys.len(),
{
    if keys.len() == 0 {
        Seq::empty()
    } else {
        version_changes(versions, keys.drop_last()) + chain_changes(
            keys.last(),
            versions[keys.last()],
        )
    }
}

/// Whether the keys are those of the licenses, each once.
pub open spec fn lists_all(keys: Seq<Seq<char>>, versions: Versions) -> bool {
    &&& forall|i: int, j: int| 0 <= i < j < keys.len() ==> #[trigger] keys[i] != #[trigger] keys[j]
    &&& forall|i: int| 0 <= i < keys.len() ==> versions.contains_key(#[trigger] keys[i])
    &&& forall|k: Seq<char>| #[trigger] versions.contains_key(k) ==> keys.contains(k)
}

/// The list of the count columns.
pub open spec fn count_list() -> Seq<char> {
    join(Seq::new(22, |i: int| count_col(i)), ", "@)
}

/// The schema of the database, with a column for each count.
pub open spec fn schema_text() -> Seq<char> {
    SCHEMA_HEAD@ + join(
        Seq::new(22, |i: int| "  "@ + count_col(i) + " INTEGER NOT NULL DEFAULT 0,"@),
        "\n"@,
    ) + SCHEMA_TAIL@
}

/// The insertion of a report row, with a placeholder for each value.
pub open spec fn insert_text() -> Seq<char> {
    INSERT_HEAD@ + count_list() + INSERT_MIDDLE@ + join(
        Seq::new(32, |i: int| "?"@ + decimal((i + 1) as nat)),
        ", "@,
    ) + ")"@
}

/// The query for the rows of a year.
pub open spec fn select_text() -> Seq<char> {
    SELECT_HEAD@ + count_list() + SELECT_TAIL@
}

/// The values of a report row: eight in front of the counts and two behind them.
pub open spec fn row_values(r: StoredRow) -> Seq<SqlText> {
    Seq::new(
        32,
        |i: int|
            if i == 0 {
                SqlText::Int(r.year as i64)
            } else if i == 1 {
                SqlText::Text(r.source_file)
            } else if i == 2 {
                SqlText::Text(r.row.rds_key)
            } else if i == 3 {
                SqlText::Text(r.row.app_lic_type)
            } else if i == 4 {
                SqlText::Text(r.row.app_license_name)
            } else if i == 5 {
                SqlText::Text(r.row.app_premise_street)
            } else if i == 6 {
                SqlText::Text(r.row.app_premise_city)
            } else if i == 7 {
                SqlText::Text(r.row.app_premise_state)
            } else if i < 30 {
                SqlText::Int(r.row.counts[i - 8])
            } else if i == 30 {
                match r.row.ffl_version_first_seen {
                    Some(s) => SqlText::Text(s),
                    None => SqlText::Null,
                }
            } else {
                SqlText::Text(source_label(r.row.name_source))
            },
    )
}

/// The values of a version of a license.
pub open spec fn version_values(key: Seq<char>, v: VersionText) -> Seq<SqlText> {
    let r = v.record;
    seq![
        SqlText::Text(key),
        SqlText::Int(v.seq as i64),
        SqlText::Text(v.first_seen),
        SqlText::Text(v.last_seen),
        SqlText::Text(r.lic_regn),
        SqlText::Text(r.lic_dist),
        SqlText::Text(r.lic_cnty),
        SqlText::Text(r.lic_type),
        SqlText::Text(r.lic_xprdte),
        SqlText::Text(r.lic_seqn),
        SqlText::Text(r.license_name),
        SqlText::Text(r.business_name),
        SqlText::Text(r.premise_street),
        SqlText::Text(r.premise_city),
        SqlText::Text(r.premise_state),
        SqlText::Text(r.premise_zip),
        SqlText::Text(r.mail_street),
        SqlText::Text(r.mail_city),
        SqlText::Text(r.mail_state),
        SqlText::Text(r.mail_zip),
        SqlText::Text(r.voice_phone),
    ]
}

/// The statement that makes a change.
pub open spec fn change_statement(c: ChangeText) -> StatementText {
    match c {
        ChangeText::ClearYear(year) => StatementText {
            sql: CLEAR_YEAR_SQL@,
            values: seq![SqlText::Int(year as i64)],
        },
        ChangeText::AddRow(row) => StatementText { sql: insert_text(), values: row_values(row) },
        ChangeText::ClearLinks => StatementText { sql: CLEAR_LINKS_SQL@, values: Seq::empty() },
        ChangeText::ClearGroupNames => StatementText {
            sql: CLEAR_GROUPS_SQL@,
            values: Seq::empty(),
        },
        ChangeText::SetLink(key, id) => StatementText {
            sql: LINK_SQL@,
            values: seq![SqlText::Text(key), SqlText::Text(id)],
        },
        ChangeText::SetGroupName(id, name) => StatementText {
            sql: GROUP_SQL@,
            values: seq![SqlText::Text(id), SqlText::Text(name)],
        },
        ChangeText::SetLabel(label) => StatementText {
            sql: LABEL_SQL@,
            values: seq![
                SqlText::Text(label.code),
                SqlText::Text(label.name),
                SqlText::Text(label.json),
            ],
        },
        ChangeText::SetSnapshot(snap) => StatementText {
            sql: SNAPSHOT_SQL@,
            values: seq![
                SqlText::Text(snap.label),
                SqlText::Text(snap.source_file),
                SqlText::Int(snap.row_count as i64),
            ],
        },
        ChangeText::SetVersion(key, v) => StatementText {
            sql: VERSION_SQL@,
            values: version_values(key, v),
        },
    }
}

/// The statements that create the tables and views.
pub fn schema_sql() -> (r: String)
    ensures
        r@ == schema_text(),
{
    let ghost all = Seq::new(22, |i: int| "  "@ + count_col(i) + " INTEGER NOT NULL DEFAULT 0,"@);
    let mut parts: Vec<String> = Vec::new();
    let mut i: usize = 0;
    while i < 22
        invariant
            i <= 22,
            all == Seq::new(22, |i: int| "  "@ + count_col(i) + " INTEGER NOT NULL DEFAULT 0,"@),
            texts(parts@) == all.take(i as int),
        decreases 22 - i,
    {
        let mut part = "  ".to_owned();
        part.append(COUNT_COLS[i]);
        part.append(" INTEGER NOT NULL DEFAULT 0,");
        push_text(&mut parts, part);
        i += 1;
        assert(texts(parts@) == all.take(i as int));
    }
    assert(all.take(22) == all);
    let mut out = SCHEMA_HEAD.to_owned();
    out.append(join_all(&parts, "\n").as_str());
    out.append(SCHEMA_TAIL);
    out
}

fn insert_sql() -> (r: String)
    ensures
        r@ == insert_text(),
{
    let ghost all = Seq::new(32, |i: int| "?"@ + decimal((i + 1) as nat));
    let mut parts: Vec<String> = Vec::new();
    let mut i: usize = 0;
    while i < 32
        invariant
            i <= 32,
            all == Seq::new(32, |i: int| "?"@ + decimal((i + 1) as nat)),
            texts(parts@) == all.take(i as int),
        decreases 32 - i,
    {
        let mut part = "?".to_owned();
        part.append(decimal_of((i + 1) as u64).as_str());
        push_text(&mut parts, part);
        i += 1;
        assert(texts(parts@) == all.take(i as int));
    }
    assert(all.take(32) == all);
    let mut out = INSERT_HEAD.to_owned();
    out.append(join_all(&count_names(), ", ").as_str());
    out.append(INSERT_MIDDLE);
    out.append(join_all(&parts, ", ").as_str());
    out.append(")");
    out
}

/// The query for the rows of a year in the order of their keys.
pub fn select_sql() -> (r: String)
    ensures
        r@ == select_text(),
{
    let mut out = SELECT_HEAD.to_owned();
    out.append(join_all(&count_names(), ", ").as_str());
    out.append(SELECT_TAIL);
    out
}

fn push_value(out: &mut Vec<SqlValue>, v: SqlValue)
    ensures
        value_texts(final(out)@) == value_texts(old(out)@).push(v@),
{
    let ghost before = value_texts(out@);
    let ghost text = v@;
    out.push(v);
    assert(value_texts(out@) == before.push(text));
}

fn push_string(out: &mut Vec<SqlValue>, s: &String)
    ensures
        value_texts(final(out)@) == value_texts(old(out)@).push(SqlText::Text(s@)),
{
    push_value(out, SqlValue::Text(s.clone()));
}

fn values_of_row(year: i32, source_file: &str, row: &AfmerRow) -> (r: Vec<SqlValue>)
    ensures
        value_texts(r@) == row_values(StoredRow { year, source_file: source_file@, row: row@ }),
{
    let ghost all = row_values(StoredRow { year, source_file: source_file@, row: row@ });
    let mut out: Vec<SqlValue> = Vec::new();
    assert(value_texts(out@) == Seq::<SqlText>::empty());
    push_value(&mut out, SqlValue::Int(year as i64));
    push_value(&mut out, SqlValue::Text(source_file.to_owned()));
    push_string(&mut out, &row.rds_key);
    push_string(&mut out, &row.app_lic_type);
    push_string(&mut out, &row.app_license_name);
    push_string(&mut out, &row.app_premise_street);
    push_string(&mut out, &row.app_premise_city);
    push_string(&mut out, &row.app_premise_state);
    assert(value_texts(out@) =~= all.take(8));
    let mut j: usize = 0;
    while j < 22
        invariant
            j <= 22,
            all == row_values(StoredRow { year, source_file: source_file@, row: row@ }),
            value_texts(out@) == all.take(8 + j as int),
        decreases 22 - j,
    {
        push_value(&mut out, SqlValue::Int(row.counts[j]));
        j += 1;
        assert(value_texts(out@) == all.take(8 + j as int));
    }
    match &row.ffl_version_first_seen {
        Some(s) => push_string(&mut out, s),
        None => push_value(&mut out, SqlValue::Null),
    }
    push_value(&mut out, SqlValue::Text(row.name_source.as_str().to_owned()));
    assert(value_texts(out@) =~= all);
    out
}

fn push_record(out: &mut Vec<SqlValue>, r: &FflRecord)
    ensures
        value_texts(final(out)@) == value_texts(old(out)@) + seq![
            SqlText::Text(r.lic_regn@),
            SqlText::Text(r.lic_dist@),
            SqlText::Text(r.lic_cnty@),
            SqlText::Text(r.lic_type@),
            SqlText::Text(r.lic_xprdte@),
            SqlText::Text(r.lic_seqn@),
            SqlText::Text(r.license_name@),
            SqlText::Text(r.business_name@),
            SqlText::Text(r.premise_street@),
            SqlText::Text(r.premise_city@),
            SqlText::Text(r.premise_state@),
            SqlText::Text(r.premise_zip@),
            SqlText::Text(r.mail_street@),
            SqlText::Text(r.mail_city@),
            SqlText::Text(r.mail_state@),
            SqlText::Text(r.mail_zip@),
            SqlText::Text(r.voice_phone@),
        ],
{
    push_string(out, &r.lic_regn);
    push_string(out, &r.lic_dist);
    push_string(out, &r.lic_cnty);
    push_string(out, &r.lic_type);
    push_string(out, &r.lic_xprdte);
    push_string(out, &r.lic_seqn);
    push_string(out, &r.license_name);
    push_string(out, &r.business_name);
    push_string(out, &r.premise_street);
    push_string(out, &r.premise_city);
    push_string(out, &r.premise_state);
    push_string(out, &r.premise_zip);
    push_string(out, &r.mail_street);
    push_string(out, &r.mail_city);
    push_string(out, &r.mail_state);
    push_string(out, &r.mail_zip);
    push_string(out, &r.voice_phone);
}

/// The statement that makes a change.
pub fn statement(c: &Change) -> (r: Statement)
    ensures
        r@ == change_statement(c@),
{
    let mut values: Vec<SqlValue> = Vec::new();
    assert(value_texts(values@) == Seq::<SqlText>::empty());
    let sql: String;
    match c {
        Change::ClearYear(year) => {
            push_value(&mut values, SqlValue::Int(*year as i64));
            sql = CLEAR_YEAR_SQL.to_owned();
        },
        Change::AddRow { year, source_file, row } => {
            values = values_of_row(*year, source_file, row);
            sql = insert_sql();
        },
        Change::ClearLinks => {
            sql = CLEAR_LINKS_SQL.to_owned();
        },
        Change::ClearGroupNames => {
            sql = CLEAR_GROUPS_SQL.to_owned();
        },
        Change::SetLink(link) => {
            push_string(&mut values, &link.rds_key);
            push_string(&mut values, &link.group_id);
            sql = LINK_SQL.to_owned();
        },
        Change::SetGroupName(name) => {
            push_string(&mut values, &name.group_id);
            push_string(&mut values, &name.name);
            sql = GROUP_SQL.to_owned();
        },
        Change::SetLabel(label) => {
            push_string(&mut values, &label.code);
            push_string(&mut values, &label.name);
            push_string(&mut values, &label.json);
            sql = LABEL_SQL.to_owned();
        },
        Change::SetSnapshot(snap) => {
            push_string(&mut values, &snap.label);
            push_string(&mut values, &snap.source_file);
            push_value(&mut values, SqlValue::Int(snap.row_count as i64));
            sql = SNAPSHOT_SQL.to_owned();
        },
        Change::SetVersion { rds_key, version } => {
            push_string(&mut values, rds_key);
            push_value(&mut values, SqlValue::Int(version.seq as i64));
            push_string(&mut values, &version.first_seen);
            push_string(&mut values, &version.last_seen);
            push_record(&mut values, &version.record);
            sql = VERSION_SQL.to_owned();
        },
    }
    assert(value_texts(values@) =~= change_statement(c@).values);
    Statement { sql, values }
}

/// The changes that store the rows of a report. Rows that were stored for its
/// year are replaced.
pub fn write_afmer<'a>(year: i32, source_file: &'a str, rows: &'a Vec<AfmerRow>) -> (r: Vec<
    Change<'a>,
>)
    ensures
        change_texts(r@) == reload(year, source_file@, row_texts(rows@)),
{
    let ghost all = reload(year, source_file@, row_texts(rows@));
    let mut out: Vec<Change<'a>> = Vec::new();
    out.push(Change::ClearYear(year));
    assert(change_texts(out@) =~= all.take(1));
    let mut i: usize = 0;
    while i < rows.len()
        invariant
            i <= rows@.len(),
            all == reload(year, source_file@, row_texts(rows@)),
            change_texts(out@) == all.take(1 + i as int),
        decreases rows@.len() - i,
    {
        let ghost before = change_texts(out@);
        let c = Change::AddRow { year, source_file, row: &rows[i] };
        let ghost text = c@;
        out.push(c);
        assert(change_texts(out@) == before.push(text));
        i += 1;
        assert(change_texts(out@) == all.take(1 + i as int));
    }
    assert(all.take(1 + i as int) == all);
    out
}

/// The changes that store a links file. It replaces all links that were stored.
pub fn write_links<'a>(links: &'a Links) -> (r: Vec<Change<'a>>)
    ensures
        change_texts(r@) == relink(links@),
{
    let ghost all = relink(links@);
    let mut out: Vec<Change<'a>> = Vec::new();
    out.push(Change::ClearLinks);
    out.push(Change::ClearGroupNames);
    assert(change_texts(out@) =~= all.take(2));
    let mut i: usize = 0;
    while i < links.links.len()
        invariant
            i <= links.links@.len(),
            all == relink(links@),
            change_texts(out@) == all.take(2 + i as int),
        decreases links.links@.len() - i,
    {
        let ghost before = change_texts(out@);
        let c = Change::SetLink(&links.links[i]);
        let ghost text = c@;
        out.push(c);
        assert(change_texts(out@) == before.push(text));
        assert(text == all[2 + i as int]);
        i += 1;
        assert(change_texts(out@) == all.take(2 + i as int));
    }
    let n: usize = i;
    let mut k: usize = 0;
    while k < links.names.len()
        invariant
            k <= links.names@.len(),
            n == links.links@.len(),
            all == relink(links@),
            change_texts(out@) == all.take(2 + n + k as int),
        decreases links.names@.len() - k,
    {
        let ghost before = change_texts(out@);
        let c = Change::SetGroupName(&links.names[k]);
        let ghost text = c@;
        out.push(c);
        assert(change_texts(out@) == before.push(text));
        assert(text == all[2 + n + k as int]);
        k += 1;
        assert(change_texts(out@) == all.take(2 + n + k as int));
    }
    assert(all.take(2 + n + k as int) == all);
    out
}

/// The changes that store labels. Labels of other codes stay.
pub fn write_labels<'a>(labels: &'a Vec<Label>) -> (r: Vec<Change<'a>>)
    ensures
        change_texts(r@) == label_changes(label_texts(labels@)),
{
    let ghost all = label_changes(label_texts(labels@));
    let mut out: Vec<Change<'a>> = Vec::new();
    let mut i: usize = 0;
    while i < labels.len()
        invariant
            i <= labels@.len(),
            all == label_changes(label_texts(labels@)),
            change_texts(out@) == all.take(i as int),
        decreases labels@.len() - i,
    {
        let ghost before = change_texts(out@);
        let c = Change::SetLabel(&labels[i]);
        let ghost text = c@;
        out.push(c);
        assert(change_texts(out@) == before.push(text));
        i += 1;
        assert(change_texts(out@) == all.take(i as int));
    }
    assert(all.take(i as int) == all);
    out
}

fn push_chain<'a>(out: &mut Vec<Change<'a>>, license: &'a License)
    ensures
        change_texts(final(out)@) == change_texts(old(out)@) + chain_changes(
            license.rds_key@,
            chain_text(license.chain@),
        ),
{
    let ghost before = change_texts(out@);
    let ghost all = chain_changes(license.rds_key@, chain_text(license.chain@));
    let mut i: usize = 0;
    assert(before + all.take(0) == before);
    while i < license.chain.len()
        invariant
            i <= license.chain@.len(),
            all == chain_changes(license.rds_key@, chain_text(license.chain@)),
            change_texts(out@) == before + all.take(i as int),
        decreases license.chain@.len() - i,
    {
        let ghost done = change_texts(out@);
        let c = Change::SetVersion { rds_key: &license.rds_key, version: &license.chain[i] };
        let ghost text = c@;
        out.push(c);
        assert(change_texts(out@) == done.push(text));
        i += 1;
        assert(change_texts(out@) == before + all.take(i as int));
    }
    assert(all.take(i as int) == all);
}

/// The changes that store the license dimension: its snapshots, then every
/// version of every license.
pub fn write_ffl<'a>(store: &'a FflStore) -> (r: Vec<Change<'a>>)
    ensures
        exists|keys: Seq<Seq<char>>| #[trigger]
            lists_all(keys, store@.versions) && change_texts(r@) == snapshot_changes(
                store@.snapshots,
            ) + version_changes(store@.versions, keys),
{
    let snapshots = store.snapshots();
    let ghost first = snapshot_changes(store@.snapshots);
    let mut out: Vec<Change<'a>> = Vec::new();
    let mut i: usize = 0;
    while i < snapshots.len()
        invariant
            i <= snapshots@.len(),
            store@.snapshots == Seq::new(snapshots@.len(), |i: int| snapshots@[i]@),
            first == snapshot_changes(store@.snapshots),
            change_texts(out@) == first.take(i as int),
        decreases snapshots@.len() - i,
    {
        let ghost before = change_texts(out@);
        let c = Change::SetSnapshot(&snapshots[i]);
        let ghost text = c@;
        out.push(c);
        assert(change_texts(out@) == before.push(text));
        i += 1;
        assert(change_texts(out@) == first.take(i as int));
    }
    assert(first.take(i as int) == first);
    let licenses = store.licenses();
    let ghost versions = store@.versions;
    let ghost keys = Seq::new(licenses@.len(), |i: int| licenses@[i].rds_key@);
    let mut k: usize = 0;
    assert(change_texts(out@) == first + version_changes(versions, keys.take(0)));
    while k < licenses.len()
        invariant
            k <= licenses@.len(),
            keys == Seq::new(licenses@.len(), |i: int| licenses@[i].rds_key@),
            forall|i: int| #![trigger licenses@[i]]
                0 <= i < licenses@.len() ==> versions.contains_key(licenses@[i].rds_key@)
                    && versions[licenses@[i].rds_key@] == chain_text(licenses@[i].chain@),
            change_texts(out@) == first + version_changes(versions, keys.take(k as int)),
        decreases licenses@.len() - k,
    {
        proof {
            let now = keys.take(k + 1);
            assert(now.drop_last() == keys.take(k as int));
            assert(now.last() == licenses@[k as int].rds_key@);
        }
        push_chain(&mut out, &licenses[k]);
        k += 1;
        assert(change_texts(out@) == first + version_changes(versions, keys.take(k as int)));
    }
    proof {
        assert(keys.take(k as int) == keys);
        assert forall|key: Seq<char>| #[trigger] versions.contains_key(key) implies keys.contains(
            key,
        ) by {
            let i = choose|i: int| 0 <= i < licenses@.len() && (#[trigger] licenses@[i]).rds_key@ == key;
            assert(keys[i] == key);
        }
        assert(lists_all(keys, versions));
    }
    out
}

} // verus!
