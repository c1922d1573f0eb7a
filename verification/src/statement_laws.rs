//! What the statements name, and what they are given for it.

use crate::columns::count_col;
use crate::database::{
    change_statement, select_text, ChangeText, SqlText, StoredRow, GROUP_NAMES_SQL, INSERT_HEAD,
    INSERT_MIDDLE, LABELS_SQL, LINKS_SQL, SELECT_HEAD, SELECT_TAIL, STATES_SQL, YEARS_SQL,
    YEAR_COUNT_SQL,
};
use crate::export::{export_columns, row_parts, ExportText};
use crate::ffl::{SnapshotText, VersionText};
use crate::jsonout::json_string;
use crate::labels::LabelText;
use crate::number::{decimal, decimal_int};
use crate::pdf::source_label;
use crate::statement_words::{
    lemma_words_of_clear_groups_sql, lemma_words_of_clear_links_sql,
    lemma_words_of_clear_year_sql, lemma_words_of_group_names_sql, lemma_words_of_group_sql,
    lemma_words_of_insert_head, lemma_words_of_insert_middle, lemma_words_of_label_sql,
    lemma_words_of_labels_sql, lemma_words_of_link_sql, lemma_words_of_links_sql,
    lemma_words_of_select_head, lemma_words_of_select_tail, lemma_words_of_snapshot_sql,
    lemma_words_of_states_sql, lemma_words_of_version_sql, lemma_words_of_year_count_sql,
    lemma_words_of_years_sql,
};
use crate::text::{join, words};
use vstd::prelude::*;

verus! {

/// The insertion of a report row names its columns, and at the place of each name
/// it is given the field of that name: the year and the file, the key, type, name,
/// street, city and state, the counts in the order of their columns, the snapshot
/// of the license version and the source of the name.
pub proof fn law_row_values_stand_under_their_names(r: StoredRow)
    ensures
        ({
            let s = change_statement(ChangeText::AddRow(r));
            let head = words(INSERT_HEAD@);
            let middle = words(INSERT_MIDDLE@);
            let v = s.values;
            &&& s.sql == INSERT_HEAD@ + join(Seq::new(22, |c: int| count_col(c)), ", "@)
                + INSERT_MIDDLE@ + join(Seq::new(32, |i: int| "?"@ + decimal((i + 1) as nat)), ", "@)
                + ")"@
            &&& v.len() == 32
            &&& head.len() == 12 && middle.len() == 6
            &&& head[0] == "INSERT"@ && head[1] == "INTO"@ && head[2] == "afmer"@ && head[3]
                == "("@
            &&& head[4] == "source_year,"@ && v[0] == SqlText::Int(r.year as i64)
            &&& head[5] == "source_file,"@ && v[1] == SqlText::Text(r.source_file)
            &&& head[6] == "rds_key,"@ && v[2] == SqlText::Text(r.row.rds_key)
            &&& head[7] == "app_lic_type,"@ && v[3] == SqlText::Text(r.row.app_lic_type)
            &&& head[8] == "app_license_name,"@ && v[4] == SqlText::Text(r.row.app_license_name)
            &&& head[9] == "app_premise_street,"@ && v[5] == SqlText::Text(
                r.row.app_premise_street,
            )
            &&& head[10] == "app_premise_city,"@ && v[6] == SqlText::Text(r.row.app_premise_city)
            &&& head[11] == "app_premise_state,"@ && v[7] == SqlText::Text(
                r.row.app_premise_state,
            )
            &&& forall|c: int| 0 <= c < 22 ==> #[trigger] v[8 + c] == SqlText::Int(r.row.counts[c])
            &&& middle[0] == ","@
            &&& middle[1] == "ffl_version_first_seen,"@ && v[30]
                == match r.row.ffl_version_first_seen {
                Some(label) => SqlText::Text(label),
                None => SqlText::Null,
            }
            &&& middle[2] == "name_source"@ && v[31] == SqlText::Text(
                source_label(r.row.name_source),
            )
            &&& middle[3] == ")"@ && middle[4] == "VALUES"@ && middle[5] == "("@
        }),
{
    lemma_words_of_insert_head();
    lemma_words_of_insert_middle();
}

/// The query for the rows of a year names, one for each column of the export and
/// in its order, the columns that the insertion filled: the year, the key, the
/// type, the name, the street, the city, the state, the counts and the source of
/// the name. A row of the export holds them in the same order.
pub proof fn law_export_reads_what_was_stored(r: ExportText)
    ensures
        ({
            let head = words(SELECT_HEAD@);
            let tail = words(SELECT_TAIL@);
            let stored = words(INSERT_HEAD@);
            let cols = export_columns();
            let parts = row_parts(r);
            &&& select_text() == SELECT_HEAD@ + join(Seq::new(22, |c: int| count_col(c)), ", "@)
                + SELECT_TAIL@
            &&& cols.len() == 30 && parts.len() == 30
            &&& head.len() == 8
            &&& head[0] == "SELECT"@
            &&& head[1] == stored[4] && cols[0] == "year"@ && parts[0] == decimal_int(r.year)
            &&& head[2] == stored[6] && cols[1] == "rds_key"@ && parts[1] == json_string(r.rds_key)
            &&& head[3] == stored[7] && cols[2] == "lic_type"@ && parts[2] == json_string(
                r.lic_type,
            )
            &&& head[4] == stored[8] && cols[3] == "name"@ && parts[3] == json_string(r.name)
            &&& head[5] == stored[9] && cols[4] == "street"@ && parts[4] == json_string(r.street)
            &&& head[6] == stored[10] && cols[5] == "city"@ && parts[5] == json_string(r.city)
            &&& head[7] == stored[11] && cols[6] == "state"@ && parts[6] == json_string(r.state)
            &&& forall|c: int|
                0 <= c < 22 ==> #[trigger] cols[7 + c] == count_col(c) && parts[7 + c]
                    == decimal_int(r.counts[c] as int)
            &&& tail[1] == "name_source"@ && cols[29] == "name_source"@ && parts[29]
                == json_string(r.name_source)
            &&& tail == seq![
                ","@,
                "name_source"@,
                "FROM"@,
                "afmer"@,
                "WHERE"@,
                "source_year"@,
                "="@,
                "?1"@,
                "ORDER"@,
                "BY"@,
                "rds_key"@,
            ]
        }),
{
    lemma_words_of_insert_head();
    lemma_words_of_select_head();
    lemma_words_of_select_tail();
}

/// The statement that stores a version of a license names its columns, and at the
/// place of each name it is given the field of that name.
pub proof fn law_version_values_stand_under_their_names(key: Seq<char>, v: VersionText)
    ensures
        ({
            let s = change_statement(ChangeText::SetVersion(key, v));
            let names = words(s.sql);
            let x = s.values;
            let r = v.record;
            &&& names.len() == 52 && x.len() == 21
            &&& names[0] == "INSERT"@ && names[1] == "OR"@ && names[2] == "REPLACE"@ && names[3]
                == "INTO"@ && names[4] == "ffl_version"@ && names[5] == "("@
            &&& names[6] == "rds_key,"@ && x[0] == SqlText::Text(key)
            &&& names[7] == "version_seq,"@ && x[1] == SqlText::Int(v.seq as i64)
            &&& names[8] == "first_seen,"@ && x[2] == SqlText::Text(v.first_seen)
            &&& names[9] == "last_seen,"@ && x[3] == SqlText::Text(v.last_seen)
            &&& names[10] == "lic_regn,"@ && x[4] == SqlText::Text(r.lic_regn)
            &&& names[11] == "lic_dist,"@ && x[5] == SqlText::Text(r.lic_dist)
            &&& names[12] == "lic_cnty,"@ && x[6] == SqlText::Text(r.lic_cnty)
            &&& names[13] == "lic_type,"@ && x[7] == SqlText::Text(r.lic_type)
            &&& names[14] == "lic_xprdte,"@ && x[8] == SqlText::Text(r.lic_xprdte)
            &&& names[15] == "lic_seqn,"@ && x[9] == SqlText::Text(r.lic_seqn)
            &&& names[16] == "license_name,"@ && x[10] == SqlText::Text(r.license_name)
            &&& names[17] == "business_name,"@ && x[11] == SqlText::Text(r.business_name)
            &&& names[18] == "premise_street,"@ && x[12] == SqlText::Text(r.premise_street)
            &&& names[19] == "premise_city,"@ && x[13] == SqlText::Text(r.premise_city)
            &&& names[20] == "premise_state,"@ && x[14] == SqlText::Text(r.premise_state)
            &&& names[21] == "premise_zip,"@ && x[15] == SqlText::Text(r.premise_zip)
            &&& names[22] == "mail_street,"@ && x[16] == SqlText::Text(r.mail_street)
            &&& names[23] == "mail_city,"@ && x[17] == SqlText::Text(r.mail_city)
            &&& names[24] == "mail_state,"@ && x[18] == SqlText::Text(r.mail_state)
            &&& names[25] == "mail_zip,"@ && x[19] == SqlText::Text(r.mail_zip)
            &&& names[26] == "voice_phone"@ && x[20] == SqlText::Text(r.voice_phone)
            &&& names[27] == ")"@ && names[28] == "VALUES"@ && names[29] == "("@
            &&& names[30] == "?1,"@ && names[50] == "?21"@ && names[51] == ")"@
        }),
{
    lemma_words_of_version_sql();
}

/// The statements that store a linked key, the name of a group, a label and a
/// snapshot name their columns, and at the place of each name they are given the
/// value of that name.
pub proof fn law_curated_values_stand_under_their_names(
    key: Seq<char>,
    id: Seq<char>,
    name: Seq<char>,
    label: LabelText,
    snap: SnapshotText,
)
    ensures
        ({
            let s = change_statement(ChangeText::SetLink(key, id));
            let w = words(s.sql);
            &&& w == seq![
                "INSERT"@,
                "OR"@,
                "REPLACE"@,
                "INTO"@,
                "rds_link"@,
                "(rds_key,"@,
                "group_id)"@,
                "VALUES"@,
                "(?1,"@,
                "?2)"@,
            ]
            &&& s.values == seq![SqlText::Text(key), SqlText::Text(id)]
        }),
        ({
            let s = change_statement(ChangeText::SetGroupName(id, name));
            let w = words(s.sql);
            &&& w == seq![
                "INSERT"@,
                "OR"@,
                "REPLACE"@,
                "INTO"@,
                "rds_group"@,
                "(group_id,"@,
                "name)"@,
                "VALUES"@,
                "(?1,"@,
                "?2)"@,
            ]
            &&& s.values == seq![SqlText::Text(id), SqlText::Text(name)]
        }),
        ({
            let s = change_statement(ChangeText::SetLabel(label));
            let w = words(s.sql);
            &&& w == seq![
                "INSERT"@,
                "OR"@,
                "REPLACE"@,
                "INTO"@,
                "label"@,
                "(code,"@,
                "name,"@,
                "json)"@,
                "VALUES"@,
                "(?1,"@,
                "?2,"@,
                "?3)"@,
            ]
            &&& s.values == seq![
                SqlText::Text(label.code),
                SqlText::Text(label.name),
                SqlText::Text(label.json),
            ]
        }),
        ({
            let s = change_statement(ChangeText::SetSnapshot(snap));
            let w = words(s.sql);
            &&& w == seq![
                "INSERT"@,
                "OR"@,
                "REPLACE"@,
                "INTO"@,
                "ffl_snapshot"@,
                "(snapshot,"@,
                "source_file,"@,
                "row_count)"@,
                "VALUES"@,
                "(?1,"@,
                "?2,"@,
                "?3)"@,
            ]
            &&& s.values == seq![
                SqlText::Text(snap.label),
                SqlText::Text(snap.source_file),
                SqlText::Int(snap.row_count as i64),
            ]
        }),
{
    lemma_words_of_link_sql();
    lemma_words_of_group_sql();
    lemma_words_of_label_sql();
    lemma_words_of_snapshot_sql();
}

/// The statements that clear name the table that they clear, and the rows of a
/// report by its year.
pub proof fn law_clearing_names_its_table(year: i32)
    ensures
        ({
            let s = change_statement(ChangeText::ClearYear(year));
            &&& words(s.sql) == seq![
                "DELETE"@,
                "FROM"@,
                "afmer"@,
                "WHERE"@,
                "source_year"@,
                "="@,
                "?1"@,
            ]
            &&& s.values == seq![SqlText::Int(year as i64)]
        }),
        words(change_statement(ChangeText::ClearLinks).sql) == seq![
            "DELETE"@,
            "FROM"@,
            "rds_link"@,
        ],
        words(change_statement(ChangeText::ClearGroupNames).sql) == seq![
            "DELETE"@,
            "FROM"@,
            "rds_group"@,
        ],
        change_statement(ChangeText::ClearLinks).values.len() == 0,
        change_statement(ChangeText::ClearGroupNames).values.len() == 0,
{
    lemma_words_of_clear_year_sql();
    lemma_words_of_clear_links_sql();
    lemma_words_of_clear_groups_sql();
}

/// The queries of the export and of the run name what they read, in what order and
/// of which table.
pub proof fn law_queries_name_what_they_read()
    ensures
        words(YEAR_COUNT_SQL@) == seq![
            "SELECT"@,
            "COUNT(*)"@,
            "FROM"@,
            "afmer"@,
            "WHERE"@,
            "source_year"@,
            "="@,
            "?1"@,
        ],
        words(YEARS_SQL@) == seq![
            "SELECT"@,
            "DISTINCT"@,
            "source_year"@,
            "FROM"@,
            "afmer"@,
            "ORDER"@,
            "BY"@,
            "source_year"@,
        ],
        words(STATES_SQL@) == seq![
            "SELECT"@,
            "DISTINCT"@,
            "app_premise_state"@,
            "FROM"@,
            "afmer"@,
            "WHERE"@,
            "app_premise_state"@,
            "<>"@,
            "''"@,
            "ORDER"@,
            "BY"@,
            "app_premise_state"@,
        ],
        words(LABELS_SQL@) == seq![
            "SELECT"@,
            "code,"@,
            "name,"@,
            "json"@,
            "FROM"@,
            "label"@,
            "ORDER"@,
            "BY"@,
            "code"@,
        ],
        words(GROUP_NAMES_SQL@) == seq![
            "SELECT"@,
            "group_id,"@,
            "name"@,
            "FROM"@,
            "rds_group"@,
        ],
        words(LINKS_SQL@) == seq![
            "SELECT"@,
            "rds_key,"@,
            "group_id"@,
            "FROM"@,
            "rds_link"@,
            "ORDER"@,
            "BY"@,
            "group_id,"@,
            "rds_key"@,
        ],
{
    lemma_words_of_year_count_sql();
    lemma_words_of_years_sql();
    lemma_words_of_states_sql();
    lemma_words_of_labels_sql();
    lemma_words_of_group_names_sql();
    lemma_words_of_links_sql();
}

} // verus!
