//! The words of the statements and queries.

use crate::database::{
    CLEAR_GROUPS_SQL, CLEAR_LINKS_SQL, CLEAR_YEAR_SQL, GROUP_NAMES_SQL, GROUP_SQL, INSERT_HEAD,
    INSERT_MIDDLE, LABELS_SQL, LABEL_SQL, LINKS_SQL, LINK_SQL, SELECT_HEAD, SELECT_TAIL,
    SNAPSHOT_SQL, STATES_SQL, VERSION_SQL, YEARS_SQL, YEAR_COUNT_SQL,
};
use crate::text::{is_space, is_word, law_white_space_parts_words, words};
use vstd::prelude::*;

verus! {

/// The end of a line and the blanks in front of the next.
spec fn line_break(blanks: nat) -> Seq<char> {
    seq!['\n'] + Seq::new(blanks, |i: int| ' ')
}

/// A text, white space and a word.
spec fn and_word(s: Seq<char>, gap: Seq<char>, w: Seq<char>) -> Seq<char> {
    s + gap + w
}

proof fn lemma_and_word(s: Seq<char>, gap: Seq<char>, w: Seq<char>)
    requires
        forall|i: int| 0 <= i < gap.len() ==> is_space(#[trigger] gap[i]),
        is_word(w),
        s.len() == 0 || gap.len() > 0,
    ensures
        words(and_word(s, gap, w)) == words(s).push(w),
{
    law_white_space_parts_words(s, gap, w);
}

/// The words of the statement.
pub proof fn lemma_words_of_insert_head()
    ensures
        words(INSERT_HEAD@) == seq![
            "INSERT"@,
            "INTO"@,
            "afmer"@,
            "("@,
            "source_year,"@,
            "source_file,"@,
            "rds_key,"@,
            "app_lic_type,"@,
            "app_license_name,"@,
            "app_premise_street,"@,
            "app_premise_city,"@,
            "app_premise_state,"@,
        ],
{
    reveal_strlit("INSERT INTO afmer (
            source_year, source_file, rds_key, app_lic_type,
            app_license_name, app_premise_street, app_premise_city, app_premise_state,
            ");
    let s0 = Seq::<char>::empty();
    let s1 = and_word(s0, Seq::<char>::empty(), "INSERT"@);
    assert(words(s1) == words(s0).push("INSERT"@)) by {
        reveal_strlit("INSERT");
        lemma_and_word(s0, Seq::<char>::empty(), "INSERT"@);
    }
    let s2 = and_word(s1, seq![' '], "INTO"@);
    assert(words(s2) == words(s1).push("INTO"@)) by {
        reveal_strlit("INTO");
        lemma_and_word(s1, seq![' '], "INTO"@);
    }
    let s3 = and_word(s2, seq![' '], "afmer"@);
    assert(words(s3) == words(s2).push("afmer"@)) by {
        reveal_strlit("afmer");
        lemma_and_word(s2, seq![' '], "afmer"@);
    }
    let s4 = and_word(s3, seq![' '], "("@);
    assert(words(s4) == words(s3).push("("@)) by {
        reveal_strlit("(");
        lemma_and_word(s3, seq![' '], "("@);
    }
    let s5 = and_word(s4, line_break(12), "source_year,"@);
    assert(words(s5) == words(s4).push("source_year,"@)) by {
        reveal_strlit("source_year,");
        lemma_and_word(s4, line_break(12), "source_year,"@);
    }
    let s6 = and_word(s5, seq![' '], "source_file,"@);
    assert(words(s6) == words(s5).push("source_file,"@)) by {
        reveal_strlit("source_file,");
        lemma_and_word(s5, seq![' '], "source_file,"@);
    }
    let s7 = and_word(s6, seq![' '], "rds_key,"@);
    assert(words(s7) == words(s6).push("rds_key,"@)) by {
        reveal_strlit("rds_key,");
        lemma_and_word(s6, seq![' '], "rds_key,"@);
    }
    let s8 = and_word(s7, seq![' '], "app_lic_type,"@);
    assert(words(s8) == words(s7).push("app_lic_type,"@)) by {
        reveal_strlit("app_lic_type,");
        lemma_and_word(s7, seq![' '], "app_lic_type,"@);
    }
    let s9 = and_word(s8, line_break(12), "app_license_name,"@);
    assert(words(s9) == words(s8).push("app_license_name,"@)) by {
        reveal_strlit("app_license_name,");
        lemma_and_word(s8, line_break(12), "app_license_name,"@);
    }
    let s10 = and_word(s9, seq![' '], "app_premise_street,"@);
    assert(words(s10) == words(s9).push("app_premise_street,"@)) by {
        reveal_strlit("app_premise_street,");
        lemma_and_word(s9, seq![' '], "app_premise_street,"@);
    }
    let s11 = and_word(s10, seq![' '], "app_premise_city,"@);
    assert(words(s11) == words(s10).push("app_premise_city,"@)) by {
        reveal_strlit("app_premise_city,");
        lemma_and_word(s10, seq![' '], "app_premise_city,"@);
    }
    let s12 = and_word(s11, seq![' '], "app_premise_state,"@);
    assert(words(s12) == words(s11).push("app_premise_state,"@)) by {
        reveal_strlit("app_premise_state,");
        lemma_and_word(s11, seq![' '], "app_premise_state,"@);
    }
    reveal_strlit("(");
    reveal_strlit("INSERT");
    reveal_strlit("INTO");
    reveal_strlit("afmer");
    reveal_strlit("app_lic_type,");
    reveal_strlit("app_license_name,");
    reveal_strlit("app_premise_city,");
    reveal_strlit("app_premise_state,");
    reveal_strlit("app_premise_street,");
    reveal_strlit("rds_key,");
    reveal_strlit("source_file,");
    reveal_strlit("source_year,");
    law_white_space_parts_words(s12, line_break(12), s0);
    assert(INSERT_HEAD@ =~= s12 + line_break(12));
    assert(words(s0) == Seq::<Seq<char>>::empty());
}

/// The words of the statement.
pub proof fn lemma_words_of_insert_middle()
    ensures
        words(INSERT_MIDDLE@) == seq![
            ","@,
            "ffl_version_first_seen,"@,
            "name_source"@,
            ")"@,
            "VALUES"@,
            "("@,
        ],
{
    reveal_strlit(",
            ffl_version_first_seen, name_source
         ) VALUES (");
    let s0 = Seq::<char>::empty();
    let s1 = and_word(s0, Seq::<char>::empty(), ","@);
    assert(words(s1) == words(s0).push(","@)) by {
        reveal_strlit(",");
        lemma_and_word(s0, Seq::<char>::empty(), ","@);
    }
    let s2 = and_word(s1, line_break(12), "ffl_version_first_seen,"@);
    assert(words(s2) == words(s1).push("ffl_version_first_seen,"@)) by {
        reveal_strlit("ffl_version_first_seen,");
        lemma_and_word(s1, line_break(12), "ffl_version_first_seen,"@);
    }
    let s3 = and_word(s2, seq![' '], "name_source"@);
    assert(words(s3) == words(s2).push("name_source"@)) by {
        reveal_strlit("name_source");
        lemma_and_word(s2, seq![' '], "name_source"@);
    }
    let s4 = and_word(s3, line_break(9), ")"@);
    assert(words(s4) == words(s3).push(")"@)) by {
        reveal_strlit(")");
        lemma_and_word(s3, line_break(9), ")"@);
    }
    let s5 = and_word(s4, seq![' '], "VALUES"@);
    assert(words(s5) == words(s4).push("VALUES"@)) by {
        reveal_strlit("VALUES");
        lemma_and_word(s4, seq![' '], "VALUES"@);
    }
    let s6 = and_word(s5, seq![' '], "("@);
    assert(words(s6) == words(s5).push("("@)) by {
        reveal_strlit("(");
        lemma_and_word(s5, seq![' '], "("@);
    }
    reveal_strlit("(");
    reveal_strlit(")");
    reveal_strlit(",");
    reveal_strlit("VALUES");
    reveal_strlit("ffl_version_first_seen,");
    reveal_strlit("name_source");
    assert(INSERT_MIDDLE@ =~= s6);
    assert(words(s0) == Seq::<Seq<char>>::empty());
}

/// The words of the statement.
pub proof fn lemma_words_of_select_head()
    ensures
        words(SELECT_HEAD@) == seq![
            "SELECT"@,
            "source_year,"@,
            "rds_key,"@,
            "app_lic_type,"@,
            "app_license_name,"@,
            "app_premise_street,"@,
            "app_premise_city,"@,
            "app_premise_state,"@,
        ],
{
    reveal_strlit("SELECT source_year, rds_key, app_lic_type, app_license_name, app_premise_street, app_premise_city, app_premise_state, ");
    let s0 = Seq::<char>::empty();
    let s1 = and_word(s0, Seq::<char>::empty(), "SELECT"@);
    assert(words(s1) == words(s0).push("SELECT"@)) by {
        reveal_strlit("SELECT");
        lemma_and_word(s0, Seq::<char>::empty(), "SELECT"@);
    }
    let s2 = and_word(s1, seq![' '], "source_year,"@);
    assert(words(s2) == words(s1).push("source_year,"@)) by {
        reveal_strlit("source_year,");
        lemma_and_word(s1, seq![' '], "source_year,"@);
    }
    let s3 = and_word(s2, seq![' '], "rds_key,"@);
    assert(words(s3) == words(s2).push("rds_key,"@)) by {
        reveal_strlit("rds_key,");
        lemma_and_word(s2, seq![' '], "rds_key,"@);
    }
    let s4 = and_word(s3, seq![' '], "app_lic_type,"@);
    assert(words(s4) == words(s3).push("app_lic_type,"@)) by {
        reveal_strlit("app_lic_type,");
        lemma_and_word(s3, seq![' '], "app_lic_type,"@);
    }
    let s5 = and_word(s4, seq![' '], "app_license_name,"@);
    assert(words(s5) == words(s4).push("app_license_name,"@)) by {
        reveal_strlit("app_license_name,");
        lemma_and_word(s4, seq![' '], "app_license_name,"@);
    }
    let s6 = and_word(s5, seq![' '], "app_premise_street,"@);
    assert(words(s6) == words(s5).push("app_premise_street,"@)) by {
        reveal_strlit("app_premise_street,");
        lemma_and_word(s5, seq![' '], "app_premise_street,"@);
    }
    let s7 = and_word(s6, seq![' '], "app_premise_city,"@);
    assert(words(s7) == words(s6).push("app_premise_city,"@)) by {
        reveal_strlit("app_premise_city,");
        lemma_and_word(s6, seq![' '], "app_premise_city,"@);
    }
    let s8 = and_word(s7, seq![' '], "app_premise_state,"@);
    assert(words(s8) == words(s7).push("app_premise_state,"@)) by {
        reveal_strlit("app_premise_state,");
        lemma_and_word(s7, seq![' '], "app_premise_state,"@);
    }
    reveal_strlit("SELECT");
    reveal_strlit("app_lic_type,");
    reveal_strlit("app_license_name,");
    reveal_strlit("app_premise_city,");
    reveal_strlit("app_premise_state,");
    reveal_strlit("app_premise_street,");
    reveal_strlit("rds_key,");
    reveal_strlit("source_year,");
    law_white_space_parts_words(s8, seq![' '], s0);
    assert(SELECT_HEAD@ =~= s8 + seq![' ']);
    assert(words(s0) == Seq::<Seq<char>>::empty());
}

/// The words of the statement.
pub proof fn lemma_words_of_select_tail()
    ensures
        words(SELECT_TAIL@) == seq![
            ","@,
            "name_source"@,
            "FROM"@,
            "afmer"@,
            "WHERE"@,
            "source_year"@,
            "="@,
            "?1"@,
            "ORDER"@,
            "BY"@,
            "rds_key"@,
        ],
{
    reveal_strlit(", name_source FROM afmer WHERE source_year = ?1 ORDER BY rds_key");
    let s0 = Seq::<char>::empty();
    let s1 = and_word(s0, Seq::<char>::empty(), ","@);
    assert(words(s1) == words(s0).push(","@)) by {
        reveal_strlit(",");
        lemma_and_word(s0, Seq::<char>::empty(), ","@);
    }
    let s2 = and_word(s1, seq![' '], "name_source"@);
    assert(words(s2) == words(s1).push("name_source"@)) by {
        reveal_strlit("name_source");
        lemma_and_word(s1, seq![' '], "name_source"@);
    }
    let s3 = and_word(s2, seq![' '], "FROM"@);
    assert(words(s3) == words(s2).push("FROM"@)) by {
        reveal_strlit("FROM");
        lemma_and_word(s2, seq![' '], "FROM"@);
    }
    let s4 = and_word(s3, seq![' '], "afmer"@);
    assert(words(s4) == words(s3).push("afmer"@)) by {
        reveal_strlit("afmer");
        lemma_and_word(s3, seq![' '], "afmer"@);
    }
    let s5 = and_word(s4, seq![' '], "WHERE"@);
    assert(words(s5) == words(s4).push("WHERE"@)) by {
        reveal_strlit("WHERE");
        lemma_and_word(s4, seq![' '], "WHERE"@);
    }
    let s6 = and_word(s5, seq![' '], "source_year"@);
    assert(words(s6) == words(s5).push("source_year"@)) by {
        reveal_strlit("source_year");
        lemma_and_word(s5, seq![' '], "source_year"@);
    }
    let s7 = and_word(s6, seq![' '], "="@);
    assert(words(s7) == words(s6).push("="@)) by {
        reveal_strlit("=");
        lemma_and_word(s6, seq![' '], "="@);
    }
    let s8 = and_word(s7, seq![' '], "?1"@);
    assert(words(s8) == words(s7).push("?1"@)) by {
        reveal_strlit("?1");
        lemma_and_word(s7, seq![' '], "?1"@);
    }
    let s9 = and_word(s8, seq![' '], "ORDER"@);
    assert(words(s9) == words(s8).push("ORDER"@)) by {
        reveal_strlit("ORDER");
        lemma_and_word(s8, seq![' '], "ORDER"@);
    }
    let s10 = and_word(s9, seq![' '], "BY"@);
    assert(words(s10) == words(s9).push("BY"@)) by {
        reveal_strlit("BY");
        lemma_and_word(s9, seq![' '], "BY"@);
    }
    let s11 = and_word(s10, seq![' '], "rds_key"@);
    assert(words(s11) == words(s10).push("rds_key"@)) by {
        reveal_strlit("rds_key");
        lemma_and_word(s10, seq![' '], "rds_key"@);
    }
    reveal_strlit(",");
    reveal_strlit("=");
    reveal_strlit("?1");
    reveal_strlit("BY");
    reveal_strlit("FROM");
    reveal_strlit("ORDER");
    reveal_strlit("WHERE");
    reveal_strlit("afmer");
    reveal_strlit("name_source");
    reveal_strlit("rds_key");
    reveal_strlit("source_year");
    assert(SELECT_TAIL@ =~= s11);
    assert(words(s0) == Seq::<Seq<char>>::empty());
}

proof fn lemma_version_sql_part_1(s: Seq<char>)
    requires
        s.len() == 0,
    ensures
        VERSION_SQL@.len() == 534,
        words(s + VERSION_SQL@.subrange(0, 86)) == words(s) + seq![
            "INSERT"@,
            "OR"@,
            "REPLACE"@,
            "INTO"@,
            "ffl_version"@,
            "("@,
            "rds_key,"@,
            "version_seq,"@,
            "first_seen,"@,
        ],
{
    reveal_strlit("INSERT OR REPLACE INTO ffl_version (
                rds_key, version_seq, first_seen, last_seen,
                lic_regn, lic_dist, lic_cnty, lic_type, lic_xprdte, lic_seqn,
                license_name, business_name,
                premise_street, premise_city, premise_state, premise_zip,
                mail_street, mail_city, mail_state, mail_zip, voice_phone
             ) VALUES (
                ?1, ?2, ?3, ?4, ?5, ?6, ?7, ?8, ?9, ?10,
                ?11, ?12, ?13, ?14, ?15, ?16, ?17, ?18, ?19, ?20, ?21
             )");
    let s0 = s;
    let s1 = and_word(s0, Seq::<char>::empty(), "INSERT"@);
    assert(words(s1) == words(s0).push("INSERT"@)) by {
        reveal_strlit("INSERT");
        lemma_and_word(s0, Seq::<char>::empty(), "INSERT"@);
    }
    let s2 = and_word(s1, seq![' '], "OR"@);
    assert(words(s2) == words(s1).push("OR"@)) by {
        reveal_strlit("OR");
        lemma_and_word(s1, seq![' '], "OR"@);
    }
    let s3 = and_word(s2, seq![' '], "REPLACE"@);
    assert(words(s3) == words(s2).push("REPLACE"@)) by {
        reveal_strlit("REPLACE");
        lemma_and_word(s2, seq![' '], "REPLACE"@);
    }
    let s4 = and_word(s3, seq![' '], "INTO"@);
    assert(words(s4) == words(s3).push("INTO"@)) by {
        reveal_strlit("INTO");
        lemma_and_word(s3, seq![' '], "INTO"@);
    }
    let s5 = and_word(s4, seq![' '], "ffl_version"@);
    assert(words(s5) == words(s4).push("ffl_version"@)) by {
        reveal_strlit("ffl_version");
        lemma_and_word(s4, seq![' '], "ffl_version"@);
    }
    let s6 = and_word(s5, seq![' '], "("@);
    assert(words(s6) == words(s5).push("("@)) by {
        reveal_strlit("(");
        lemma_and_word(s5, seq![' '], "("@);
    }
    let s7 = and_word(s6, line_break(16), "rds_key,"@);
    assert(words(s7) == words(s6).push("rds_key,"@)) by {
        reveal_strlit("rds_key,");
        lemma_and_word(s6, line_break(16), "rds_key,"@);
    }
    let s8 = and_word(s7, seq![' '], "version_seq,"@);
    assert(words(s8) == words(s7).push("version_seq,"@)) by {
        reveal_strlit("version_seq,");
        lemma_and_word(s7, seq![' '], "version_seq,"@);
    }
    let s9 = and_word(s8, seq![' '], "first_seen,"@);
    assert(words(s9) == words(s8).push("first_seen,"@)) by {
        reveal_strlit("first_seen,");
        lemma_and_word(s8, seq![' '], "first_seen,"@);
    }
    reveal_strlit("(");
    reveal_strlit("INSERT");
    reveal_strlit("INTO");
    reveal_strlit("OR");
    reveal_strlit("REPLACE");
    reveal_strlit("ffl_version");
    reveal_strlit("first_seen,");
    reveal_strlit("rds_key,");
    reveal_strlit("version_seq,");
    assert(s + VERSION_SQL@.subrange(0, 86) =~= s9);
}

proof fn lemma_version_sql_part_2(s: Seq<char>)
    requires
        s.len() > 0,
    ensures
        VERSION_SQL@.len() == 534,
        words(s + VERSION_SQL@.subrange(86, 220)) == words(s) + seq![
            "last_seen,"@,
            "lic_regn,"@,
            "lic_dist,"@,
            "lic_cnty,"@,
            "lic_type,"@,
            "lic_xprdte,"@,
            "lic_seqn,"@,
            "license_name,"@,
            "business_name,"@,
        ],
{
    reveal_strlit("INSERT OR REPLACE INTO ffl_version (
                rds_key, version_seq, first_seen, last_seen,
                lic_regn, lic_dist, lic_cnty, lic_type, lic_xprdte, lic_seqn,
                license_name, business_name,
                premise_street, premise_city, premise_state, premise_zip,
                mail_street, mail_city, mail_state, mail_zip, voice_phone
             ) VALUES (
                ?1, ?2, ?3, ?4, ?5, ?6, ?7, ?8, ?9, ?10,
                ?11, ?12, ?13, ?14, ?15, ?16, ?17, ?18, ?19, ?20, ?21
             )");
    let s0 = s;
    let s1 = and_word(s0, seq![' '], "last_seen,"@);
    assert(words(s1) == words(s0).push("last_seen,"@)) by {
        reveal_strlit("last_seen,");
        lemma_and_word(s0, seq![' '], "last_seen,"@);
    }
    let s2 = and_word(s1, line_break(16), "lic_regn,"@);
    assert(words(s2) == words(s1).push("lic_regn,"@)) by {
        reveal_strlit("lic_regn,");
        lemma_and_word(s1, line_break(16), "lic_regn,"@);
    }
    let s3 = and_word(s2, seq![' '], "lic_dist,"@);
    assert(words(s3) == words(s2).push("lic_dist,"@)) by {
        reveal_strlit("lic_dist,");
        lemma_and_word(s2, seq![' '], "lic_dist,"@);
    }
    let s4 = and_word(s3, seq![' '], "lic_cnty,"@);
    assert(words(s4) == words(s3).push("lic_cnty,"@)) by {
        reveal_strlit("lic_cnty,");
        lemma_and_word(s3, seq![' '], "lic_cnty,"@);
    }
    let s5 = and_word(s4, seq![' '], "lic_type,"@);
    assert(words(s5) == words(s4).push("lic_type,"@)) by {
        reveal_strlit("lic_type,");
        lemma_and_word(s4, seq![' '], "lic_type,"@);
    }
    let s6 = and_word(s5, seq![' '], "lic_xprdte,"@);
    assert(words(s6) == words(s5).push("lic_xprdte,"@)) by {
        reveal_strlit("lic_xprdte,");
        lemma_and_word(s5, seq![' '], "lic_xprdte,"@);
    }
    let s7 = and_word(s6, seq![' '], "lic_seqn,"@);
    assert(words(s7) == words(s6).push("lic_seqn,"@)) by {
        reveal_strlit("lic_seqn,");
        lemma_and_word(s6, seq![' '], "lic_seqn,"@);
    }
    let s8 = and_word(s7, line_break(16), "license_name,"@);
    assert(words(s8) == words(s7).push("license_name,"@)) by {
        reveal_strlit("license_name,");
        lemma_and_word(s7, line_break(16), "license_name,"@);
    }
    let s9 = and_word(s8, seq![' '], "business_name,"@);
    assert(words(s9) == words(s8).push("business_name,"@)) by {
        reveal_strlit("business_name,");
        lemma_and_word(s8, seq![' '], "business_name,"@);
    }
    reveal_strlit("business_name,");
    reveal_strlit("last_seen,");
    reveal_strlit("lic_cnty,");
    reveal_strlit("lic_dist,");
    reveal_strlit("lic_regn,");
    reveal_strlit("lic_seqn,");
    reveal_strlit("lic_type,");
    reveal_strlit("lic_xprdte,");
    reveal_strlit("license_name,");
    assert(s + VERSION_SQL@.subrange(86, 220) =~= s9);
}

proof fn lemma_version_sql_part_3(s: Seq<char>)
    requires
        s.len() > 0,
    ensures
        VERSION_SQL@.len() == 534,
        words(s + VERSION_SQL@.subrange(220, 368)) == words(s) + seq![
            "premise_street,"@,
            "premise_city,"@,
            "premise_state,"@,
            "premise_zip,"@,
            "mail_street,"@,
            "mail_city,"@,
            "mail_state,"@,
            "mail_zip,"@,
            "voice_phone"@,
        ],
{
    reveal_strlit("INSERT OR REPLACE INTO ffl_version (
                rds_key, version_seq, first_seen, last_seen,
                lic_regn, lic_dist, lic_cnty, lic_type, lic_xprdte, lic_seqn,
                license_name, business_name,
                premise_street, premise_city, premise_state, premise_zip,
                mail_street, mail_city, mail_state, mail_zip, voice_phone
             ) VALUES (
                ?1, ?2, ?3, ?4, ?5, ?6, ?7, ?8, ?9, ?10,
                ?11, ?12, ?13, ?14, ?15, ?16, ?17, ?18, ?19, ?20, ?21
             )");
    let s0 = s;
    let s1 = and_word(s0, line_break(16), "premise_street,"@);
    assert(words(s1) == words(s0).push("premise_street,"@)) by {
        reveal_strlit("premise_street,");
        lemma_and_word(s0, line_break(16), "premise_street,"@);
    }
    let s2 = and_word(s1, seq![' '], "premise_city,"@);
    assert(words(s2) == words(s1).push("premise_city,"@)) by {
        reveal_strlit("premise_city,");
        lemma_and_word(s1, seq![' '], "premise_city,"@);
    }
    let s3 = and_word(s2, seq![' '], "premise_state,"@);
    assert(words(s3) == words(s2).push("premise_state,"@)) by {
        reveal_strlit("premise_state,");
        lemma_and_word(s2, seq![' '], "premise_state,"@);
    }
    let s4 = and_word(s3, seq![' '], "premise_zip,"@);
    assert(words(s4) == words(s3).push("premise_zip,"@)) by {
        reveal_strlit("premise_zip,");
        lemma_and_word(s3, seq![' '], "premise_zip,"@);
    }
    let s5 = and_word(s4, line_break(16), "mail_street,"@);
    assert(words(s5) == words(s4).push("mail_street,"@)) by {
        reveal_strlit("mail_street,");
        lemma_and_word(s4, line_break(16), "mail_street,"@);
    }
    let s6 = and_word(s5, seq![' '], "mail_city,"@);
    assert(words(s6) == words(s5).push("mail_city,"@)) by {
        reveal_strlit("mail_city,");
        lemma_and_word(s5, seq![' '], "mail_city,"@);
    }
    let s7 = and_word(s6, seq![' '], "mail_state,"@);
    assert(words(s7) == words(s6).push("mail_state,"@)) by {
        reveal_strlit("mail_state,");
        lemma_and_word(s6, seq![' '], "mail_state,"@);
    }
    let s8 = and_word(s7, seq![' '], "mail_zip,"@);
    assert(words(s8) == words(s7).push("mail_zip,"@)) by {
        reveal_strlit("mail_zip,");
        lemma_and_word(s7, seq![' '], "mail_zip,"@);
    }
    let s9 = and_word(s8, seq![' '], "voice_phone"@);
    assert(words(s9) == words(s8).push("voice_phone"@)) by {
        reveal_strlit("voice_phone");
        lemma_and_word(s8, seq![' '], "voice_phone"@);
    }
    reveal_strlit("mail_city,");
    reveal_strlit("mail_state,");
    reveal_strlit("mail_street,");
    reveal_strlit("mail_zip,");
    reveal_strlit("premise_city,");
    reveal_strlit("premise_state,");
    reveal_strlit("premise_street,");
    reveal_strlit("premise_zip,");
    reveal_strlit("voice_phone");
    assert(s + VERSION_SQL@.subrange(220, 368) =~= s9);
}

proof fn lemma_version_sql_part_4(s: Seq<char>)
    requires
        s.len() > 0,
    ensures
        VERSION_SQL@.len() == 534,
        words(s + VERSION_SQL@.subrange(368, 432)) == words(s) + seq![
            ")"@,
            "VALUES"@,
            "("@,
            "?1,"@,
            "?2,"@,
            "?3,"@,
            "?4,"@,
            "?5,"@,
            "?6,"@,
        ],
{
    reveal_strlit("INSERT OR REPLACE INTO ffl_version (
                rds_key, version_seq, first_seen, last_seen,
                lic_regn, lic_dist, lic_cnty, lic_type, lic_xprdte, lic_seqn,
                license_name, business_name,
                premise_street, premise_city, premise_state, premise_zip,
                mail_street, mail_city, mail_state, mail_zip, voice_phone
             ) VALUES (
                ?1, ?2, ?3, ?4, ?5, ?6, ?7, ?8, ?9, ?10,
                ?11, ?12, ?13, ?14, ?15, ?16, ?17, ?18, ?19, ?20, ?21
             )");
    let s0 = s;
    let s1 = and_word(s0, line_break(13), ")"@);
    assert(words(s1) == words(s0).push(")"@)) by {
        reveal_strlit(")");
        lemma_and_word(s0, line_break(13), ")"@);
    }
    let s2 = and_word(s1, seq![' '], "VALUES"@);
    assert(words(s2) == words(s1).push("VALUES"@)) by {
        reveal_strlit("VALUES");
        lemma_and_word(s1, seq![' '], "VALUES"@);
    }
    let s3 = and_word(s2, seq![' '], "("@);
    assert(words(s3) == words(s2).push("("@)) by {
        reveal_strlit("(");
        lemma_and_word(s2, seq![' '], "("@);
    }
    let s4 = and_word(s3, line_break(16), "?1,"@);
    assert(words(s4) == words(s3).push("?1,"@)) by {
        reveal_strlit("?1,");
        lemma_and_word(s3, line_break(16), "?1,"@);
    }
    let s5 = and_word(s4, seq![' '], "?2,"@);
    assert(words(s5) == words(s4).push("?2,"@)) by {
        reveal_strlit("?2,");
        lemma_and_word(s4, seq![' '], "?2,"@);
    }
    let s6 = and_word(s5, seq![' '], "?3,"@);
    assert(words(s6) == words(s5).push("?3,"@)) by {
        reveal_strlit("?3,");
        lemma_and_word(s5, seq![' '], "?3,"@);
    }
    let s7 = and_word(s6, seq![' '], "?4,"@);
    assert(words(s7) == words(s6).push("?4,"@)) by {
        reveal_strlit("?4,");
        lemma_and_word(s6, seq![' '], "?4,"@);
    }
    let s8 = and_word(s7, seq![' '], "?5,"@);
    assert(words(s8) == words(s7).push("?5,"@)) by {
        reveal_strlit("?5,");
        lemma_and_word(s7, seq![' '], "?5,"@);
    }
    let s9 = and_word(s8, seq![' '], "?6,"@);
    assert(words(s9) == words(s8).push("?6,"@)) by {
        reveal_strlit("?6,");
        lemma_and_word(s8, seq![' '], "?6,"@);
    }
    reveal_strlit("(");
    reveal_strlit(")");
    reveal_strlit("?1,");
    reveal_strlit("?2,");
    reveal_strlit("?3,");
    reveal_strlit("?4,");
    reveal_strlit("?5,");
    reveal_strlit("?6,");
    reveal_strlit("VALUES");
    assert(s + VERSION_SQL@.subrange(368, 432) =~= s9);
}

proof fn lemma_version_sql_part_5(s: Seq<char>)
    requires
        s.len() > 0,
    ensures
        VERSION_SQL@.len() == 534,
        words(s + VERSION_SQL@.subrange(432, 490)) == words(s) + seq![
            "?7,"@,
            "?8,"@,
            "?9,"@,
            "?10,"@,
            "?11,"@,
            "?12,"@,
            "?13,"@,
            "?14,"@,
            "?15,"@,
        ],
{
    reveal_strlit("INSERT OR REPLACE INTO ffl_version (
                rds_key, version_seq, first_seen, last_seen,
                lic_regn, lic_dist, lic_cnty, lic_type, lic_xprdte, lic_seqn,
                license_name, business_name,
                premise_street, premise_city, premise_state, premise_zip,
                mail_street, mail_city, mail_state, mail_zip, voice_phone
             ) VALUES (
                ?1, ?2, ?3, ?4, ?5, ?6, ?7, ?8, ?9, ?10,
                ?11, ?12, ?13, ?14, ?15, ?16, ?17, ?18, ?19, ?20, ?21
             )");
    let s0 = s;
    let s1 = and_word(s0, seq![' '], "?7,"@);
    assert(words(s1) == words(s0).push("?7,"@)) by {
        reveal_strlit("?7,");
        lemma_and_word(s0, seq![' '], "?7,"@);
    }
    let s2 = and_word(s1, seq![' '], "?8,"@);
    assert(words(s2) == words(s1).push("?8,"@)) by {
        reveal_strlit("?8,");
        lemma_and_word(s1, seq![' '], "?8,"@);
    }
    let s3 = and_word(s2, seq![' '], "?9,"@);
    assert(words(s3) == words(s2).push("?9,"@)) by {
        reveal_strlit("?9,");
        lemma_and_word(s2, seq![' '], "?9,"@);
    }
    let s4 = and_word(s3, seq![' '], "?10,"@);
    assert(words(s4) == words(s3).push("?10,"@)) by {
        reveal_strlit("?10,");
        lemma_and_word(s3, seq![' '], "?10,"@);
    }
    let s5 = and_word(s4, line_break(16), "?11,"@);
    assert(words(s5) == words(s4).push("?11,"@)) by {
        reveal_strlit("?11,");
        lemma_and_word(s4, line_break(16), "?11,"@);
    }
    let s6 = and_word(s5, seq![' '], "?12,"@);
    assert(words(s6) == words(s5).push("?12,"@)) by {
        reveal_strlit("?12,");
        lemma_and_word(s5, seq![' '], "?12,"@);
    }
    let s7 = and_word(s6, seq![' '], "?13,"@);
    assert(words(s7) == words(s6).push("?13,"@)) by {
        reveal_strlit("?13,");
        lemma_and_word(s6, seq![' '], "?13,"@);
    }
    let s8 = and_word(s7, seq![' '], "?14,"@);
    assert(words(s8) == words(s7).push("?14,"@)) by {
        reveal_strlit("?14,");
        lemma_and_word(s7, seq![' '], "?14,"@);
    }
    let s9 = and_word(s8, seq![' '], "?15,"@);
    assert(words(s9) == words(s8).push("?15,"@)) by {
        reveal_strlit("?15,");
        lemma_and_word(s8, seq![' '], "?15,"@);
    }
    reveal_strlit("?10,");
    reveal_strlit("?11,");
    reveal_strlit("?12,");
    reveal_strlit("?13,");
    reveal_strlit("?14,");
    reveal_strlit("?15,");
    reveal_strlit("?7,");
    reveal_strlit("?8,");
    reveal_strlit("?9,");
    assert(s + VERSION_SQL@.subrange(432, 490) =~= s9);
}

proof fn lemma_version_sql_part_6(s: Seq<char>)
    requires
        s.len() > 0,
    ensures
        VERSION_SQL@.len() == 534,
        words(s + VERSION_SQL@.subrange(490, 534)) == words(s) + seq![
            "?16,"@,
            "?17,"@,
            "?18,"@,
            "?19,"@,
            "?20,"@,
            "?21"@,
            ")"@,
        ],
{
    reveal_strlit("INSERT OR REPLACE INTO ffl_version (
                rds_key, version_seq, first_seen, last_seen,
                lic_regn, lic_dist, lic_cnty, lic_type, lic_xprdte, lic_seqn,
                license_name, business_name,
                premise_street, premise_city, premise_state, premise_zip,
                mail_street, mail_city, mail_state, mail_zip, voice_phone
             ) VALUES (
                ?1, ?2, ?3, ?4, ?5, ?6, ?7, ?8, ?9, ?10,
                ?11, ?12, ?13, ?14, ?15, ?16, ?17, ?18, ?19, ?20, ?21
             )");
    let s0 = s;
    let s1 = and_word(s0, seq![' '], "?16,"@);
    assert(words(s1) == words(s0).push("?16,"@)) by {
        reveal_strlit("?16,");
        lemma_and_word(s0, seq![' '], "?16,"@);
    }
    let s2 = and_word(s1, seq![' '], "?17,"@);
    assert(words(s2) == words(s1).push("?17,"@)) by {
        reveal_strlit("?17,");
        lemma_and_word(s1, seq![' '], "?17,"@);
    }
    let s3 = and_word(s2, seq![' '], "?18,"@);
    assert(words(s3) == words(s2).push("?18,"@)) by {
        reveal_strlit("?18,");
        lemma_and_word(s2, seq![' '], "?18,"@);
    }
    let s4 = and_word(s3, seq![' '], "?19,"@);
    assert(words(s4) == words(s3).push("?19,"@)) by {
        reveal_strlit("?19,");
        lemma_and_word(s3, seq![' '], "?19,"@);
    }
    let s5 = and_word(s4, seq![' '], "?20,"@);
    assert(words(s5) == words(s4).push("?20,"@)) by {
        reveal_strlit("?20,");
        lemma_and_word(s4, seq![' '], "?20,"@);
    }
    let s6 = and_word(s5, seq![' '], "?21"@);
    assert(words(s6) == words(s5).push("?21"@)) by {
        reveal_strlit("?21");
        lemma_and_word(s5, seq![' '], "?21"@);
    }
    let s7 = and_word(s6, line_break(13), ")"@);
    assert(words(s7) == words(s6).push(")"@)) by {
        reveal_strlit(")");
        lemma_and_word(s6, line_break(13), ")"@);
    }
    reveal_strlit(")");
    reveal_strlit("?16,");
    reveal_strlit("?17,");
    reveal_strlit("?18,");
    reveal_strlit("?19,");
    reveal_strlit("?20,");
    reveal_strlit("?21");
    assert(s + VERSION_SQL@.subrange(490, 534) =~= s7);
}

/// The words of the statement.
pub proof fn lemma_words_of_version_sql()
    ensures
        words(VERSION_SQL@) == seq![
            "INSERT"@,
            "OR"@,
            "REPLACE"@,
            "INTO"@,
            "ffl_version"@,
            "("@,
            "rds_key,"@,
            "version_seq,"@,
            "first_seen,"@,
            "last_seen,"@,
            "lic_regn,"@,
            "lic_dist,"@,
            "lic_cnty,"@,
            "lic_type,"@,
            "lic_xprdte,"@,
            "lic_seqn,"@,
            "license_name,"@,
            "business_name,"@,
            "premise_street,"@,
            "premise_city,"@,
            "premise_state,"@,
            "premise_zip,"@,
            "mail_street,"@,
            "mail_city,"@,
            "mail_state,"@,
            "mail_zip,"@,
            "voice_phone"@,
            ")"@,
            "VALUES"@,
            "("@,
            "?1,"@,
            "?2,"@,
            "?3,"@,
            "?4,"@,
            "?5,"@,
            "?6,"@,
            "?7,"@,
            "?8,"@,
            "?9,"@,
            "?10,"@,
            "?11,"@,
            "?12,"@,
            "?13,"@,
            "?14,"@,
            "?15,"@,
            "?16,"@,
            "?17,"@,
            "?18,"@,
            "?19,"@,
            "?20,"@,
            "?21"@,
            ")"@,
        ],
{
    let s0 = Seq::<char>::empty();
    let all = VERSION_SQL@;
    lemma_version_sql_part_1(s0);
    let s1 = all.take(86);
    assert(s0 + all.subrange(0, 86) == s1);
    lemma_version_sql_part_2(s1);
    let s2 = all.take(220);
    assert(s1 + all.subrange(86, 220) == s2);
    lemma_version_sql_part_3(s2);
    let s3 = all.take(368);
    assert(s2 + all.subrange(220, 368) == s3);
    lemma_version_sql_part_4(s3);
    let s4 = all.take(432);
    assert(s3 + all.subrange(368, 432) == s4);
    lemma_version_sql_part_5(s4);
    let s5 = all.take(490);
    assert(s4 + all.subrange(432, 490) == s5);
    lemma_version_sql_part_6(s5);
    let s6 = all.take(534);
    assert(s5 + all.subrange(490, 534) == s6);
    assert(all == s6);
    assert(words(s0) == Seq::<Seq<char>>::empty());
}

/// The words of the statement.
pub proof fn lemma_words_of_label_sql()
    ensures
        words(LABEL_SQL@) == seq![
            "INSERT"@,
            "OR"@,
            "REPLACE"@,
            "INTO"@,
            "label"@,
            "(code,"@,
            "name,"@,
            "json)"@,
            "VALUES"@,
            "(?1,"@,
            "?2,"@,
            "?3)"@,
        ],
{
    reveal_strlit("INSERT OR REPLACE INTO label (code, name, json) VALUES (?1, ?2, ?3)");
    let s0 = Seq::<char>::empty();
    let s1 = and_word(s0, Seq::<char>::empty(), "INSERT"@);
    assert(words(s1) == words(s0).push("INSERT"@)) by {
        reveal_strlit("INSERT");
        lemma_and_word(s0, Seq::<char>::empty(), "INSERT"@);
    }
    let s2 = and_word(s1, seq![' '], "OR"@);
    assert(words(s2) == words(s1).push("OR"@)) by {
        reveal_strlit("OR");
        lemma_and_word(s1, seq![' '], "OR"@);
    }
    let s3 = and_word(s2, seq![' '], "REPLACE"@);
    assert(words(s3) == words(s2).push("REPLACE"@)) by {
        reveal_strlit("REPLACE");
        lemma_and_word(s2, seq![' '], "REPLACE"@);
    }
    let s4 = and_word(s3, seq![' '], "INTO"@);
    assert(words(s4) == words(s3).push("INTO"@)) by {
        reveal_strlit("INTO");
        lemma_and_word(s3, seq![' '], "INTO"@);
    }
    let s5 = and_word(s4, seq![' '], "label"@);
    assert(words(s5) == words(s4).push("label"@)) by {
        reveal_strlit("label");
        lemma_and_word(s4, seq![' '], "label"@);
    }
    let s6 = and_word(s5, seq![' '], "(code,"@);
    assert(words(s6) == words(s5).push("(code,"@)) by {
        reveal_strlit("(code,");
        lemma_and_word(s5, seq![' '], "(code,"@);
    }
    let s7 = and_word(s6, seq![' '], "name,"@);
    assert(words(s7) == words(s6).push("name,"@)) by {
        reveal_strlit("name,");
        lemma_and_word(s6, seq![' '], "name,"@);
    }
    let s8 = and_word(s7, seq![' '], "json)"@);
    assert(words(s8) == words(s7).push("json)"@)) by {
        reveal_strlit("json)");
        lemma_and_word(s7, seq![' '], "json)"@);
    }
    let s9 = and_word(s8, seq![' '], "VALUES"@);
    assert(words(s9) == words(s8).push("VALUES"@)) by {
        reveal_strlit("VALUES");
        lemma_and_word(s8, seq![' '], "VALUES"@);
    }
    let s10 = and_word(s9, seq![' '], "(?1,"@);
    assert(words(s10) == words(s9).push("(?1,"@)) by {
        reveal_strlit("(?1,");
        lemma_and_word(s9, seq![' '], "(?1,"@);
    }
    let s11 = and_word(s10, seq![' '], "?2,"@);
    assert(words(s11) == words(s10).push("?2,"@)) by {
        reveal_strlit("?2,");
        lemma_and_word(s10, seq![' '], "?2,"@);
    }
    let s12 = and_word(s11, seq![' '], "?3)"@);
    assert(words(s12) == words(s11).push("?3)"@)) by {
        reveal_strlit("?3)");
        lemma_and_word(s11, seq![' '], "?3)"@);
    }
    reveal_strlit("(?1,");
    reveal_strlit("(code,");
    reveal_strlit("?2,");
    reveal_strlit("?3)");
    reveal_strlit("INSERT");
    reveal_strlit("INTO");
    reveal_strlit("OR");
    reveal_strlit("REPLACE");
    reveal_strlit("VALUES");
    reveal_strlit("json)");
    reveal_strlit("label");
    reveal_strlit("name,");
    assert(LABEL_SQL@ =~= s12);
    assert(words(s0) == Seq::<Seq<char>>::empty());
}

/// The words of the statement.
pub proof fn lemma_words_of_snapshot_sql()
    ensures
        words(SNAPSHOT_SQL@) == seq![
            "INSERT"@,
            "OR"@,
            "REPLACE"@,
            "INTO"@,
            "ffl_snapshot"@,
            "(snapshot,"@,
            "source_file,"@,
            "row_count)"@,
            "VALUES"@,
            "(?1,"@,
            "?2,"@,
            "?3)"@,
        ],
{
    reveal_strlit("INSERT OR REPLACE INTO ffl_snapshot (snapshot, source_file, row_count)
             VALUES (?1, ?2, ?3)");
    let s0 = Seq::<char>::empty();
    let s1 = and_word(s0, Seq::<char>::empty(), "INSERT"@);
    assert(words(s1) == words(s0).push("INSERT"@)) by {
        reveal_strlit("INSERT");
        lemma_and_word(s0, Seq::<char>::empty(), "INSERT"@);
    }
    let s2 = and_word(s1, seq![' '], "OR"@);
    assert(words(s2) == words(s1).push("OR"@)) by {
        reveal_strlit("OR");
        lemma_and_word(s1, seq![' '], "OR"@);
    }
    let s3 = and_word(s2, seq![' '], "REPLACE"@);
    assert(words(s3) == words(s2).push("REPLACE"@)) by {
        reveal_strlit("REPLACE");
        lemma_and_word(s2, seq![' '], "REPLACE"@);
    }
    let s4 = and_word(s3, seq![' '], "INTO"@);
    assert(words(s4) == words(s3).push("INTO"@)) by {
        reveal_strlit("INTO");
        lemma_and_word(s3, seq![' '], "INTO"@);
    }
    let s5 = and_word(s4, seq![' '], "ffl_snapshot"@);
    assert(words(s5) == words(s4).push("ffl_snapshot"@)) by {
        reveal_strlit("ffl_snapshot");
        lemma_and_word(s4, seq![' '], "ffl_snapshot"@);
    }
    let s6 = and_word(s5, seq![' '], "(snapshot,"@);
    assert(words(s6) == words(s5).push("(snapshot,"@)) by {
        reveal_strlit("(snapshot,");
        lemma_and_word(s5, seq![' '], "(snapshot,"@);
    }
    let s7 = and_word(s6, seq![' '], "source_file,"@);
    assert(words(s7) == words(s6).push("source_file,"@)) by {
        reveal_strlit("source_file,");
        lemma_and_word(s6, seq![' '], "source_file,"@);
    }
    let s8 = and_word(s7, seq![' '], "row_count)"@);
    assert(words(s8) == words(s7).push("row_count)"@)) by {
        reveal_strlit("row_count)");
        lemma_and_word(s7, seq![' '], "row_count)"@);
    }
    let s9 = and_word(s8, line_break(13), "VALUES"@);
    assert(words(s9) == words(s8).push("VALUES"@)) by {
        reveal_strlit("VALUES");
        lemma_and_word(s8, line_break(13), "VALUES"@);
    }
    let s10 = and_word(s9, seq![' '], "(?1,"@);
    assert(words(s10) == words(s9).push("(?1,"@)) by {
        reveal_strlit("(?1,");
        lemma_and_word(s9, seq![' '], "(?1,"@);
    }
    let s11 = and_word(s10, seq![' '], "?2,"@);
    assert(words(s11) == words(s10).push("?2,"@)) by {
        reveal_strlit("?2,");
        lemma_and_word(s10, seq![' '], "?2,"@);
    }
    let s12 = and_word(s11, seq![' '], "?3)"@);
    assert(words(s12) == words(s11).push("?3)"@)) by {
        reveal_strlit("?3)");
        lemma_and_word(s11, seq![' '], "?3)"@);
    }
    reveal_strlit("(?1,");
    reveal_strlit("(snapshot,");
    reveal_strlit("?2,");
    reveal_strlit("?3)");
    reveal_strlit("INSERT");
    reveal_strlit("INTO");
    reveal_strlit("OR");
    reveal_strlit("REPLACE");
    reveal_strlit("VALUES");
    reveal_strlit("ffl_snapshot");
    reveal_strlit("row_count)");
    reveal_strlit("source_file,");
    assert(SNAPSHOT_SQL@ =~= s12);
    assert(words(s0) == Seq::<Seq<char>>::empty());
}

/// The words of the statement.
pub proof fn lemma_words_of_link_sql()
    ensures
        words(LINK_SQL@) == seq![
            "INSERT"@,
            "OR"@,
            "REPLACE"@,
            "INTO"@,
            "rds_link"@,
            "(rds_key,"@,
            "group_id)"@,
            "VALUES"@,
            "(?1,"@,
            "?2)"@,
        ],
{
    reveal_strlit("INSERT OR REPLACE INTO rds_link (rds_key, group_id) VALUES (?1, ?2)");
    let s0 = Seq::<char>::empty();
    let s1 = and_word(s0, Seq::<char>::empty(), "INSERT"@);
    assert(words(s1) == words(s0).push("INSERT"@)) by {
        reveal_strlit("INSERT");
        lemma_and_word(s0, Seq::<char>::empty(), "INSERT"@);
    }
    let s2 = and_word(s1, seq![' '], "OR"@);
    assert(words(s2) == words(s1).push("OR"@)) by {
        reveal_strlit("OR");
        lemma_and_word(s1, seq![' '], "OR"@);
    }
    let s3 = and_word(s2, seq![' '], "REPLACE"@);
    assert(words(s3) == words(s2).push("REPLACE"@)) by {
        reveal_strlit("REPLACE");
        lemma_and_word(s2, seq![' '], "REPLACE"@);
    }
    let s4 = and_word(s3, seq![' '], "INTO"@);
    assert(words(s4) == words(s3).push("INTO"@)) by {
        reveal_strlit("INTO");
        lemma_and_word(s3, seq![' '], "INTO"@);
    }
    let s5 = and_word(s4, seq![' '], "rds_link"@);
    assert(words(s5) == words(s4).push("rds_link"@)) by {
        reveal_strlit("rds_link");
        lemma_and_word(s4, seq![' '], "rds_link"@);
    }
    let s6 = and_word(s5, seq![' '], "(rds_key,"@);
    assert(words(s6) == words(s5).push("(rds_key,"@)) by {
        reveal_strlit("(rds_key,");
        lemma_and_word(s5, seq![' '], "(rds_key,"@);
    }
    let s7 = and_word(s6, seq![' '], "group_id)"@);
    assert(words(s7) == words(s6).push("group_id)"@)) by {
        reveal_strlit("group_id)");
        lemma_and_word(s6, seq![' '], "group_id)"@);
    }
    let s8 = and_word(s7, seq![' '], "VALUES"@);
    assert(words(s8) == words(s7).push("VALUES"@)) by {
        reveal_strlit("VALUES");
        lemma_and_word(s7, seq![' '], "VALUES"@);
    }
    let s9 = and_word(s8, seq![' '], "(?1,"@);
    assert(words(s9) == words(s8).push("(?1,"@)) by {
        reveal_strlit("(?1,");
        lemma_and_word(s8, seq![' '], "(?1,"@);
    }
    let s10 = and_word(s9, seq![' '], "?2)"@);
    assert(words(s10) == words(s9).push("?2)"@)) by {
        reveal_strlit("?2)");
        lemma_and_word(s9, seq![' '], "?2)"@);
    }
    reveal_strlit("(?1,");
    reveal_strlit("(rds_key,");
    reveal_strlit("?2)");
    reveal_strlit("INSERT");
    reveal_strlit("INTO");
    reveal_strlit("OR");
    reveal_strlit("REPLACE");
    reveal_strlit("VALUES");
    reveal_strlit("group_id)");
    reveal_strlit("rds_link");
    assert(LINK_SQL@ =~= s10);
    assert(words(s0) == Seq::<Seq<char>>::empty());
}

/// The words of the statement.
pub proof fn lemma_words_of_group_sql()
    ensures
        words(GROUP_SQL@) == seq![
            "INSERT"@,
            "OR"@,
            "REPLACE"@,
            "INTO"@,
            "rds_group"@,
            "(group_id,"@,
            "name)"@,
            "VALUES"@,
            "(?1,"@,
            "?2)"@,
        ],
{
    reveal_strlit("INSERT OR REPLACE INTO rds_group (group_id, name) VALUES (?1, ?2)");
    let s0 = Seq::<char>::empty();
    let s1 = and_word(s0, Seq::<char>::empty(), "INSERT"@);
    assert(words(s1) == words(s0).push("INSERT"@)) by {
        reveal_strlit("INSERT");
        lemma_and_word(s0, Seq::<char>::empty(), "INSERT"@);
    }
    let s2 = and_word(s1, seq![' '], "OR"@);
    assert(words(s2) == words(s1).push("OR"@)) by {
        reveal_strlit("OR");
        lemma_and_word(s1, seq![' '], "OR"@);
    }
    let s3 = and_word(s2, seq![' '], "REPLACE"@);
    assert(words(s3) == words(s2).push("REPLACE"@)) by {
        reveal_strlit("REPLACE");
        lemma_and_word(s2, seq![' '], "REPLACE"@);
    }
    let s4 = and_word(s3, seq![' '], "INTO"@);
    assert(words(s4) == words(s3).push("INTO"@)) by {
        reveal_strlit("INTO");
        lemma_and_word(s3, seq![' '], "INTO"@);
    }
    let s5 = and_word(s4, seq![' '], "rds_group"@);
    assert(words(s5) == words(s4).push("rds_group"@)) by {
        reveal_strlit("rds_group");
        lemma_and_word(s4, seq![' '], "rds_group"@);
    }
    let s6 = and_word(s5, seq![' '], "(group_id,"@);
    assert(words(s6) == words(s5).push("(group_id,"@)) by {
        reveal_strlit("(group_id,");
        lemma_and_word(s5, seq![' '], "(group_id,"@);
    }
    let s7 = and_word(s6, seq![' '], "name)"@);
    assert(words(s7) == words(s6).push("name)"@)) by {
        reveal_strlit("name)");
        lemma_and_word(s6, seq![' '], "name)"@);
    }
    let s8 = and_word(s7, seq![' '], "VALUES"@);
    assert(words(s8) == words(s7).push("VALUES"@)) by {
        reveal_strlit("VALUES");
        lemma_and_word(s7, seq![' '], "VALUES"@);
    }
    let s9 = and_word(s8, seq![' '], "(?1,"@);
    assert(words(s9) == words(s8).push("(?1,"@)) by {
        reveal_strlit("(?1,");
        lemma_and_word(s8, seq![' '], "(?1,"@);
    }
    let s10 = and_word(s9, seq![' '], "?2)"@);
    assert(words(s10) == words(s9).push("?2)"@)) by {
        reveal_strlit("?2)");
        lemma_and_word(s9, seq![' '], "?2)"@);
    }
    reveal_strlit("(?1,");
    reveal_strlit("(group_id,");
    reveal_strlit("?2)");
    reveal_strlit("INSERT");
    reveal_strlit("INTO");
    reveal_strlit("OR");
    reveal_strlit("REPLACE");
    reveal_strlit("VALUES");
    reveal_strlit("name)");
    reveal_strlit("rds_group");
    assert(GROUP_SQL@ =~= s10);
    assert(words(s0) == Seq::<Seq<char>>::empty());
}

/// The words of the statement.
pub proof fn lemma_words_of_clear_year_sql()
    ensures
        words(CLEAR_YEAR_SQL@) == seq![
            "DELETE"@,
            "FROM"@,
            "afmer"@,
            "WHERE"@,
            "source_year"@,
            "="@,
            "?1"@,
        ],
{
    reveal_strlit("DELETE FROM afmer WHERE source_year = ?1");
    let s0 = Seq::<char>::empty();
    let s1 = and_word(s0, Seq::<char>::empty(), "DELETE"@);
    assert(words(s1) == words(s0).push("DELETE"@)) by {
        reveal_strlit("DELETE");
        lemma_and_word(s0, Seq::<char>::empty(), "DELETE"@);
    }
    let s2 = and_word(s1, seq![' '], "FROM"@);
    assert(words(s2) == words(s1).push("FROM"@)) by {
        reveal_strlit("FROM");
        lemma_and_word(s1, seq![' '], "FROM"@);
    }
    let s3 = and_word(s2, seq![' '], "afmer"@);
    assert(words(s3) == words(s2).push("afmer"@)) by {
        reveal_strlit("afmer");
        lemma_and_word(s2, seq![' '], "afmer"@);
    }
    let s4 = and_word(s3, seq![' '], "WHERE"@);
    assert(words(s4) == words(s3).push("WHERE"@)) by {
        reveal_strlit("WHERE");
        lemma_and_word(s3, seq![' '], "WHERE"@);
    }
    let s5 = and_word(s4, seq![' '], "source_year"@);
    assert(words(s5) == words(s4).push("source_year"@)) by {
        reveal_strlit("source_year");
        lemma_and_word(s4, seq![' '], "source_year"@);
    }
    let s6 = and_word(s5, seq![' '], "="@);
    assert(words(s6) == words(s5).push("="@)) by {
        reveal_strlit("=");
        lemma_and_word(s5, seq![' '], "="@);
    }
    let s7 = and_word(s6, seq![' '], "?1"@);
    assert(words(s7) == words(s6).push("?1"@)) by {
        reveal_strlit("?1");
        lemma_and_word(s6, seq![' '], "?1"@);
    }
    reveal_strlit("=");
    reveal_strlit("?1");
    reveal_strlit("DELETE");
    reveal_strlit("FROM");
    reveal_strlit("WHERE");
    reveal_strlit("afmer");
    reveal_strlit("source_year");
    assert(CLEAR_YEAR_SQL@ =~= s7);
    assert(words(s0) == Seq::<Seq<char>>::empty());
}

/// The words of the statement.
pub proof fn lemma_words_of_clear_links_sql()
    ensures
        words(CLEAR_LINKS_SQL@) == seq!["DELETE"@, "FROM"@, "rds_link"@],
{
    reveal_strlit("DELETE FROM rds_link");
    let s0 = Seq::<char>::empty();
    let s1 = and_word(s0, Seq::<char>::empty(), "DELETE"@);
    assert(words(s1) == words(s0).push("DELETE"@)) by {
        reveal_strlit("DELETE");
        lemma_and_word(s0, Seq::<char>::empty(), "DELETE"@);
    }
    let s2 = and_word(s1, seq![' '], "FROM"@);
    assert(words(s2) == words(s1).push("FROM"@)) by {
        reveal_strlit("FROM");
        lemma_and_word(s1, seq![' '], "FROM"@);
    }
    let s3 = and_word(s2, seq![' '], "rds_link"@);
    assert(words(s3) == words(s2).push("rds_link"@)) by {
        reveal_strlit("rds_link");
        lemma_and_word(s2, seq![' '], "rds_link"@);
    }
    reveal_strlit("DELETE");
    reveal_strlit("FROM");
    reveal_strlit("rds_link");
    assert(CLEAR_LINKS_SQL@ =~= s3);
    assert(words(s0) == Seq::<Seq<char>>::empty());
}

/// The words of the statement.
pub proof fn lemma_words_of_clear_groups_sql()
    ensures
        words(CLEAR_GROUPS_SQL@) == seq!["DELETE"@, "FROM"@, "rds_group"@],
{
    reveal_strlit("DELETE FROM rds_group");
    let s0 = Seq::<char>::empty();
    let s1 = and_word(s0, Seq::<char>::empty(), "DELETE"@);
    assert(words(s1) == words(s0).push("DELETE"@)) by {
        reveal_strlit("DELETE");
        lemma_and_word(s0, Seq::<char>::empty(), "DELETE"@);
    }
    let s2 = and_word(s1, seq![' '], "FROM"@);
    assert(words(s2) == words(s1).push("FROM"@)) by {
        reveal_strlit("FROM");
        lemma_and_word(s1, seq![' '], "FROM"@);
    }
    let s3 = and_word(s2, seq![' '], "rds_group"@);
    assert(words(s3) == words(s2).push("rds_group"@)) by {
        reveal_strlit("rds_group");
        lemma_and_word(s2, seq![' '], "rds_group"@);
    }
    reveal_strlit("DELETE");
    reveal_strlit("FROM");
    reveal_strlit("rds_group");
    assert(CLEAR_GROUPS_SQL@ =~= s3);
    assert(words(s0) == Seq::<Seq<char>>::empty());
}

/// The words of the statement.
pub proof fn lemma_words_of_year_count_sql()
    ensures
        words(YEAR_COUNT_SQL@) == seq![
            "SELECT"@,
            "COUNT(*)"@,
            "FROM"@,
            "afmer"@,
            "WHERE"@,
            "source_year"@,
            "="@,
            "?1"@,
        ],
{
    reveal_strlit("SELECT COUNT(*) FROM afmer WHERE source_year = ?1");
    let s0 = Seq::<char>::empty();
    let s1 = and_word(s0, Seq::<char>::empty(), "SELECT"@);
    assert(words(s1) == words(s0).push("SELECT"@)) by {
        reveal_strlit("SELECT");
        lemma_and_word(s0, Seq::<char>::empty(), "SELECT"@);
    }
    let s2 = and_word(s1, seq![' '], "COUNT(*)"@);
    assert(words(s2) == words(s1).push("COUNT(*)"@)) by {
        reveal_strlit("COUNT(*)");
        lemma_and_word(s1, seq![' '], "COUNT(*)"@);
    }
    let s3 = and_word(s2, seq![' '], "FROM"@);
    assert(words(s3) == words(s2).push("FROM"@)) by {
        reveal_strlit("FROM");
        lemma_and_word(s2, seq![' '], "FROM"@);
    }
    let s4 = and_word(s3, seq![' '], "afmer"@);
    assert(words(s4) == words(s3).push("afmer"@)) by {
        reveal_strlit("afmer");
        lemma_and_word(s3, seq![' '], "afmer"@);
    }
    let s5 = and_word(s4, seq![' '], "WHERE"@);
    assert(words(s5) == words(s4).push("WHERE"@)) by {
        reveal_strlit("WHERE");
        lemma_and_word(s4, seq![' '], "WHERE"@);
    }
    let s6 = and_word(s5, seq![' '], "source_year"@);
    assert(words(s6) == words(s5).push("source_year"@)) by {
        reveal_strlit("source_year");
        lemma_and_word(s5, seq![' '], "source_year"@);
    }
    let s7 = and_word(s6, seq![' '], "="@);
    assert(words(s7) == words(s6).push("="@)) by {
        reveal_strlit("=");
        lemma_and_word(s6, seq![' '], "="@);
    }
    let s8 = and_word(s7, seq![' '], "?1"@);
    assert(words(s8) == words(s7).push("?1"@)) by {
        reveal_strlit("?1");
        lemma_and_word(s7, seq![' '], "?1"@);
    }
    reveal_strlit("=");
    reveal_strlit("?1");
    reveal_strlit("COUNT(*)");
    reveal_strlit("FROM");
    reveal_strlit("SELECT");
    reveal_strlit("WHERE");
    reveal_strlit("afmer");
    reveal_strlit("source_year");
    assert(YEAR_COUNT_SQL@ =~= s8);
    assert(words(s0) == Seq::<Seq<char>>::empty());
}

/// The words of the statement.
pub proof fn lemma_words_of_years_sql()
    ensures
        words(YEARS_SQL@) == seq![
            "SELECT"@,
            "DISTINCT"@,
            "source_year"@,
            "FROM"@,
            "afmer"@,
            "ORDER"@,
            "BY"@,
            "source_year"@,
        ],
{
    reveal_strlit("SELECT DISTINCT source_year FROM afmer ORDER BY source_year");
    let s0 = Seq::<char>::empty();
    let s1 = and_word(s0, Seq::<char>::empty(), "SELECT"@);
    assert(words(s1) == words(s0).push("SELECT"@)) by {
        reveal_strlit("SELECT");
        lemma_and_word(s0, Seq::<char>::empty(), "SELECT"@);
    }
    let s2 = and_word(s1, seq![' '], "DISTINCT"@);
    assert(words(s2) == words(s1).push("DISTINCT"@)) by {
        reveal_strlit("DISTINCT");
        lemma_and_word(s1, seq![' '], "DISTINCT"@);
    }
    let s3 = and_word(s2, seq![' '], "source_year"@);
    assert(words(s3) == words(s2).push("source_year"@)) by {
        reveal_strlit("source_year");
        lemma_and_word(s2, seq![' '], "source_year"@);
    }
    let s4 = and_word(s3, seq![' '], "FROM"@);
    assert(words(s4) == words(s3).push("FROM"@)) by {
        reveal_strlit("FROM");
        lemma_and_word(s3, seq![' '], "FROM"@);
    }
    let s5 = and_word(s4, seq![' '], "afmer"@);
    assert(words(s5) == words(s4).push("afmer"@)) by {
        reveal_strlit("afmer");
        lemma_and_word(s4, seq![' '], "afmer"@);
    }
    let s6 = and_word(s5, seq![' '], "ORDER"@);
    assert(words(s6) == words(s5).push("ORDER"@)) by {
        reveal_strlit("ORDER");
        lemma_and_word(s5, seq![' '], "ORDER"@);
    }
    let s7 = and_word(s6, seq![' '], "BY"@);
    assert(words(s7) == words(s6).push("BY"@)) by {
        reveal_strlit("BY");
        lemma_and_word(s6, seq![' '], "BY"@);
    }
    let s8 = and_word(s7, seq![' '], "source_year"@);
    assert(words(s8) == words(s7).push("source_year"@)) by {
        reveal_strlit("source_year");
        lemma_and_word(s7, seq![' '], "source_year"@);
    }
    reveal_strlit("BY");
    reveal_strlit("DISTINCT");
    reveal_strlit("FROM");
    reveal_strlit("ORDER");
    reveal_strlit("SELECT");
    reveal_strlit("afmer");
    reveal_strlit("source_year");
    assert(YEARS_SQL@ =~= s8);
    assert(words(s0) == Seq::<Seq<char>>::empty());
}

/// The words of the statement.
pub proof fn lemma_words_of_states_sql()
    ensures
        words(STATES_SQL@) == seq![
            "SELECT"@,
            "DISTINCT"@,
            "app_premise_state"@,
            "FROM"@,
            "afmer"@,
            "WHERE"@,
            "app_premise_state"@,
            "<>"@,
            "''"@,
            "ORDER"@,
            "BY"@,
            "app_premise_state"@,
        ],
{
    reveal_strlit("SELECT DISTINCT app_premise_state FROM afmer WHERE app_premise_state <> '' ORDER BY app_premise_state");
    let s0 = Seq::<char>::empty();
    let s1 = and_word(s0, Seq::<char>::empty(), "SELECT"@);
    assert(words(s1) == words(s0).push("SELECT"@)) by {
        reveal_strlit("SELECT");
        lemma_and_word(s0, Seq::<char>::empty(), "SELECT"@);
    }
    let s2 = and_word(s1, seq![' '], "DISTINCT"@);
    assert(words(s2) == words(s1).push("DISTINCT"@)) by {
        reveal_strlit("DISTINCT");
        lemma_and_word(s1, seq![' '], "DISTINCT"@);
    }
    let s3 = and_word(s2, seq![' '], "app_premise_state"@);
    assert(words(s3) == words(s2).push("app_premise_state"@)) by {
        reveal_strlit("app_premise_state");
        lemma_and_word(s2, seq![' '], "app_premise_state"@);
    }
    let s4 = and_word(s3, seq![' '], "FROM"@);
    assert(words(s4) == words(s3).push("FROM"@)) by {
        reveal_strlit("FROM");
        lemma_and_word(s3, seq![' '], "FROM"@);
    }
    let s5 = and_word(s4, seq![' '], "afmer"@);
    assert(words(s5) == words(s4).push("afmer"@)) by {
        reveal_strlit("afmer");
        lemma_and_word(s4, seq![' '], "afmer"@);
    }
    let s6 = and_word(s5, seq![' '], "WHERE"@);
    assert(words(s6) == words(s5).push("WHERE"@)) by {
        reveal_strlit("WHERE");
        lemma_and_word(s5, seq![' '], "WHERE"@);
    }
    let s7 = and_word(s6, seq![' '], "app_premise_state"@);
    assert(words(s7) == words(s6).push("app_premise_state"@)) by {
        reveal_strlit("app_premise_state");
        lemma_and_word(s6, seq![' '], "app_premise_state"@);
    }
    let s8 = and_word(s7, seq![' '], "<>"@);
    assert(words(s8) == words(s7).push("<>"@)) by {
        reveal_strlit("<>");
        lemma_and_word(s7, seq![' '], "<>"@);
    }
    let s9 = and_word(s8, seq![' '], "''"@);
    assert(words(s9) == words(s8).push("''"@)) by {
        reveal_strlit("''");
        lemma_and_word(s8, seq![' '], "''"@);
    }
    let s10 = and_word(s9, seq![' '], "ORDER"@);
    assert(words(s10) == words(s9).push("ORDER"@)) by {
        reveal_strlit("ORDER");
        lemma_and_word(s9, seq![' '], "ORDER"@);
    }
    let s11 = and_word(s10, seq![' '], "BY"@);
    assert(words(s11) == words(s10).push("BY"@)) by {
        reveal_strlit("BY");
        lemma_and_word(s10, seq![' '], "BY"@);
    }
    let s12 = and_word(s11, seq![' '], "app_premise_state"@);
    assert(words(s12) == words(s11).push("app_premise_state"@)) by {
        reveal_strlit("app_premise_state");
        lemma_and_word(s11, seq![' '], "app_premise_state"@);
    }
    reveal_strlit("''");
    reveal_strlit("<>");
    reveal_strlit("BY");
    reveal_strlit("DISTINCT");
    reveal_strlit("FROM");
    reveal_strlit("ORDER");
    reveal_strlit("SELECT");
    reveal_strlit("WHERE");
    reveal_strlit("afmer");
    reveal_strlit("app_premise_state");
    assert(STATES_SQL@ =~= s12);
    assert(words(s0) == Seq::<Seq<char>>::empty());
}

/// The words of the statement.
pub proof fn lemma_words_of_labels_sql()
    ensures
        words(LABELS_SQL@) == seq![
            "SELECT"@,
            "code,"@,
            "name,"@,
            "json"@,
            "FROM"@,
            "label"@,
            "ORDER"@,
            "BY"@,
            "code"@,
        ],
{
    reveal_strlit("SELECT code, name, json FROM label ORDER BY code");
    let s0 = Seq::<char>::empty();
    let s1 = and_word(s0, Seq::<char>::empty(), "SELECT"@);
    assert(words(s1) == words(s0).push("SELECT"@)) by {
        reveal_strlit("SELECT");
        lemma_and_word(s0, Seq::<char>::empty(), "SELECT"@);
    }
    let s2 = and_word(s1, seq![' '], "code,"@);
    assert(words(s2) == words(s1).push("code,"@)) by {
        reveal_strlit("code,");
        lemma_and_word(s1, seq![' '], "code,"@);
    }
    let s3 = and_word(s2, seq![' '], "name,"@);
    assert(words(s3) == words(s2).push("name,"@)) by {
        reveal_strlit("name,");
        lemma_and_word(s2, seq![' '], "name,"@);
    }
    let s4 = and_word(s3, seq![' '], "json"@);
    assert(words(s4) == words(s3).push("json"@)) by {
        reveal_strlit("json");
        lemma_and_word(s3, seq![' '], "json"@);
    }
    let s5 = and_word(s4, seq![' '], "FROM"@);
    assert(words(s5) == words(s4).push("FROM"@)) by {
        reveal_strlit("FROM");
        lemma_and_word(s4, seq![' '], "FROM"@);
    }
    let s6 = and_word(s5, seq![' '], "label"@);
    assert(words(s6) == words(s5).push("label"@)) by {
        reveal_strlit("label");
        lemma_and_word(s5, seq![' '], "label"@);
    }
    let s7 = and_word(s6, seq![' '], "ORDER"@);
    assert(words(s7) == words(s6).push("ORDER"@)) by {
        reveal_strlit("ORDER");
        lemma_and_word(s6, seq![' '], "ORDER"@);
    }
    let s8 = and_word(s7, seq![' '], "BY"@);
    assert(words(s8) == words(s7).push("BY"@)) by {
        reveal_strlit("BY");
        lemma_and_word(s7, seq![' '], "BY"@);
    }
    let s9 = and_word(s8, seq![' '], "code"@);
    assert(words(s9) == words(s8).push("code"@)) by {
        reveal_strlit("code");
        lemma_and_word(s8, seq![' '], "code"@);
    }
    reveal_strlit("BY");
    reveal_strlit("FROM");
    reveal_strlit("ORDER");
    reveal_strlit("SELECT");
    reveal_strlit("code");
    reveal_strlit("code,");
    reveal_strlit("json");
    reveal_strlit("label");
    reveal_strlit("name,");
    assert(LABELS_SQL@ =~= s9);
    assert(words(s0) == Seq::<Seq<char>>::empty());
}

/// The words of the statement.
pub proof fn lemma_words_of_group_names_sql()
    ensures
        words(GROUP_NAMES_SQL@) == seq!["SELECT"@, "group_id,"@, "name"@, "FROM"@, "rds_group"@],
{
    reveal_strlit("SELECT group_id, name FROM rds_group");
    let s0 = Seq::<char>::empty();
    let s1 = and_word(s0, Seq::<char>::empty(), "SELECT"@);
    assert(words(s1) == words(s0).push("SELECT"@)) by {
        reveal_strlit("SELECT");
        lemma_and_word(s0, Seq::<char>::empty(), "SELECT"@);
    }
    let s2 = and_word(s1, seq![' '], "group_id,"@);
    assert(words(s2) == words(s1).push("group_id,"@)) by {
        reveal_strlit("group_id,");
        lemma_and_word(s1, seq![' '], "group_id,"@);
    }
    let s3 = and_word(s2, seq![' '], "name"@);
    assert(words(s3) == words(s2).push("name"@)) by {
        reveal_strlit("name");
        lemma_and_word(s2, seq![' '], "name"@);
    }
    let s4 = and_word(s3, seq![' '], "FROM"@);
    assert(words(s4) == words(s3).push("FROM"@)) by {
        reveal_strlit("FROM");
        lemma_and_word(s3, seq![' '], "FROM"@);
    }
    let s5 = and_word(s4, seq![' '], "rds_group"@);
    assert(words(s5) == words(s4).push("rds_group"@)) by {
        reveal_strlit("rds_group");
        lemma_and_word(s4, seq![' '], "rds_group"@);
    }
    reveal_strlit("FROM");
    reveal_strlit("SELECT");
    reveal_strlit("group_id,");
    reveal_strlit("name");
    reveal_strlit("rds_group");
    assert(GROUP_NAMES_SQL@ =~= s5);
    assert(words(s0) == Seq::<Seq<char>>::empty());
}

/// The words of the statement.
pub proof fn lemma_words_of_links_sql()
    ensures
        words(LINKS_SQL@) == seq![
            "SELECT"@,
            "rds_key,"@,
            "group_id"@,
            "FROM"@,
            "rds_link"@,
            "ORDER"@,
            "BY"@,
            "group_id,"@,
            "rds_key"@,
        ],
{
    reveal_strlit("SELECT rds_key, group_id FROM rds_link ORDER BY group_id, rds_key");
    let s0 = Seq::<char>::empty();
    let s1 = and_word(s0, Seq::<char>::empty(), "SELECT"@);
    assert(words(s1) == words(s0).push("SELECT"@)) by {
        reveal_strlit("SELECT");
        lemma_and_word(s0, Seq::<char>::empty(), "SELECT"@);
    }
    let s2 = and_word(s1, seq![' '], "rds_key,"@);
    assert(words(s2) == words(s1).push("rds_key,"@)) by {
        reveal_strlit("rds_key,");
        lemma_and_word(s1, seq![' '], "rds_key,"@);
    }
    let s3 = and_word(s2, seq![' '], "group_id"@);
    assert(words(s3) == words(s2).push("group_id"@)) by {
        reveal_strlit("group_id");
        lemma_and_word(s2, seq![' '], "group_id"@);
    }
    let s4 = and_word(s3, seq![' '], "FROM"@);
    assert(words(s4) == words(s3).push("FROM"@)) by {
        reveal_strlit("FROM");
        lemma_and_word(s3, seq![' '], "FROM"@);
    }
    let s5 = and_word(s4, seq![' '], "rds_link"@);
    assert(words(s5) == words(s4).push("rds_link"@)) by {
        reveal_strlit("rds_link");
        lemma_and_word(s4, seq![' '], "rds_link"@);
    }
    let s6 = and_word(s5, seq![' '], "ORDER"@);
    assert(words(s6) == words(s5).push("ORDER"@)) by {
        reveal_strlit("ORDER");
        lemma_and_word(s5, seq![' '], "ORDER"@);
    }
    let s7 = and_word(s6, seq![' '], "BY"@);
    assert(words(s7) == words(s6).push("BY"@)) by {
        reveal_strlit("BY");
        lemma_and_word(s6, seq![' '], "BY"@);
    }
    let s8 = and_word(s7, seq![' '], "group_id,"@);
    assert(words(s8) == words(s7).push("group_id,"@)) by {
        reveal_strlit("group_id,");
        lemma_and_word(s7, seq![' '], "group_id,"@);
    }
    let s9 = and_word(s8, seq![' '], "rds_key"@);
    assert(words(s9) == words(s8).push("rds_key"@)) by {
        reveal_strlit("rds_key");
        lemma_and_word(s8, seq![' '], "rds_key"@);
    }
    reveal_strlit("BY");
    reveal_strlit("FROM");
    reveal_strlit("ORDER");
    reveal_strlit("SELECT");
    reveal_strlit("group_id");
    reveal_strlit("group_id,");
    reveal_strlit("rds_key");
    reveal_strlit("rds_key,");
    reveal_strlit("rds_link");
    assert(LINKS_SQL@ =~= s9);
    assert(words(s0) == Seq::<Seq<char>>::empty());
}

} // verus!
