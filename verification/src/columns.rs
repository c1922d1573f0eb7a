//! The count columns of a report and the spellings of their headers.

use crate::text::{
    chars_are, chars_of, is_word, join, law_words_of_phrase, phrase, phrase_range, push_text,
    same, texts, to_upper_char, upper_char, words, words_of,
};
use vstd::prelude::*;

verus! {

/// The count columns, in the order in which they follow the state column.
pub const COUNT_COLS: [&'static str; 22] = [
    "pstl_22",
    "pstl_25",
    "pstl_32",
    "pstl_380",
    "pstl_9mm",
    "pstl_50",
    "pstl_totl",
    "rvlr_22",
    "rvlr_32",
    "rvlr_38",
    "rvlr_357",
    "rvlr_44",
    "rvlr_50",
    "rvlr_totl",
    "rifle_mfg",
    "shotgun_mfg",
    "mis_fam",
    "pistol_exp",
    "revolver_exp",
    "rifle_exp",
    "shotgun_exp",
    "misc_fa_exp",
];

/// The five columns in front of the counts of a current report, in order.
pub const LEAD_COLS: [&'static str; 5] = [
    "APP_RDS_KEY",
    "APP_LIC_TYPE",
    "APP_LICENSE_NAME",
    "APP_PREMISE_CITY",
    "APP_PREMISE_STATE",
];

/// The name of count column `i`.
pub open spec fn count_col(i: int) -> Seq<char> {
    COUNT_COLS@[i]@
}

/// A separator character of a header as a blank.
pub open spec fn spaced_char(c: char) -> char {
    if c == '/' || c == '_' {
        ' '
    } else {
        c
    }
}

/// A header in upper case with slashes, underscores and runs of white space as
/// single blanks.
pub open spec fn header_text(header: Seq<char>) -> Seq<char> {
    phrase(words(Seq::new(header.len(), |i: int| spaced_char(upper_char(header[i])))))
}

/// Whether a header text is a spelling of count column `i`.
pub open spec fn is_spelling(n: Seq<char>, i: int) -> bool {
    if i == 0 {
        n == "PSTL 22"@
            || n == "PISTOL 22"@
            || n == "PISTOL 22 MFG"@
    } else if i == 1 {
        n == "PSTL 25"@
            || n == "PISTOL 25"@
            || n == "PISTOL 25 MFG"@
    } else if i == 2 {
        n == "PSTL 32"@
            || n == "PISTOL 32"@
            || n == "PISTOL 32 MFG"@
    } else if i == 3 {
        n == "PSTL 380"@
            || n == "PISTOL 380"@
            || n == "PISTOL 380 MFG"@
    } else if i == 4 {
        n == "PSTL 9MM"@
            || n == "PISTOL 9MM"@
            || n == "PISTOL 9 MFG"@
            || n == "PISTOL 9MM MFG"@
    } else if i == 5 {
        n == "PSTL 50"@
            || n == "PISTOL 50"@
            || n == "PISTOL 50 MFG"@
    } else if i == 6 {
        n == "PSTL TOTL"@
            || n == "PISTOL TOTAL"@
            || n == "PISTOL MFG TOTAL"@
    } else if i == 7 {
        n == "RVLR 22"@
            || n == "RVLR 22 MFG"@
            || n == "REVOLVER 22"@
    } else if i == 8 {
        n == "RVLR 32"@
            || n == "RVLR 32 MFG"@
            || n == "REVOLVER 32"@
    } else if i == 9 {
        n == "RVLR 38"@
            || n == "RVLR 38 MFG"@
            || n == "REVOLVER 38"@
    } else if i == 10 {
        n == "RVLR 357"@
            || n == "RVLR 357 MFG"@
            || n == "REVOLVER 357"@
    } else if i == 11 {
        n == "RVLR 44"@
            || n == "RVLR 44 MFG"@
            || n == "REVOLVER 44"@
    } else if i == 12 {
        n == "RVLR 50"@
            || n == "RVLR 50 MFG"@
            || n == "REVOLVER 50"@
    } else if i == 13 {
        n == "RVLR TOTL"@
            || n == "RVLR TOTAL"@
            || n == "RVLR MFG TOTAL"@
            || n == "REVOLVER TOTAL"@
            || n == "REVOLVER TOTL"@
    } else if i == 14 {
        n == "RIFLE MFG"@
            || n == "RIFLE MANUFACTURED"@
            || n == "RIFLES MANUFACTURED"@
    } else if i == 15 {
        n == "SHOTGUN MFG"@
            || n == "SHOTGUN MANUFACTURED"@
            || n == "SHOTGUNS MANUFACTURED"@
    } else if i == 16 {
        n == "MIS FAM"@
            || n == "MISC FA MFG"@
            || n == "MISCELLANEOUS FIREARMS MANUFACTURED"@
            || n == "MISC FIREARMS MANUFACTURED"@
            || n == "MICELLANEOUS FIREARMS MANUFACTURED"@
    } else if i == 17 {
        n == "PISTOL EXP"@
            || n == "PISTOLS EXP"@
            || n == "PISTOLS EXPORTED"@
    } else if i == 18 {
        n == "RVLR EXP"@
            || n == "REVOLVER EXP"@
            || n == "REVOLVERS EXP"@
            || n == "REVOLVERS EXPORTED"@
    } else if i == 19 {
        n == "RIFLE EXP"@
            || n == "RIFLES EXP"@
            || n == "RIFLES EXPORTED"@
    } else if i == 20 {
        n == "SHOTGUN EXP"@
            || n == "SHOTGUNS EXP"@
            || n == "SHOTGUNS EXPORTED"@
    } else if i == 21 {
        n == "MISC FA EXP"@
            || n == "MISCELLANEOUS FIREARMS EXPORTED"@
            || n == "MICELLANEOUS FIREARMS EXPORTED"@
            || n == "MISC FIREARMS EXPORTED"@
    } else {
        false
    }
}

/// The first count column from `from` on that a header text spells.
pub open spec fn column_from(n: Seq<char>, from: int) -> Option<int>
    decreases 22 - from,
{
    if from >= 22 {
        None
    } else if is_spelling(n, from) {
        Some(from)
    } else {
        column_from(n, from + 1)
    }
}

/// The count column that a header stands for.
pub open spec fn count_column(header: Seq<char>) -> Option<int> {
    column_from(header_text(header), 0)
}

/// The first position from `from` on at which `name` is a column name.
pub open spec fn index_from(name: Seq<char>, from: int) -> Option<int>
    decreases 22 - from,
{
    if from >= 22 {
        None
    } else if count_col(from) == name {
        Some(from)
    } else {
        index_from(name, from + 1)
    }
}

fn header_text_of(header: &str) -> (r: String)
    ensures
        r@ == header_text(header@),
{
    let mut spaced = String::new();
    let ghost whole = Seq::new(header@.len(), |i: int| spaced_char(upper_char(header@[i])));
    for c in it: header.chars()
        invariant
            it.seq() == header@,
            whole == Seq::new(header@.len(), |i: int| spaced_char(upper_char(header@[i]))),
            spaced@ == whole.take(it.index() as int),
    {
        let u = to_upper_char(c);
        spaced.push(if u == '/' || u == '_' { ' ' } else { u });
    }
    assert(spaced@ == whole);
    let ws = words_of(spaced.as_str());
    let r = phrase_range(&ws, 0, ws.len());
    assert(texts(ws@).subrange(0, ws@.len() as int) == texts(ws@));
    r
}

fn spells(n: &Vec<char>, i: usize) -> (r: bool)
    ensures
        r == is_spelling(n@, i as int),
{
    if i == 0 {
        chars_are(n, "PSTL 22")
            || chars_are(n, "PISTOL 22")
            || chars_are(n, "PISTOL 22 MFG")
    } else if i == 1 {
        chars_are(n, "PSTL 25")
            || chars_are(n, "PISTOL 25")
            || chars_are(n, "PISTOL 25 MFG")
    } else if i == 2 {
        chars_are(n, "PSTL 32")
            || chars_are(n, "PISTOL 32")
            || chars_are(n, "PISTOL 32 MFG")
    } else if i == 3 {
        chars_are(n, "PSTL 380")
            || chars_are(n, "PISTOL 380")
            || chars_are(n, "PISTOL 380 MFG")
    } else if i == 4 {
        chars_are(n, "PSTL 9MM")
            || chars_are(n, "PISTOL 9MM")
            || chars_are(n, "PISTOL 9 MFG")
            || chars_are(n, "PISTOL 9MM MFG")
    } else if i == 5 {
        chars_are(n, "PSTL 50")
            || chars_are(n, "PISTOL 50")
            || chars_are(n, "PISTOL 50 MFG")
    } else if i == 6 {
        chars_are(n, "PSTL TOTL")
            || chars_are(n, "PISTOL TOTAL")
            || chars_are(n, "PISTOL MFG TOTAL")
    } else if i == 7 {
        chars_are(n, "RVLR 22")
            || chars_are(n, "RVLR 22 MFG")
            || chars_are(n, "REVOLVER 22")
    } else if i == 8 {
        chars_are(n, "RVLR 32")
            || chars_are(n, "RVLR 32 MFG")
            || chars_are(n, "REVOLVER 32")
    } else if i == 9 {
        chars_are(n, "RVLR 38")
            || chars_are(n, "RVLR 38 MFG")
            || chars_are(n, "REVOLVER 38")
    } else if i == 10 {
        chars_are(n, "RVLR 357")
            || chars_are(n, "RVLR 357 MFG")
            || chars_are(n, "REVOLVER 357")
    } else if i == 11 {
        chars_are(n, "RVLR 44")
            || chars_are(n, "RVLR 44 MFG")
            || chars_are(n, "REVOLVER 44")
    } else if i == 12 {
        chars_are(n, "RVLR 50")
            || chars_are(n, "RVLR 50 MFG")
            || chars_are(n, "REVOLVER 50")
    } else if i == 13 {
        chars_are(n, "RVLR TOTL")
            || chars_are(n, "RVLR TOTAL")
            || chars_are(n, "RVLR MFG TOTAL")
            || chars_are(n, "REVOLVER TOTAL")
            || chars_are(n, "REVOLVER TOTL")
    } else if i == 14 {
        chars_are(n, "RIFLE MFG")
            || chars_are(n, "RIFLE MANUFACTURED")
            || chars_are(n, "RIFLES MANUFACTURED")
    } else if i == 15 {
        chars_are(n, "SHOTGUN MFG")
            || chars_are(n, "SHOTGUN MANUFACTURED")
            || chars_are(n, "SHOTGUNS MANUFACTURED")
    } else if i == 16 {
        chars_are(n, "MIS FAM")
            || chars_are(n, "MISC FA MFG")
            || chars_are(n, "MISCELLANEOUS FIREARMS MANUFACTURED")
            || chars_are(n, "MISC FIREARMS MANUFACTURED")
            || chars_are(n, "MICELLANEOUS FIREARMS MANUFACTURED")
    } else if i == 17 {
        chars_are(n, "PISTOL EXP")
            || chars_are(n, "PISTOLS EXP")
            || chars_are(n, "PISTOLS EXPORTED")
    } else if i == 18 {
        chars_are(n, "RVLR EXP")
            || chars_are(n, "REVOLVER EXP")
            || chars_are(n, "REVOLVERS EXP")
            || chars_are(n, "REVOLVERS EXPORTED")
    } else if i == 19 {
        chars_are(n, "RIFLE EXP")
            || chars_are(n, "RIFLES EXP")
            || chars_are(n, "RIFLES EXPORTED")
    } else if i == 20 {
        chars_are(n, "SHOTGUN EXP")
            || chars_are(n, "SHOTGUNS EXP")
            || chars_are(n, "SHOTGUNS EXPORTED")
    } else if i == 21 {
        chars_are(n, "MISC FA EXP")
            || chars_are(n, "MISCELLANEOUS FIREARMS EXPORTED")
            || chars_are(n, "MICELLANEOUS FIREARMS EXPORTED")
            || chars_are(n, "MISC FIREARMS EXPORTED")
    } else {
        false
    }
}

/// Maps a count column header, in any spelling that a report or a workbook
/// uses, to the canonical column name.
pub fn canonical_count(header: &str) -> (r: Option<&'static str>)
    ensures
        match count_column(header@) {
            Some(i) => 0 <= i < 22 && (r matches Some(name) && name@ == count_col(i)),
            None => r is None,
        },
{
    match canonical_index(header) {
        Some(i) => Some(COUNT_COLS[i]),
        None => None,
    }
}

/// The position among the count columns of the column that a header stands for.
pub fn canonical_index(header: &str) -> (r: Option<usize>)
    ensures
        match r {
            Some(i) => i < 22 && count_column(header@) == Some(i as int),
            None => count_column(header@) is None,
        },
{
    let n = header_text_of(header);
    let chars = chars_of(n.as_str());
    let mut i: usize = 0;
    while i < 22
        invariant
            i <= 22,
            chars@ == header_text(header@),
            column_from(chars@, 0) == column_from(chars@, i as int),
        decreases 22 - i,
    {
        if spells(&chars, i) {
            return Some(i);
        }
        i += 1;
    }
    None
}

/// The position of a canonical column name among the count columns.
pub fn count_index(canonical: &str) -> (r: Option<usize>)
    ensures
        match r {
            Some(i) => i < 22 && index_from(canonical@, 0) == Some(i as int),
            None => index_from(canonical@, 0) is None,
        },
{
    let mut i: usize = 0;
    while i < 22
        invariant
            i <= 22,
            index_from(canonical@, 0) == index_from(canonical@, i as int),
        decreases 22 - i,
    {
        if same(COUNT_COLS[i], canonical) {
            return Some(i);
        }
        i += 1;
    }
    None
}

proof fn lemma_columns_distinct(i: int, j: int)
    requires
        0 <= i < j < 22,
    ensures
        count_col(i) != count_col(j),
{
    reveal_strlit("pstl_22");
    assert("pstl_22"@.len() == 7 && "pstl_22"@[0] == 'p' && "pstl_22"@[5] == '2' && "pstl_22"@[6] == '2');
    reveal_strlit("pstl_25");
    assert("pstl_25"@.len() == 7 && "pstl_25"@[0] == 'p' && "pstl_25"@[5] == '2' && "pstl_25"@[6] == '5');
    reveal_strlit("pstl_32");
    assert("pstl_32"@.len() == 7 && "pstl_32"@[0] == 'p' && "pstl_32"@[5] == '3' && "pstl_32"@[6] == '2');
    reveal_strlit("pstl_380");
    assert("pstl_380"@.len() == 8 && "pstl_380"@[0] == 'p' && "pstl_380"@[5] == '3' && "pstl_380"@[6] == '8');
    reveal_strlit("pstl_9mm");
    assert("pstl_9mm"@.len() == 8 && "pstl_9mm"@[0] == 'p' && "pstl_9mm"@[5] == '9' && "pstl_9mm"@[6] == 'm');
    reveal_strlit("pstl_50");
    assert("pstl_50"@.len() == 7 && "pstl_50"@[0] == 'p' && "pstl_50"@[5] == '5' && "pstl_50"@[6] == '0');
    reveal_strlit("pstl_totl");
    assert("pstl_totl"@.len() == 9 && "pstl_totl"@[0] == 'p' && "pstl_totl"@[5] == 't' && "pstl_totl"@[6] == 'o' && "pstl_totl"@[8] == 'l');
    reveal_strlit("rvlr_22");
    assert("rvlr_22"@.len() == 7 && "rvlr_22"@[0] == 'r' && "rvlr_22"@[5] == '2' && "rvlr_22"@[6] == '2');
    reveal_strlit("rvlr_32");
    assert("rvlr_32"@.len() == 7 && "rvlr_32"@[0] == 'r' && "rvlr_32"@[5] == '3' && "rvlr_32"@[6] == '2');
    reveal_strlit("rvlr_38");
    assert("rvlr_38"@.len() == 7 && "rvlr_38"@[0] == 'r' && "rvlr_38"@[5] == '3' && "rvlr_38"@[6] == '8');
    reveal_strlit("rvlr_357");
    assert("rvlr_357"@.len() == 8 && "rvlr_357"@[0] == 'r' && "rvlr_357"@[5] == '3' && "rvlr_357"@[6] == '5');
    reveal_strlit("rvlr_44");
    assert("rvlr_44"@.len() == 7 && "rvlr_44"@[0] == 'r' && "rvlr_44"@[5] == '4' && "rvlr_44"@[6] == '4');
    reveal_strlit("rvlr_50");
    assert("rvlr_50"@.len() == 7 && "rvlr_50"@[0] == 'r' && "rvlr_50"@[5] == '5' && "rvlr_50"@[6] == '0');
    reveal_strlit("rvlr_totl");
    assert("rvlr_totl"@.len() == 9 && "rvlr_totl"@[0] == 'r' && "rvlr_totl"@[5] == 't' && "rvlr_totl"@[6] == 'o' && "rvlr_totl"@[8] == 'l');
    reveal_strlit("rifle_mfg");
    assert("rifle_mfg"@.len() == 9 && "rifle_mfg"@[0] == 'r' && "rifle_mfg"@[5] == '_' && "rifle_mfg"@[6] == 'm' && "rifle_mfg"@[8] == 'g');
    reveal_strlit("shotgun_mfg");
    assert("shotgun_mfg"@.len() == 11 && "shotgun_mfg"@[0] == 's' && "shotgun_mfg"@[5] == 'u' && "shotgun_mfg"@[6] == 'n' && "shotgun_mfg"@[8] == 'm');
    reveal_strlit("mis_fam");
    assert("mis_fam"@.len() == 7 && "mis_fam"@[0] == 'm' && "mis_fam"@[5] == 'a' && "mis_fam"@[6] == 'm');
    reveal_strlit("pistol_exp");
    assert("pistol_exp"@.len() == 10 && "pistol_exp"@[0] == 'p' && "pistol_exp"@[5] == 'l' && "pistol_exp"@[6] == '_' && "pistol_exp"@[8] == 'x');
    reveal_strlit("revolver_exp");
    assert("revolver_exp"@.len() == 12 && "revolver_exp"@[0] == 'r' && "revolver_exp"@[5] == 'v' && "revolver_exp"@[6] == 'e' && "revolver_exp"@[8] == '_');
    reveal_strlit("rifle_exp");
    assert("rifle_exp"@.len() == 9 && "rifle_exp"@[0] == 'r' && "rifle_exp"@[5] == '_' && "rifle_exp"@[6] == 'e' && "rifle_exp"@[8] == 'p');
    reveal_strlit("shotgun_exp");
    assert("shotgun_exp"@.len() == 11 && "shotgun_exp"@[0] == 's' && "shotgun_exp"@[5] == 'u' && "shotgun_exp"@[6] == 'n' && "shotgun_exp"@[8] == 'e');
    reveal_strlit("misc_fa_exp");
    assert("misc_fa_exp"@.len() == 11 && "misc_fa_exp"@[0] == 'm' && "misc_fa_exp"@[5] == 'f' && "misc_fa_exp"@[6] == 'a' && "misc_fa_exp"@[8] == 'e');
}

/// The names of the count columns.
pub fn count_names() -> (r: Vec<String>)
    ensures
        texts(r@) == Seq::new(22, |i: int| count_col(i)),
{
    let ghost all = Seq::new(22, |i: int| count_col(i));
    let mut out: Vec<String> = Vec::new();
    let mut i: usize = 0;
    while i < 22
        invariant
            i <= 22,
            all == Seq::new(22, |i: int| count_col(i)),
            texts(out@) == all.take(i as int),
        decreases 22 - i,
    {
        push_text(&mut out, COUNT_COLS[i].to_owned());
        i += 1;
        assert(texts(out@) == all.take(i as int));
    }
    assert(all.take(22) == all);
    out
}

/// Looking up the name of a count column gives its position.
pub proof fn law_count_index(i: int)
    requires
        0 <= i < 22,
    ensures
        index_from(count_col(i), 0) == Some(i),
{
    lemma_index_from(i, 0);
}

proof fn lemma_index_from(i: int, from: int)
    requires
        0 <= from <= i < 22,
    ensures
        index_from(count_col(i), from) == Some(i),
    decreases i - from,
{
    if from < i {
        lemma_columns_distinct(from, i);
        lemma_index_from(i, from + 1);
    }
}

/// No header text spells two count columns.
pub proof fn law_spellings_disjoint(n: Seq<char>, i: int, j: int)
    requires
        is_spelling(n, i),
        is_spelling(n, j),
    ensures
        i == j,
{
    reveal_strlit("PSTL 22");
    assert("PSTL 22"@.len() == 7 && "PSTL 22"@[0] == 'P' && "PSTL 22"@[5] == '2' && "PSTL 22"@[6] == '2');
    reveal_strlit("PISTOL 22");
    assert("PISTOL 22"@.len() == 9 && "PISTOL 22"@[0] == 'P' && "PISTOL 22"@[5] == 'L' && "PISTOL 22"@[6] == ' ' && "PISTOL 22"@[7] == '2' && "PISTOL 22"@[8] == '2');
    reveal_strlit("PISTOL 22 MFG");
    assert("PISTOL 22 MFG"@.len() == 13 && "PISTOL 22 MFG"@[0] == 'P' && "PISTOL 22 MFG"@[5] == 'L' && "PISTOL 22 MFG"@[6] == ' ' && "PISTOL 22 MFG"@[7] == '2' && "PISTOL 22 MFG"@[8] == '2' && "PISTOL 22 MFG"@[9] == ' ' && "PISTOL 22 MFG"@[10] == 'M');
    reveal_strlit("PSTL 25");
    assert("PSTL 25"@.len() == 7 && "PSTL 25"@[0] == 'P' && "PSTL 25"@[5] == '2' && "PSTL 25"@[6] == '5');
    reveal_strlit("PISTOL 25");
    assert("PISTOL 25"@.len() == 9 && "PISTOL 25"@[0] == 'P' && "PISTOL 25"@[5] == 'L' && "PISTOL 25"@[6] == ' ' && "PISTOL 25"@[7] == '2' && "PISTOL 25"@[8] == '5');
    reveal_strlit("PISTOL 25 MFG");
    assert("PISTOL 25 MFG"@.len() == 13 && "PISTOL 25 MFG"@[0] == 'P' && "PISTOL 25 MFG"@[5] == 'L' && "PISTOL 25 MFG"@[6] == ' ' && "PISTOL 25 MFG"@[7] == '2' && "PISTOL 25 MFG"@[8] == '5' && "PISTOL 25 MFG"@[9] == ' ' && "PISTOL 25 MFG"@[10] == 'M');
    reveal_strlit("PSTL 32");
    assert("PSTL 32"@.len() == 7 && "PSTL 32"@[0] == 'P' && "PSTL 32"@[5] == '3' && "PSTL 32"@[6] == '2');
    reveal_strlit("PISTOL 32");
    assert("PISTOL 32"@.len() == 9 && "PISTOL 32"@[0] == 'P' && "PISTOL 32"@[5] == 'L' && "PISTOL 32"@[6] == ' ' && "PISTOL 32"@[7] == '3' && "PISTOL 32"@[8] == '2');
    reveal_strlit("PISTOL 32 MFG");
    assert("PISTOL 32 MFG"@.len() == 13 && "PISTOL 32 MFG"@[0] == 'P' && "PISTOL 32 MFG"@[5] == 'L' && "PISTOL 32 MFG"@[6] == ' ' && "PISTOL 32 MFG"@[7] == '3' && "PISTOL 32 MFG"@[8] == '2' && "PISTOL 32 MFG"@[9] == ' ' && "PISTOL 32 MFG"@[10] == 'M');
    reveal_strlit("PSTL 380");
    assert("PSTL 380"@.len() == 8 && "PSTL 380"@[0] == 'P' && "PSTL 380"@[5] == '3' && "PSTL 380"@[6] == '8' && "PSTL 380"@[7] == '0');
    reveal_strlit("PISTOL 380");
    assert("PISTOL 380"@.len() == 10 && "PISTOL 380"@[0] == 'P' && "PISTOL 380"@[5] == 'L' && "PISTOL 380"@[6] == ' ' && "PISTOL 380"@[7] == '3' && "PISTOL 380"@[8] == '8' && "PISTOL 380"@[9] == '0');
    reveal_strlit("PISTOL 380 MFG");
    assert("PISTOL 380 MFG"@.len() == 14 && "PISTOL 380 MFG"@[0] == 'P' && "PISTOL 380 MFG"@[5] == 'L' && "PISTOL 380 MFG"@[6] == ' ' && "PISTOL 380 MFG"@[7] == '3' && "PISTOL 380 MFG"@[8] == '8' && "PISTOL 380 MFG"@[9] == '0' && "PISTOL 380 MFG"@[10] == ' ');
    reveal_strlit("PSTL 9MM");
    assert("PSTL 9MM"@.len() == 8 && "PSTL 9MM"@[0] == 'P' && "PSTL 9MM"@[5] == '9' && "PSTL 9MM"@[6] == 'M' && "PSTL 9MM"@[7] == 'M');
    reveal_strlit("PISTOL 9MM");
    assert("PISTOL 9MM"@.len() == 10 && "PISTOL 9MM"@[0] == 'P' && "PISTOL 9MM"@[5] == 'L' && "PISTOL 9MM"@[6] == ' ' && "PISTOL 9MM"@[7] == '9' && "PISTOL 9MM"@[8] == 'M' && "PISTOL 9MM"@[9] == 'M');
    reveal_strlit("PISTOL 9 MFG");
    assert("PISTOL 9 MFG"@.len() == 12 && "PISTOL 9 MFG"@[0] == 'P' && "PISTOL 9 MFG"@[5] == 'L' && "PISTOL 9 MFG"@[6] == ' ' && "PISTOL 9 MFG"@[7] == '9' && "PISTOL 9 MFG"@[8] == ' ' && "PISTOL 9 MFG"@[9] == 'M' && "PISTOL 9 MFG"@[10] == 'F');
    reveal_strlit("PISTOL 9MM MFG");
    assert("PISTOL 9MM MFG"@.len() == 14 && "PISTOL 9MM MFG"@[0] == 'P' && "PISTOL 9MM MFG"@[5] == 'L' && "PISTOL 9MM MFG"@[6] == ' ' && "PISTOL 9MM MFG"@[7] == '9' && "PISTOL 9MM MFG"@[8] == 'M' && "PISTOL 9MM MFG"@[9] == 'M' && "PISTOL 9MM MFG"@[10] == ' ');
    reveal_strlit("PSTL 50");
    assert("PSTL 50"@.len() == 7 && "PSTL 50"@[0] == 'P' && "PSTL 50"@[5] == '5' && "PSTL 50"@[6] == '0');
    reveal_strlit("PISTOL 50");
    assert("PISTOL 50"@.len() == 9 && "PISTOL 50"@[0] == 'P' && "PISTOL 50"@[5] == 'L' && "PISTOL 50"@[6] == ' ' && "PISTOL 50"@[7] == '5' && "PISTOL 50"@[8] == '0');
    reveal_strlit("PISTOL 50 MFG");
    assert("PISTOL 50 MFG"@.len() == 13 && "PISTOL 50 MFG"@[0] == 'P' && "PISTOL 50 MFG"@[5] == 'L' && "PISTOL 50 MFG"@[6] == ' ' && "PISTOL 50 MFG"@[7] == '5' && "PISTOL 50 MFG"@[8] == '0' && "PISTOL 50 MFG"@[9] == ' ' && "PISTOL 50 MFG"@[10] == 'M');
    reveal_strlit("PSTL TOTL");
    assert("PSTL TOTL"@.len() == 9 && "PSTL TOTL"@[0] == 'P' && "PSTL TOTL"@[5] == 'T' && "PSTL TOTL"@[6] == 'O' && "PSTL TOTL"@[7] == 'T' && "PSTL TOTL"@[8] == 'L');
    reveal_strlit("PISTOL TOTAL");
    assert("PISTOL TOTAL"@.len() == 12 && "PISTOL TOTAL"@[0] == 'P' && "PISTOL TOTAL"@[5] == 'L' && "PISTOL TOTAL"@[6] == ' ' && "PISTOL TOTAL"@[7] == 'T' && "PISTOL TOTAL"@[8] == 'O' && "PISTOL TOTAL"@[9] == 'T' && "PISTOL TOTAL"@[10] == 'A');
    reveal_strlit("PISTOL MFG TOTAL");
    assert("PISTOL MFG TOTAL"@.len() == 16 && "PISTOL MFG TOTAL"@[0] == 'P' && "PISTOL MFG TOTAL"@[5] == 'L' && "PISTOL MFG TOTAL"@[6] == ' ' && "PISTOL MFG TOTAL"@[7] == 'M' && "PISTOL MFG TOTAL"@[8] == 'F' && "PISTOL MFG TOTAL"@[9] == 'G' && "PISTOL MFG TOTAL"@[10] == ' ');
    reveal_strlit("RVLR 22");
    assert("RVLR 22"@.len() == 7 && "RVLR 22"@[0] == 'R' && "RVLR 22"@[5] == '2' && "RVLR 22"@[6] == '2');
    reveal_strlit("RVLR 22 MFG");
    assert("RVLR 22 MFG"@.len() == 11 && "RVLR 22 MFG"@[0] == 'R' && "RVLR 22 MFG"@[5] == '2' && "RVLR 22 MFG"@[6] == '2' && "RVLR 22 MFG"@[7] == ' ' && "RVLR 22 MFG"@[8] == 'M' && "RVLR 22 MFG"@[9] == 'F' && "RVLR 22 MFG"@[10] == 'G');
    reveal_strlit("REVOLVER 22");
    assert("REVOLVER 22"@.len() == 11 && "REVOLVER 22"@[0] == 'R' && "REVOLVER 22"@[5] == 'V' && "REVOLVER 22"@[6] == 'E' && "REVOLVER 22"@[7] == 'R' && "REVOLVER 22"@[8] == ' ' && "REVOLVER 22"@[9] == '2' && "REVOLVER 22"@[10] == '2');
    reveal_strlit("RVLR 32");
    assert("RVLR 32"@.len() == 7 && "RVLR 32"@[0] == 'R' && "RVLR 32"@[5] == '3' && "RVLR 32"@[6] == '2');
    reveal_strlit("RVLR 32 MFG");
    assert("RVLR 32 MFG"@.len() == 11 && "RVLR 32 MFG"@[0] == 'R' && "RVLR 32 MFG"@[5] == '3' && "RVLR 32 MFG"@[6] == '2' && "RVLR 32 MFG"@[7] == ' ' && "RVLR 32 MFG"@[8] == 'M' && "RVLR 32 MFG"@[9] == 'F' && "RVLR 32 MFG"@[10] == 'G');
    reveal_strlit("REVOLVER 32");
    assert("REVOLVER 32"@.len() == 11 && "REVOLVER 32"@[0] == 'R' && "REVOLVER 32"@[5] == 'V' && "REVOLVER 32"@[6] == 'E' && "REVOLVER 32"@[7] == 'R' && "REVOLVER 32"@[8] == ' ' && "REVOLVER 32"@[9] == '3' && "REVOLVER 32"@[10] == '2');
    reveal_strlit("RVLR 38");
    assert("RVLR 38"@.len() == 7 && "RVLR 38"@[0] == 'R' && "RVLR 38"@[5] == '3' && "RVLR 38"@[6] == '8');
    reveal_strlit("RVLR 38 MFG");
    assert("RVLR 38 MFG"@.len() == 11 && "RVLR 38 MFG"@[0] == 'R' && "RVLR 38 MFG"@[5] == '3' && "RVLR 38 MFG"@[6] == '8' && "RVLR 38 MFG"@[7] == ' ' && "RVLR 38 MFG"@[8] == 'M' && "RVLR 38 MFG"@[9] == 'F' && "RVLR 38 MFG"@[10] == 'G');
    reveal_strlit("REVOLVER 38");
    assert("REVOLVER 38"@.len() == 11 && "REVOLVER 38"@[0] == 'R' && "REVOLVER 38"@[5] == 'V' && "REVOLVER 38"@[6] == 'E' && "REVOLVER 38"@[7] == 'R' && "REVOLVER 38"@[8] == ' ' && "REVOLVER 38"@[9] == '3' && "REVOLVER 38"@[10] == '8');
    reveal_strlit("RVLR 357");
    assert("RVLR 357"@.len() == 8 && "RVLR 357"@[0] == 'R' && "RVLR 357"@[5] == '3' && "RVLR 357"@[6] == '5' && "RVLR 357"@[7] == '7');
    reveal_strlit("RVLR 357 MFG");
    assert("RVLR 357 MFG"@.len() == 12 && "RVLR 357 MFG"@[0] == 'R' && "RVLR 357 MFG"@[5] == '3' && "RVLR 357 MFG"@[6] == '5' && "RVLR 357 MFG"@[7] == '7' && "RVLR 357 MFG"@[8] == ' ' && "RVLR 357 MFG"@[9] == 'M' && "RVLR 357 MFG"@[10] == 'F');
    reveal_strlit("REVOLVER 357");
    assert("REVOLVER 357"@.len() == 12 && "REVOLVER 357"@[0] == 'R' && "REVOLVER 357"@[5] == 'V' && "REVOLVER 357"@[6] == 'E' && "REVOLVER 357"@[7] == 'R' && "REVOLVER 357"@[8] == ' ' && "REVOLVER 357"@[9] == '3' && "REVOLVER 357"@[10] == '5');
    reveal_strlit("RVLR 44");
    assert("RVLR 44"@.len() == 7 && "RVLR 44"@[0] == 'R' && "RVLR 44"@[5] == '4' && "RVLR 44"@[6] == '4');
    reveal_strlit("RVLR 44 MFG");
    assert("RVLR 44 MFG"@.len() == 11 && "RVLR 44 MFG"@[0] == 'R' && "RVLR 44 MFG"@[5] == '4' && "RVLR 44 MFG"@[6] == '4' && "RVLR 44 MFG"@[7] == ' ' && "RVLR 44 MFG"@[8] == 'M' && "RVLR 44 MFG"@[9] == 'F' && "RVLR 44 MFG"@[10] == 'G');
    reveal_strlit("REVOLVER 44");
    assert("REVOLVER 44"@.len() == 11 && "REVOLVER 44"@[0] == 'R' && "REVOLVER 44"@[5] == 'V' && "REVOLVER 44"@[6] == 'E' && "REVOLVER 44"@[7] == 'R' && "REVOLVER 44"@[8] == ' ' && "REVOLVER 44"@[9] == '4' && "REVOLVER 44"@[10] == '4');
    reveal_strlit("RVLR 50");
    assert("RVLR 50"@.len() == 7 && "RVLR 50"@[0] == 'R' && "RVLR 50"@[5] == '5' && "RVLR 50"@[6] == '0');
    reveal_strlit("RVLR 50 MFG");
    assert("RVLR 50 MFG"@.len() == 11 && "RVLR 50 MFG"@[0] == 'R' && "RVLR 50 MFG"@[5] == '5' && "RVLR 50 MFG"@[6] == '0' && "RVLR 50 MFG"@[7] == ' ' && "RVLR 50 MFG"@[8] == 'M' && "RVLR 50 MFG"@[9] == 'F' && "RVLR 50 MFG"@[10] == 'G');
    reveal_strlit("REVOLVER 50");
    assert("REVOLVER 50"@.len() == 11 && "REVOLVER 50"@[0] == 'R' && "REVOLVER 50"@[5] == 'V' && "REVOLVER 50"@[6] == 'E' && "REVOLVER 50"@[7] == 'R' && "REVOLVER 50"@[8] == ' ' && "REVOLVER 50"@[9] == '5' && "REVOLVER 50"@[10] == '0');
    reveal_strlit("RVLR TOTL");
    assert("RVLR TOTL"@.len() == 9 && "RVLR TOTL"@[0] == 'R' && "RVLR TOTL"@[5] == 'T' && "RVLR TOTL"@[6] == 'O' && "RVLR TOTL"@[7] == 'T' && "RVLR TOTL"@[8] == 'L');
    reveal_strlit("RVLR TOTAL");
    assert("RVLR TOTAL"@.len() == 10 && "RVLR TOTAL"@[0] == 'R' && "RVLR TOTAL"@[5] == 'T' && "RVLR TOTAL"@[6] == 'O' && "RVLR TOTAL"@[7] == 'T' && "RVLR TOTAL"@[8] == 'A' && "RVLR TOTAL"@[9] == 'L');
    reveal_strlit("RVLR MFG TOTAL");
    assert("RVLR MFG TOTAL"@.len() == 14 && "RVLR MFG TOTAL"@[0] == 'R' && "RVLR MFG TOTAL"@[5] == 'M' && "RVLR MFG TOTAL"@[6] == 'F' && "RVLR MFG TOTAL"@[7] == 'G' && "RVLR MFG TOTAL"@[8] == ' ' && "RVLR MFG TOTAL"@[9] == 'T' && "RVLR MFG TOTAL"@[10] == 'O');
    reveal_strlit("REVOLVER TOTAL");
    assert("REVOLVER TOTAL"@.len() == 14 && "REVOLVER TOTAL"@[0] == 'R' && "REVOLVER TOTAL"@[5] == 'V' && "REVOLVER TOTAL"@[6] == 'E' && "REVOLVER TOTAL"@[7] == 'R' && "REVOLVER TOTAL"@[8] == ' ' && "REVOLVER TOTAL"@[9] == 'T' && "REVOLVER TOTAL"@[10] == 'O');
    reveal_strlit("REVOLVER TOTL");
    assert("REVOLVER TOTL"@.len() == 13 && "REVOLVER TOTL"@[0] == 'R' && "REVOLVER TOTL"@[5] == 'V' && "REVOLVER TOTL"@[6] == 'E' && "REVOLVER TOTL"@[7] == 'R' && "REVOLVER TOTL"@[8] == ' ' && "REVOLVER TOTL"@[9] == 'T' && "REVOLVER TOTL"@[10] == 'O');
    reveal_strlit("RIFLE MFG");
    assert("RIFLE MFG"@.len() == 9 && "RIFLE MFG"@[0] == 'R' && "RIFLE MFG"@[5] == ' ' && "RIFLE MFG"@[6] == 'M' && "RIFLE MFG"@[7] == 'F' && "RIFLE MFG"@[8] == 'G');
    reveal_strlit("RIFLE MANUFACTURED");
    assert("RIFLE MANUFACTURED"@.len() == 18 && "RIFLE MANUFACTURED"@[0] == 'R' && "RIFLE MANUFACTURED"@[5] == ' ' && "RIFLE MANUFACTURED"@[6] == 'M' && "RIFLE MANUFACTURED"@[7] == 'A' && "RIFLE MANUFACTURED"@[8] == 'N' && "RIFLE MANUFACTURED"@[9] == 'U' && "RIFLE MANUFACTURED"@[10] == 'F');
    reveal_strlit("RIFLES MANUFACTURED");
    assert("RIFLES MANUFACTURED"@.len() == 19 && "RIFLES MANUFACTURED"@[0] == 'R' && "RIFLES MANUFACTURED"@[5] == 'S' && "RIFLES MANUFACTURED"@[6] == ' ' && "RIFLES MANUFACTURED"@[7] == 'M' && "RIFLES MANUFACTURED"@[8] == 'A' && "RIFLES MANUFACTURED"@[9] == 'N' && "RIFLES MANUFACTURED"@[10] == 'U');
    reveal_strlit("SHOTGUN MFG");
    assert("SHOTGUN MFG"@.len() == 11 && "SHOTGUN MFG"@[0] == 'S' && "SHOTGUN MFG"@[5] == 'U' && "SHOTGUN MFG"@[6] == 'N' && "SHOTGUN MFG"@[7] == ' ' && "SHOTGUN MFG"@[8] == 'M' && "SHOTGUN MFG"@[9] == 'F' && "SHOTGUN MFG"@[10] == 'G');
    reveal_strlit("SHOTGUN MANUFACTURED");
    assert("SHOTGUN MANUFACTURED"@.len() == 20 && "SHOTGUN MANUFACTURED"@[0] == 'S' && "SHOTGUN MANUFACTURED"@[5] == 'U' && "SHOTGUN MANUFACTURED"@[6] == 'N' && "SHOTGUN MANUFACTURED"@[7] == ' ' && "SHOTGUN MANUFACTURED"@[8] == 'M' && "SHOTGUN MANUFACTURED"@[9] == 'A' && "SHOTGUN MANUFACTURED"@[10] == 'N');
    reveal_strlit("SHOTGUNS MANUFACTURED");
    assert("SHOTGUNS MANUFACTURED"@.len() == 21 && "SHOTGUNS MANUFACTURED"@[0] == 'S' && "SHOTGUNS MANUFACTURED"@[5] == 'U' && "SHOTGUNS MANUFACTURED"@[6] == 'N' && "SHOTGUNS MANUFACTURED"@[7] == 'S' && "SHOTGUNS MANUFACTURED"@[8] == ' ' && "SHOTGUNS MANUFACTURED"@[9] == 'M' && "SHOTGUNS MANUFACTURED"@[10] == 'A');
    reveal_strlit("MIS FAM");
    assert("MIS FAM"@.len() == 7 && "MIS FAM"@[0] == 'M' && "MIS FAM"@[5] == 'A' && "MIS FAM"@[6] == 'M');
    reveal_strlit("MISC FA MFG");
    assert("MISC FA MFG"@.len() == 11 && "MISC FA MFG"@[0] == 'M' && "MISC FA MFG"@[5] == 'F' && "MISC FA MFG"@[6] == 'A' && "MISC FA MFG"@[7] == ' ' && "MISC FA MFG"@[8] == 'M' && "MISC FA MFG"@[9] == 'F' && "MISC FA MFG"@[10] == 'G');
    reveal_strlit("MISCELLANEOUS FIREARMS MANUFACTURED");
    assert("MISCELLANEOUS FIREARMS MANUFACTURED"@.len() == 35 && "MISCELLANEOUS FIREARMS MANUFACTURED"@[0] == 'M' && "MISCELLANEOUS FIREARMS MANUFACTURED"@[5] == 'L' && "MISCELLANEOUS FIREARMS MANUFACTURED"@[6] == 'L' && "MISCELLANEOUS FIREARMS MANUFACTURED"@[7] == 'A' && "MISCELLANEOUS FIREARMS MANUFACTURED"@[8] == 'N' && "MISCELLANEOUS FIREARMS MANUFACTURED"@[9] == 'E' && "MISCELLANEOUS FIREARMS MANUFACTURED"@[10] == 'O');
    reveal_strlit("MISC FIREARMS MANUFACTURED");
    assert("MISC FIREARMS MANUFACTURED"@.len() == 26 && "MISC FIREARMS MANUFACTURED"@[0] == 'M' && "MISC FIREARMS MANUFACTURED"@[5] == 'F' && "MISC FIREARMS MANUFACTURED"@[6] == 'I' && "MISC FIREARMS MANUFACTURED"@[7] == 'R' && "MISC FIREARMS MANUFACTURED"@[8] == 'E' && "MISC FIREARMS MANUFACTURED"@[9] == 'A' && "MISC FIREARMS MANUFACTURED"@[10] == 'R');
    reveal_strlit("MICELLANEOUS FIREARMS MANUFACTURED");
    assert("MICELLANEOUS FIREARMS MANUFACTURED"@.len() == 34 && "MICELLANEOUS FIREARMS MANUFACTURED"@[0] == 'M' && "MICELLANEOUS FIREARMS MANUFACTURED"@[5] == 'L' && "MICELLANEOUS FIREARMS MANUFACTURED"@[6] == 'A' && "MICELLANEOUS FIREARMS MANUFACTURED"@[7] == 'N' && "MICELLANEOUS FIREARMS MANUFACTURED"@[8] == 'E' && "MICELLANEOUS FIREARMS MANUFACTURED"@[9] == 'O' && "MICELLANEOUS FIREARMS MANUFACTURED"@[10] == 'U');
    reveal_strlit("PISTOL EXP");
    assert("PISTOL EXP"@.len() == 10 && "PISTOL EXP"@[0] == 'P' && "PISTOL EXP"@[5] == 'L' && "PISTOL EXP"@[6] == ' ' && "PISTOL EXP"@[7] == 'E' && "PISTOL EXP"@[8] == 'X' && "PISTOL EXP"@[9] == 'P');
    reveal_strlit("PISTOLS EXP");
    assert("PISTOLS EXP"@.len() == 11 && "PISTOLS EXP"@[0] == 'P' && "PISTOLS EXP"@[5] == 'L' && "PISTOLS EXP"@[6] == 'S' && "PISTOLS EXP"@[7] == ' ' && "PISTOLS EXP"@[8] == 'E' && "PISTOLS EXP"@[9] == 'X' && "PISTOLS EXP"@[10] == 'P');
    reveal_strlit("PISTOLS EXPORTED");
    assert("PISTOLS EXPORTED"@.len() == 16 && "PISTOLS EXPORTED"@[0] == 'P' && "PISTOLS EXPORTED"@[5] == 'L' && "PISTOLS EXPORTED"@[6] == 'S' && "PISTOLS EXPORTED"@[7] == ' ' && "PISTOLS EXPORTED"@[8] == 'E' && "PISTOLS EXPORTED"@[9] == 'X' && "PISTOLS EXPORTED"@[10] == 'P');
    reveal_strlit("RVLR EXP");
    assert("RVLR EXP"@.len() == 8 && "RVLR EXP"@[0] == 'R' && "RVLR EXP"@[5] == 'E' && "RVLR EXP"@[6] == 'X' && "RVLR EXP"@[7] == 'P');
    reveal_strlit("REVOLVER EXP");
    assert("REVOLVER EXP"@.len() == 12 && "REVOLVER EXP"@[0] == 'R' && "REVOLVER EXP"@[5] == 'V' && "REVOLVER EXP"@[6] == 'E' && "REVOLVER EXP"@[7] == 'R' && "REVOLVER EXP"@[8] == ' ' && "REVOLVER EXP"@[9] == 'E' && "REVOLVER EXP"@[10] == 'X');
    reveal_strlit("REVOLVERS EXP");
    assert("REVOLVERS EXP"@.len() == 13 && "REVOLVERS EXP"@[0] == 'R' && "REVOLVERS EXP"@[5] == 'V' && "REVOLVERS EXP"@[6] == 'E' && "REVOLVERS EXP"@[7] == 'R' && "REVOLVERS EXP"@[8] == 'S' && "REVOLVERS EXP"@[9] == ' ' && "REVOLVERS EXP"@[10] == 'E');
    reveal_strlit("REVOLVERS EXPORTED");
    assert("REVOLVERS EXPORTED"@.len() == 18 && "REVOLVERS EXPORTED"@[0] == 'R' && "REVOLVERS EXPORTED"@[5] == 'V' && "REVOLVERS EXPORTED"@[6] == 'E' && "REVOLVERS EXPORTED"@[7] == 'R' && "REVOLVERS EXPORTED"@[8] == 'S' && "REVOLVERS EXPORTED"@[9] == ' ' && "REVOLVERS EXPORTED"@[10] == 'E');
    reveal_strlit("RIFLE EXP");
    assert("RIFLE EXP"@.len() == 9 && "RIFLE EXP"@[0] == 'R' && "RIFLE EXP"@[5] == ' ' && "RIFLE EXP"@[6] == 'E' && "RIFLE EXP"@[7] == 'X' && "RIFLE EXP"@[8] == 'P');
    reveal_strlit("RIFLES EXP");
    assert("RIFLES EXP"@.len() == 10 && "RIFLES EXP"@[0] == 'R' && "RIFLES EXP"@[5] == 'S' && "RIFLES EXP"@[6] == ' ' && "RIFLES EXP"@[7] == 'E' && "RIFLES EXP"@[8] == 'X' && "RIFLES EXP"@[9] == 'P');
    reveal_strlit("RIFLES EXPORTED");
    assert("RIFLES EXPORTED"@.len() == 15 && "RIFLES EXPORTED"@[0] == 'R' && "RIFLES EXPORTED"@[5] == 'S' && "RIFLES EXPORTED"@[6] == ' ' && "RIFLES EXPORTED"@[7] == 'E' && "RIFLES EXPORTED"@[8] == 'X' && "RIFLES EXPORTED"@[9] == 'P' && "RIFLES EXPORTED"@[10] == 'O');
    reveal_strlit("SHOTGUN EXP");
    assert("SHOTGUN EXP"@.len() == 11 && "SHOTGUN EXP"@[0] == 'S' && "SHOTGUN EXP"@[5] == 'U' && "SHOTGUN EXP"@[6] == 'N' && "SHOTGUN EXP"@[7] == ' ' && "SHOTGUN EXP"@[8] == 'E' && "SHOTGUN EXP"@[9] == 'X' && "SHOTGUN EXP"@[10] == 'P');
    reveal_strlit("SHOTGUNS EXP");
    assert("SHOTGUNS EXP"@.len() == 12 && "SHOTGUNS EXP"@[0] == 'S' && "SHOTGUNS EXP"@[5] == 'U' && "SHOTGUNS EXP"@[6] == 'N' && "SHOTGUNS EXP"@[7] == 'S' && "SHOTGUNS EXP"@[8] == ' ' && "SHOTGUNS EXP"@[9] == 'E' && "SHOTGUNS EXP"@[10] == 'X');
    reveal_strlit("SHOTGUNS EXPORTED");
    assert("SHOTGUNS EXPORTED"@.len() == 17 && "SHOTGUNS EXPORTED"@[0] == 'S' && "SHOTGUNS EXPORTED"@[5] == 'U' && "SHOTGUNS EXPORTED"@[6] == 'N' && "SHOTGUNS EXPORTED"@[7] == 'S' && "SHOTGUNS EXPORTED"@[8] == ' ' && "SHOTGUNS EXPORTED"@[9] == 'E' && "SHOTGUNS EXPORTED"@[10] == 'X');
    reveal_strlit("MISC FA EXP");
    assert("MISC FA EXP"@.len() == 11 && "MISC FA EXP"@[0] == 'M' && "MISC FA EXP"@[5] == 'F' && "MISC FA EXP"@[6] == 'A' && "MISC FA EXP"@[7] == ' ' && "MISC FA EXP"@[8] == 'E' && "MISC FA EXP"@[9] == 'X' && "MISC FA EXP"@[10] == 'P');
    reveal_strlit("MISCELLANEOUS FIREARMS EXPORTED");
    assert("MISCELLANEOUS FIREARMS EXPORTED"@.len() == 31 && "MISCELLANEOUS FIREARMS EXPORTED"@[0] == 'M' && "MISCELLANEOUS FIREARMS EXPORTED"@[5] == 'L' && "MISCELLANEOUS FIREARMS EXPORTED"@[6] == 'L' && "MISCELLANEOUS FIREARMS EXPORTED"@[7] == 'A' && "MISCELLANEOUS FIREARMS EXPORTED"@[8] == 'N' && "MISCELLANEOUS FIREARMS EXPORTED"@[9] == 'E' && "MISCELLANEOUS FIREARMS EXPORTED"@[10] == 'O');
    reveal_strlit("MICELLANEOUS FIREARMS EXPORTED");
    assert("MICELLANEOUS FIREARMS EXPORTED"@.len() == 30 && "MICELLANEOUS FIREARMS EXPORTED"@[0] == 'M' && "MICELLANEOUS FIREARMS EXPORTED"@[5] == 'L' && "MICELLANEOUS FIREARMS EXPORTED"@[6] == 'A' && "MICELLANEOUS FIREARMS EXPORTED"@[7] == 'N' && "MICELLANEOUS FIREARMS EXPORTED"@[8] == 'E' && "MICELLANEOUS FIREARMS EXPORTED"@[9] == 'O' && "MICELLANEOUS FIREARMS EXPORTED"@[10] == 'U');
    reveal_strlit("MISC FIREARMS EXPORTED");
    assert("MISC FIREARMS EXPORTED"@.len() == 22 && "MISC FIREARMS EXPORTED"@[0] == 'M' && "MISC FIREARMS EXPORTED"@[5] == 'F' && "MISC FIREARMS EXPORTED"@[6] == 'I' && "MISC FIREARMS EXPORTED"@[7] == 'R' && "MISC FIREARMS EXPORTED"@[8] == 'E' && "MISC FIREARMS EXPORTED"@[9] == 'A' && "MISC FIREARMS EXPORTED"@[10] == 'R');
}

proof fn lemma_header_words(header: Seq<char>, a: Seq<char>, b: Seq<char>)
    requires
        is_word(a),
        is_word(b),
        header.len() == a.len() + 1 + b.len(),
        forall|k: int| 0 <= k < header.len() ==> spaced_char(upper_char(#[trigger] header[k]))
            == (a + seq![' '] + b)[k],
    ensures
        header_text(header) == a + seq![' '] + b,
{
    let spaced = Seq::new(header.len(), |i: int| spaced_char(upper_char(header[i])));
    let ws = seq![a, b];
    reveal_with_fuel(join, 2);
    assert(ws.drop_last() == seq![a]);
    assert(phrase(ws) == a + seq![' '] + b);
    assert(spaced == phrase(ws));
    law_words_of_phrase(ws);
}

/// The name of a count column stands for that column itself.
pub proof fn law_canonical_names(i: int)
    requires
        0 <= i < 22,
    ensures
        count_column(count_col(i)) == Some(i),
{
    if i == 0 {
        assert(header_text("pstl_22"@) == "PSTL 22"@) by {
            reveal_strlit("pstl_22");
            reveal_strlit("PSTL 22");
            lemma_header_words("pstl_22"@, seq!['P', 'S', 'T', 'L'], seq!['2', '2']);
        }
    } else if i == 1 {
        assert(header_text("pstl_25"@) == "PSTL 25"@) by {
            reveal_strlit("pstl_25");
            reveal_strlit("PSTL 25");
            lemma_header_words("pstl_25"@, seq!['P', 'S', 'T', 'L'], seq!['2', '5']);
        }
    } else if i == 2 {
        assert(header_text("pstl_32"@) == "PSTL 32"@) by {
            reveal_strlit("pstl_32");
            reveal_strlit("PSTL 32");
            lemma_header_words("pstl_32"@, seq!['P', 'S', 'T', 'L'], seq!['3', '2']);
        }
    } else if i == 3 {
        assert(header_text("pstl_380"@) == "PSTL 380"@) by {
            reveal_strlit("pstl_380");
            reveal_strlit("PSTL 380");
            lemma_header_words("pstl_380"@, seq!['P', 'S', 'T', 'L'], seq!['3', '8', '0']);
        }
    } else if i == 4 {
        assert(header_text("pstl_9mm"@) == "PSTL 9MM"@) by {
            reveal_strlit("pstl_9mm");
            reveal_strlit("PSTL 9MM");
            lemma_header_words("pstl_9mm"@, seq!['P', 'S', 'T', 'L'], seq!['9', 'M', 'M']);
        }
    } else if i == 5 {
        assert(header_text("pstl_50"@) == "PSTL 50"@) by {
            reveal_strlit("pstl_50");
            reveal_strlit("PSTL 50");
            lemma_header_words("pstl_50"@, seq!['P', 'S', 'T', 'L'], seq!['5', '0']);
        }
    } else if i == 6 {
        assert(header_text("pstl_totl"@) == "PSTL TOTL"@) by {
            reveal_strlit("pstl_totl");
            reveal_strlit("PSTL TOTL");
            lemma_header_words("pstl_totl"@, seq!['P', 'S', 'T', 'L'], seq!['T', 'O', 'T', 'L']);
        }
    } else if i == 7 {
        assert(header_text("rvlr_22"@) == "RVLR 22"@) by {
            reveal_strlit("rvlr_22");
            reveal_strlit("RVLR 22");
            lemma_header_words("rvlr_22"@, seq!['R', 'V', 'L', 'R'], seq!['2', '2']);
        }
    } else if i == 8 {
        assert(header_text("rvlr_32"@) == "RVLR 32"@) by {
            reveal_strlit("rvlr_32");
            reveal_strlit("RVLR 32");
            lemma_header_words("rvlr_32"@, seq!['R', 'V', 'L', 'R'], seq!['3', '2']);
        }
    } else if i == 9 {
        assert(header_text("rvlr_38"@) == "RVLR 38"@) by {
            reveal_strlit("rvlr_38");
            reveal_strlit("RVLR 38");
            lemma_header_words("rvlr_38"@, seq!['R', 'V', 'L', 'R'], seq!['3', '8']);
        }
    } else if i == 10 {
        assert(header_text("rvlr_357"@) == "RVLR 357"@) by {
            reveal_strlit("rvlr_357");
            reveal_strlit("RVLR 357");
            lemma_header_words("rvlr_357"@, seq!['R', 'V', 'L', 'R'], seq!['3', '5', '7']);
        }
    } else if i == 11 {
        assert(header_text("rvlr_44"@) == "RVLR 44"@) by {
            reveal_strlit("rvlr_44");
            reveal_strlit("RVLR 44");
            lemma_header_words("rvlr_44"@, seq!['R', 'V', 'L', 'R'], seq!['4', '4']);
        }
    } else if i == 12 {
        assert(header_text("rvlr_50"@) == "RVLR 50"@) by {
            reveal_strlit("rvlr_50");
            reveal_strlit("RVLR 50");
            lemma_header_words("rvlr_50"@, seq!['R', 'V', 'L', 'R'], seq!['5', '0']);
        }
    } else if i == 13 {
        assert(header_text("rvlr_totl"@) == "RVLR TOTL"@) by {
            reveal_strlit("rvlr_totl");
            reveal_strlit("RVLR TOTL");
            lemma_header_words("rvlr_totl"@, seq!['R', 'V', 'L', 'R'], seq!['T', 'O', 'T', 'L']);
        }
    } else if i == 14 {
        assert(header_text("rifle_mfg"@) == "RIFLE MFG"@) by {
            reveal_strlit("rifle_mfg");
            reveal_strlit("RIFLE MFG");
            lemma_header_words("rifle_mfg"@, seq!['R', 'I', 'F', 'L', 'E'], seq!['M', 'F', 'G']);
        }
    } else if i == 15 {
        assert(header_text("shotgun_mfg"@) == "SHOTGUN MFG"@) by {
            reveal_strlit("shotgun_mfg");
            reveal_strlit("SHOTGUN MFG");
            lemma_header_words("shotgun_mfg"@, seq!['S', 'H', 'O', 'T', 'G', 'U', 'N'], seq!['M', 'F', 'G']);
        }
    } else if i == 16 {
        assert(header_text("mis_fam"@) == "MIS FAM"@) by {
            reveal_strlit("mis_fam");
            reveal_strlit("MIS FAM");
            lemma_header_words("mis_fam"@, seq!['M', 'I', 'S'], seq!['F', 'A', 'M']);
        }
    } else if i == 17 {
        assert(header_text("pistol_exp"@) == "PISTOL EXP"@) by {
            reveal_strlit("pistol_exp");
            reveal_strlit("PISTOL EXP");
            lemma_header_words("pistol_exp"@, seq!['P', 'I', 'S', 'T', 'O', 'L'], seq!['E', 'X', 'P']);
        }
    } else if i == 18 {
        assert(header_text("revolver_exp"@) == "REVOLVER EXP"@) by {
            reveal_strlit("revolver_exp");
            reveal_strlit("REVOLVER EXP");
            lemma_header_words("revolver_exp"@, seq!['R', 'E', 'V', 'O', 'L', 'V', 'E', 'R'], seq!['E', 'X', 'P']);
        }
    } else if i == 19 {
        assert(header_text("rifle_exp"@) == "RIFLE EXP"@) by {
            reveal_strlit("rifle_exp");
            reveal_strlit("RIFLE EXP");
            lemma_header_words("rifle_exp"@, seq!['R', 'I', 'F', 'L', 'E'], seq!['E', 'X', 'P']);
        }
    } else if i == 20 {
        assert(header_text("shotgun_exp"@) == "SHOTGUN EXP"@) by {
            reveal_strlit("shotgun_exp");
            reveal_strlit("SHOTGUN EXP");
            lemma_header_words("shotgun_exp"@, seq!['S', 'H', 'O', 'T', 'G', 'U', 'N'], seq!['E', 'X', 'P']);
        }
    } else {
        assert(header_text("misc_fa_exp"@) == "MISC FA EXP"@) by {
            reveal_strlit("misc_fa_exp");
            reveal_strlit("MISC FA EXP");
            lemma_header_three_words("misc_fa_exp"@, seq!['M', 'I', 'S', 'C'], seq!['F', 'A'], seq!['E', 'X', 'P']);
        }
    }
    lemma_column_from(header_text(count_col(i)), i, 0);
}

proof fn lemma_column_from(n: Seq<char>, i: int, from: int)
    requires
        0 <= from <= i < 22,
        is_spelling(n, i),
    ensures
        column_from(n, from) == Some(i),
    decreases i - from,
{
    if is_spelling(n, from) {
        law_spellings_disjoint(n, from, i);
    } else {
        lemma_column_from(n, i, from + 1);
    }
}

proof fn lemma_header_three_words(header: Seq<char>, a: Seq<char>, b: Seq<char>, c: Seq<char>)
    requires
        is_word(a),
        is_word(b),
        is_word(c),
        header.len() == a.len() + b.len() + c.len() + 2,
        forall|k: int| 0 <= k < header.len() ==> spaced_char(upper_char(#[trigger] header[k]))
            == (a + seq![' '] + b + seq![' '] + c)[k],
    ensures
        header_text(header) == a + seq![' '] + b + seq![' '] + c,
{
    let spaced = Seq::new(header.len(), |i: int| spaced_char(upper_char(header[i])));
    let ws = seq![a, b, c];
    reveal_with_fuel(join, 3);
    assert(ws.drop_last() == seq![a, b]);
    assert(seq![a, b].drop_last() == seq![a]);
    assert(phrase(seq![a, b]) == a + seq![' '] + b);
    assert(phrase(ws) == a + seq![' '] + b + seq![' '] + c);
    assert(spaced == phrase(ws));
    law_words_of_phrase(ws);
}

} // verus!
