//! Which count column a header names.

use crate::columns::{
    column_from, count_col, count_column, header_text, is_spelling, law_spellings_disjoint,
    spaced_char,
};
use crate::text::{
    is_digit, is_space, law_upper_keeps_words, phrase, upper, upper_char, upper_words, words,
};
use vstd::prelude::*;

verus! {

/// A text in capitals in which only single blanks stand between words.
pub open spec fn is_plain_header(h: Seq<char>) -> bool {
    &&& h.len() > 0
    &&& !is_space(h[0])
    &&& !is_space(h.last())
    &&& forall|k: int|
        0 <= k < h.len() ==> {
            &&& upper_char(#[trigger] h[k]) == h[k]
            &&& h[k] != '/' && h[k] != '_'
            &&& is_space(h[k]) ==> h[k] == ' '
        }
    &&& forall|k: int| 0 < k < h.len() && is_space(h[k - 1]) ==> !is_space(#[trigger] h[k])
}

proof fn lemma_join_longer_word(ws: Seq<Seq<char>>, c: char)
    requires
        ws.len() > 0,
    ensures
        phrase(ws.drop_last().push(ws.last().push(c))) == phrase(ws).push(c),
{
    let now = ws.drop_last().push(ws.last().push(c));
    assert(now.drop_last() == ws.drop_last());
    assert(phrase(now) == phrase(ws).push(c));
}

/// A text with single blanks between its words is its words joined.
pub proof fn lemma_words_fill(h: Seq<char>)
    requires
        h.len() > 0 ==> !is_space(h[0]) && !is_space(h.last()),
        forall|k: int| 0 <= k < h.len() && is_space(#[trigger] h[k]) ==> h[k] == ' ',
        forall|k: int| 0 < k < h.len() && is_space(h[k - 1]) ==> !is_space(#[trigger] h[k]),
    ensures
        phrase(words(h)) == h,
        h.len() > 0 ==> words(h).len() > 0,
    decreases h.len(),
{
    if h.len() > 0 {
        let d = h.drop_last();
        let c = h.last();
        assert(h == d.push(c));
        if d.len() == 0 {
            assert(words(d) == Seq::<Seq<char>>::empty());
            assert(words(h) == seq![seq![c]]);
            assert(phrase(words(h)) == seq![c]);
        } else if !is_space(d.last()) {
            assert forall|k: int| 0 < k < d.len() && is_space(d[k - 1]) implies !is_space(
                #[trigger] d[k],
            ) by {
                assert(d[k] == h[k] && d[k - 1] == h[k - 1]);
            }
            lemma_words_fill(d);
            lemma_join_longer_word(words(d), c);
        } else {
            let e = d.drop_last();
            assert(h[d.len() - 1] == d.last());
            assert(d == e.push(' '));
            assert(e.len() > 0);
            if is_space(e.last()) {
                assert(!is_space(h[e.len() as int]));
            }
            assert forall|k: int| 0 < k < e.len() && is_space(e[k - 1]) implies !is_space(
                #[trigger] e[k],
            ) by {
                assert(e[k] == h[k] && e[k - 1] == h[k - 1]);
            }
            lemma_words_fill(e);
            assert(words(d) == words(e));
            let ws = words(h);
            assert(ws == words(e).push(seq![c]));
            assert(ws.drop_last() == words(e));
            assert(phrase(ws) == phrase(words(e)) + seq![' '] + seq![c]);
        }
    }
}

proof fn lemma_plain_header(h: Seq<char>, i: int)
    requires
        is_plain_header(h),
        0 <= i < 22,
        is_spelling(h, i),
    ensures
        count_column(h) == Some(i),
{
    let spaced = Seq::new(h.len(), |k: int| spaced_char(upper_char(h[k])));
    assert(spaced == h);
    assert forall|k: int| 0 < k < h.len() && is_space(h[k - 1]) implies !is_space(
        #[trigger] h[k],
    ) by {
    }
    lemma_words_fill(h);
    lemma_column_of(h, i, 0);
}

proof fn lemma_column_of(n: Seq<char>, i: int, from: int)
    requires
        0 <= from <= i < 22,
        is_spelling(n, i),
    ensures
        column_from(n, from) == Some(i),
    decreases i - from,
{
    if is_spelling(n, from) {
        law_spellings_disjoint(n, from, i);
    } else {
        lemma_column_of(n, i, from + 1);
    }
}

/// The calibers of pistols and their total, as the reports and the workbooks spell them.
pub proof fn law_headers_of_pistols()
    ensures
        count_col(0) == "pstl_22"@,
        count_column("PSTL 22"@) == Some(0int),
        count_column("PISTOL 22"@) == Some(0int),
        count_column("PISTOL 22 MFG"@) == Some(0int),
        count_col(1) == "pstl_25"@,
        count_column("PSTL 25"@) == Some(1int),
        count_column("PISTOL 25"@) == Some(1int),
        count_column("PISTOL 25 MFG"@) == Some(1int),
        count_col(2) == "pstl_32"@,
        count_column("PSTL 32"@) == Some(2int),
        count_column("PISTOL 32"@) == Some(2int),
        count_column("PISTOL 32 MFG"@) == Some(2int),
        count_col(3) == "pstl_380"@,
        count_column("PSTL 380"@) == Some(3int),
        count_column("PISTOL 380"@) == Some(3int),
        count_column("PISTOL 380 MFG"@) == Some(3int),
        count_col(4) == "pstl_9mm"@,
        count_column("PSTL 9MM"@) == Some(4int),
        count_column("PISTOL 9MM"@) == Some(4int),
        count_column("PISTOL 9 MFG"@) == Some(4int),
        count_column("PISTOL 9MM MFG"@) == Some(4int),
        count_col(5) == "pstl_50"@,
        count_column("PSTL 50"@) == Some(5int),
        count_column("PISTOL 50"@) == Some(5int),
        count_column("PISTOL 50 MFG"@) == Some(5int),
        count_col(6) == "pstl_totl"@,
        count_column("PSTL TOTL"@) == Some(6int),
        count_column("PISTOL TOTAL"@) == Some(6int),
        count_column("PISTOL MFG TOTAL"@) == Some(6int),
{
    lemma_headers_0();
    lemma_headers_1();
    lemma_headers_2();
    lemma_headers_3();
    lemma_headers_4();
    lemma_headers_5();
    lemma_headers_6();
}

/// The calibers of revolvers and their total, as the reports and the workbooks spell them.
pub proof fn law_headers_of_revolvers()
    ensures
        count_col(7) == "rvlr_22"@,
        count_column("RVLR 22"@) == Some(7int),
        count_column("RVLR 22 MFG"@) == Some(7int),
        count_column("REVOLVER 22"@) == Some(7int),
        count_col(8) == "rvlr_32"@,
        count_column("RVLR 32"@) == Some(8int),
        count_column("RVLR 32 MFG"@) == Some(8int),
        count_column("REVOLVER 32"@) == Some(8int),
        count_col(9) == "rvlr_38"@,
        count_column("RVLR 38"@) == Some(9int),
        count_column("RVLR 38 MFG"@) == Some(9int),
        count_column("REVOLVER 38"@) == Some(9int),
        count_col(10) == "rvlr_357"@,
        count_column("RVLR 357"@) == Some(10int),
        count_column("RVLR 357 MFG"@) == Some(10int),
        count_column("REVOLVER 357"@) == Some(10int),
        count_col(11) == "rvlr_44"@,
        count_column("RVLR 44"@) == Some(11int),
        count_column("RVLR 44 MFG"@) == Some(11int),
        count_column("REVOLVER 44"@) == Some(11int),
        count_col(12) == "rvlr_50"@,
        count_column("RVLR 50"@) == Some(12int),
        count_column("RVLR 50 MFG"@) == Some(12int),
        count_column("REVOLVER 50"@) == Some(12int),
        count_col(13) == "rvlr_totl"@,
        count_column("RVLR TOTL"@) == Some(13int),
        count_column("RVLR TOTAL"@) == Some(13int),
        count_column("RVLR MFG TOTAL"@) == Some(13int),
        count_column("REVOLVER TOTAL"@) == Some(13int),
        count_column("REVOLVER TOTL"@) == Some(13int),
{
    lemma_headers_7();
    lemma_headers_8();
    lemma_headers_9();
    lemma_headers_10();
    lemma_headers_11();
    lemma_headers_12();
    lemma_headers_13();
}

/// Rifles, shotguns and other firearms manufactured, as the reports and the workbooks
/// spell them.
pub proof fn law_headers_of_long_guns()
    ensures
        count_col(14) == "rifle_mfg"@,
        count_column("RIFLE MFG"@) == Some(14int),
        count_column("RIFLE MANUFACTURED"@) == Some(14int),
        count_column("RIFLES MANUFACTURED"@) == Some(14int),
        count_col(15) == "shotgun_mfg"@,
        count_column("SHOTGUN MFG"@) == Some(15int),
        count_column("SHOTGUN MANUFACTURED"@) == Some(15int),
        count_column("SHOTGUNS MANUFACTURED"@) == Some(15int),
        count_col(16) == "mis_fam"@,
        count_column("MIS FAM"@) == Some(16int),
        count_column("MISC FA MFG"@) == Some(16int),
        count_column("MISCELLANEOUS FIREARMS MANUFACTURED"@) == Some(16int),
        count_column("MISC FIREARMS MANUFACTURED"@) == Some(16int),
        count_column("MICELLANEOUS FIREARMS MANUFACTURED"@) == Some(16int),
{
    lemma_headers_14();
    lemma_headers_15();
    lemma_headers_16();
}

/// What was exported of each kind, as the reports and the workbooks spell it.
pub proof fn law_headers_of_exports()
    ensures
        count_col(17) == "pistol_exp"@,
        count_column("PISTOL EXP"@) == Some(17int),
        count_column("PISTOLS EXP"@) == Some(17int),
        count_column("PISTOLS EXPORTED"@) == Some(17int),
        count_col(18) == "revolver_exp"@,
        count_column("RVLR EXP"@) == Some(18int),
        count_column("REVOLVER EXP"@) == Some(18int),
        count_column("REVOLVERS EXP"@) == Some(18int),
        count_column("REVOLVERS EXPORTED"@) == Some(18int),
        count_col(19) == "rifle_exp"@,
        count_column("RIFLE EXP"@) == Some(19int),
        count_column("RIFLES EXP"@) == Some(19int),
        count_column("RIFLES EXPORTED"@) == Some(19int),
        count_col(20) == "shotgun_exp"@,
        count_column("SHOTGUN EXP"@) == Some(20int),
        count_column("SHOTGUNS EXP"@) == Some(20int),
        count_column("SHOTGUNS EXPORTED"@) == Some(20int),
        count_col(21) == "misc_fa_exp"@,
        count_column("MISC FA EXP"@) == Some(21int),
        count_column("MISCELLANEOUS FIREARMS EXPORTED"@) == Some(21int),
        count_column("MICELLANEOUS FIREARMS EXPORTED"@) == Some(21int),
        count_column("MISC FIREARMS EXPORTED"@) == Some(21int),
{
    lemma_headers_17();
    lemma_headers_18();
    lemma_headers_19();
    lemma_headers_20();
    lemma_headers_21();
}

proof fn lemma_headers_0()
    ensures
        count_column("PSTL 22"@) == Some(0int),
        count_column("PISTOL 22"@) == Some(0int),
        count_column("PISTOL 22 MFG"@) == Some(0int),
{
    assert(count_column("PSTL 22"@) == Some(0int)) by {
        reveal_strlit("PSTL 22");
        lemma_plain_header("PSTL 22"@, 0);
    }
    assert(count_column("PISTOL 22"@) == Some(0int)) by {
        reveal_strlit("PISTOL 22");
        lemma_plain_header("PISTOL 22"@, 0);
    }
    assert(count_column("PISTOL 22 MFG"@) == Some(0int)) by {
        reveal_strlit("PISTOL 22 MFG");
        lemma_plain_header("PISTOL 22 MFG"@, 0);
    }
}

proof fn lemma_headers_1()
    ensures
        count_column("PSTL 25"@) == Some(1int),
        count_column("PISTOL 25"@) == Some(1int),
        count_column("PISTOL 25 MFG"@) == Some(1int),
{
    assert(count_column("PSTL 25"@) == Some(1int)) by {
        reveal_strlit("PSTL 25");
        lemma_plain_header("PSTL 25"@, 1);
    }
    assert(count_column("PISTOL 25"@) == Some(1int)) by {
        reveal_strlit("PISTOL 25");
        lemma_plain_header("PISTOL 25"@, 1);
    }
    assert(count_column("PISTOL 25 MFG"@) == Some(1int)) by {
        reveal_strlit("PISTOL 25 MFG");
        lemma_plain_header("PISTOL 25 MFG"@, 1);
    }
}

proof fn lemma_headers_2()
    ensures
        count_column("PSTL 32"@) == Some(2int),
        count_column("PISTOL 32"@) == Some(2int),
        count_column("PISTOL 32 MFG"@) == Some(2int),
{
    assert(count_column("PSTL 32"@) == Some(2int)) by {
        reveal_strlit("PSTL 32");
        lemma_plain_header("PSTL 32"@, 2);
    }
    assert(count_column("PISTOL 32"@) == Some(2int)) by {
        reveal_strlit("PISTOL 32");
        lemma_plain_header("PISTOL 32"@, 2);
    }
    assert(count_column("PISTOL 32 MFG"@) == Some(2int)) by {
        reveal_strlit("PISTOL 32 MFG");
        lemma_plain_header("PISTOL 32 MFG"@, 2);
    }
}

proof fn lemma_headers_3()
    ensures
        count_column("PSTL 380"@) == Some(3int),
        count_column("PISTOL 380"@) == Some(3int),
        count_column("PISTOL 380 MFG"@) == Some(3int),
{
    assert(count_column("PSTL 380"@) == Some(3int)) by {
        reveal_strlit("PSTL 380");
        lemma_plain_header("PSTL 380"@, 3);
    }
    assert(count_column("PISTOL 380"@) == Some(3int)) by {
        reveal_strlit("PISTOL 380");
        lemma_plain_header("PISTOL 380"@, 3);
    }
    assert(count_column("PISTOL 380 MFG"@) == Some(3int)) by {
        reveal_strlit("PISTOL 380 MFG");
        lemma_plain_header("PISTOL 380 MFG"@, 3);
    }
}

proof fn lemma_headers_4()
    ensures
        count_column("PSTL 9MM"@) == Some(4int),
        count_column("PISTOL 9MM"@) == Some(4int),
        count_column("PISTOL 9 MFG"@) == Some(4int),
        count_column("PISTOL 9MM MFG"@) == Some(4int),
{
    assert(count_column("PSTL 9MM"@) == Some(4int)) by {
        reveal_strlit("PSTL 9MM");
        lemma_plain_header("PSTL 9MM"@, 4);
    }
    assert(count_column("PISTOL 9MM"@) == Some(4int)) by {
        reveal_strlit("PISTOL 9MM");
        lemma_plain_header("PISTOL 9MM"@, 4);
    }
    assert(count_column("PISTOL 9 MFG"@) == Some(4int)) by {
        reveal_strlit("PISTOL 9 MFG");
        lemma_plain_header("PISTOL 9 MFG"@, 4);
    }
    assert(count_column("PISTOL 9MM MFG"@) == Some(4int)) by {
        reveal_strlit("PISTOL 9MM MFG");
        lemma_plain_header("PISTOL 9MM MFG"@, 4);
    }
}

proof fn lemma_headers_5()
    ensures
        count_column("PSTL 50"@) == Some(5int),
        count_column("PISTOL 50"@) == Some(5int),
        count_column("PISTOL 50 MFG"@) == Some(5int),
{
    assert(count_column("PSTL 50"@) == Some(5int)) by {
        reveal_strlit("PSTL 50");
        lemma_plain_header("PSTL 50"@, 5);
    }
    assert(count_column("PISTOL 50"@) == Some(5int)) by {
        reveal_strlit("PISTOL 50");
        lemma_plain_header("PISTOL 50"@, 5);
    }
    assert(count_column("PISTOL 50 MFG"@) == Some(5int)) by {
        reveal_strlit("PISTOL 50 MFG");
        lemma_plain_header("PISTOL 50 MFG"@, 5);
    }
}

proof fn lemma_headers_6()
    ensures
        count_column("PSTL TOTL"@) == Some(6int),
        count_column("PISTOL TOTAL"@) == Some(6int),
        count_column("PISTOL MFG TOTAL"@) == Some(6int),
{
    assert(count_column("PSTL TOTL"@) == Some(6int)) by {
        reveal_strlit("PSTL TOTL");
        lemma_plain_header("PSTL TOTL"@, 6);
    }
    assert(count_column("PISTOL TOTAL"@) == Some(6int)) by {
        reveal_strlit("PISTOL TOTAL");
        lemma_plain_header("PISTOL TOTAL"@, 6);
    }
    assert(count_column("PISTOL MFG TOTAL"@) == Some(6int)) by {
        reveal_strlit("PISTOL MFG TOTAL");
        lemma_plain_header("PISTOL MFG TOTAL"@, 6);
    }
}

proof fn lemma_headers_7()
    ensures
        count_column("RVLR 22"@) == Some(7int),
        count_column("RVLR 22 MFG"@) == Some(7int),
        count_column("REVOLVER 22"@) == Some(7int),
{
    assert(count_column("RVLR 22"@) == Some(7int)) by {
        reveal_strlit("RVLR 22");
        lemma_plain_header("RVLR 22"@, 7);
    }
    assert(count_column("RVLR 22 MFG"@) == Some(7int)) by {
        reveal_strlit("RVLR 22 MFG");
        lemma_plain_header("RVLR 22 MFG"@, 7);
    }
    assert(count_column("REVOLVER 22"@) == Some(7int)) by {
        reveal_strlit("REVOLVER 22");
        lemma_plain_header("REVOLVER 22"@, 7);
    }
}

proof fn lemma_headers_8()
    ensures
        count_column("RVLR 32"@) == Some(8int),
        count_column("RVLR 32 MFG"@) == Some(8int),
        count_column("REVOLVER 32"@) == Some(8int),
{
    assert(count_column("RVLR 32"@) == Some(8int)) by {
        reveal_strlit("RVLR 32");
        lemma_plain_header("RVLR 32"@, 8);
    }
    assert(count_column("RVLR 32 MFG"@) == Some(8int)) by {
        reveal_strlit("RVLR 32 MFG");
        lemma_plain_header("RVLR 32 MFG"@, 8);
    }
    assert(count_column("REVOLVER 32"@) == Some(8int)) by {
        reveal_strlit("REVOLVER 32");
        lemma_plain_header("REVOLVER 32"@, 8);
    }
}

proof fn lemma_headers_9()
    ensures
        count_column("RVLR 38"@) == Some(9int),
        count_column("RVLR 38 MFG"@) == Some(9int),
        count_column("REVOLVER 38"@) == Some(9int),
{
    assert(count_column("RVLR 38"@) == Some(9int)) by {
        reveal_strlit("RVLR 38");
        lemma_plain_header("RVLR 38"@, 9);
    }
    assert(count_column("RVLR 38 MFG"@) == Some(9int)) by {
        reveal_strlit("RVLR 38 MFG");
        lemma_plain_header("RVLR 38 MFG"@, 9);
    }
    assert(count_column("REVOLVER 38"@) == Some(9int)) by {
        reveal_strlit("REVOLVER 38");
        lemma_plain_header("REVOLVER 38"@, 9);
    }
}

proof fn lemma_headers_10()
    ensures
        count_column("RVLR 357"@) == Some(10int),
        count_column("RVLR 357 MFG"@) == Some(10int),
        count_column("REVOLVER 357"@) == Some(10int),
{
    assert(count_column("RVLR 357"@) == Some(10int)) by {
        reveal_strlit("RVLR 357");
        lemma_plain_header("RVLR 357"@, 10);
    }
    assert(count_column("RVLR 357 MFG"@) == Some(10int)) by {
        reveal_strlit("RVLR 357 MFG");
        lemma_plain_header("RVLR 357 MFG"@, 10);
    }
    assert(count_column("REVOLVER 357"@) == Some(10int)) by {
        reveal_strlit("REVOLVER 357");
        lemma_plain_header("REVOLVER 357"@, 10);
    }
}

proof fn lemma_headers_11()
    ensures
        count_column("RVLR 44"@) == Some(11int),
        count_column("RVLR 44 MFG"@) == Some(11int),
        count_column("REVOLVER 44"@) == Some(11int),
{
    assert(count_column("RVLR 44"@) == Some(11int)) by {
        reveal_strlit("RVLR 44");
        lemma_plain_header("RVLR 44"@, 11);
    }
    assert(count_column("RVLR 44 MFG"@) == Some(11int)) by {
        reveal_strlit("RVLR 44 MFG");
        lemma_plain_header("RVLR 44 MFG"@, 11);
    }
    assert(count_column("REVOLVER 44"@) == Some(11int)) by {
        reveal_strlit("REVOLVER 44");
        lemma_plain_header("REVOLVER 44"@, 11);
    }
}

proof fn lemma_headers_12()
    ensures
        count_column("RVLR 50"@) == Some(12int),
        count_column("RVLR 50 MFG"@) == Some(12int),
        count_column("REVOLVER 50"@) == Some(12int),
{
    assert(count_column("RVLR 50"@) == Some(12int)) by {
        reveal_strlit("RVLR 50");
        lemma_plain_header("RVLR 50"@, 12);
    }
    assert(count_column("RVLR 50 MFG"@) == Some(12int)) by {
        reveal_strlit("RVLR 50 MFG");
        lemma_plain_header("RVLR 50 MFG"@, 12);
    }
    assert(count_column("REVOLVER 50"@) == Some(12int)) by {
        reveal_strlit("REVOLVER 50");
        lemma_plain_header("REVOLVER 50"@, 12);
    }
}

proof fn lemma_headers_13()
    ensures
        count_column("RVLR TOTL"@) == Some(13int),
        count_column("RVLR TOTAL"@) == Some(13int),
        count_column("RVLR MFG TOTAL"@) == Some(13int),
        count_column("REVOLVER TOTAL"@) == Some(13int),
        count_column("REVOLVER TOTL"@) == Some(13int),
{
    assert(count_column("RVLR TOTL"@) == Some(13int)) by {
        reveal_strlit("RVLR TOTL");
        lemma_plain_header("RVLR TOTL"@, 13);
    }
    assert(count_column("RVLR TOTAL"@) == Some(13int)) by {
        reveal_strlit("RVLR TOTAL");
        lemma_plain_header("RVLR TOTAL"@, 13);
    }
    assert(count_column("RVLR MFG TOTAL"@) == Some(13int)) by {
        reveal_strlit("RVLR MFG TOTAL");
        lemma_plain_header("RVLR MFG TOTAL"@, 13);
    }
    assert(count_column("REVOLVER TOTAL"@) == Some(13int)) by {
        reveal_strlit("REVOLVER TOTAL");
        lemma_plain_header("REVOLVER TOTAL"@, 13);
    }
    assert(count_column("REVOLVER TOTL"@) == Some(13int)) by {
        reveal_strlit("REVOLVER TOTL");
        lemma_plain_header("REVOLVER TOTL"@, 13);
    }
}

proof fn lemma_headers_14()
    ensures
        count_column("RIFLE MFG"@) == Some(14int),
        count_column("RIFLE MANUFACTURED"@) == Some(14int),
        count_column("RIFLES MANUFACTURED"@) == Some(14int),
{
    assert(count_column("RIFLE MFG"@) == Some(14int)) by {
        reveal_strlit("RIFLE MFG");
        lemma_plain_header("RIFLE MFG"@, 14);
    }
    assert(count_column("RIFLE MANUFACTURED"@) == Some(14int)) by {
        reveal_strlit("RIFLE MANUFACTURED");
        lemma_plain_header("RIFLE MANUFACTURED"@, 14);
    }
    assert(count_column("RIFLES MANUFACTURED"@) == Some(14int)) by {
        reveal_strlit("RIFLES MANUFACTURED");
        lemma_plain_header("RIFLES MANUFACTURED"@, 14);
    }
}

proof fn lemma_headers_15()
    ensures
        count_column("SHOTGUN MFG"@) == Some(15int),
        count_column("SHOTGUN MANUFACTURED"@) == Some(15int),
        count_column("SHOTGUNS MANUFACTURED"@) == Some(15int),
{
    assert(count_column("SHOTGUN MFG"@) == Some(15int)) by {
        reveal_strlit("SHOTGUN MFG");
        lemma_plain_header("SHOTGUN MFG"@, 15);
    }
    assert(count_column("SHOTGUN MANUFACTURED"@) == Some(15int)) by {
        reveal_strlit("SHOTGUN MANUFACTURED");
        lemma_plain_header("SHOTGUN MANUFACTURED"@, 15);
    }
    assert(count_column("SHOTGUNS MANUFACTURED"@) == Some(15int)) by {
        reveal_strlit("SHOTGUNS MANUFACTURED");
        lemma_plain_header("SHOTGUNS MANUFACTURED"@, 15);
    }
}

proof fn lemma_headers_16()
    ensures
        count_column("MIS FAM"@) == Some(16int),
        count_column("MISC FA MFG"@) == Some(16int),
        count_column("MISCELLANEOUS FIREARMS MANUFACTURED"@) == Some(16int),
        count_column("MISC FIREARMS MANUFACTURED"@) == Some(16int),
        count_column("MICELLANEOUS FIREARMS MANUFACTURED"@) == Some(16int),
{
    assert(count_column("MIS FAM"@) == Some(16int)) by {
        reveal_strlit("MIS FAM");
        lemma_plain_header("MIS FAM"@, 16);
    }
    assert(count_column("MISC FA MFG"@) == Some(16int)) by {
        reveal_strlit("MISC FA MFG");
        lemma_plain_header("MISC FA MFG"@, 16);
    }
    assert(count_column("MISCELLANEOUS FIREARMS MANUFACTURED"@) == Some(16int)) by {
        reveal_strlit("MISCELLANEOUS FIREARMS MANUFACTURED");
        lemma_plain_header("MISCELLANEOUS FIREARMS MANUFACTURED"@, 16);
    }
    assert(count_column("MISC FIREARMS MANUFACTURED"@) == Some(16int)) by {
        reveal_strlit("MISC FIREARMS MANUFACTURED");
        lemma_plain_header("MISC FIREARMS MANUFACTURED"@, 16);
    }
    assert(count_column("MICELLANEOUS FIREARMS MANUFACTURED"@) == Some(16int)) by {
        reveal_strlit("MICELLANEOUS FIREARMS MANUFACTURED");
        lemma_plain_header("MICELLANEOUS FIREARMS MANUFACTURED"@, 16);
    }
}

proof fn lemma_headers_17()
    ensures
        count_column("PISTOL EXP"@) == Some(17int),
        count_column("PISTOLS EXP"@) == Some(17int),
        count_column("PISTOLS EXPORTED"@) == Some(17int),
{
    assert(count_column("PISTOL EXP"@) == Some(17int)) by {
        reveal_strlit("PISTOL EXP");
        lemma_plain_header("PISTOL EXP"@, 17);
    }
    assert(count_column("PISTOLS EXP"@) == Some(17int)) by {
        reveal_strlit("PISTOLS EXP");
        lemma_plain_header("PISTOLS EXP"@, 17);
    }
    assert(count_column("PISTOLS EXPORTED"@) == Some(17int)) by {
        reveal_strlit("PISTOLS EXPORTED");
        lemma_plain_header("PISTOLS EXPORTED"@, 17);
    }
}

proof fn lemma_headers_18()
    ensures
        count_column("RVLR EXP"@) == Some(18int),
        count_column("REVOLVER EXP"@) == Some(18int),
        count_column("REVOLVERS EXP"@) == Some(18int),
        count_column("REVOLVERS EXPORTED"@) == Some(18int),
{
    assert(count_column("RVLR EXP"@) == Some(18int)) by {
        reveal_strlit("RVLR EXP");
        lemma_plain_header("RVLR EXP"@, 18);
    }
    assert(count_column("REVOLVER EXP"@) == Some(18int)) by {
        reveal_strlit("REVOLVER EXP");
        lemma_plain_header("REVOLVER EXP"@, 18);
    }
    assert(count_column("REVOLVERS EXP"@) == Some(18int)) by {
        reveal_strlit("REVOLVERS EXP");
        lemma_plain_header("REVOLVERS EXP"@, 18);
    }
    assert(count_column("REVOLVERS EXPORTED"@) == Some(18int)) by {
        reveal_strlit("REVOLVERS EXPORTED");
        lemma_plain_header("REVOLVERS EXPORTED"@, 18);
    }
}

proof fn lemma_headers_19()
    ensures
        count_column("RIFLE EXP"@) == Some(19int),
        count_column("RIFLES EXP"@) == Some(19int),
        count_column("RIFLES EXPORTED"@) == Some(19int),
{
    assert(count_column("RIFLE EXP"@) == Some(19int)) by {
        reveal_strlit("RIFLE EXP");
        lemma_plain_header("RIFLE EXP"@, 19);
    }
    assert(count_column("RIFLES EXP"@) == Some(19int)) by {
        reveal_strlit("RIFLES EXP");
        lemma_plain_header("RIFLES EXP"@, 19);
    }
    assert(count_column("RIFLES EXPORTED"@) == Some(19int)) by {
        reveal_strlit("RIFLES EXPORTED");
        lemma_plain_header("RIFLES EXPORTED"@, 19);
    }
}

proof fn lemma_headers_20()
    ensures
        count_column("SHOTGUN EXP"@) == Some(20int),
        count_column("SHOTGUNS EXP"@) == Some(20int),
        count_column("SHOTGUNS EXPORTED"@) == Some(20int),
{
    assert(count_column("SHOTGUN EXP"@) == Some(20int)) by {
        reveal_strlit("SHOTGUN EXP");
        lemma_plain_header("SHOTGUN EXP"@, 20);
    }
    assert(count_column("SHOTGUNS EXP"@) == Some(20int)) by {
        reveal_strlit("SHOTGUNS EXP");
        lemma_plain_header("SHOTGUNS EXP"@, 20);
    }
    assert(count_column("SHOTGUNS EXPORTED"@) == Some(20int)) by {
        reveal_strlit("SHOTGUNS EXPORTED");
        lemma_plain_header("SHOTGUNS EXPORTED"@, 20);
    }
}

proof fn lemma_headers_21()
    ensures
        count_column("MISC FA EXP"@) == Some(21int),
        count_column("MISCELLANEOUS FIREARMS EXPORTED"@) == Some(21int),
        count_column("MICELLANEOUS FIREARMS EXPORTED"@) == Some(21int),
        count_column("MISC FIREARMS EXPORTED"@) == Some(21int),
{
    assert(count_column("MISC FA EXP"@) == Some(21int)) by {
        reveal_strlit("MISC FA EXP");
        lemma_plain_header("MISC FA EXP"@, 21);
    }
    assert(count_column("MISCELLANEOUS FIREARMS EXPORTED"@) == Some(21int)) by {
        reveal_strlit("MISCELLANEOUS FIREARMS EXPORTED");
        lemma_plain_header("MISCELLANEOUS FIREARMS EXPORTED"@, 21);
    }
    assert(count_column("MICELLANEOUS FIREARMS EXPORTED"@) == Some(21int)) by {
        reveal_strlit("MICELLANEOUS FIREARMS EXPORTED");
        lemma_plain_header("MICELLANEOUS FIREARMS EXPORTED"@, 21);
    }
    assert(count_column("MISC FIREARMS EXPORTED"@) == Some(21int)) by {
        reveal_strlit("MISC FIREARMS EXPORTED");
        lemma_plain_header("MISC FIREARMS EXPORTED"@, 21);
    }
}

/// The firearms that a column counts.
pub enum Firearm {
    Pistol,
    Revolver,
    Rifle,
    Shotgun,
    Other,
}

/// The firearms that a text begins to name.
pub open spec fn firearm_of(n: Seq<char>) -> Option<Firearm> {
    if n.len() < 2 {
        None
    } else if n[0] == 'P' {
        Some(Firearm::Pistol)
    } else if n[0] == 'R' && (n[1] == 'V' || n[1] == 'E') {
        Some(Firearm::Revolver)
    } else if n[0] == 'R' && n[1] == 'I' {
        Some(Firearm::Rifle)
    } else if n[0] == 'S' {
        Some(Firearm::Shotgun)
    } else if n[0] == 'M' {
        Some(Firearm::Other)
    } else {
        None
    }
}

/// The digits of a text, which are those of a caliber.
pub open spec fn digits_of(n: Seq<char>) -> Seq<char>
    decreases n.len(),
{
    if n.len() == 0 {
        Seq::empty()
    } else if is_digit(n.last()) {
        digits_of(n.drop_last()).push(n.last())
    } else {
        digits_of(n.drop_last())
    }
}

/// Whether a text speaks of exports: no other word of a header has an `X`.
pub open spec fn is_exported(n: Seq<char>) -> bool {
    exists|k: int| 0 <= k < n.len() && #[trigger] n[k] == 'X'
}

/// Whether a header text and a column name tell the same firearms, the same
/// caliber and the same of manufacture and export.
pub open spec fn tells_the_same(n: Seq<char>, name: Seq<char>) -> bool {
    let m = upper(name);
    &&& firearm_of(n) is Some
    &&& firearm_of(n) == firearm_of(m)
    &&& digits_of(n) == digits_of(m)
    &&& is_exported(n) == is_exported(m)
}

proof fn lemma_spelling_0(n: Seq<char>)
    requires
        is_spelling(n, 0),
    ensures
        tells_the_same(n, count_col(0)),
{
    reveal_with_fuel(digits_of, 40);
    reveal_strlit("pstl_22");
    let m = upper("pstl_22"@);
    assert(m == seq!['P', 'S', 'T', 'L', '_', '2', '2']);
    reveal_strlit("PSTL 22");
    reveal_strlit("PISTOL 22");
    reveal_strlit("PISTOL 22 MFG");
}

proof fn lemma_spelling_1(n: Seq<char>)
    requires
        is_spelling(n, 1),
    ensures
        tells_the_same(n, count_col(1)),
{
    reveal_with_fuel(digits_of, 40);
    reveal_strlit("pstl_25");
    let m = upper("pstl_25"@);
    assert(m == seq!['P', 'S', 'T', 'L', '_', '2', '5']);
    reveal_strlit("PSTL 25");
    reveal_strlit("PISTOL 25");
    reveal_strlit("PISTOL 25 MFG");
}

proof fn lemma_spelling_2(n: Seq<char>)
    requires
        is_spelling(n, 2),
    ensures
        tells_the_same(n, count_col(2)),
{
    reveal_with_fuel(digits_of, 40);
    reveal_strlit("pstl_32");
    let m = upper("pstl_32"@);
    assert(m == seq!['P', 'S', 'T', 'L', '_', '3', '2']);
    reveal_strlit("PSTL 32");
    reveal_strlit("PISTOL 32");
    reveal_strlit("PISTOL 32 MFG");
}

proof fn lemma_spelling_3(n: Seq<char>)
    requires
        is_spelling(n, 3),
    ensures
        tells_the_same(n, count_col(3)),
{
    reveal_with_fuel(digits_of, 40);
    reveal_strlit("pstl_380");
    let m = upper("pstl_380"@);
    assert(m == seq!['P', 'S', 'T', 'L', '_', '3', '8', '0']);
    reveal_strlit("PSTL 380");
    reveal_strlit("PISTOL 380");
    reveal_strlit("PISTOL 380 MFG");
}

proof fn lemma_spelling_4(n: Seq<char>)
    requires
        is_spelling(n, 4),
    ensures
        tells_the_same(n, count_col(4)),
{
    reveal_with_fuel(digits_of, 40);
    reveal_strlit("pstl_9mm");
    let m = upper("pstl_9mm"@);
    assert(m == seq!['P', 'S', 'T', 'L', '_', '9', 'M', 'M']);
    reveal_strlit("PSTL 9MM");
    reveal_strlit("PISTOL 9MM");
    reveal_strlit("PISTOL 9 MFG");
    reveal_strlit("PISTOL 9MM MFG");
}

proof fn lemma_spelling_5(n: Seq<char>)
    requires
        is_spelling(n, 5),
    ensures
        tells_the_same(n, count_col(5)),
{
    reveal_with_fuel(digits_of, 40);
    reveal_strlit("pstl_50");
    let m = upper("pstl_50"@);
    assert(m == seq!['P', 'S', 'T', 'L', '_', '5', '0']);
    reveal_strlit("PSTL 50");
    reveal_strlit("PISTOL 50");
    reveal_strlit("PISTOL 50 MFG");
}

proof fn lemma_spelling_6(n: Seq<char>)
    requires
        is_spelling(n, 6),
    ensures
        tells_the_same(n, count_col(6)),
{
    reveal_with_fuel(digits_of, 40);
    reveal_strlit("pstl_totl");
    let m = upper("pstl_totl"@);
    assert(m == seq!['P', 'S', 'T', 'L', '_', 'T', 'O', 'T', 'L']);
    reveal_strlit("PSTL TOTL");
    reveal_strlit("PISTOL TOTAL");
    reveal_strlit("PISTOL MFG TOTAL");
}

proof fn lemma_spelling_7(n: Seq<char>)
    requires
        is_spelling(n, 7),
    ensures
        tells_the_same(n, count_col(7)),
{
    reveal_with_fuel(digits_of, 40);
    reveal_strlit("rvlr_22");
    let m = upper("rvlr_22"@);
    assert(m == seq!['R', 'V', 'L', 'R', '_', '2', '2']);
    reveal_strlit("RVLR 22");
    reveal_strlit("RVLR 22 MFG");
    reveal_strlit("REVOLVER 22");
}

proof fn lemma_spelling_8(n: Seq<char>)
    requires
        is_spelling(n, 8),
    ensures
        tells_the_same(n, count_col(8)),
{
    reveal_with_fuel(digits_of, 40);
    reveal_strlit("rvlr_32");
    let m = upper("rvlr_32"@);
    assert(m == seq!['R', 'V', 'L', 'R', '_', '3', '2']);
    reveal_strlit("RVLR 32");
    reveal_strlit("RVLR 32 MFG");
    reveal_strlit("REVOLVER 32");
}

proof fn lemma_spelling_9(n: Seq<char>)
    requires
        is_spelling(n, 9),
    ensures
        tells_the_same(n, count_col(9)),
{
    reveal_with_fuel(digits_of, 40);
    reveal_strlit("rvlr_38");
    let m = upper("rvlr_38"@);
    assert(m == seq!['R', 'V', 'L', 'R', '_', '3', '8']);
    reveal_strlit("RVLR 38");
    reveal_strlit("RVLR 38 MFG");
    reveal_strlit("REVOLVER 38");
}

proof fn lemma_spelling_10(n: Seq<char>)
    requires
        is_spelling(n, 10),
    ensures
        tells_the_same(n, count_col(10)),
{
    reveal_with_fuel(digits_of, 40);
    reveal_strlit("rvlr_357");
    let m = upper("rvlr_357"@);
    assert(m == seq!['R', 'V', 'L', 'R', '_', '3', '5', '7']);
    reveal_strlit("RVLR 357");
    reveal_strlit("RVLR 357 MFG");
    reveal_strlit("REVOLVER 357");
}

proof fn lemma_spelling_11(n: Seq<char>)
    requires
        is_spelling(n, 11),
    ensures
        tells_the_same(n, count_col(11)),
{
    reveal_with_fuel(digits_of, 40);
    reveal_strlit("rvlr_44");
    let m = upper("rvlr_44"@);
    assert(m == seq!['R', 'V', 'L', 'R', '_', '4', '4']);
    reveal_strlit("RVLR 44");
    reveal_strlit("RVLR 44 MFG");
    reveal_strlit("REVOLVER 44");
}

proof fn lemma_spelling_12(n: Seq<char>)
    requires
        is_spelling(n, 12),
    ensures
        tells_the_same(n, count_col(12)),
{
    reveal_with_fuel(digits_of, 40);
    reveal_strlit("rvlr_50");
    let m = upper("rvlr_50"@);
    assert(m == seq!['R', 'V', 'L', 'R', '_', '5', '0']);
    reveal_strlit("RVLR 50");
    reveal_strlit("RVLR 50 MFG");
    reveal_strlit("REVOLVER 50");
}

proof fn lemma_spelling_13(n: Seq<char>)
    requires
        is_spelling(n, 13),
    ensures
        tells_the_same(n, count_col(13)),
{
    reveal_with_fuel(digits_of, 40);
    reveal_strlit("rvlr_totl");
    let m = upper("rvlr_totl"@);
    assert(m == seq!['R', 'V', 'L', 'R', '_', 'T', 'O', 'T', 'L']);
    reveal_strlit("RVLR TOTL");
    reveal_strlit("RVLR TOTAL");
    reveal_strlit("RVLR MFG TOTAL");
    reveal_strlit("REVOLVER TOTAL");
    reveal_strlit("REVOLVER TOTL");
}

proof fn lemma_spelling_14(n: Seq<char>)
    requires
        is_spelling(n, 14),
    ensures
        tells_the_same(n, count_col(14)),
{
    reveal_with_fuel(digits_of, 40);
    reveal_strlit("rifle_mfg");
    let m = upper("rifle_mfg"@);
    assert(m == seq!['R', 'I', 'F', 'L', 'E', '_', 'M', 'F', 'G']);
    reveal_strlit("RIFLE MFG");
    reveal_strlit("RIFLE MANUFACTURED");
    reveal_strlit("RIFLES MANUFACTURED");
}

proof fn lemma_spelling_15(n: Seq<char>)
    requires
        is_spelling(n, 15),
    ensures
        tells_the_same(n, count_col(15)),
{
    reveal_with_fuel(digits_of, 40);
    reveal_strlit("shotgun_mfg");
    let m = upper("shotgun_mfg"@);
    assert(m == seq!['S', 'H', 'O', 'T', 'G', 'U', 'N', '_', 'M', 'F', 'G']);
    reveal_strlit("SHOTGUN MFG");
    reveal_strlit("SHOTGUN MANUFACTURED");
    reveal_strlit("SHOTGUNS MANUFACTURED");
}

proof fn lemma_spelling_16(n: Seq<char>)
    requires
        is_spelling(n, 16),
    ensures
        tells_the_same(n, count_col(16)),
{
    reveal_with_fuel(digits_of, 40);
    reveal_strlit("mis_fam");
    let m = upper("mis_fam"@);
    assert(m == seq!['M', 'I', 'S', '_', 'F', 'A', 'M']);
    reveal_strlit("MIS FAM");
    reveal_strlit("MISC FA MFG");
    reveal_strlit("MISCELLANEOUS FIREARMS MANUFACTURED");
    reveal_strlit("MISC FIREARMS MANUFACTURED");
    reveal_strlit("MICELLANEOUS FIREARMS MANUFACTURED");
}

proof fn lemma_spelling_17(n: Seq<char>)
    requires
        is_spelling(n, 17),
    ensures
        tells_the_same(n, count_col(17)),
{
    reveal_with_fuel(digits_of, 40);
    reveal_strlit("pistol_exp");
    let m = upper("pistol_exp"@);
    assert(m == seq!['P', 'I', 'S', 'T', 'O', 'L', '_', 'E', 'X', 'P']);
    reveal_strlit("PISTOL EXP");
    assert("PISTOL EXP"@[8] == 'X');
    reveal_strlit("PISTOLS EXP");
    assert("PISTOLS EXP"@[9] == 'X');
    reveal_strlit("PISTOLS EXPORTED");
    assert("PISTOLS EXPORTED"@[9] == 'X');
    assert(m[8] == 'X');
}

proof fn lemma_spelling_18(n: Seq<char>)
    requires
        is_spelling(n, 18),
    ensures
        tells_the_same(n, count_col(18)),
{
    reveal_with_fuel(digits_of, 40);
    reveal_strlit("revolver_exp");
    let m = upper("revolver_exp"@);
    assert(m == seq!['R', 'E', 'V', 'O', 'L', 'V', 'E', 'R', '_', 'E', 'X', 'P']);
    reveal_strlit("RVLR EXP");
    assert("RVLR EXP"@[6] == 'X');
    reveal_strlit("REVOLVER EXP");
    assert("REVOLVER EXP"@[10] == 'X');
    reveal_strlit("REVOLVERS EXP");
    assert("REVOLVERS EXP"@[11] == 'X');
    reveal_strlit("REVOLVERS EXPORTED");
    assert("REVOLVERS EXPORTED"@[11] == 'X');
    assert(m[10] == 'X');
}

proof fn lemma_spelling_19(n: Seq<char>)
    requires
        is_spelling(n, 19),
    ensures
        tells_the_same(n, count_col(19)),
{
    reveal_with_fuel(digits_of, 40);
    reveal_strlit("rifle_exp");
    let m = upper("rifle_exp"@);
    assert(m == seq!['R', 'I', 'F', 'L', 'E', '_', 'E', 'X', 'P']);
    reveal_strlit("RIFLE EXP");
    assert("RIFLE EXP"@[7] == 'X');
    reveal_strlit("RIFLES EXP");
    assert("RIFLES EXP"@[8] == 'X');
    reveal_strlit("RIFLES EXPORTED");
    assert("RIFLES EXPORTED"@[8] == 'X');
    assert(m[7] == 'X');
}

proof fn lemma_spelling_20(n: Seq<char>)
    requires
        is_spelling(n, 20),
    ensures
        tells_the_same(n, count_col(20)),
{
    reveal_with_fuel(digits_of, 40);
    reveal_strlit("shotgun_exp");
    let m = upper("shotgun_exp"@);
    assert(m == seq!['S', 'H', 'O', 'T', 'G', 'U', 'N', '_', 'E', 'X', 'P']);
    reveal_strlit("SHOTGUN EXP");
    assert("SHOTGUN EXP"@[9] == 'X');
    reveal_strlit("SHOTGUNS EXP");
    assert("SHOTGUNS EXP"@[10] == 'X');
    reveal_strlit("SHOTGUNS EXPORTED");
    assert("SHOTGUNS EXPORTED"@[10] == 'X');
    assert(m[9] == 'X');
}

proof fn lemma_spelling_21(n: Seq<char>)
    requires
        is_spelling(n, 21),
    ensures
        tells_the_same(n, count_col(21)),
{
    reveal_with_fuel(digits_of, 40);
    reveal_strlit("misc_fa_exp");
    let m = upper("misc_fa_exp"@);
    assert(m == seq!['M', 'I', 'S', 'C', '_', 'F', 'A', '_', 'E', 'X', 'P']);
    reveal_strlit("MISC FA EXP");
    assert("MISC FA EXP"@[9] == 'X');
    reveal_strlit("MISCELLANEOUS FIREARMS EXPORTED");
    assert("MISCELLANEOUS FIREARMS EXPORTED"@[24] == 'X');
    reveal_strlit("MICELLANEOUS FIREARMS EXPORTED");
    assert("MICELLANEOUS FIREARMS EXPORTED"@[23] == 'X');
    reveal_strlit("MISC FIREARMS EXPORTED");
    assert("MISC FIREARMS EXPORTED"@[15] == 'X');
    assert(m[9] == 'X');
}

/// A header that names a column tells the firearms, the caliber and whether
/// exports are counted as the name of the column does, so that no two columns can
/// be taken for each other.
pub proof fn law_headers_tell_their_column(header: Seq<char>, i: int)
    requires
        count_column(header) == Some(i),
    ensures
        0 <= i < 22,
        tells_the_same(header_text(header), count_col(i)),
{
    let n = header_text(header);
    lemma_column_from_spells(n, 0, i);
    if i == 0 {
        lemma_spelling_0(n);
    } else if i == 1 {
        lemma_spelling_1(n);
    } else if i == 2 {
        lemma_spelling_2(n);
    } else if i == 3 {
        lemma_spelling_3(n);
    } else if i == 4 {
        lemma_spelling_4(n);
    } else if i == 5 {
        lemma_spelling_5(n);
    } else if i == 6 {
        lemma_spelling_6(n);
    } else if i == 7 {
        lemma_spelling_7(n);
    } else if i == 8 {
        lemma_spelling_8(n);
    } else if i == 9 {
        lemma_spelling_9(n);
    } else if i == 10 {
        lemma_spelling_10(n);
    } else if i == 11 {
        lemma_spelling_11(n);
    } else if i == 12 {
        lemma_spelling_12(n);
    } else if i == 13 {
        lemma_spelling_13(n);
    } else if i == 14 {
        lemma_spelling_14(n);
    } else if i == 15 {
        lemma_spelling_15(n);
    } else if i == 16 {
        lemma_spelling_16(n);
    } else if i == 17 {
        lemma_spelling_17(n);
    } else if i == 18 {
        lemma_spelling_18(n);
    } else if i == 19 {
        lemma_spelling_19(n);
    } else if i == 20 {
        lemma_spelling_20(n);
    } else if i == 21 {
        lemma_spelling_21(n);
    }
}

proof fn lemma_column_from_spells(n: Seq<char>, from: int, i: int)
    requires
        0 <= from,
        column_from(n, from) == Some(i),
    ensures
        from <= i < 22,
        is_spelling(n, i),
    decreases 22 - from,
{
    if from < 22 && !is_spelling(n, from) {
        lemma_column_from_spells(n, from + 1, i);
    }
}

/// Letter case does not matter to a header, and a slash or an underscore in it is
/// as good as a blank.
pub proof fn law_header_marks_do_not_matter(header: Seq<char>, other: Seq<char>)
    requires
        header.len() == other.len(),
        forall|k: int|
            0 <= k < header.len() ==> {
                ||| #[trigger] other[k] == header[k]
                ||| other[k] == upper(header)[k]
                ||| (header[k] == '/' || header[k] == '_') && other[k] == ' '
            },
    ensures
        count_column(other) == count_column(header),
{
    let a = Seq::new(header.len(), |k: int| spaced_char(upper_char(header[k])));
    let b = Seq::new(other.len(), |k: int| spaced_char(upper_char(other[k])));
    assert forall|k: int| 0 <= k < a.len() implies a[k] == b[k] by {
        assert(other[k] == header[k] || other[k] == upper(header)[k] || other[k] == ' ');
        crate::text::lemma_upper_space(header[k]);
    }
    assert(a == b);
}

/// A header is compared by its words in capitals, whatever white space parts them.
pub proof fn law_header_is_compared_by_its_words(header: Seq<char>)
    requires
        forall|k: int| 0 <= k < header.len() ==> #[trigger] header[k] != '/' && header[k] != '_',
    ensures
        header_text(header) == phrase(upper_words(words(header))),
{
    law_upper_keeps_words(header);
    let spaced = Seq::new(header.len(), |k: int| spaced_char(upper_char(header[k])));
    assert(spaced =~= upper(header));
}

} // verus!
