use afmer_etl::cells::{cell_to_string, row_to_strings, Cell};
use afmer_etl::columns::{canonical_count, canonical_index, count_index, count_names, COUNT_COLS};
use afmer_etl::number::{
    decimal_of, decimal_of_signed, padded_of, padded_of_signed, parse_i32, parse_i64, parse_u32,
};
use afmer_etl::text::{
    chars_of, contains, is_before, is_space_char, join_all, lines_of, normalize, strip_prefix,
    strip_suffix, to_lower, to_upper, trim, words_of,
};

#[test]
fn white_space_is_that_of_unicode() {
    let mut n: u32 = 0;
    while n <= 0x10ffff {
        if let Some(c) = char::from_u32(n) {
            assert_eq!(is_space_char(c), c.is_whitespace(), "{:x}", n);
        }
        n += 1;
    }
}

#[test]
fn words_and_lines_split_as_in_std() {
    for s in ["", "  ", "a b", " \ta\u{a0}b\u{2003} c ", "x\r\ny\n\nz\r", "\n", "a\r\r\nb"] {
        let ws: Vec<String> = s.split_whitespace().map(|w| w.to_string()).collect();
        assert_eq!(words_of(s), ws);
        let ls: Vec<String> = s.lines().map(|l| l.to_string()).collect();
        assert_eq!(lines_of(s), ls);
        assert_eq!(trim(s), s.trim());
        assert_eq!(to_upper(s), s.to_ascii_uppercase());
        assert_eq!(to_lower(s), s.to_ascii_lowercase());
        assert_eq!(chars_of(s), s.chars().collect::<Vec<char>>());
    }
}

#[test]
fn normalized_text_is_upper_case_with_single_blanks() {
    assert_eq!(normalize("  Sturm,\tRuger  & co "), "STURM, RUGER & CO");
    assert_eq!(normalize(&normalize("a  b")), "A B");
    assert_eq!(normalize(" \n"), "");
}

#[test]
fn parts_of_texts() {
    assert!(contains("xx APP_RDS_KEY yy", "APP_RDS_KEY"));
    assert!(!contains("APP_RDS", "APP_RDS_KEY"));
    assert!(contains("abc", ""));
    assert_eq!(strip_prefix("rds-2023", "rds-"), Some("2023".to_string()));
    assert_eq!(strip_prefix("rd", "rds-"), None);
    assert_eq!(strip_suffix("0126-ffl-list", "-ffl-list"), Some("0126".to_string()));
    assert_eq!(strip_suffix("ffl-list", "-ffl-list"), None);
    let parts = vec!["a".to_string(), "b".to_string(), "c".to_string()];
    assert_eq!(join_all(&parts, ", "), "a, b, c");
}

#[test]
fn text_order_is_that_of_strings() {
    let all = ["", "a", "ab", "b", "\u{e9}", "z", "\u{ffff}", "\u{10000}", "A"];
    for a in all {
        for b in all {
            assert_eq!(is_before(a, b), a < b);
        }
    }
}

#[test]
fn numbers_read_as_in_std() {
    let all = [
        "", "+", "-", "0", "-0", "+7", "-7", "007", "12a", " 1", "2147483647", "2147483648",
        "-2147483648", "-2147483649", "4294967295", "4294967296", "9223372036854775807",
        "9223372036854775808", "-9223372036854775808", "-9223372036854775809", "--1", "+-1",
        "99999999999999999999999999",
    ];
    for s in all {
        assert_eq!(parse_i64(s), s.parse::<i64>().ok(), "{}", s);
        assert_eq!(parse_i32(s), s.parse::<i32>().ok(), "{}", s);
        assert_eq!(parse_u32(s), s.parse::<u32>().ok(), "{}", s);
    }
}

#[test]
fn numbers_write_as_in_std() {
    for n in [0i64, 1, 9, 10, 99, 100, -1, -10, i64::MAX, i64::MIN] {
        assert_eq!(decimal_of_signed(n), n.to_string());
        assert_eq!(parse_i64(&decimal_of_signed(n)), Some(n));
    }
    assert_eq!(decimal_of(u64::MAX), u64::MAX.to_string());
    for n in [0u64, 7, 42, 332, 99999, 100000] {
        assert_eq!(padded_of(n, 5), format!("{:05}", n));
        assert_eq!(padded_of(n, 0), n.to_string());
    }
    for y in [0i32, 33, 2024, 12345, -1, -123, -12345, i32::MIN] {
        assert_eq!(padded_of_signed(y, 4), format!("{:04}", y));
    }
}

#[test]
fn header_spellings_reach_the_column() {
    assert_eq!(canonical_count("Pistol/22  mfg"), Some("pstl_22"));
    assert_eq!(canonical_count("PISTOL_9_MFG"), Some("pstl_9mm"));
    assert_eq!(canonical_count("Revolver Total"), Some("rvlr_totl"));
    assert_eq!(canonical_count("Rifles Manufactured"), Some("rifle_mfg"));
    assert_eq!(canonical_count("nothing"), None);
    assert_eq!(canonical_index("rvlr 357"), Some(10));
    assert_eq!(count_index("misc_fa_exp"), Some(21));
    assert_eq!(count_index("MISC_FA_EXP"), None);
}

#[test]
fn every_count_column_spells_itself() {
    let mut i: usize = 0;
    for c in COUNT_COLS {
        assert_eq!(canonical_count(c), Some(c));
        assert_eq!(canonical_index(c), Some(i));
        assert_eq!(count_index(c), Some(i));
        i += 1;
    }
    assert_eq!(i, 22);
    assert_eq!(count_names()[6], "pstl_totl");
}

#[test]
fn cells_show_their_text() {
    assert_eq!(cell_to_string(&Cell::Empty), "");
    assert_eq!(cell_to_string(&Cell::Int(-85001)), "-85001");
    assert_eq!(cell_to_string(&Cell::Bool(true)), "true");
    assert_eq!(cell_to_string(&Cell::Bool(false)), "false");
    let row = vec![Cell::Text("a".to_string()), Cell::Int(7)];
    assert_eq!(row_to_strings(&row), vec!["a".to_string(), "7".to_string()]);
}
