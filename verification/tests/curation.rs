use afmer_etl::groups::{groups_json_body, groups_of};
use afmer_etl::jsonc::{drop_trailing_commas, strip_comments, strip_jsonc};
use afmer_etl::labels::{labels_of, read_labels, LabelsError};
use afmer_etl::links::{links_of, read_links, GroupName, Link, Links, LinksError};

fn pairs(links: &Links) -> Vec<(String, String)> {
    links.links.iter().map(|l| (l.rds_key.clone(), l.group_id.clone())).collect()
}

fn pair(a: &str, b: &str) -> (String, String) {
    (a.to_string(), b.to_string())
}

#[test]
fn comments_go_and_strings_stay() {
    assert_eq!(strip_comments("a // b\nc /* d\n */ e"), "a \nc  e");
    assert_eq!(strip_comments("\"// \\\" /* x */\" // y"), "\"// \\\" /* x */\" ");
    assert_eq!(strip_comments("1 /* open"), "1 ");
    assert_eq!(strip_comments("\u{e9} /* \u{e9} */ \"\u{e9}\""), "\u{e9}  \"\u{e9}\"");
    assert_eq!(strip_comments("a / b"), "a / b");
}

#[test]
fn only_trailing_commas_go() {
    assert_eq!(drop_trailing_commas("[1, 2,\n ]"), "[1, 2\n ]");
    assert_eq!(drop_trailing_commas("{\"a\": \",]\",}"), "{\"a\": \",]\"}");
    assert_eq!(drop_trailing_commas("[,]"), "[]");
    assert_eq!(drop_trailing_commas("1,"), "1,");
}

#[test]
fn a_comment_may_follow_a_trailing_comma() {
    assert_eq!(strip_jsonc("[1, // one\n]"), "[1 \n]");
    assert_eq!(strip_jsonc("{\"a\": [1, 2]}"), "{\"a\": [1, 2]}");
}

#[test]
fn links_files_give_groups() {
    let text = "{ \"groups\": [\n\
        { \"id\": \"99900001\", \"name\": \"Sturm Ruger Aggregate\",\n\
          \"keys\": [\"98614472\", \"60200735\", 7, \"\"] }, // plants\n\
        [\"99201609\", \"57401497\"], /* unnamed */\n\
        [],\n\
        { \"name\": \"empty\" },\n\
        { \"id\": \"\", \"keys\": [\"1\"] },\n\
        ] }";
    let links = read_links(text).ok().unwrap();
    assert_eq!(
        pairs(&links),
        vec![
            pair("98614472", "99900001"),
            pair("60200735", "99900001"),
            pair("99201609", "99201609"),
            pair("57401497", "99201609"),
            pair("1", "1"),
        ]
    );
    assert_eq!(links.names.len(), 1);
    assert_eq!(links.names[0].group_id, "99900001");
    assert_eq!(links.names[0].name, "Sturm Ruger Aggregate");
}

#[test]
fn a_links_file_may_be_a_bare_array() {
    let root: serde_json::Value = serde_json::from_str("[[\"a\", \"b\"]]").unwrap();
    assert_eq!(pairs(&links_of(&root).ok().unwrap()), vec![pair("a", "a"), pair("b", "a")]);
}

#[test]
fn links_files_that_are_refused() {
    assert!(matches!(read_links("nonsense"), Err(LinksError::Json(_))));
    assert!(matches!(read_links("{}"), Err(LinksError::NotAnArray)));
    assert!(matches!(read_links("{\"groups\": 1}"), Err(LinksError::NotAnArray)));
    assert!(matches!(read_links("[[\"a\"], 1]"), Err(LinksError::BadGroup)));
}

#[test]
fn labels_keep_all_they_hold() {
    let text = "{\"labels\": {\"_comment\": \"x\", \"rifle_mfg\": {\"name\": \"Rifles\", \
                \"group\": \"g\\\"\"}, \"state\": \"State\", \"year\": {\"unit\": 1}}}";
    let labels = read_labels(text).ok().unwrap();
    let got: Vec<(String, String, String)> = labels
        .iter()
        .map(|l| (l.code.clone(), l.name.clone(), l.json.clone()))
        .collect();
    assert_eq!(
        got,
        vec![
            (
                "rifle_mfg".to_string(),
                "Rifles".to_string(),
                "{\"group\":\"g\\\"\",\"name\":\"Rifles\"}".to_string(),
            ),
            ("state".to_string(), "State".to_string(), "\"State\"".to_string()),
            ("year".to_string(), "year".to_string(), "{\"unit\":1}".to_string()),
        ]
    );
    let back: serde_json::Value = serde_json::from_str(&labels[0].json).unwrap();
    assert_eq!(back.get("group").and_then(|v| v.as_str()), Some("g\""));
}

#[test]
fn stored_labels_read_back() {
    let text = "{\"a\": {\"n\": -12, \"b\": [true, null, {\"c\": 18446744073709551615}]}, \"d\": 7}";
    let root: serde_json::Value = serde_json::from_str(text).unwrap();
    for l in labels_of(&root).ok().unwrap() {
        let back: serde_json::Value = serde_json::from_str(&l.json).unwrap();
        assert_eq!(&back, root.get(&l.code).unwrap());
    }
    let deep = format!("{{\"a\": {}1{}}}", "[".repeat(126), "]".repeat(126));
    let labels = read_labels(&deep).ok().unwrap();
    assert!(serde_json::from_str::<serde_json::Value>(&labels[0].json).is_ok());
    let just = format!("{}1{}", "[".repeat(127), "]".repeat(127));
    assert!(serde_json::from_str::<serde_json::Value>(&just).is_ok());
    let over = format!("{}1{}", "[".repeat(128), "]".repeat(128));
    assert!(serde_json::from_str::<serde_json::Value>(&over).is_err());
}

#[test]
fn wrapped_and_bare_groups_load_alike() {
    let list = "[[\"a\", \"b\"], {\"id\": \"g\", \"name\": \"G\", \"keys\": [\"c\"]}]";
    let bare = read_links(list).ok().unwrap();
    let wrapped = read_links(&format!("{{\"groups\": {}}}", list)).ok().unwrap();
    assert_eq!(pairs(&bare), pairs(&wrapped));
    assert_eq!(bare.names[0].name, wrapped.names[0].name);
    assert!(matches!(read_links("[1]"), Err(LinksError::BadGroup)));
    assert!(matches!(read_links("{\"groups\": [1]}"), Err(LinksError::BadGroup)));
}

#[test]
fn labels_may_be_a_flat_object() {
    let root: serde_json::Value = serde_json::from_str("{\"a\": \"A\"}").unwrap();
    let labels = labels_of(&root).ok().unwrap();
    assert_eq!(labels.len(), 1);
    assert_eq!(labels[0].name, "A");
}

#[test]
fn labels_files_that_are_refused() {
    assert!(matches!(read_labels("{"), Err(LabelsError::Json(_))));
    assert!(matches!(read_labels("[]"), Err(LabelsError::NotAnObject)));
    assert!(matches!(read_labels("{\"labels\": 3}"), Err(LabelsError::NotAnObject)));
    assert!(matches!(read_labels("{\"a\": 1} // c"), Err(LabelsError::Json(_))));
}

fn link(key: &str, id: &str) -> Link {
    Link { rds_key: key.to_string(), group_id: id.to_string() }
}

#[test]
fn groups_are_sorted_and_named() {
    let links = vec![link("3", "b"), link("1", "a"), link("2", "b")];
    let groups = groups_of(&links);
    assert_eq!(groups.len(), 2);
    assert_eq!(groups[0].id, "a");
    assert_eq!(groups[1].keys, vec!["3".to_string(), "2".to_string()]);
    let names = vec![
        GroupName { group_id: "b".to_string(), name: "old".to_string() },
        GroupName { group_id: "b".to_string(), name: "B \"x\"".to_string() },
    ];
    assert_eq!(
        groups_json_body(&links, &names),
        "{\"id\": \"a\", \"name\": \"a\", \"keys\": [\"1\"]}, \
         {\"id\": \"b\", \"name\": \"B \\\"x\\\"\", \"keys\": [\"3\",\"2\"]}"
    );
    assert_eq!(groups_json_body(&vec![], &names), "");
}

#[test]
fn no_trailing_comma_is_left() {
    assert_eq!(strip_jsonc("{\"a\": [1, 2, /* x */ ], }"), "{\"a\": [1, 2  ] }");
    assert_eq!(strip_jsonc("[1,,]"), "[1,]");
}

#[test]
fn the_last_group_of_a_key_counts() {
    let links = read_links("[[\"a\", \"b\"], {\"id\": \"g\", \"keys\": [\"b\"]}]").ok().unwrap();
    assert_eq!(pairs(&links), vec![pair("a", "a"), pair("b", "a"), pair("b", "g")]);
}

#[test]
fn json_documents_are_kept() {
    let docs = [
        " [ ] ",
        "{\"a//b\": \"/* \\\" */\", \"c\" : [1.5e-3, -0, {}, true, \",]\"]}\n",
        "\"\\u00e9\\/\"",
        "null",
    ];
    for d in docs {
        assert!(serde_json::from_str::<serde_json::Value>(d).is_ok());
        assert_eq!(strip_jsonc(d), d);
    }
    let j = "[1, /* x */ 2, ] // y";
    assert_eq!(strip_jsonc(&strip_jsonc(j)), strip_jsonc(j));
}
