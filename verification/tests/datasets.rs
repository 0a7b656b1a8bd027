//! Tables of values, and the variables that a row becomes.
use watermelon::dataset::{
    build_seed, dedup_columns, parse_dataset, parse_json, sniff, split_row, table_from_json,
    Delimiter,
};
use watermelon::map::TextMap;
use watermelon::model::{DataBinding, DataMode};
use watermelon::value::Json;

fn at<'a>(row: &'a TextMap<Json>, k: &str) -> &'a Json {
    row.get(k).expect("the column")
}

#[test]
fn parses_tsv_with_header() {
    let r = parse_dataset(
        "subject\treply\nHi\tHello there\nYo\tWhat's up",
        Delimiter::Auto,
        true,
    );
    assert_eq!(r.columns, vec!["subject", "reply"]);
    assert_eq!(r.rows.len(), 2);
    assert_eq!(*at(&r.rows[0], "reply"), Json::text("Hello there"));
    assert!(r.errors.is_empty());
}

#[test]
fn parses_csv_quoted() {
    let r = parse_dataset("a,b\n\"x,1\",\"y\"\"q\"", Delimiter::Comma, true);
    assert_eq!(r.columns, vec!["a", "b"]);
    assert_eq!(*at(&r.rows[0], "a"), Json::text("x,1"));
    assert_eq!(*at(&r.rows[0], "b"), Json::text("y\"q"));
}

#[test]
fn single_column_txt_no_header() {
    let r = parse_dataset("Great video!\nThanks\nNice", Delimiter::Auto, false);
    assert_eq!(r.columns, vec!["value"]);
    assert_eq!(r.rows.len(), 3);
    assert_eq!(*at(&r.rows[2], "value"), Json::text("Nice"));
}

#[test]
fn ragged_short_row_omits_key_and_long_row_errors() {
    let r = parse_dataset("a\tb\tc\n1\t2\n1\t2\t3\t4", Delimiter::Tab, true);
    assert_eq!(r.rows[0].get("c"), None);
    assert_eq!(*at(&r.rows[1], "c"), Json::text("3"));
    assert_eq!(r.errors.len(), 1);
    assert_eq!(r.errors[0].line, 3);
}

#[test]
fn json_array_of_objects() {
    let r = parse_dataset(
        r#"[{"reply":"ok"},{"reply":"sure","extra":"x"}]"#,
        Delimiter::Auto,
        false,
    );
    assert_eq!(r.columns, vec!["reply", "extra"]);
    assert_eq!(r.rows.len(), 2);
    assert_eq!(*at(&r.rows[1], "extra"), Json::text("x"));
}

#[test]
fn build_seed_flat_vs_prefixed() {
    let mut row: TextMap<Json> = TextMap::new();
    row.insert("reply".to_string(), Json::text("hi"));
    let flat = build_seed(
        &DataBinding {
            dataset_id: "d".to_string(),
            mode: DataMode::Random,
            prefix: None,
        },
        &row,
    );
    assert_eq!(*at(&flat, "reply"), Json::text("hi"));
    let pre = build_seed(
        &DataBinding {
            dataset_id: "d".to_string(),
            mode: DataMode::Random,
            prefix: Some("row".to_string()),
        },
        &row,
    );
    assert_eq!(
        *at(&pre, "row"),
        Json::empty().with("reply", Json::text("hi"))
    );
    assert!(!pre.contains_key("reply"));
}

#[test]
fn broken_json_is_one_error() {
    let r = parse_json("[1,");
    assert!(r.columns.is_empty() && r.rows.is_empty());
    assert_eq!(r.errors.len(), 1);
    assert_eq!(r.errors[0].line, 0);
    let made_up = table_from_json(Err("why".to_string()));
    assert_eq!(made_up.errors.len(), 1);
    assert!(made_up.errors[0].reason.contains("why"));
}

#[test]
fn same_column_names_are_told_apart() {
    let mut cols = vec!["a".to_string(), "a".to_string(), "b".to_string()];
    dedup_columns(&mut cols);
    assert_eq!(cols[0], "a");
    assert_ne!(cols[0], cols[1]);
    assert_ne!(cols[1], cols[2]);
}

#[test]
fn cells_are_read_back() {
    let cells = vec!["a,b", "say \"hi\"", "", " x "];
    let quoted: Vec<String> =
        cells.iter().map(|c| format!("\"{}\"", c.replace('"', "\"\""))).collect();
    assert_eq!(split_row(&quoted.join(","), ','), cells);
    let plain = vec!["a,b", "\"quoted\"", ""];
    assert_eq!(split_row(&plain.join("\t"), '\t'), plain);
}

#[test]
fn separator_is_found_out() {
    assert_eq!(sniff("a\tb"), '\t');
    assert_eq!(sniff("a,b"), ',');
    assert_eq!(split_row("a,b,,c", ','), vec!["a", "b", "", "c"]);
    assert_eq!(split_row("\"a\"\"b\",c", ','), vec!["a\"b", "c"]);
}
