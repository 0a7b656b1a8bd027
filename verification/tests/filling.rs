//! Filling in the places between double braces.
use watermelon::interpolate::{interp_value, interpolate, pick_text, thousands_sep, Scope, Trace, Whole};
use watermelon::map::TextMap;
use watermelon::value::{Json, Number};

fn ctx() -> (TextMap<Json>, TextMap<String>) {
    let mut vars: TextMap<Json> = TextMap::new();
    vars.insert("name".to_string(), Json::text("alice"));
    vars.insert("price".to_string(), Json::from_uint(1250000));
    vars.insert(
        "item".to_string(),
        Json::empty()
            .with("title", Json::text("Hello"))
            .with("url", Json::text("x.com")),
    );
    vars.insert(
        "tags".to_string(),
        Json::Array(vec![Json::text("a"), Json::text("b"), Json::text("c")]),
    );
    let mut sys: TextMap<String> = TextMap::new();
    sys.insert("date".to_string(), "2026-06-09".to_string());
    (vars, sys)
}

fn filled(template: &str, w: &mut Vec<String>) -> String {
    let (vars, sys) = ctx();
    interpolate(template, &vars, &sys, &TextMap::new(), w)
}

#[test]
fn basic_var_and_system() {
    let mut w = Vec::new();
    assert_eq!(filled("Hi {{name}} on {{date}}", &mut w), "Hi alice on 2026-06-09");
    assert!(w.is_empty());
}

#[test]
fn nested_path_and_filters() {
    let mut w = Vec::new();
    assert_eq!(filled("{{item.title}}", &mut w), "Hello");
    assert_eq!(filled("{{name | upper}}", &mut w), "ALICE");
    assert_eq!(filled("{{tags | length}}", &mut w), "3");
    assert_eq!(filled("{{tags | join:- }}", &mut w), "a-b-c");
    assert_eq!(filled("{{price | format_vnd}}", &mut w), "1.250.000 ₫");
}

#[test]
fn missing_var_warns_and_blanks() {
    let mut w = Vec::new();
    assert_eq!(filled("x={{nope}}", &mut w), "x=");
    assert_eq!(w.len(), 1);
}

#[test]
fn lower_case_and_white_space() {
    let mut w = Vec::new();
    assert_eq!(filled("{{ name | upper | lower }}", &mut w), "alice");
    assert_eq!(filled("{{\u{a0}name\u{2003}}}", &mut w), "alice");
    assert!(w.is_empty());
}

#[test]
fn text_without_braces_stays() {
    let mut w = Vec::new();
    assert_eq!(filled("nothing to {fill} in", &mut w), "nothing to {fill} in");
    assert_eq!(filled("open {{name", &mut w), "open {{name");
    assert!(w.is_empty());
}

#[test]
fn amounts_go_by_what_their_notation_stands_for() {
    let mut vars: TextMap<Json> = TextMap::new();
    vars.insert(
        "p".to_string(),
        Json::Number(Number::Float("1234567.9".to_string())),
    );
    let sys: TextMap<String> = TextMap::new();
    let mut readings: TextMap<Whole> = TextMap::new();
    readings.insert(
        "1234567.9".to_string(),
        Whole { negative: false, magnitude: 1234567 },
    );
    let mut w = Vec::new();
    assert_eq!(
        interpolate("{{p | format_vnd}}", &vars, &sys, &readings, &mut w),
        "1.234.567 ₫"
    );
    assert_eq!(thousands_sep(Whole { negative: true, magnitude: 1000 }), "-1.000");
    assert_eq!(thousands_sep(Whole { negative: false, magnitude: 999 }), "999");
}

#[test]
fn chance_picks_from_a_list() {
    let mut w = Vec::new();
    let got = filled("{{random_from: [\"a\", 2, true]}}", &mut w);
    assert!(["a", "2", "true"].contains(&got.as_str()));
    assert_eq!(filled("{{random_from: []}}{{random_from: x}}", &mut w), "");
    let mut trace = Trace { warnings: vec![], draws: vec![4], asked: vec![], unknown: vec![] };
    let list = Json::Array(vec![Json::text("a"), Json::from_uint(2), Json::Bool(true)]);
    assert_eq!(pick_text(Ok(list), &mut trace), "2");
    assert!(trace.draws.is_empty());
    assert_eq!(pick_text(Err("x".to_string()), &mut trace), "");
}

#[test]
fn every_choice_has_a_number_of_its_own() {
    let (vars, sys) = ctx();
    let readings: TextMap<Whole> = TextMap::new();
    let scope = Scope { vars: &vars, sys: &sys, readings: &readings };
    let v = Json::Array(vec![
        Json::text("{{random_from: [\"a\", \"b\", \"c\"]}}{{name}}"),
        Json::text("{{random_from: [\"a\", \"b\", \"c\"]}}"),
    ]);
    // Three openings; the numbers are taken from the end.
    let mut enough = Trace { warnings: vec![], draws: vec![0, 2, 1], asked: vec![], unknown: vec![] };
    let got = interp_value(&v, &scope, &mut enough);
    assert_eq!(got, Json::Array(vec![Json::text("balice"), Json::text("c")]));
    let mut more = Trace { warnings: vec![], draws: vec![7, 8, 0, 2, 1], asked: vec![], unknown: vec![] };
    assert_eq!(interp_value(&v, &scope, &mut more), got);
    assert_eq!((enough.draws, more.draws), (vec![0], vec![7, 8, 0]));
}

#[test]
fn unknown_filters_are_told_of() {
    let (vars, sys) = ctx();
    let readings: TextMap<Whole> = TextMap::new();
    let scope = Scope { vars: &vars, sys: &sys, readings: &readings };
    let mut trace = Trace { warnings: vec![], draws: vec![], asked: vec![], unknown: vec![] };
    let v = Json::text("{{name | nosuch | upper | other:1}}");
    assert_eq!(interp_value(&v, &scope, &mut trace), Json::text("ALICE"));
    assert_eq!(trace.unknown, vec!["nosuch", "other"]);
    assert!(trace.warnings.is_empty());
}

#[test]
fn plain_text_before_a_template_stays() {
    let mut w = Vec::new();
    let mut again = Vec::new();
    let part = filled("{{name}} {{nope}}", &mut again);
    assert_eq!(filled("to } }} all: {{name}} {{nope}}", &mut w), format!("to }} }}}} all: {part}"));
    assert_eq!(w, again);
}

#[test]
fn values_are_filled_in_all_the_way_down() {
    let (vars, sys) = ctx();
    let readings: TextMap<Whole> = TextMap::new();
    let scope = Scope { vars: &vars, sys: &sys, readings: &readings };
    let mut trace = Trace { warnings: vec![], draws: vec![], asked: vec![], unknown: vec![] };
    let v = Json::empty()
        .with("a", Json::Array(vec![Json::text("{{name}}"), Json::Null]))
        .with("n", Json::from_uint(3));
    let want = Json::empty()
        .with("a", Json::Array(vec![Json::text("alice"), Json::Null]))
        .with("n", Json::from_uint(3));
    assert_eq!(interp_value(&v, &scope, &mut trace), want);
    assert!(trace.warnings.is_empty());
}
