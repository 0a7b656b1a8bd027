//! What a block does: the tool it calls and with which arguments, or what it
//! changes in the run itself.
use vstd::prelude::*;

use crate::json::{plain, value_to_string};
use crate::map::lookup;
use crate::text::{
    contains, dec_i64, dec_int, dec_u64, has_part, join2, join3, lemma_filter_push,
    lemma_texts_push, parse_i64, same, signed_value, split, split_on, texts, trim, trimmed, dec,
};
use crate::value::{
    lemma_array_view, lemma_object_view, values, Json, JsonView, Number, NumberView,
};

verus! {

broadcast use {lemma_array_view, lemma_object_view};

/// What a leaf block does.
pub enum Plan {
    /// Calls a tool; the text of its reply goes to the output variable where
    /// `store` says so.
    Call { tool: String, args: Json, store: bool },
    /// Rests for a number of seconds, or one where none is given.
    Wait { seconds: Option<Number> },
    /// Rests for a random time between two bounds, in seconds; one and three
    /// where they are not given.
    WaitRandom { min: Option<Number>, max: Option<Number> },
    Assign { name: String, value: Json },
    Note { message: String },
    PickRow,
    LoadDataset,
    Ai,
    Nothing,
    Fail { message: String },
}

pub enum PlanView {
    Call { tool: Seq<char>, args: JsonView, store: bool },
    Wait { seconds: Option<NumberView> },
    WaitRandom { min: Option<NumberView>, max: Option<NumberView> },
    Assign { name: Seq<char>, value: JsonView },
    Note { message: Seq<char> },
    PickRow,
    LoadDataset,
    Ai,
    Nothing,
    Fail { message: Seq<char> },
}

pub open spec fn opt_number(o: Option<Number>) -> Option<NumberView> {
    match o {
        Some(n) => Some(n@),
        None => None,
    }
}

impl Plan {
    pub open spec fn view(&self) -> PlanView {
        match self {
            Plan::Call { tool, args, store } => PlanView::Call {
                tool: tool@,
                args: args@,
                store: *store,
            },
            Plan::Wait { seconds } => PlanView::Wait { seconds: opt_number(*seconds) },
            Plan::WaitRandom { min, max } => PlanView::WaitRandom {
                min: opt_number(*min),
                max: opt_number(*max),
            },
            Plan::Assign { name, value } => PlanView::Assign { name: name@, value: value@ },
            Plan::Note { message } => PlanView::Note { message: message@ },
            Plan::PickRow => PlanView::PickRow,
            Plan::LoadDataset => PlanView::LoadDataset,
            Plan::Ai => PlanView::Ai,
            Plan::Nothing => PlanView::Nothing,
            Plan::Fail { message } => PlanView::Fail { message: message@ },
        }
    }
}

// ---------------------------------------------------------------------------
// Settings
// ---------------------------------------------------------------------------

/// The text of a setting; empty where there is none.
pub open spec fn text_of_field(p: JsonView, k: Seq<char>) -> Seq<char> {
    text_or(p, k, ""@)
}

pub open spec fn text_or(p: JsonView, k: Seq<char>, other: Seq<char>) -> Seq<char> {
    match p.field_str(k) {
        Some(t) => t,
        None => other,
    }
}

pub open spec fn int_or(p: JsonView, k: Seq<char>, other: i64) -> i64 {
    match p.field_int(k) {
        Some(n) => n,
        None => other,
    }
}

pub open spec fn uint_or(p: JsonView, k: Seq<char>, other: u64) -> u64 {
    match p.field_uint(k) {
        Some(n) => n,
        None => other,
    }
}

pub open spec fn number_field(p: JsonView, k: Seq<char>) -> Option<NumberView> {
    match p.field(k) {
        Some(JsonView::Number(n)) => Some(n),
        _ => None,
    }
}

/// The parts of a text between separators, without the white space around
/// them and without the empty ones.
pub open spec fn listed(s: Seq<char>, seps: Seq<char>) -> Seq<Seq<char>> {
    split(s, seps).map_values(|x: Seq<char>| trim(x)).filter(|x: Seq<char>| x.len() > 0)
}

/// A setting that is a list: an array as it stands, or a text with its items
/// between separators.
pub open spec fn list_field(p: JsonView, k: Seq<char>, seps: Seq<char>) -> JsonView {
    match p.field(k) {
        Some(JsonView::Array(a)) => JsonView::Array(a),
        Some(JsonView::Str(s)) => JsonView::Array(
            listed(s, seps).map_values(|t: Seq<char>| JsonView::Str(t)),
        ),
        _ => JsonView::Array(Seq::empty()),
    }
}

pub fn i64_or(p: &Json, k: &str, other: i64) -> (r: i64)
    ensures
        r == int_or(p@, k@, other),
{
    match p.get_i64(k) {
        Some(n) => n,
        None => other,
    }
}

pub fn u64_or(p: &Json, k: &str, other: u64) -> (r: u64)
    ensures
        r == uint_or(p@, k@, other),
{
    match p.get_u64(k) {
        Some(n) => n,
        None => other,
    }
}

fn get_number(p: &Json, k: &str) -> (r: Option<Number>)
    ensures
        opt_number(r) == number_field(p@, k@),
{
    match p.get(k) {
        Some(Json::Number(n)) => Some(n.copy()),
        _ => None,
    }
}

fn list_items(s: &str, seps: &[char]) -> (r: Vec<String>)
    ensures
        texts(r@) == listed(s@, seps@),
{
    let parts = split_on(s, seps);
    let ghost keep = |x: Seq<char>| x.len() > 0;
    let ghost cut = texts(parts@).map_values(|x: Seq<char>| trim(x));
    let mut out: Vec<String> = Vec::new();
    let mut i: usize = 0;
    proof {
        reveal(Seq::filter);
        assert(cut.take(0).filter(keep) =~= texts(out@));
    }
    while i < parts.len()
        invariant
            i <= parts@.len(),
            keep == (|x: Seq<char>| x.len() > 0),
            cut == texts(parts@).map_values(|x: Seq<char>| trim(x)),
            texts(out@) == cut.take(i as int).filter(keep),
        decreases parts@.len() - i,
    {
        let t = trimmed(parts[i].as_str());
        proof {
            lemma_filter_push(cut.take(i as int), cut[i as int], keep);
            assert(cut.take(i as int + 1) =~= cut.take(i as int).push(cut[i as int]));
        }
        if !t.as_str().is_empty() {
            proof {
                lemma_texts_push(out@, t);
            }
            out.push(t);
        }
        i = i + 1;
    }
    assert(cut.take(cut.len() as int) =~= cut);
    out
}

fn get_list(p: &Json, k: &str, seps: &[char]) -> (r: Json)
    ensures
        r@ == list_field(p@, k@, seps@),
{
    match p.get(k) {
        Some(Json::Array(a)) => Json::Array(crate::json::copy_values(a)),
        Some(Json::Str(s)) => {
            let items = list_items(s.as_str(), seps);
            Json::text_array(&items)
        },
        _ => {
            let none: Vec<Json> = Vec::new();
            assert(values(none@) =~= Seq::<JsonView>::empty());
            Json::Array(none)
        },
    }
}

// ---------------------------------------------------------------------------
// Leaf blocks
// ---------------------------------------------------------------------------

pub open spec fn call(tool: Seq<char>, args: JsonView, store: bool) -> PlanView {
    PlanView::Call { tool, args, store }
}

pub open spec fn str_arg(k: Seq<char>, v: Seq<char>) -> JsonView {
    JsonView::empty().with(k, JsonView::Str(v))
}

pub open spec fn int_arg(k: Seq<char>, v: i64) -> JsonView {
    JsonView::empty().with(k, JsonView::from_int(v))
}

/// `-n`, wrapping at the least number.
pub open spec fn negated(n: i64) -> i64 {
    if n == i64::MIN {
        n
    } else {
        (-n) as i64
    }
}

/// A script that scrolls smoothly, quick in the middle and slow at the ends.
pub open spec fn scroll_script(duration: u64, distance: i64) -> Seq<char> {
    "(async()=>{const D="@ + dec(duration as nat) + ",dist="@ + dec_int(distance as int)
        + ",s=window.scrollY,t=performance.now();while(true){const e=performance.now()-t,p=Math.min(e/D,1),k=p<0.5?4*p*p*p:1-Math.pow(-2*p+2,3)/2;window.scrollTo(0,s+dist*k);if(p>=1)break;await new Promise(r=>setTimeout(r,16));}return scrollY;})()"@
}

/// A script as an expression that yields its value: code with a `return` as
/// the body of a function, anything else as its result.
pub open spec fn wrapped_script(code: Seq<char>) -> Seq<char> {
    if trim(code).len() == 0 {
        Seq::empty()
    } else if contains(code, "return"@) {
        "(() => { "@ + code + " })()"@
    } else {
        "(() => ("@ + code + "))()"@
    }
}

pub open spec fn history_args(steps: i64) -> JsonView {
    JsonView::empty().with(
        "expression"@,
        JsonView::Str("history.go("@ + dec_int(steps as int) + ")"@),
    ).with("wait_for_load"@, JsonView::Bool(true))
}

/// What a leaf block of the given kind does with its settings.
pub open spec fn plan_of(kind: Seq<char>, p: JsonView) -> PlanView {
    if kind == "open_url"@ {
        call("navigate"@, str_arg("url"@, text_of_field(p, "url"@)), false)
    } else if kind == "get_page_text"@ {
        call("get_page_content"@, str_arg("format"@, "text"@), true)
    } else if kind == "get_url"@ {
        call("get_page_info"@, JsonView::empty(), true)
    } else if kind == "screenshot"@ {
        call("screenshot"@, JsonView::empty(), false)
    } else if kind == "click_by_index"@ {
        call("click_by_index"@, int_arg("index"@, int_or(p, "index"@, 0)), false)
    } else if kind == "click"@ {
        call("click_element"@, str_arg("selector"@, text_of_field(p, "selector"@)), false)
    } else if kind == "type_text"@ || kind == "post"@ || kind == "reply"@ || kind == "submit"@ {
        call(
            "type_text"@,
            str_arg("selector"@, text_of_field(p, "selector"@)).with(
                "text"@,
                JsonView::Str(text_of_field(p, "text"@)),
            ),
            false,
        )
    } else if kind == "press_key"@ {
        call(
            "press_key"@,
            str_arg("key"@, text_or(p, "key"@, "Enter"@)).with(
                "modifiers"@,
                list_field(p, "modifiers"@, seq![',']),
            ),
            false,
        )
    } else if kind == "upload_file"@ {
        call(
            "upload_file"@,
            str_arg("selector"@, text_of_field(p, "selector"@)).with(
                "files"@,
                list_field(p, "files"@, seq!['\n', ',']),
            ),
            false,
        )
    } else if kind == "new_tab"@ {
        call("new_tab"@, str_arg("url"@, text_of_field(p, "url"@)), false)
    } else if kind == "switch_tab"@ {
        call("switch_tab"@, int_arg("index"@, int_or(p, "index"@, 0)), false)
    } else if kind == "close_tab"@ {
        call("close_tab"@, int_arg("index"@, int_or(p, "index"@, 0)), false)
    } else if kind == "list_tabs"@ {
        call("list_tabs"@, JsonView::empty(), true)
    } else if kind == "wait"@ {
        PlanView::Wait { seconds: number_field(p, "seconds"@) }
    } else if kind == "set_variable"@ {
        match p.field_str("name"@) {
            Some(name) => PlanView::Assign {
                name,
                value: match p.field("value"@) {
                    Some(v) => v,
                    None => JsonView::Null,
                },
            },
            None => PlanView::Nothing,
        }
    } else if kind == "log"@ {
        PlanView::Note { message: "[log] "@ + text_of_field(p, "message"@) }
    } else if kind == "go_back"@ {
        call("evaluate_javascript"@, history_args(negated(int_or(p, "steps"@, 1))), false)
    } else if kind == "go_forward"@ {
        call("evaluate_javascript"@, history_args(int_or(p, "steps"@, 1)), false)
    } else if kind == "refresh"@ {
        call(
            "evaluate_javascript"@,
            str_arg("expression"@, "location.reload()"@).with(
                "wait_for_load"@,
                JsonView::Bool(true),
            ),
            false,
        )
    } else if kind == "scroll"@ {
        call(
            "evaluate_javascript"@,
            str_arg(
                "expression"@,
                scroll_script(uint_or(p, "duration_ms"@, 900), int_or(p, "distance_px"@, 800)),
            ).with("await_promise"@, JsonView::Bool(true)),
            false,
        )
    } else if kind == "find_elements"@ {
        call("get_interactive_elements"@, JsonView::empty(), true)
    } else if kind == "get_page_html"@ {
        call("get_page_content"@, str_arg("format"@, "html"@), true)
    } else if kind == "run_js"@ {
        call(
            "evaluate_javascript"@,
            str_arg("expression"@, wrapped_script(text_of_field(p, "expression"@))),
            true,
        )
    } else if kind == "wait_random"@ {
        PlanView::WaitRandom { min: number_field(p, "min_s"@), max: number_field(p, "max_s"@) }
    } else if kind == "pick_row"@ {
        PlanView::PickRow
    } else if kind == "load_dataset"@ {
        PlanView::LoadDataset
    } else if kind == "ai_check"@ || kind == "ai_write"@ || kind == "ai_decide"@ || kind
        == "ai_extract"@ || kind == "ai_summarize"@ || kind == "ai_find_element"@ {
        PlanView::Ai
    } else if kind == "set_profile_tag"@ {
        if text_of_field(p, "tag"@).len() == 0 {
            PlanView::Nothing
        } else {
            call("add_profile_tag"@, str_arg("tag"@, text_of_field(p, "tag"@)), false)
        }
    } else {
        PlanView::Fail { message: "Unknown block type: "@ + kind }
    }
}

fn call_plan(tool: &str, args: Json, store: bool) -> (r: Plan)
    ensures
        r@ == call(tool@, args@, store),
{
    Plan::Call { tool: tool.to_owned(), args, store }
}

fn text_arg(k: &str, v: &str) -> (r: Json)
    ensures
        r@ == str_arg(k@, v@),
{
    Json::empty().with(k, Json::text(v))
}

fn index_arg(p: &Json) -> (r: Json)
    ensures
        r@ == int_arg("index"@, int_or(p@, "index"@, 0)),
{
    Json::empty().with("index", Json::from_int(i64_or(p, "index", 0)))
}

fn history_json(steps: i64) -> (r: Json)
    ensures
        r@ == history_args(steps),
{
    let code = join3("history.go(", dec_i64(steps).as_str(), ")");
    Json::empty().with("expression", Json::Str(code)).with("wait_for_load", Json::Bool(true))
}

fn scroll_text(duration: u64, distance: i64) -> (r: String)
    ensures
        r@ == scroll_script(duration, distance),
{
    let mut out = join3("(async()=>{const D=", dec_u64(duration).as_str(), ",dist=");
    out.append(dec_i64(distance).as_str());
    out.append(
        ",s=window.scrollY,t=performance.now();while(true){const e=performance.now()-t,p=Math.min(e/D,1),k=p<0.5?4*p*p*p:1-Math.pow(-2*p+2,3)/2;window.scrollTo(0,s+dist*k);if(p>=1)break;await new Promise(r=>setTimeout(r,16));}return scrollY;})()",
    );
    out
}

/// A script as an expression that yields its value.
pub fn wrap_script(code: &str) -> (r: String)
    ensures
        r@ == wrapped_script(code@),
{
    if trimmed(code).as_str().is_empty() {
        let r = String::new();
        assert(r@ =~= Seq::<char>::empty());
        r
    } else if has_part(code, "return") {
        join3("(() => { ", code, " })()")
    } else {
        join3("(() => (", code, "))()")
    }
}

/// What a leaf block of the given kind does with its settings.
pub fn leaf_plan(kind: &str, p: &Json) -> (r: Plan)
    ensures
        r@ == plan_of(kind@, p@),
{
    if same(kind, "open_url") {
        return call_plan("navigate", text_arg("url", p.str_or("url", "").as_str()), false);
    }
    if same(kind, "get_page_text") {
        return call_plan("get_page_content", text_arg("format", "text"), true);
    }
    if same(kind, "get_url") {
        return call_plan("get_page_info", Json::empty(), true);
    }
    if same(kind, "screenshot") {
        return call_plan("screenshot", Json::empty(), false);
    }
    if same(kind, "click_by_index") {
        return call_plan("click_by_index", index_arg(p), false);
    }
    if same(kind, "click") {
        return call_plan(
            "click_element",
            text_arg("selector", p.str_or("selector", "").as_str()),
            false,
        );
    }
    if same(kind, "type_text") || same(kind, "post") || same(kind, "reply") || same(
        kind,
        "submit",
    ) {
        let args = text_arg("selector", p.str_or("selector", "").as_str()).with(
            "text",
            Json::Str(p.str_or("text", "")),
        );
        return call_plan("type_text", args, false);
    }
    if same(kind, "press_key") {
        let comma: [char; 1] = [','];
        assert(comma@ =~= seq![',']);
        let args = text_arg("key", p.str_or("key", "Enter").as_str()).with(
            "modifiers",
            get_list(p, "modifiers", &comma),
        );
        return call_plan("press_key", args, false);
    }
    if same(kind, "upload_file") {
        let seps: [char; 2] = ['\n', ','];
        assert(seps@ =~= seq!['\n', ',']);
        let args = text_arg("selector", p.str_or("selector", "").as_str()).with(
            "files",
            get_list(p, "files", &seps),
        );
        return call_plan("upload_file", args, false);
    }
    if same(kind, "new_tab") {
        return call_plan("new_tab", text_arg("url", p.str_or("url", "").as_str()), false);
    }
    if same(kind, "switch_tab") {
        return call_plan("switch_tab", index_arg(p), false);
    }
    if same(kind, "close_tab") {
        return call_plan("close_tab", index_arg(p), false);
    }
    if same(kind, "list_tabs") {
        return call_plan("list_tabs", Json::empty(), true);
    }
    leaf_plan_more(kind, p)
}

fn leaf_plan_more(kind: &str, p: &Json) -> (r: Plan)
    requires
        kind@ != "open_url"@,
        kind@ != "get_page_text"@,
        kind@ != "get_url"@,
        kind@ != "screenshot"@,
        kind@ != "click_by_index"@,
        kind@ != "click"@,
        kind@ != "type_text"@,
        kind@ != "post"@,
        kind@ != "reply"@,
        kind@ != "submit"@,
        kind@ != "press_key"@,
        kind@ != "upload_file"@,
        kind@ != "new_tab"@,
        kind@ != "switch_tab"@,
        kind@ != "close_tab"@,
        kind@ != "list_tabs"@,
    ensures
        r@ == plan_of(kind@, p@),
{
    if same(kind, "wait") {
        return Plan::Wait { seconds: get_number(p, "seconds") };
    }
    if same(kind, "set_variable") {
        return match p.get_str("name") {
            Some(name) => Plan::Assign {
                name: name.clone(),
                value: match p.get("value") {
                    Some(v) => v.copy(),
                    None => Json::Null,
                },
            },
            None => Plan::Nothing,
        };
    }
    if same(kind, "log") {
        return Plan::Note { message: join2("[log] ", p.str_or("message", "").as_str()) };
    }
    if same(kind, "go_back") {
        let n: i64 = i64_or(p, "steps", 1);
        let back: i64 = if n == i64::MIN {
            n
        } else {
            -n
        };
        return call_plan("evaluate_javascript", history_json(back), false);
    }
    if same(kind, "go_forward") {
        return call_plan("evaluate_javascript", history_json(i64_or(p, "steps", 1)), false);
    }
    if same(kind, "refresh") {
        let args = text_arg("expression", "location.reload()").with(
            "wait_for_load",
            Json::Bool(true),
        );
        return call_plan("evaluate_javascript", args, false);
    }
    if same(kind, "scroll") {
        let distance: i64 = i64_or(p, "distance_px", 800);
        let duration: u64 = u64_or(p, "duration_ms", 900);
        let args = text_arg("expression", scroll_text(duration, distance).as_str()).with(
            "await_promise",
            Json::Bool(true),
        );
        return call_plan("evaluate_javascript", args, false);
    }
    if same(kind, "find_elements") {
        return call_plan("get_interactive_elements", Json::empty(), true);
    }
    if same(kind, "get_page_html") {
        return call_plan("get_page_content", text_arg("format", "html"), true);
    }
    if same(kind, "run_js") {
        let code = wrap_script(p.str_or("expression", "").as_str());
        return call_plan("evaluate_javascript", text_arg("expression", code.as_str()), true);
    }
    if same(kind, "wait_random") {
        return Plan::WaitRandom { min: get_number(p, "min_s"), max: get_number(p, "max_s") };
    }
    if same(kind, "pick_row") {
        return Plan::PickRow;
    }
    if same(kind, "load_dataset") {
        return Plan::LoadDataset;
    }
    if same(kind, "ai_check") || same(kind, "ai_write") || same(kind, "ai_decide") || same(
        kind,
        "ai_extract",
    ) || same(kind, "ai_summarize") || same(kind, "ai_find_element") {
        return Plan::Ai;
    }
    if same(kind, "set_profile_tag") {
        let tag = p.str_or("tag", "");
        if tag.as_str().is_empty() {
            return Plan::Nothing;
        }
        return call_plan("add_profile_tag", text_arg("tag", tag.as_str()), false);
    }
    Plan::Fail { message: join2("Unknown block type: ", kind) }
}

// ---------------------------------------------------------------------------
// Rows
// ---------------------------------------------------------------------------

pub open spec fn i64_value(s: Seq<char>) -> Option<int> {
    match signed_value(s) {
        Some(n) => if i64::MIN <= n <= i64::MAX {
            Some(n)
        } else {
            None
        },
        None => None,
    }
}

/// The row that the settings name among `len`: the one at `index`, counted
/// around from either end; a random one where `mode` says so; else the first.
pub open spec fn row_index(p: JsonView, len: int, draw: u64) -> int {
    match p.field_int("index"@) {
        Some(i) => i as int % len,
        None => match p.field_str("index"@) {
            Some(s) => match i64_value(trim(s)) {
                Some(i) => i % len,
                None => 0,
            },
            None => if p.field_str("mode"@) == Some("random"@) {
                draw as int % len
            } else {
                0
            },
        },
    }
}

/// `i` counted around among `len` places.
pub fn wrap_index(i: i64, len: usize) -> (r: usize)
    requires
        len > 0,
    ensures
        r == i as int % len as int,
        r < len,
{
    let n: u64 = len as u64;
    if i >= 0 {
        (i as u64 % n) as usize
    } else {
        let k: u64 = (-(i + 1)) as u64;
        let m: u64 = k % n;
        let r: u64 = n - 1 - m;
        proof {
            let q = k as int / n as int;
            assert(k as int == q * n as int + m as int) by {
                vstd::arithmetic::div_mod::lemma_fundamental_div_mod(k as int, n as int);
                assert(q * n as int == n as int * q) by (nonlinear_arith);
            }
            assert(i as int == (-(q + 1)) * n as int + r as int) by (nonlinear_arith)
                requires
                    k as int == q * n as int + m as int,
                    i as int == -(k as int) - 1,
                    r as int == n as int - 1 - m as int,
            ;
            vstd::arithmetic::div_mod::lemma_fundamental_div_mod_converse(
                i as int,
                n as int,
                -(q + 1),
                r as int,
            );
        }
        r as usize
    }
}

/// The row that the settings name among `len`.
pub fn choose_row(p: &Json, len: usize, draw: u64) -> (r: usize)
    requires
        len > 0,
    ensures
        r == row_index(p@, len as int, draw),
        r < len,
{
    match p.get_i64("index") {
        Some(i) => wrap_index(i, len),
        None => match p.get_str("index") {
            Some(s) => match parse_i64(trimmed(s.as_str()).as_str()) {
                Some(i) => wrap_index(i, len),
                None => 0,
            },
            None => {
                let random: bool = match p.get_str("mode") {
                    Some(m) => same(m.as_str(), "random"),
                    None => false,
                };
                if random {
                    crate::chance::pick(draw, len)
                } else {
                    0
                }
            },
        },
    }
}

// ---------------------------------------------------------------------------
// Conditions
// ---------------------------------------------------------------------------

/// How two numbers compare. A number that is none compares with nothing.
#[derive(Debug, Clone, Copy, PartialEq, Eq, Structural)]
pub enum NumOrder {
    Less,
    Equal,
    Greater,
    Unordered,
}

/// An operator and its operands.
pub struct Condition {
    pub op: String,
    pub actual: Json,
    pub rhs: Json,
}

pub struct ConditionView {
    pub op: Seq<char>,
    pub actual: JsonView,
    pub rhs: JsonView,
}

impl Condition {
    pub open spec fn view(&self) -> ConditionView {
        ConditionView { op: self.op@, actual: self.actual@, rhs: self.rhs@ }
    }
}

pub open spec fn opt_condition(o: Option<Condition>) -> Option<ConditionView> {
    match o {
        Some(c) => Some(c@),
        None => None,
    }
}

/// The condition that the settings state: `op` with `value`, or one of the
/// keys `equals`, `less_than` and `greater_than` with its operand. The other
/// operand is the variable named; null where there is none.
pub open spec fn condition_of(
    p: JsonView,
    vars: Seq<(Seq<char>, JsonView)>,
) -> Option<ConditionView> {
    let actual = match p.field_str("variable"@) {
        Some(name) => match lookup(vars, name) {
            Some(v) => v,
            None => JsonView::Null,
        },
        None => JsonView::Null,
    };
    if let Some(op) = p.field_str("op"@) {
        let rhs = match p.field("value"@) {
            Some(v) => v,
            None => JsonView::Null,
        };
        Some(ConditionView { op, actual, rhs })
    } else if let Some(rhs) = p.field("equals"@) {
        Some(ConditionView { op: "equals"@, actual, rhs })
    } else if let Some(rhs) = p.field("less_than"@) {
        Some(ConditionView { op: "less_than"@, actual, rhs })
    } else if let Some(rhs) = p.field("greater_than"@) {
        Some(ConditionView { op: "greater_than"@, actual, rhs })
    } else {
        None
    }
}

/// The condition that the settings state.
pub fn read_condition(p: &Json, vars: &crate::map::TextMap<Json>) -> (r: Option<Condition>)
    ensures
        opt_condition(r) == condition_of(p@, crate::value::entries(vars@)),
{
    let actual = match p.get_str("variable") {
        Some(name) => {
            proof {
                crate::map::lemma_values_by(vars@, crate::value::deep(), name@, Json::Null);
            }
            match vars.get(name.as_str()) {
                Some(v) => v.copy(),
                None => Json::Null,
            }
        },
        None => Json::Null,
    };
    match p.get_str("op") {
        Some(op) => {
            let rhs = match p.get("value") {
                Some(v) => v.copy(),
                None => Json::Null,
            };
            return Some(Condition { op: op.clone(), actual, rhs });
        },
        None => {},
    }
    match p.get("equals") {
        Some(v) => {
            return Some(Condition { op: "equals".to_owned(), actual, rhs: v.copy() });
        },
        None => {},
    }
    match p.get("less_than") {
        Some(v) => {
            return Some(Condition { op: "less_than".to_owned(), actual, rhs: v.copy() });
        },
        None => {},
    }
    match p.get("greater_than") {
        Some(v) => {
            return Some(Condition { op: "greater_than".to_owned(), actual, rhs: v.copy() });
        },
        None => {},
    }
    None
}

/// The notation to read a value as a number by; empty where it can be none.
pub open spec fn numeral(v: JsonView) -> Seq<char> {
    match v {
        JsonView::Number(n) => crate::json::number_text(n),
        JsonView::Str(s) => trim(s),
        JsonView::Bool(b) => if b {
            "1"@
        } else {
            "0"@
        },
        _ => Seq::empty(),
    }
}

fn numeral_text(v: &Json) -> (r: String)
    ensures
        r@ == numeral(v@),
{
    match v {
        Json::Number(n) => n.to_text(),
        Json::Str(s) => trimmed(s.as_str()),
        Json::Bool(b) => if *b {
            "1".to_owned()
        } else {
            "0".to_owned()
        },
        _ => {
            let r = String::new();
            assert(r@ =~= Seq::<char>::empty());
            r
        },
    }
}

/// The operators that compare the two operands with each other.
pub open spec fn compares(op: Seq<char>) -> bool {
    op == "equals"@ || op == "not_equals"@ || op == "less_than"@ || op == "greater_than"@
}

/// The pairs of numbers whose order decides the condition.
pub open spec fn compared(c: ConditionView) -> Seq<(Seq<char>, Seq<char>)> {
    if compares(c.op) {
        seq![(numeral(c.actual), numeral(c.rhs))]
    } else if c.op == "contains"@ {
        match c.actual {
            JsonView::Array(items) => items.map_values(
                |x: JsonView| (numeral(x), numeral(c.rhs)),
            ),
            _ => Seq::empty(),
        }
    } else {
        Seq::empty()
    }
}

pub open spec fn text_pairs(v: Seq<(String, String)>) -> Seq<(Seq<char>, Seq<char>)> {
    v.map_values(|p: (String, String)| (p.0@, p.1@))
}

/// The pairs of numbers whose order decides the condition.
pub fn pairs_to_compare(c: &Condition) -> (r: Vec<(String, String)>)
    ensures
        text_pairs(r@) == compared(c@),
{
    let mut out: Vec<(String, String)> = Vec::new();
    let op = c.op.as_str();
    if same(op, "equals") || same(op, "not_equals") || same(op, "less_than") || same(
        op,
        "greater_than",
    ) {
        out.push((numeral_text(&c.actual), numeral_text(&c.rhs)));
        assert(text_pairs(out@) =~= compared(c@));
        return out;
    }
    if same(op, "contains") {
        match &c.actual {
            Json::Array(items) => {
                let mut i: usize = 0;
                while i < items.len()
                    invariant
                        i <= items@.len(),
                        out@.len() == i,
                        forall|j: int|
                            0 <= j < i ==> text_pairs(out@)[j] == (
                                numeral(values(items@)[j]),
                                numeral(c.rhs@),
                            ),
                    decreases items@.len() - i,
                {
                    let ghost before = text_pairs(out@);
                    let e = (numeral_text(&items[i]), numeral_text(&c.rhs));
                    out.push(e);
                    assert(text_pairs(out@) =~= before.push((e.0@, e.1@)));
                    i = i + 1;
                }
                assert(text_pairs(out@) =~= compared(c@));
                return out;
            },
            _ => {},
        }
    }
    assert(text_pairs(out@) =~= compared(c@));
    out
}

/// The outcome at place `i`; none where there is none.
pub open spec fn outcome(o: Seq<Option<NumOrder>>, i: int) -> Option<NumOrder> {
    if 0 <= i < o.len() {
        o[i]
    } else {
        None
    }
}

/// Whether two values are equal: as numbers where both are, else as texts.
pub open spec fn equal_values(a: JsonView, b: JsonView, o: Option<NumOrder>) -> bool {
    match o {
        Some(x) => x == NumOrder::Equal,
        None => plain(a) == plain(b),
    }
}

/// Whether a condition holds, given how the numbers in it compare.
pub open spec fn holds(c: ConditionView, o: Seq<Option<NumOrder>>) -> bool {
    if c.op == "equals"@ {
        equal_values(c.actual, c.rhs, outcome(o, 0))
    } else if c.op == "not_equals"@ {
        !equal_values(c.actual, c.rhs, outcome(o, 0))
    } else if c.op == "less_than"@ {
        outcome(o, 0) == Some(NumOrder::Less)
    } else if c.op == "greater_than"@ {
        outcome(o, 0) == Some(NumOrder::Greater)
    } else if c.op == "contains"@ {
        match c.actual {
            JsonView::Array(items) => exists|i: int|
                0 <= i < items.len() && equal_values(#[trigger] items[i], c.rhs, outcome(o, i)),
            _ => contains(plain(c.actual), plain(c.rhs)),
        }
    } else {
        false
    }
}

fn get_outcome(o: &Vec<Option<NumOrder>>, i: usize) -> (r: Option<NumOrder>)
    ensures
        r == outcome(o@, i as int),
{
    if i < o.len() {
        o[i]
    } else {
        None
    }
}

/// Whether two values are equal, given how they compare as numbers.
pub fn values_equal(a: &Json, b: &Json, o: Option<NumOrder>) -> (r: bool)
    ensures
        r == equal_values(a@, b@, o),
{
    match o {
        Some(x) => x == NumOrder::Equal,
        None => same(value_to_string(a).as_str(), value_to_string(b).as_str()),
    }
}

/// Whether a condition holds, given how the numbers in it compare.
pub fn eval_condition(c: &Condition, o: &Vec<Option<NumOrder>>) -> (r: bool)
    ensures
        r == holds(c@, o@),
{
    let op = c.op.as_str();
    if same(op, "equals") {
        return values_equal(&c.actual, &c.rhs, get_outcome(o, 0));
    }
    if same(op, "not_equals") {
        return !values_equal(&c.actual, &c.rhs, get_outcome(o, 0));
    }
    if same(op, "less_than") {
        return match get_outcome(o, 0) {
            Some(NumOrder::Less) => true,
            _ => false,
        };
    }
    if same(op, "greater_than") {
        return match get_outcome(o, 0) {
            Some(NumOrder::Greater) => true,
            _ => false,
        };
    }
    if same(op, "contains") {
        match &c.actual {
            Json::Array(items) => {
                let ghost all = values(items@);
                let mut i: usize = 0;
                while i < items.len()
                    invariant
                        i <= items@.len(),
                        all == values(items@),
                        forall|j: int|
                            0 <= j < i ==> !equal_values(
                                #[trigger] all[j],
                                c.rhs@,
                                outcome(o@, j),
                            ),
                        c@.actual == JsonView::Array(all),
                        c@.op == "contains"@,
                        c@.op != "equals"@,
                        c@.op != "not_equals"@,
                        c@.op != "less_than"@,
                        c@.op != "greater_than"@,
                    decreases items@.len() - i,
                {
                    if values_equal(&items[i], &c.rhs, get_outcome(o, i)) {
                        proof {
                            let listed = c@.actual->Array_0;
                            assert(equal_values(listed[i as int], c@.rhs, outcome(o@, i as int)));
                        }
                        return true;
                    }
                    i = i + 1;
                }
                return false;
            },
            other => {
                return has_part(
                    value_to_string(other).as_str(),
                    value_to_string(&c.rhs).as_str(),
                );
            },
        }
    }
    false
}

/// The two operators that say whether values are equal never agree, and no
/// number is both less and greater.
pub proof fn lemma_condition_opposites(
    actual: JsonView,
    rhs: JsonView,
    o: Seq<Option<NumOrder>>,
)
    ensures
        holds(ConditionView { op: "equals"@, actual, rhs }, o) != holds(
            ConditionView { op: "not_equals"@, actual, rhs },
            o,
        ),
        !(holds(ConditionView { op: "less_than"@, actual, rhs }, o) && holds(
            ConditionView { op: "greater_than"@, actual, rhs },
            o,
        )),
{
    reveal_strlit("equals");
    reveal_strlit("not_equals");
    reveal_strlit("less_than");
    reveal_strlit("greater_than");
    assert("equals"@.len() == 6 && "not_equals"@.len() == 10);
    assert("less_than"@.len() == 9 && "greater_than"@.len() == 12);
}

// ---------------------------------------------------------------------------
// Replies
// ---------------------------------------------------------------------------

/// The text of a tool's reply: that of its first piece of content.
pub open spec fn reply_text(v: JsonView) -> Seq<char> {
    match v.field("content"@) {
        Some(c) => match c.item(0) {
            Some(first) => match first.field_str("text"@) {
                Some(t) => t,
                None => Seq::empty(),
            },
            None => Seq::empty(),
        },
        None => Seq::empty(),
    }
}

/// The text of a tool's reply.
pub fn text_of(v: &Json) -> (r: String)
    ensures
        r@ == reply_text(v@),
{
    let empty = String::new();
    assert(empty@ =~= Seq::<char>::empty());
    match v.get("content") {
        Some(c) => match c.item(0) {
            Some(first) => match first.get_str("text") {
                Some(t) => t.clone(),
                None => empty,
            },
            None => empty,
        },
        None => empty,
    }
}

} // verus!
