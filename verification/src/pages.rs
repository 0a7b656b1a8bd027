//! The tools that act on a page, step by step.
use vstd::prelude::*;

use crate::bidi::{no_tab, no_tab_error, text_in, text_of_field, BidiOp, OpView};
use crate::calls::{CallView, ToolCall};
use crate::cdp::{cdp_page_targets, pages};
use crate::json::{json_parsed, parse_json_text, parsed_view, pretty};
use crate::keys::{bidi_press, cdp_press, press_key_bidi, press_key_cdp};
use crate::map::{lookup, put, values_by, without};
use crate::plan::opt_number;
use crate::profiles::{find_profile, profile_named, profile_views, ProfileEntry, ProfileView};
use crate::protocol::{
    image_content, image_reply, refusal, refused, result_view, text_content, text_reply, ErrorView,
    McpError, McpServer,
};
use crate::scripts::{
    click, click_index, click_index_script, click_script, content, content_script, elements,
    elements_script, focus, focus_index, focus_index_script, focus_script, FINGERPRINT, PAGE_INFO,
};
use crate::text::{clip, clipped, copy_texts, count_chars, dec, dec_u64, join2, join3, same};
use crate::value::{
    lemma_array_view, lemma_object_view, lemma_values_push, values, Json, JsonView, Number,
    NumberView,
};

verus! {

broadcast use {lemma_array_view, lemma_object_view};

// ---------------------------------------------------------------------------
// Profiles
// ---------------------------------------------------------------------------

/// The profile with the id, where it runs and can be acted on.
pub open spec fn acting_profile(v: Seq<ProfileView>, id: Seq<char>) -> Result<
    ProfileView,
    ErrorView,
> {
    match profile_named(v, id) {
        None => Err(refused("Profile not found: "@ + id)),
        Some(p) => if p.browser != "camoufox"@ && p.browser != "cloak"@ {
            Err(refused("MCP only supports Camoufox and Cloak profiles"@))
        } else if !p.running {
            Err(refused("Profile '"@ + p.name + "' is not running"@))
        } else {
            Ok(p)
        },
    }
}

/// The profile with the id, where it runs and can be acted on.
pub fn get_running_profile<'a>(v: &'a Vec<ProfileEntry>, id: &str) -> (r: Result<
    &'a ProfileEntry,
    McpError,
>)
    ensures
        match r {
            Ok(p) => acting_profile(profile_views(v@), id@) == Ok::<_, ErrorView>(p@),
            Err(e) => acting_profile(profile_views(v@), id@) == Err::<ProfileView, _>(e@),
        },
{
    match find_profile(v, id) {
        None => Err(refusal(join2("Profile not found: ", id).as_str())),
        Some(p) => {
            if !same(p.browser.as_str(), "camoufox") && !same(p.browser.as_str(), "cloak") {
                return Err(refusal("MCP only supports Camoufox and Cloak profiles"));
            }
            if !p.running {
                let m = join3("Profile '", p.name.as_str(), "' is not running");
                return Err(refusal(m.as_str()));
            }
            Ok(p)
        },
    }
}

// ---------------------------------------------------------------------------
// What a script returned
// ---------------------------------------------------------------------------

/// The text of the first of two values that is there.
pub open spec fn first_text(a: Option<JsonView>, b: Option<JsonView>, other: Seq<char>) -> Seq<char> {
    let v = if a is Some {
        a
    } else {
        b
    };
    match v {
        Some(v) => match v.text() {
            Some(t) => t,
            None => other,
        },
        None => other,
    }
}

pub open spec fn description(ex: JsonView) -> Option<JsonView> {
    match ex.field("exception"@) {
        Some(e) => e.field("description"@),
        None => None,
    }
}

/// What a script threw, where it did.
pub open spec fn thrown(r: JsonView, other: Seq<char>) -> Option<Seq<char>> {
    match r.field("exceptionDetails"@) {
        Some(ex) => Some(first_text(description(ex), ex.field("text"@), other)),
        None => None,
    }
}

fn pick_text(a: Option<&Json>, b: Option<&Json>, other: &str) -> (r: String)
    ensures
        r@ == first_text(crate::json::opt_json(a), crate::json::opt_json(b), other@),
{
    let v = match a {
        Some(x) => Some(x),
        None => b,
    };
    match v {
        Some(v) => match v.as_str() {
            Some(t) => t.clone(),
            None => other.to_owned(),
        },
        None => other.to_owned(),
    }
}

fn description_of<'a>(ex: &'a Json) -> (r: Option<&'a Json>)
    ensures
        crate::json::opt_json(r) == description(ex@),
{
    match ex.get("exception") {
        Some(e) => e.get("description"),
        None => None,
    }
}

fn exception_text(r: &Json, other: &str) -> (s: Option<String>)
    ensures
        crate::text::opt_text(s) == thrown(r@, other@),
{
    match r.get("exceptionDetails") {
        Some(ex) => Some(pick_text(description_of(ex), ex.get("text"), other)),
        None => None,
    }
}

/// The value that a script returned.
pub open spec fn returned(r: JsonView) -> Option<JsonView> {
    match r.field("result"@) {
        Some(v) => v.field("value"@),
        None => None,
    }
}

/// The text that a script returned.
pub open spec fn returned_text(r: JsonView, other: Seq<char>) -> Seq<char> {
    match returned(r) {
        Some(v) => match v.text() {
            Some(t) => t,
            None => other,
        },
        None => other,
    }
}

fn text_returned(r: &Json, other: &str) -> (s: String)
    ensures
        s@ == returned_text(r@, other@),
{
    match r.get("result") {
        Some(v) => v.str_or("value", other),
        None => other.to_owned(),
    }
}

pub open spec fn or_null(o: Option<JsonView>) -> JsonView {
    match o {
        Some(v) => v,
        None => JsonView::Null,
    }
}

fn value_or_null(o: Option<&Json>) -> (r: Json)
    ensures
        r@ == or_null(crate::json::opt_json(o)),
{
    match o {
        Some(v) => v.copy(),
        None => Json::Null,
    }
}

/// What a script came to.
pub open spec fn evaluated(r: JsonView) -> JsonView {
    match r.field("exceptionDetails"@) {
        Some(ex) => JsonView::empty().with(
            "error"@,
            JsonView::Str(first_text(ex.field("text"@), description(ex), "Unknown error"@)),
        ),
        None => match r.field("result"@) {
            Some(v) => JsonView::empty().with("value"@, or_null(v.field("value"@))).with(
                "type"@,
                or_null(v.field("type"@)),
            ),
            None => JsonView::empty().with("value"@, JsonView::Null),
        },
    }
}

/// What a script came to.
pub fn evaluation(r: &Json) -> (v: Json)
    ensures
        v@ == evaluated(r@),
{
    match r.get("exceptionDetails") {
        Some(ex) => {
            let t = pick_text(ex.get("text"), description_of(ex), "Unknown error");
            Json::empty().with("error", Json::Str(t))
        },
        None => match r.get("result") {
            Some(v) => Json::empty().with("value", value_or_null(v.get("value"))).with(
                "type",
                value_or_null(v.get("type")),
            ),
            None => Json::empty().with("value", Json::Null),
        },
    }
}

// ---------------------------------------------------------------------------
// Texts of a page
// ---------------------------------------------------------------------------

/// The text of a page, cut off after so many characters.
pub open spec fn page_text(t: Seq<char>, max: u64) -> Seq<char> {
    if t.len() > max {
        clipped(t, max as int) + "\n\n[truncated: showing "@ + dec(max as nat) + " of "@ + dec(
            t.len(),
        )
            + " chars — call with a larger max_chars or use get_interactive_elements for an indexed view]"@
    } else {
        t
    }
}

/// The text of a page, cut off after so many characters.
pub fn cut_page(t: &str, max: u64) -> (r: String)
    ensures
        r@ == page_text(t@, max),
{
    let n: usize = count_chars(t);
    if n as u64 > max {
        let mut s = clip(t, max as usize);
        s.append("\n\n[truncated: showing ");
        s.append(dec_u64(max).as_str());
        s.append(" of ");
        s.append(dec_u64(n as u64).as_str());
        s.append(
            " chars — call with a larger max_chars or use get_interactive_elements for an indexed view]",
        );
        s
    } else {
        t.to_owned()
    }
}

/// The list of the elements that can be acted on, given what the script
/// returned.
pub open spec fn elements_text(parsed: Result<JsonView, Seq<char>>, max: u64) -> Seq<char> {
    let p = match parsed {
        Ok(v) => v,
        Err(_) => JsonView::empty(),
    };
    let n = dec(
        match p.field_uint("count"@) {
            Some(n) => n as nat,
            None => 0,
        },
    );
    let head = if p.field_bool("truncated"@) == Some(true) {
        n + " interactive elements (truncated at "@ + dec(max as nat)
            + " chars — re-call with a larger max_chars or scroll the page):"@
    } else {
        n + " interactive elements:"@
    };
    head + "\n"@ + text_in(p, "elements"@)
}

/// The list of the elements that can be acted on.
pub fn list_elements(parsed: Result<Json, String>, max: u64) -> (r: String)
    ensures
        r@ == elements_text(parsed_view(parsed), max),
{
    let p = match parsed {
        Ok(v) => v,
        Err(_) => Json::empty(),
    };
    let n: u64 = match p.get_u64("count") {
        Some(n) => n,
        None => 0,
    };
    let cut: bool = match p.get_bool("truncated") {
        Some(b) => b,
        None => false,
    };
    let mut s = dec_u64(n);
    if cut {
        s.append(" interactive elements (truncated at ");
        s.append(dec_u64(max).as_str());
        s.append(" chars — re-call with a larger max_chars or scroll the page):");
    } else {
        s.append(" interactive elements:");
    }
    s.append("\n");
    s.append(text_of_field(&p, "elements").as_str());
    s
}

/// What is told of a page, given what the script returned.
pub open spec fn info_text(parsed: Result<JsonView, Seq<char>>) -> Seq<char> {
    match parsed {
        Ok(v) => pretty(v),
        Err(_) => pretty(JsonView::empty()),
    }
}

/// What is told of a page.
pub fn page_info(parsed: Result<Json, String>) -> (r: String)
    ensures
        r@ == info_text(parsed_view(parsed)),
{
    match parsed {
        Ok(v) => v.pretty(),
        Err(_) => Json::empty().pretty(),
    }
}

/// A page as a tab.
pub open spec fn page_tab(i: int, t: JsonView) -> JsonView {
    JsonView::empty().with("index"@, JsonView::from_uint(i as u64)).with(
        "url"@,
        JsonView::Str(text_in(t, "url"@)),
    ).with("title"@, JsonView::Str(text_in(t, "title"@)))
}

/// The pages as tabs.
pub open spec fn page_tabs(v: Seq<JsonView>) -> Seq<JsonView> {
    Seq::new(v.len(), |i: int| page_tab(i, v[i]))
}

/// The pages as tabs.
pub fn list_pages(v: &Vec<Json>) -> (r: Vec<Json>)
    ensures
        values(r@) == page_tabs(values(v@)),
{
    let ghost all = values(v@);
    let ghost want = page_tabs(all);
    let mut out: Vec<Json> = Vec::new();
    let mut i: usize = 0;
    while i < v.len()
        invariant
            i <= v@.len(),
            all == values(v@),
            want == page_tabs(all),
            values(out@) =~= want.take(i as int),
        decreases v@.len() - i,
    {
        assert(all[i as int] == v@[i as int]@);
        let x = Json::empty().with("index", Json::from_uint(i as u64)).with(
            "url",
            Json::Str(text_of_field(&v[i], "url")),
        ).with("title", Json::Str(text_of_field(&v[i], "title")));
        proof {
            lemma_values_push(out@, x);
        }
        out.push(x);
        i = i + 1;
    }
    assert(want.take(want.len() as int) =~= want);
    out
}

// ---------------------------------------------------------------------------
// The active tab
// ---------------------------------------------------------------------------

/// What becomes of the active tab of a profile.
#[derive(Debug, PartialEq, Eq)]
pub enum ActiveTab {
    Keep,
    /// This tab is the active one from now on.
    Point { target: String },
    /// This tab is gone.
    Forget { target: String },
}

pub enum ActiveTabView {
    Keep,
    Point { target: Seq<char> },
    Forget { target: Seq<char> },
}

impl ActiveTab {
    pub open spec fn view(&self) -> ActiveTabView {
        match self {
            ActiveTab::Keep => ActiveTabView::Keep,
            ActiveTab::Point { target } => ActiveTabView::Point { target: target@ },
            ActiveTab::Forget { target } => ActiveTabView::Forget { target: target@ },
        }
    }
}

pub open spec fn as_text() -> spec_fn(String) -> Seq<char> {
    |s: String| s@
}

/// The active tabs, by the ids of the profiles.
pub open spec fn active_tabs(s: McpServer) -> Seq<(Seq<char>, Seq<char>)> {
    values_by(s.active_targets@, as_text())
}

/// The active tabs after a change.
pub open spec fn tabs_after(
    m: Seq<(Seq<char>, Seq<char>)>,
    profile: Seq<char>,
    change: ActiveTabView,
) -> Seq<(Seq<char>, Seq<char>)> {
    match change {
        ActiveTabView::Keep => m,
        ActiveTabView::Point { target } => put(m, profile, target),
        ActiveTabView::Forget { target } => if lookup(m, profile) == Some(target) {
            without(m, profile)
        } else {
            m
        },
    }
}

impl McpServer {
    /// The active tab of a profile.
    pub fn active_target(&self, profile: &str) -> (r: Option<String>)
        ensures
            crate::text::opt_text(r) == lookup(active_tabs(*self), profile@),
    {
        proof {
            crate::map::lemma_values_by(self.active_targets@, as_text(), profile@, arbitrary());
        }
        match self.active_targets.get(profile) {
            Some(t) => Some(t.clone()),
            None => None,
        }
    }

    /// Enters what has become of the active tab of a profile.
    pub fn move_active(&mut self, profile: &str, change: ActiveTab)
        ensures
            active_tabs(*final(self)) == tabs_after(active_tabs(*old(self)), profile@, change@),
            final(self).running == old(self).running,
            final(self).port == old(self).port,
            final(self).token == old(self).token,
            final(self).sessions == old(self).sessions,
            old(self).well_formed() ==> final(self).well_formed(),
    {
        match change {
            ActiveTab::Keep => {},
            ActiveTab::Point { target } => {
                proof {
                    crate::map::lemma_values_by(
                        self.active_targets@,
                        as_text(),
                        profile@,
                        target,
                    );
                }
                self.active_targets.insert(profile.to_owned(), target);
            },
            ActiveTab::Forget { target } => {
                proof {
                    crate::map::lemma_values_by(
                        self.active_targets@,
                        as_text(),
                        profile@,
                        target,
                    );
                }
                let active: bool = match self.active_targets.get(profile) {
                    Some(t) => same(t.as_str(), target.as_str()),
                    None => false,
                };
                if active {
                    let _ = self.active_targets.remove(profile);
                }
            },
        }
    }
}

/// The tab that was switched to is the active one, until it is closed; the
/// other profiles keep theirs.
pub proof fn lemma_active_tab(
    s: McpServer,
    profile: Seq<char>,
    target: Seq<char>,
    other: Seq<char>,
)
    requires
        s.well_formed(),
        other != profile,
    ensures
        ({
            let m = active_tabs(s);
            let pointed = tabs_after(m, profile, ActiveTabView::Point { target });
            let gone = tabs_after(pointed, profile, ActiveTabView::Forget { target });
            &&& lookup(pointed, profile) == Some(target)
            &&& lookup(gone, profile) is None
            &&& lookup(pointed, other) == lookup(m, other)
            &&& lookup(gone, other) == lookup(m, other)
        }),
{
    let m = active_tabs(s);
    let pointed = put(m, profile, target);
    crate::map::lemma_values_sorted(s.active_targets@, as_text());
    crate::map::lemma_lookup_put(m, profile, target, profile);
    crate::map::lemma_lookup_put(m, profile, target, other);
    crate::map::lemma_put_sorted(m, profile, target);
    crate::map::lemma_lookup_without(pointed, profile, profile);
    crate::map::lemma_lookup_without(pointed, profile, other);
}

// ---------------------------------------------------------------------------
// A tool at work
// ---------------------------------------------------------------------------

/// How far a tool has come.
pub enum PageStage {
    Start,
    /// The last command is out.
    Sent,
    /// The page is being measured.
    Measuring,
    /// The measures are being read.
    Scaling,
    /// The element is being focused.
    Focusing,
    /// The document is being asked for.
    Document,
    /// The file input is being looked for.
    Finding,
    /// The tabs are being listed to choose one.
    Choosing,
    /// The chosen tab is being brought to the front or closed.
    Acting { target: String },
    Done,
}

pub enum PageStageView {
    Start,
    Sent,
    Measuring,
    Scaling,
    Focusing,
    Document,
    Finding,
    Choosing,
    Acting { target: Seq<char> },
    Done,
}

impl PageStage {
    pub open spec fn view(&self) -> PageStageView {
        match self {
            PageStage::Start => PageStageView::Start,
            PageStage::Sent => PageStageView::Sent,
            PageStage::Measuring => PageStageView::Measuring,
            PageStage::Scaling => PageStageView::Scaling,
            PageStage::Focusing => PageStageView::Focusing,
            PageStage::Document => PageStageView::Document,
            PageStage::Finding => PageStageView::Finding,
            PageStage::Choosing => PageStageView::Choosing,
            PageStage::Acting { target } => PageStageView::Acting { target: target@ },
            PageStage::Done => PageStageView::Done,
        }
    }
}

/// What to do next.
pub enum PageAction {
    /// Send a command to the page; where seconds are given, wait for the page
    /// to load for so long at most.
    Send { method: String, params: Json, wait: Option<u64> },
    /// Send a command to the browser.
    Browser { method: String, params: Json },
    /// Ask the browser for its targets.
    Targets,
    /// Carry out an operation of the other protocol.
    Operate { op: BidiOp },
    /// Send the key events to the page, one after the other.
    Press { events: Vec<Json> },
    /// Type like a person.
    Type { text: String, wpm: Option<Number> },
    /// Write the numbers with a decimal point, as measures are.
    Scale { width: Option<Number>, height: Option<Number> },
    Finish { tab: ActiveTab, result: Result<Json, McpError> },
}

pub enum PageActionView {
    Send { method: Seq<char>, params: JsonView, wait: Option<u64> },
    Browser { method: Seq<char>, params: JsonView },
    Targets,
    Operate { op: OpView },
    Press { events: Seq<JsonView> },
    Type { text: Seq<char>, wpm: Option<NumberView> },
    Scale { width: Option<NumberView>, height: Option<NumberView> },
    Finish { tab: ActiveTabView, result: Result<JsonView, ErrorView> },
}

impl PageAction {
    pub open spec fn view(&self) -> PageActionView {
        match self {
            PageAction::Send { method, params, wait } => PageActionView::Send {
                method: method@,
                params: params@,
                wait: *wait,
            },
            PageAction::Browser { method, params } => PageActionView::Browser {
                method: method@,
                params: params@,
            },
            PageAction::Targets => PageActionView::Targets,
            PageAction::Operate { op } => PageActionView::Operate { op: op@ },
            PageAction::Press { events } => PageActionView::Press { events: values(events@) },
            PageAction::Type { text, wpm } => PageActionView::Type {
                text: text@,
                wpm: opt_number(*wpm),
            },
            PageAction::Scale { width, height } => PageActionView::Scale {
                width: opt_number(*width),
                height: opt_number(*height),
            },
            PageAction::Finish { tab, result } => PageActionView::Finish {
                tab: tab@,
                result: result_view(*result),
            },
        }
    }
}

/// What came back.
pub enum PageEvent {
    Start,
    /// The reply, or the targets as a list.
    Reply(Result<Json, McpError>),
    /// The measures as they are written.
    Scaled { width: Option<Number>, height: Option<Number> },
}

pub enum PageEventView {
    Start,
    Reply(Result<JsonView, ErrorView>),
    Scaled { width: Option<NumberView>, height: Option<NumberView> },
}

impl PageEvent {
    pub open spec fn view(&self) -> PageEventView {
        match self {
            PageEvent::Start => PageEventView::Start,
            PageEvent::Reply(r) => PageEventView::Reply(result_view(*r)),
            PageEvent::Scaled { width, height } => PageEventView::Scaled {
                width: opt_number(*width),
                height: opt_number(*height),
            },
        }
    }
}

/// A tool at work on a page. `bidi` says that the browser speaks the other
/// protocol.
pub struct PageRun {
    pub call: ToolCall,
    pub bidi: bool,
    pub stage: PageStage,
}

pub struct PageRunView {
    pub call: CallView,
    pub bidi: bool,
    pub stage: PageStageView,
}

impl PageRun {
    pub open spec fn view(&self) -> PageRunView {
        PageRunView { call: self.call@, bidi: self.bidi, stage: self.stage@ }
    }
}

pub open spec fn page_seen(r: (PageRun, PageAction)) -> (PageRunView, PageActionView) {
    (r.0@, r.1@)
}

pub open spec fn run_params(script: Seq<char>) -> JsonView {
    JsonView::empty().with("expression"@, JsonView::Str(script)).with(
        "returnByValue"@,
        JsonView::Bool(true),
    )
}

pub open spec fn shot_params(format: Seq<char>, quality: Option<i64>) -> JsonView {
    let p = JsonView::empty().with("format"@, JsonView::Str(format));
    match quality {
        Some(q) => p.with("quality"@, JsonView::from_int(q)),
        None => p,
    }
}

pub open spec fn measure_or(o: Option<NumberView>, other: Seq<char>) -> JsonView {
    JsonView::Number(
        match o {
            Some(n) => n,
            None => NumberView::Float(other),
        },
    )
}

pub open spec fn clipped_shot(
    format: Seq<char>,
    quality: Option<i64>,
    width: Option<NumberView>,
    height: Option<NumberView>,
) -> JsonView {
    shot_params(format, quality).with(
        "clip"@,
        JsonView::empty().with("x"@, JsonView::from_uint(0)).with("y"@, JsonView::from_uint(0)).with(
            "width"@,
            measure_or(width, "1920.0"@),
        ).with("height"@, measure_or(height, "1080.0"@)).with("scale"@, JsonView::from_uint(1)),
    ).with("captureBeyondViewport"@, JsonView::Bool(true))
}

pub open spec fn number_in(v: JsonView, k: Seq<char>) -> Option<NumberView> {
    match v.field(k) {
        Some(JsonView::Number(n)) => Some(n),
        _ => None,
    }
}

pub open spec fn one_text(k: Seq<char>, v: Seq<char>) -> JsonView {
    JsonView::empty().with(k, JsonView::Str(v))
}

pub open spec fn operation(s: PageRunView, op: OpView) -> (PageRunView, PageActionView) {
    (PageRunView { stage: PageStageView::Sent, ..s }, PageActionView::Operate { op })
}

impl PageRunView {
    pub open spec fn send(
        self,
        stage: PageStageView,
        method: Seq<char>,
        params: JsonView,
        wait: Option<u64>,
    ) -> (PageRunView, PageActionView) {
        (PageRunView { stage, ..self }, PageActionView::Send { method, params, wait })
    }

    pub open spec fn script(self, stage: PageStageView, script: Seq<char>, wait: Option<u64>) -> (
        PageRunView,
        PageActionView,
    ) {
        self.send(stage, "Runtime.evaluate"@, run_params(script), wait)
    }

    pub open spec fn end(self, tab: ActiveTabView, result: Result<JsonView, ErrorView>) -> (
        PageRunView,
        PageActionView,
    ) {
        (PageRunView { stage: PageStageView::Done, ..self }, PageActionView::Finish { tab, result })
    }

    pub open spec fn say(self, tab: ActiveTabView, t: Seq<char>) -> (PageRunView, PageActionView) {
        self.end(tab, Ok(text_content(t)))
    }

    pub open spec fn fail(self, e: ErrorView) -> (PageRunView, PageActionView) {
        self.end(ActiveTabView::Keep, Err(e))
    }

    /// The first thing to do.
    pub open spec fn begin(self) -> (PageRunView, PageActionView) {
        match self.call {
            CallView::Navigate { url, .. } => self.send(
                PageStageView::Sent,
                "Page.navigate"@,
                one_text("url"@, url),
                Some(30),
            ),
            CallView::Screenshot { format, quality, full_page, .. } => if full_page {
                self.send(
                    PageStageView::Measuring,
                    "Page.getLayoutMetrics"@,
                    JsonView::empty(),
                    None,
                )
            } else {
                self.send(
                    PageStageView::Sent,
                    "Page.captureScreenshot"@,
                    shot_params(format, quality),
                    None,
                )
            },
            CallView::Evaluate { expression, await_promise, wait_for_load, .. } => self.send(
                PageStageView::Sent,
                "Runtime.evaluate"@,
                run_params(expression).with("awaitPromise"@, JsonView::Bool(await_promise)),
                if wait_for_load {
                    Some(30)
                } else {
                    None
                },
            ),
            CallView::Click { selector, .. } => self.script(
                PageStageView::Sent,
                click(selector),
                Some(10),
            ),
            CallView::ClickIndex { index, .. } => self.script(
                PageStageView::Sent,
                click_index(index),
                Some(10),
            ),
            CallView::TypeText { selector, clear_first, .. } => self.script(
                PageStageView::Focusing,
                focus(selector, clear_first),
                None,
            ),
            CallView::TypeIndex { index, clear_first, .. } => self.script(
                PageStageView::Focusing,
                focus_index(index, clear_first),
                None,
            ),
            CallView::PageContent { format, selector, .. } => self.script(
                PageStageView::Sent,
                content(format, selector),
                None,
            ),
            CallView::Elements { max_chars, .. } => self.script(
                PageStageView::Sent,
                elements(max_chars),
                None,
            ),
            CallView::PressKey { key, modifiers, .. } => if self.bidi {
                match bidi_press(key, modifiers) {
                    Ok(actions) => operation(self, OpView::PerformKeys { actions }),
                    Err(e) => self.fail(e),
                }
            } else {
                match cdp_press(key, modifiers) {
                    Ok(events) => (
                        PageRunView { stage: PageStageView::Sent, ..self },
                        PageActionView::Press { events },
                    ),
                    Err(e) => self.fail(e),
                }
            },
            CallView::UploadFile { selector, files, .. } => if self.bidi {
                operation(self, OpView::SetFiles { selector, files })
            } else {
                self.send(
                    PageStageView::Document,
                    "DOM.getDocument"@,
                    JsonView::empty().with("depth"@, JsonView::from_uint(0)),
                    None,
                )
            },
            CallView::NewTab { url, .. } => if self.bidi {
                operation(self, OpView::NewTab { url })
            } else {
                (
                    PageRunView { stage: PageStageView::Sent, ..self },
                    PageActionView::Browser {
                        method: "Target.createTarget"@,
                        params: one_text("url"@, url),
                    },
                )
            },
            CallView::SwitchTab { index, .. } => if self.bidi {
                operation(self, OpView::SwitchTab { index })
            } else {
                (PageRunView { stage: PageStageView::Choosing, ..self }, PageActionView::Targets)
            },
            CallView::CloseTab { index, .. } => if self.bidi {
                operation(self, OpView::CloseTab { index })
            } else {
                (PageRunView { stage: PageStageView::Choosing, ..self }, PageActionView::Targets)
            },
            CallView::One { tool, .. } => if tool == "list_tabs"@ {
                if self.bidi {
                    operation(self, OpView::ListTabs)
                } else {
                    (PageRunView { stage: PageStageView::Sent, ..self }, PageActionView::Targets)
                }
            } else {
                self.script(PageStageView::Sent, PAGE_INFO@, None)
            },
            _ => self.end(ActiveTabView::Keep, Ok(JsonView::empty())),
        }
    }

    /// What the reply to the last command means.
    pub open spec fn concluded(self, r: JsonView) -> (PageRunView, PageActionView) {
        let keep = ActiveTabView::Keep;
        match self.call {
            CallView::Navigate { url, .. } => self.say(keep, "Navigated to "@ + url),
            CallView::Screenshot { format, .. } => self.end(
                keep,
                Ok(image_content(text_in(r, "data"@), "image/"@ + format)),
            ),
            CallView::Evaluate { .. } => self.say(keep, pretty(evaluated(r))),
            CallView::Click { selector, .. } => match thrown(r, "Click failed"@) {
                Some(t) => self.fail(refused(t)),
                None => self.say(keep, "Clicked element: "@ + selector),
            },
            CallView::ClickIndex { index, .. } => match thrown(r, "Click failed"@) {
                Some(t) => self.fail(refused(t)),
                None => self.say(keep, "Clicked element at index "@ + dec(index as nat)),
            },
            CallView::TypeText { selector, .. } => self.say(
                keep,
                "Typed text into element: "@ + selector,
            ),
            CallView::TypeIndex { index, .. } => self.say(
                keep,
                "Typed text into element at index "@ + dec(index as nat),
            ),
            CallView::PageContent { max_chars, .. } => self.say(
                keep,
                page_text(returned_text(r, ""@), max_chars),
            ),
            CallView::Elements { max_chars, .. } => match thrown(r, "Enumeration failed"@) {
                Some(t) => self.fail(refused(t)),
                None => self.say(
                    keep,
                    elements_text(json_parsed(returned_text(r, "{}"@)), max_chars),
                ),
            },
            CallView::PressKey { key, .. } => self.say(keep, "Pressed key: "@ + key),
            CallView::UploadFile { selector, files, .. } => self.say(
                keep,
                "Attached "@ + dec(files.len()) + " file(s) to "@ + selector,
            ),
            CallView::NewTab { url, .. } => {
                let tab = match r.field_str("targetId"@) {
                    Some(t) => if self.bidi {
                        keep
                    } else {
                        ActiveTabView::Point { target: t }
                    },
                    None => keep,
                };
                self.say(tab, "Opened new tab: "@ + url)
            },
            CallView::SwitchTab { index, .. } => self.say(
                match self.stage {
                    PageStageView::Acting { target } => ActiveTabView::Point { target },
                    _ => keep,
                },
                "Switched to tab "@ + dec(index as nat),
            ),
            CallView::CloseTab { index, .. } => self.say(
                match self.stage {
                    PageStageView::Acting { target } => ActiveTabView::Forget { target },
                    _ => keep,
                },
                "Closed tab "@ + dec(index as nat),
            ),
            CallView::One { tool, .. } => if tool == "list_tabs"@ {
                self.say(keep, pretty(tabs_listed(r, self.bidi)))
            } else {
                self.say(keep, info_text(json_parsed(returned_text(r, "{}"@))))
            },
            _ => self.end(keep, Ok(JsonView::empty())),
        }
    }

    /// What comes of a reply.
    pub open spec fn replied(self, r: JsonView) -> (PageRunView, PageActionView) {
        match self.stage {
            PageStageView::Sent => self.concluded(r),
            PageStageView::Acting { .. } => self.concluded(r),
            PageStageView::Measuring => match self.call {
                CallView::Screenshot { format, quality, .. } => match r.field("contentSize"@) {
                    Some(size) => {
                        let width = number_in(size, "width"@);
                        let height = number_in(size, "height"@);
                        (
                            PageRunView { stage: PageStageView::Scaling, ..self },
                            PageActionView::Scale { width, height },
                        )
                    },
                    None => self.send(
                        PageStageView::Sent,
                        "Page.captureScreenshot"@,
                        shot_params(format, quality),
                        None,
                    ),
                },
                _ => self.end(ActiveTabView::Keep, Ok(JsonView::empty())),
            },
            PageStageView::Focusing => match thrown(r, "Focus failed"@) {
                Some(t) => self.fail(refused(t)),
                None => match self.call {
                    CallView::TypeText { text, instant, wpm, .. } => self.enter(text, instant, wpm),
                    CallView::TypeIndex { text, instant, wpm, .. } => self.enter(
                        text,
                        instant,
                        wpm,
                    ),
                    _ => self.end(ActiveTabView::Keep, Ok(JsonView::empty())),
                },
            },
            PageStageView::Document => match self.call {
                CallView::UploadFile { selector, .. } => match root_node(r) {
                    Some(root) => self.send(
                        PageStageView::Finding,
                        "DOM.querySelector"@,
                        JsonView::empty().with("nodeId"@, JsonView::from_int(root)).with(
                            "selector"@,
                            JsonView::Str(selector),
                        ),
                        None,
                    ),
                    None => self.fail(refused("Could not read document root"@)),
                },
                _ => self.end(ActiveTabView::Keep, Ok(JsonView::empty())),
            },
            PageStageView::Finding => match self.call {
                CallView::UploadFile { selector, files, .. } => match r.field_int("nodeId"@) {
                    Some(n) => if n != 0 {
                        self.send(
                            PageStageView::Sent,
                            "DOM.setFileInputFiles"@,
                            JsonView::empty().with("nodeId"@, JsonView::from_int(n)).with(
                                "files"@,
                                JsonView::Array(files.map_values(|t: Seq<char>| JsonView::Str(t))),
                            ),
                            None,
                        )
                    } else {
                        self.fail(refused("File input not found: "@ + selector))
                    },
                    None => self.fail(refused("File input not found: "@ + selector)),
                },
                _ => self.end(ActiveTabView::Keep, Ok(JsonView::empty())),
            },
            PageStageView::Choosing => {
                let v = listed(r);
                match self.call {
                    CallView::SwitchTab { index, .. } => self.take_tab(
                        v,
                        index,
                        "Target.activateTarget"@,
                    ),
                    CallView::CloseTab { index, .. } => self.take_tab(
                        v,
                        index,
                        "Target.closeTarget"@,
                    ),
                    _ => self.end(ActiveTabView::Keep, Ok(JsonView::empty())),
                }
            },
            _ => self.end(ActiveTabView::Keep, Ok(JsonView::empty())),
        }
    }

    pub open spec fn enter(self, text: Seq<char>, instant: bool, wpm: Option<NumberView>) -> (
        PageRunView,
        PageActionView,
    ) {
        if instant {
            self.send(PageStageView::Sent, "Input.insertText"@, one_text("text"@, text), None)
        } else {
            (
                PageRunView { stage: PageStageView::Sent, ..self },
                PageActionView::Type { text, wpm },
            )
        }
    }

    pub open spec fn take_tab(self, v: Seq<JsonView>, index: u64, method: Seq<char>) -> (
        PageRunView,
        PageActionView,
    ) {
        if index < v.len() {
            let target = text_in(v[index as int], "id"@);
            (
                PageRunView { stage: PageStageView::Acting { target }, ..self },
                PageActionView::Browser { method, params: one_text("targetId"@, target) },
            )
        } else {
            self.fail(no_tab(index))
        }
    }

    /// What comes next.
    pub open spec fn step(self, ev: PageEventView) -> (PageRunView, PageActionView) {
        match ev {
            PageEventView::Start => self.begin(),
            PageEventView::Reply(Ok(r)) => self.replied(r),
            PageEventView::Reply(Err(e)) => self.fail(e),
            PageEventView::Scaled { width, height } => match self.call {
                CallView::Screenshot { format, quality, .. } => self.send(
                    PageStageView::Sent,
                    "Page.captureScreenshot"@,
                    clipped_shot(format, quality, width, height),
                    None,
                ),
                _ => self.end(ActiveTabView::Keep, Ok(JsonView::empty())),
            },
        }
    }
}

/// The pages among the targets that were listed.
pub open spec fn listed(r: JsonView) -> Seq<JsonView> {
    match r.list() {
        Some(v) => pages(v),
        None => Seq::empty(),
    }
}

/// The tabs as they are told of.
pub open spec fn tabs_listed(r: JsonView, bidi: bool) -> JsonView {
    if bidi {
        match r.field("tabs"@) {
            Some(v) => v,
            None => JsonView::Array(Seq::empty()),
        }
    } else {
        JsonView::Array(page_tabs(listed(r)))
    }
}

pub open spec fn root_node(r: JsonView) -> Option<i64> {
    match r.field("root"@) {
        Some(v) => v.field_int("nodeId"@),
        None => None,
    }
}

fn run_json(script: &str) -> (r: Json)
    ensures
        r@ == run_params(script@),
{
    Json::empty().with("expression", Json::text(script)).with("returnByValue", Json::Bool(true))
}

fn shot_json(format: &str, quality: Option<i64>) -> (r: Json)
    ensures
        r@ == shot_params(format@, quality),
{
    let p = Json::empty().with("format", Json::text(format));
    match quality {
        Some(q) => p.with("quality", Json::from_int(q)),
        None => p,
    }
}

fn measure_json(o: &Option<Number>, other: &str) -> (r: Json)
    ensures
        r@ == measure_or(opt_number(*o), other@),
{
    match o {
        Some(n) => Json::Number(n.copy()),
        None => Json::Number(Number::Float(other.to_owned())),
    }
}

fn clipped_json(
    format: &str,
    quality: Option<i64>,
    width: &Option<Number>,
    height: &Option<Number>,
) -> (r: Json)
    ensures
        r@ == clipped_shot(format@, quality, opt_number(*width), opt_number(*height)),
{
    let frame = Json::empty().with("x", Json::from_uint(0)).with("y", Json::from_uint(0)).with(
        "width",
        measure_json(width, "1920.0"),
    ).with("height", measure_json(height, "1080.0")).with("scale", Json::from_uint(1));
    shot_json(format, quality).with("clip", frame).with("captureBeyondViewport", Json::Bool(true))
}

fn number_of(v: &Json, k: &str) -> (r: Option<Number>)
    ensures
        opt_number(r) == number_in(v@, k@),
{
    match v.get(k) {
        Some(Json::Number(n)) => Some(n.copy()),
        _ => None,
    }
}

fn copy_number(o: &Option<Number>) -> (r: Option<Number>)
    ensures
        opt_number(r) == opt_number(*o),
{
    match o {
        Some(n) => Some(n.copy()),
        None => None,
    }
}

fn one_json(k: &str, v: &str) -> (r: Json)
    ensures
        r@ == one_text(k@, v@),
{
    Json::empty().with(k, Json::text(v))
}

fn pages_of(r: &Json) -> (v: Vec<Json>)
    ensures
        values(v@) == listed(r@),
{
    match r.as_array() {
        Some(a) => cdp_page_targets(a),
        None => {
            let v: Vec<Json> = Vec::new();
            assert(values(v@) =~= Seq::<JsonView>::empty());
            v
        },
    }
}

fn list_tabs(r: &Json, bidi: bool) -> (v: Json)
    ensures
        v@ == tabs_listed(r@, bidi),
{
    if bidi {
        match r.get("tabs") {
            Some(v) => v.copy(),
            None => {
                let v: Vec<Json> = Vec::new();
                assert(values(v@) =~= Seq::<JsonView>::empty());
                Json::Array(v)
            },
        }
    } else {
        Json::Array(list_pages(&pages_of(r)))
    }
}

impl PageRun {
    /// A tool that has not begun.
    pub fn new(call: ToolCall, bidi: bool) -> (r: PageRun)
        ensures
            r@ == (PageRunView { call: call@, bidi, stage: PageStageView::Start }),
    {
        PageRun { call, bidi, stage: PageStage::Start }
    }

    fn to_stage(self, stage: PageStage) -> (r: PageRun)
        ensures
            r@ == (PageRunView { stage: stage@, ..self@ }),
    {
        let PageRun { call, bidi, stage: _ } = self;
        PageRun { call, bidi, stage }
    }

    fn send(self, stage: PageStage, method: &str, params: Json, wait: Option<u64>) -> (r: (
        PageRun,
        PageAction,
    ))
        ensures
            page_seen(r) == self@.send(stage@, method@, params@, wait),
    {
        (self.to_stage(stage), PageAction::Send { method: method.to_owned(), params, wait })
    }

    fn script(self, stage: PageStage, script: String, wait: Option<u64>) -> (r: (
        PageRun,
        PageAction,
    ))
        ensures
            page_seen(r) == self@.script(stage@, script@, wait),
    {
        self.send(stage, "Runtime.evaluate", run_json(script.as_str()), wait)
    }

    fn end(self, tab: ActiveTab, result: Result<Json, McpError>) -> (r: (PageRun, PageAction))
        ensures
            page_seen(r) == self@.end(tab@, result_view(result)),
    {
        (self.to_stage(PageStage::Done), PageAction::Finish { tab, result })
    }

    fn say(self, tab: ActiveTab, t: String) -> (r: (PageRun, PageAction))
        ensures
            page_seen(r) == self@.say(tab@, t@),
    {
        self.end(tab, Ok(text_reply(t)))
    }

    fn fail(self, e: McpError) -> (r: (PageRun, PageAction))
        ensures
            page_seen(r) == self@.fail(e@),
    {
        self.end(ActiveTab::Keep, Err(e))
    }

    fn idle(self) -> (r: (PageRun, PageAction))
        ensures
            page_seen(r) == self@.end(ActiveTabView::Keep, Ok(JsonView::empty())),
    {
        self.end(ActiveTab::Keep, Ok(Json::empty()))
    }

    fn operate(self, op: BidiOp) -> (r: (PageRun, PageAction))
        ensures
            page_seen(r) == operation(self@, op@),
    {
        (self.to_stage(PageStage::Sent), PageAction::Operate { op })
    }

    fn browser(self, stage: PageStage, method: &str, params: Json) -> (r: (PageRun, PageAction))
        ensures
            page_seen(r) == (
                PageRunView { stage: stage@, ..self@ },
                PageActionView::Browser { method: method@, params: params@ },
            ),
    {
        (self.to_stage(stage), PageAction::Browser { method: method.to_owned(), params })
    }

    fn targets(self, stage: PageStage) -> (r: (PageRun, PageAction))
        ensures
            page_seen(r) == (
                PageRunView { stage: stage@, ..self@ },
                PageActionView::Targets,
            ),
    {
        (self.to_stage(stage), PageAction::Targets)
    }

    fn press(self) -> (r: (PageRun, PageAction))
        requires
            self.call is PressKey,
        ensures
            page_seen(r) == self@.begin(),
    {
        let bidi: bool = self.bidi;
        let events = match &self.call {
            ToolCall::PressKey { profile_id: _, key, modifiers } => {
                if bidi {
                    press_key_bidi(key.as_str(), modifiers)
                } else {
                    press_key_cdp(key.as_str(), modifiers)
                }
            },
            _ => Ok(Vec::new()),
        };
        match events {
            Ok(events) => {
                if bidi {
                    self.operate(BidiOp::PerformKeys { actions: events })
                } else {
                    (self.to_stage(PageStage::Sent), PageAction::Press { events })
                }
            },
            Err(e) => self.fail(e),
        }
    }

    fn begin_tab(self) -> (r: (PageRun, PageAction))
        requires
            self.call is NewTab || self.call is SwitchTab || self.call is CloseTab
                || self.call is UploadFile,
        ensures
            page_seen(r) == self@.begin(),
    {
        if self.bidi {
            let op = match &self.call {
                ToolCall::NewTab { profile_id: _, url } => BidiOp::NewTab { url: url.clone() },
                ToolCall::SwitchTab { profile_id: _, index } => BidiOp::SwitchTab {
                    index: *index,
                },
                ToolCall::CloseTab { profile_id: _, index } => BidiOp::CloseTab { index: *index },
                ToolCall::UploadFile { profile_id: _, selector, files } => BidiOp::SetFiles {
                    selector: selector.clone(),
                    files: copy_texts(files),
                },
                _ => BidiOp::ListTabs,
            };
            return self.operate(op);
        }
        let url = match &self.call {
            ToolCall::NewTab { profile_id: _, url } => Some(one_json("url", url.as_str())),
            _ => None,
        };
        match url {
            Some(params) => {
                return self.browser(PageStage::Sent, "Target.createTarget", params);
            },
            None => {},
        }
        if matches!(self.call, ToolCall::UploadFile { .. }) {
            return self.send(
                PageStage::Document,
                "DOM.getDocument",
                Json::empty().with("depth", Json::from_uint(0)),
                None,
            );
        }
        self.targets(PageStage::Choosing)
    }

    fn begin(self) -> (r: (PageRun, PageAction))
        ensures
            page_seen(r) == self@.begin(),
    {
        let mut wait: Option<u64> = None;
        let mut stage = PageStage::Sent;
        let script = match &self.call {
            ToolCall::Click { profile_id: _, selector } => {
                wait = Some(10);
                click_script(selector.as_str())
            },
            ToolCall::ClickIndex { profile_id: _, index } => {
                wait = Some(10);
                click_index_script(*index)
            },
            ToolCall::TypeText { profile_id: _, selector, text: _, clear_first, instant: _, wpm: _ } => {
                stage = PageStage::Focusing;
                focus_script(selector.as_str(), *clear_first)
            },
            ToolCall::TypeIndex { profile_id: _, index, text: _, clear_first, instant: _, wpm: _ } => {
                stage = PageStage::Focusing;
                focus_index_script(*index, *clear_first)
            },
            ToolCall::PageContent { profile_id: _, format, selector, max_chars: _ } => {
                content_script(format.as_str(), selector)
            },
            ToolCall::Elements { profile_id: _, max_chars } => elements_script(*max_chars),
            ToolCall::Navigate { profile_id: _, url } => {
                let params = one_json("url", url.as_str());
                return self.send(PageStage::Sent, "Page.navigate", params, Some(30));
            },
            ToolCall::Screenshot { profile_id: _, format, quality, full_page } => {
                if *full_page {
                    return self.send(
                        PageStage::Measuring,
                        "Page.getLayoutMetrics",
                        Json::empty(),
                        None,
                    );
                }
                let params = shot_json(format.as_str(), *quality);
                return self.send(PageStage::Sent, "Page.captureScreenshot", params, None);
            },
            ToolCall::Evaluate { profile_id: _, expression, await_promise, wait_for_load } => {
                let params = run_json(expression.as_str()).with(
                    "awaitPromise",
                    Json::Bool(*await_promise),
                );
                if *wait_for_load {
                    wait = Some(30);
                }
                return self.send(PageStage::Sent, "Runtime.evaluate", params, wait);
            },
            ToolCall::PressKey { profile_id: _, key: _, modifiers: _ } => {
                return self.press();
            },
            ToolCall::UploadFile { profile_id: _, selector: _, files: _ } => {
                return self.begin_tab();
            },
            ToolCall::NewTab { profile_id: _, url: _ } => {
                return self.begin_tab();
            },
            ToolCall::SwitchTab { profile_id: _, index: _ } => {
                return self.begin_tab();
            },
            ToolCall::CloseTab { profile_id: _, index: _ } => {
                return self.begin_tab();
            },
            ToolCall::One { tool, value: _ } => {
                if same(tool.as_str(), "list_tabs") {
                    if self.bidi {
                        return self.operate(BidiOp::ListTabs);
                    }
                    return self.targets(PageStage::Sent);
                }
                PAGE_INFO.to_owned()
            },
            _ => {
                return self.idle();
            },
        };
        self.script(stage, script, wait)
    }

    fn acted_on(&self) -> (r: Option<String>)
        ensures
            crate::text::opt_text(r) == match self.stage {
                PageStage::Acting { target } => Some(target@),
                _ => None,
            },
    {
        match &self.stage {
            PageStage::Acting { target } => Some(target.clone()),
            _ => None,
        }
    }

    fn concluded(self, r: Json) -> (s: (PageRun, PageAction))
        ensures
            page_seen(s) == self@.concluded(r@),
    {
        let mut tab = ActiveTab::Keep;
        let mut failure: Option<String> = None;
        let t = match &self.call {
            ToolCall::Navigate { profile_id: _, url } => join2("Navigated to ", url.as_str()),
            ToolCall::Screenshot { profile_id: _, format, quality: _, full_page: _ } => {
                let image = image_reply(
                    text_of_field(&r, "data"),
                    join2("image/", format.as_str()),
                );
                return self.end(ActiveTab::Keep, Ok(image));
            },
            ToolCall::Evaluate {
                profile_id: _,
                expression: _,
                await_promise: _,
                wait_for_load: _,
            } => evaluation(&r).pretty(),
            ToolCall::Click { profile_id: _, selector } => {
                failure = exception_text(&r, "Click failed");
                join2("Clicked element: ", selector.as_str())
            },
            ToolCall::ClickIndex { profile_id: _, index } => {
                failure = exception_text(&r, "Click failed");
                join2("Clicked element at index ", dec_u64(*index).as_str())
            },
            ToolCall::TypeText {
                profile_id: _,
                selector,
                text: _,
                clear_first: _,
                instant: _,
                wpm: _,
            } => join2("Typed text into element: ", selector.as_str()),
            ToolCall::TypeIndex {
                profile_id: _,
                index,
                text: _,
                clear_first: _,
                instant: _,
                wpm: _,
            } => join2("Typed text into element at index ", dec_u64(*index).as_str()),
            ToolCall::PageContent { profile_id: _, format: _, selector: _, max_chars } => cut_page(
                text_returned(&r, "").as_str(),
                *max_chars,
            ),
            ToolCall::Elements { profile_id: _, max_chars } => {
                failure = exception_text(&r, "Enumeration failed");
                let parsed = parse_json_text(text_returned(&r, "{}").as_str());
                list_elements(parsed, *max_chars)
            },
            ToolCall::PressKey { profile_id: _, key, modifiers: _ } => join2(
                "Pressed key: ",
                key.as_str(),
            ),
            ToolCall::UploadFile { profile_id: _, selector, files } => {
                let n: usize = files.len();
                let mut t = join3("Attached ", dec_u64(n as u64).as_str(), " file(s) to ");
                t.append(selector.as_str());
                t
            },
            ToolCall::NewTab { profile_id: _, url } => {
                if !self.bidi {
                    match r.get_str("targetId") {
                        Some(t) => {
                            tab = ActiveTab::Point { target: t.clone() };
                        },
                        None => {},
                    }
                }
                join2("Opened new tab: ", url.as_str())
            },
            ToolCall::SwitchTab { profile_id: _, index } => {
                match self.acted_on() {
                    Some(target) => {
                        tab = ActiveTab::Point { target };
                    },
                    None => {},
                }
                join2("Switched to tab ", dec_u64(*index).as_str())
            },
            ToolCall::CloseTab { profile_id: _, index } => {
                match self.acted_on() {
                    Some(target) => {
                        tab = ActiveTab::Forget { target };
                    },
                    None => {},
                }
                join2("Closed tab ", dec_u64(*index).as_str())
            },
            ToolCall::One { tool, value: _ } => {
                if same(tool.as_str(), "list_tabs") {
                    list_tabs(&r, self.bidi).pretty()
                } else {
                    page_info(parse_json_text(text_returned(&r, "{}").as_str()))
                }
            },
            _ => {
                return self.idle();
            },
        };
        match failure {
            Some(m) => self.fail(refusal(m.as_str())),
            None => self.say(tab, t),
        }
    }

    fn measured(self, r: Json) -> (s: (PageRun, PageAction))
        requires
            self@.stage is Measuring,
        ensures
            page_seen(s) == self@.replied(r@),
    {
        let params = match &self.call {
            ToolCall::Screenshot { profile_id: _, format, quality, full_page: _ } => Some(
                shot_json(format.as_str(), *quality),
            ),
            _ => None,
        };
        match params {
            Some(params) => match r.get("contentSize") {
                Some(size) => {
                    let width = number_of(size, "width");
                    let height = number_of(size, "height");
                    (self.to_stage(PageStage::Scaling), PageAction::Scale { width, height })
                },
                None => self.send(PageStage::Sent, "Page.captureScreenshot", params, None),
            },
            None => self.idle(),
        }
    }

    fn enter(self, text: String, instant: bool, wpm: Option<Number>) -> (r: (PageRun, PageAction))
        ensures
            page_seen(r) == self@.enter(text@, instant, opt_number(wpm)),
    {
        if instant {
            let params = one_json("text", text.as_str());
            self.send(PageStage::Sent, "Input.insertText", params, None)
        } else {
            (self.to_stage(PageStage::Sent), PageAction::Type { text, wpm })
        }
    }

    fn focused(self, r: Json) -> (s: (PageRun, PageAction))
        requires
            self@.stage is Focusing,
        ensures
            page_seen(s) == self@.replied(r@),
    {
        match exception_text(&r, "Focus failed") {
            Some(t) => {
                return self.fail(refusal(t.as_str()));
            },
            None => {},
        }
        let (text, now, wpm) = match &self.call {
            ToolCall::TypeText {
                profile_id: _,
                selector: _,
                text,
                clear_first: _,
                instant,
                wpm,
            } => (text.clone(), *instant, copy_number(wpm)),
            ToolCall::TypeIndex {
                profile_id: _,
                index: _,
                text,
                clear_first: _,
                instant,
                wpm,
            } => (text.clone(), *instant, copy_number(wpm)),
            _ => {
                return self.idle();
            },
        };
        self.enter(text, now, wpm)
    }

    fn found(self, r: Json) -> (s: (PageRun, PageAction))
        requires
            self@.stage is Document || self@.stage is Finding,
        ensures
            page_seen(s) == self@.replied(r@),
    {
        let (selector, files) = match &self.call {
            ToolCall::UploadFile { profile_id: _, selector, files } => (
                selector.clone(),
                Json::text_array(files),
            ),
            _ => {
                return self.idle();
            },
        };
        if matches!(self.stage, PageStage::Document) {
            let root = match r.get("root") {
                Some(v) => v.get_i64("nodeId"),
                None => None,
            };
            return match root {
                Some(n) => self.send(
                    PageStage::Finding,
                    "DOM.querySelector",
                    Json::empty().with("nodeId", Json::from_int(n)).with(
                        "selector",
                        Json::Str(selector),
                    ),
                    None,
                ),
                None => self.fail(refusal("Could not read document root")),
            };
        }
        match r.get_i64("nodeId") {
            Some(n) => {
                if n != 0 {
                    return self.send(
                        PageStage::Sent,
                        "DOM.setFileInputFiles",
                        Json::empty().with("nodeId", Json::from_int(n)).with("files", files),
                        None,
                    );
                }
            },
            None => {},
        }
        self.fail(refusal(join2("File input not found: ", selector.as_str()).as_str()))
    }

    fn take_tab(self, v: &Vec<Json>, index: u64, method: &str) -> (r: (PageRun, PageAction))
        ensures
            page_seen(r) == self@.take_tab(values(v@), index, method@),
    {
        assert(values(v@).len() == v@.len());
        let n: usize = v.len();
        if index < n as u64 {
            assert(values(v@)[index as int] == v@[index as int]@);
            let target = text_of_field(&v[index as usize], "id");
            let params = one_json("targetId", target.as_str());
            self.browser(PageStage::Acting { target }, method, params)
        } else {
            self.fail(no_tab_error(index))
        }
    }

    fn chosen(self, r: Json) -> (s: (PageRun, PageAction))
        requires
            self@.stage is Choosing,
        ensures
            page_seen(s) == self@.replied(r@),
    {
        let v = pages_of(&r);
        match &self.call {
            ToolCall::SwitchTab { profile_id: _, index } => {
                let i: u64 = *index;
                self.take_tab(&v, i, "Target.activateTarget")
            },
            ToolCall::CloseTab { profile_id: _, index } => {
                let i: u64 = *index;
                self.take_tab(&v, i, "Target.closeTarget")
            },
            _ => self.idle(),
        }
    }

    fn replied(self, r: Json) -> (s: (PageRun, PageAction))
        ensures
            page_seen(s) == self@.replied(r@),
    {
        match &self.stage {
            PageStage::Sent => self.concluded(r),
            PageStage::Acting { target: _ } => self.concluded(r),
            PageStage::Measuring => self.measured(r),
            PageStage::Focusing => self.focused(r),
            PageStage::Document => self.found(r),
            PageStage::Finding => self.found(r),
            PageStage::Choosing => self.chosen(r),
            _ => self.idle(),
        }
    }

    /// The next step of a tool.
    pub fn step(self, ev: PageEvent) -> (r: (PageRun, PageAction))
        ensures
            page_seen(r) == self@.step(ev@),
    {
        match ev {
            PageEvent::Start => self.begin(),
            PageEvent::Reply(Ok(r)) => self.replied(r),
            PageEvent::Reply(Err(e)) => self.fail(e),
            PageEvent::Scaled { width, height } => {
                let params = match &self.call {
                    ToolCall::Screenshot { profile_id: _, format, quality, full_page: _ } => Some(
                        clipped_json(format.as_str(), *quality, &width, &height),
                    ),
                    _ => None,
                };
                match params {
                    Some(params) => self.send(
                        PageStage::Sent,
                        "Page.captureScreenshot",
                        params,
                        None,
                    ),
                    None => self.idle(),
                }
            },
        }
    }
}

// ---------------------------------------------------------------------------
// The fingerprint of a page
// ---------------------------------------------------------------------------

/// The command that reads what a page can see of the browser.
pub open spec fn fingerprint_command() -> JsonView {
    run_params(FINGERPRINT@).with("awaitPromise"@, JsonView::Bool(false))
}

/// The command that reads what a page can see of the browser.
pub fn fingerprint_params() -> (r: Json)
    ensures
        r@ == fingerprint_command(),
{
    run_json(FINGERPRINT).with("awaitPromise", Json::Bool(false))
}

/// What a page can see of the browser, given the reply to the command.
pub open spec fn fingerprint_in(r: JsonView) -> Result<JsonView, Seq<char>> {
    match thrown(r, "Failed to evaluate fingerprint script"@) {
        Some(t) => Err(t),
        None => Ok(
            match returned(r) {
                Some(v) => v,
                None => JsonView::empty(),
            },
        ),
    }
}

/// What a page can see of the browser, given the reply to the command.
pub fn read_live_fingerprint(r: &Json) -> (s: Result<Json, String>)
    ensures
        parsed_view(s) == fingerprint_in(r@),
{
    match exception_text(r, "Failed to evaluate fingerprint script") {
        Some(t) => Err(t),
        None => match r.get("result") {
            Some(v) => match v.get("value") {
                Some(x) => Ok(x.copy()),
                None => Ok(Json::empty()),
            },
            None => Ok(Json::empty()),
        },
    }
}

// ---------------------------------------------------------------------------
// Laws
// ---------------------------------------------------------------------------

/// A failure ends a tool at once, is handed on as it is, and leaves the
/// active tab alone.
pub proof fn lemma_page_failure(s: PageRunView, e: ErrorView)
    ensures
        s.step(PageEventView::Reply(Err(e))).1 == (PageActionView::Finish {
            tab: ActiveTabView::Keep,
            result: Err(e),
        }),
{
}

/// Nothing is typed where the element could not be focused.
pub proof fn lemma_unfocused_types_nothing(s: PageRunView, r: JsonView)
    requires
        s.stage is Focusing,
        r.field("exceptionDetails"@) is Some,
    ensures
        s.step(PageEventView::Reply(Ok(r))).1 is Finish,
        s.step(PageEventView::Reply(Ok(r))).1->Finish_result is Err,
{
}

/// A text that fits is told whole, and of a longer one so many characters.
pub proof fn lemma_page_text(t: Seq<char>, max: u64)
    ensures
        t.len() <= max ==> page_text(t, max) == t,
        t.len() > max ==> page_text(t, max).take(max as int) == t.take(max as int),
{
    if t.len() > max {
        assert(page_text(t, max).take(max as int) =~= t.take(max as int));
    }
}

} // verus!
