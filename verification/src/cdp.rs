//! The debugging protocol: finding a page, sending a command, and waiting for
//! a page to load.
use vstd::prelude::*;

use crate::json::{json_parsed, opt_json_owned, parse_json_text, parsed_view, render};
use crate::keys::{command, command_json};
use crate::protocol::{refusal, refused, result_view, ErrorView, McpError};
use crate::text::{
    after_prefix, dec, dec_u64, has_prefix, join2, join3, lemma_filter_push, opt_text, parse_u16,
    same, starts, strip, unsigned_upto,
};
use crate::value::{
    lemma_array_view, lemma_object_view, lemma_values_push, values, Json, JsonView, Number,
};

verus! {

broadcast use {lemma_array_view, lemma_object_view};

// ---------------------------------------------------------------------------
// Addresses
// ---------------------------------------------------------------------------

/// The port in an address that stands for the other protocol; nothing in any
/// other address.
pub open spec fn bidi_port_of(url: Seq<char>) -> Option<u16> {
    match after_prefix(url, "bidi://127.0.0.1:"@) {
        Some(t) => match unsigned_upto(t, u16::MAX as nat) {
            Some(n) => Some(n as u16),
            None => None,
        },
        None => None,
    }
}

/// The port in an address that stands for the other protocol.
pub fn bidi_port(ws_url: &str) -> (r: Option<u16>)
    ensures
        r == bidi_port_of(ws_url@),
{
    match strip(ws_url, "bidi://127.0.0.1:") {
        Some(t) => parse_u16(t.as_str()),
        None => None,
    }
}

/// The address that stands for the other protocol.
pub open spec fn bidi_address(port: u16) -> Seq<char> {
    "bidi://127.0.0.1:"@ + dec(port as nat)
}

/// The address that stands for the other protocol.
pub fn bidi_url(port: u16) -> (r: String)
    ensures
        r@ == bidi_address(port),
{
    join2("bidi://127.0.0.1:", dec_u64(port as u64).as_str())
}

/// The address of a browser that speaks the other protocol; nothing where the
/// pages have to be asked for.
pub fn fixed_url(browser: &str, port: u16) -> (r: Option<String>)
    ensures
        opt_text(r) == (if browser@ == "camoufox"@ {
            Some(bidi_address(port))
        } else {
            None
        }),
{
    if same(browser, "camoufox") {
        Some(bidi_url(port))
    } else {
        None
    }
}

/// The port is read back from the address that it was put in.
pub proof fn lemma_bidi_port_read_back(port: u16)
    ensures
        bidi_port_of(bidi_address(port)) == Some(port),
{
    let pre = "bidi://127.0.0.1:"@;
    let url = bidi_address(port);
    assert(url.subrange(0, pre.len() as int) =~= pre);
    assert(url.skip(pre.len() as int) =~= dec(port as nat));
    crate::text::lemma_dec_value(port as nat);
}

/// The address that lists the pages.
pub fn targets_url(port: u16) -> (r: String)
    ensures
        r@ == "http://127.0.0.1:"@ + dec(port as nat) + "/json"@,
{
    join3("http://127.0.0.1:", dec_u64(port as u64).as_str(), "/json")
}

/// The address that tells of the browser itself.
pub fn browser_url(port: u16) -> (r: String)
    ensures
        r@ == "http://127.0.0.1:"@ + dec(port as nat) + "/json/version"@,
{
    join3("http://127.0.0.1:", dec_u64(port as u64).as_str(), "/json/version")
}

// ---------------------------------------------------------------------------
// Pages
// ---------------------------------------------------------------------------

/// A target that shows the developer tools.
pub open spec fn shows_devtools(t: JsonView) -> bool {
    match t.field_str("url"@) {
        Some(u) => starts(u, "devtools://"@),
        None => false,
    }
}

/// Whether a target shows the developer tools, which are no page to act on.
pub fn is_devtools_target(t: &Json) -> (r: bool)
    ensures
        r == shows_devtools(t@),
{
    match t.get_str("url") {
        Some(u) => has_prefix(u.as_str(), "devtools://"),
        None => false,
    }
}

/// A target that is a page to act on.
pub open spec fn is_page() -> spec_fn(JsonView) -> bool {
    |t: JsonView| t.field_str("type"@) == Some("page"@) && !shows_devtools(t)
}

/// The pages among the targets, in the order of the browser.
pub open spec fn pages(targets: Seq<JsonView>) -> Seq<JsonView> {
    targets.filter(is_page())
}

fn acts_on(t: &Json) -> (r: bool)
    ensures
        r == is_page()(t@),
{
    let page: bool = match t.get_str("type") {
        Some(k) => same(k.as_str(), "page"),
        None => false,
    };
    page && !is_devtools_target(t)
}

/// The pages among the targets.
pub fn cdp_page_targets(targets: &Vec<Json>) -> (r: Vec<Json>)
    ensures
        values(r@) == pages(values(targets@)),
{
    let ghost all = values(targets@);
    let ghost keep = is_page();
    let mut out: Vec<Json> = Vec::new();
    let mut i: usize = 0;
    proof {
        reveal(Seq::filter);
        assert(all.take(0).filter(keep) =~= values(out@));
    }
    while i < targets.len()
        invariant
            i <= targets@.len(),
            all == values(targets@),
            keep == is_page(),
            values(out@) == all.take(i as int).filter(keep),
        decreases targets@.len() - i,
    {
        proof {
            lemma_filter_push(all.take(i as int), all[i as int], keep);
            assert(all.take(i as int + 1) =~= all.take(i as int).push(all[i as int]));
            assert(all[i as int] == targets@[i as int]@);
        }
        if acts_on(&targets[i]) {
            let x = targets[i].copy();
            proof {
                lemma_values_push(out@, x);
            }
            out.push(x);
        }
        i = i + 1;
    }
    assert(all.take(all.len() as int) =~= all);
    out
}

/// The place of the first page with the id, from `from` on.
pub open spec fn page_at(v: Seq<JsonView>, id: Seq<char>, from: int) -> Option<int>
    decreases v.len() - from,
{
    if from < 0 || from >= v.len() {
        None
    } else if v[from].field_str("id"@) == Some(id) {
        Some(from)
    } else {
        page_at(v, id, from + 1)
    }
}

/// The page to act on: the active one where it is still there, else the
/// first.
pub open spec fn chosen_page(v: Seq<JsonView>, active: Option<Seq<char>>) -> Option<JsonView> {
    let at = match active {
        Some(id) => page_at(v, id, 0),
        None => None,
    };
    match at {
        Some(i) => Some(v[i]),
        None => if v.len() > 0 {
            Some(v[0])
        } else {
            None
        },
    }
}

/// The address of the page to act on.
pub open spec fn page_address(targets: Seq<JsonView>, active: Option<Seq<char>>) -> Option<
    Seq<char>,
> {
    match chosen_page(pages(targets), active) {
        Some(p) => p.field_str("webSocketDebuggerUrl"@),
        None => None,
    }
}

fn place_of_page(v: &Vec<Json>, id: &str) -> (r: Option<usize>)
    ensures
        match r {
            Some(i) => i < v@.len() && page_at(values(v@), id@, 0) == Some(i as int),
            None => page_at(values(v@), id@, 0) is None,
        },
{
    let ghost all = values(v@);
    let mut i: usize = 0;
    while i < v.len()
        invariant
            i <= v@.len(),
            all == values(v@),
            page_at(all, id@, 0) == page_at(all, id@, i as int),
        decreases v@.len() - i,
    {
        assert(all[i as int] == v@[i as int]@);
        match v[i].get_str("id") {
            Some(x) => {
                if same(x.as_str(), id) {
                    return Some(i);
                }
            },
            None => {},
        }
        i = i + 1;
    }
    None
}

/// The address of the page to act on.
pub fn choose_page(targets: &Vec<Json>, active: &Option<String>) -> (r: Option<String>)
    ensures
        opt_text(r) == page_address(values(targets@), opt_text(*active)),
{
    let v = cdp_page_targets(targets);
    assert(values(v@).len() == v@.len());
    let at = match active {
        Some(id) => place_of_page(&v, id.as_str()),
        None => None,
    };
    let i: usize = match at {
        Some(i) => i,
        None => {
            if v.len() == 0 {
                return None;
            }
            0
        },
    };
    assert(values(v@)[i as int] == v@[i as int]@);
    match v[i].get_str("webSocketDebuggerUrl") {
        Some(u) => Some(u.clone()),
        None => None,
    }
}

/// A page is never acted on that shows the developer tools, and an active
/// page that is still there is the one that is acted on.
pub proof fn lemma_chosen_page(targets: Seq<JsonView>, active: Option<Seq<char>>)
    ensures
        match chosen_page(pages(targets), active) {
            Some(p) => !shows_devtools(p) && targets.contains(p),
            None => pages(targets).len() == 0,
        },
        active is Some && page_at(pages(targets), active->0, 0) is Some ==> chosen_page(
            pages(targets),
            active,
        )->0.field_str("id"@) == active,
{
    let v = pages(targets);
    if let Some(id) = active {
        lemma_page_at(v, id, 0);
    }
    match chosen_page(v, active) {
        Some(p) => {
            assert(v.contains(p)) by {
                if active is Some && page_at(v, active->0, 0) is Some {
                    assert(v[page_at(v, active->0, 0)->0] == p);
                } else {
                    assert(v[0] == p);
                }
            }
            crate::text::lemma_filter_elem(targets, is_page(), p);
        },
        None => {},
    }
}

proof fn lemma_page_at(v: Seq<JsonView>, id: Seq<char>, from: int)
    ensures
        match page_at(v, id, from) {
            Some(i) => from <= i < v.len() && v[i].field_str("id"@) == Some(id),
            None => true,
        },
    decreases v.len() - from,
{
    if 0 <= from < v.len() && v[from].field_str("id"@) != Some(id) {
        lemma_page_at(v, id, from + 1);
    }
}

/// What an attempt to find a page came to.
pub enum Found {
    /// These are the targets.
    Targets { targets: Vec<Json> },
    /// The answer could not be read.
    Unreadable { error: String },
    /// There was no answer.
    Unreachable { error: String },
}

/// What to do after an attempt.
pub enum Search {
    Page { url: String },
    /// Try again in a second.
    Again,
    GiveUp { error: McpError },
}

pub enum SearchView {
    Page { url: Seq<char> },
    Again,
    GiveUp { error: ErrorView },
}

impl Search {
    pub open spec fn view(&self) -> SearchView {
        match self {
            Search::Page { url } => SearchView::Page { url: url@ },
            Search::Again => SearchView::Again,
            Search::GiveUp { error } => SearchView::GiveUp { error: error@ },
        }
    }
}

/// What is wrong with an attempt that found no page.
pub open spec fn search_error(f: Found) -> Seq<char> {
    match f {
        Found::Targets { .. } => "No page target found in browser"@,
        Found::Unreadable { error } => "Failed to parse CDP targets: "@ + error@,
        Found::Unreachable { error } => "Failed to connect to browser CDP endpoint: "@ + error@,
    }
}

/// After attempt `attempt`, counted from zero, of fifteen.
pub open spec fn after_search(attempt: u32, f: Found, active: Option<Seq<char>>) -> SearchView {
    let url = match f {
        Found::Targets { targets } => page_address(values(targets@), active),
        _ => None,
    };
    match url {
        Some(url) => SearchView::Page { url },
        None => if attempt + 1 < 15 {
            SearchView::Again
        } else {
            SearchView::GiveUp { error: refused(search_error(f)) }
        },
    }
}

/// What to do after an attempt to find the page to act on.
pub fn get_cdp_ws_url(attempt: u32, f: &Found, active: &Option<String>) -> (r: Search)
    ensures
        r@ == after_search(attempt, *f, opt_text(*active)),
{
    let error = match f {
        Found::Targets { targets } => {
            match choose_page(targets, active) {
                Some(url) => {
                    return Search::Page { url };
                },
                None => {},
            }
            "No page target found in browser".to_owned()
        },
        Found::Unreadable { error } => join2("Failed to parse CDP targets: ", error.as_str()),
        Found::Unreachable { error } => join2(
            "Failed to connect to browser CDP endpoint: ",
            error.as_str(),
        ),
    };
    if attempt < 14 {
        Search::Again
    } else {
        Search::GiveUp { error: refusal(error.as_str()) }
    }
}

pub open spec fn no_port(name: Seq<char>) -> ErrorView {
    refused(
        "No CDP connection available for profile '"@ + name
            + "'. Make sure the browser is running."@,
    )
}

/// What to do after an attempt to learn the debugging port of a profile: the
/// port, nothing where it is to be tried again in a second, or the failure
/// after the tenth attempt.
pub fn get_cdp_port_for_profile(attempt: u32, port: Option<u16>, name: &str) -> (r: Result<
    Option<u16>,
    McpError,
>)
    ensures
        match r {
            Ok(p) => p == port && (port is Some || attempt < 9),
            Err(e) => port is None && attempt >= 9 && e@ == no_port(name@),
        },
{
    if port.is_some() || attempt < 9 {
        Ok(port)
    } else {
        let m = join3(
            "No CDP connection available for profile '",
            name,
            "'. Make sure the browser is running.",
        );
        Err(refusal(m.as_str()))
    }
}

/// The address of the browser itself.
pub fn get_cdp_browser_ws_url(body: &Json) -> (r: Result<String, McpError>)
    ensures
        match r {
            Ok(u) => body@.field_str("webSocketDebuggerUrl"@) == Some(u@),
            Err(e) => body@.field_str("webSocketDebuggerUrl"@) is None && e@ == refused(
                "No browser WebSocket endpoint found"@,
            ),
        },
{
    match body.get_str("webSocketDebuggerUrl") {
        Some(u) => Ok(u.clone()),
        None => Err(refusal("No browser WebSocket endpoint found")),
    }
}

// ---------------------------------------------------------------------------
// Replies
// ---------------------------------------------------------------------------

/// The message has the number.
pub open spec fn has_id(m: JsonView, id: u64) -> bool {
    m.field("id"@) == Some(JsonView::from_uint(id))
}

pub fn is_reply_to(m: &Json, id: u64) -> (r: bool)
    ensures
        r == has_id(m@, id),
{
    match m.get("id") {
        Some(Json::Number(Number::PosInt(n))) => *n == id,
        _ => false,
    }
}

pub open spec fn cdp_error(e: JsonView) -> ErrorView {
    refused("CDP error: "@ + render(e))
}

/// What a reply says.
pub open spec fn reply_of(m: JsonView) -> Result<JsonView, ErrorView> {
    match m.field("error"@) {
        Some(e) => Err(cdp_error(e)),
        None => match m.field("result"@) {
            Some(r) => Ok(r),
            None => Ok(JsonView::empty()),
        },
    }
}

pub open spec fn reply_view(r: Option<Result<Json, McpError>>) -> Option<
    Result<JsonView, ErrorView>,
> {
    match r {
        Some(x) => Some(result_view(x)),
        None => None,
    }
}

fn read_result(m: &Json) -> (r: Result<Json, McpError>)
    ensures
        result_view(r) == reply_of(m@),
{
    match m.get("error") {
        Some(e) => Err(refusal(join2("CDP error: ", e.render().as_str()).as_str())),
        None => match m.get("result") {
            Some(v) => Ok(v.copy()),
            None => Ok(Json::empty()),
        },
    }
}

/// What comes in on the connection.
pub enum Incoming {
    /// A message.
    Message { value: Json },
    /// A text that is no message.
    Unreadable { error: String },
    /// What is no text.
    Other,
    Closed,
    Failed { error: String },
    TimedOut,
}

/// A text, given what it reads as.
pub open spec fn is_incoming(x: Incoming, parsed: Result<JsonView, Seq<char>>) -> bool {
    match parsed {
        Ok(v) => x is Message && x->value@ == v,
        Err(e) => x is Unreadable && x->Unreadable_error@ == e,
    }
}

/// What comes in as a text, given what it reads as.
pub fn incoming(parsed: Result<Json, String>) -> (r: Incoming)
    ensures
        is_incoming(r, parsed_view(parsed)),
{
    match parsed {
        Ok(value) => Incoming::Message { value },
        Err(error) => Incoming::Unreadable { error },
    }
}

/// What comes in as a text.
pub fn receive(text: &str) -> (r: Incoming)
    ensures
        is_incoming(r, json_parsed(text@)),
{
    incoming(parse_json_text(text))
}

/// How the wait for the reply to the command goes on: it is over with a
/// result, or goes on.
pub open spec fn cdp_reply(x: Incoming, id: u64) -> Option<Result<JsonView, ErrorView>> {
    match x {
        Incoming::Message { value } => if has_id(value@, id) {
            Some(reply_of(value@))
        } else {
            None
        },
        Incoming::Unreadable { error } => Some(
            Err(refused("Failed to parse CDP response: "@ + error@)),
        ),
        Incoming::Failed { error } => Some(Err(refused("CDP WebSocket error: "@ + error@))),
        Incoming::Closed => Some(Err(refused("No response received from CDP"@))),
        _ => None,
    }
}

/// How the wait for the reply to the command goes on.
pub fn send_cdp(x: &Incoming, id: u64) -> (r: Option<Result<Json, McpError>>)
    ensures
        reply_view(r) == cdp_reply(*x, id),
{
    match x {
        Incoming::Message { value } => {
            if is_reply_to(value, id) {
                Some(read_result(value))
            } else {
                None
            }
        },
        Incoming::Unreadable { error } => Some(
            Err(refusal(join2("Failed to parse CDP response: ", error.as_str()).as_str())),
        ),
        Incoming::Failed { error } => Some(
            Err(refusal(join2("CDP WebSocket error: ", error.as_str()).as_str())),
        ),
        Incoming::Closed => Some(Err(refusal("No response received from CDP"))),
        _ => None,
    }
}

// ---------------------------------------------------------------------------
// Waiting for a page to load
// ---------------------------------------------------------------------------

/// A command on its way, and the loading of the page after it.
pub enum LoadWait {
    /// The events of the page are being switched on; then the command goes
    /// out.
    Enabling { command: Json },
    /// The command is out. Its result is here once it has come.
    Loading { result: Option<Json> },
    Done,
}

pub enum LoadView {
    Enabling { command: JsonView },
    Loading { result: Option<JsonView> },
    Done,
}

impl LoadWait {
    pub open spec fn view(&self) -> LoadView {
        match self {
            LoadWait::Enabling { command } => LoadView::Enabling { command: command@ },
            LoadWait::Loading { result } => LoadView::Loading { result: opt_json_owned(*result) },
            LoadWait::Done => LoadView::Done,
        }
    }
}

/// What to do next.
pub enum LoadAction {
    Receive,
    Send { command: Json },
    /// It is over. The command that goes out first may fail unnoticed.
    Finish { last: Option<Json>, result: Result<Json, McpError> },
}

pub enum LoadActionView {
    Receive,
    Send { command: JsonView },
    Finish { last: Option<JsonView>, result: Result<JsonView, ErrorView> },
}

impl LoadAction {
    pub open spec fn view(&self) -> LoadActionView {
        match self {
            LoadAction::Receive => LoadActionView::Receive,
            LoadAction::Send { command } => LoadActionView::Send { command: command@ },
            LoadAction::Finish { last, result } => LoadActionView::Finish {
                last: opt_json_owned(*last),
                result: result_view(*result),
            },
        }
    }
}

/// The first command, and where the wait stands then.
pub open spec fn load_start(method: Seq<char>, params: JsonView) -> (LoadView, LoadActionView) {
    (
        LoadView::Enabling { command: command(2, method, params) },
        LoadActionView::Send { command: command(1, "Page.enable"@, JsonView::empty()) },
    )
}

pub open spec fn abort(e: ErrorView) -> (LoadView, LoadActionView) {
    (LoadView::Done, LoadActionView::Finish { last: None, result: Err(e) })
}

/// The end: the events are switched off, and the result is handed over where
/// it has come.
pub open spec fn load_end(result: Option<JsonView>) -> (LoadView, LoadActionView) {
    (
        LoadView::Done,
        LoadActionView::Finish {
            last: Some(command(3, "Page.disable"@, JsonView::empty())),
            result: match result {
                Some(r) => Ok(r),
                None => Err(refused("No response received from CDP"@)),
            },
        },
    )
}

/// The page has loaded.
pub open spec fn says_loaded(m: JsonView) -> bool {
    m.field_str("method"@) == Some("Page.loadEventFired"@)
}

/// What comes next.
pub open spec fn load_step(s: LoadView, x: Incoming) -> (LoadView, LoadActionView) {
    match s {
        LoadView::Enabling { command } => match x {
            Incoming::Message { value } => if has_id(value@, 1) {
                (LoadView::Loading { result: None }, LoadActionView::Send { command })
            } else {
                (s, LoadActionView::Receive)
            },
            Incoming::Closed => abort(
                refused("WebSocket closed waiting for Page.enable response"@),
            ),
            Incoming::Failed { error } => abort(refused("CDP WebSocket error: "@ + error@)),
            _ => (s, LoadActionView::Receive),
        },
        LoadView::Loading { result } => match x {
            Incoming::Message { value } => if has_id(value@, 2) && reply_of(value@) is Err {
                abort(reply_of(value@)->Err_0)
            } else {
                let got = if has_id(value@, 2) {
                    Some(reply_of(value@)->Ok_0)
                } else {
                    result
                };
                if says_loaded(value@) {
                    load_end(got)
                } else {
                    (LoadView::Loading { result: got }, LoadActionView::Receive)
                }
            },
            Incoming::Failed { error } => abort(refused("CDP WebSocket error: "@ + error@)),
            Incoming::Unreadable { .. } => (s, LoadActionView::Receive),
            Incoming::Other => (s, LoadActionView::Receive),
            Incoming::Closed => load_end(result),
            Incoming::TimedOut => load_end(result),
        },
        LoadView::Done => (s, LoadActionView::Receive),
    }
}

pub open spec fn load_seen(r: (LoadWait, LoadAction)) -> (LoadView, LoadActionView) {
    (r.0@, r.1@)
}

fn stop(e: McpError) -> (r: (LoadWait, LoadAction))
    ensures
        load_seen(r) == abort(e@),
{
    (LoadWait::Done, LoadAction::Finish { last: None, result: Err(e) })
}

fn finish(result: Option<Json>) -> (r: (LoadWait, LoadAction))
    ensures
        load_seen(r) == load_end(opt_json_owned(result)),
{
    let last = Some(command_json(3, "Page.disable", Json::empty()));
    let out = match result {
        Some(v) => Ok(v),
        None => Err(refusal("No response received from CDP")),
    };
    (LoadWait::Done, LoadAction::Finish { last, result: out })
}

fn loaded(m: &Json) -> (r: bool)
    ensures
        r == says_loaded(m@),
{
    match m.get_str("method") {
        Some(k) => same(k.as_str(), "Page.loadEventFired"),
        None => false,
    }
}

impl LoadWait {
    /// Sends a command and waits for the page to load: the first command.
    pub fn send_cdp_and_wait_for_load(method: &str, params: Json) -> (r: (LoadWait, LoadAction))
        ensures
            load_seen(r) == load_start(method@, params@),
    {
        (
            LoadWait::Enabling { command: command_json(2, method, params) },
            LoadAction::Send { command: command_json(1, "Page.enable", Json::empty()) },
        )
    }

    /// What comes next.
    pub fn step(self, x: Incoming) -> (r: (LoadWait, LoadAction))
        ensures
            load_seen(r) == load_step(self@, x),
    {
        match self {
            LoadWait::Enabling { command } => match x {
                Incoming::Message { value } => {
                    if is_reply_to(&value, 1) {
                        (LoadWait::Loading { result: None }, LoadAction::Send { command })
                    } else {
                        (LoadWait::Enabling { command }, LoadAction::Receive)
                    }
                },
                Incoming::Closed => stop(
                    refusal("WebSocket closed waiting for Page.enable response"),
                ),
                Incoming::Failed { error } => stop(
                    refusal(join2("CDP WebSocket error: ", error.as_str()).as_str()),
                ),
                _ => (LoadWait::Enabling { command }, LoadAction::Receive),
            },
            LoadWait::Loading { result } => match x {
                Incoming::Message { value } => {
                    let got = if is_reply_to(&value, 2) {
                        match read_result(&value) {
                            Ok(v) => Some(v),
                            Err(e) => {
                                return stop(e);
                            },
                        }
                    } else {
                        result
                    };
                    if loaded(&value) {
                        finish(got)
                    } else {
                        (LoadWait::Loading { result: got }, LoadAction::Receive)
                    }
                },
                Incoming::Failed { error } => stop(
                    refusal(join2("CDP WebSocket error: ", error.as_str()).as_str()),
                ),
                Incoming::Unreadable { error: _ } => (
                    LoadWait::Loading { result },
                    LoadAction::Receive,
                ),
                Incoming::Other => (LoadWait::Loading { result }, LoadAction::Receive),
                Incoming::Closed => finish(result),
                Incoming::TimedOut => finish(result),
            },
            LoadWait::Done => (LoadWait::Done, LoadAction::Receive),
        }
    }
}

/// A result that has come in is what is handed over in the end, whether the
/// page is loaded by then or not.
pub proof fn lemma_result_is_kept(r: JsonView, x: Incoming)
    requires
        x is Closed || x is TimedOut || (x is Message && says_loaded(x->value@) && !has_id(
            x->value@,
            2,
        )),
    ensures
        load_step(LoadView::Loading { result: Some(r) }, x) == (
            LoadView::Done,
            LoadActionView::Finish {
                last: Some(command(3, "Page.disable"@, JsonView::empty())),
                result: Ok(r),
            },
        ),
{
}

} // verus!
