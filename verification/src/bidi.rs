//! The other protocol: operations on a browser that does not speak the
//! debugging protocol.
use vstd::prelude::*;

use crate::cdp::{has_id, is_reply_to, reply_view, Incoming};
use crate::json::{json_parsed, parse_json_text, parsed_view};
use crate::keys::{bidi_insert, command, command_json, insert_actions};
use crate::plan::opt_number;
use crate::protocol::{
    refusal, refused, result_view, transport_error, unreachable_browser, ErrorView, McpError,
};
use crate::text::{dec, dec_u64, join2, join3, replace_char, replaced, same, texts};
use crate::value::{
    lemma_array_view, lemma_object_view, lemma_values_push, values, Json, JsonView, Number,
    NumberView,
};

verus! {

broadcast use {lemma_array_view, lemma_object_view};

pub open spec fn str_json(s: Seq<char>) -> JsonView {
    JsonView::Str(s)
}

// ---------------------------------------------------------------------------
// Operations
// ---------------------------------------------------------------------------

/// An operation on the browser.
#[derive(Debug, PartialEq, Eq)]
pub enum BidiOp {
    Eval { expression: String, await_promise: bool, wait_load: bool },
    Navigate { url: String },
    /// The quality is a fraction of one.
    Screenshot { format: String, quality: Option<Number>, full_page: bool },
    LayoutMetrics,
    PerformKeys { actions: Vec<Json> },
    SetFiles { selector: String, files: Vec<String> },
    ListTabs,
    NewTab { url: String },
    SwitchTab { index: u64 },
    CloseTab { index: u64 },
}

pub enum OpView {
    Eval { expression: Seq<char>, await_promise: bool, wait_load: bool },
    Navigate { url: Seq<char> },
    Screenshot { format: Seq<char>, quality: Option<NumberView>, full_page: bool },
    LayoutMetrics,
    PerformKeys { actions: Seq<JsonView> },
    SetFiles { selector: Seq<char>, files: Seq<Seq<char>> },
    ListTabs,
    NewTab { url: Seq<char> },
    SwitchTab { index: u64 },
    CloseTab { index: u64 },
}

impl BidiOp {
    pub open spec fn view(&self) -> OpView {
        match self {
            BidiOp::Eval { expression, await_promise, wait_load } => OpView::Eval {
                expression: expression@,
                await_promise: *await_promise,
                wait_load: *wait_load,
            },
            BidiOp::Navigate { url } => OpView::Navigate { url: url@ },
            BidiOp::Screenshot { format, quality, full_page } => OpView::Screenshot {
                format: format@,
                quality: opt_number(*quality),
                full_page: *full_page,
            },
            BidiOp::LayoutMetrics => OpView::LayoutMetrics,
            BidiOp::PerformKeys { actions } => OpView::PerformKeys { actions: values(actions@) },
            BidiOp::SetFiles { selector, files } => OpView::SetFiles {
                selector: selector@,
                files: texts(files@),
            },
            BidiOp::ListTabs => OpView::ListTabs,
            BidiOp::NewTab { url } => OpView::NewTab { url: url@ },
            BidiOp::SwitchTab { index } => OpView::SwitchTab { index: *index },
            BidiOp::CloseTab { index } => OpView::CloseTab { index: *index },
        }
    }
}

/// What is known of a connection: the active tab, the number of the last
/// command, and whether it tells of loaded pages.
#[derive(Debug, PartialEq, Eq)]
pub struct BidiConn {
    pub context: String,
    pub next_id: u64,
    pub load_subscribed: bool,
}

pub struct ConnView {
    pub context: Seq<char>,
    pub next_id: u64,
    pub load_subscribed: bool,
}

impl BidiConn {
    pub open spec fn view(&self) -> ConnView {
        ConnView {
            context: self.context@,
            next_id: self.next_id,
            load_subscribed: self.load_subscribed,
        }
    }
}

// ---------------------------------------------------------------------------
// Commands and replies
// ---------------------------------------------------------------------------

impl BidiConn {
    /// A connection that has just been opened.
    pub fn opened() -> (r: BidiConn)
        ensures
            r@.context == Seq::<char>::empty(),
            r@.next_id == 0,
            !r@.load_subscribed,
    {
        let r = BidiConn { context: String::new(), next_id: 0, load_subscribed: false };
        assert(r@.context =~= Seq::<char>::empty());
        r
    }

    /// The next command, with its number.
    pub fn bidi_rpc(&mut self, method: &str, params: Json) -> (r: (u64, Json))
        requires
            old(self).next_id < u64::MAX,
        ensures
            r.0 == old(self).next_id + 1,
            r.1@ == command(r.0, method@, params@),
            final(self)@ == (ConnView { next_id: r.0, ..old(self)@ }),
    {
        self.next_id = self.next_id + 1;
        let id: u64 = self.next_id;
        (id, command_json(id, method, params))
    }
}

pub open spec fn bidi_error(method: Seq<char>, m: JsonView) -> ErrorView {
    refused(
        "BiDi error ("@ + method + "): "@ + match m.field_str("message"@) {
            Some(t) => t,
            None => "unknown"@,
        },
    )
}

/// What a reply says.
pub open spec fn bidi_reply(m: JsonView, method: Seq<char>) -> Result<JsonView, ErrorView> {
    if m.field_str("type"@) == Some("error"@) {
        Err(bidi_error(method, m))
    } else {
        match m.field("result"@) {
            Some(r) => Ok(r),
            None => Ok(JsonView::empty()),
        }
    }
}

/// How the wait for the reply to the command goes on: it is over with a
/// result, or goes on. Where the connection itself is at fault, the code says
/// so.
pub open spec fn bidi_answer(x: Incoming, id: u64, method: Seq<char>) -> Option<
    Result<JsonView, ErrorView>,
> {
    match x {
        Incoming::Message { value } => if has_id(value@, id) {
            Some(bidi_reply(value@, method))
        } else {
            None
        },
        Incoming::Unreadable { error } => Some(
            Err(refused("Failed to parse BiDi response: "@ + error@)),
        ),
        Incoming::Other => None,
        Incoming::Closed => Some(Err(unreachable_browser("BiDi WebSocket closed unexpectedly"@))),
        Incoming::Failed { error } => Some(
            Err(unreachable_browser("BiDi WebSocket error: "@ + error@)),
        ),
        Incoming::TimedOut => Some(
            Err(unreachable_browser("Timed out waiting for BiDi response to "@ + method)),
        ),
    }
}

fn read_reply(m: &Json, method: &str) -> (r: Result<Json, McpError>)
    ensures
        result_view(r) == bidi_reply(m@, method@),
{
    let failed: bool = match m.get_str("type") {
        Some(t) => same(t.as_str(), "error"),
        None => false,
    };
    if failed {
        let mut e = join3("BiDi error (", method, "): ");
        e.append(m.str_or("message", "unknown").as_str());
        return Err(refusal(e.as_str()));
    }
    match m.get("result") {
        Some(v) => Ok(v.copy()),
        None => Ok(Json::empty()),
    }
}

/// How the wait for the reply to the command goes on.
pub fn await_reply(x: &Incoming, id: u64, method: &str) -> (r: Option<Result<Json, McpError>>)
    ensures
        reply_view(r) == bidi_answer(*x, id, method@),
{
    match x {
        Incoming::Message { value } => {
            if is_reply_to(value, id) {
                Some(read_reply(value, method))
            } else {
                None
            }
        },
        Incoming::Unreadable { error } => Some(
            Err(refusal(join2("Failed to parse BiDi response: ", error.as_str()).as_str())),
        ),
        Incoming::Other => None,
        Incoming::Closed => Some(Err(transport_error("BiDi WebSocket closed unexpectedly"))),
        Incoming::Failed { error } => Some(
            Err(transport_error(join2("BiDi WebSocket error: ", error.as_str()).as_str())),
        ),
        Incoming::TimedOut => Some(
            Err(
                transport_error(
                    join2("Timed out waiting for BiDi response to ", method).as_str(),
                ),
            ),
        ),
    }
}

/// What is said where a command could not be sent.
pub fn send_failed(error: &str) -> (r: McpError)
    ensures
        r@ == unreachable_browser("Failed to send BiDi command: "@ + error@),
{
    transport_error(join2("Failed to send BiDi command: ", error).as_str())
}

/// The message says that a page has loaded in the tab.
pub open spec fn tells_load(m: JsonView, context: Seq<char>) -> bool {
    m.field_str("method"@) == Some("browsingContext.load"@) && match m.field("params"@) {
        Some(p) => p.field_str("context"@) == Some(context),
        None => false,
    }
}

fn announces_load(m: &Json, context: &str) -> (r: bool)
    ensures
        r == tells_load(m@, context@),
{
    let event: bool = match m.get_str("method") {
        Some(t) => same(t.as_str(), "browsingContext.load"),
        None => false,
    };
    if !event {
        return false;
    }
    match m.get("params") {
        Some(p) => match p.get_str("context") {
            Some(c) => same(c.as_str(), context),
            None => false,
        },
        None => false,
    }
}

/// The wait for a page to load in the tab is over.
pub open spec fn load_wait_over(x: Incoming, context: Seq<char>) -> bool {
    match x {
        Incoming::Message { value } => tells_load(value@, context),
        Incoming::Unreadable { .. } => false,
        Incoming::Other => false,
        _ => true,
    }
}

/// Whether the wait for a page to load in the tab is over: the page has
/// loaded, the time is up, or nothing more will come.
pub fn bidi_wait_load(x: &Incoming, context: &str) -> (r: bool)
    ensures
        r == load_wait_over(*x, context@),
{
    match x {
        Incoming::Message { value } => announces_load(value, context),
        Incoming::Unreadable { error: _ } => false,
        Incoming::Other => false,
        _ => true,
    }
}

// ---------------------------------------------------------------------------
// Results
// ---------------------------------------------------------------------------

/// The result of a script in the form of the debugging protocol.
pub open spec fn as_cdp(r: JsonView) -> JsonView {
    if r.field_str("type"@) == Some("exception"@) {
        let text = match r.field("exceptionDetails"@) {
            Some(e) => match e.field_str("text"@) {
                Some(t) => t,
                None => "Evaluation exception"@,
            },
            None => "Evaluation exception"@,
        };
        JsonView::empty().with(
            "exceptionDetails"@,
            JsonView::empty().with("text"@, str_json(text)).with(
                "exception"@,
                JsonView::empty().with("description"@, str_json(text)),
            ),
        )
    } else {
        let value = match r.field("result"@) {
            Some(v) => match v.field("value"@) {
                Some(x) => x,
                None => JsonView::Null,
            },
            None => JsonView::Null,
        };
        let kind = match r.field("result"@) {
            Some(v) => match v.field("type"@) {
                Some(x) => x,
                None => str_json("undefined"@),
            },
            None => str_json("undefined"@),
        };
        JsonView::empty().with(
            "result"@,
            JsonView::empty().with("value"@, value).with("type"@, kind),
        )
    }
}

/// The result of a script in the form of the debugging protocol.
pub fn bidi_eval_to_cdp(r: &Json) -> (v: Json)
    ensures
        v@ == as_cdp(r@),
{
    let failed: bool = match r.get_str("type") {
        Some(t) => same(t.as_str(), "exception"),
        None => false,
    };
    if failed {
        let text = match r.get("exceptionDetails") {
            Some(e) => e.str_or("text", "Evaluation exception"),
            None => "Evaluation exception".to_owned(),
        };
        let inner = Json::empty().with("text", Json::text(text.as_str())).with(
            "exception",
            Json::empty().with("description", Json::text(text.as_str())),
        );
        return Json::empty().with("exceptionDetails", inner);
    }
    let value = match r.get("result") {
        Some(v) => match v.get("value") {
            Some(x) => x.copy(),
            None => Json::Null,
        },
        None => Json::Null,
    };
    let kind = match r.get("result") {
        Some(v) => match v.get("type") {
            Some(x) => x.copy(),
            None => Json::text("undefined"),
        },
        None => Json::text("undefined"),
    };
    Json::empty().with("result", Json::empty().with("value", value).with("type", kind))
}

/// A tab.
pub open spec fn tab(i: int, c: JsonView) -> JsonView {
    JsonView::empty().with("index"@, JsonView::from_uint(i as u64)).with(
        "context"@,
        str_json(text_in(c, "context"@)),
    ).with("url"@, str_json(text_in(c, "url"@)))
}

/// The text of a field; empty where there is none.
pub open spec fn text_in(v: JsonView, k: Seq<char>) -> Seq<char> {
    match v.field_str(k) {
        Some(t) => t,
        None => Seq::empty(),
    }
}

/// The tabs in the order of the browser.
pub open spec fn tabs_in(tree: JsonView) -> Seq<JsonView> {
    match tree.field_array("contexts"@) {
        Some(a) => Seq::new(a.len(), |i: int| tab(i, a[i])),
        None => Seq::empty(),
    }
}

/// The text of a field; empty where there is none.
pub fn text_of_field(v: &Json, k: &str) -> (r: String)
    ensures
        r@ == text_in(v@, k@),
{
    proof {
        reveal_strlit("");
        assert(""@ =~= Seq::<char>::empty());
    }
    v.str_or(k, "")
}

/// The tabs in the order of the browser.
pub fn bidi_list_contexts(tree: &Json) -> (r: Vec<Json>)
    ensures
        values(r@) == tabs_in(tree@),
{
    let mut out: Vec<Json> = Vec::new();
    assert(values(out@) =~= Seq::<JsonView>::empty());
    match tree.get_array("contexts") {
        Some(a) => {
            let ghost want = tabs_in(tree@);
            let ghost all = values(a@);
            let mut i: usize = 0;
            while i < a.len()
                invariant
                    i <= a@.len(),
                    all == values(a@),
                    want == Seq::new(all.len(), |i: int| tab(i, all[i])),
                    values(out@) =~= want.take(i as int),
                decreases a@.len() - i,
            {
                assert(all[i as int] == a@[i as int]@);
                let x = Json::empty().with("index", Json::from_uint(i as u64)).with(
                    "context",
                    Json::Str(text_of_field(&a[i], "context")),
                ).with("url", Json::Str(text_of_field(&a[i], "url")));
                proof {
                    lemma_values_push(out@, x);
                }
                out.push(x);
                i = i + 1;
            }
            assert(want.take(want.len() as int) =~= want);
        },
        None => {},
    }
    out
}

/// The first tab of a browser that has just been connected to.
pub open spec fn first_context(tree: JsonView) -> Result<Seq<char>, ErrorView> {
    let c = match tree.field("contexts"@) {
        Some(c) => match c.item(0) {
            Some(x) => x.field_str("context"@),
            None => None,
        },
        None => None,
    };
    match c {
        Some(t) => Ok(t),
        None => Err(refused("No browsing context found in Camoufox"@)),
    }
}

/// The first tab of a browser that has just been connected to.
pub fn connected_context(tree: &Json) -> (r: Result<String, McpError>)
    ensures
        crate::calls::text_result(r) == first_context(tree@),
{
    let c = match tree.get("contexts") {
        Some(c) => match c.item(0) {
            Some(x) => x.get_str("context"),
            None => None,
        },
        None => None,
    };
    match c {
        Some(t) => Ok(t.clone()),
        None => Err(refusal("No browsing context found in Camoufox")),
    }
}

/// What to do after attempt `attempt`, counted from zero, of twelve to
/// connect: try again in a second, or give up.
pub fn bidi_connect_failed(attempt: u32, error: &str) -> (r: Option<McpError>)
    ensures
        match r {
            None => attempt < 11,
            Some(e) => attempt >= 11 && e@ == unreachable_browser(
                "Failed to connect to Camoufox BiDi WebSocket: "@ + error@,
            ),
        },
{
    if attempt < 11 {
        None
    } else {
        let m = join2("Failed to connect to Camoufox BiDi WebSocket: ", error);
        Some(transport_error(m.as_str()))
    }
}

/// The address of a browser that speaks the other protocol.
pub fn session_url(port: u16) -> (r: String)
    ensures
        r@ == "ws://127.0.0.1:"@ + dec(port as nat) + "/session"@,
{
    join3("ws://127.0.0.1:", dec_u64(port as u64).as_str(), "/session")
}

// ---------------------------------------------------------------------------
// Carrying out an operation
// ---------------------------------------------------------------------------

/// How far an operation has come.
pub enum Stage {
    Start,
    /// The command that is the whole operation is out.
    Sent,
    /// The connection is being told to tell of loaded pages.
    Subscribing,
    /// The script has run; its page is loading.
    Loading { result: Json },
    /// The file input is being looked for.
    Finding,
    /// The new tab is being made.
    Creating,
    /// The tabs are being listed to switch to one.
    Choosing,
    /// The tab is being brought to the front.
    Activating { context: String },
    /// The tabs are being listed to close one.
    Picking,
    /// The tab is being closed.
    Closing,
    /// The tabs are being listed that are left.
    Remaining,
    Done,
}

pub enum StageView {
    Start,
    Sent,
    Subscribing,
    Loading { result: JsonView },
    Finding,
    Creating,
    Choosing,
    Activating { context: Seq<char> },
    Picking,
    Closing,
    Remaining,
    Done,
}

impl Stage {
    pub open spec fn view(&self) -> StageView {
        match self {
            Stage::Start => StageView::Start,
            Stage::Sent => StageView::Sent,
            Stage::Subscribing => StageView::Subscribing,
            Stage::Loading { result } => StageView::Loading { result: result@ },
            Stage::Finding => StageView::Finding,
            Stage::Creating => StageView::Creating,
            Stage::Choosing => StageView::Choosing,
            Stage::Activating { context } => StageView::Activating { context: context@ },
            Stage::Picking => StageView::Picking,
            Stage::Closing => StageView::Closing,
            Stage::Remaining => StageView::Remaining,
            Stage::Done => StageView::Done,
        }
    }
}

/// What to do next.
pub enum BidiAction {
    /// Send a command, and come back with its reply.
    Rpc { method: String, params: Json },
    /// Wait for the page to load, for so many seconds at most.
    WaitLoad { secs: u64 },
    Finish { result: Result<Json, McpError> },
}

pub enum BidiActionView {
    Rpc { method: Seq<char>, params: JsonView },
    WaitLoad { secs: u64 },
    Finish { result: Result<JsonView, ErrorView> },
}

impl BidiAction {
    pub open spec fn view(&self) -> BidiActionView {
        match self {
            BidiAction::Rpc { method, params } => BidiActionView::Rpc {
                method: method@,
                params: params@,
            },
            BidiAction::WaitLoad { secs } => BidiActionView::WaitLoad { secs: *secs },
            BidiAction::Finish { result } => BidiActionView::Finish {
                result: result_view(*result),
            },
        }
    }
}

/// An operation on a connection, under way.
pub struct OpRun {
    pub conn: BidiConn,
    pub op: BidiOp,
    pub stage: Stage,
}

pub struct OpRunView {
    pub conn: ConnView,
    pub op: OpView,
    pub stage: StageView,
}

impl OpRun {
    pub open spec fn view(&self) -> OpRunView {
        OpRunView { conn: self.conn@, op: self.op@, stage: self.stage@ }
    }
}

pub open spec fn target(context: Seq<char>) -> JsonView {
    JsonView::empty().with("context"@, str_json(context))
}

pub open spec fn eval_params(expression: Seq<char>, context: Seq<char>, wait: bool) -> JsonView {
    JsonView::empty().with("expression"@, str_json(expression)).with("target"@, target(context)).with(
        "awaitPromise"@,
        JsonView::Bool(wait),
    )
}

pub open spec fn navigate_params(context: Seq<char>, url: Seq<char>) -> JsonView {
    target(context).with("url"@, str_json(url)).with("wait"@, str_json("complete"@))
}

pub open spec fn capture_params(
    context: Seq<char>,
    format: Seq<char>,
    quality: Option<NumberView>,
    full_page: bool,
) -> JsonView {
    let kind = JsonView::empty().with("type"@, str_json("image/"@ + format));
    let shape = if format != "png"@ && quality is Some {
        kind.with("quality"@, JsonView::Number(quality->0))
    } else {
        kind
    };
    let p = target(context).with("format"@, shape);
    if full_page {
        p.with("origin"@, str_json("document"@))
    } else {
        p
    }
}

pub open spec fn keys_params(context: Seq<char>, actions: Seq<JsonView>) -> JsonView {
    target(context).with(
        "actions"@,
        JsonView::Array(
            seq![
                JsonView::empty().with("type"@, str_json("key"@)).with("id"@, str_json("kbd"@)).with(
                    "actions"@,
                    JsonView::Array(actions),
                ),
            ],
        ),
    )
}

/// A text for a place between double quotation marks in a script.
pub open spec fn escaped(s: Seq<char>) -> Seq<char> {
    replaced(replaced(s, '\\', "\\\\"@), '"', "\\\""@)
}

pub open spec fn find_params(context: Seq<char>, selector: Seq<char>) -> JsonView {
    eval_params("document.querySelector(\""@ + escaped(selector) + "\")"@, context, false).with(
        "resultOwnership"@,
        str_json("root"@),
    )
}

pub open spec fn files_params(context: Seq<char>, id: Seq<char>, files: Seq<Seq<char>>) -> JsonView {
    target(context).with("element"@, JsonView::empty().with("sharedId"@, str_json(id))).with(
        "files"@,
        JsonView::Array(files.map_values(|t: Seq<char>| JsonView::Str(t))),
    )
}

pub open spec fn measure_script() -> Seq<char> {
    "JSON.stringify({w: document.documentElement.scrollWidth, h: document.documentElement.scrollHeight})"@
}

/// The size of the page, given what the measurement reads as in JSON.
pub open spec fn measured(parsed: Result<JsonView, Seq<char>>) -> JsonView {
    let dims = match parsed {
        Ok(v) => v,
        Err(_) => JsonView::empty(),
    };
    JsonView::empty().with(
        "contentSize"@,
        JsonView::empty().with(
            "width"@,
            match dims.field("w"@) {
                Some(v) => v,
                None => JsonView::from_uint(1920),
            },
        ).with(
            "height"@,
            match dims.field("h"@) {
                Some(v) => v,
                None => JsonView::from_uint(1080),
            },
        ),
    )
}

/// The text that the measurement returned.
pub open spec fn measurement(r: JsonView) -> Seq<char> {
    match r.field("result"@) {
        Some(v) => match v.field_str("value"@) {
            Some(t) => t,
            None => "{}"@,
        },
        None => "{}"@,
    }
}

pub open spec fn shared_id(r: JsonView) -> Option<Seq<char>> {
    match r.field("result"@) {
        Some(v) => v.field_str("sharedId"@),
        None => None,
    }
}

pub open spec fn no_tab(index: u64) -> ErrorView {
    refused("No tab at index "@ + dec(index as nat))
}

pub open spec fn in_context(context: Seq<char>) -> JsonView {
    JsonView::empty().with("context"@, str_json(context))
}

impl OpRunView {
    pub open spec fn send(self, stage: StageView, method: Seq<char>, params: JsonView) -> (
        OpRunView,
        BidiActionView,
    ) {
        (OpRunView { stage, ..self }, BidiActionView::Rpc { method, params })
    }

    pub open spec fn end(self, result: Result<JsonView, ErrorView>) -> (OpRunView, BidiActionView) {
        (OpRunView { stage: StageView::Done, ..self }, BidiActionView::Finish { result })
    }

    pub open spec fn at(self, context: Seq<char>) -> OpRunView {
        OpRunView { conn: ConnView { context, ..self.conn }, ..self }
    }

    pub open spec fn run_script(self) -> (OpRunView, BidiActionView) {
        match self.op {
            OpView::Eval { expression, await_promise, .. } => self.send(
                StageView::Sent,
                "script.evaluate"@,
                eval_params(expression, self.conn.context, await_promise),
            ),
            _ => self.end(Ok(JsonView::empty())),
        }
    }

    /// The first command of an operation.
    pub open spec fn begin(self) -> (OpRunView, BidiActionView) {
        let ctx = self.conn.context;
        match self.op {
            OpView::Eval { wait_load, .. } => if wait_load && !self.conn.load_subscribed {
                self.send(
                    StageView::Subscribing,
                    "session.subscribe"@,
                    JsonView::empty().with(
                        "events"@,
                        JsonView::Array(seq![str_json("browsingContext.load"@)]),
                    ),
                )
            } else {
                self.run_script()
            },
            OpView::Navigate { url } => self.send(
                StageView::Sent,
                "browsingContext.navigate"@,
                navigate_params(ctx, url),
            ),
            OpView::Screenshot { format, quality, full_page } => self.send(
                StageView::Sent,
                "browsingContext.captureScreenshot"@,
                capture_params(ctx, format, quality, full_page),
            ),
            OpView::LayoutMetrics => self.send(
                StageView::Sent,
                "script.evaluate"@,
                eval_params(measure_script(), ctx, false),
            ),
            OpView::PerformKeys { actions } => self.send(
                StageView::Sent,
                "input.performActions"@,
                keys_params(ctx, actions),
            ),
            OpView::SetFiles { selector, .. } => self.send(
                StageView::Finding,
                "script.evaluate"@,
                find_params(ctx, selector),
            ),
            OpView::ListTabs => self.send(
                StageView::Sent,
                "browsingContext.getTree"@,
                JsonView::empty(),
            ),
            OpView::NewTab { .. } => self.send(
                StageView::Creating,
                "browsingContext.create"@,
                JsonView::empty().with("type"@, str_json("tab"@)),
            ),
            OpView::SwitchTab { .. } => self.send(
                StageView::Choosing,
                "browsingContext.getTree"@,
                JsonView::empty(),
            ),
            OpView::CloseTab { .. } => self.send(
                StageView::Picking,
                "browsingContext.getTree"@,
                JsonView::empty(),
            ),
        }
    }

    /// What the last reply of an operation means.
    pub open spec fn concluded(self, r: JsonView) -> (OpRunView, BidiActionView) {
        match self.op {
            OpView::Eval { wait_load, .. } => if wait_load {
                (
                    OpRunView { stage: StageView::Loading { result: r }, ..self },
                    BidiActionView::WaitLoad { secs: 30 },
                )
            } else {
                self.end(Ok(as_cdp(r)))
            },
            OpView::Screenshot { .. } => self.end(
                Ok(
                    JsonView::empty().with(
                        "data"@,
                        match r.field("data"@) {
                            Some(v) => v,
                            None => str_json(""@),
                        },
                    ),
                ),
            ),
            OpView::LayoutMetrics => self.end(Ok(measured(json_parsed(measurement(r))))),
            OpView::ListTabs => self.end(
                Ok(JsonView::empty().with("tabs"@, JsonView::Array(tabs_in(r)))),
            ),
            OpView::NewTab { .. } => self.end(Ok(in_context(self.conn.context))),
            _ => self.end(Ok(JsonView::empty())),
        }
    }

    /// What comes of a reply.
    pub open spec fn replied(self, r: JsonView) -> (OpRunView, BidiActionView) {
        match self.stage {
            StageView::Sent => self.concluded(r),
            StageView::Subscribing => OpRunView {
                conn: ConnView { load_subscribed: true, ..self.conn },
                ..self
            }.run_script(),
            StageView::Finding => match self.op {
                OpView::SetFiles { selector, files } => match shared_id(r) {
                    Some(id) => self.send(
                        StageView::Sent,
                        "input.setFiles"@,
                        files_params(self.conn.context, id, files),
                    ),
                    None => self.end(Err(refused("File input not found: "@ + selector))),
                },
                _ => self.end(Ok(JsonView::empty())),
            },
            StageView::Creating => match self.op {
                OpView::NewTab { url } => match r.field_str("context"@) {
                    Some(c) => if url.len() > 0 {
                        self.at(c).send(
                            StageView::Sent,
                            "browsingContext.navigate"@,
                            navigate_params(c, url),
                        )
                    } else {
                        self.at(c).end(Ok(in_context(c)))
                    },
                    None => self.end(
                        Err(refused("browsingContext.create returned no context"@)),
                    ),
                },
                _ => self.end(Ok(JsonView::empty())),
            },
            StageView::Choosing => match self.op {
                OpView::SwitchTab { index } => if index < tabs_in(r).len() {
                    let c = text_in(tabs_in(r)[index as int], "context"@);
                    self.send(
                        StageView::Activating { context: c },
                        "browsingContext.activate"@,
                        in_context(c),
                    )
                } else {
                    self.end(Err(no_tab(index)))
                },
                _ => self.end(Ok(JsonView::empty())),
            },
            StageView::Activating { context } => self.at(context).end(Ok(in_context(context))),
            StageView::Picking => match self.op {
                OpView::CloseTab { index } => if index < tabs_in(r).len() {
                    self.send(
                        StageView::Closing,
                        "browsingContext.close"@,
                        in_context(text_in(tabs_in(r)[index as int], "context"@)),
                    )
                } else {
                    self.end(Err(no_tab(index)))
                },
                _ => self.end(Ok(JsonView::empty())),
            },
            StageView::Closing => self.send(
                StageView::Remaining,
                "browsingContext.getTree"@,
                JsonView::empty(),
            ),
            StageView::Remaining => {
                let c = if tabs_in(r).len() > 0 {
                    text_in(tabs_in(r)[0], "context"@)
                } else {
                    Seq::empty()
                };
                self.at(c).end(Ok(in_context(c)))
            },
            _ => self.end(Ok(JsonView::empty())),
        }
    }

    /// What comes next, given what came back: a reply, a failure, or the end
    /// of the wait for a page.
    pub open spec fn step(self, ev: BidiEventView) -> (OpRunView, BidiActionView) {
        match ev {
            BidiEventView::Start => self.begin(),
            BidiEventView::Reply(Ok(r)) => self.replied(r),
            BidiEventView::Reply(Err(e)) => self.end(Err(e)),
            BidiEventView::Waited => match self.stage {
                StageView::Loading { result } => self.end(Ok(as_cdp(result))),
                _ => self.end(Ok(JsonView::empty())),
            },
        }
    }
}

/// What came back.
pub enum BidiEvent {
    Start,
    Reply(Result<Json, McpError>),
    /// The page has loaded, or the time is up.
    Waited,
}

pub enum BidiEventView {
    Start,
    Reply(Result<JsonView, ErrorView>),
    Waited,
}

impl BidiEvent {
    pub open spec fn view(&self) -> BidiEventView {
        match self {
            BidiEvent::Start => BidiEventView::Start,
            BidiEvent::Reply(r) => BidiEventView::Reply(result_view(*r)),
            BidiEvent::Waited => BidiEventView::Waited,
        }
    }
}

pub open spec fn op_seen(r: (OpRun, BidiAction)) -> (OpRunView, BidiActionView) {
    (r.0@, r.1@)
}

fn one_value(v: Json) -> (r: Json)
    ensures
        r@ == JsonView::Array(seq![v@]),
{
    let mut a: Vec<Json> = Vec::new();
    a.push(v);
    assert(values(a@) =~= seq![v@]);
    Json::Array(a)
}

fn target_json(context: &str) -> (r: Json)
    ensures
        r@ == target(context@),
{
    Json::empty().with("context", Json::text(context))
}

fn eval_json(expression: &str, context: &str, wait: bool) -> (r: Json)
    ensures
        r@ == eval_params(expression@, context@, wait),
{
    Json::empty().with("expression", Json::text(expression)).with("target", target_json(context)).with(
        "awaitPromise",
        Json::Bool(wait),
    )
}

fn navigate_json(context: &str, url: &str) -> (r: Json)
    ensures
        r@ == navigate_params(context@, url@),
{
    target_json(context).with("url", Json::text(url)).with("wait", Json::text("complete"))
}

fn capture_json(context: &str, format: &str, quality: &Option<Number>, full_page: bool) -> (r: Json)
    ensures
        r@ == capture_params(context@, format@, opt_number(*quality), full_page),
{
    let kind = Json::empty().with("type", Json::Str(join2("image/", format)));
    let shape = if same(format, "png") {
        kind
    } else {
        match quality {
            Some(q) => kind.with("quality", Json::Number(q.copy())),
            None => kind,
        }
    };
    let p = target_json(context).with("format", shape);
    if full_page {
        p.with("origin", Json::text("document"))
    } else {
        p
    }
}

fn keys_json(context: &str, actions: &Vec<Json>) -> (r: Json)
    ensures
        r@ == keys_params(context@, values(actions@)),
{
    let source = Json::empty().with("type", Json::text("key")).with("id", Json::text("kbd")).with(
        "actions",
        Json::Array(crate::json::copy_values(actions)),
    );
    target_json(context).with("actions", one_value(source))
}

fn escape(s: &str) -> (r: String)
    ensures
        r@ == escaped(s@),
{
    replace_char(replace_char(s, '\\', "\\\\").as_str(), '"', "\\\"")
}

fn find_json(context: &str, selector: &str) -> (r: Json)
    ensures
        r@ == find_params(context@, selector@),
{
    let script = join3("document.querySelector(\"", escape(selector).as_str(), "\")");
    eval_json(script.as_str(), context, false).with("resultOwnership", Json::text("root"))
}

/// The size of the page, given what the measurement reads as in JSON.
pub fn measured_json(parsed: Result<Json, String>) -> (r: Json)
    ensures
        r@ == measured(parsed_view(parsed)),
{
    let dims = match parsed {
        Ok(v) => v,
        Err(_) => Json::empty(),
    };
    let w = match dims.get("w") {
        Some(v) => v.copy(),
        None => Json::from_uint(1920),
    };
    let h = match dims.get("h") {
        Some(v) => v.copy(),
        None => Json::from_uint(1080),
    };
    Json::empty().with("contentSize", Json::empty().with("width", w).with("height", h))
}

fn measurement_text(r: &Json) -> (s: String)
    ensures
        s@ == measurement(r@),
{
    match r.get("result") {
        Some(v) => v.str_or("value", "{}"),
        None => "{}".to_owned(),
    }
}

pub fn no_tab_error(index: u64) -> (e: McpError)
    ensures
        e@ == no_tab(index),
{
    refusal(join2("No tab at index ", dec_u64(index).as_str()).as_str())
}

impl OpRun {
    /// An operation on a connection that has not begun.
    pub fn new(conn: BidiConn, op: BidiOp) -> (r: OpRun)
        ensures
            r@ == (OpRunView { conn: conn@, op: op@, stage: StageView::Start }),
    {
        OpRun { conn, op, stage: Stage::Start }
    }

    fn send(self, stage: Stage, method: &str, params: Json) -> (r: (OpRun, BidiAction))
        ensures
            op_seen(r) == self@.send(stage@, method@, params@),
    {
        let OpRun { conn, op, stage: _ } = self;
        (OpRun { conn, op, stage }, BidiAction::Rpc { method: method.to_owned(), params })
    }

    fn end(self, result: Result<Json, McpError>) -> (r: (OpRun, BidiAction))
        ensures
            op_seen(r) == self@.end(result_view(result)),
    {
        let OpRun { conn, op, stage: _ } = self;
        (OpRun { conn, op, stage: Stage::Done }, BidiAction::Finish { result })
    }

    fn at(self, context: String) -> (r: OpRun)
        ensures
            r@ == self@.at(context@),
    {
        let mut run = self;
        run.conn.context = context;
        run
    }

    fn run_script(self) -> (r: (OpRun, BidiAction))
        ensures
            op_seen(r) == self@.run_script(),
    {
        let params = match &self.op {
            BidiOp::Eval { expression, await_promise, wait_load: _ } => Some(
                eval_json(expression.as_str(), self.conn.context.as_str(), *await_promise),
            ),
            _ => None,
        };
        match params {
            Some(p) => self.send(Stage::Sent, "script.evaluate", p),
            None => self.end(Ok(Json::empty())),
        }
    }

    fn begin(self) -> (r: (OpRun, BidiAction))
        ensures
            op_seen(r) == self@.begin(),
    {
        let ctx = self.conn.context.clone();
        let mut params = Json::empty();
        let mut stage = Stage::Sent;
        let mut method: &str = "browsingContext.getTree";
        let mut script: bool = false;
        match &self.op {
            BidiOp::Eval { expression: _, await_promise: _, wait_load } => {
                if *wait_load && !self.conn.load_subscribed {
                    method = "session.subscribe";
                    stage = Stage::Subscribing;
                    params =
                    Json::empty().with("events", one_value(Json::text("browsingContext.load")));
                } else {
                    script = true;
                }
            },
            BidiOp::Navigate { url } => {
                method = "browsingContext.navigate";
                params = navigate_json(ctx.as_str(), url.as_str());
            },
            BidiOp::Screenshot { format, quality, full_page } => {
                method = "browsingContext.captureScreenshot";
                params = capture_json(ctx.as_str(), format.as_str(), quality, *full_page);
            },
            BidiOp::LayoutMetrics => {
                method = "script.evaluate";
                params =
                eval_json(
                    "JSON.stringify({w: document.documentElement.scrollWidth, h: document.documentElement.scrollHeight})",
                    ctx.as_str(),
                    false,
                );
            },
            BidiOp::PerformKeys { actions } => {
                method = "input.performActions";
                params = keys_json(ctx.as_str(), actions);
            },
            BidiOp::SetFiles { selector, files: _ } => {
                method = "script.evaluate";
                stage = Stage::Finding;
                params = find_json(ctx.as_str(), selector.as_str());
            },
            BidiOp::ListTabs => {},
            BidiOp::NewTab { url: _ } => {
                method = "browsingContext.create";
                stage = Stage::Creating;
                params = Json::empty().with("type", Json::text("tab"));
            },
            BidiOp::SwitchTab { index: _ } => {
                stage = Stage::Choosing;
            },
            BidiOp::CloseTab { index: _ } => {
                stage = Stage::Picking;
            },
        }
        if script {
            return self.run_script();
        }
        self.send(stage, method, params)
    }

    /// What the last reply means.
    fn concluded(self, r: Json) -> (s: (OpRun, BidiAction))
        ensures
            op_seen(s) == self@.concluded(r@),
    {
        let OpRun { conn, op, stage } = self;
        match op {
            BidiOp::Eval { expression, await_promise, wait_load } => {
                let op = BidiOp::Eval { expression, await_promise, wait_load };
                if wait_load {
                    return (
                        OpRun { conn, op, stage: Stage::Loading { result: r } },
                        BidiAction::WaitLoad { secs: 30 },
                    );
                }
                let v = bidi_eval_to_cdp(&r);
                OpRun { conn, op, stage }.end(Ok(v))
            },
            BidiOp::Screenshot { format, quality, full_page } => {
                let op = BidiOp::Screenshot { format, quality, full_page };
                let data = match r.get("data") {
                    Some(v) => v.copy(),
                    None => Json::text(""),
                };
                OpRun { conn, op, stage }.end(Ok(Json::empty().with("data", data)))
            },
            BidiOp::LayoutMetrics => {
                let parsed = parse_json_text(measurement_text(&r).as_str());
                let v = measured_json(parsed);
                OpRun { conn, op: BidiOp::LayoutMetrics, stage }.end(Ok(v))
            },
            BidiOp::ListTabs => {
                let tabs = bidi_list_contexts(&r);
                let v = Json::empty().with("tabs", Json::Array(tabs));
                OpRun { conn, op: BidiOp::ListTabs, stage }.end(Ok(v))
            },
            BidiOp::NewTab { url } => {
                let v = target_json(conn.context.as_str());
                OpRun { conn, op: BidiOp::NewTab { url }, stage }.end(Ok(v))
            },
            other => OpRun { conn, op: other, stage }.end(Ok(Json::empty())),
        }
    }

    fn replied(self, r: Json) -> (s: (OpRun, BidiAction))
        ensures
            op_seen(s) == self@.replied(r@),
    {
        let OpRun { conn, op, stage } = self;
        match stage {
            Stage::Sent => OpRun { conn, op, stage: Stage::Sent }.concluded(r),
            Stage::Subscribing => {
                let mut run = OpRun { conn, op, stage: Stage::Subscribing };
                run.conn.load_subscribed = true;
                run.run_script()
            },
            Stage::Finding => {
                let ctx = conn.context.clone();
                match op {
                    BidiOp::SetFiles { selector, files } => {
                        let id = match r.get("result") {
                            Some(v) => match v.get_str("sharedId") {
                                Some(t) => Some(t.clone()),
                                None => None,
                            },
                            None => None,
                        };
                        match id {
                            Some(id) => {
                                let params = target_json(ctx.as_str()).with(
                                    "element",
                                    Json::empty().with("sharedId", Json::Str(id)),
                                ).with("files", Json::text_array(&files));
                                OpRun {
                                    conn,
                                    op: BidiOp::SetFiles { selector, files },
                                    stage: Stage::Finding,
                                }.send(Stage::Sent, "input.setFiles", params)
                            },
                            None => {
                                let e = refusal(
                                    join2("File input not found: ", selector.as_str()).as_str(),
                                );
                                OpRun {
                                    conn,
                                    op: BidiOp::SetFiles { selector, files },
                                    stage: Stage::Finding,
                                }.end(Err(e))
                            },
                        }
                    },
                    other => OpRun { conn, op: other, stage: Stage::Finding }.end(
                        Ok(Json::empty()),
                    ),
                }
            },
            Stage::Creating => match op {
                BidiOp::NewTab { url } => {
                    let open: bool = !url.as_str().is_empty();
                    let address = url.clone();
                    let run = OpRun { conn, op: BidiOp::NewTab { url }, stage: Stage::Creating };
                    match r.get_str("context") {
                        Some(c) => {
                            let moved = run.at(c.clone());
                            if open {
                                moved.send(
                                    Stage::Sent,
                                    "browsingContext.navigate",
                                    navigate_json(c.as_str(), address.as_str()),
                                )
                            } else {
                                moved.end(Ok(target_json(c.as_str())))
                            }
                        },
                        None => run.end(
                            Err(refusal("browsingContext.create returned no context")),
                        ),
                    }
                },
                other => OpRun { conn, op: other, stage: Stage::Creating }.end(Ok(Json::empty())),
            },
            Stage::Choosing => match op {
                BidiOp::SwitchTab { index } => {
                    let run = OpRun {
                        conn,
                        op: BidiOp::SwitchTab { index },
                        stage: Stage::Choosing,
                    };
                    let tabs = bidi_list_contexts(&r);
                    assert(values(tabs@).len() == tabs@.len());
                    if index < tabs.len() as u64 {
                        assert(values(tabs@)[index as int] == tabs@[index as int]@);
                        let c = text_of_field(&tabs[index as usize], "context");
                        let params = target_json(c.as_str());
                        run.send(
                            Stage::Activating { context: c },
                            "browsingContext.activate",
                            params,
                        )
                    } else {
                        run.end(Err(no_tab_error(index)))
                    }
                },
                other => OpRun { conn, op: other, stage: Stage::Choosing }.end(Ok(Json::empty())),
            },
            Stage::Activating { context } => {
                let v = target_json(context.as_str());
                OpRun { conn, op, stage: Stage::Choosing }.at(context).end(Ok(v))
            },
            Stage::Picking => match op {
                BidiOp::CloseTab { index } => {
                    let run = OpRun { conn, op: BidiOp::CloseTab { index }, stage: Stage::Picking };
                    let tabs = bidi_list_contexts(&r);
                    assert(values(tabs@).len() == tabs@.len());
                    if index < tabs.len() as u64 {
                        assert(values(tabs@)[index as int] == tabs@[index as int]@);
                        let c = text_of_field(&tabs[index as usize], "context");
                        run.send(
                            Stage::Closing,
                            "browsingContext.close",
                            target_json(c.as_str()),
                        )
                    } else {
                        run.end(Err(no_tab_error(index)))
                    }
                },
                other => OpRun { conn, op: other, stage: Stage::Picking }.end(Ok(Json::empty())),
            },
            Stage::Closing => OpRun { conn, op, stage: Stage::Closing }.send(
                Stage::Remaining,
                "browsingContext.getTree",
                Json::empty(),
            ),
            Stage::Remaining => {
                let tabs = bidi_list_contexts(&r);
                assert(values(tabs@).len() == tabs@.len());
                let c = if tabs.len() > 0 {
                    assert(values(tabs@)[0] == tabs@[0]@);
                    text_of_field(&tabs[0], "context")
                } else {
                    let none = String::new();
                    assert(none@ =~= Seq::<char>::empty());
                    none
                };
                let v = target_json(c.as_str());
                OpRun { conn, op, stage: Stage::Remaining }.at(c).end(Ok(v))
            },
            other => OpRun { conn, op, stage: other }.end(Ok(Json::empty())),
        }
    }

    /// The next step of an operation.
    pub fn bidi_run_op(self, ev: BidiEvent) -> (r: (OpRun, BidiAction))
        ensures
            op_seen(r) == self@.step(ev@),
    {
        match ev {
            BidiEvent::Start => self.begin(),
            BidiEvent::Reply(Ok(r)) => self.replied(r),
            BidiEvent::Reply(Err(e)) => self.end(Err(e)),
            BidiEvent::Waited => {
                let OpRun { conn, op, stage } = self;
                match stage {
                    Stage::Loading { result } => {
                        let v = bidi_eval_to_cdp(&result);
                        OpRun { conn, op, stage: Stage::Start }.end(Ok(v))
                    },
                    other => OpRun { conn, op, stage: other }.end(Ok(Json::empty())),
                }
            },
        }
    }
}

// ---------------------------------------------------------------------------
// Reconnecting
// ---------------------------------------------------------------------------

/// What to do next with an operation on a pooled connection.
#[derive(Debug, PartialEq, Eq)]
pub enum Exec {
    /// Open a connection, in the place of the one that may be there.
    Connect,
    /// Carry the operation out.
    Run,
    Finish { result: Result<Json, McpError> },
}

pub enum ExecView {
    Connect,
    Run,
    Finish { result: Result<JsonView, ErrorView> },
}

impl Exec {
    pub open spec fn view(&self) -> ExecView {
        match self {
            Exec::Connect => ExecView::Connect,
            Exec::Run => ExecView::Run,
            Exec::Finish { result } => ExecView::Finish { result: result_view(*result) },
        }
    }
}

/// Whether the connection is at fault.
pub open spec fn at_fault(e: ErrorView) -> bool {
    e.code == -32099
}

/// After the operation has been carried out or not: a connection that is at
/// fault is replaced once.
pub open spec fn after_run(second: bool, r: Result<JsonView, ErrorView>) -> ExecView {
    match r {
        Err(e) => if at_fault(e) && !second {
            ExecView::Connect
        } else {
            ExecView::Finish { result: Err(e) }
        },
        Ok(v) => ExecView::Finish { result: Ok(v) },
    }
}

/// What to do after the operation was carried out, for the first or for the
/// second time.
pub fn bidi_exec(second: bool, r: Result<Json, McpError>) -> (s: Exec)
    ensures
        s@ == after_run(second, result_view(r)),
{
    match r {
        Err(e) => {
            if e.code == -32099 && !second {
                Exec::Connect
            } else {
                Exec::Finish { result: Err(e) }
            }
        },
        Ok(v) => Exec::Finish { result: Ok(v) },
    }
}

/// What to do after an attempt to connect: where it failed for the first
/// time because the browser could not be reached, it is made once more.
pub open spec fn after_connect(second: bool, failed: Option<ErrorView>) -> ExecView {
    match failed {
        Some(e) => after_run(second, Err(e)),
        None => ExecView::Run,
    }
}

/// What to do after an attempt to connect.
pub fn bidi_connected(second: bool, failed: Option<McpError>) -> (s: Exec)
    ensures
        s@ == after_connect(second, crate::protocol::opt_error(failed)),
{
    match failed {
        Some(e) => bidi_exec(second, Err(e)),
        None => Exec::Run,
    }
}

/// The second time, the operation is over whatever came of it.
pub proof fn lemma_reconnects_once(r: Result<JsonView, ErrorView>, failed: Option<ErrorView>)
    ensures
        after_run(true, r) is Finish,
        failed is Some ==> after_connect(true, failed) is Finish,
        after_run(false, r) is Connect ==> r is Err && at_fault(r->Err_0),
{
}

// ---------------------------------------------------------------------------
// Commands of the debugging protocol
// ---------------------------------------------------------------------------

pub open spec fn not_bridged(method: Seq<char>) -> ErrorView {
    refused("Camoufox automation: CDP method '"@ + method + "' is not yet bridged to BiDi"@)
}

pub open spec fn eval_op(params: JsonView, wait_load: bool) -> OpView {
    OpView::Eval {
        expression: text_in(params, "expression"@),
        await_promise: match params.field_bool("awaitPromise"@) {
            Some(b) => b,
            None => false,
        },
        wait_load,
    }
}

/// The operation that a command of the debugging protocol stands for. The
/// quality of a picture, where the command gives one, comes as a fraction.
pub open spec fn bridged(method: Seq<char>, params: JsonView, quality: Option<NumberView>) -> Result<
    OpView,
    ErrorView,
> {
    if method == "Runtime.evaluate"@ {
        Ok(eval_op(params, false))
    } else if method == "Page.captureScreenshot"@ {
        Ok(
            OpView::Screenshot {
                format: match params.field_str("format"@) {
                    Some(f) => f,
                    None => "png"@,
                },
                quality: if params.field_int("quality"@) is Some {
                    quality
                } else {
                    None
                },
                full_page: match params.field_bool("captureBeyondViewport"@) {
                    Some(b) => b,
                    None => false,
                },
            },
        )
    } else if method == "Page.getLayoutMetrics"@ {
        Ok(OpView::LayoutMetrics)
    } else if method == "Input.insertText"@ {
        let text = text_in(params, "text"@);
        Ok(OpView::PerformKeys { actions: bidi_insert(text, text.len() as int) })
    } else {
        Err(not_bridged(method))
    }
}

/// The operation that a command stands for after which a page may load.
pub open spec fn bridged_wait(method: Seq<char>, params: JsonView) -> Result<OpView, ErrorView> {
    if method == "Page.navigate"@ {
        Ok(
            OpView::Navigate {
                url: match params.field_str("url"@) {
                    Some(u) => u,
                    None => "about:blank"@,
                },
            },
        )
    } else if method == "Runtime.evaluate"@ {
        Ok(eval_op(params, true))
    } else {
        Err(not_bridged(method))
    }
}

pub open spec fn op_result(r: Result<BidiOp, McpError>) -> Result<OpView, ErrorView> {
    match r {
        Ok(o) => Ok(o@),
        Err(e) => Err(e@),
    }
}

fn make_eval(params: &Json, wait_load: bool) -> (r: BidiOp)
    ensures
        r@ == eval_op(params@, wait_load),
{
    BidiOp::Eval {
        expression: text_of_field(params, "expression"),
        await_promise: match params.get_bool("awaitPromise") {
            Some(b) => b,
            None => false,
        },
        wait_load,
    }
}

fn unbridged(method: &str) -> (e: McpError)
    ensures
        e@ == not_bridged(method@),
{
    let m = join3(
        "Camoufox automation: CDP method '",
        method,
        "' is not yet bridged to BiDi",
    );
    refusal(m.as_str())
}

/// The operation that a command of the debugging protocol stands for.
pub fn send_bidi(method: &str, params: &Json, quality: Option<Number>) -> (r: Result<BidiOp, McpError>)
    ensures
        op_result(r) == bridged(method@, params@, opt_number(quality)),
{
    if same(method, "Runtime.evaluate") {
        return Ok(make_eval(params, false));
    }
    if same(method, "Page.captureScreenshot") {
        let fraction = if params.get_i64("quality").is_some() {
            quality
        } else {
            None
        };
        return Ok(
            BidiOp::Screenshot {
                format: params.str_or("format", "png"),
                quality: fraction,
                full_page: match params.get_bool("captureBeyondViewport") {
                    Some(b) => b,
                    None => false,
                },
            },
        );
    }
    if same(method, "Page.getLayoutMetrics") {
        return Ok(BidiOp::LayoutMetrics);
    }
    if same(method, "Input.insertText") {
        let text = text_of_field(params, "text");
        return Ok(BidiOp::PerformKeys { actions: insert_actions(text.as_str()) });
    }
    Err(unbridged(method))
}

/// The operation that a command stands for after which a page may load.
pub fn send_bidi_wait(method: &str, params: &Json) -> (r: Result<BidiOp, McpError>)
    ensures
        op_result(r) == bridged_wait(method@, params@),
{
    if same(method, "Page.navigate") {
        return Ok(BidiOp::Navigate { url: params.str_or("url", "about:blank") });
    }
    if same(method, "Runtime.evaluate") {
        return Ok(make_eval(params, true));
    }
    Err(unbridged(method))
}

// ---------------------------------------------------------------------------
// Laws
// ---------------------------------------------------------------------------

/// A failure ends an operation at once and is handed on as it is; the active
/// tab stays the one that it was.
pub proof fn lemma_failure_ends(s: OpRunView, e: ErrorView)
    ensures
        s.step(BidiEventView::Reply(Err(e))).1 == (BidiActionView::Finish { result: Err(e) }),
        s.step(BidiEventView::Reply(Err(e))).0.conn == s.conn,
{
}

/// Switching to a tab that is there makes it the active one.
pub proof fn lemma_switched(conn: ConnView, index: u64, tree: JsonView, done: JsonView)
    requires
        index < tabs_in(tree).len(),
    ensures
        ({
            let s = OpRunView {
                conn,
                op: OpView::SwitchTab { index },
                stage: StageView::Start,
            };
            let a = s.step(BidiEventView::Start).0;
            let b = a.step(BidiEventView::Reply(Ok(tree))).0;
            let (c, last) = b.step(BidiEventView::Reply(Ok(done)));
            &&& c.conn.context == text_in(tabs_in(tree)[index as int], "context"@)
            &&& last == (BidiActionView::Finish { result: Ok(in_context(c.conn.context)) })
        }),
{
}

/// After a tab has been closed, the first of those that are left is active.
pub proof fn lemma_closed(
    conn: ConnView,
    index: u64,
    tree: JsonView,
    done: JsonView,
    left: JsonView,
)
    requires
        index < tabs_in(tree).len(),
        tabs_in(left).len() > 0,
    ensures
        ({
            let s = OpRunView {
                conn,
                op: OpView::CloseTab { index },
                stage: StageView::Start,
            };
            let a = s.step(BidiEventView::Start).0;
            let b = a.step(BidiEventView::Reply(Ok(tree))).0;
            let c = b.step(BidiEventView::Reply(Ok(done))).0;
            let (d, last) = c.step(BidiEventView::Reply(Ok(left)));
            &&& d.conn.context == text_in(tabs_in(left)[0], "context"@)
            &&& last is Finish
        }),
{
}

} // verus!
