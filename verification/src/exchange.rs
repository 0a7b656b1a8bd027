//! What goes over the wire: who is let in, how a request is answered, which message
//! answers which command, and what each operation sends.
use vstd::prelude::*;

use crate::bidi::{
    as_cdp, bidi_answer, bridged, bridged_wait, tabs_in, BidiActionView, BidiEventView, OpRunView,
    OpView,
};
use crate::cdp::{cdp_reply, load_start, load_step, Incoming, LoadActionView, LoadView};
use crate::json::{lemma_with_field, lemma_with_object};
use crate::keys::command;
use crate::map::{lemma_lookup_put, lookup};
use crate::protocol::{
    admitted, posted, response, routed, ErrorView, PostedView, RequestView, RoutedView,
};
use crate::text::contains;
use crate::value::{JsonView, NumberView};

verus! {

proof fn lemma_wire_keys()
    ensures
        "id"@.len() == 2,
        "method"@.len() == 6 && "method"@[0] == 'm',
        "params"@.len() == 6 && "params"@[0] == 'p',
        "target"@.len() == 6 && "target"@[0] == 't',
        "expression"@.len() == 10,
        "awaitPromise"@.len() == 12,
        "context"@.len() == 7 && "context"@[0] == 'c',
        "actions"@.len() == 7 && "actions"@[0] == 'a',
        "element"@.len() == 7 && "element"@[0] == 'e',
        "url"@.len() == 3,
        "wait"@.len() == 4 && "wait"@[0] == 'w',
        "type"@.len() == 4 && "type"@[0] == 't',
        "text"@.len() == 4 && "text"@[2] == 'x',
        "type"@[2] == 'p',
        "format"@.len() == 6 && "format"@[0] == 'f',
        "origin"@.len() == 6 && "origin"@[0] == 'o',
        "result"@.len() == 6 && "result"@[0] == 'r',
        "quality"@.len() == 7 && "quality"@[0] == 'q',
        "files"@.len() == 5 && "files"@[0] == 'f',
        "value"@.len() == 5 && "value"@[0] == 'v',
        "index"@.len() == 5 && "index"@[0] == 'i',
        "sharedId"@.len() == 8,
        "exceptionDetails"@.len() == 16,
        "exception"@.len() == 9,
        "name"@.len() == 4 && "name"@[0] == 'n',
        "version"@.len() == 7 && "version"@[0] == 'v',
        "protocolVersion"@.len() == 15,
        "capabilities"@.len() == 12,
        "serverInfo"@.len() == 10 && "serverInfo"@[0] == 's',
        "instructions"@.len() == 12 && "instructions"@[0] == 'i',
        "capabilities"@[0] == 'c',
{
    reveal_strlit("id");
    reveal_strlit("method");
    reveal_strlit("params");
    reveal_strlit("target");
    reveal_strlit("expression");
    reveal_strlit("awaitPromise");
    reveal_strlit("context");
    reveal_strlit("actions");
    reveal_strlit("element");
    reveal_strlit("url");
    reveal_strlit("wait");
    reveal_strlit("type");
    reveal_strlit("text");
    reveal_strlit("format");
    reveal_strlit("origin");
    reveal_strlit("result");
    reveal_strlit("quality");
    reveal_strlit("files");
    reveal_strlit("value");
    reveal_strlit("index");
    reveal_strlit("sharedId");
    reveal_strlit("exceptionDetails");
    reveal_strlit("exception");
    reveal_strlit("name");
    reveal_strlit("version");
    reveal_strlit("protocolVersion");
    reveal_strlit("capabilities");
    reveal_strlit("serverInfo");
    reveal_strlit("instructions");
}

// ---------------------------------------------------------------------------
// The server
// ---------------------------------------------------------------------------

/// Who has the token gets in, with the token in the path or in the header; and
/// everyone may ask after the health of the server.
pub proof fn lemma_token_gets_in(path: Seq<char>, header: Option<Seq<char>>, token: Seq<char>)
    requires
        token.len() > 0,
        !contains(token, "/"@),
    ensures
        admitted("/mcp/"@ + token, header, token),
        admitted(path, Some("Bearer "@ + token), token),
        admitted("/health"@, header, token),
{
    let p = "/mcp/"@ + token;
    assert(p.subrange(0, "/mcp/"@.len() as int) =~= "/mcp/"@);
    assert(p.skip("/mcp/"@.len() as int) =~= token);
    let h = "Bearer "@ + token;
    assert(h.subrange(0, "Bearer "@.len() as int) =~= "Bearer "@);
    assert(h.skip("Bearer "@.len() as int) =~= token);
}

proof fn lemma_methods()
    ensures
        "initialize"@.len() == 10 && "initialize"@[0] == 'i',
        "ping"@.len() == 4,
        "tools/list"@.len() == 10 && "tools/list"@[6] == 'l' && "tools/list"@[0] == 't',
        "tools/call"@.len() == 10 && "tools/call"@[6] == 'c' && "tools/call"@[0] == 't',
        "notifications/initialized"@.len() == 25,
{
    reveal_strlit("initialize");
    reveal_strlit("ping");
    reveal_strlit("tools/list");
    reveal_strlit("tools/call");
    reveal_strlit("notifications/initialized");
}

/// A server that runs answers a ping, lists its tools, and calls the tool that is
/// named with the arguments that were given, or with none; each answer goes to the
/// request that was made. A method that there is not is refused, and a server that
/// does not run refuses everything.
pub proof fn lemma_requests_routed(
    r: RequestView,
    id: JsonView,
    p: JsonView,
    name: Seq<char>,
    arguments: JsonView,
)
    requires
        r.id == Some(id),
    ensures
        r.method == "ping"@ ==> (routed(true, r) matches RoutedView::Reply { body } && body.id == Some(id)
            && body.error is None && body.result is Some),
        r.method == "tools/list"@ ==> routed(true, r) == (RoutedView::List { id }),
        r.method == "tools/call"@ && r.params == Some(p) && p.field_str("name"@) == Some(name)
            && p.field("arguments"@) == Some(arguments) ==> routed(true, r) == (RoutedView::Call {
            id,
            name,
            arguments,
        }),
        r.method == "tools/call"@ && r.params == Some(p) && p.field_str("name"@) == Some(name)
            && p.field("arguments"@) is None ==> routed(true, r) == (RoutedView::Call {
            id,
            name,
            arguments: JsonView::empty(),
        }),
        r.method == "tools/call"@ && (r.params is None || (r.params->0).field_str("name"@) is None)
            ==> (routed(true, r) matches RoutedView::Reply { body } && body.id == Some(id)
            && body.error is Some && (body.error->0).code == -32602 && body.result is None),
        r.method != "ping"@ && r.method != "tools/list"@ && r.method != "tools/call"@ ==> (routed(
            true,
            r,
        ) matches RoutedView::Reply { body } && body.id == Some(id) && body.error is Some && (
        body.error->0).code == -32601 && body.result is None),
        routed(false, r) matches RoutedView::Reply { body } && body.id == Some(id) && body.error is Some
            && (body.error->0).code == -32001 && body.result is None,
{
    lemma_methods();
}

/// A client that introduces itself to a server that runs gets a session, which is
/// not initialized yet, and the name and the version of the server; what says that
/// it is initialized changes that session alone. A message that is not answered
/// begins nothing.
pub proof fn lemma_posts(
    sessions: Seq<(Seq<char>, bool)>,
    session: Seq<char>,
    r: RequestView,
    version: Seq<char>,
    new_id: Seq<char>,
    other: Seq<char>,
)
    ensures
        r.method == "initialize"@ ==> ({
            let (a, after) = posted(true, sessions, None, Some(r), version, new_id);
            &&& a matches PostedView::Session { id, body } && id == new_id && body.error is None
                && body.result is Some && (body.result->0).field("serverInfo"@) is Some && ((
            body.result->0).field("serverInfo"@)->0).field_str("version"@) == Some(version)
            &&& lookup(after, new_id) == Some(false)
            &&& other != new_id ==> lookup(after, other) == lookup(sessions, other)
        }),
        r.method == "initialize"@ ==> posted(false, sessions, None, Some(r), version, new_id).1
            == sessions && posted(false, sessions, None, Some(r), version, new_id).0 is Body,
        r.method == "notifications/initialized"@ && r.id is None && lookup(sessions, session)
            is Some ==> ({
            let (a, after) = posted(true, sessions, Some(session), Some(r), version, new_id);
            &&& a is Accepted
            &&& lookup(after, session) == Some(true)
            &&& other != session ==> lookup(after, other) == lookup(sessions, other)
        }),
        r.method != "initialize"@ && r.id is Some ==> posted(
            true,
            sessions,
            None,
            Some(r),
            version,
            new_id,
        ) == (PostedView::Handle { request: r }, sessions),
        posted(true, sessions, None, None, version, new_id).0 is BadRequest,
{
    broadcast use {lemma_with_field, lemma_with_object};

    lemma_methods();
    lemma_wire_keys();
    lemma_lookup_put(sessions, new_id, false, other);
    lemma_lookup_put(sessions, session, true, other);
}

/// An answer is a result or an error, never both, under the id of the request.
pub proof fn lemma_response(id: JsonView, v: JsonView, e: ErrorView)
    ensures
        response(id, Ok(v)).id == Some(id),
        response(id, Ok(v)).result == Some(v),
        response(id, Ok(v)).error is None,
        response(id, Err(e)).id == Some(id),
        response(id, Err(e)).result is None,
        response(id, Err(e)).error == Some(e),
{
}

// ---------------------------------------------------------------------------
// The debugging protocol
// ---------------------------------------------------------------------------

/// A command is sent under its number, and the reply is the message of that number:
/// its result, or its error. Messages of other numbers are passed over.
pub proof fn lemma_replies_match(m: crate::value::Json, id: u64, other: u64, r: JsonView, method: Seq<char>)
    ensures
        m@.field("id"@) == Some(JsonView::from_uint(id)) && m@.field("error"@) is None && m@.field(
            "result"@,
        ) == Some(r) ==> cdp_reply(Incoming::Message { value: m }, id) == Some(
            Ok::<JsonView, ErrorView>(r),
        ),
        m@.field("id"@) == Some(JsonView::from_uint(id)) && m@.field("error"@) is Some ==> cdp_reply(
            Incoming::Message { value: m },
            id,
        ) matches Some(Err(_)),
        m@.field("id"@) == Some(JsonView::from_uint(id)) && other != id ==> cdp_reply(
            Incoming::Message { value: m },
            other,
        ) is None,
        m@.field("id"@) is None ==> cdp_reply(Incoming::Message { value: m }, id) is None,
        cdp_reply(Incoming::Closed, id) matches Some(Err(_)),
        m@.field("id"@) == Some(JsonView::from_uint(id)) && m@.field_str("type"@) != Some("error"@)
            && m@.field("result"@) == Some(r) ==> bidi_answer(
            Incoming::Message { value: m },
            id,
            method,
        ) == Some(Ok::<JsonView, ErrorView>(r)),
        m@.field("id"@) == Some(JsonView::from_uint(id)) && m@.field_str("type"@) == Some("error"@)
            ==> bidi_answer(Incoming::Message { value: m }, id, method) matches Some(Err(_)),
        m@.field("id"@) == Some(JsonView::from_uint(id)) && other != id ==> bidi_answer(
            Incoming::Message { value: m },
            other,
            method,
        ) is None,
{
}

/// A command holds its number, its method and its parameters.
pub proof fn lemma_command(id: u64, method: Seq<char>, params: JsonView)
    ensures
        command(id, method, params).field_uint("id"@) == Some(id),
        command(id, method, params).field_str("method"@) == Some(method),
        command(id, method, params).field("params"@) == Some(params),
{
    broadcast use {lemma_with_field, lemma_with_object};

    lemma_wire_keys();
}

/// A command after which a page is waited for goes out once the events of the page
/// are switched on. It is over when the page has loaded, with the result that came
/// for the command, or when the command fails; a message of another number, or no
/// event of a load, ends nothing.
pub proof fn lemma_load_waited_for(
    method: Seq<char>,
    params: JsonView,
    on: crate::value::Json,
    m: crate::value::Json,
    r: JsonView,
    loaded: crate::value::Json,
)
    requires
        on@.field("id"@) == Some(JsonView::from_uint(1)),
        m@.field("id"@) == Some(JsonView::from_uint(2)),
        m@.field("error"@) is None,
        m@.field("result"@) == Some(r),
        m@.field_str("method"@) != Some("Page.loadEventFired"@),
        loaded@.field("id"@) is None,
        loaded@.field_str("method"@) == Some("Page.loadEventFired"@),
    ensures
        ({
            let (s0, a0) = load_start(method, params);
            let (s1, a1) = load_step(s0, Incoming::Message { value: on });
            let (s2, a2) = load_step(s1, Incoming::Message { value: m });
            let (s3, a3) = load_step(s2, Incoming::Message { value: loaded });
            &&& a0 matches LoadActionView::Send { command: c } && c.field_str("method"@) == Some(
                "Page.enable"@,
            )
            &&& a1 matches LoadActionView::Send { command: c } && c.field_str("method"@) == Some(
                method,
            ) && c.field("params"@) == Some(params) && c.field_uint("id"@) == Some(2u64)
            &&& a2 is Receive
            &&& a3 matches LoadActionView::Finish { last, result } && result == Ok::<
                JsonView,
                ErrorView,
            >(r)
            &&& s3 is Done
        }),
{
    broadcast use {lemma_with_field, lemma_with_object};

    lemma_wire_keys();
}

/// A command that fails ends the wait for the page with its error; a wait that takes
/// too long ends with the result where it has come, and with an error where not.
pub proof fn lemma_load_ends(m: crate::value::Json, r: JsonView, result: Option<JsonView>)
    requires
        m@.field("id"@) == Some(JsonView::from_uint(2)),
        m@.field("error"@) is Some,
    ensures
        load_step(LoadView::Loading { result }, Incoming::Message { value: m }).1 matches
            LoadActionView::Finish { result: Err(_), .. },
        load_step(LoadView::Loading { result: Some(r) }, Incoming::TimedOut).1 matches
            LoadActionView::Finish { result: Ok(v), .. } && v == r,
        load_step(LoadView::Loading { result: None }, Incoming::TimedOut).1 matches
            LoadActionView::Finish { result: Err(_), .. },
{
}

// ---------------------------------------------------------------------------
// The other protocol
// ---------------------------------------------------------------------------

/// Navigating, running a script, taking a picture and pressing keys are each one
/// command to the tab at hand, with what the operation was given.
pub proof fn lemma_operations(
    s: OpRunView,
    t: Seq<char>,
    wait: bool,
    quality: NumberView,
    full: bool,
    actions: Seq<JsonView>,
)
    ensures
        s.op == (OpView::Navigate { url: t }) ==> (s.step(BidiEventView::Start).1 matches
            BidiActionView::Rpc { method, params } && method == "browsingContext.navigate"@
            && params.field_str("context"@) == Some(s.conn.context) && params.field_str("url"@)
            == Some(t) && params.field_str("wait"@) == Some("complete"@)),
        s.op == (OpView::Eval { expression: t, await_promise: wait, wait_load: false }) ==> (s.step(
            BidiEventView::Start,
        ).1 matches BidiActionView::Rpc { method, params } && method == "script.evaluate"@
            && params.field_str("expression"@) == Some(t) && params.field_bool("awaitPromise"@)
            == Some(wait) && params.field("target"@) is Some && (params.field(
            "target"@,
        )->0).field_str("context"@) == Some(s.conn.context)),
        s.op == (OpView::Screenshot { format: t, quality: Some(quality), full_page: full }) ==> (
        s.step(BidiEventView::Start).1 matches BidiActionView::Rpc { method, params } && method
            == "browsingContext.captureScreenshot"@ && params.field_str("context"@) == Some(
            s.conn.context,
        ) && params.field("format"@) is Some && (params.field("format"@)->0).field_str("type"@)
            == Some("image/"@ + t) && (t != "png"@ ==> (params.field("format"@)->0).field(
            "quality"@,
        ) == Some(JsonView::Number(quality))) && (full <==> params.field("origin"@) is Some)),
        s.op == (OpView::PerformKeys { actions }) ==> (s.step(BidiEventView::Start).1 matches
            BidiActionView::Rpc { method, params } && method == "input.performActions"@
            && params.field_str("context"@) == Some(s.conn.context) && (params.field_array(
            "actions"@,
        ) matches Some(groups) && groups.len() == 1 && groups[0].field_array("actions"@) == Some(
            actions,
        ) && groups[0].field_str("type"@) == Some("key"@))),
{
    broadcast use {lemma_with_field, lemma_with_object};

    lemma_wire_keys();
}

/// A new tab is made, becomes the one at hand, and is sent to the address that was
/// given, where one was.
pub proof fn lemma_new_tab(s: OpRunView, url: Seq<char>, r: JsonView, c: Seq<char>)
    requires
        s.op == (OpView::NewTab { url }),
        r.field_str("context"@) == Some(c),
    ensures
        ({
            let (t, a) = s.step(BidiEventView::Start);
            let (u, b) = t.step(BidiEventView::Reply(Ok(r)));
            &&& a matches BidiActionView::Rpc { method, params } && method
                == "browsingContext.create"@
            &&& u.conn.context == c
            &&& url.len() > 0 ==> (b matches BidiActionView::Rpc { method, params } && method
                == "browsingContext.navigate"@ && params.field_str("context"@) == Some(c)
                && params.field_str("url"@) == Some(url))
            &&& url.len() == 0 ==> (b matches BidiActionView::Finish { result } && result is Ok)
        }),
{
    broadcast use {lemma_with_field, lemma_with_object};

    lemma_wire_keys();
}

/// Switching and closing act on the tab of that number, in the order of the browser;
/// where there is none, nothing is sent.
pub proof fn lemma_tab_by_number(
    s: OpRunView,
    index: u64,
    tree: JsonView,
    contexts: Seq<JsonView>,
    c: Seq<char>,
)
    requires
        s.op == (OpView::SwitchTab { index }) || s.op == (OpView::CloseTab { index }),
        tree.field_array("contexts"@) == Some(contexts),
        index < contexts.len() ==> contexts[index as int].field_str("context"@) == Some(c),
    ensures
        ({
            let (t, a) = s.step(BidiEventView::Start);
            let (u, b) = t.step(BidiEventView::Reply(Ok(tree)));
            &&& a matches BidiActionView::Rpc { method, params } && method
                == "browsingContext.getTree"@
            &&& index < contexts.len() ==> (b matches BidiActionView::Rpc { method, params }
                && params.field_str("context"@) == Some(c) && method == (if s.op is SwitchTab {
                "browsingContext.activate"@
            } else {
                "browsingContext.close"@
            }))
            &&& index >= contexts.len() ==> (b matches BidiActionView::Finish { result } && result
                is Err)
        }),
{
    broadcast use {lemma_with_field, lemma_with_object};

    lemma_wire_keys();
}

/// The tabs are told of in the order of the browser, each with its number, its
/// context and its address.
pub proof fn lemma_tabs_in(
    tree: JsonView,
    contexts: Seq<JsonView>,
    i: int,
    c: Seq<char>,
    url: Seq<char>,
)
    requires
        tree.field_array("contexts"@) == Some(contexts),
        0 <= i < contexts.len(),
        contexts[i].field_str("context"@) == Some(c),
        contexts[i].field_str("url"@) == Some(url),
    ensures
        tabs_in(tree).len() == contexts.len(),
        tabs_in(tree)[i].field("index"@) == Some(JsonView::from_uint(i as u64)),
        tabs_in(tree)[i].field_str("context"@) == Some(c),
        tabs_in(tree)[i].field_str("url"@) == Some(url),
{
    broadcast use {lemma_with_field, lemma_with_object};

    lemma_wire_keys();
}

/// What a script returned or threw in the other protocol reads in the form of the
/// debugging protocol as the same value, or the same text.
pub proof fn lemma_as_cdp(r: JsonView, v: JsonView, x: JsonView, e: JsonView, t: Seq<char>)
    ensures
        r.field_str("type"@) != Some("exception"@) && r.field("result"@) == Some(v) && v.field(
            "value"@,
        ) == Some(x) ==> as_cdp(r).field("exceptionDetails"@) is None && as_cdp(r).field("result"@)
            is Some && (as_cdp(r).field("result"@)->0).field("value"@) == Some(x),
        r.field_str("type"@) == Some("exception"@) && r.field("exceptionDetails"@) == Some(e)
            && e.field_str("text"@) == Some(t) ==> as_cdp(r).field("exceptionDetails"@) is Some && (
        as_cdp(r).field("exceptionDetails"@)->0).field_str("text"@) == Some(t) && crate::pages::thrown(
            as_cdp(r),
            Seq::empty(),
        ) == Some(t),
{
    broadcast use {lemma_with_field, lemma_with_object};

    lemma_wire_keys();
    reveal_strlit("description");
    assert("description"@.len() == 11);
}

/// The commands of the debugging protocol stand for operations of the other one with
/// the same address, script, picture or text.
pub proof fn lemma_bridged(params: JsonView, q: NumberView, t: Seq<char>, b: bool)
    ensures
        params.field_str("url"@) == Some(t) ==> bridged_wait("Page.navigate"@, params) == Ok::<
            OpView,
            ErrorView,
        >(OpView::Navigate { url: t }),
        params.field_str("expression"@) == Some(t) && params.field_bool("awaitPromise"@) == Some(b)
            ==> bridged("Runtime.evaluate"@, params, Some(q)) == Ok::<OpView, ErrorView>(
            OpView::Eval { expression: t, await_promise: b, wait_load: false },
        ) && bridged_wait("Runtime.evaluate"@, params) == Ok::<OpView, ErrorView>(
            OpView::Eval { expression: t, await_promise: b, wait_load: true },
        ),
        params.field_str("format"@) == Some(t) && params.field_int("quality"@) is Some
            && params.field_bool("captureBeyondViewport"@) == Some(b) ==> bridged(
            "Page.captureScreenshot"@,
            params,
            Some(q),
        ) == Ok::<OpView, ErrorView>(
            OpView::Screenshot { format: t, quality: Some(q), full_page: b },
        ),
        params.field_str("text"@) == Some(t) ==> bridged("Input.insertText"@, params, Some(q))
            == Ok::<OpView, ErrorView>(
            OpView::PerformKeys { actions: crate::keys::bidi_insert(t, t.len() as int) },
        ),
        bridged("Page.getLayoutMetrics"@, params, Some(q)) == Ok::<OpView, ErrorView>(
            OpView::LayoutMetrics,
        ),
{
    reveal_strlit("Runtime.evaluate");
    reveal_strlit("Page.captureScreenshot");
    reveal_strlit("Page.getLayoutMetrics");
    reveal_strlit("Input.insertText");
    reveal_strlit("Page.navigate");
    assert("Runtime.evaluate"@.len() == 16 && "Runtime.evaluate"@[0] == 'R');
    assert("Page.captureScreenshot"@.len() == 22 && "Page.getLayoutMetrics"@.len() == 21);
    assert("Input.insertText"@.len() == 16 && "Input.insertText"@[0] == 'I');
    assert("Page.navigate"@.len() == 13);
}

/// Every target of the kind `page` that does not show the developer tools is a page to
/// act on, and no other is.
pub proof fn lemma_pages_kept(targets: Seq<JsonView>, i: int, url: Seq<char>)
    requires
        0 <= i < targets.len(),
        targets[i].field_str("url"@) == Some(url),
    ensures
        targets[i].field_str("type"@) == Some("page"@) && !crate::text::starts(url, "devtools://"@)
            ==> crate::cdp::pages(targets).contains(targets[i]),
        targets[i].field_str("type"@) != Some("page"@) || crate::text::starts(url, "devtools://"@)
            ==> !crate::cdp::pages(targets).contains(targets[i]),
{
    let keep = crate::cdp::is_page();
    if crate::cdp::pages(targets).contains(targets[i]) {
        crate::text::lemma_filter_elem(targets, keep, targets[i]);
    }
    if keep(targets[i]) {
        assert(targets.filter(keep).contains(targets[i]));
    }
}

/// The page that is acted on is the active one, where it is still there, and else the
/// first.
pub proof fn lemma_page_to_act_on(v: Seq<JsonView>, i: int, id: Seq<char>)
    requires
        0 <= i < v.len(),
        v[i].field_str("id"@) == Some(id),
        forall|j: int| 0 <= j < i ==> (#[trigger] v[j]).field_str("id"@) != Some(id),
    ensures
        crate::cdp::chosen_page(v, Some(id)) == Some(v[i]),
        crate::cdp::chosen_page(v, None) == Some(v[0]),
        crate::cdp::chosen_page(Seq::empty(), Some(id)) is None,
{
    lemma_page_at(v, 0, i, id);
}

proof fn lemma_page_at(v: Seq<JsonView>, from: int, i: int, id: Seq<char>)
    requires
        0 <= from <= i < v.len(),
        v[i].field_str("id"@) == Some(id),
        forall|j: int| 0 <= j < i ==> (#[trigger] v[j]).field_str("id"@) != Some(id),
    ensures
        crate::cdp::page_at(v, id, from) == Some(i),
    decreases i - from,
{
    if from < i {
        lemma_page_at(v, from + 1, i, id);
    }
}

/// A page that is not found is looked for again, a second later, fifteen times in all.
pub proof fn lemma_search(attempt: u32, f: crate::cdp::Found, active: Option<Seq<char>>)
    requires
        f is Unreadable || f is Unreachable,
    ensures
        attempt < 14 ==> crate::cdp::after_search(attempt, f, active) is Again,
        attempt >= 14 ==> crate::cdp::after_search(attempt, f, active) is GiveUp,
{
}

/// The wait for a page in a tab is over when that tab says that it has loaded, not when
/// another does, and when nothing more will come.
pub proof fn lemma_load_told(m: crate::value::Json, p: JsonView, c: Seq<char>, other: Seq<char>)
    requires
        m@.field("params"@) == Some(p),
        p.field_str("context"@) == Some(c),
        other != c,
    ensures
        m@.field_str("method"@) == Some("browsingContext.load"@) ==> crate::bidi::load_wait_over(
            Incoming::Message { value: m },
            c,
        ),
        !crate::bidi::load_wait_over(Incoming::Message { value: m }, other),
        m@.field_str("method"@) != Some("browsingContext.load"@) ==> !crate::bidi::load_wait_over(
            Incoming::Message { value: m },
            c,
        ),
        crate::bidi::load_wait_over(Incoming::TimedOut, c),
        crate::bidi::load_wait_over(Incoming::Closed, c),
        !crate::bidi::load_wait_over(Incoming::Other, c),
{
}

/// The tab at hand of a browser that has just been connected to is its first.
pub proof fn lemma_first_context(tree: JsonView, contexts: Seq<JsonView>, c: Seq<char>)
    ensures
        tree.field_array("contexts"@) == Some(contexts) && contexts.len() > 0
            && contexts[0].field_str("context"@) == Some(c) ==> crate::bidi::first_context(tree)
            == Ok::<Seq<char>, ErrorView>(c),
        tree.field_array("contexts"@) == Some(contexts) && contexts.len() == 0
            ==> crate::bidi::first_context(tree) is Err,
{
}

/// An operation that a broken connection has kept from being carried out is carried
/// out once more, over a new one; any other outcome is final.
pub proof fn lemma_reconnects(e: ErrorView, v: JsonView)
    ensures
        e.code == -32099 ==> crate::bidi::after_run(false, Err(e)) is Connect,
        e.code != -32099 ==> crate::bidi::after_run(false, Err(e)) == (
        crate::bidi::ExecView::Finish { result: Err(e) }),
        crate::bidi::after_run(false, Ok(v)) == (crate::bidi::ExecView::Finish { result: Ok(v) }),
        crate::bidi::after_connect(false, None) is Run,
{
}

/// Attaching files finds the input by its selector and hands it the files that were
/// given, in their order, in the tab at hand.
pub proof fn lemma_files_set(
    s: OpRunView,
    selector: Seq<char>,
    files: Seq<Seq<char>>,
    r: JsonView,
    v: JsonView,
    id: Seq<char>,
)
    requires
        s.op == (OpView::SetFiles { selector, files }),
        r.field("result"@) == Some(v),
        v.field_str("sharedId"@) == Some(id),
    ensures
        ({
            let (t, a) = s.step(BidiEventView::Start);
            let (u, b) = t.step(BidiEventView::Reply(Ok(r)));
            &&& a matches BidiActionView::Rpc { method, params } && method == "script.evaluate"@
                && params.field("target"@) is Some && (params.field("target"@)->0).field_str(
                "context"@,
            ) == Some(s.conn.context)
            &&& b matches BidiActionView::Rpc { method, params } && method == "input.setFiles"@
                && params.field_str("context"@) == Some(s.conn.context) && params.field("element"@)
                is Some && (params.field("element"@)->0).field_str("sharedId"@) == Some(id) && (
            params.field_array("files"@) matches Some(list) && list.len() == files.len() && forall|
                i: int,
            |
                0 <= i < files.len() ==> #[trigger] list[i] == JsonView::Str(files[i]))
        }),
{
    broadcast use {lemma_with_field, lemma_with_object};

    lemma_wire_keys();
    reveal_strlit("resultOwnership");
    assert("resultOwnership"@.len() == 15);
}

} // verus!
