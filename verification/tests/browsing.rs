//! Acting on pages: keys, the two protocols, and the tools that use them.
use watermelon::bidi::{
    await_reply, bidi_connect_failed, bidi_connected, bidi_eval_to_cdp, bidi_exec, bidi_wait_load,
    connected_context, measured_json, send_bidi, send_bidi_wait, session_url, BidiAction, BidiConn,
    BidiEvent, BidiOp, Exec, OpRun,
};
use watermelon::calls::ToolCall;
use watermelon::cdp::{
    bidi_port, bidi_url, choose_page, fixed_url, get_cdp_browser_ws_url, get_cdp_port_for_profile,
    get_cdp_ws_url, is_devtools_target, receive, send_cdp, Found, Incoming, LoadAction, LoadWait,
    Search,
};
use watermelon::keys::{
    insert_actions, press_key_bidi, press_key_cdp, send_bidi_keystrokes, send_human_keystrokes,
    Keystroke, TypingEvent,
};
use watermelon::pages::{
    cut_page, evaluation, fingerprint_params, get_running_profile, list_elements, page_info,
    read_live_fingerprint, ActiveTab, PageAction, PageEvent, PageRun,
};
use watermelon::profiles::ProfileEntry;
use watermelon::protocol::{refusal, text_reply, transport_error, McpError, McpServer};
use watermelon::scripts::{click_index_script, click_script, content_script, elements_script};
use watermelon::value::{Json, Number};

fn o(fields: &[(&str, Json)]) -> Json {
    let mut v = Json::empty();
    for (k, x) in fields {
        v = v.with(k, x.copy());
    }
    v
}

fn t(s: &str) -> Json {
    Json::text(s)
}

fn n(i: u64) -> Json {
    Json::from_uint(i)
}

fn said(text: &str) -> Result<Json, McpError> {
    Ok(text_reply(text.to_string()))
}

// Keys

#[test]
fn modifiers_are_held_around_a_key() {
    let names = vec!["Control".to_string(), "Shift".to_string()];
    let v = press_key_cdp("a", &names).unwrap();
    let kinds: Vec<String> = v
        .iter()
        .map(|e| format!("{} {}", e.str_or("type", ""), e.str_or("key", "")))
        .collect();
    assert_eq!(
        kinds,
        vec![
            "keyDown Control",
            "keyDown Shift",
            "keyDown a",
            "keyUp a",
            "keyUp Shift",
            "keyUp Control"
        ]
    );
    assert_eq!(v.len(), 6);
    assert!(v.iter().all(|e| e.get_u64("modifiers") == Some(10)));
    // A shortcut enters no text.
    assert!(v[2].get("text").is_none());
    let plain = press_key_cdp("a", &vec![]).unwrap();
    assert_eq!(plain[0].str_or("text", ""), "a");
    assert!(plain[1].get("text").is_none());

    let b = press_key_bidi("Enter", &vec!["Ctrl".to_string()]).unwrap();
    let values: Vec<String> = b.iter().map(|e| e.str_or("value", "")).collect();
    assert_eq!(values, vec!["\u{E009}", "\u{E007}", "\u{E007}", "\u{E009}"]);
}

#[test]
fn unknown_keys_are_refused() {
    let e = press_key_cdp("Entr", &vec![]).unwrap_err();
    assert_eq!((e.code, e.message.as_str()), (-32602, "Unsupported key: Entr"));
    let e = press_key_bidi("", &vec![]).unwrap_err();
    assert_eq!(e.message, "Unsupported key: ");
    let e = press_key_bidi("a", &vec!["Hyper".to_string()]).unwrap_err();
    assert_eq!(e.message, "Unknown modifier: Hyper");
}

#[test]
fn typing_goes_key_by_key() {
    let events = vec![
        TypingEvent { delay_ms: 0, stroke: Keystroke::Char('h') },
        TypingEvent { delay_ms: 120, stroke: Keystroke::Backspace },
    ];
    let c = send_human_keystrokes(&events);
    let ids: Vec<Option<u64>> = c.iter().map(|m| m.get_u64("id")).collect();
    assert_eq!(ids, vec![Some(1), Some(2), Some(3), Some(4)]);
    assert_eq!(c[2].get("params").unwrap().str_or("key", ""), "Backspace");
    let b = send_bidi_keystrokes(&events);
    let kinds: Vec<String> = b.iter().map(|e| e.str_or("type", "")).collect();
    assert_eq!(kinds, vec!["keyDown", "keyUp", "pause", "keyDown", "keyUp"]);
    assert_eq!(b[2].get_u64("duration"), Some(120));
    assert_eq!(insert_actions("hi").len(), 4);
}

// The debugging protocol

#[test]
fn port_is_read_back_from_its_address() {
    assert_eq!(bidi_url(9222), "bidi://127.0.0.1:9222");
    assert_eq!(bidi_port("bidi://127.0.0.1:9222"), Some(9222));
    assert_eq!(bidi_port("bidi://127.0.0.1:99999"), None);
    assert_eq!(bidi_port("ws://127.0.0.1:9222"), None);
    assert_eq!(fixed_url("camoufox", 1), Some("bidi://127.0.0.1:1".to_string()));
    assert_eq!(fixed_url("cloak", 1), None);
    assert_eq!(session_url(7), "ws://127.0.0.1:7/session");
}

fn target(kind: &str, id: &str, url: &str) -> Json {
    o(&[
        ("type", t(kind)),
        ("id", t(id)),
        ("url", t(url)),
        ("title", t("T")),
        ("webSocketDebuggerUrl", t(&format!("ws://{id}"))),
    ])
}

fn targets() -> Vec<Json> {
    vec![
        target("worker", "w", "https://x.com"),
        target("page", "d", "devtools://devtools"),
        target("page", "a", "https://a.com"),
        target("page", "b", "https://b.com"),
    ]
}

#[test]
fn active_page_is_acted_on_while_it_is_there() {
    let v = targets();
    assert!(is_devtools_target(&v[1]));
    assert_eq!(choose_page(&v, &None), Some("ws://a".to_string()));
    assert_eq!(choose_page(&v, &Some("b".to_string())), Some("ws://b".to_string()));
    assert_eq!(choose_page(&v, &Some("gone".to_string())), Some("ws://a".to_string()));
    assert_eq!(choose_page(&v, &Some("d".to_string())), Some("ws://a".to_string()));
    assert_eq!(choose_page(&vec![], &None), None);
}

#[test]
fn page_is_looked_for_fifteen_times() {
    let none = Found::Targets { targets: vec![] };
    assert!(matches!(get_cdp_ws_url(13, &none, &None), Search::Again));
    match get_cdp_ws_url(14, &none, &None) {
        Search::GiveUp { error } => assert_eq!(error, refusal("No page target found in browser")),
        _ => panic!("the last attempt"),
    }
    let down = Found::Unreachable { error: "x".to_string() };
    match get_cdp_ws_url(14, &down, &None) {
        Search::GiveUp { error } => {
            assert_eq!(error.message, "Failed to connect to browser CDP endpoint: x")
        }
        _ => panic!("the last attempt"),
    }
    let some = Found::Targets { targets: targets() };
    assert!(matches!(get_cdp_ws_url(0, &some, &None), Search::Page { .. }));
    assert_eq!(get_cdp_port_for_profile(0, Some(5), "n"), Ok(Some(5)));
    assert_eq!(get_cdp_port_for_profile(8, None, "n"), Ok(None));
    assert_eq!(
        get_cdp_port_for_profile(9, None, "n").unwrap_err().message,
        "No CDP connection available for profile 'n'. Make sure the browser is running."
    );
    assert!(get_cdp_browser_ws_url(&Json::empty()).is_err());
    let body = o(&[("webSocketDebuggerUrl", t("ws://b"))]);
    assert_eq!(get_cdp_browser_ws_url(&body), Ok("ws://b".to_string()));
}

#[test]
fn reply_is_told_from_other_messages() {
    assert_eq!(send_cdp(&receive("{\"method\":\"x\"}"), 1), None);
    assert_eq!(
        send_cdp(&receive("{\"id\":1,\"result\":{\"a\":2}}"), 1),
        Some(Ok(o(&[("a", n(2))])))
    );
    assert_eq!(send_cdp(&receive("{\"id\":1}"), 1), Some(Ok(Json::empty())));
    assert_eq!(
        send_cdp(&receive("{\"id\":1,\"error\":{\"code\":-1}}"), 1),
        Some(Err(refusal("CDP error: {\"code\":-1}")))
    );
    match send_cdp(&receive("{"), 1) {
        Some(Err(e)) => assert!(e.message.starts_with("Failed to parse CDP response: ")),
        _ => panic!("no message"),
    }
    assert_eq!(
        send_cdp(&Incoming::Closed, 1),
        Some(Err(refusal("No response received from CDP")))
    );
}

fn sent(a: LoadAction) -> Json {
    match a {
        LoadAction::Send { command } => command,
        _ => panic!("nothing sent"),
    }
}

#[test]
fn page_is_waited_for_after_a_command() {
    let (w, a) = LoadWait::send_cdp_and_wait_for_load("Page.navigate", o(&[("url", t("u"))]));
    assert_eq!(sent(a).str_or("method", ""), "Page.enable");
    let (w, a) = w.step(receive("{\"id\":9}"));
    assert!(matches!(a, LoadAction::Receive));
    let (w, a) = w.step(receive("{\"id\":1,\"result\":{}}"));
    let command = sent(a);
    assert_eq!(command.str_or("method", ""), "Page.navigate");
    assert_eq!(command.get_u64("id"), Some(2));
    let (w, a) = w.step(receive("{\"id\":2,\"result\":{\"frameId\":\"f\"}}"));
    assert!(matches!(a, LoadAction::Receive));
    let (_, a) = w.step(receive("{\"method\":\"Page.loadEventFired\",\"params\":{}}"));
    match a {
        LoadAction::Finish { last, result } => {
            assert_eq!(last.unwrap().str_or("method", ""), "Page.disable");
            assert_eq!(result, Ok(o(&[("frameId", t("f"))])));
        }
        _ => panic!("not over"),
    }
}

#[test]
fn wait_ends_with_what_has_come() {
    let begun = || {
        let (w, _) = LoadWait::send_cdp_and_wait_for_load("m", Json::empty());
        w.step(receive("{\"id\":1}")).0
    };
    match begun().step(Incoming::TimedOut).1 {
        LoadAction::Finish { result, .. } => {
            assert_eq!(result, Err(refusal("No response received from CDP")))
        }
        _ => panic!("not over"),
    }
    match begun().step(receive("{\"id\":2,\"error\":1}")).1 {
        LoadAction::Finish { last, result } => {
            assert!(last.is_none());
            assert_eq!(result, Err(refusal("CDP error: 1")));
        }
        _ => panic!("not over"),
    }
    let (w, _) = LoadWait::send_cdp_and_wait_for_load("m", Json::empty());
    match w.step(Incoming::Closed).1 {
        LoadAction::Finish { result, .. } => assert_eq!(
            result,
            Err(refusal("WebSocket closed waiting for Page.enable response"))
        ),
        _ => panic!("not over"),
    }
}

// The other protocol

fn conn() -> BidiConn {
    BidiConn { context: "c0".to_string(), next_id: 2, load_subscribed: false }
}

fn ask(a: &BidiAction) -> (&str, &Json) {
    match a {
        BidiAction::Rpc { method, params } => (method.as_str(), params),
        _ => panic!("no command"),
    }
}

fn over(a: BidiAction) -> Result<Json, McpError> {
    match a {
        BidiAction::Finish { result } => result,
        _ => panic!("not over"),
    }
}

fn ok(v: Json) -> BidiEvent {
    BidiEvent::Reply(Ok(v))
}

#[test]
fn commands_are_numbered() {
    let mut c = BidiConn::opened();
    let (id, first) = c.bidi_rpc("session.new", o(&[("capabilities", Json::empty())]));
    assert_eq!((id, first.str_or("method", "")), (1, "session.new".to_string()));
    let (id, _) = c.bidi_rpc("browsingContext.getTree", Json::empty());
    assert_eq!((id, c.next_id), (2, 2));
    assert_eq!(
        await_reply(&receive("{\"id\":2,\"type\":\"error\",\"message\":\"m\"}"), 2, "x"),
        Some(Err(refusal("BiDi error (x): m")))
    );
    assert_eq!(await_reply(&receive("{\"type\":\"event\"}"), 2, "x"), None);
    assert_eq!(
        await_reply(&Incoming::TimedOut, 2, "x"),
        Some(Err(transport_error("Timed out waiting for BiDi response to x")))
    );
    let tree = o(&[("contexts", Json::Array(vec![o(&[("context", t("c"))])]))]);
    assert_eq!(connected_context(&tree), Ok("c".to_string()));
    assert!(connected_context(&Json::empty()).is_err());
}

#[test]
fn script_is_run_and_its_page_waited_for() {
    let op = BidiOp::Eval {
        expression: "1".to_string(),
        await_promise: false,
        wait_load: true,
    };
    let (r, a) = OpRun::new(conn(), op).bidi_run_op(BidiEvent::Start);
    assert_eq!(ask(&a).0, "session.subscribe");
    let (r, a) = r.bidi_run_op(ok(Json::empty()));
    assert!(r.conn.load_subscribed);
    assert_eq!(ask(&a).0, "script.evaluate");
    assert_eq!(ask(&a).1.get("target").unwrap().str_or("context", ""), "c0");
    let value = o(&[("type", t("success")), ("result", o(&[("type", t("number")), ("value", n(1))]))]);
    let (r, a) = r.bidi_run_op(ok(value));
    assert!(matches!(a, BidiAction::WaitLoad { secs: 30 }));
    let (_, a) = r.bidi_run_op(BidiEvent::Waited);
    assert_eq!(
        over(a),
        Ok(o(&[("result", o(&[("type", t("number")), ("value", n(1))]))]))
    );
    let m = "{\"method\":\"browsingContext.load\",\"params\":{\"context\":\"c0\"}}";
    assert!(bidi_wait_load(&receive(m), "c0"));
    assert!(!bidi_wait_load(&receive(m), "c1"));
    assert!(bidi_wait_load(&Incoming::Closed, "c1"));
}

#[test]
fn exception_takes_the_other_form() {
    let r = o(&[("type", t("exception")), ("exceptionDetails", o(&[("text", t("boom"))]))]);
    let v = bidi_eval_to_cdp(&r);
    assert_eq!(v.get("exceptionDetails").unwrap().str_or("text", ""), "boom");
    assert_eq!(evaluation(&v), o(&[("error", t("boom"))]));
}

#[test]
fn page_is_measured() {
    let (r, _) = OpRun::new(conn(), BidiOp::LayoutMetrics).bidi_run_op(BidiEvent::Start);
    let reply = o(&[("result", o(&[("value", t("{\"w\":800}"))]))]);
    let size = o(&[("contentSize", o(&[("width", n(800)), ("height", n(1080))]))]);
    assert_eq!(over(r.bidi_run_op(ok(reply)).1), Ok(size));
    let size = o(&[("contentSize", o(&[("width", n(1920)), ("height", n(1080))]))]);
    assert_eq!(measured_json(Err("x".to_string())), size);
}

#[test]
fn picture_is_taken_with_its_quality() {
    let q = Number::Float("0.8".to_string());
    let params = o(&[
        ("format", t("jpeg")),
        ("quality", n(80)),
        ("captureBeyondViewport", Json::Bool(true)),
    ]);
    let op = send_bidi("Page.captureScreenshot", &params, Some(q)).unwrap();
    let (r, a) = OpRun::new(conn(), op).bidi_run_op(BidiEvent::Start);
    let (method, p) = ask(&a);
    assert_eq!(method, "browsingContext.captureScreenshot");
    assert_eq!(p.str_or("origin", ""), "document");
    assert_eq!(
        p.get("format").unwrap().render(),
        "{\"quality\":0.8,\"type\":\"image/jpeg\"}"
    );
    assert_eq!(
        over(r.bidi_run_op(ok(o(&[("data", t("AAA"))]))).1),
        Ok(o(&[("data", t("AAA"))]))
    );
}

#[test]
fn files_are_set_on_the_element() {
    let op = BidiOp::SetFiles {
        selector: "input[name=\"a\\b\"]".to_string(),
        files: vec!["/f".to_string()],
    };
    let (r, a) = OpRun::new(conn(), op).bidi_run_op(BidiEvent::Start);
    assert_eq!(
        ask(&a).1.str_or("expression", ""),
        "document.querySelector(\"input[name=\\\"a\\\\b\\\"]\")"
    );
    let (r, a) = r.bidi_run_op(ok(o(&[("result", o(&[("sharedId", t("s"))]))])));
    assert_eq!(ask(&a).0, "input.setFiles");
    assert_eq!(over(r.bidi_run_op(ok(Json::empty())).1), Ok(Json::empty()));
    let op = BidiOp::SetFiles { selector: "#x".to_string(), files: vec![] };
    let (r, _) = OpRun::new(conn(), op).bidi_run_op(BidiEvent::Start);
    assert_eq!(
        over(r.bidi_run_op(ok(Json::empty())).1),
        Err(refusal("File input not found: #x"))
    );
}

fn tree(contexts: &[&str]) -> Json {
    let list: Vec<Json> = contexts
        .iter()
        .map(|c| o(&[("context", t(c)), ("url", t("u"))]))
        .collect();
    o(&[("contexts", Json::Array(list))])
}

#[test]
fn tabs_are_listed_opened_switched_and_closed() {
    let (r, _) = OpRun::new(conn(), BidiOp::ListTabs).bidi_run_op(BidiEvent::Start);
    let tabs = over(r.bidi_run_op(ok(tree(&["a", "b"]))).1).unwrap();
    assert_eq!(
        tabs.get_array("tabs").unwrap()[1],
        o(&[("index", n(1)), ("context", t("b")), ("url", t("u"))])
    );

    let op = BidiOp::NewTab { url: "https://x.com".to_string() };
    let (r, _) = OpRun::new(conn(), op).bidi_run_op(BidiEvent::Start);
    let (r, a) = r.bidi_run_op(ok(o(&[("context", t("new"))])));
    assert_eq!((ask(&a).0, r.conn.context.as_str()), ("browsingContext.navigate", "new"));
    assert_eq!(over(r.bidi_run_op(ok(Json::empty())).1), Ok(o(&[("context", t("new"))])));
    let op = BidiOp::NewTab { url: String::new() };
    let (r, _) = OpRun::new(conn(), op).bidi_run_op(BidiEvent::Start);
    assert!(over(r.bidi_run_op(ok(Json::empty())).1).is_err());

    let (r, _) = OpRun::new(conn(), BidiOp::SwitchTab { index: 1 }).bidi_run_op(BidiEvent::Start);
    let (r, a) = r.bidi_run_op(ok(tree(&["a", "b"])));
    assert_eq!(ask(&a).0, "browsingContext.activate");
    assert_eq!(r.conn.context, "c0");
    let (r, _) = r.bidi_run_op(ok(Json::empty()));
    assert_eq!(r.conn.context, "b");
    let (r, _) = OpRun::new(conn(), BidiOp::SwitchTab { index: 2 }).bidi_run_op(BidiEvent::Start);
    assert_eq!(over(r.bidi_run_op(ok(tree(&["a", "b"]))).1), Err(refusal("No tab at index 2")));

    let (r, _) = OpRun::new(conn(), BidiOp::CloseTab { index: 0 }).bidi_run_op(BidiEvent::Start);
    let (r, a) = r.bidi_run_op(ok(tree(&["a", "b"])));
    assert_eq!(ask(&a).1.str_or("context", ""), "a");
    let (r, _) = r.bidi_run_op(ok(Json::empty()));
    let (r, a) = r.bidi_run_op(ok(tree(&["b"])));
    assert_eq!(r.conn.context, "b");
    assert_eq!(over(a), Ok(o(&[("context", t("b"))])));
}

#[test]
fn keys_navigation_and_failures_of_operations() {
    let op = BidiOp::PerformKeys { actions: insert_actions("a") };
    let (_, a) = OpRun::new(conn(), op).bidi_run_op(BidiEvent::Start);
    let source = ask(&a).1.get("actions").unwrap().item(0).unwrap().copy();
    assert_eq!(source.get_array("actions").unwrap().len(), 2);
    let op = send_bidi_wait("Page.navigate", &o(&[("url", t("u"))])).unwrap();
    let (r, a) = OpRun::new(conn(), op).bidi_run_op(BidiEvent::Start);
    assert_eq!(ask(&a).1.str_or("wait", ""), "complete");
    let (r, a) = r.bidi_run_op(BidiEvent::Reply(Err(refusal("x"))));
    assert_eq!((over(a), r.conn), (Err(refusal("x")), conn()));
    assert_eq!(
        send_bidi("DOM.getDocument", &Json::empty(), None).unwrap_err().message,
        "Camoufox automation: CDP method 'DOM.getDocument' is not yet bridged to BiDi"
    );
}

#[test]
fn dead_connection_is_replaced_once() {
    let dead = || Err(transport_error("gone"));
    assert_eq!(bidi_exec(false, dead()), Exec::Connect);
    assert_eq!(bidi_exec(true, dead()), Exec::Finish { result: dead() });
    assert_eq!(
        bidi_exec(false, Err(refusal("x"))),
        Exec::Finish { result: Err(refusal("x")) }
    );
    assert_eq!(bidi_connected(false, Some(transport_error("gone"))), Exec::Connect);
    assert_eq!(bidi_connected(true, None), Exec::Run);
    assert_eq!(bidi_connect_failed(10, "x"), None);
    assert_eq!(
        bidi_connect_failed(11, "x"),
        Some(transport_error("Failed to connect to Camoufox BiDi WebSocket: x"))
    );
}

// Pages

fn p() -> String {
    "p".to_string()
}

fn send(a: PageAction) -> (String, Json, Option<u64>) {
    match a {
        PageAction::Send { method, params, wait } => (method, params, wait),
        _ => panic!("nothing sent"),
    }
}

fn end(a: PageAction) -> (ActiveTab, Result<Json, McpError>) {
    match a {
        PageAction::Finish { tab, result } => (tab, result),
        _ => panic!("not over"),
    }
}

fn reply(v: Json) -> PageEvent {
    PageEvent::Reply(Ok(v))
}

fn value(v: Json) -> Json {
    o(&[("result", o(&[("value", v)]))])
}

fn thrown(text: &str) -> Json {
    o(&[("exceptionDetails", o(&[("text", t(text))]))])
}

#[test]
fn running_profile_is_acted_on() {
    let v = vec![
        ProfileEntry {
            id: "a".to_string(),
            name: "A".to_string(),
            browser: "cloak".to_string(),
            group_id: None,
            running: true,
        },
        ProfileEntry {
            id: "b".to_string(),
            name: "B".to_string(),
            browser: "camoufox".to_string(),
            group_id: None,
            running: false,
        },
    ];
    assert_eq!(get_running_profile(&v, "a").unwrap().name, "A");
    assert_eq!(get_running_profile(&v, "b").unwrap_err(), refusal("Profile 'B' is not running"));
    assert_eq!(get_running_profile(&v, "c").unwrap_err(), refusal("Profile not found: c"));
}

#[test]
fn selectors_are_quoted_in_scripts() {
    assert_eq!(
        click_script("a[b='c\\d']"),
        "(() => {\n        const el = document.querySelector('a[b=\\'c\\\\d\\']');\n        if (!el) throw new Error('Element not found: a[b=\\'c\\\\d\\']');\n        el.scrollIntoView({block: 'center'});\n        el.click();\n        return true;\n      })()"
    );
    assert!(click_index_script(7).contains("!arr[7]"));
    assert_eq!(content_script("html", &None), "document.documentElement.outerHTML");
    assert_eq!(content_script("text", &None), "document.body.innerText");
    assert!(content_script("text", &Some("#a".to_string())).contains("el.innerText"));
    assert!(elements_script(123).contains("const MAX_CHARS = 123;"));
}

#[test]
fn page_is_navigated_clicked_and_evaluated() {
    let call = ToolCall::Navigate { profile_id: p(), url: "https://x.com".to_string() };
    let (r, a) = PageRun::new(call, false).step(PageEvent::Start);
    assert_eq!(
        send(a),
        ("Page.navigate".to_string(), o(&[("url", t("https://x.com"))]), Some(30))
    );
    assert_eq!(
        end(r.step(reply(Json::empty())).1),
        (ActiveTab::Keep, said("Navigated to https://x.com"))
    );

    let click = || {
        let call = ToolCall::Click { profile_id: p(), selector: "#a".to_string() };
        PageRun::new(call, false).step(PageEvent::Start)
    };
    assert_eq!(send(click().1).2, Some(10));
    assert_eq!(end(click().0.step(reply(value(Json::Bool(true)))).1).1, said("Clicked element: #a"));
    assert_eq!(end(click().0.step(reply(thrown("no"))).1).1, Err(refusal("no")));

    let call = ToolCall::Evaluate {
        profile_id: p(),
        expression: "1".to_string(),
        await_promise: true,
        wait_for_load: false,
    };
    let (r, a) = PageRun::new(call, true).step(PageEvent::Start);
    let (_, params, wait) = send(a);
    assert_eq!((params.get_bool("awaitPromise"), wait), (Some(true), None));
    assert_eq!(
        end(r.step(reply(value(n(1)))).1).1,
        said("{\n  \"type\": null,\n  \"value\": 1\n}")
    );
}

#[test]
fn full_page_is_measured_before_its_picture() {
    let call = || ToolCall::Screenshot {
        profile_id: p(),
        format: "jpeg".to_string(),
        quality: Some(80),
        full_page: true,
    };
    let (r, a) = PageRun::new(call(), false).step(PageEvent::Start);
    assert_eq!(send(a).0, "Page.getLayoutMetrics");
    let (r, a) = r.step(reply(o(&[("contentSize", o(&[("width", n(800))]))])));
    match a {
        PageAction::Scale { width, height } => {
            assert_eq!((width, height), (Some(Number::PosInt(800)), None))
        }
        _ => panic!("no measures"),
    }
    let (r, a) = r.step(PageEvent::Scaled {
        width: Some(Number::Float("800.0".to_string())),
        height: None,
    });
    let (_, params, _) = send(a);
    assert_eq!(
        params.render(),
        "{\"captureBeyondViewport\":true,\"clip\":{\"height\":1080.0,\"scale\":1,\"width\":800.0,\"x\":0,\"y\":0},\"format\":\"jpeg\",\"quality\":80}"
    );
    let image = end(r.step(reply(o(&[("data", t("AA"))]))).1).1.unwrap();
    let content = image.get("content").unwrap().item(0).unwrap().copy();
    assert_eq!(content.str_or("mimeType", ""), "image/jpeg");
    assert_eq!(content.str_or("data", ""), "AA");
}

#[test]
fn text_is_typed_into_a_focused_element() {
    let call = |instant: bool| ToolCall::TypeText {
        profile_id: p(),
        selector: "#a".to_string(),
        text: "hi".to_string(),
        clear_first: true,
        instant,
        wpm: None,
    };
    let (r, a) = PageRun::new(call(true), false).step(PageEvent::Start);
    assert!(send(a).1.str_or("expression", "").contains("el.value = ''"));
    let (r, a) = r.step(reply(Json::empty()));
    assert_eq!(send(a).0, "Input.insertText");
    assert_eq!(end(r.step(reply(Json::empty())).1).1, said("Typed text into element: #a"));
    let (r, _) = PageRun::new(call(false), false).step(PageEvent::Start);
    let (_, a) = r.step(reply(Json::empty()));
    assert!(matches!(a, PageAction::Type { .. }));
    let (r, _) = PageRun::new(call(false), false).step(PageEvent::Start);
    assert_eq!(end(r.step(reply(thrown("gone"))).1).1, Err(refusal("gone")));

    let call = ToolCall::TypeIndex {
        profile_id: p(),
        index: 4,
        text: "hi".to_string(),
        clear_first: false,
        instant: false,
        wpm: None,
    };
    let (r, a) = PageRun::new(call, false).step(PageEvent::Start);
    assert!(!send(a).1.str_or("expression", "").contains("el.value = ''"));
    let (r, _) = r.step(reply(Json::empty()));
    assert_eq!(
        end(r.step(reply(Json::empty())).1).1,
        said("Typed text into element at index 4")
    );
}

#[test]
fn text_of_a_page_is_cut_off() {
    assert_eq!(cut_page("abc", 3), "abc");
    assert_eq!(
        cut_page("abcé", 2),
        "ab\n\n[truncated: showing 2 of 4 chars — call with a larger max_chars or use get_interactive_elements for an indexed view]"
    );
    let call = ToolCall::PageContent {
        profile_id: p(),
        format: "text".to_string(),
        selector: None,
        max_chars: 100,
    };
    let (r, _) = PageRun::new(call, false).step(PageEvent::Start);
    assert_eq!(end(r.step(reply(value(t("body")))).1).1, said("body"));
}

#[test]
fn elements_are_listed() {
    let call = || ToolCall::Elements { profile_id: p(), max_chars: 9 };
    let (r, _) = PageRun::new(call(), false).step(PageEvent::Start);
    let payload = "{\"elements\":\"[0]<a>x</a>\",\"count\":1,\"truncated\":false}";
    assert_eq!(
        end(r.step(reply(value(t(payload)))).1).1,
        said("1 interactive elements:\n[0]<a>x</a>")
    );
    let cut = o(&[("count", n(2)), ("truncated", Json::Bool(true))]);
    assert_eq!(
        list_elements(Ok(cut), 9),
        "2 interactive elements (truncated at 9 chars — re-call with a larger max_chars or scroll the page):\n"
    );
    assert_eq!(list_elements(Err("x".to_string()), 9), "0 interactive elements:\n");
    let call = ToolCall::ClickIndex { profile_id: p(), index: 3 };
    let (r, _) = PageRun::new(call, false).step(PageEvent::Start);
    assert_eq!(
        end(r.step(reply(Json::empty())).1).1,
        said("Clicked element at index 3")
    );
}

#[test]
fn page_tells_of_itself() {
    let call = ToolCall::One { tool: "get_page_info".to_string(), value: p() };
    let (r, _) = PageRun::new(call, false).step(PageEvent::Start);
    assert_eq!(
        end(r.step(reply(value(t("{\"url\":\"u\"}")))).1).1,
        said("{\n  \"url\": \"u\"\n}")
    );
    assert_eq!(page_info(Err("x".to_string())), "{}");
}

#[test]
fn files_are_attached_step_by_step() {
    let call = || ToolCall::UploadFile {
        profile_id: p(),
        selector: "#f".to_string(),
        files: vec!["/a".to_string(), "/b".to_string()],
    };
    let (r, a) = PageRun::new(call(), false).step(PageEvent::Start);
    assert_eq!(send(a).0, "DOM.getDocument");
    let (r, a) = r.step(reply(o(&[("root", o(&[("nodeId", n(1))]))])));
    assert_eq!(send(a).1, o(&[("nodeId", n(1)), ("selector", t("#f"))]));
    let (r, a) = r.step(reply(o(&[("nodeId", n(5))])));
    assert_eq!(send(a).0, "DOM.setFileInputFiles");
    assert_eq!(
        end(r.step(reply(Json::empty())).1).1,
        said("Attached 2 file(s) to #f")
    );
    let (r, _) = PageRun::new(call(), false).step(PageEvent::Start);
    let (r, _) = r.step(reply(o(&[("root", o(&[("nodeId", n(1))]))])));
    assert_eq!(
        end(r.step(reply(o(&[("nodeId", n(0))]))).1).1,
        Err(refusal("File input not found: #f"))
    );
    let (r, _) = PageRun::new(call(), false).step(PageEvent::Start);
    assert_eq!(
        end(r.step(reply(Json::empty())).1).1,
        Err(refusal("Could not read document root"))
    );
    let (_, a) = PageRun::new(call(), true).step(PageEvent::Start);
    assert!(matches!(a, PageAction::Operate { op: BidiOp::SetFiles { .. } }));
}

#[test]
fn tabs_of_a_page_and_the_active_one() {
    let mut server = McpServer::new();
    let list = Json::Array(targets());

    let call = ToolCall::One { tool: "list_tabs".to_string(), value: p() };
    let (r, a) = PageRun::new(call, false).step(PageEvent::Start);
    assert!(matches!(a, PageAction::Targets));
    let told = end(r.step(reply(list.copy())).1).1.unwrap();
    let text = told.get("content").unwrap().item(0).unwrap().str_or("text", "");
    assert!(text.contains("https://b.com") && !text.contains("devtools"));

    let call = ToolCall::SwitchTab { profile_id: p(), index: 1 };
    let (r, _) = PageRun::new(call, false).step(PageEvent::Start);
    let (r, a) = r.step(reply(list.copy()));
    match a {
        PageAction::Browser { method, params } => {
            assert_eq!(method, "Target.activateTarget");
            assert_eq!(params, o(&[("targetId", t("b"))]));
        }
        _ => panic!("no command"),
    }
    let (tab, result) = end(r.step(reply(Json::empty())).1);
    assert_eq!(result, said("Switched to tab 1"));
    server.move_active("p", tab);
    assert_eq!(server.active_target("p"), Some("b".to_string()));

    let close = |index: u64| {
        let call = ToolCall::CloseTab { profile_id: p(), index };
        let (r, _) = PageRun::new(call, false).step(PageEvent::Start);
        r.step(reply(Json::Array(targets())))
    };
    let (tab, _) = end(close(0).0.step(reply(Json::empty())).1);
    server.move_active("p", tab);
    assert_eq!(server.active_target("p"), Some("b".to_string()));
    let (tab, result) = end(close(1).0.step(reply(Json::empty())).1);
    assert_eq!(result, said("Closed tab 1"));
    server.move_active("p", tab);
    assert_eq!(server.active_target("p"), None);
    assert_eq!(end(close(2).1).1, Err(refusal("No tab at index 2")));

    let call = ToolCall::NewTab { profile_id: p(), url: "u".to_string() };
    let (r, _) = PageRun::new(call, false).step(PageEvent::Start);
    let (tab, result) = end(r.step(reply(o(&[("targetId", t("new"))]))).1);
    assert_eq!(result, said("Opened new tab: u"));
    assert_eq!(tab, ActiveTab::Point { target: "new".to_string() });
}

#[test]
fn keys_go_the_way_of_the_browser() {
    let call = || ToolCall::PressKey {
        profile_id: p(),
        key: "Enter".to_string(),
        modifiers: vec![],
    };
    let (r, a) = PageRun::new(call(), false).step(PageEvent::Start);
    assert!(matches!(a, PageAction::Press { .. }));
    assert_eq!(end(r.step(reply(Json::empty())).1).1, said("Pressed key: Enter"));
    let (_, a) = PageRun::new(call(), true).step(PageEvent::Start);
    assert!(matches!(a, PageAction::Operate { op: BidiOp::PerformKeys { .. } }));
    let bad = ToolCall::PressKey { profile_id: p(), key: "??".to_string(), modifiers: vec![] };
    let (_, a) = PageRun::new(bad, false).step(PageEvent::Start);
    assert_eq!(end(a).1.unwrap_err().message, "Unsupported key: ??");
}

#[test]
fn failure_of_a_tool_is_handed_on() {
    let call = ToolCall::NewTab { profile_id: p(), url: "u".to_string() };
    let (r, _) = PageRun::new(call, false).step(PageEvent::Start);
    assert_eq!(
        end(r.step(PageEvent::Reply(Err(refusal("x")))).1),
        (ActiveTab::Keep, Err(refusal("x")))
    );
}

#[test]
fn fingerprint_of_a_page_is_read() {
    assert_eq!(fingerprint_params().get_bool("awaitPromise"), Some(false));
    assert!(fingerprint_params().str_or("expression", "").contains("webglVendor"));
    let v = o(&[("platform", t("MacIntel"))]);
    assert_eq!(read_live_fingerprint(&value(v.copy())), Ok(v));
    assert_eq!(read_live_fingerprint(&Json::empty()), Ok(Json::empty()));
    assert_eq!(read_live_fingerprint(&thrown("no")), Err("no".to_string()));
}
