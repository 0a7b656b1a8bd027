//! What a call of a tool says: each argument goes where its name says, what may be
//! left out has its usual value, and what has to be there is asked for.
use vstd::prelude::*;

use crate::calls::{
    changes_in, changes_settings, dispatched, fingerprint_in, patched_proxy, source_of, texts_in,
    CallView, ChangeView, FingerprintView, Gate, ProxyView, SourceView,
};
use crate::protocol::ErrorView;
use crate::text::trim;
use crate::value::{JsonView, NumberView};

verus! {

/// A call was refused for its arguments, with this message.
pub open spec fn asked_for(r: Result<CallView, ErrorView>, message: Seq<char>) -> bool {
    r is Err && r->Err_0.code == -32602 && r->Err_0.message == message
}

/// A tool that acts on a page does so in the profile that is named; without one it
/// is not carried out.
pub proof fn lemma_profile_is_needed(tool: Seq<char>, args: JsonView, gate: Gate)
    requires
        args.field_str("profile_id"@) is None,
        tool == "navigate"@ || tool == "screenshot"@ || tool == "evaluate_javascript"@ || tool
            == "click_element"@ || tool == "type_text"@ || tool == "get_page_content"@ || tool
            == "get_interactive_elements"@ || tool == "click_by_index"@ || tool == "type_by_index"@
            || tool == "press_key"@ || tool == "upload_file"@ || tool == "new_tab"@ || tool
            == "switch_tab"@ || tool == "close_tab"@ || tool == "list_tabs"@ || tool
            == "get_page_info"@ || tool == "run_profile"@ || tool == "kill_profile"@ || tool
            == "get_profile"@ || tool == "update_profile"@ || tool == "run_scenario"@,
    ensures
        asked_for(dispatched(tool, args, gate), "Missing profile_id"@),
{
    lemma_tool_names();
}

/// Navigating, running a script and clicking take the address, the script or the
/// selector that was given.
pub proof fn lemma_text_calls(
    args: JsonView,
    gate: Gate,
    id: Seq<char>,
    t: Seq<char>,
    a: bool,
    b: bool,
)
    requires
        args.field_str("profile_id"@) == Some(id),
    ensures
        args.field_str("url"@) == Some(t) ==> dispatched("navigate"@, args, gate) == Ok::<
            CallView,
            ErrorView,
        >(CallView::Navigate { profile_id: id, url: t }),
        args.field_str("url"@) is None ==> asked_for(
            dispatched("navigate"@, args, gate),
            "Missing url"@,
        ),
        args.field_str("selector"@) == Some(t) ==> dispatched("click_element"@, args, gate) == Ok::<
            CallView,
            ErrorView,
        >(CallView::Click { profile_id: id, selector: t }),
        args.field_str("selector"@) is None ==> asked_for(
            dispatched("click_element"@, args, gate),
            "Missing selector"@,
        ),
        args.field_str("expression"@) == Some(t) && args.field_bool("await_promise"@) == Some(a)
            && args.field_bool("wait_for_load"@) == Some(b) ==> dispatched(
            "evaluate_javascript"@,
            args,
            gate,
        ) == Ok::<CallView, ErrorView>(
            CallView::Evaluate {
                profile_id: id,
                expression: t,
                await_promise: a,
                wait_for_load: b,
            },
        ),
        args.field_str("expression"@) == Some(t) && args.field("await_promise"@) is None
            && args.field("wait_for_load"@) is None ==> dispatched(
            "evaluate_javascript"@,
            args,
            gate,
        ) == Ok::<CallView, ErrorView>(
            CallView::Evaluate {
                profile_id: id,
                expression: t,
                await_promise: false,
                wait_for_load: false,
            },
        ),
        args.field_str("expression"@) is None ==> asked_for(
            dispatched("evaluate_javascript"@, args, gate),
            "Missing expression"@,
        ),
{
    lemma_tool_names();
}

/// Typing takes the element, the text and the pace that were given. The element is
/// emptied first unless that is not wanted, and the text goes in at once only where
/// it is.
pub proof fn lemma_typing_calls(
    args: JsonView,
    gate: Gate,
    id: Seq<char>,
    selector: Seq<char>,
    index: u64,
    text: Seq<char>,
    n: NumberView,
    clear: bool,
    instant: bool,
)
    requires
        args.field_str("profile_id"@) == Some(id),
        args.field_str("text"@) == Some(text),
        args.field("wpm"@) == Some(JsonView::Number(n)),
        args.field_bool("clear_first"@) == Some(clear) || (clear && args.field("clear_first"@)
            is None),
        args.field_bool("instant"@) == Some(instant) || (!instant && args.field("instant"@)
            is None),
    ensures
        args.field_str("selector"@) == Some(selector) ==> dispatched("type_text"@, args, gate)
            == Ok::<CallView, ErrorView>(
            CallView::TypeText {
                profile_id: id,
                selector,
                text,
                clear_first: clear,
                instant,
                wpm: Some(n),
            },
        ),
        args.field_uint("index"@) == Some(index) ==> dispatched("type_by_index"@, args, gate)
            == Ok::<CallView, ErrorView>(
            CallView::TypeIndex {
                profile_id: id,
                index,
                text,
                clear_first: clear,
                instant,
                wpm: Some(n),
            },
        ),
        args.field_uint("index"@) is None ==> asked_for(
            dispatched("type_by_index"@, args, gate),
            "Missing index"@,
        ),
{
    lemma_tool_names();
}

/// Without a text nothing is typed.
pub proof fn lemma_text_is_needed(args: JsonView, gate: Gate)
    requires
        args.field_str("profile_id"@) is Some,
        args.field_str("selector"@) is Some,
        args.field_uint("index"@) is Some,
        args.field_str("text"@) is None,
    ensures
        asked_for(dispatched("type_text"@, args, gate), "Missing text"@),
        asked_for(dispatched("type_by_index"@, args, gate), "Missing text"@),
{
    lemma_tool_names();
}

/// Elements and tabs are acted on by the number that was given.
pub proof fn lemma_index_calls(args: JsonView, gate: Gate, id: Seq<char>, index: u64, url: Seq<char>)
    requires
        args.field_str("profile_id"@) == Some(id),
        args.field_uint("index"@) == Some(index),
    ensures
        dispatched("click_by_index"@, args, gate) == Ok::<CallView, ErrorView>(
            CallView::ClickIndex { profile_id: id, index },
        ),
        dispatched("switch_tab"@, args, gate) == Ok::<CallView, ErrorView>(
            CallView::SwitchTab { profile_id: id, index },
        ),
        dispatched("close_tab"@, args, gate) == Ok::<CallView, ErrorView>(
            CallView::CloseTab { profile_id: id, index },
        ),
        args.field_str("url"@) == Some(url) ==> dispatched("new_tab"@, args, gate) == Ok::<
            CallView,
            ErrorView,
        >(CallView::NewTab { profile_id: id, url }),
        args.field("url"@) is None ==> dispatched("new_tab"@, args, gate) == Ok::<
            CallView,
            ErrorView,
        >(CallView::NewTab { profile_id: id, url: "about:blank"@ }),
{
    lemma_tool_names();
}

/// Reading a page and taking a picture of it go by the settings that were given. As a
/// rule a page is read as text, up to 40000 characters, and a picture is one of what
/// is in view, as PNG.
pub proof fn lemma_reading_calls(
    args: JsonView,
    gate: Gate,
    id: Seq<char>,
    format: Seq<char>,
    selector: Seq<char>,
    max: u64,
    quality: i64,
    full: bool,
)
    requires
        args.field_str("profile_id"@) == Some(id),
    ensures
        args.field_str("format"@) == Some(format) && args.field_str("selector"@) == Some(selector)
            && args.field_uint("max_chars"@) == Some(max) ==> dispatched(
            "get_page_content"@,
            args,
            gate,
        ) == Ok::<CallView, ErrorView>(
            CallView::PageContent {
                profile_id: id,
                format,
                selector: Some(selector),
                max_chars: max,
            },
        ),
        args.field("format"@) is None && args.field("selector"@) is None && args.field("max_chars"@)
            is None ==> dispatched("get_page_content"@, args, gate) == Ok::<CallView, ErrorView>(
            CallView::PageContent {
                profile_id: id,
                format: "text"@,
                selector: None,
                max_chars: 40000,
            },
        ),
        args.field_uint("max_chars"@) == Some(max) ==> dispatched(
            "get_interactive_elements"@,
            args,
            gate,
        ) == Ok::<CallView, ErrorView>(CallView::Elements { profile_id: id, max_chars: max }),
        args.field("max_chars"@) is None ==> dispatched("get_interactive_elements"@, args, gate)
            == Ok::<CallView, ErrorView>(CallView::Elements { profile_id: id, max_chars: 40000 }),
        args.field_str("format"@) == Some(format) && args.field_int("quality"@) == Some(quality)
            && args.field_bool("full_page"@) == Some(full) ==> dispatched("screenshot"@, args, gate)
            == Ok::<CallView, ErrorView>(
            CallView::Screenshot { profile_id: id, format, quality: Some(quality), full_page: full },
        ),
        args.field("format"@) is None && args.field("quality"@) is None && args.field("full_page"@)
            is None ==> dispatched("screenshot"@, args, gate) == Ok::<CallView, ErrorView>(
            CallView::Screenshot {
                profile_id: id,
                format: "png"@,
                quality: None,
                full_page: false,
            },
        ),
        dispatched("list_tabs"@, args, gate) == Ok::<CallView, ErrorView>(
            CallView::One { tool: "list_tabs"@, value: id },
        ),
        dispatched("get_page_info"@, args, gate) == Ok::<CallView, ErrorView>(
            CallView::One { tool: "get_page_info"@, value: id },
        ),
{
    lemma_tool_names();
}

/// Keys are pressed, and files attached, as they are listed; no file is nothing to
/// attach.
pub proof fn lemma_listing_calls(
    args: JsonView,
    gate: Gate,
    id: Seq<char>,
    t: Seq<char>,
    a: Seq<JsonView>,
)
    requires
        args.field_str("profile_id"@) == Some(id),
    ensures
        args.field_str("key"@) == Some(t) && args.field_array("modifiers"@) == Some(a)
            ==> dispatched("press_key"@, args, gate) == Ok::<CallView, ErrorView>(
            CallView::PressKey { profile_id: id, key: t, modifiers: texts_in(a) },
        ),
        args.field_str("key"@) == Some(t) && args.field("modifiers"@) is None ==> dispatched(
            "press_key"@,
            args,
            gate,
        ) == Ok::<CallView, ErrorView>(
            CallView::PressKey { profile_id: id, key: t, modifiers: Seq::empty() },
        ),
        args.field_str("selector"@) == Some(t) && args.field_array("files"@) == Some(a) && texts_in(
            a,
        ).len() > 0 ==> dispatched("upload_file"@, args, gate) == Ok::<CallView, ErrorView>(
            CallView::UploadFile { profile_id: id, selector: t, files: texts_in(a) },
        ),
        args.field_str("selector"@) == Some(t) && args.field("files"@) is None ==> asked_for(
            dispatched("upload_file"@, args, gate),
            "No files provided"@,
        ),
{
    lemma_tool_names();
}

/// Of a list of texts every text is taken, in its order, and what is no text is
/// passed over.
pub proof fn lemma_texts_in(a: Seq<JsonView>, t: Seq<char>, v: JsonView)
    ensures
        texts_in(Seq::empty()) == Seq::<Seq<char>>::empty(),
        texts_in(a.push(JsonView::Str(t))) == texts_in(a).push(t),
        !(v is Str) ==> texts_in(a.push(v)) == texts_in(a),
{
    assert(a.push(JsonView::Str(t)).drop_last() =~= a);
    assert(a.push(v).drop_last() =~= a);
}

/// A browser is launched for the profile that is named, at the address that was
/// given, and in view unless that is not wanted. A scenario runs on the profile that
/// is named; it is the one that was handed over, or else the one that is named.
pub proof fn lemma_run_calls(
    args: JsonView,
    gate: Gate,
    id: Seq<char>,
    url: Seq<char>,
    headless: bool,
    v: JsonView,
    saved: Seq<char>,
    limit: i64,
)
    requires
        args.field_str("profile_id"@) == Some(id),
    ensures
        args.field_str("url"@) == Some(url) && args.field_bool("headless"@) == Some(headless)
            ==> dispatched("run_profile"@, args, gate) == Ok::<CallView, ErrorView>(
            CallView::RunProfile { profile_id: id, url: Some(url), headless },
        ),
        args.field("url"@) is None && args.field("headless"@) is None ==> dispatched(
            "run_profile"@,
            args,
            gate,
        ) == Ok::<CallView, ErrorView>(
            CallView::RunProfile { profile_id: id, url: None, headless: false },
        ),
        args.field("triggered_by"@) is None ==> dispatched("run_scenario"@, args, gate) == Ok::<
            CallView,
            ErrorView,
        >(CallView::RunScenario { profile_id: id, triggered_by: "api"@ }),
        args.field("scenario"@) == Some(v) ==> source_of(args) == Ok::<SourceView, ErrorView>(
            SourceView::Inline { value: v },
        ),
        args.field("scenario"@) is None && args.field_str("scenario_id"@) == Some(saved)
            ==> source_of(args) == Ok::<SourceView, ErrorView>(SourceView::Saved { id: saved }),
        args.field("scenario"@) is None && args.field("scenario_id"@) is None ==> source_of(args)
            is Err,
        args.field_int("limit"@) == Some(limit) ==> dispatched("list_scenario_runs"@, args, gate)
            == Ok::<CallView, ErrorView>(CallView::ListRuns { limit }),
        args.field("limit"@) is None ==> dispatched("list_scenario_runs"@, args, gate) == Ok::<
            CallView,
            ErrorView,
        >(CallView::ListRuns { limit: 50 }),
{
    lemma_tool_names();
}

/// Each change of a profile that the arguments name is made, and no other: an empty
/// text takes an assignment away.
pub proof fn lemma_profile_changes(args: JsonView, c: ChangeView)
    ensures
        changes_in(args).contains(c) <==> match c {
            ChangeView::Rename { name } => args.field_str("name"@) == Some(name),
            ChangeView::Proxy { id } => names(args, "proxy_id"@, id),
            ChangeView::LaunchHook { url } => names(args, "launch_hook"@, url),
            ChangeView::Group { id } => names(args, "group_id"@, id),
            ChangeView::Tags { tags } => args.field_array("tags"@) is Some && texts_in(
                args.field_array("tags"@)->0,
            ) == tags,
            ChangeView::ExtensionGroup { id } => names(args, "extension_group_id"@, id),
            ChangeView::BypassRules { rules } => args.field_array("proxy_bypass_rules"@) is Some
                && texts_in(args.field_array("proxy_bypass_rules"@)->0) == rules,
        },
{
    let a = crate::calls::push_change(
        Seq::empty(),
        match args.field_str("name"@) {
            Some(name) => Some(ChangeView::Rename { name }),
            None => None,
        },
    );
    let o2 = match args.field_str("proxy_id"@) {
        Some(s) => Some(ChangeView::Proxy { id: crate::calls::not_empty(s) }),
        None => None,
    };
    let o3 = match args.field_str("launch_hook"@) {
        Some(s) => Some(ChangeView::LaunchHook { url: crate::calls::not_empty(s) }),
        None => None,
    };
    let o4 = match args.field_str("group_id"@) {
        Some(s) => Some(ChangeView::Group { id: crate::calls::not_empty(s) }),
        None => None,
    };
    let o5 = match crate::calls::texts_field(args, "tags"@) {
        Some(tags) => Some(ChangeView::Tags { tags }),
        None => None,
    };
    let o6 = match args.field_str("extension_group_id"@) {
        Some(s) => Some(ChangeView::ExtensionGroup { id: crate::calls::not_empty(s) }),
        None => None,
    };
    let o7 = match crate::calls::texts_field(args, "proxy_bypass_rules"@) {
        Some(rules) => Some(ChangeView::BypassRules { rules }),
        None => None,
    };
    let b = crate::calls::push_change(a, o2);
    let d = crate::calls::push_change(b, o3);
    let e = crate::calls::push_change(d, o4);
    let f = crate::calls::push_change(e, o5);
    let g = crate::calls::push_change(f, o6);
    lemma_push_change(
        Seq::empty(),
        match args.field_str("name"@) {
            Some(name) => Some(ChangeView::Rename { name }),
            None => None,
        },
        c,
    );
    lemma_push_change(a, o2, c);
    lemma_push_change(b, o3, c);
    lemma_push_change(d, o4, c);
    lemma_push_change(e, o5, c);
    lemma_push_change(f, o6, c);
    lemma_push_change(g, o7, c);
}

/// The text under the key is that value, or empty where there is none.
pub open spec fn names(args: JsonView, k: Seq<char>, value: Option<Seq<char>>) -> bool {
    match value {
        Some(v) => v.len() > 0 && args.field_str(k) == Some(v),
        None => args.field_str(k) is Some && args.field_str(k)->0.len() == 0,
    }
}

proof fn lemma_push_change(v: Seq<ChangeView>, o: Option<ChangeView>, c: ChangeView)
    ensures
        crate::calls::push_change(v, o).contains(c) <==> v.contains(c) || o == Some(c),
{
    let w = crate::calls::push_change(v, o);
    if let Some(x) = o {
        if w.contains(c) {
            let i = choose|i: int| 0 <= i < w.len() && w[i] == c;
            if i < v.len() {
                assert(v[i] == c);
            }
        }
        if v.contains(c) {
            let i = choose|i: int| 0 <= i < v.len() && v[i] == c;
            assert(w[i] == c);
        }
        assert(w[v.len() as int] == x);
    }
}

/// A proxy is reached as the arguments say where they say something, and as before
/// where they do not; the settings change exactly where one of them is named.
pub proof fn lemma_patched_proxy(args: JsonView, p: ProxyView, t: Seq<char>, n: u64)
    ensures
        args.field_str("host"@) == Some(t) ==> patched_proxy(args, p).host == t,
        args.field_str("proxy_type"@) == Some(t) ==> patched_proxy(args, p).proxy_type == t,
        args.field_str("username"@) == Some(t) ==> patched_proxy(args, p).username == Some(t),
        args.field_str("password"@) == Some(t) ==> patched_proxy(args, p).password == Some(t),
        args.field_uint("port"@) == Some(n) && n <= u16::MAX ==> patched_proxy(args, p).port == n,
        args.field("host"@) is None ==> patched_proxy(args, p).host == p.host,
        args.field("proxy_type"@) is None ==> patched_proxy(args, p).proxy_type == p.proxy_type,
        args.field("username"@) is None ==> patched_proxy(args, p).username == p.username,
        args.field("password"@) is None ==> patched_proxy(args, p).password == p.password,
        args.field("port"@) is None ==> patched_proxy(args, p).port == p.port,
        !changes_settings(args) ==> patched_proxy(args, p) == p,
{
    if n <= u16::MAX {
        vstd::arithmetic::div_mod::lemma_small_mod(n as nat, 65536);
    }
}

/// What is made takes its parts from the arguments: a profile of one of the two
/// browsers, and a proxy with its address.
pub proof fn lemma_making_calls(
    args: JsonView,
    gate: Gate,
    name: Seq<char>,
    browser: Seq<char>,
    kind: Seq<char>,
    host: Seq<char>,
    port: u64,
)
    requires
        args.field_str("name"@) == Some(name),
        gate.initialized,
        port <= u16::MAX,
    ensures
        args.field_str("browser"@) == Some(browser) && (browser == "camoufox"@ || browser
            == "cloak"@) ==> (dispatched("create_profile"@, args, gate) matches Ok(
            CallView::CreateProfile { name: n, browser: b, proxy_id, launch_hook, group_id, .. },
        ) && n == name && b == browser && proxy_id == args.field_str("proxy_id"@) && launch_hook
            == args.field_str("launch_hook"@) && group_id == args.field_str("group_id"@)),
        args.field_str("browser"@) == Some(browser) && browser != "camoufox"@ && browser
            != "cloak"@ ==> asked_for(
            dispatched("create_profile"@, args, gate),
            "browser must be 'camoufox' or 'cloak'"@,
        ),
        args.field_str("proxy_type"@) == Some(kind) && args.field_str("host"@) == Some(host)
            && args.field_uint("port"@) == Some(port) ==> dispatched("create_proxy"@, args, gate)
            == Ok::<CallView, ErrorView>(
            CallView::CreateProxy {
                name,
                settings: ProxyView {
                    proxy_type: kind,
                    host,
                    port: port as u16,
                    username: args.field_str("username"@),
                    password: args.field_str("password"@),
                },
            },
        ),
        dispatched("create_group"@, args, gate) == Ok::<CallView, ErrorView>(
            CallView::One { tool: "create_group"@, value: name },
        ),
{
    lemma_tool_names();
    vstd::arithmetic::div_mod::lemma_small_mod(port as nat, 65536);
}

/// What is set for a profile is what the arguments say: a fingerprint that is a text
/// is given, null takes it away, and anything else leaves it; the level `none`
/// switches the blocklist off.
pub proof fn lemma_setting_calls(
    args: JsonView,
    gate: Gate,
    id: Seq<char>,
    t: Seq<char>,
    a: Seq<JsonView>,
)
    requires
        args.field_str("profile_id"@) == Some(id),
        gate.initialized,
    ensures
        args.field("fingerprint"@) == Some(JsonView::Str(t)) ==> fingerprint_in(args) == (
        FingerprintView::Give { text: t }),
        args.field("fingerprint"@) == Some(JsonView::Null) ==> fingerprint_in(args) is Clear,
        args.field("fingerprint"@) is None ==> fingerprint_in(args) is Keep,
        dispatched("update_profile_fingerprint"@, args, gate) == Ok::<CallView, ErrorView>(
            CallView::UpdateFingerprint {
                profile_id: id,
                fingerprint: fingerprint_in(args),
                os: args.field_str("os"@),
                randomize: args.field_bool("randomize_fingerprint_on_launch"@),
            },
        ),
        args.field_str("level"@) == Some(t) ==> (dispatched(
            "update_profile_dns_blocklist"@,
            args,
            gate,
        ) matches Ok(CallView::UpdateDnsBlocklist { profile_id, level, blocklist }) && profile_id
            == id && level == t && (t == "none"@ ==> blocklist is None) && (t != "none"@
            ==> blocklist == Some(t))),
        args.field_array("rules"@) == Some(a) ==> dispatched(
            "update_profile_proxy_bypass_rules"@,
            args,
            gate,
        ) == Ok::<CallView, ErrorView>(
            CallView::UpdateBypassRules { profile_id: id, rules: texts_in(a) },
        ),
        args.field_str("tag"@) == Some(t) && trim(t).len() > 0 ==> dispatched(
            "add_profile_tag"@,
            args,
            gate,
        ) == Ok::<CallView, ErrorView>(CallView::AddProfileTag { profile_id: id, tag: trim(t) }),
        args.field_str("content"@) == Some(t) ==> dispatched("import_profile_cookies"@, args, gate)
            == Ok::<CallView, ErrorView>(CallView::ImportCookies { profile_id: id, content: t }),
{
    lemma_tool_names();
}

/// Before the program is ready, no tool that changes profiles, groups or proxies is
/// carried out, and tools of a team are for a team alone.
pub proof fn lemma_gates(tool: Seq<char>, args: JsonView, gate: Gate)
    ensures
        !gate.initialized && (tool == "update_profile"@ || tool == "delete_profile"@ || tool
            == "create_group"@ || tool == "update_group"@ || tool == "delete_group"@ || tool
            == "delete_proxy"@ || tool == "add_profile_tag"@ || tool
            == "assign_profiles_to_group"@) ==> dispatched(tool, args, gate) is Err,
        !gate.team_plan && (tool == "get_team_locks"@ || tool == "get_team_lock_status"@)
            ==> dispatched(tool, args, gate) is Err,
        gate.team_plan ==> dispatched("get_team_locks"@, args, gate) is Ok,
{
    lemma_tool_names();
}

/// Proxies and private networks are taken over from the content that was given, in
/// the format that was named; profiles are assigned to the group that was named, or to
/// none.
pub proof fn lemma_moving_calls(
    args: JsonView,
    gate: Gate,
    content: Seq<char>,
    t: Seq<char>,
    a: Seq<JsonView>,
)
    requires
        gate.initialized,
    ensures
        args.field_str("format"@) == Some("json"@) ==> dispatched("export_proxies"@, args, gate)
            == Ok::<CallView, ErrorView>(CallView::ExportProxies { as_json: true }),
        args.field_str("format"@) == Some("txt"@) ==> dispatched("export_proxies"@, args, gate)
            == Ok::<CallView, ErrorView>(CallView::ExportProxies { as_json: false }),
        args.field_str("format"@) == Some(t) && t != "json"@ && t != "txt"@ ==> dispatched(
            "export_proxies"@,
            args,
            gate,
        ) is Err,
        args.field_str("content"@) == Some(content) && args.field_str("format"@) == Some("json"@)
            ==> dispatched("import_proxies"@, args, gate) == Ok::<CallView, ErrorView>(
            CallView::ImportProxies {
                content,
                as_json: true,
                name_prefix: args.field_str("name_prefix"@),
            },
        ),
        args.field_str("content"@) == Some(content) && args.field_str("filename"@) == Some(t)
            ==> dispatched("import_vpn"@, args, gate) == Ok::<CallView, ErrorView>(
            CallView::ImportVpn { content, filename: t, name: args.field_str("name"@) },
        ),
        args.field_array("profile_ids"@) == Some(a) ==> dispatched(
            "assign_profiles_to_group"@,
            args,
            gate,
        ) == Ok::<CallView, ErrorView>(
            CallView::AssignProfiles {
                profile_ids: texts_in(a),
                group_id: args.field_str("group_id"@),
            },
        ),
        args.field_str("group_id"@) == Some(content) && args.field_str("name"@) == Some(t)
            ==> dispatched("update_group"@, args, gate) == Ok::<CallView, ErrorView>(
            CallView::UpdateGroup { group_id: content, name: t },
        ),
        args.field_str("proxy_id"@) == Some(t) ==> dispatched("update_proxy"@, args, gate) == Ok::<
            CallView,
            ErrorView,
        >(
            CallView::UpdateProxy {
                proxy_id: t,
                name: args.field_str("name"@),
                has_settings: changes_settings(args),
            },
        ),
        changes_settings(args) <==> args.field("proxy_type"@) is Some || args.field("host"@) is Some
            || args.field("port"@) is Some || args.field("username"@) is Some || args.field(
            "password"@,
        ) is Some,
{
    lemma_tool_names();
    reveal_strlit("json");
    reveal_strlit("txt");
    assert("json"@.len() == 4 && "txt"@.len() == 3);
}

/// The names of the tools, as far as it takes to tell them apart.
proof fn lemma_tool_names()
    ensures
        "list_profiles"@.len() == 13 && "list_profiles"@[0] == 'l',
        "list_tags"@.len() == 9 && "list_tags"@[0] == 'l' && "list_tags"@[7] == 'g',
        "list_proxies"@.len() == 12 && "list_proxies"@[0] == 'l' && "list_proxies"@[7] == 'o',
        "list_groups"@.len() == 11 && "list_groups"@[0] == 'l',
        "list_vpn_configs"@.len() == 16 && "list_vpn_configs"@[0] == 'l',
        "get_dns_blocklist_status"@.len() == 24 && "get_dns_blocklist_status"@[4] == 'd',
        "list_extensions"@.len() == 15 && "list_extensions"@[0] == 'l',
        "list_extension_groups"@.len() == 21,
        "get_profile"@.len() == 11 && "get_profile"@[0] == 'g',
        "kill_profile"@.len() == 12 && "kill_profile"@[0] == 'k' && "kill_profile"@[7] == 'o',
        "delete_profile"@.len() == 14 && "delete_profile"@[0] == 'd' && "delete_profile"@[4] == 't',
        "get_profile_status"@.len() == 18 && "get_profile_status"@[0] == 'g',
        "get_profile_fingerprint"@.len() == 23,
        "get_page_info"@.len() == 13 && "get_page_info"@[0] == 'g',
        "list_tabs"@.len() == 9 && "list_tabs"@[0] == 'l' && "list_tabs"@[7] == 'b',
        "get_group"@.len() == 9 && "get_group"@[0] == 'g' && "get_group"@[7] == 'u',
        "delete_group"@.len() == 12 && "delete_group"@[0] == 'd' && "delete_group"@[7] == 'g',
        "get_proxy"@.len() == 9 && "get_proxy"@[0] == 'g' && "get_proxy"@[7] == 'x',
        "delete_proxy"@.len() == 12 && "delete_proxy"@[0] == 'd' && "delete_proxy"@[7] == 'p',
        "delete_vpn"@.len() == 10 && "delete_vpn"@[1] == 'e',
        "connect_vpn"@.len() == 11 && "connect_vpn"@[0] == 'c',
        "disconnect_vpn"@.len() == 14 && "disconnect_vpn"@[0] == 'd' && "disconnect_vpn"@[4] == 'o',
        "get_vpn_status"@.len() == 14 && "get_vpn_status"@[0] == 'g' && "get_vpn_status"@[4] == 'v',
        "create_group"@.len() == 12 && "create_group"@[0] == 'c' && "create_group"@[7] == 'g',
        "create_extension_group"@.len() == 22 && "create_extension_group"@[0] == 'c',
        "delete_extension"@.len() == 16 && "delete_extension"@[0] == 'd',
        "delete_extension_group"@.len() == 22 && "delete_extension_group"@[0] == 'd',
        "run_profile"@.len() == 11 && "run_profile"@[0] == 'r',
        "create_profile"@.len() == 14 && "create_profile"@[0] == 'c' && "create_profile"@[4] == 't',
        "update_profile"@.len() == 14 && "update_profile"@[0] == 'u' && "update_profile"@[4] == 't',
        "add_profile_tag"@.len() == 15 && "add_profile_tag"@[0] == 'a',
        "update_group"@.len() == 12 && "update_group"@[0] == 'u' && "update_group"@[7] == 'g',
        "assign_profiles_to_group"@.len() == 24 && "assign_profiles_to_group"@[4] == 'g',
        "create_proxy"@.len() == 12 && "create_proxy"@[0] == 'c' && "create_proxy"@[7] == 'p',
        "update_proxy"@.len() == 12 && "update_proxy"@[0] == 'u' && "update_proxy"@[7] == 'p',
        "export_proxies"@.len() == 14 && "export_proxies"@[0] == 'e' && "export_proxies"@[4] == 'r',
        "import_proxies"@.len() == 14 && "import_proxies"@[0] == 'i' && "import_proxies"@[4] == 'r',
        "import_vpn"@.len() == 10 && "import_vpn"@[1] == 'm',
        "update_profile_fingerprint"@.len() == 26,
        "update_profile_proxy_bypass_rules"@.len() == 33 && "update_profile_proxy_bypass_rules"@[0] == 'u',
        "update_profile_dns_blocklist"@.len() == 28,
        "assign_extension_group_to_profile"@.len() == 33 && "assign_extension_group_to_profile"@[0] == 'a',
        "import_profile_cookies"@.len() == 22 && "import_profile_cookies"@[0] == 'i',
        "get_team_locks"@.len() == 14 && "get_team_locks"@[0] == 'g' && "get_team_locks"@[4] == 't',
        "get_team_lock_status"@.len() == 20,
        "navigate"@.len() == 8,
        "screenshot"@.len() == 10 && "screenshot"@[1] == 'c',
        "evaluate_javascript"@.len() == 19,
        "click_element"@.len() == 13 && "click_element"@[0] == 'c',
        "type_text"@.len() == 9 && "type_text"@[0] == 't' && "type_text"@[7] == 'x',
        "get_page_content"@.len() == 16 && "get_page_content"@[0] == 'g',
        "get_interactive_elements"@.len() == 24 && "get_interactive_elements"@[4] == 'i',
        "click_by_index"@.len() == 14 && "click_by_index"@[0] == 'c' && "click_by_index"@[4] == 'k',
        "type_by_index"@.len() == 13 && "type_by_index"@[0] == 't',
        "press_key"@.len() == 9 && "press_key"@[0] == 'p' && "press_key"@[7] == 'e',
        "upload_file"@.len() == 11 && "upload_file"@[0] == 'u',
        "new_tab"@.len() == 7,
        "switch_tab"@.len() == 10 && "switch_tab"@[1] == 'w',
        "close_tab"@.len() == 9 && "close_tab"@[0] == 'c' && "close_tab"@[7] == 'a',
        "run_scenario"@.len() == 12 && "run_scenario"@[0] == 'r' && "run_scenario"@[7] == 'n',
        "list_scenario_runs"@.len() == 18 && "list_scenario_runs"@[0] == 'l',
{
    reveal_strlit("list_profiles");
    reveal_strlit("list_tags");
    reveal_strlit("list_proxies");
    reveal_strlit("list_groups");
    reveal_strlit("list_vpn_configs");
    reveal_strlit("get_dns_blocklist_status");
    reveal_strlit("list_extensions");
    reveal_strlit("list_extension_groups");
    reveal_strlit("get_profile");
    reveal_strlit("kill_profile");
    reveal_strlit("delete_profile");
    reveal_strlit("get_profile_status");
    reveal_strlit("get_profile_fingerprint");
    reveal_strlit("get_page_info");
    reveal_strlit("list_tabs");
    reveal_strlit("get_group");
    reveal_strlit("delete_group");
    reveal_strlit("get_proxy");
    reveal_strlit("delete_proxy");
    reveal_strlit("delete_vpn");
    reveal_strlit("connect_vpn");
    reveal_strlit("disconnect_vpn");
    reveal_strlit("get_vpn_status");
    reveal_strlit("create_group");
    reveal_strlit("create_extension_group");
    reveal_strlit("delete_extension");
    reveal_strlit("delete_extension_group");
    reveal_strlit("run_profile");
    reveal_strlit("create_profile");
    reveal_strlit("update_profile");
    reveal_strlit("add_profile_tag");
    reveal_strlit("update_group");
    reveal_strlit("assign_profiles_to_group");
    reveal_strlit("create_proxy");
    reveal_strlit("update_proxy");
    reveal_strlit("export_proxies");
    reveal_strlit("import_proxies");
    reveal_strlit("import_vpn");
    reveal_strlit("update_profile_fingerprint");
    reveal_strlit("update_profile_proxy_bypass_rules");
    reveal_strlit("update_profile_dns_blocklist");
    reveal_strlit("assign_extension_group_to_profile");
    reveal_strlit("import_profile_cookies");
    reveal_strlit("get_team_locks");
    reveal_strlit("get_team_lock_status");
    reveal_strlit("navigate");
    reveal_strlit("screenshot");
    reveal_strlit("evaluate_javascript");
    reveal_strlit("click_element");
    reveal_strlit("type_text");
    reveal_strlit("get_page_content");
    reveal_strlit("get_interactive_elements");
    reveal_strlit("click_by_index");
    reveal_strlit("type_by_index");
    reveal_strlit("press_key");
    reveal_strlit("upload_file");
    reveal_strlit("new_tab");
    reveal_strlit("switch_tab");
    reveal_strlit("close_tab");
    reveal_strlit("run_scenario");
    reveal_strlit("list_scenario_runs");
}

} // verus!
