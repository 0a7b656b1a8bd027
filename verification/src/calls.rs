//! Tool calls: which tool, and what its arguments say.
use vstd::prelude::*;

use crate::plan::{opt_number, number_field};
use crate::protocol::{invalid, invalid_args, refusal, refused, ErrorView, McpError};
use crate::text::{join2, join3, lemma_texts_push, opt_text, same, texts, trim, trimmed};
use crate::tools::{
    all_tools, extension_tools, group_tools, identity_tools, page_tools, profile_tools, proxy_tools,
    reading_tools, vpn_tools, ToolView,
};
use crate::value::{
    lemma_array_view, lemma_object_view, values, Json, JsonView, Number, NumberView,
};

verus! {

broadcast use {lemma_array_view, lemma_object_view};

/// What a call depends on besides its arguments: whether the program is ready
/// to act, and whether it runs on a team plan.
#[derive(Debug, Clone, Copy, PartialEq, Eq, Structural)]
pub struct Gate {
    pub initialized: bool,
    pub team_plan: bool,
}

/// How to reach a proxy.
#[derive(Debug, PartialEq, Eq)]
pub struct ProxySettings {
    pub proxy_type: String,
    pub host: String,
    pub port: u16,
    pub username: Option<String>,
    pub password: Option<String>,
}

pub struct ProxyView {
    pub proxy_type: Seq<char>,
    pub host: Seq<char>,
    pub port: u16,
    pub username: Option<Seq<char>>,
    pub password: Option<Seq<char>>,
}

impl ProxySettings {
    pub open spec fn view(&self) -> ProxyView {
        ProxyView {
            proxy_type: self.proxy_type@,
            host: self.host@,
            port: self.port,
            username: opt_text(self.username),
            password: opt_text(self.password),
        }
    }
}

/// A change to a profile. An empty text takes an assignment away.
#[derive(Debug, PartialEq, Eq)]
pub enum ProfileChange {
    Rename { name: String },
    Proxy { id: Option<String> },
    LaunchHook { url: Option<String> },
    Group { id: Option<String> },
    Tags { tags: Vec<String> },
    ExtensionGroup { id: Option<String> },
    BypassRules { rules: Vec<String> },
}

#[allow(inconsistent_fields)]
pub enum ChangeView {
    Rename { name: Seq<char> },
    Proxy { id: Option<Seq<char>> },
    LaunchHook { url: Option<Seq<char>> },
    Group { id: Option<Seq<char>> },
    Tags { tags: Seq<Seq<char>> },
    ExtensionGroup { id: Option<Seq<char>> },
    BypassRules { rules: Seq<Seq<char>> },
}

impl ProfileChange {
    pub open spec fn view(&self) -> ChangeView {
        match self {
            ProfileChange::Rename { name } => ChangeView::Rename { name: name@ },
            ProfileChange::Proxy { id } => ChangeView::Proxy { id: opt_text(*id) },
            ProfileChange::LaunchHook { url } => ChangeView::LaunchHook { url: opt_text(*url) },
            ProfileChange::Group { id } => ChangeView::Group { id: opt_text(*id) },
            ProfileChange::Tags { tags } => ChangeView::Tags { tags: texts(tags@) },
            ProfileChange::ExtensionGroup { id } => ChangeView::ExtensionGroup { id: opt_text(*id) },
            ProfileChange::BypassRules { rules } => ChangeView::BypassRules { rules: texts(rules@) },
        }
    }
}

/// What becomes of the fingerprint of a profile.
#[derive(Debug, PartialEq, Eq)]
pub enum FingerprintChange {
    Keep,
    /// There is none from now on.
    Clear,
    Give { text: String },
}

pub enum FingerprintView {
    Keep,
    Clear,
    Give { text: Seq<char> },
}

impl FingerprintChange {
    pub open spec fn view(&self) -> FingerprintView {
        match self {
            FingerprintChange::Keep => FingerprintView::Keep,
            FingerprintChange::Clear => FingerprintView::Clear,
            FingerprintChange::Give { text } => FingerprintView::Give { text: text@ },
        }
    }
}

/// The fingerprint that the arguments give: null clears it.
pub open spec fn fingerprint_in(args: JsonView) -> FingerprintView {
    match args.field("fingerprint"@) {
        Some(JsonView::Str(t)) => FingerprintView::Give { text: t },
        Some(JsonView::Null) => FingerprintView::Clear,
        _ => FingerprintView::Keep,
    }
}

fn read_fingerprint(args: &Json) -> (r: FingerprintChange)
    ensures
        r@ == fingerprint_in(args@),
{
    match args.get("fingerprint") {
        Some(Json::Str(t)) => FingerprintChange::Give { text: t.clone() },
        Some(Json::Null) => FingerprintChange::Clear,
        _ => FingerprintChange::Keep,
    }
}

pub open spec fn changes(v: Seq<ProfileChange>) -> Seq<ChangeView> {
    v.map_values(|c: ProfileChange| c@)
}

/// A tool call with its arguments read.
#[allow(inconsistent_fields)]
#[derive(Debug, PartialEq, Eq)]
pub enum ToolCall {
    /// A tool without arguments.
    Plain { tool: String },
    /// A tool with one argument, an id or a name.
    One { tool: String, value: String },
    RunProfile { profile_id: String, url: Option<String>, headless: bool },
    CreateProfile {
        name: String,
        browser: String,
        proxy_id: Option<String>,
        launch_hook: Option<String>,
        group_id: Option<String>,
        tags: Option<Vec<String>>,
    },
    UpdateProfile { profile_id: String, changes: Vec<ProfileChange> },
    AddProfileTag { profile_id: String, tag: String },
    UpdateGroup { group_id: String, name: String },
    AssignProfiles { profile_ids: Vec<String>, group_id: Option<String> },
    CreateProxy { name: String, settings: ProxySettings },
    UpdateProxy { proxy_id: String, name: Option<String>, has_settings: bool },
    ExportProxies { as_json: bool },
    ImportProxies { content: String, as_json: bool, name_prefix: Option<String> },
    ImportVpn { content: String, filename: String, name: Option<String> },
    UpdateFingerprint {
        profile_id: String,
        fingerprint: FingerprintChange,
        os: Option<String>,
        randomize: Option<bool>,
    },
    UpdateBypassRules { profile_id: String, rules: Vec<String> },
    UpdateDnsBlocklist { profile_id: String, level: String, blocklist: Option<String> },
    AssignExtensionGroup { profile_id: String, group: Option<String> },
    ImportCookies { profile_id: String, content: String },
    Navigate { profile_id: String, url: String },
    Screenshot { profile_id: String, format: String, quality: Option<i64>, full_page: bool },
    Evaluate { profile_id: String, expression: String, await_promise: bool, wait_for_load: bool },
    Click { profile_id: String, selector: String },
    TypeText {
        profile_id: String,
        selector: String,
        text: String,
        clear_first: bool,
        instant: bool,
        wpm: Option<Number>,
    },
    PageContent {
        profile_id: String,
        format: String,
        selector: Option<String>,
        max_chars: u64,
    },
    Elements { profile_id: String, max_chars: u64 },
    ClickIndex { profile_id: String, index: u64 },
    TypeIndex {
        profile_id: String,
        index: u64,
        text: String,
        clear_first: bool,
        instant: bool,
        wpm: Option<Number>,
    },
    PressKey { profile_id: String, key: String, modifiers: Vec<String> },
    UploadFile { profile_id: String, selector: String, files: Vec<String> },
    NewTab { profile_id: String, url: String },
    SwitchTab { profile_id: String, index: u64 },
    CloseTab { profile_id: String, index: u64 },
    RunScenario { profile_id: String, triggered_by: String },
    ListRuns { limit: i64 },
}

#[allow(inconsistent_fields)]
pub enum CallView {
    Plain { tool: Seq<char> },
    One { tool: Seq<char>, value: Seq<char> },
    RunProfile { profile_id: Seq<char>, url: Option<Seq<char>>, headless: bool },
    CreateProfile {
        name: Seq<char>,
        browser: Seq<char>,
        proxy_id: Option<Seq<char>>,
        launch_hook: Option<Seq<char>>,
        group_id: Option<Seq<char>>,
        tags: Option<Seq<Seq<char>>>,
    },
    UpdateProfile { profile_id: Seq<char>, changes: Seq<ChangeView> },
    AddProfileTag { profile_id: Seq<char>, tag: Seq<char> },
    UpdateGroup { group_id: Seq<char>, name: Seq<char> },
    AssignProfiles { profile_ids: Seq<Seq<char>>, group_id: Option<Seq<char>> },
    CreateProxy { name: Seq<char>, settings: ProxyView },
    UpdateProxy { proxy_id: Seq<char>, name: Option<Seq<char>>, has_settings: bool },
    ExportProxies { as_json: bool },
    ImportProxies { content: Seq<char>, as_json: bool, name_prefix: Option<Seq<char>> },
    ImportVpn { content: Seq<char>, filename: Seq<char>, name: Option<Seq<char>> },
    UpdateFingerprint {
        profile_id: Seq<char>,
        fingerprint: FingerprintView,
        os: Option<Seq<char>>,
        randomize: Option<bool>,
    },
    UpdateBypassRules { profile_id: Seq<char>, rules: Seq<Seq<char>> },
    UpdateDnsBlocklist { profile_id: Seq<char>, level: Seq<char>, blocklist: Option<Seq<char>> },
    AssignExtensionGroup { profile_id: Seq<char>, group: Option<Seq<char>> },
    ImportCookies { profile_id: Seq<char>, content: Seq<char> },
    Navigate { profile_id: Seq<char>, url: Seq<char> },
    Screenshot { profile_id: Seq<char>, format: Seq<char>, quality: Option<i64>, full_page: bool },
    Evaluate {
        profile_id: Seq<char>,
        expression: Seq<char>,
        await_promise: bool,
        wait_for_load: bool,
    },
    Click { profile_id: Seq<char>, selector: Seq<char> },
    TypeText {
        profile_id: Seq<char>,
        selector: Seq<char>,
        text: Seq<char>,
        clear_first: bool,
        instant: bool,
        wpm: Option<NumberView>,
    },
    PageContent {
        profile_id: Seq<char>,
        format: Seq<char>,
        selector: Option<Seq<char>>,
        max_chars: u64,
    },
    Elements { profile_id: Seq<char>, max_chars: u64 },
    ClickIndex { profile_id: Seq<char>, index: u64 },
    TypeIndex {
        profile_id: Seq<char>,
        index: u64,
        text: Seq<char>,
        clear_first: bool,
        instant: bool,
        wpm: Option<NumberView>,
    },
    PressKey { profile_id: Seq<char>, key: Seq<char>, modifiers: Seq<Seq<char>> },
    UploadFile { profile_id: Seq<char>, selector: Seq<char>, files: Seq<Seq<char>> },
    NewTab { profile_id: Seq<char>, url: Seq<char> },
    SwitchTab { profile_id: Seq<char>, index: u64 },
    CloseTab { profile_id: Seq<char>, index: u64 },
    RunScenario { profile_id: Seq<char>, triggered_by: Seq<char> },
    ListRuns { limit: i64 },
}

pub open spec fn opt_texts(o: Option<Vec<String>>) -> Option<Seq<Seq<char>>> {
    match o {
        Some(v) => Some(texts(v@)),
        None => None,
    }
}

impl ToolCall {
    pub open spec fn view(&self) -> CallView {
        match self {
            ToolCall::Plain { tool } => CallView::Plain { tool: tool@ },
            ToolCall::One { tool, value } => CallView::One { tool: tool@, value: value@ },
            ToolCall::RunProfile { profile_id, url, headless } => CallView::RunProfile {
                profile_id: profile_id@,
                url: opt_text(*url),
                headless: *headless,
            },
            ToolCall::CreateProfile { name, browser, proxy_id, launch_hook, group_id, tags } =>
                CallView::CreateProfile {
                name: name@,
                browser: browser@,
                proxy_id: opt_text(*proxy_id),
                launch_hook: opt_text(*launch_hook),
                group_id: opt_text(*group_id),
                tags: opt_texts(*tags),
            },
            ToolCall::UpdateProfile { profile_id, changes: c } => CallView::UpdateProfile {
                profile_id: profile_id@,
                changes: changes(c@),
            },
            ToolCall::AddProfileTag { profile_id, tag } => CallView::AddProfileTag {
                profile_id: profile_id@,
                tag: tag@,
            },
            ToolCall::UpdateGroup { group_id, name } => CallView::UpdateGroup {
                group_id: group_id@,
                name: name@,
            },
            ToolCall::AssignProfiles { profile_ids, group_id } => CallView::AssignProfiles {
                profile_ids: texts(profile_ids@),
                group_id: opt_text(*group_id),
            },
            ToolCall::CreateProxy { name, settings } => CallView::CreateProxy {
                name: name@,
                settings: settings@,
            },
            ToolCall::UpdateProxy { proxy_id, name, has_settings } => CallView::UpdateProxy {
                proxy_id: proxy_id@,
                name: opt_text(*name),
                has_settings: *has_settings,
            },
            ToolCall::ExportProxies { as_json } => CallView::ExportProxies { as_json: *as_json },
            ToolCall::ImportProxies { content, as_json, name_prefix } => CallView::ImportProxies {
                content: content@,
                as_json: *as_json,
                name_prefix: opt_text(*name_prefix),
            },
            ToolCall::ImportVpn { content, filename, name } => CallView::ImportVpn {
                content: content@,
                filename: filename@,
                name: opt_text(*name),
            },
            ToolCall::UpdateFingerprint { profile_id, fingerprint, os, randomize } =>
                CallView::UpdateFingerprint {
                profile_id: profile_id@,
                fingerprint: fingerprint@,
                os: opt_text(*os),
                randomize: *randomize,
            },
            ToolCall::UpdateBypassRules { profile_id, rules } => CallView::UpdateBypassRules {
                profile_id: profile_id@,
                rules: texts(rules@),
            },
            ToolCall::UpdateDnsBlocklist { profile_id, level, blocklist } =>
                CallView::UpdateDnsBlocklist {
                profile_id: profile_id@,
                level: level@,
                blocklist: opt_text(*blocklist),
            },
            ToolCall::AssignExtensionGroup { profile_id, group } => CallView::AssignExtensionGroup {
                profile_id: profile_id@,
                group: opt_text(*group),
            },
            ToolCall::ImportCookies { profile_id, content } => CallView::ImportCookies {
                profile_id: profile_id@,
                content: content@,
            },
            ToolCall::Navigate { profile_id, url } => CallView::Navigate {
                profile_id: profile_id@,
                url: url@,
            },
            ToolCall::Screenshot { profile_id, format, quality, full_page } => CallView::Screenshot {
                profile_id: profile_id@,
                format: format@,
                quality: *quality,
                full_page: *full_page,
            },
            ToolCall::Evaluate { profile_id, expression, await_promise, wait_for_load } =>
                CallView::Evaluate {
                profile_id: profile_id@,
                expression: expression@,
                await_promise: *await_promise,
                wait_for_load: *wait_for_load,
            },
            ToolCall::Click { profile_id, selector } => CallView::Click {
                profile_id: profile_id@,
                selector: selector@,
            },
            ToolCall::TypeText { profile_id, selector, text, clear_first, instant, wpm } =>
                CallView::TypeText {
                profile_id: profile_id@,
                selector: selector@,
                text: text@,
                clear_first: *clear_first,
                instant: *instant,
                wpm: opt_number(*wpm),
            },
            ToolCall::PageContent { profile_id, format, selector, max_chars } =>
                CallView::PageContent {
                profile_id: profile_id@,
                format: format@,
                selector: opt_text(*selector),
                max_chars: *max_chars,
            },
            ToolCall::Elements { profile_id, max_chars } => CallView::Elements {
                profile_id: profile_id@,
                max_chars: *max_chars,
            },
            ToolCall::ClickIndex { profile_id, index } => CallView::ClickIndex {
                profile_id: profile_id@,
                index: *index,
            },
            ToolCall::TypeIndex { profile_id, index, text, clear_first, instant, wpm } =>
                CallView::TypeIndex {
                profile_id: profile_id@,
                index: *index,
                text: text@,
                clear_first: *clear_first,
                instant: *instant,
                wpm: opt_number(*wpm),
            },
            ToolCall::PressKey { profile_id, key, modifiers } => CallView::PressKey {
                profile_id: profile_id@,
                key: key@,
                modifiers: texts(modifiers@),
            },
            ToolCall::UploadFile { profile_id, selector, files } => CallView::UploadFile {
                profile_id: profile_id@,
                selector: selector@,
                files: texts(files@),
            },
            ToolCall::NewTab { profile_id, url } => CallView::NewTab {
                profile_id: profile_id@,
                url: url@,
            },
            ToolCall::SwitchTab { profile_id, index } => CallView::SwitchTab {
                profile_id: profile_id@,
                index: *index,
            },
            ToolCall::CloseTab { profile_id, index } => CallView::CloseTab {
                profile_id: profile_id@,
                index: *index,
            },
            ToolCall::RunScenario { profile_id, triggered_by } => CallView::RunScenario {
                profile_id: profile_id@,
                triggered_by: triggered_by@,
            },
            ToolCall::ListRuns { limit } => CallView::ListRuns { limit: *limit },
        }
    }
}

pub type Decoded = Result<CallView, ErrorView>;

pub open spec fn decoded(r: Result<ToolCall, McpError>) -> Decoded {
    match r {
        Ok(c) => Ok(c@),
        Err(e) => Err(e@),
    }
}

// ---------------------------------------------------------------------------
// Arguments
// ---------------------------------------------------------------------------

/// The texts in a list; what is no text is left out.
pub open spec fn texts_in(a: Seq<JsonView>) -> Seq<Seq<char>>
    decreases a.len(),
{
    if a.len() == 0 {
        Seq::empty()
    } else {
        match a.last() {
            JsonView::Str(s) => texts_in(a.drop_last()).push(s),
            _ => texts_in(a.drop_last()),
        }
    }
}

pub open spec fn texts_field(args: JsonView, k: Seq<char>) -> Option<Seq<Seq<char>>> {
    match args.field_array(k) {
        Some(a) => Some(texts_in(a)),
        None => None,
    }
}

pub open spec fn texts_or_none(args: JsonView, k: Seq<char>) -> Seq<Seq<char>> {
    match texts_field(args, k) {
        Some(v) => v,
        None => Seq::empty(),
    }
}

pub open spec fn flag_or(args: JsonView, k: Seq<char>, other: bool) -> bool {
    match args.field_bool(k) {
        Some(b) => b,
        None => other,
    }
}

/// The text, or nothing where it is empty.
pub open spec fn not_empty(s: Seq<char>) -> Option<Seq<char>> {
    if s.len() == 0 {
        None
    } else {
        Some(s)
    }
}

fn list_texts(a: &Vec<Json>) -> (r: Vec<String>)
    ensures
        texts(r@) == texts_in(values(a@)),
{
    let ghost all = values(a@);
    let mut out: Vec<String> = Vec::new();
    let mut i: usize = 0;
    assert(all.take(0) =~= Seq::<JsonView>::empty());
    assert(texts(out@) =~= Seq::<Seq<char>>::empty());
    while i < a.len()
        invariant
            i <= a@.len(),
            all == values(a@),
            texts(out@) == texts_in(all.take(i as int)),
        decreases a@.len() - i,
    {
        assert(all.take(i as int + 1).drop_last() =~= all.take(i as int));
        assert(all.take(i as int + 1).last() == a@[i as int]@);
        match a[i].as_str() {
            Some(s) => {
                let t = s.clone();
                proof {
                    lemma_texts_push(out@, t);
                }
                out.push(t);
            },
            None => {},
        }
        i = i + 1;
    }
    assert(all.take(all.len() as int) =~= all);
    out
}

fn get_texts(args: &Json, k: &str) -> (r: Option<Vec<String>>)
    ensures
        opt_texts(r) == texts_field(args@, k@),
{
    match args.get_array(k) {
        Some(a) => Some(list_texts(a)),
        None => None,
    }
}

fn get_texts_or_none(args: &Json, k: &str) -> (r: Vec<String>)
    ensures
        texts(r@) == texts_or_none(args@, k@),
{
    match get_texts(args, k) {
        Some(v) => v,
        None => {
            let v: Vec<String> = Vec::new();
            assert(texts(v@) =~= Seq::<Seq<char>>::empty());
            v
        },
    }
}

fn get_text(args: &Json, k: &str) -> (r: Option<String>)
    ensures
        opt_text(r) == args@.field_str(k@),
{
    match args.get_str(k) {
        Some(s) => Some(s.clone()),
        None => None,
    }
}

fn get_flag(args: &Json, k: &str, other: bool) -> (r: bool)
    ensures
        r == flag_or(args@, k@, other),
{
    match args.get_bool(k) {
        Some(b) => b,
        None => other,
    }
}

fn number_of(args: &Json, k: &str) -> (r: Option<Number>)
    ensures
        opt_number(r) == number_field(args@, k@),
{
    match args.get(k) {
        Some(Json::Number(n)) => Some(n.copy()),
        _ => None,
    }
}

fn unless_empty(s: String) -> (r: Option<String>)
    ensures
        opt_text(r) == not_empty(s@),
{
    if s.as_str().is_empty() {
        None
    } else {
        Some(s)
    }
}

/// The text that has to be there.
pub open spec fn need(args: JsonView, k: Seq<char>, message: Seq<char>) -> Result<
    Seq<char>,
    ErrorView,
> {
    match args.field_str(k) {
        Some(t) => Ok(t),
        None => Err(invalid(message)),
    }
}

pub open spec fn text_result(r: Result<String, McpError>) -> Result<Seq<char>, ErrorView> {
    match r {
        Ok(s) => Ok(s@),
        Err(e) => Err(e@),
    }
}

fn require(args: &Json, k: &str, message: &str) -> (r: Result<String, McpError>)
    ensures
        text_result(r) == need(args@, k@, message@),
{
    match args.get_str(k) {
        Some(s) => Ok(s.clone()),
        None => Err(invalid_args(message)),
    }
}

pub open spec fn profile_of(args: JsonView) -> Result<Seq<char>, ErrorView> {
    need(args, "profile_id"@, "Missing profile_id"@)
}

fn require_profile(args: &Json) -> (r: Result<String, McpError>)
    ensures
        text_result(r) == profile_of(args@),
{
    require(args, "profile_id", "Missing profile_id")
}

pub open spec fn not_ready() -> ErrorView {
    refused("MCP server not properly initialized"@)
}

/// Fails where the program is not ready to act.
pub fn require_app(initialized: bool) -> (r: Result<(), McpError>)
    ensures
        match r {
            Ok(_) => initialized,
            Err(e) => !initialized && e@ == not_ready(),
        },
{
    if initialized {
        Ok(())
    } else {
        Err(refusal("MCP server not properly initialized"))
    }
}

// ---------------------------------------------------------------------------
// Tools with one argument or none
// ---------------------------------------------------------------------------

pub open spec fn takes_nothing(tool: Seq<char>) -> bool {
    tool == "list_profiles"@ || tool == "list_tags"@ || tool == "list_proxies"@ || tool
        == "list_groups"@ || tool == "list_vpn_configs"@ || tool == "get_dns_blocklist_status"@
        || tool == "list_extensions"@ || tool == "list_extension_groups"@
}

pub open spec fn takes_profile(tool: Seq<char>) -> bool {
    tool == "get_profile"@ || tool == "kill_profile"@ || tool == "delete_profile"@ || tool
        == "get_profile_status"@ || tool == "get_profile_fingerprint"@ || tool == "get_page_info"@
        || tool == "list_tabs"@
}

pub open spec fn takes_group(tool: Seq<char>) -> bool {
    tool == "get_group"@ || tool == "delete_group"@
}

pub open spec fn takes_proxy(tool: Seq<char>) -> bool {
    tool == "get_proxy"@ || tool == "delete_proxy"@
}

pub open spec fn takes_vpn(tool: Seq<char>) -> bool {
    tool == "delete_vpn"@ || tool == "connect_vpn"@ || tool == "disconnect_vpn"@ || tool
        == "get_vpn_status"@
}

/// The one argument of a tool, and what is said where it is missing.
pub open spec fn one_argument(tool: Seq<char>) -> Option<(Seq<char>, Seq<char>)> {
    if takes_profile(tool) {
        Some(("profile_id"@, "Missing profile_id"@))
    } else if takes_group(tool) {
        Some(("group_id"@, "Missing group_id"@))
    } else if tool == "create_group"@ {
        Some(("name"@, "Missing name"@))
    } else if takes_proxy(tool) {
        Some(("proxy_id"@, "Missing proxy_id"@))
    } else if takes_vpn(tool) {
        Some(("vpn_id"@, "Missing vpn_id"@))
    } else if tool == "create_extension_group"@ {
        Some(("name"@, "Missing required parameter: name"@))
    } else if tool == "delete_extension"@ {
        Some(("extension_id"@, "Missing required parameter: extension_id"@))
    } else if tool == "delete_extension_group"@ {
        Some(("group_id"@, "Missing required parameter: group_id"@))
    } else {
        None
    }
}

fn is_plain(tool: &str) -> (r: bool)
    ensures
        r == takes_nothing(tool@),
{
    same(tool, "list_profiles") || same(tool, "list_tags") || same(tool, "list_proxies") || same(
        tool,
        "list_groups",
    ) || same(tool, "list_vpn_configs") || same(tool, "get_dns_blocklist_status") || same(
        tool,
        "list_extensions",
    ) || same(tool, "list_extension_groups")
}

pub open spec fn opt_two(o: Option<(String, String)>) -> Option<(Seq<char>, Seq<char>)> {
    match o {
        Some(p) => Some((p.0@, p.1@)),
        None => None,
    }
}

fn argument_of(tool: &str) -> (r: Option<(String, String)>)
    ensures
        opt_two(r) == one_argument(tool@),
{
    if same(tool, "get_profile") || same(tool, "kill_profile") || same(tool, "delete_profile")
        || same(tool, "get_profile_status") || same(tool, "get_profile_fingerprint") || same(
        tool,
        "get_page_info",
    ) || same(tool, "list_tabs") {
        Some(("profile_id".to_owned(), "Missing profile_id".to_owned()))
    } else if same(tool, "get_group") || same(tool, "delete_group") {
        Some(("group_id".to_owned(), "Missing group_id".to_owned()))
    } else if same(tool, "create_group") {
        Some(("name".to_owned(), "Missing name".to_owned()))
    } else if same(tool, "get_proxy") || same(tool, "delete_proxy") {
        Some(("proxy_id".to_owned(), "Missing proxy_id".to_owned()))
    } else if same(tool, "delete_vpn") || same(tool, "connect_vpn") || same(tool, "disconnect_vpn")
        || same(tool, "get_vpn_status") {
        Some(("vpn_id".to_owned(), "Missing vpn_id".to_owned()))
    } else if same(tool, "create_extension_group") {
        Some(("name".to_owned(), "Missing required parameter: name".to_owned()))
    } else if same(tool, "delete_extension") {
        Some(
            ("extension_id".to_owned(), "Missing required parameter: extension_id".to_owned()),
        )
    } else if same(tool, "delete_extension_group") {
        Some(("group_id".to_owned(), "Missing required parameter: group_id".to_owned()))
    } else {
        None
    }
}

// ---------------------------------------------------------------------------
// Managing profiles, groups and proxies
// ---------------------------------------------------------------------------

pub open spec fn push_change(v: Seq<ChangeView>, c: Option<ChangeView>) -> Seq<ChangeView> {
    match c {
        Some(c) => v.push(c),
        None => v,
    }
}

/// The changes that the arguments ask for, in the order in which they are
/// made.
pub open spec fn changes_in(args: JsonView) -> Seq<ChangeView> {
    let a = push_change(
        Seq::empty(),
        match args.field_str("name"@) {
            Some(name) => Some(ChangeView::Rename { name }),
            None => None,
        },
    );
    let b = push_change(
        a,
        match args.field_str("proxy_id"@) {
            Some(s) => Some(ChangeView::Proxy { id: not_empty(s) }),
            None => None,
        },
    );
    let c = push_change(
        b,
        match args.field_str("launch_hook"@) {
            Some(s) => Some(ChangeView::LaunchHook { url: not_empty(s) }),
            None => None,
        },
    );
    let d = push_change(
        c,
        match args.field_str("group_id"@) {
            Some(s) => Some(ChangeView::Group { id: not_empty(s) }),
            None => None,
        },
    );
    let e = push_change(
        d,
        match texts_field(args, "tags"@) {
            Some(tags) => Some(ChangeView::Tags { tags }),
            None => None,
        },
    );
    let f = push_change(
        e,
        match args.field_str("extension_group_id"@) {
            Some(s) => Some(ChangeView::ExtensionGroup { id: not_empty(s) }),
            None => None,
        },
    );
    push_change(
        f,
        match texts_field(args, "proxy_bypass_rules"@) {
            Some(rules) => Some(ChangeView::BypassRules { rules }),
            None => None,
        },
    )
}

fn add_change(v: &mut Vec<ProfileChange>, c: ProfileChange)
    ensures
        changes(final(v)@) == changes(old(v)@).push(c@),
{
    let ghost before = changes(v@);
    v.push(c);
    assert(changes(v@) =~= before.push(c@));
}

/// The changes that the arguments ask for.
pub fn read_changes(args: &Json) -> (r: Vec<ProfileChange>)
    ensures
        changes(r@) == changes_in(args@),
{
    let mut v: Vec<ProfileChange> = Vec::new();
    assert(changes(v@) =~= Seq::<ChangeView>::empty());
    match get_text(args, "name") {
        Some(name) => {
            add_change(&mut v, ProfileChange::Rename { name });
        },
        None => {},
    }
    match get_text(args, "proxy_id") {
        Some(s) => {
            add_change(&mut v, ProfileChange::Proxy { id: unless_empty(s) });
        },
        None => {},
    }
    match get_text(args, "launch_hook") {
        Some(s) => {
            add_change(&mut v, ProfileChange::LaunchHook { url: unless_empty(s) });
        },
        None => {},
    }
    match get_text(args, "group_id") {
        Some(s) => {
            add_change(&mut v, ProfileChange::Group { id: unless_empty(s) });
        },
        None => {},
    }
    match get_texts(args, "tags") {
        Some(tags) => {
            add_change(&mut v, ProfileChange::Tags { tags });
        },
        None => {},
    }
    match get_text(args, "extension_group_id") {
        Some(s) => {
            add_change(&mut v, ProfileChange::ExtensionGroup { id: unless_empty(s) });
        },
        None => {},
    }
    match get_texts(args, "proxy_bypass_rules") {
        Some(rules) => {
            add_change(&mut v, ProfileChange::BypassRules { rules });
        },
        None => {},
    }
    v
}

/// What is said where a change fails.
pub open spec fn change_error(c: ChangeView, e: Seq<char>) -> ErrorView {
    refused(
        match c {
            ChangeView::Rename { .. } => "Failed to rename profile: "@,
            ChangeView::Proxy { .. } => "Failed to update proxy: "@,
            ChangeView::LaunchHook { .. } => "Failed to update launch hook: "@,
            ChangeView::Group { .. } => "Failed to update group: "@,
            ChangeView::Tags { .. } => "Failed to update tags: "@,
            ChangeView::ExtensionGroup { .. } => "Failed to update extension group: "@,
            ChangeView::BypassRules { .. } => "Failed to update proxy bypass rules: "@,
        } + e,
    )
}

/// What is said where a change fails.
pub fn change_failed(c: &ProfileChange, e: &str) -> (r: McpError)
    ensures
        r@ == change_error(c@, e@),
{
    let head = match c {
        ProfileChange::Rename { .. } => "Failed to rename profile: ",
        ProfileChange::Proxy { .. } => "Failed to update proxy: ",
        ProfileChange::LaunchHook { .. } => "Failed to update launch hook: ",
        ProfileChange::Group { .. } => "Failed to update group: ",
        ProfileChange::Tags { .. } => "Failed to update tags: ",
        ProfileChange::ExtensionGroup { .. } => "Failed to update extension group: ",
        ProfileChange::BypassRules { .. } => "Failed to update proxy bypass rules: ",
    };
    refusal(join2(head, e).as_str())
}

pub open spec fn create_profile(args: JsonView) -> Decoded {
    match need(args, "name"@, "Missing name"@) {
        Err(e) => Err(e),
        Ok(name) => match need(args, "browser"@, "Missing browser"@) {
            Err(e) => Err(e),
            Ok(browser) => if browser != "camoufox"@ && browser != "cloak"@ {
                Err(invalid("browser must be 'camoufox' or 'cloak'"@))
            } else {
                Ok(
                    CallView::CreateProfile {
                        name,
                        browser,
                        proxy_id: args.field_str("proxy_id"@),
                        launch_hook: args.field_str("launch_hook"@),
                        group_id: args.field_str("group_id"@),
                        tags: texts_field(args, "tags"@),
                    },
                )
            },
        },
    }
}

fn read_create_profile(args: &Json) -> (r: Result<ToolCall, McpError>)
    ensures
        decoded(r) == create_profile(args@),
{
    let name = match require(args, "name", "Missing name") {
        Ok(s) => s,
        Err(e) => {
            return Err(e);
        },
    };
    let browser = match require(args, "browser", "Missing browser") {
        Ok(s) => s,
        Err(e) => {
            return Err(e);
        },
    };
    if !same(browser.as_str(), "camoufox") && !same(browser.as_str(), "cloak") {
        return Err(invalid_args("browser must be 'camoufox' or 'cloak'"));
    }
    Ok(
        ToolCall::CreateProfile {
            name,
            browser,
            proxy_id: get_text(args, "proxy_id"),
            launch_hook: get_text(args, "launch_hook"),
            group_id: get_text(args, "group_id"),
            tags: get_texts(args, "tags"),
        },
    )
}

/// The last 16 bits of a number.
pub open spec fn low16(n: u64) -> u16 {
    (n % 65536) as u16
}

pub open spec fn create_proxy(args: JsonView, gate: Gate) -> Decoded {
    match need(args, "name"@, "Missing name"@) {
        Err(e) => Err(e),
        Ok(name) => if !gate.initialized {
            Err(not_ready())
        } else {
            match need(args, "proxy_type"@, "Missing proxy_type"@) {
                Err(e) => Err(e),
                Ok(proxy_type) => match need(args, "host"@, "Missing host"@) {
                    Err(e) => Err(e),
                    Ok(host) => match args.field_uint("port"@) {
                        None => Err(invalid("Missing port"@)),
                        Some(port) => Ok(
                            CallView::CreateProxy {
                                name,
                                settings: ProxyView {
                                    proxy_type,
                                    host,
                                    port: low16(port),
                                    username: args.field_str("username"@),
                                    password: args.field_str("password"@),
                                },
                            },
                        ),
                    },
                },
            }
        },
    }
}

fn read_create_proxy(args: &Json, gate: Gate) -> (r: Result<ToolCall, McpError>)
    ensures
        decoded(r) == create_proxy(args@, gate),
{
    let name = match require(args, "name", "Missing name") {
        Ok(s) => s,
        Err(e) => {
            return Err(e);
        },
    };
    if !gate.initialized {
        return Err(refusal("MCP server not properly initialized"));
    }
    let proxy_type = match require(args, "proxy_type", "Missing proxy_type") {
        Ok(s) => s,
        Err(e) => {
            return Err(e);
        },
    };
    let host = match require(args, "host", "Missing host") {
        Ok(s) => s,
        Err(e) => {
            return Err(e);
        },
    };
    let port: u64 = match args.get_u64("port") {
        Some(p) => p,
        None => {
            return Err(invalid_args("Missing port"));
        },
    };
    Ok(
        ToolCall::CreateProxy {
            name,
            settings: ProxySettings {
                proxy_type,
                host,
                port: (port % 65536) as u16,
                username: get_text(args, "username"),
                password: get_text(args, "password"),
            },
        },
    )
}

/// The settings of a proxy with the changes that the arguments ask for.
pub open spec fn patched_proxy(args: JsonView, p: ProxyView) -> ProxyView {
    ProxyView {
        proxy_type: match args.field_str("proxy_type"@) {
            Some(t) => t,
            None => p.proxy_type,
        },
        host: match args.field_str("host"@) {
            Some(h) => h,
            None => p.host,
        },
        port: match args.field_uint("port"@) {
            Some(n) => low16(n),
            None => p.port,
        },
        username: match args.field_str("username"@) {
            Some(u) => Some(u),
            None => p.username,
        },
        password: match args.field_str("password"@) {
            Some(u) => Some(u),
            None => p.password,
        },
    }
}

fn text_else(o: Option<String>, other: &Option<String>) -> (r: Option<String>)
    ensures
        opt_text(r) == match opt_text(o) {
            Some(t) => Some(t),
            None => opt_text(*other),
        },
{
    match o {
        Some(s) => Some(s),
        None => crate::model::copy_opt(other),
    }
}

/// The settings of a proxy with the changes that the arguments ask for.
pub fn patch_proxy(args: &Json, p: &ProxySettings) -> (r: ProxySettings)
    ensures
        r@ == patched_proxy(args@, p@),
{
    ProxySettings {
        proxy_type: args.str_or("proxy_type", p.proxy_type.as_str()),
        host: args.str_or("host", p.host.as_str()),
        port: match args.get_u64("port") {
            Some(n) => (n % 65536) as u16,
            None => p.port,
        },
        username: text_else(get_text(args, "username"), &p.username),
        password: text_else(get_text(args, "password"), &p.password),
    }
}

/// Whether the arguments name a setting of a proxy. Each of them is a change
/// of its own.
pub open spec fn changes_settings(args: JsonView) -> bool {
    args.field("proxy_type"@) is Some || args.field("host"@) is Some || args.field("port"@) is Some
        || args.field("username"@) is Some || args.field("password"@) is Some
}

fn names_setting(args: &Json) -> (r: bool)
    ensures
        r == changes_settings(args@),
{
    args.get("proxy_type").is_some() || args.get("host").is_some() || args.get("port").is_some()
        || args.get("username").is_some() || args.get("password").is_some()
}

pub open spec fn bad_format(format: Seq<char>) -> ErrorView {
    invalid("Invalid format '"@ + format + "', must be 'json' or 'txt'"@)
}

fn format_error(format: &str) -> (r: McpError)
    ensures
        r@ == bad_format(format@),
{
    invalid_args(join3("Invalid format '", format, "', must be 'json' or 'txt'").as_str())
}

pub open spec fn import_proxies(args: JsonView, gate: Gate) -> Decoded {
    match need(args, "content"@, "Missing content"@) {
        Err(e) => Err(e),
        Ok(content) => match need(args, "format"@, "Missing format"@) {
            Err(e) => Err(e),
            Ok(format) => if !gate.initialized {
                Err(not_ready())
            } else if format == "json"@ || format == "txt"@ {
                Ok(
                    CallView::ImportProxies {
                        content,
                        as_json: format == "json"@,
                        name_prefix: args.field_str("name_prefix"@),
                    },
                )
            } else {
                Err(bad_format(format))
            },
        },
    }
}

fn read_import_proxies(args: &Json, gate: Gate) -> (r: Result<ToolCall, McpError>)
    ensures
        decoded(r) == import_proxies(args@, gate),
{
    let content = match require(args, "content", "Missing content") {
        Ok(s) => s,
        Err(e) => {
            return Err(e);
        },
    };
    let format = match require(args, "format", "Missing format") {
        Ok(s) => s,
        Err(e) => {
            return Err(e);
        },
    };
    if !gate.initialized {
        return Err(refusal("MCP server not properly initialized"));
    }
    let as_json: bool = same(format.as_str(), "json");
    if as_json || same(format.as_str(), "txt") {
        Ok(
            ToolCall::ImportProxies {
                content,
                as_json,
                name_prefix: get_text(args, "name_prefix"),
            },
        )
    } else {
        Err(format_error(format.as_str()))
    }
}

pub open spec fn two_texts(
    args: JsonView,
    a: Seq<char>,
    no_a: Seq<char>,
    b: Seq<char>,
    no_b: Seq<char>,
) -> Result<(Seq<char>, Seq<char>), ErrorView> {
    match need(args, a, no_a) {
        Err(e) => Err(e),
        Ok(x) => match need(args, b, no_b) {
            Err(e) => Err(e),
            Ok(y) => Ok((x, y)),
        },
    }
}

pub open spec fn pair_result(r: Result<(String, String), McpError>) -> Result<
    (Seq<char>, Seq<char>),
    ErrorView,
> {
    match r {
        Ok(p) => Ok((p.0@, p.1@)),
        Err(e) => Err(e@),
    }
}

fn require_two(args: &Json, a: &str, no_a: &str, b: &str, no_b: &str) -> (r: Result<
    (String, String),
    McpError,
>)
    ensures
        pair_result(r) == two_texts(args@, a@, no_a@, b@, no_b@),
{
    match require(args, a, no_a) {
        Err(e) => Err(e),
        Ok(x) => match require(args, b, no_b) {
            Err(e) => Err(e),
            Ok(y) => Ok((x, y)),
        },
    }
}

/// The tools that manage.
pub open spec fn managing(tool: Seq<char>, args: JsonView, gate: Gate) -> Option<Decoded> {
    if tool == "run_profile"@ {
        Some(
            match profile_of(args) {
                Err(e) => Err(e),
                Ok(profile_id) => Ok(
                    CallView::RunProfile {
                        profile_id,
                        url: args.field_str("url"@),
                        headless: flag_or(args, "headless"@, false),
                    },
                ),
            },
        )
    } else if tool == "create_profile"@ {
        Some(create_profile(args))
    } else if tool == "update_profile"@ {
        Some(
            match profile_of(args) {
                Err(e) => Err(e),
                Ok(profile_id) => Ok(
                    CallView::UpdateProfile { profile_id, changes: changes_in(args) },
                ),
            },
        )
    } else if tool == "add_profile_tag"@ {
        Some(
            match profile_of(args) {
                Err(e) => Err(e),
                Ok(profile_id) => match args.field_str("tag"@) {
                    Some(t) => if trim(t).len() > 0 {
                        Ok(CallView::AddProfileTag { profile_id, tag: trim(t) })
                    } else {
                        Err(invalid("Missing tag"@))
                    },
                    None => Err(invalid("Missing tag"@)),
                },
            },
        )
    } else if tool == "update_group"@ {
        Some(
            match two_texts(
                args,
                "group_id"@,
                "Missing group_id"@,
                "name"@,
                "Missing name"@,
            ) {
                Err(e) => Err(e),
                Ok((group_id, name)) => Ok(CallView::UpdateGroup { group_id, name }),
            },
        )
    } else if tool == "assign_profiles_to_group"@ {
        Some(
            match texts_field(args, "profile_ids"@) {
                None => Err(invalid("Missing profile_ids"@)),
                Some(profile_ids) => Ok(
                    CallView::AssignProfiles {
                        profile_ids,
                        group_id: args.field_str("group_id"@),
                    },
                ),
            },
        )
    } else if tool == "create_proxy"@ {
        Some(create_proxy(args, gate))
    } else if tool == "update_proxy"@ {
        Some(
            match need(args, "proxy_id"@, "Missing proxy_id"@) {
                Err(e) => Err(e),
                Ok(proxy_id) => Ok(
                    CallView::UpdateProxy {
                        proxy_id,
                        name: args.field_str("name"@),
                        has_settings: changes_settings(args),
                    },
                ),
            },
        )
    } else if tool == "export_proxies"@ {
        Some(
            match need(args, "format"@, "Missing format"@) {
                Err(e) => Err(e),
                Ok(format) => if format == "json"@ || format == "txt"@ {
                    Ok(CallView::ExportProxies { as_json: format == "json"@ })
                } else {
                    Err(bad_format(format))
                },
            },
        )
    } else if tool == "import_proxies"@ {
        Some(import_proxies(args, gate))
    } else if tool == "import_vpn"@ {
        Some(
            match two_texts(
                args,
                "content"@,
                "Missing content"@,
                "filename"@,
                "Missing filename"@,
            ) {
                Err(e) => Err(e),
                Ok((content, filename)) => Ok(
                    CallView::ImportVpn { content, filename, name: args.field_str("name"@) },
                ),
            },
        )
    } else {
        None
    }
}

pub open spec fn opt_decoded(o: Option<Result<ToolCall, McpError>>) -> Option<Decoded> {
    match o {
        Some(r) => Some(decoded(r)),
        None => None,
    }
}

fn read_managing(tool: &str, args: &Json, gate: Gate) -> (r: Option<Result<ToolCall, McpError>>)
    ensures
        opt_decoded(r) == managing(tool@, args@, gate),
{
    if same(tool, "run_profile") {
        return Some(
            match require_profile(args) {
                Err(e) => Err(e),
                Ok(profile_id) => Ok(
                    ToolCall::RunProfile {
                        profile_id,
                        url: get_text(args, "url"),
                        headless: get_flag(args, "headless", false),
                    },
                ),
            },
        );
    }
    if same(tool, "create_profile") {
        return Some(read_create_profile(args));
    }
    if same(tool, "update_profile") {
        return Some(
            match require_profile(args) {
                Err(e) => Err(e),
                Ok(profile_id) => Ok(
                    ToolCall::UpdateProfile { profile_id, changes: read_changes(args) },
                ),
            },
        );
    }
    if same(tool, "add_profile_tag") {
        return Some(
            match require_profile(args) {
                Err(e) => Err(e),
                Ok(profile_id) => match args.get_str("tag") {
                    Some(t) => {
                        let tag = trimmed(t.as_str());
                        if tag.as_str().is_empty() {
                            Err(invalid_args("Missing tag"))
                        } else {
                            Ok(ToolCall::AddProfileTag { profile_id, tag })
                        }
                    },
                    None => Err(invalid_args("Missing tag")),
                },
            },
        );
    }
    if same(tool, "update_group") {
        return Some(
            match require_two(args, "group_id", "Missing group_id", "name", "Missing name") {
                Err(e) => Err(e),
                Ok((group_id, name)) => Ok(ToolCall::UpdateGroup { group_id, name }),
            },
        );
    }
    if same(tool, "assign_profiles_to_group") {
        return Some(
            match get_texts(args, "profile_ids") {
                None => Err(invalid_args("Missing profile_ids")),
                Some(profile_ids) => Ok(
                    ToolCall::AssignProfiles { profile_ids, group_id: get_text(args, "group_id") },
                ),
            },
        );
    }
    if same(tool, "create_proxy") {
        return Some(read_create_proxy(args, gate));
    }
    if same(tool, "update_proxy") {
        return Some(
            match require(args, "proxy_id", "Missing proxy_id") {
                Err(e) => Err(e),
                Ok(proxy_id) => Ok(
                    ToolCall::UpdateProxy {
                        proxy_id,
                        name: get_text(args, "name"),
                        has_settings: names_setting(args),
                    },
                ),
            },
        );
    }
    if same(tool, "export_proxies") {
        return Some(
            match require(args, "format", "Missing format") {
                Err(e) => Err(e),
                Ok(format) => {
                    let as_json: bool = same(format.as_str(), "json");
                    if as_json || same(format.as_str(), "txt") {
                        Ok(ToolCall::ExportProxies { as_json })
                    } else {
                        Err(format_error(format.as_str()))
                    }
                },
            },
        );
    }
    if same(tool, "import_proxies") {
        return Some(read_import_proxies(args, gate));
    }
    if same(tool, "import_vpn") {
        return Some(
            match require_two(
                args,
                "content",
                "Missing content",
                "filename",
                "Missing filename",
            ) {
                Err(e) => Err(e),
                Ok((content, filename)) => Ok(
                    ToolCall::ImportVpn { content, filename, name: get_text(args, "name") },
                ),
            },
        );
    }
    None
}

// ---------------------------------------------------------------------------
// Settings of a profile
// ---------------------------------------------------------------------------

pub open spec fn no_team() -> ErrorView {
    refused("Team features require an active team plan"@)
}

/// The tools that set up a profile, and those of a team.
pub open spec fn setting(tool: Seq<char>, args: JsonView, gate: Gate) -> Option<Decoded> {
    if tool == "update_profile_fingerprint"@ {
        Some(
            match profile_of(args) {
                Err(e) => Err(e),
                Ok(profile_id) => Ok(
                    CallView::UpdateFingerprint {
                        profile_id,
                        fingerprint: fingerprint_in(args),
                        os: args.field_str("os"@),
                        randomize: args.field_bool("randomize_fingerprint_on_launch"@),
                    },
                ),
            },
        )
    } else if tool == "update_profile_proxy_bypass_rules"@ {
        Some(
            match profile_of(args) {
                Err(e) => Err(e),
                Ok(profile_id) => match texts_field(args, "rules"@) {
                    None => Err(invalid("Missing rules array"@)),
                    Some(rules) => Ok(CallView::UpdateBypassRules { profile_id, rules }),
                },
            },
        )
    } else if tool == "update_profile_dns_blocklist"@ {
        Some(
            match two_texts(
                args,
                "profile_id"@,
                "Missing profile_id"@,
                "level"@,
                "Missing level"@,
            ) {
                Err(e) => Err(e),
                Ok((profile_id, level)) => Ok(
                    CallView::UpdateDnsBlocklist {
                        profile_id,
                        level,
                        blocklist: if level == "none"@ {
                            None
                        } else {
                            Some(level)
                        },
                    },
                ),
            },
        )
    } else if tool == "assign_extension_group_to_profile"@ {
        Some(
            match need(args, "profile_id"@, "Missing required parameter: profile_id"@) {
                Err(e) => Err(e),
                Ok(profile_id) => Ok(
                    CallView::AssignExtensionGroup {
                        profile_id,
                        group: match args.field_str("extension_group_id"@) {
                            Some(s) => not_empty(s),
                            None => None,
                        },
                    },
                ),
            },
        )
    } else if tool == "import_profile_cookies"@ {
        Some(
            match two_texts(
                args,
                "profile_id"@,
                "Missing profile_id"@,
                "content"@,
                "Missing content"@,
            ) {
                Err(e) => Err(e),
                Ok((profile_id, content)) => Ok(CallView::ImportCookies { profile_id, content }),
            },
        )
    } else if tool == "get_team_locks"@ {
        Some(
            if gate.team_plan {
                Ok(CallView::Plain { tool })
            } else {
                Err(no_team())
            },
        )
    } else if tool == "get_team_lock_status"@ {
        Some(
            if gate.team_plan {
                match profile_of(args) {
                    Err(e) => Err(e),
                    Ok(value) => Ok(CallView::One { tool, value }),
                }
            } else {
                Err(no_team())
            },
        )
    } else {
        None
    }
}

fn read_setting(tool: &str, args: &Json, gate: Gate) -> (r: Option<Result<ToolCall, McpError>>)
    ensures
        opt_decoded(r) == setting(tool@, args@, gate),
{
    if same(tool, "update_profile_fingerprint") {
        return Some(
            match require_profile(args) {
                Err(e) => Err(e),
                Ok(profile_id) => Ok(
                    ToolCall::UpdateFingerprint {
                        profile_id,
                        fingerprint: read_fingerprint(args),
                        os: get_text(args, "os"),
                        randomize: args.get_bool("randomize_fingerprint_on_launch"),
                    },
                ),
            },
        );
    }
    if same(tool, "update_profile_proxy_bypass_rules") {
        return Some(
            match require_profile(args) {
                Err(e) => Err(e),
                Ok(profile_id) => match get_texts(args, "rules") {
                    None => Err(invalid_args("Missing rules array")),
                    Some(rules) => Ok(ToolCall::UpdateBypassRules { profile_id, rules }),
                },
            },
        );
    }
    if same(tool, "update_profile_dns_blocklist") {
        return Some(
            match require_two(
                args,
                "profile_id",
                "Missing profile_id",
                "level",
                "Missing level",
            ) {
                Err(e) => Err(e),
                Ok((profile_id, level)) => {
                    let blocklist = if same(level.as_str(), "none") {
                        None
                    } else {
                        Some(level.clone())
                    };
                    Ok(ToolCall::UpdateDnsBlocklist { profile_id, level, blocklist })
                },
            },
        );
    }
    if same(tool, "assign_extension_group_to_profile") {
        return Some(
            match require(args, "profile_id", "Missing required parameter: profile_id") {
                Err(e) => Err(e),
                Ok(profile_id) => Ok(
                    ToolCall::AssignExtensionGroup {
                        profile_id,
                        group: match get_text(args, "extension_group_id") {
                            Some(s) => unless_empty(s),
                            None => None,
                        },
                    },
                ),
            },
        );
    }
    if same(tool, "import_profile_cookies") {
        return Some(
            match require_two(
                args,
                "profile_id",
                "Missing profile_id",
                "content",
                "Missing content",
            ) {
                Err(e) => Err(e),
                Ok((profile_id, content)) => Ok(ToolCall::ImportCookies { profile_id, content }),
            },
        );
    }
    if same(tool, "get_team_locks") {
        return Some(
            if gate.team_plan {
                Ok(ToolCall::Plain { tool: tool.to_owned() })
            } else {
                Err(refusal("Team features require an active team plan"))
            },
        );
    }
    if same(tool, "get_team_lock_status") {
        return Some(
            if gate.team_plan {
                match require_profile(args) {
                    Err(e) => Err(e),
                    Ok(value) => Ok(ToolCall::One { tool: tool.to_owned(), value }),
                }
            } else {
                Err(refusal("Team features require an active team plan"))
            },
        );
    }
    None
}

// ---------------------------------------------------------------------------
// Pages
// ---------------------------------------------------------------------------

pub open spec fn type_text(args: JsonView) -> Decoded {
    match two_texts(
        args,
        "profile_id"@,
        "Missing profile_id"@,
        "selector"@,
        "Missing selector"@,
    ) {
        Err(e) => Err(e),
        Ok((profile_id, selector)) => match need(args, "text"@, "Missing text"@) {
            Err(e) => Err(e),
            Ok(text) => Ok(
                CallView::TypeText {
                    profile_id,
                    selector,
                    text,
                    clear_first: flag_or(args, "clear_first"@, true),
                    instant: flag_or(args, "instant"@, false),
                    wpm: number_field(args, "wpm"@),
                },
            ),
        },
    }
}

pub open spec fn type_index(args: JsonView) -> Decoded {
    match profile_of(args) {
        Err(e) => Err(e),
        Ok(profile_id) => match args.field_uint("index"@) {
            None => Err(invalid("Missing index"@)),
            Some(index) => match need(args, "text"@, "Missing text"@) {
                Err(e) => Err(e),
                Ok(text) => Ok(
                    CallView::TypeIndex {
                        profile_id,
                        index,
                        text,
                        clear_first: flag_or(args, "clear_first"@, true),
                        instant: flag_or(args, "instant"@, false),
                        wpm: number_field(args, "wpm"@),
                    },
                ),
            },
        },
    }
}

pub open spec fn uint_else(args: JsonView, k: Seq<char>, other: u64) -> u64 {
    match args.field_uint(k) {
        Some(n) => n,
        None => other,
    }
}

pub open spec fn text_default(args: JsonView, k: Seq<char>, other: Seq<char>) -> Seq<char> {
    match args.field_str(k) {
        Some(t) => t,
        None => other,
    }
}

/// The tools that act on a page.
pub open spec fn paging(tool: Seq<char>, args: JsonView) -> Option<Decoded> {
    if tool == "navigate"@ {
        Some(
            match two_texts(
                args,
                "profile_id"@,
                "Missing profile_id"@,
                "url"@,
                "Missing url"@,
            ) {
                Err(e) => Err(e),
                Ok((profile_id, url)) => Ok(CallView::Navigate { profile_id, url }),
            },
        )
    } else if tool == "screenshot"@ {
        Some(
            match profile_of(args) {
                Err(e) => Err(e),
                Ok(profile_id) => Ok(
                    CallView::Screenshot {
                        profile_id,
                        format: text_default(args, "format"@, "png"@),
                        quality: args.field_int("quality"@),
                        full_page: flag_or(args, "full_page"@, false),
                    },
                ),
            },
        )
    } else if tool == "evaluate_javascript"@ {
        Some(
            match two_texts(
                args,
                "profile_id"@,
                "Missing profile_id"@,
                "expression"@,
                "Missing expression"@,
            ) {
                Err(e) => Err(e),
                Ok((profile_id, expression)) => Ok(
                    CallView::Evaluate {
                        profile_id,
                        expression,
                        await_promise: flag_or(args, "await_promise"@, false),
                        wait_for_load: flag_or(args, "wait_for_load"@, false),
                    },
                ),
            },
        )
    } else if tool == "click_element"@ {
        Some(
            match two_texts(
                args,
                "profile_id"@,
                "Missing profile_id"@,
                "selector"@,
                "Missing selector"@,
            ) {
                Err(e) => Err(e),
                Ok((profile_id, selector)) => Ok(CallView::Click { profile_id, selector }),
            },
        )
    } else if tool == "type_text"@ {
        Some(type_text(args))
    } else if tool == "get_page_content"@ {
        Some(
            match profile_of(args) {
                Err(e) => Err(e),
                Ok(profile_id) => Ok(
                    CallView::PageContent {
                        profile_id,
                        format: text_default(args, "format"@, "text"@),
                        selector: args.field_str("selector"@),
                        max_chars: uint_else(args, "max_chars"@, 40000),
                    },
                ),
            },
        )
    } else if tool == "get_interactive_elements"@ {
        Some(
            match profile_of(args) {
                Err(e) => Err(e),
                Ok(profile_id) => Ok(
                    CallView::Elements {
                        profile_id,
                        max_chars: uint_else(args, "max_chars"@, 40000),
                    },
                ),
            },
        )
    } else if tool == "click_by_index"@ {
        Some(
            match profile_of(args) {
                Err(e) => Err(e),
                Ok(profile_id) => match args.field_uint("index"@) {
                    None => Err(invalid("Missing index"@)),
                    Some(index) => Ok(CallView::ClickIndex { profile_id, index }),
                },
            },
        )
    } else if tool == "type_by_index"@ {
        Some(type_index(args))
    } else {
        None
    }
}

fn u64_else(args: &Json, k: &str, other: u64) -> (r: u64)
    ensures
        r == uint_else(args@, k@, other),
{
    match args.get_u64(k) {
        Some(n) => n,
        None => other,
    }
}

fn read_type_text(args: &Json) -> (r: Result<ToolCall, McpError>)
    ensures
        decoded(r) == type_text(args@),
{
    match require_two(
        args,
        "profile_id",
        "Missing profile_id",
        "selector",
        "Missing selector",
    ) {
        Err(e) => Err(e),
        Ok((profile_id, selector)) => match require(args, "text", "Missing text") {
            Err(e) => Err(e),
            Ok(text) => Ok(
                ToolCall::TypeText {
                    profile_id,
                    selector,
                    text,
                    clear_first: get_flag(args, "clear_first", true),
                    instant: get_flag(args, "instant", false),
                    wpm: number_of(args, "wpm"),
                },
            ),
        },
    }
}

fn read_type_index(args: &Json) -> (r: Result<ToolCall, McpError>)
    ensures
        decoded(r) == type_index(args@),
{
    match require_profile(args) {
        Err(e) => Err(e),
        Ok(profile_id) => match args.get_u64("index") {
            None => Err(invalid_args("Missing index")),
            Some(index) => match require(args, "text", "Missing text") {
                Err(e) => Err(e),
                Ok(text) => Ok(
                    ToolCall::TypeIndex {
                        profile_id,
                        index,
                        text,
                        clear_first: get_flag(args, "clear_first", true),
                        instant: get_flag(args, "instant", false),
                        wpm: number_of(args, "wpm"),
                    },
                ),
            },
        },
    }
}

fn read_paging(tool: &str, args: &Json) -> (r: Option<Result<ToolCall, McpError>>)
    ensures
        opt_decoded(r) == paging(tool@, args@),
{
    if same(tool, "navigate") {
        return Some(
            match require_two(args, "profile_id", "Missing profile_id", "url", "Missing url") {
                Err(e) => Err(e),
                Ok((profile_id, url)) => Ok(ToolCall::Navigate { profile_id, url }),
            },
        );
    }
    if same(tool, "screenshot") {
        return Some(
            match require_profile(args) {
                Err(e) => Err(e),
                Ok(profile_id) => Ok(
                    ToolCall::Screenshot {
                        profile_id,
                        format: args.str_or("format", "png"),
                        quality: args.get_i64("quality"),
                        full_page: get_flag(args, "full_page", false),
                    },
                ),
            },
        );
    }
    if same(tool, "evaluate_javascript") {
        return Some(
            match require_two(
                args,
                "profile_id",
                "Missing profile_id",
                "expression",
                "Missing expression",
            ) {
                Err(e) => Err(e),
                Ok((profile_id, expression)) => Ok(
                    ToolCall::Evaluate {
                        profile_id,
                        expression,
                        await_promise: get_flag(args, "await_promise", false),
                        wait_for_load: get_flag(args, "wait_for_load", false),
                    },
                ),
            },
        );
    }
    if same(tool, "click_element") {
        return Some(
            match require_two(
                args,
                "profile_id",
                "Missing profile_id",
                "selector",
                "Missing selector",
            ) {
                Err(e) => Err(e),
                Ok((profile_id, selector)) => Ok(ToolCall::Click { profile_id, selector }),
            },
        );
    }
    if same(tool, "type_text") {
        return Some(read_type_text(args));
    }
    if same(tool, "get_page_content") {
        return Some(
            match require_profile(args) {
                Err(e) => Err(e),
                Ok(profile_id) => Ok(
                    ToolCall::PageContent {
                        profile_id,
                        format: args.str_or("format", "text"),
                        selector: get_text(args, "selector"),
                        max_chars: u64_else(args, "max_chars", 40000),
                    },
                ),
            },
        );
    }
    if same(tool, "get_interactive_elements") {
        return Some(
            match require_profile(args) {
                Err(e) => Err(e),
                Ok(profile_id) => Ok(
                    ToolCall::Elements {
                        profile_id,
                        max_chars: u64_else(args, "max_chars", 40000),
                    },
                ),
            },
        );
    }
    if same(tool, "click_by_index") {
        return Some(
            match require_profile(args) {
                Err(e) => Err(e),
                Ok(profile_id) => match args.get_u64("index") {
                    None => Err(invalid_args("Missing index")),
                    Some(index) => Ok(ToolCall::ClickIndex { profile_id, index }),
                },
            },
        );
    }
    if same(tool, "type_by_index") {
        return Some(read_type_index(args));
    }
    None
}

/// The tools that press keys, attach files and handle tabs, and those of
/// scenarios.
pub open spec fn handling(tool: Seq<char>, args: JsonView) -> Option<Decoded> {
    if tool == "press_key"@ {
        Some(
            match two_texts(
                args,
                "profile_id"@,
                "Missing profile_id"@,
                "key"@,
                "Missing key"@,
            ) {
                Err(e) => Err(e),
                Ok((profile_id, key)) => Ok(
                    CallView::PressKey {
                        profile_id,
                        key,
                        modifiers: texts_or_none(args, "modifiers"@),
                    },
                ),
            },
        )
    } else if tool == "upload_file"@ {
        Some(
            match two_texts(
                args,
                "profile_id"@,
                "Missing profile_id"@,
                "selector"@,
                "Missing selector"@,
            ) {
                Err(e) => Err(e),
                Ok((profile_id, selector)) => if texts_or_none(args, "files"@).len() == 0 {
                    Err(invalid("No files provided"@))
                } else {
                    Ok(
                        CallView::UploadFile {
                            profile_id,
                            selector,
                            files: texts_or_none(args, "files"@),
                        },
                    )
                },
            },
        )
    } else if tool == "new_tab"@ {
        Some(
            match profile_of(args) {
                Err(e) => Err(e),
                Ok(profile_id) => Ok(
                    CallView::NewTab {
                        profile_id,
                        url: text_default(args, "url"@, "about:blank"@),
                    },
                ),
            },
        )
    } else if tool == "switch_tab"@ {
        Some(
            match profile_of(args) {
                Err(e) => Err(e),
                Ok(profile_id) => Ok(
                    CallView::SwitchTab { profile_id, index: uint_else(args, "index"@, 0) },
                ),
            },
        )
    } else if tool == "close_tab"@ {
        Some(
            match profile_of(args) {
                Err(e) => Err(e),
                Ok(profile_id) => Ok(
                    CallView::CloseTab { profile_id, index: uint_else(args, "index"@, 0) },
                ),
            },
        )
    } else if tool == "run_scenario"@ {
        Some(
            match profile_of(args) {
                Err(e) => Err(e),
                Ok(profile_id) => Ok(
                    CallView::RunScenario {
                        profile_id,
                        triggered_by: text_default(args, "triggered_by"@, "api"@),
                    },
                ),
            },
        )
    } else if tool == "list_scenario_runs"@ {
        Some(
            Ok(
                CallView::ListRuns {
                    limit: match args.field_int("limit"@) {
                        Some(n) => n,
                        None => 50,
                    },
                },
            ),
        )
    } else {
        None
    }
}

fn read_handling(tool: &str, args: &Json) -> (r: Option<Result<ToolCall, McpError>>)
    ensures
        opt_decoded(r) == handling(tool@, args@),
{
    if same(tool, "press_key") {
        return Some(
            match require_two(args, "profile_id", "Missing profile_id", "key", "Missing key") {
                Err(e) => Err(e),
                Ok((profile_id, key)) => Ok(
                    ToolCall::PressKey {
                        profile_id,
                        key,
                        modifiers: get_texts_or_none(args, "modifiers"),
                    },
                ),
            },
        );
    }
    if same(tool, "upload_file") {
        return Some(
            match require_two(
                args,
                "profile_id",
                "Missing profile_id",
                "selector",
                "Missing selector",
            ) {
                Err(e) => Err(e),
                Ok((profile_id, selector)) => {
                    let files = get_texts_or_none(args, "files");
                    assert(texts(files@).len() == files@.len());
                    if files.len() == 0 {
                        Err(invalid_args("No files provided"))
                    } else {
                        Ok(ToolCall::UploadFile { profile_id, selector, files })
                    }
                },
            },
        );
    }
    if same(tool, "new_tab") {
        return Some(
            match require_profile(args) {
                Err(e) => Err(e),
                Ok(profile_id) => Ok(
                    ToolCall::NewTab { profile_id, url: args.str_or("url", "about:blank") },
                ),
            },
        );
    }
    if same(tool, "switch_tab") {
        return Some(
            match require_profile(args) {
                Err(e) => Err(e),
                Ok(profile_id) => Ok(
                    ToolCall::SwitchTab { profile_id, index: u64_else(args, "index", 0) },
                ),
            },
        );
    }
    if same(tool, "close_tab") {
        return Some(
            match require_profile(args) {
                Err(e) => Err(e),
                Ok(profile_id) => Ok(
                    ToolCall::CloseTab { profile_id, index: u64_else(args, "index", 0) },
                ),
            },
        );
    }
    if same(tool, "run_scenario") {
        return Some(
            match require_profile(args) {
                Err(e) => Err(e),
                Ok(profile_id) => Ok(
                    ToolCall::RunScenario {
                        profile_id,
                        triggered_by: args.str_or("triggered_by", "api"),
                    },
                ),
            },
        );
    }
    if same(tool, "list_scenario_runs") {
        let limit: i64 = match args.get_i64("limit") {
            Some(n) => n,
            None => 50,
        };
        return Some(Ok(ToolCall::ListRuns { limit }));
    }
    None
}

// ---------------------------------------------------------------------------
// All tools
// ---------------------------------------------------------------------------

/// The tools that ask for the window of the program as soon as their arguments
/// have been read.
pub open spec fn needs_app(tool: Seq<char>) -> bool {
    tool == "update_profile"@ || tool == "delete_profile"@ || tool == "add_profile_tag"@ || tool
        == "create_group"@ || tool == "update_group"@ || tool == "delete_group"@ || tool
        == "assign_profiles_to_group"@ || tool == "delete_proxy"@ || tool
        == "import_profile_cookies"@ || tool == "update_profile_proxy_bypass_rules"@
}

fn asks_for_app(tool: &str) -> (r: bool)
    ensures
        r == needs_app(tool@),
{
    same(tool, "update_profile") || same(tool, "delete_profile") || same(tool, "add_profile_tag")
        || same(tool, "create_group") || same(tool, "update_group") || same(tool, "delete_group")
        || same(tool, "assign_profiles_to_group") || same(tool, "delete_proxy") || same(
        tool,
        "import_profile_cookies",
    ) || same(tool, "update_profile_proxy_bypass_rules")
}

/// What a call of a tool says.
pub open spec fn dispatched(tool: Seq<char>, args: JsonView, gate: Gate) -> Decoded {
    match read_as(tool, args, gate) {
        Err(e) => Err(e),
        Ok(c) => if needs_app(tool) && !gate.initialized {
            Err(not_ready())
        } else {
            Ok(c)
        },
    }
}

/// What the arguments of a tool say.
pub open spec fn read_as(tool: Seq<char>, args: JsonView, gate: Gate) -> Decoded {
    if takes_nothing(tool) {
        Ok(CallView::Plain { tool })
    } else if one_argument(tool) is Some {
        match need(args, (one_argument(tool)->0).0, (one_argument(tool)->0).1) {
            Ok(value) => Ok(CallView::One { tool, value }),
            Err(e) => Err(e),
        }
    } else if managing(tool, args, gate) is Some {
        managing(tool, args, gate)->0
    } else if setting(tool, args, gate) is Some {
        setting(tool, args, gate)->0
    } else if paging(tool, args) is Some {
        paging(tool, args)->0
    } else if handling(tool, args) is Some {
        handling(tool, args)->0
    } else {
        Err(invalid("Unknown tool: "@ + tool))
    }
}

/// Reads a call of a tool.
pub fn dispatch_tool_call(tool: &str, args: &Json, gate: Gate) -> (r: Result<ToolCall, McpError>)
    ensures
        decoded(r) == dispatched(tool@, args@, gate),
{
    match read_call(tool, args, gate) {
        Err(e) => Err(e),
        Ok(c) => {
            if asks_for_app(tool) && !gate.initialized {
                Err(refusal("MCP server not properly initialized"))
            } else {
                Ok(c)
            }
        },
    }
}

fn read_call(tool: &str, args: &Json, gate: Gate) -> (r: Result<ToolCall, McpError>)
    ensures
        decoded(r) == read_as(tool@, args@, gate),
{
    if is_plain(tool) {
        return Ok(ToolCall::Plain { tool: tool.to_owned() });
    }
    match argument_of(tool) {
        Some((key, message)) => {
            return match require(args, key.as_str(), message.as_str()) {
                Ok(value) => Ok(ToolCall::One { tool: tool.to_owned(), value }),
                Err(e) => Err(e),
            };
        },
        None => {},
    }
    match read_managing(tool, args, gate) {
        Some(r) => {
            return r;
        },
        None => {},
    }
    match read_setting(tool, args, gate) {
        Some(r) => {
            return r;
        },
        None => {},
    }
    match read_paging(tool, args) {
        Some(r) => {
            return r;
        },
        None => {},
    }
    match read_handling(tool, args) {
        Some(r) => {
            return r;
        },
        None => {},
    }
    Err(invalid_args(join2("Unknown tool: ", tool).as_str()))
}

/// Where the scenario to run comes from.
#[derive(Debug, PartialEq, Eq)]
pub enum ScenarioSource {
    Inline { value: Json },
    Saved { id: String },
}

pub enum SourceView {
    Inline { value: JsonView },
    Saved { id: Seq<char> },
}

impl ScenarioSource {
    pub open spec fn view(&self) -> SourceView {
        match self {
            ScenarioSource::Inline { value } => SourceView::Inline { value: value@ },
            ScenarioSource::Saved { id } => SourceView::Saved { id: id@ },
        }
    }
}

pub open spec fn source_of(args: JsonView) -> Result<SourceView, ErrorView> {
    match args.field("scenario"@) {
        Some(value) => Ok(SourceView::Inline { value }),
        None => match args.field_str("scenario_id"@) {
            Some(id) => Ok(SourceView::Saved { id }),
            None => Err(invalid("Provide `scenario` or `scenario_id`"@)),
        },
    }
}

/// Where the scenario to run comes from.
pub fn scenario_source(args: &Json) -> (r: Result<ScenarioSource, McpError>)
    ensures
        match r {
            Ok(s) => source_of(args@) == Ok::<SourceView, ErrorView>(s@),
            Err(e) => source_of(args@) == Err::<SourceView, ErrorView>(e@),
        },
{
    match args.get("scenario") {
        Some(v) => Ok(ScenarioSource::Inline { value: v.copy() }),
        None => match args.get_str("scenario_id") {
            Some(id) => Ok(ScenarioSource::Saved { id: id.clone() }),
            None => Err(invalid_args("Provide `scenario` or `scenario_id`")),
        },
    }
}

// ---------------------------------------------------------------------------
// Laws
// ---------------------------------------------------------------------------

/// There is a tool of that name.
pub open spec fn is_known(tool: Seq<char>) -> bool {
    takes_nothing(tool) || one_argument(tool) is Some || managing(
        tool,
        JsonView::Null,
        Gate { initialized: true, team_plan: true },
    ) is Some || setting(
        tool,
        JsonView::Null,
        Gate { initialized: true, team_plan: true },
    ) is Some || paging(tool, JsonView::Null) is Some || handling(tool, JsonView::Null) is Some
}

/// A call of a tool that there is is never answered with "Unknown tool",
/// whatever its arguments.
pub proof fn lemma_known_is_dispatched(tool: Seq<char>, args: JsonView, gate: Gate)
    ensures
        !is_known(tool) <==> dispatched(tool, args, gate) == Err::<CallView, ErrorView>(
            invalid("Unknown tool: "@ + tool),
        ),
{
    lemma_same_tools(tool, args, gate);
    lemma_no_message_is_unknown(tool);
    lemma_managing_errors(tool, args, gate);
    lemma_setting_errors(tool, args, gate);
    lemma_paging_errors(tool, args);
    lemma_handling_errors(tool, args);
    if one_argument(tool) is Some {
        lemma_one_argument_errors(tool);
    }
    lemma_dispatch_cases(tool, args, gate);
}

proof fn lemma_dispatch_cases(tool: Seq<char>, args: JsonView, gate: Gate)
    requires
        managing(tool, args, gate) is Some ==> other_message(managing(tool, args, gate)->0),
        setting(tool, args, gate) is Some ==> other_message(setting(tool, args, gate)->0),
        paging(tool, args) is Some ==> other_message(paging(tool, args)->0),
        handling(tool, args) is Some ==> other_message(handling(tool, args)->0),
        one_argument(tool) is Some ==> (one_argument(tool)->0).1.len() > 0 && (one_argument(
            tool,
        )->0).1[0] != 'U',
        is_known(tool) <==> takes_nothing(tool) || one_argument(tool) is Some || managing(
            tool,
            args,
            gate,
        ) is Some || setting(tool, args, gate) is Some || paging(tool, args) is Some || handling(
            tool,
            args,
        ) is Some,
    ensures
        is_known(tool) ==> other_message(dispatched(tool, args, gate)),
        !is_known(tool) ==> dispatched(tool, args, gate) == Err::<CallView, ErrorView>(
            invalid("Unknown tool: "@ + tool),
        ),
{
    reveal_strlit("MCP server not properly initialized");
}

/// The message of a failed call begins with another letter than "Unknown".
pub open spec fn other_message(r: Decoded) -> bool {
    match r {
        Ok(_) => true,
        Err(e) => e.message.len() > 0 && e.message[0] != 'U',
    }
}

proof fn lemma_no_message_is_unknown(tool: Seq<char>)
    ensures
        ("Unknown tool: "@ + tool)[0] == 'U',
{
    reveal_strlit("Unknown tool: ");
}

proof fn lemma_managing_errors(tool: Seq<char>, args: JsonView, gate: Gate)
    ensures
        managing(tool, args, gate) is Some ==> other_message(managing(tool, args, gate)->0),
{
    reveal_strlit("Missing profile_id");
    reveal_strlit("Missing group_id");
    reveal_strlit("Missing name");
    reveal_strlit("Missing proxy_id");
    reveal_strlit("Missing browser");
    reveal_strlit("browser must be 'camoufox' or 'cloak'");
    reveal_strlit("Missing tag");
    reveal_strlit("Missing profile_ids");
    reveal_strlit("Missing proxy_type");
    reveal_strlit("Missing host");
    reveal_strlit("Missing port");
    reveal_strlit("MCP server not properly initialized");
    reveal_strlit("Missing format");
    reveal_strlit("Invalid format '");
    reveal_strlit("Missing content");
    reveal_strlit("Missing filename");
}

proof fn lemma_setting_errors(tool: Seq<char>, args: JsonView, gate: Gate)
    ensures
        setting(tool, args, gate) is Some ==> other_message(setting(tool, args, gate)->0),
{
    reveal_strlit("Missing profile_id");
    reveal_strlit("Missing required parameter: profile_id");
    reveal_strlit("Missing rules array");
    reveal_strlit("Missing level");
    reveal_strlit("Missing content");
    reveal_strlit("Team features require an active team plan");
}

proof fn lemma_paging_errors(tool: Seq<char>, args: JsonView)
    ensures
        paging(tool, args) is Some ==> other_message(paging(tool, args)->0),
{
    reveal_strlit("Missing profile_id");
    reveal_strlit("Missing url");
    reveal_strlit("Missing expression");
    reveal_strlit("Missing selector");
    reveal_strlit("Missing text");
    reveal_strlit("Missing index");
}

proof fn lemma_handling_errors(tool: Seq<char>, args: JsonView)
    ensures
        handling(tool, args) is Some ==> other_message(handling(tool, args)->0),
{
    reveal_strlit("Missing profile_id");
    reveal_strlit("Missing key");
    reveal_strlit("Missing selector");
    reveal_strlit("No files provided");
}

proof fn lemma_one_argument_errors(tool: Seq<char>)
    requires
        one_argument(tool) is Some,
    ensures
        (one_argument(tool)->0).1.len() > 0,
        (one_argument(tool)->0).1[0] != 'U',
{
    reveal_strlit("Missing profile_id");
    reveal_strlit("Missing group_id");
    reveal_strlit("Missing name");
    reveal_strlit("Missing proxy_id");
    reveal_strlit("Missing vpn_id");
    reveal_strlit("Missing required parameter: name");
    reveal_strlit("Missing required parameter: extension_id");
    reveal_strlit("Missing required parameter: group_id");
}

proof fn lemma_same_tools(tool: Seq<char>, args: JsonView, gate: Gate)
    ensures
        is_known(tool) <==> takes_nothing(tool) || one_argument(tool) is Some || managing(
            tool,
            args,
            gate,
        ) is Some || setting(tool, args, gate) is Some || paging(tool, args) is Some || handling(
            tool,
            args,
        ) is Some,
{
    let g = Gate { initialized: true, team_plan: true };
    assert(managing(tool, args, gate) is Some <==> managing(tool, JsonView::Null, g) is Some);
    assert(setting(tool, args, gate) is Some <==> setting(tool, JsonView::Null, g) is Some);
    assert(paging(tool, args) is Some <==> paging(tool, JsonView::Null) is Some);
    assert(handling(tool, args) is Some <==> handling(tool, JsonView::Null) is Some);
}

pub open spec fn all_known(v: Seq<ToolView>) -> bool {
    forall|i: int| 0 <= i < v.len() ==> is_known((#[trigger] v[i]).name)
}

/// Every tool that is listed can be called.
pub proof fn lemma_listed_is_known()
    ensures
        all_known(all_tools()),
{
    let a = Seq::<ToolView>::empty();
    let b = profile_tools(a);
    assert(all_known(b));
    let c = group_tools(b);
    assert(all_known(c));
    let d = proxy_tools(c);
    assert(all_known(d));
    let e = vpn_tools(d);
    assert(all_known(e));
    let f = identity_tools(e);
    assert(all_known(f));
    let g = extension_tools(f);
    assert(all_known(g));
    let h = page_tools(g);
    assert(all_known(h));
    assert(all_known(reading_tools(h)));
}

/// There is a tool of that name in the list.
pub open spec fn has_tool(v: Seq<ToolView>, name: Seq<char>) -> bool {
    exists|i: int| 0 <= i < v.len() && (#[trigger] v[i]).name == name
}

broadcast proof fn lemma_has_tool(v: Seq<ToolView>, t: ToolView, name: Seq<char>)
    ensures
        #[trigger] has_tool(v.push(t), name) == (has_tool(v, name) || t.name == name),
{
    let w = v.push(t);
    if has_tool(v, name) {
        let i = choose|i: int| 0 <= i < v.len() && (#[trigger] v[i]).name == name;
        assert(w[i].name == name);
    }
    if t.name == name {
        assert(w[v.len() as int].name == name);
    }
    if has_tool(w, name) {
        let i = choose|i: int| 0 <= i < w.len() && (#[trigger] w[i]).name == name;
        if i < v.len() {
            assert(v[i].name == name);
        }
    }
}

/// The one tool that is called from inside and is not listed.
pub open spec fn is_internal(tool: Seq<char>) -> bool {
    tool == "add_profile_tag"@
}

/// The tools that there are, are those that are listed and the internal one.
pub proof fn lemma_known_is_listed(tool: Seq<char>)
    ensures
        is_known(tool) <==> has_tool(all_tools(), tool) || is_internal(tool),
{
    broadcast use lemma_has_tool;

    lemma_listed_is_known();
    let a = Seq::<ToolView>::empty();
    let b = profile_tools(a);
    let c = group_tools(b);
    let d = proxy_tools(c);
    let e = vpn_tools(d);
    let f = identity_tools(e);
    let g = extension_tools(f);
    let h = page_tools(g);
    let k = reading_tools(h);
    assert(k == all_tools());
    if has_tool(k, tool) {
        let i = choose|i: int| 0 <= i < k.len() && (#[trigger] k[i]).name == tool;
        assert(is_known(k[i].name));
    }
    assert(has_tool(b, tool) ==> has_tool(c, tool));
    assert(has_tool(c, tool) ==> has_tool(d, tool));
    assert(has_tool(d, tool) ==> has_tool(e, tool));
    assert(has_tool(e, tool) ==> has_tool(f, tool));
    assert(has_tool(f, tool) ==> has_tool(g, tool));
    assert(has_tool(g, tool) ==> has_tool(h, tool));
    assert(has_tool(h, tool) ==> has_tool(k, tool));
}

/// A call is answered with "Unknown tool" exactly where the tool is neither
/// listed nor the internal one.
pub proof fn lemma_unknown_tool(tool: Seq<char>, args: JsonView, gate: Gate)
    ensures
        dispatched(tool, args, gate) == Err::<CallView, ErrorView>(
            invalid("Unknown tool: "@ + tool),
        ) <==> !has_tool(all_tools(), tool) && !is_internal(tool),
{
    lemma_known_is_dispatched(tool, args, gate);
    lemma_known_is_listed(tool);
}

} // verus!
