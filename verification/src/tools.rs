//! The tools that the server offers, and what each takes.
use vstd::prelude::*;

use crate::protocol::McpServer;
use crate::text::{lemma_texts_push, texts};
use crate::value::{
    lemma_array_view, lemma_object_view, lemma_values_push, values, Json, JsonView,
};

verus! {

broadcast use {lemma_array_view, lemma_object_view};

/// A tool.
#[derive(Debug, PartialEq, Eq)]
pub struct McpTool {
    pub name: String,
    pub description: String,
    /// The shape of its arguments, as a JSON schema.
    pub input_schema: Json,
}

pub struct ToolView {
    pub name: Seq<char>,
    pub description: Seq<char>,
    pub input_schema: JsonView,
}

impl McpTool {
    pub open spec fn view(&self) -> ToolView {
        ToolView {
            name: self.name@,
            description: self.description@,
            input_schema: self.input_schema@,
        }
    }
}

pub open spec fn tools(v: Seq<McpTool>) -> Seq<ToolView> {
    v.map_values(|t: McpTool| t@)
}

// ---------------------------------------------------------------------------
// Shapes
// ---------------------------------------------------------------------------

pub open spec fn no_words() -> Seq<Seq<char>> {
    Seq::empty()
}

/// The array of the given texts.
pub open spec fn text_list(v: Seq<Seq<char>>) -> JsonView {
    JsonView::Array(v.map_values(|t: Seq<char>| JsonView::Str(t)))
}

/// An argument of a kind.
pub open spec fn prop(kind: Seq<char>, description: Seq<char>) -> JsonView {
    JsonView::empty().with("type"@, JsonView::Str(kind)).with(
        "description"@,
        JsonView::Str(description),
    )
}

/// A text that is one of the given.
pub open spec fn choice(description: Seq<char>, options: Seq<Seq<char>>) -> JsonView {
    prop("string"@, description).with("enum"@, text_list(options))
}

/// A list of texts.
pub open spec fn list_prop(description: Seq<char>) -> JsonView {
    prop("array"@, description).with(
        "items"@,
        JsonView::empty().with("type"@, JsonView::Str("string"@)),
    )
}

/// A list of texts that are each one of the given.
pub open spec fn list_of(description: Seq<char>, options: Seq<Seq<char>>) -> JsonView {
    prop("array"@, description).with(
        "items"@,
        JsonView::empty().with("type"@, JsonView::Str("string"@)).with("enum"@, text_list(options)),
    )
}

/// A tool with its arguments, and those that it needs.
pub open spec fn tool(
    name: Seq<char>,
    description: Seq<char>,
    properties: JsonView,
    required: Seq<Seq<char>>,
) -> ToolView {
    ToolView {
        name,
        description,
        input_schema: JsonView::empty().with("type"@, JsonView::Str("object"@)).with(
            "properties"@,
            properties,
        ).with("required"@, text_list(required)),
    }
}

/// A list of words.
struct Words {
    words: Vec<String>,
}

impl Words {
    spec fn view(&self) -> Seq<Seq<char>> {
        texts(self.words@)
    }

    fn none() -> (r: Words)
        ensures
            r@ == no_words(),
    {
        let r = Words { words: Vec::new() };
        assert(r@ =~= no_words());
        r
    }

    fn and(self, w: &str) -> (r: Words)
        ensures
            r@ == self@.push(w@),
    {
        let mut words = self.words;
        let s = w.to_owned();
        proof {
            lemma_texts_push(words@, s);
        }
        words.push(s);
        Words { words }
    }

    fn json(&self) -> (r: Json)
        ensures
            r@ == text_list(self@),
    {
        Json::text_array(&self.words)
    }
}

fn prop_json(kind: &str, description: &str) -> (r: Json)
    ensures
        r@ == prop(kind@, description@),
{
    Json::empty().with("type", Json::text(kind)).with("description", Json::text(description))
}

fn choice_json(description: &str, options: Words) -> (r: Json)
    ensures
        r@ == choice(description@, options@),
{
    prop_json("string", description).with("enum", options.json())
}

fn list_json(description: &str) -> (r: Json)
    ensures
        r@ == list_prop(description@),
{
    let items = Json::empty().with("type", Json::text("string"));
    prop_json("array", description).with("items", items)
}

fn list_of_json(description: &str, options: Words) -> (r: Json)
    ensures
        r@ == list_of(description@, options@),
{
    let items = Json::empty().with("type", Json::text("string")).with("enum", options.json());
    prop_json("array", description).with("items", items)
}

fn add_tool(
    a: &mut Vec<McpTool>,
    name: &str,
    description: &str,
    properties: Json,
    required: Words,
)
    ensures
        tools(final(a)@) == tools(old(a)@).push(
            tool(name@, description@, properties@, required@),
        ),
{
    let t = McpTool {
        name: name.to_owned(),
        description: description.to_owned(),
        input_schema: Json::empty().with("type", Json::text("object")).with(
            "properties",
            properties,
        ).with("required", required.json()),
    };
    let ghost before = tools(a@);
    a.push(t);
    assert(tools(a@) =~= before.push(t@));
}

// ---------------------------------------------------------------------------
// The tools
// ---------------------------------------------------------------------------

pub open spec fn profile_tools(a: Seq<ToolView>) -> Seq<ToolView> {
    a.push(
        tool(
            "list_profiles"@,
            "List all Camoufox and Cloak browser profiles"@,
            JsonView::empty(),
            no_words(),
        ),
    ).push(
        tool(
            "get_profile"@,
            "Get details of a specific browser profile"@,
            JsonView::empty()
                .with("profile_id"@, prop("string"@, "The UUID of the profile to retrieve"@)),
            no_words().push("profile_id"@),
        ),
    ).push(
        tool(
            "run_profile"@,
            "Launch a browser profile with an optional URL. Requires an active Pro subscription."@,
            JsonView::empty()
                .with("profile_id"@, prop("string"@, "The UUID of the profile to launch"@))
                .with("url"@, prop("string"@, "Optional URL to open in the browser"@))
                .with("headless"@, prop("boolean"@, "Run the browser in headless mode"@)),
            no_words().push("profile_id"@),
        ),
    ).push(
        tool(
            "kill_profile"@,
            "Stop a running browser profile. Requires an active Pro subscription."@,
            JsonView::empty()
                .with("profile_id"@, prop("string"@, "The UUID of the profile to stop"@)),
            no_words().push("profile_id"@),
        ),
    ).push(
        tool(
            "create_profile"@,
            "Create a new browser profile"@,
            JsonView::empty()
                .with("name"@, prop("string"@, "Name for the new profile"@))
                .with("browser"@, choice("Browser engine to use"@, no_words().push("camoufox"@).push("cloak"@)))
                .with("proxy_id"@, prop("string"@, "Optional proxy UUID to assign"@))
                .with("launch_hook"@, prop("string"@, "Optional HTTP(S) URL to call before launch for transient proxy overrides"@))
                .with("group_id"@, prop("string"@, "Optional group UUID to assign"@))
                .with("tags"@, list_prop("Optional tags for the profile"@)),
            no_words().push("name"@).push("browser"@),
        ),
    ).push(
        tool(
            "update_profile"@,
            "Update an existing browser profile's settings"@,
            JsonView::empty()
                .with("profile_id"@, prop("string"@, "The UUID of the profile to update"@))
                .with("name"@, prop("string"@, "New name for the profile"@))
                .with("proxy_id"@, prop("string"@, "Proxy UUID to assign (empty string to remove)"@))
                .with("launch_hook"@, prop("string"@, "Launch hook URL to assign (empty string to remove)"@))
                .with("group_id"@, prop("string"@, "Group UUID to assign (empty string to remove)"@))
                .with("tags"@, list_prop("Tags for the profile (replaces existing tags)"@))
                .with("extension_group_id"@, prop("string"@, "Extension group UUID to assign (empty string to remove)"@))
                .with("proxy_bypass_rules"@, list_prop("Proxy bypass rules (replaces existing rules)"@)),
            no_words().push("profile_id"@),
        ),
    ).push(
        tool(
            "delete_profile"@,
            "Delete a browser profile and all its data"@,
            JsonView::empty()
                .with("profile_id"@, prop("string"@, "The UUID of the profile to delete"@)),
            no_words().push("profile_id"@),
        ),
    ).push(
        tool(
            "list_tags"@,
            "List all tags used across profiles"@,
            JsonView::empty(),
            no_words(),
        ),
    ).push(
        tool(
            "list_proxies"@,
            "List all configured proxies"@,
            JsonView::empty(),
            no_words(),
        ),
    ).push(
        tool(
            "get_profile_status"@,
            "Check if a browser profile is currently running"@,
            JsonView::empty()
                .with("profile_id"@, prop("string"@, "The UUID of the profile to check"@)),
            no_words().push("profile_id"@),
        ),
    )
}

pub open spec fn group_tools(a: Seq<ToolView>) -> Seq<ToolView> {
    a.push(
        tool(
            "list_groups"@,
            "List all profile groups"@,
            JsonView::empty(),
            no_words(),
        ),
    ).push(
        tool(
            "get_group"@,
            "Get details of a specific group"@,
            JsonView::empty()
                .with("group_id"@, prop("string"@, "The UUID of the group to retrieve"@)),
            no_words().push("group_id"@),
        ),
    ).push(
        tool(
            "create_group"@,
            "Create a new profile group"@,
            JsonView::empty()
                .with("name"@, prop("string"@, "The name for the new group"@)),
            no_words().push("name"@),
        ),
    ).push(
        tool(
            "update_group"@,
            "Update an existing group's name"@,
            JsonView::empty()
                .with("group_id"@, prop("string"@, "The UUID of the group to update"@))
                .with("name"@, prop("string"@, "The new name for the group"@)),
            no_words().push("group_id"@).push("name"@),
        ),
    ).push(
        tool(
            "delete_group"@,
            "Delete a profile group"@,
            JsonView::empty()
                .with("group_id"@, prop("string"@, "The UUID of the group to delete"@)),
            no_words().push("group_id"@),
        ),
    ).push(
        tool(
            "assign_profiles_to_group"@,
            "Assign one or more profiles to a group"@,
            JsonView::empty()
                .with("profile_ids"@, list_prop("Array of profile UUIDs to assign"@))
                .with("group_id"@, prop("string"@, "The UUID of the group to assign to (null to remove from group)"@)),
            no_words().push("profile_ids"@),
        ),
    )
}

pub open spec fn proxy_tools(a: Seq<ToolView>) -> Seq<ToolView> {
    a.push(
        tool(
            "get_proxy"@,
            "Get details of a specific proxy"@,
            JsonView::empty()
                .with("proxy_id"@, prop("string"@, "The UUID of the proxy to retrieve"@)),
            no_words().push("proxy_id"@),
        ),
    ).push(
        tool(
            "create_proxy"@,
            "Create a new proxy configuration."@,
            JsonView::empty()
                .with("name"@, prop("string"@, "The name for the new proxy"@))
                .with("proxy_type"@, choice("The type of proxy (for regular proxies)"@, no_words().push("http"@).push("https"@).push("socks4"@).push("socks5"@)))
                .with("host"@, prop("string"@, "The proxy host address (for regular proxies)"@))
                .with("port"@, prop("integer"@, "The proxy port number (for regular proxies)"@))
                .with("username"@, prop("string"@, "Optional username for authentication (for regular proxies)"@))
                .with("password"@, prop("string"@, "Optional password for authentication (for regular proxies)"@)),
            no_words().push("name"@).push("proxy_type"@).push("host"@).push("port"@),
        ),
    ).push(
        tool(
            "update_proxy"@,
            "Update an existing proxy configuration"@,
            JsonView::empty()
                .with("proxy_id"@, prop("string"@, "The UUID of the proxy to update"@))
                .with("name"@, prop("string"@, "New name for the proxy"@))
                .with("proxy_type"@, choice("The type of proxy (for regular proxies)"@, no_words().push("http"@).push("https"@).push("socks4"@).push("socks5"@)))
                .with("host"@, prop("string"@, "The proxy host address (for regular proxies)"@))
                .with("port"@, prop("integer"@, "The proxy port number (for regular proxies)"@))
                .with("username"@, prop("string"@, "Optional username for authentication (for regular proxies)"@))
                .with("password"@, prop("string"@, "Optional password for authentication (for regular proxies)"@)),
            no_words().push("proxy_id"@),
        ),
    ).push(
        tool(
            "delete_proxy"@,
            "Delete a proxy configuration"@,
            JsonView::empty()
                .with("proxy_id"@, prop("string"@, "The UUID of the proxy to delete"@)),
            no_words().push("proxy_id"@),
        ),
    ).push(
        tool(
            "export_proxies"@,
            "Export all proxy configurations"@,
            JsonView::empty()
                .with("format"@, choice("Export format (json for structured data, txt for URL format)"@, no_words().push("json"@).push("txt"@))),
            no_words().push("format"@),
        ),
    ).push(
        tool(
            "import_proxies"@,
            "Import proxy configurations from JSON or TXT content"@,
            JsonView::empty()
                .with("content"@, prop("string"@, "The proxy configuration content to import"@))
                .with("format"@, choice("Import format (json or txt)"@, no_words().push("json"@).push("txt"@)))
                .with("name_prefix"@, prop("string"@, "Optional prefix for imported proxy names (default: 'Imported')"@)),
            no_words().push("content"@).push("format"@),
        ),
    )
}

pub open spec fn vpn_tools(a: Seq<ToolView>) -> Seq<ToolView> {
    a.push(
        tool(
            "import_vpn"@,
            "Import a WireGuard (.conf) configuration"@,
            JsonView::empty()
                .with("content"@, prop("string"@, "Raw WireGuard config file content"@))
                .with("filename"@, prop("string"@, "Original filename (.conf)"@))
                .with("name"@, prop("string"@, "Optional display name for the VPN config"@)),
            no_words().push("content"@).push("filename"@),
        ),
    ).push(
        tool(
            "list_vpn_configs"@,
            "List all stored VPN configurations"@,
            JsonView::empty(),
            no_words(),
        ),
    ).push(
        tool(
            "delete_vpn"@,
            "Delete a VPN configuration"@,
            JsonView::empty()
                .with("vpn_id"@, prop("string"@, "The UUID of the VPN config to delete"@)),
            no_words().push("vpn_id"@),
        ),
    ).push(
        tool(
            "connect_vpn"@,
            "Connect to a VPN configuration"@,
            JsonView::empty()
                .with("vpn_id"@, prop("string"@, "The UUID of the VPN config to connect"@)),
            no_words().push("vpn_id"@),
        ),
    ).push(
        tool(
            "disconnect_vpn"@,
            "Disconnect from a VPN"@,
            JsonView::empty()
                .with("vpn_id"@, prop("string"@, "The UUID of the VPN to disconnect"@)),
            no_words().push("vpn_id"@),
        ),
    ).push(
        tool(
            "get_vpn_status"@,
            "Get the connection status of a VPN"@,
            JsonView::empty()
                .with("vpn_id"@, prop("string"@, "The UUID of the VPN to check"@)),
            no_words().push("vpn_id"@),
        ),
    )
}

pub open spec fn identity_tools(a: Seq<ToolView>) -> Seq<ToolView> {
    a.push(
        tool(
            "get_profile_fingerprint"@,
            "Get the fingerprint configuration for a Camoufox or Cloak profile"@,
            JsonView::empty()
                .with("profile_id"@, prop("string"@, "The UUID of the profile"@)),
            no_words().push("profile_id"@),
        ),
    ).push(
        tool(
            "update_profile_fingerprint"@,
            "Update the fingerprint configuration for a Camoufox or Cloak profile. Requires an active Pro subscription."@,
            JsonView::empty()
                .with("profile_id"@, prop("string"@, "The UUID of the profile to update"@))
                .with("fingerprint"@, prop("string"@, "JSON string of the fingerprint configuration, or null to clear"@))
                .with("os"@, choice("Operating system for fingerprint generation"@, no_words().push("windows"@).push("macos"@).push("linux"@)))
                .with("randomize_fingerprint_on_launch"@, prop("boolean"@, "Whether to generate a new fingerprint on every launch"@)),
            no_words().push("profile_id"@),
        ),
    ).push(
        tool(
            "update_profile_proxy_bypass_rules"@,
            "Update proxy bypass rules for a profile. Requests matching these rules will connect directly, bypassing the proxy."@,
            JsonView::empty()
                .with("profile_id"@, prop("string"@, "The UUID of the profile to update"@))
                .with("rules"@, list_prop("Array of bypass rules. Supports hostnames (e.g. 'example.com'), IP addresses, and regex patterns."@)),
            no_words().push("profile_id"@).push("rules"@),
        ),
    ).push(
        tool(
            "update_profile_dns_blocklist"@,
            "Update the DNS blocklist level for a profile. Blocks ads, trackers, and malware domains at the proxy level."@,
            JsonView::empty()
                .with("profile_id"@, prop("string"@, "The UUID of the profile to update"@))
                .with("level"@, choice("DNS blocklist level. 'none' disables blocking."@, no_words().push("none"@).push("light"@).push("normal"@).push("pro"@).push("pro_plus"@).push("ultimate"@))),
            no_words().push("profile_id"@).push("level"@),
        ),
    ).push(
        tool(
            "get_dns_blocklist_status"@,
            "Get the cache status of all DNS blocklist tiers including entry counts and freshness."@,
            JsonView::empty(),
            no_words(),
        ),
    )
}

pub open spec fn extension_tools(a: Seq<ToolView>) -> Seq<ToolView> {
    a.push(
        tool(
            "list_extensions"@,
            "List all managed browser extensions. Requires Pro subscription."@,
            JsonView::empty(),
            no_words(),
        ),
    ).push(
        tool(
            "list_extension_groups"@,
            "List all extension groups. Requires Pro subscription."@,
            JsonView::empty(),
            no_words(),
        ),
    ).push(
        tool(
            "create_extension_group"@,
            "Create a new extension group. Requires Pro subscription."@,
            JsonView::empty()
                .with("name"@, prop("string"@, "Name for the extension group"@)),
            no_words().push("name"@),
        ),
    ).push(
        tool(
            "delete_extension"@,
            "Delete a managed extension. Requires Pro subscription."@,
            JsonView::empty()
                .with("extension_id"@, prop("string"@, "The extension ID to delete"@)),
            no_words().push("extension_id"@),
        ),
    ).push(
        tool(
            "delete_extension_group"@,
            "Delete an extension group. Requires Pro subscription."@,
            JsonView::empty()
                .with("group_id"@, prop("string"@, "The extension group ID to delete"@)),
            no_words().push("group_id"@),
        ),
    ).push(
        tool(
            "assign_extension_group_to_profile"@,
            "Assign an extension group to a profile, or remove the assignment. Requires Pro subscription."@,
            JsonView::empty()
                .with("profile_id"@, prop("string"@, "The profile ID"@))
                .with("extension_group_id"@, prop("string"@, "The extension group ID, or empty string to remove"@)),
            no_words().push("profile_id"@),
        ),
    ).push(
        tool(
            "import_profile_cookies"@,
            "Import cookies into a Camoufox or Cloak profile from a JSON array (Puppeteer / EditThisCookie format) or a Netscape cookies.txt. Format is auto-detected. The browser must not be running."@,
            JsonView::empty()
                .with("profile_id"@, prop("string"@, "The UUID of the target profile"@))
                .with("content"@, prop("string"@, "Raw cookie file content (JSON array or Netscape cookies.txt)"@)),
            no_words().push("profile_id"@).push("content"@),
        ),
    ).push(
        tool(
            "get_team_locks"@,
            "List all active team profile locks. Requires team plan."@,
            JsonView::empty(),
            no_words(),
        ),
    ).push(
        tool(
            "get_team_lock_status"@,
            "Check if a profile is locked by a team member. Requires team plan."@,
            JsonView::empty()
                .with("profile_id"@, prop("string"@, "The UUID of the profile to check"@)),
            no_words().push("profile_id"@),
        ),
    )
}

pub open spec fn page_tools(a: Seq<ToolView>) -> Seq<ToolView> {
    a.push(
        tool(
            "navigate"@,
            "Navigate a running browser profile to a URL. Waits for the page to fully load before returning."@,
            JsonView::empty()
                .with("profile_id"@, prop("string"@, "The UUID of the running profile"@))
                .with("url"@, prop("string"@, "The URL to navigate to"@)),
            no_words().push("profile_id"@).push("url"@),
        ),
    ).push(
        tool(
            "screenshot"@,
            "Take a screenshot of the current page in a running browser profile. Returns base64-encoded image."@,
            JsonView::empty()
                .with("profile_id"@, prop("string"@, "The UUID of the running profile"@))
                .with("format"@, choice("Image format (default: png)"@, no_words().push("png"@).push("jpeg"@).push("webp"@)))
                .with("quality"@, prop("integer"@, "Image quality 0-100 for jpeg/webp (default: 80)"@))
                .with("full_page"@, prop("boolean"@, "Capture the full scrollable page (default: false)"@)),
            no_words().push("profile_id"@),
        ),
    ).push(
        tool(
            "evaluate_javascript"@,
            "Execute JavaScript in the context of the current page and return the result. Works with both static and dynamically-generated content. Set wait_for_load=true if the script triggers navigation (e.g., form.submit())."@,
            JsonView::empty()
                .with("profile_id"@, prop("string"@, "The UUID of the running profile"@))
                .with("expression"@, prop("string"@, "JavaScript expression to evaluate"@))
                .with("await_promise"@, prop("boolean"@, "Whether to await the result if it's a Promise (default: false)"@))
                .with("wait_for_load"@, prop("boolean"@, "Wait for page load after execution, use when the script triggers navigation like form.submit() (default: false)"@)),
            no_words().push("profile_id"@).push("expression"@),
        ),
    ).push(
        tool(
            "click_element"@,
            "Click on an element identified by a CSS selector. If the click triggers a page navigation, waits for the new page to load before returning."@,
            JsonView::empty()
                .with("profile_id"@, prop("string"@, "The UUID of the running profile"@))
                .with("selector"@, prop("string"@, "CSS selector for the element to click"@)),
            no_words().push("profile_id"@).push("selector"@),
        ),
    ).push(
        tool(
            "type_text"@,
            "Focus an element by CSS selector and type text into it. By default uses realistic human-like typing with variable speed, natural errors, and self-corrections. Only set instant=true when you are certain the target does not have bot detection (e.g. browser address bars, developer tools, internal apps) — using instant on public websites risks the profile being flagged as a bot."@,
            JsonView::empty()
                .with("profile_id"@, prop("string"@, "The UUID of the running profile"@))
                .with("selector"@, prop("string"@, "CSS selector for the input element"@))
                .with("text"@, prop("string"@, "Text to type into the element"@))
                .with("clear_first"@, prop("boolean"@, "Clear the input before typing (default: true)"@))
                .with("instant"@, prop("boolean"@, "Paste all text at once instead of human typing. WARNING: only use on targets without bot detection — using this on public websites risks the profile being flagged."@))
                .with("wpm"@, prop("number"@, "Target words per minute for human typing (default: 80)"@)),
            no_words().push("profile_id"@).push("selector"@).push("text"@),
        ),
    ).push(
        tool(
            "press_key"@,
            "Press a single keyboard key on the currently focused element, optionally with modifier keys held. Use for keys that type_text cannot send — Enter to submit, Tab to move focus, Escape to dismiss, arrows, or shortcuts like Control+A. Sent via real CDP/BiDi input events (not synthetic JS), so it is indistinguishable from a human keypress."@,
            JsonView::empty()
                .with("profile_id"@, prop("string"@, "The UUID of the running profile"@))
                .with("key"@, prop("string"@, "Key to press. Named keys: Enter, Tab, Escape, Backspace, Delete, ArrowUp, ArrowDown, ArrowLeft, ArrowRight, Home, End, PageUp, PageDown, Space. Or a single printable character (e.g. 'a')."@))
                .with("modifiers"@, list_of("Modifier keys to hold while pressing (e.g. [\"Control\"] for Ctrl+key)."@, no_words().push("Control"@).push("Shift"@).push("Alt"@).push("Meta"@))),
            no_words().push("profile_id"@).push("key"@),
        ),
    ).push(
        tool(
            "upload_file"@,
            "Set the file(s) of a file <input> element (selected by CSS selector) without opening the OS file picker. Paths must be absolute and exist on the machine running the browser."@,
            JsonView::empty()
                .with("profile_id"@, prop("string"@, "The UUID of the running profile"@))
                .with("selector"@, prop("string"@, "CSS selector for the <input type=file> element"@))
                .with("files"@, list_prop("Absolute paths of files to attach (one for single-file inputs)"@)),
            no_words().push("profile_id"@).push("selector"@).push("files"@),
        ),
    ).push(
        tool(
            "list_tabs"@,
            "List the open tabs of a profile as an indexed array of {index, url, title}. The index is stable for use with switch_tab / close_tab until tabs are opened or closed."@,
            JsonView::empty()
                .with("profile_id"@, prop("string"@, "The UUID of the running profile"@)),
            no_words().push("profile_id"@),
        ),
    ).push(
        tool(
            "new_tab"@,
            "Open a new tab and make it the active tab for subsequent actions. Optionally navigate it to a URL."@,
            JsonView::empty()
                .with("profile_id"@, prop("string"@, "The UUID of the running profile"@))
                .with("url"@, prop("string"@, "Optional URL to open in the new tab"@)),
            no_words().push("profile_id"@),
        ),
    ).push(
        tool(
            "switch_tab"@,
            "Make the tab at the given index (from list_tabs order) the active tab; subsequent navigate/click/type actions target it."@,
            JsonView::empty()
                .with("profile_id"@, prop("string"@, "The UUID of the running profile"@))
                .with("index"@, prop("integer"@, "Zero-based tab index from list_tabs"@)),
            no_words().push("profile_id"@).push("index"@),
        ),
    ).push(
        tool(
            "close_tab"@,
            "Close the tab at the given index (from list_tabs order). The active tab resets to a remaining tab."@,
            JsonView::empty()
                .with("profile_id"@, prop("string"@, "The UUID of the running profile"@))
                .with("index"@, prop("integer"@, "Zero-based tab index from list_tabs"@)),
            no_words().push("profile_id"@).push("index"@),
        ),
    )
}

pub open spec fn reading_tools(a: Seq<ToolView>) -> Seq<ToolView> {
    a.push(
        tool(
            "get_page_content"@,
            "Get the content of the current page. Works with both static HTML and JavaScript-rendered content."@,
            JsonView::empty()
                .with("profile_id"@, prop("string"@, "The UUID of the running profile"@))
                .with("format"@, choice("Content format: 'html' for full HTML, 'text' for visible text only (default: text)"@, no_words().push("html"@).push("text"@)))
                .with("selector"@, prop("string"@, "Optional CSS selector to get content of a specific element instead of the whole page"@)),
            no_words().push("profile_id"@),
        ),
    ).push(
        tool(
            "get_page_info"@,
            "Get metadata about the current page including URL, title, and readiness state"@,
            JsonView::empty()
                .with("profile_id"@, prop("string"@, "The UUID of the running profile"@)),
            no_words().push("profile_id"@),
        ),
    ).push(
        tool(
            "get_interactive_elements"@,
            "Enumerate visible interactive elements on the page (buttons, links, inputs, etc.) as a compact indexed list. The returned indices are stable for the current page and can be used with click_by_index and type_by_index instead of guessing CSS selectors. Call this before click_by_index / type_by_index, and re-call after any navigation or major DOM change. Far cheaper in tokens than get_page_content for agentic browsing."@,
            JsonView::empty()
                .with("profile_id"@, prop("string"@, "The UUID of the running profile"@))
                .with("max_chars"@, prop("integer"@, "Cap on the serialized output length (default: 40000). The response carries a `truncated` flag if the list was cut off — narrow the viewport or scroll if you need elements past the cutoff."@)),
            no_words().push("profile_id"@),
        ),
    ).push(
        tool(
            "click_by_index"@,
            "Click the element at the given index from the last get_interactive_elements call. Indices are valid until the next navigation. If the click triggers navigation, waits for the new page to load before returning."@,
            JsonView::empty()
                .with("profile_id"@, prop("string"@, "The UUID of the running profile"@))
                .with("index"@, prop("integer"@, "Zero-based index from the last get_interactive_elements response"@)),
            no_words().push("profile_id"@).push("index"@),
        ),
    ).push(
        tool(
            "type_by_index"@,
            "Focus the element at the given index from the last get_interactive_elements call and type text into it. Same human-like-typing defaults as type_text; only set instant=true when you're sure the target lacks bot detection."@,
            JsonView::empty()
                .with("profile_id"@, prop("string"@, "The UUID of the running profile"@))
                .with("index"@, prop("integer"@, "Zero-based index from the last get_interactive_elements response"@))
                .with("text"@, prop("string"@, "Text to type into the element"@))
                .with("clear_first"@, prop("boolean"@, "Clear the input before typing (default: true)"@))
                .with("instant"@, prop("boolean"@, "Paste all text at once instead of human typing. WARNING: only use on targets without bot detection."@))
                .with("wpm"@, prop("number"@, "Target words per minute for human typing (default: 80)"@)),
            no_words().push("profile_id"@).push("index"@).push("text"@),
        ),
    ).push(
        tool(
            "run_scenario"@,
            "Run a scenario-automation flow on a running profile and return the per-step result. Provide either `scenario` (inline JSON) or `scenario_id` (loaded from the store)."@,
            JsonView::empty()
                .with("profile_id"@, prop("string"@, "The UUID of the running profile to drive"@))
                .with("scenario"@, prop("object"@, "Inline scenario definition (id, name, blocks, ...)"@))
                .with("scenario_id"@, prop("string"@, "Load a saved scenario by id instead of inline"@))
                .with("triggered_by"@, prop("string"@, "manual | schedule | api (default: api)"@)),
            no_words().push("profile_id"@),
        ),
    ).push(
        tool(
            "list_scenario_runs"@,
            "List recent scenario runs from the run history."@,
            JsonView::empty()
                .with("limit"@, prop("integer"@, "Max rows to return (default: 50)"@)),
            no_words(),
        ),
    )
}

fn add_profile_tools(a: &mut Vec<McpTool>)
    ensures
        tools(final(a)@) == profile_tools(tools(old(a)@)),
{
    add_tool(
        a,
        "list_profiles",
        "List all Camoufox and Cloak browser profiles",
        Json::empty(),
        Words::none(),
    );
    add_tool(
        a,
        "get_profile",
        "Get details of a specific browser profile",
        Json::empty()
            .with("profile_id", prop_json("string", "The UUID of the profile to retrieve")),
        Words::none().and("profile_id"),
    );
    add_tool(
        a,
        "run_profile",
        "Launch a browser profile with an optional URL. Requires an active Pro subscription.",
        Json::empty()
            .with("profile_id", prop_json("string", "The UUID of the profile to launch"))
            .with("url", prop_json("string", "Optional URL to open in the browser"))
            .with("headless", prop_json("boolean", "Run the browser in headless mode")),
        Words::none().and("profile_id"),
    );
    add_tool(
        a,
        "kill_profile",
        "Stop a running browser profile. Requires an active Pro subscription.",
        Json::empty()
            .with("profile_id", prop_json("string", "The UUID of the profile to stop")),
        Words::none().and("profile_id"),
    );
    add_tool(
        a,
        "create_profile",
        "Create a new browser profile",
        Json::empty()
            .with("name", prop_json("string", "Name for the new profile"))
            .with("browser", choice_json("Browser engine to use", Words::none().and("camoufox").and("cloak")))
            .with("proxy_id", prop_json("string", "Optional proxy UUID to assign"))
            .with("launch_hook", prop_json("string", "Optional HTTP(S) URL to call before launch for transient proxy overrides"))
            .with("group_id", prop_json("string", "Optional group UUID to assign"))
            .with("tags", list_json("Optional tags for the profile")),
        Words::none().and("name").and("browser"),
    );
    add_tool(
        a,
        "update_profile",
        "Update an existing browser profile's settings",
        Json::empty()
            .with("profile_id", prop_json("string", "The UUID of the profile to update"))
            .with("name", prop_json("string", "New name for the profile"))
            .with("proxy_id", prop_json("string", "Proxy UUID to assign (empty string to remove)"))
            .with("launch_hook", prop_json("string", "Launch hook URL to assign (empty string to remove)"))
            .with("group_id", prop_json("string", "Group UUID to assign (empty string to remove)"))
            .with("tags", list_json("Tags for the profile (replaces existing tags)"))
            .with("extension_group_id", prop_json("string", "Extension group UUID to assign (empty string to remove)"))
            .with("proxy_bypass_rules", list_json("Proxy bypass rules (replaces existing rules)")),
        Words::none().and("profile_id"),
    );
    add_tool(
        a,
        "delete_profile",
        "Delete a browser profile and all its data",
        Json::empty()
            .with("profile_id", prop_json("string", "The UUID of the profile to delete")),
        Words::none().and("profile_id"),
    );
    add_tool(
        a,
        "list_tags",
        "List all tags used across profiles",
        Json::empty(),
        Words::none(),
    );
    add_tool(
        a,
        "list_proxies",
        "List all configured proxies",
        Json::empty(),
        Words::none(),
    );
    add_tool(
        a,
        "get_profile_status",
        "Check if a browser profile is currently running",
        Json::empty()
            .with("profile_id", prop_json("string", "The UUID of the profile to check")),
        Words::none().and("profile_id"),
    );
}

fn add_group_tools(a: &mut Vec<McpTool>)
    ensures
        tools(final(a)@) == group_tools(tools(old(a)@)),
{
    add_tool(
        a,
        "list_groups",
        "List all profile groups",
        Json::empty(),
        Words::none(),
    );
    add_tool(
        a,
        "get_group",
        "Get details of a specific group",
        Json::empty()
            .with("group_id", prop_json("string", "The UUID of the group to retrieve")),
        Words::none().and("group_id"),
    );
    add_tool(
        a,
        "create_group",
        "Create a new profile group",
        Json::empty()
            .with("name", prop_json("string", "The name for the new group")),
        Words::none().and("name"),
    );
    add_tool(
        a,
        "update_group",
        "Update an existing group's name",
        Json::empty()
            .with("group_id", prop_json("string", "The UUID of the group to update"))
            .with("name", prop_json("string", "The new name for the group")),
        Words::none().and("group_id").and("name"),
    );
    add_tool(
        a,
        "delete_group",
        "Delete a profile group",
        Json::empty()
            .with("group_id", prop_json("string", "The UUID of the group to delete")),
        Words::none().and("group_id"),
    );
    add_tool(
        a,
        "assign_profiles_to_group",
        "Assign one or more profiles to a group",
        Json::empty()
            .with("profile_ids", list_json("Array of profile UUIDs to assign"))
            .with("group_id", prop_json("string", "The UUID of the group to assign to (null to remove from group)")),
        Words::none().and("profile_ids"),
    );
}

fn add_proxy_tools(a: &mut Vec<McpTool>)
    ensures
        tools(final(a)@) == proxy_tools(tools(old(a)@)),
{
    add_tool(
        a,
        "get_proxy",
        "Get details of a specific proxy",
        Json::empty()
            .with("proxy_id", prop_json("string", "The UUID of the proxy to retrieve")),
        Words::none().and("proxy_id"),
    );
    add_tool(
        a,
        "create_proxy",
        "Create a new proxy configuration.",
        Json::empty()
            .with("name", prop_json("string", "The name for the new proxy"))
            .with("proxy_type", choice_json("The type of proxy (for regular proxies)", Words::none().and("http").and("https").and("socks4").and("socks5")))
            .with("host", prop_json("string", "The proxy host address (for regular proxies)"))
            .with("port", prop_json("integer", "The proxy port number (for regular proxies)"))
            .with("username", prop_json("string", "Optional username for authentication (for regular proxies)"))
            .with("password", prop_json("string", "Optional password for authentication (for regular proxies)")),
        Words::none().and("name").and("proxy_type").and("host").and("port"),
    );
    add_tool(
        a,
        "update_proxy",
        "Update an existing proxy configuration",
        Json::empty()
            .with("proxy_id", prop_json("string", "The UUID of the proxy to update"))
            .with("name", prop_json("string", "New name for the proxy"))
            .with("proxy_type", choice_json("The type of proxy (for regular proxies)", Words::none().and("http").and("https").and("socks4").and("socks5")))
            .with("host", prop_json("string", "The proxy host address (for regular proxies)"))
            .with("port", prop_json("integer", "The proxy port number (for regular proxies)"))
            .with("username", prop_json("string", "Optional username for authentication (for regular proxies)"))
            .with("password", prop_json("string", "Optional password for authentication (for regular proxies)")),
        Words::none().and("proxy_id"),
    );
    add_tool(
        a,
        "delete_proxy",
        "Delete a proxy configuration",
        Json::empty()
            .with("proxy_id", prop_json("string", "The UUID of the proxy to delete")),
        Words::none().and("proxy_id"),
    );
    add_tool(
        a,
        "export_proxies",
        "Export all proxy configurations",
        Json::empty()
            .with("format", choice_json("Export format (json for structured data, txt for URL format)", Words::none().and("json").and("txt"))),
        Words::none().and("format"),
    );
    add_tool(
        a,
        "import_proxies",
        "Import proxy configurations from JSON or TXT content",
        Json::empty()
            .with("content", prop_json("string", "The proxy configuration content to import"))
            .with("format", choice_json("Import format (json or txt)", Words::none().and("json").and("txt")))
            .with("name_prefix", prop_json("string", "Optional prefix for imported proxy names (default: 'Imported')")),
        Words::none().and("content").and("format"),
    );
}

fn add_vpn_tools(a: &mut Vec<McpTool>)
    ensures
        tools(final(a)@) == vpn_tools(tools(old(a)@)),
{
    add_tool(
        a,
        "import_vpn",
        "Import a WireGuard (.conf) configuration",
        Json::empty()
            .with("content", prop_json("string", "Raw WireGuard config file content"))
            .with("filename", prop_json("string", "Original filename (.conf)"))
            .with("name", prop_json("string", "Optional display name for the VPN config")),
        Words::none().and("content").and("filename"),
    );
    add_tool(
        a,
        "list_vpn_configs",
        "List all stored VPN configurations",
        Json::empty(),
        Words::none(),
    );
    add_tool(
        a,
        "delete_vpn",
        "Delete a VPN configuration",
        Json::empty()
            .with("vpn_id", prop_json("string", "The UUID of the VPN config to delete")),
        Words::none().and("vpn_id"),
    );
    add_tool(
        a,
        "connect_vpn",
        "Connect to a VPN configuration",
        Json::empty()
            .with("vpn_id", prop_json("string", "The UUID of the VPN config to connect")),
        Words::none().and("vpn_id"),
    );
    add_tool(
        a,
        "disconnect_vpn",
        "Disconnect from a VPN",
        Json::empty()
            .with("vpn_id", prop_json("string", "The UUID of the VPN to disconnect")),
        Words::none().and("vpn_id"),
    );
    add_tool(
        a,
        "get_vpn_status",
        "Get the connection status of a VPN",
        Json::empty()
            .with("vpn_id", prop_json("string", "The UUID of the VPN to check")),
        Words::none().and("vpn_id"),
    );
}

fn add_identity_tools(a: &mut Vec<McpTool>)
    ensures
        tools(final(a)@) == identity_tools(tools(old(a)@)),
{
    add_tool(
        a,
        "get_profile_fingerprint",
        "Get the fingerprint configuration for a Camoufox or Cloak profile",
        Json::empty()
            .with("profile_id", prop_json("string", "The UUID of the profile")),
        Words::none().and("profile_id"),
    );
    add_tool(
        a,
        "update_profile_fingerprint",
        "Update the fingerprint configuration for a Camoufox or Cloak profile. Requires an active Pro subscription.",
        Json::empty()
            .with("profile_id", prop_json("string", "The UUID of the profile to update"))
            .with("fingerprint", prop_json("string", "JSON string of the fingerprint configuration, or null to clear"))
            .with("os", choice_json("Operating system for fingerprint generation", Words::none().and("windows").and("macos").and("linux")))
            .with("randomize_fingerprint_on_launch", prop_json("boolean", "Whether to generate a new fingerprint on every launch")),
        Words::none().and("profile_id"),
    );
    add_tool(
        a,
        "update_profile_proxy_bypass_rules",
        "Update proxy bypass rules for a profile. Requests matching these rules will connect directly, bypassing the proxy.",
        Json::empty()
            .with("profile_id", prop_json("string", "The UUID of the profile to update"))
            .with("rules", list_json("Array of bypass rules. Supports hostnames (e.g. 'example.com'), IP addresses, and regex patterns.")),
        Words::none().and("profile_id").and("rules"),
    );
    add_tool(
        a,
        "update_profile_dns_blocklist",
        "Update the DNS blocklist level for a profile. Blocks ads, trackers, and malware domains at the proxy level.",
        Json::empty()
            .with("profile_id", prop_json("string", "The UUID of the profile to update"))
            .with("level", choice_json("DNS blocklist level. 'none' disables blocking.", Words::none().and("none").and("light").and("normal").and("pro").and("pro_plus").and("ultimate"))),
        Words::none().and("profile_id").and("level"),
    );
    add_tool(
        a,
        "get_dns_blocklist_status",
        "Get the cache status of all DNS blocklist tiers including entry counts and freshness.",
        Json::empty(),
        Words::none(),
    );
}

fn add_extension_tools(a: &mut Vec<McpTool>)
    ensures
        tools(final(a)@) == extension_tools(tools(old(a)@)),
{
    add_tool(
        a,
        "list_extensions",
        "List all managed browser extensions. Requires Pro subscription.",
        Json::empty(),
        Words::none(),
    );
    add_tool(
        a,
        "list_extension_groups",
        "List all extension groups. Requires Pro subscription.",
        Json::empty(),
        Words::none(),
    );
    add_tool(
        a,
        "create_extension_group",
        "Create a new extension group. Requires Pro subscription.",
        Json::empty()
            .with("name", prop_json("string", "Name for the extension group")),
        Words::none().and("name"),
    );
    add_tool(
        a,
        "delete_extension",
        "Delete a managed extension. Requires Pro subscription.",
        Json::empty()
            .with("extension_id", prop_json("string", "The extension ID to delete")),
        Words::none().and("extension_id"),
    );
    add_tool(
        a,
        "delete_extension_group",
        "Delete an extension group. Requires Pro subscription.",
        Json::empty()
            .with("group_id", prop_json("string", "The extension group ID to delete")),
        Words::none().and("group_id"),
    );
    add_tool(
        a,
        "assign_extension_group_to_profile",
        "Assign an extension group to a profile, or remove the assignment. Requires Pro subscription.",
        Json::empty()
            .with("profile_id", prop_json("string", "The profile ID"))
            .with("extension_group_id", prop_json("string", "The extension group ID, or empty string to remove")),
        Words::none().and("profile_id"),
    );
    add_tool(
        a,
        "import_profile_cookies",
        "Import cookies into a Camoufox or Cloak profile from a JSON array (Puppeteer / EditThisCookie format) or a Netscape cookies.txt. Format is auto-detected. The browser must not be running.",
        Json::empty()
            .with("profile_id", prop_json("string", "The UUID of the target profile"))
            .with("content", prop_json("string", "Raw cookie file content (JSON array or Netscape cookies.txt)")),
        Words::none().and("profile_id").and("content"),
    );
    add_tool(
        a,
        "get_team_locks",
        "List all active team profile locks. Requires team plan.",
        Json::empty(),
        Words::none(),
    );
    add_tool(
        a,
        "get_team_lock_status",
        "Check if a profile is locked by a team member. Requires team plan.",
        Json::empty()
            .with("profile_id", prop_json("string", "The UUID of the profile to check")),
        Words::none().and("profile_id"),
    );
}

fn add_page_tools(a: &mut Vec<McpTool>)
    ensures
        tools(final(a)@) == page_tools(tools(old(a)@)),
{
    add_tool(
        a,
        "navigate",
        "Navigate a running browser profile to a URL. Waits for the page to fully load before returning.",
        Json::empty()
            .with("profile_id", prop_json("string", "The UUID of the running profile"))
            .with("url", prop_json("string", "The URL to navigate to")),
        Words::none().and("profile_id").and("url"),
    );
    add_tool(
        a,
        "screenshot",
        "Take a screenshot of the current page in a running browser profile. Returns base64-encoded image.",
        Json::empty()
            .with("profile_id", prop_json("string", "The UUID of the running profile"))
            .with("format", choice_json("Image format (default: png)", Words::none().and("png").and("jpeg").and("webp")))
            .with("quality", prop_json("integer", "Image quality 0-100 for jpeg/webp (default: 80)"))
            .with("full_page", prop_json("boolean", "Capture the full scrollable page (default: false)")),
        Words::none().and("profile_id"),
    );
    add_tool(
        a,
        "evaluate_javascript",
        "Execute JavaScript in the context of the current page and return the result. Works with both static and dynamically-generated content. Set wait_for_load=true if the script triggers navigation (e.g., form.submit()).",
        Json::empty()
            .with("profile_id", prop_json("string", "The UUID of the running profile"))
            .with("expression", prop_json("string", "JavaScript expression to evaluate"))
            .with("await_promise", prop_json("boolean", "Whether to await the result if it's a Promise (default: false)"))
            .with("wait_for_load", prop_json("boolean", "Wait for page load after execution, use when the script triggers navigation like form.submit() (default: false)")),
        Words::none().and("profile_id").and("expression"),
    );
    add_tool(
        a,
        "click_element",
        "Click on an element identified by a CSS selector. If the click triggers a page navigation, waits for the new page to load before returning.",
        Json::empty()
            .with("profile_id", prop_json("string", "The UUID of the running profile"))
            .with("selector", prop_json("string", "CSS selector for the element to click")),
        Words::none().and("profile_id").and("selector"),
    );
    add_tool(
        a,
        "type_text",
        "Focus an element by CSS selector and type text into it. By default uses realistic human-like typing with variable speed, natural errors, and self-corrections. Only set instant=true when you are certain the target does not have bot detection (e.g. browser address bars, developer tools, internal apps) — using instant on public websites risks the profile being flagged as a bot.",
        Json::empty()
            .with("profile_id", prop_json("string", "The UUID of the running profile"))
            .with("selector", prop_json("string", "CSS selector for the input element"))
            .with("text", prop_json("string", "Text to type into the element"))
            .with("clear_first", prop_json("boolean", "Clear the input before typing (default: true)"))
            .with("instant", prop_json("boolean", "Paste all text at once instead of human typing. WARNING: only use on targets without bot detection — using this on public websites risks the profile being flagged."))
            .with("wpm", prop_json("number", "Target words per minute for human typing (default: 80)")),
        Words::none().and("profile_id").and("selector").and("text"),
    );
    add_tool(
        a,
        "press_key",
        "Press a single keyboard key on the currently focused element, optionally with modifier keys held. Use for keys that type_text cannot send — Enter to submit, Tab to move focus, Escape to dismiss, arrows, or shortcuts like Control+A. Sent via real CDP/BiDi input events (not synthetic JS), so it is indistinguishable from a human keypress.",
        Json::empty()
            .with("profile_id", prop_json("string", "The UUID of the running profile"))
            .with("key", prop_json("string", "Key to press. Named keys: Enter, Tab, Escape, Backspace, Delete, ArrowUp, ArrowDown, ArrowLeft, ArrowRight, Home, End, PageUp, PageDown, Space. Or a single printable character (e.g. 'a')."))
            .with("modifiers", list_of_json("Modifier keys to hold while pressing (e.g. [\"Control\"] for Ctrl+key).", Words::none().and("Control").and("Shift").and("Alt").and("Meta"))),
        Words::none().and("profile_id").and("key"),
    );
    add_tool(
        a,
        "upload_file",
        "Set the file(s) of a file <input> element (selected by CSS selector) without opening the OS file picker. Paths must be absolute and exist on the machine running the browser.",
        Json::empty()
            .with("profile_id", prop_json("string", "The UUID of the running profile"))
            .with("selector", prop_json("string", "CSS selector for the <input type=file> element"))
            .with("files", list_json("Absolute paths of files to attach (one for single-file inputs)")),
        Words::none().and("profile_id").and("selector").and("files"),
    );
    add_tool(
        a,
        "list_tabs",
        "List the open tabs of a profile as an indexed array of {index, url, title}. The index is stable for use with switch_tab / close_tab until tabs are opened or closed.",
        Json::empty()
            .with("profile_id", prop_json("string", "The UUID of the running profile")),
        Words::none().and("profile_id"),
    );
    add_tool(
        a,
        "new_tab",
        "Open a new tab and make it the active tab for subsequent actions. Optionally navigate it to a URL.",
        Json::empty()
            .with("profile_id", prop_json("string", "The UUID of the running profile"))
            .with("url", prop_json("string", "Optional URL to open in the new tab")),
        Words::none().and("profile_id"),
    );
    add_tool(
        a,
        "switch_tab",
        "Make the tab at the given index (from list_tabs order) the active tab; subsequent navigate/click/type actions target it.",
        Json::empty()
            .with("profile_id", prop_json("string", "The UUID of the running profile"))
            .with("index", prop_json("integer", "Zero-based tab index from list_tabs")),
        Words::none().and("profile_id").and("index"),
    );
    add_tool(
        a,
        "close_tab",
        "Close the tab at the given index (from list_tabs order). The active tab resets to a remaining tab.",
        Json::empty()
            .with("profile_id", prop_json("string", "The UUID of the running profile"))
            .with("index", prop_json("integer", "Zero-based tab index from list_tabs")),
        Words::none().and("profile_id").and("index"),
    );
}

fn add_reading_tools(a: &mut Vec<McpTool>)
    ensures
        tools(final(a)@) == reading_tools(tools(old(a)@)),
{
    add_tool(
        a,
        "get_page_content",
        "Get the content of the current page. Works with both static HTML and JavaScript-rendered content.",
        Json::empty()
            .with("profile_id", prop_json("string", "The UUID of the running profile"))
            .with("format", choice_json("Content format: 'html' for full HTML, 'text' for visible text only (default: text)", Words::none().and("html").and("text")))
            .with("selector", prop_json("string", "Optional CSS selector to get content of a specific element instead of the whole page")),
        Words::none().and("profile_id"),
    );
    add_tool(
        a,
        "get_page_info",
        "Get metadata about the current page including URL, title, and readiness state",
        Json::empty()
            .with("profile_id", prop_json("string", "The UUID of the running profile")),
        Words::none().and("profile_id"),
    );
    add_tool(
        a,
        "get_interactive_elements",
        "Enumerate visible interactive elements on the page (buttons, links, inputs, etc.) as a compact indexed list. The returned indices are stable for the current page and can be used with click_by_index and type_by_index instead of guessing CSS selectors. Call this before click_by_index / type_by_index, and re-call after any navigation or major DOM change. Far cheaper in tokens than get_page_content for agentic browsing.",
        Json::empty()
            .with("profile_id", prop_json("string", "The UUID of the running profile"))
            .with("max_chars", prop_json("integer", "Cap on the serialized output length (default: 40000). The response carries a `truncated` flag if the list was cut off — narrow the viewport or scroll if you need elements past the cutoff.")),
        Words::none().and("profile_id"),
    );
    add_tool(
        a,
        "click_by_index",
        "Click the element at the given index from the last get_interactive_elements call. Indices are valid until the next navigation. If the click triggers navigation, waits for the new page to load before returning.",
        Json::empty()
            .with("profile_id", prop_json("string", "The UUID of the running profile"))
            .with("index", prop_json("integer", "Zero-based index from the last get_interactive_elements response")),
        Words::none().and("profile_id").and("index"),
    );
    add_tool(
        a,
        "type_by_index",
        "Focus the element at the given index from the last get_interactive_elements call and type text into it. Same human-like-typing defaults as type_text; only set instant=true when you're sure the target lacks bot detection.",
        Json::empty()
            .with("profile_id", prop_json("string", "The UUID of the running profile"))
            .with("index", prop_json("integer", "Zero-based index from the last get_interactive_elements response"))
            .with("text", prop_json("string", "Text to type into the element"))
            .with("clear_first", prop_json("boolean", "Clear the input before typing (default: true)"))
            .with("instant", prop_json("boolean", "Paste all text at once instead of human typing. WARNING: only use on targets without bot detection."))
            .with("wpm", prop_json("number", "Target words per minute for human typing (default: 80)")),
        Words::none().and("profile_id").and("index").and("text"),
    );
    add_tool(
        a,
        "run_scenario",
        "Run a scenario-automation flow on a running profile and return the per-step result. Provide either `scenario` (inline JSON) or `scenario_id` (loaded from the store).",
        Json::empty()
            .with("profile_id", prop_json("string", "The UUID of the running profile to drive"))
            .with("scenario", prop_json("object", "Inline scenario definition (id, name, blocks, ...)"))
            .with("scenario_id", prop_json("string", "Load a saved scenario by id instead of inline"))
            .with("triggered_by", prop_json("string", "manual | schedule | api (default: api)")),
        Words::none().and("profile_id"),
    );
    add_tool(
        a,
        "list_scenario_runs",
        "List recent scenario runs from the run history.",
        Json::empty()
            .with("limit", prop_json("integer", "Max rows to return (default: 50)")),
        Words::none(),
    );
}

/// All the tools.
pub open spec fn all_tools() -> Seq<ToolView> {
    reading_tools(
        page_tools(
            extension_tools(
                identity_tools(vpn_tools(proxy_tools(group_tools(profile_tools(Seq::empty()))))),
            ),
        ),
    )
}

impl McpServer {
    /// All the tools.
    pub fn get_tools(&self) -> (r: Vec<McpTool>)
        ensures
            tools(r@) == all_tools(),
    {
        let mut out: Vec<McpTool> = Vec::new();
        assert(tools(out@) =~= Seq::<ToolView>::empty());
        add_profile_tools(&mut out);
        add_group_tools(&mut out);
        add_proxy_tools(&mut out);
        add_vpn_tools(&mut out);
        add_identity_tools(&mut out);
        add_extension_tools(&mut out);
        add_page_tools(&mut out);
        add_reading_tools(&mut out);
        out
    }
}

/// A tool as JSON.
pub open spec fn tool_json(t: ToolView) -> JsonView {
    JsonView::empty().with("name"@, JsonView::Str(t.name)).with(
        "description"@,
        JsonView::Str(t.description),
    ).with("inputSchema"@, t.input_schema)
}

/// The list of the tools as JSON.
pub open spec fn tools_body() -> JsonView {
    JsonView::empty().with(
        "tools"@,
        JsonView::Array(all_tools().map_values(|t: ToolView| tool_json(t))),
    )
}

impl McpServer {
    /// The list of the tools as JSON.
    pub fn handle_tools_list(&self) -> (r: Json)
        ensures
            r@ == tools_body(),
    {
        let all = self.get_tools();
        let ghost want = all_tools().map_values(|t: ToolView| tool_json(t));
        let mut out: Vec<Json> = Vec::new();
        let mut i: usize = 0;
        while i < all.len()
            invariant
                i <= all@.len(),
                want == tools(all@).map_values(|t: ToolView| tool_json(t)),
                values(out@) =~= want.take(i as int),
            decreases all@.len() - i,
        {
            let t = &all[i];
            let x = Json::empty().with("name", Json::text(t.name.as_str())).with(
                "description",
                Json::text(t.description.as_str()),
            ).with("inputSchema", t.input_schema.copy());
            proof {
                lemma_values_push(out@, x);
            }
            out.push(x);
            i = i + 1;
        }
        assert(want.take(want.len() as int) =~= want);
        Json::empty().with("tools", Json::Array(out))
    }
}

} // verus!
