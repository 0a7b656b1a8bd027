//! What the tools that manage profiles, groups, proxies and the rest answer.
use vstd::prelude::*;

use crate::calls::{CallView, FingerprintChange, FingerprintView, ToolCall};
use crate::cloak::CloakConfig;
use crate::json::{pretty, render};
use crate::profiles::{find_profile, profile_named, profile_views, ProfileEntry, ProfileView};
use crate::protocol::{
    invalid, invalid_args, refusal, refused, result_view, text_content, text_reply, ErrorView, McpError,
};
use crate::text::{
    dec, dec_u64, join2, join3, opt_text, parse_u32, same, unsigned_upto,
};
use crate::value::{lemma_array_view, lemma_object_view, Json, JsonView};

verus! {

broadcast use {lemma_array_view, lemma_object_view};

// ---------------------------------------------------------------------------
// Profiles
// ---------------------------------------------------------------------------

/// The browsers that can be automated.
pub open spec fn automated(browser: Seq<char>) -> bool {
    browser == "camoufox"@ || browser == "cloak"@
}

fn is_automated(browser: &str) -> (r: bool)
    ensures
        r == automated(browser@),
{
    same(browser, "camoufox") || same(browser, "cloak")
}

pub open spec fn not_automated() -> ErrorView {
    refused("MCP only supports Camoufox and Cloak profiles"@)
}

/// The profile with the id, where its browser can be automated.
pub open spec fn supported(v: Seq<ProfileView>, id: Seq<char>) -> Result<ProfileView, ErrorView> {
    match profile_named(v, id) {
        None => Err(refused("Profile not found: "@ + id)),
        Some(p) => if automated(p.browser) {
            Ok(p)
        } else {
            Err(not_automated())
        },
    }
}

/// The profile with the id, where its browser can be automated.
pub fn supported_profile<'a>(v: &'a Vec<ProfileEntry>, id: &str) -> (r: Result<
    &'a ProfileEntry,
    McpError,
>)
    ensures
        match r {
            Ok(p) => supported(profile_views(v@), id@) == Ok::<_, ErrorView>(p@),
            Err(e) => supported(profile_views(v@), id@) == Err::<ProfileView, _>(e@),
        },
{
    match find_profile(v, id) {
        None => Err(refusal(join2("Profile not found: ", id).as_str())),
        Some(p) => {
            if is_automated(p.browser.as_str()) {
                Ok(p)
            } else {
                Err(refusal("MCP only supports Camoufox and Cloak profiles"))
            }
        },
    }
}

/// Where the profiles stand that are told of.
pub open spec fn shown(v: Seq<ProfileView>, n: int) -> Seq<int>
    decreases n,
{
    if n <= 0 {
        Seq::empty()
    } else if automated(v[n - 1].browser) {
        shown(v, n - 1).push(n - 1)
    } else {
        shown(v, n - 1)
    }
}

pub open spec fn places(v: Seq<usize>) -> Seq<int> {
    v.map_values(|i: usize| i as int)
}

/// Where the profiles stand that are told of.
pub fn shown_profiles(v: &Vec<ProfileEntry>) -> (r: Vec<usize>)
    ensures
        places(r@) == shown(profile_views(v@), v@.len() as int),
{
    let ghost all = profile_views(v@);
    let mut out: Vec<usize> = Vec::new();
    let mut i: usize = 0;
    assert(places(out@) =~= Seq::<int>::empty());
    while i < v.len()
        invariant
            i <= v@.len(),
            all == profile_views(v@),
            places(out@) == shown(all, i as int),
        decreases v@.len() - i,
    {
        assert(all[i as int] == v@[i as int]@);
        if is_automated(v[i].browser.as_str()) {
            let ghost before = out@;
            out.push(i);
            assert(places(out@) =~= places(before).push(i as int));
        }
        i = i + 1;
    }
    out
}

/// What is told of a profile: whether it runs.
pub open spec fn status_answer(v: Seq<ProfileView>, id: Seq<char>) -> Result<JsonView, ErrorView> {
    match supported(v, id) {
        Err(e) => Err(e),
        Ok(p) => Ok(
            text_content(
                render(
                    JsonView::empty().with("profile_id"@, JsonView::Str(id)).with(
                        "is_running"@,
                        JsonView::Bool(p.running),
                    ),
                ),
            ),
        ),
    }
}

/// What is told of a profile: whether it runs.
pub fn profile_status(v: &Vec<ProfileEntry>, id: &str) -> (r: Result<Json, McpError>)
    ensures
        result_view(r) == status_answer(profile_views(v@), id@),
{
    match supported_profile(v, id) {
        Err(e) => Err(e),
        Ok(p) => {
            let status = Json::empty().with("profile_id", Json::text(id)).with(
                "is_running",
                Json::Bool(p.running),
            );
            Ok(text_reply(status.render()))
        },
    }
}

// ---------------------------------------------------------------------------
// Fingerprints
// ---------------------------------------------------------------------------

/// How a Camoufox profile presents itself.
#[derive(Debug, PartialEq, Eq)]
pub struct CamoufoxConfig {
    pub fingerprint: Option<String>,
    pub os: Option<String>,
    pub randomize_fingerprint_on_launch: Option<bool>,
    pub screen_max_width: Option<u32>,
    pub screen_max_height: Option<u32>,
    pub screen_min_width: Option<u32>,
    pub screen_min_height: Option<u32>,
}

/// How a profile presents itself.
#[allow(inconsistent_fields)]
pub enum Presentation {
    Camoufox { config: CamoufoxConfig },
    Cloak { config: CloakConfig },
    Other,
}

pub open spec fn text_or_null(o: Option<String>) -> JsonView {
    match o {
        Some(s) => JsonView::Str(s@),
        None => JsonView::Null,
    }
}

pub open spec fn flag_or_null(o: Option<bool>) -> JsonView {
    match o {
        Some(b) => JsonView::Bool(b),
        None => JsonView::Null,
    }
}

pub open spec fn size_or_null(o: Option<u32>) -> JsonView {
    match o {
        Some(n) => JsonView::from_uint(n as u64),
        None => JsonView::Null,
    }
}

fn text_json(o: &Option<String>) -> (r: Json)
    ensures
        r@ == text_or_null(*o),
{
    match o {
        Some(s) => Json::text(s.as_str()),
        None => Json::Null,
    }
}

fn flag_json(o: Option<bool>) -> (r: Json)
    ensures
        r@ == flag_or_null(o),
{
    match o {
        Some(b) => Json::Bool(b),
        None => Json::Null,
    }
}

fn size_json(o: Option<u32>) -> (r: Json)
    ensures
        r@ == size_or_null(o),
{
    match o {
        Some(n) => Json::from_uint(n as u64),
        None => Json::Null,
    }
}

/// What is told of how a profile presents itself.
pub open spec fn presented(p: Presentation) -> Option<JsonView> {
    match p {
        Presentation::Camoufox { config } => Some(
            JsonView::empty().with("browser"@, JsonView::Str("camoufox"@)).with(
                "fingerprint"@,
                text_or_null(config.fingerprint),
            ).with("os"@, text_or_null(config.os)).with(
                "randomize_fingerprint_on_launch"@,
                flag_or_null(config.randomize_fingerprint_on_launch),
            ).with("screen_max_width"@, size_or_null(config.screen_max_width)).with(
                "screen_max_height"@,
                size_or_null(config.screen_max_height),
            ).with("screen_min_width"@, size_or_null(config.screen_min_width)).with(
                "screen_min_height"@,
                size_or_null(config.screen_min_height),
            ),
        ),
        Presentation::Cloak { config } => Some(
            JsonView::empty().with("browser"@, JsonView::Str("cloak"@)).with(
                "seed"@,
                size_or_null(config.seed),
            ).with("os"@, text_or_null(config.os)).with(
                "randomize_seed_on_launch"@,
                flag_or_null(config.randomize_seed_on_launch),
            ).with("timezone"@, text_or_null(config.timezone)).with(
                "locale"@,
                text_or_null(config.locale),
            ).with("screen_width"@, size_or_null(config.screen_width)).with(
                "screen_height"@,
                size_or_null(config.screen_height),
            ),
        ),
        Presentation::Other => None,
    }
}

/// What is told of how a profile presents itself.
pub fn get_profile_fingerprint(p: &Presentation) -> (r: Result<Json, McpError>)
    ensures
        result_view(r) == match presented(*p) {
            Some(v) => Ok(text_content(pretty(v))),
            None => Err(not_automated()),
        },
{
    let v = match p {
        Presentation::Camoufox { config } => Json::empty().with(
            "browser",
            Json::text("camoufox"),
        ).with("fingerprint", text_json(&config.fingerprint)).with(
            "os",
            text_json(&config.os),
        ).with(
            "randomize_fingerprint_on_launch",
            flag_json(config.randomize_fingerprint_on_launch),
        ).with("screen_max_width", size_json(config.screen_max_width)).with(
            "screen_max_height",
            size_json(config.screen_max_height),
        ).with("screen_min_width", size_json(config.screen_min_width)).with(
            "screen_min_height",
            size_json(config.screen_min_height),
        ),
        Presentation::Cloak { config } => Json::empty().with("browser", Json::text("cloak")).with(
            "seed",
            size_json(config.seed),
        ).with("os", text_json(&config.os)).with(
            "randomize_seed_on_launch",
            flag_json(config.randomize_seed_on_launch),
        ).with("timezone", text_json(&config.timezone)).with(
            "locale",
            text_json(&config.locale),
        ).with("screen_width", size_json(config.screen_width)).with(
            "screen_height",
            size_json(config.screen_height),
        ),
        Presentation::Other => {
            return Err(refusal("MCP only supports Camoufox and Cloak profiles"));
        },
    };
    Ok(text_reply(v.pretty()))
}

/// The text where one is given, else what was there.
pub open spec fn text_given(new: Option<String>, before: Option<String>) -> Option<Seq<char>> {
    match new {
        Some(t) => Some(t@),
        None => opt_text(before),
    }
}

/// The fingerprint after a change.
pub open spec fn fingerprint_after(c: FingerprintView, before: Option<String>) -> Option<Seq<char>> {
    match c {
        FingerprintView::Keep => opt_text(before),
        FingerprintView::Clear => None,
        FingerprintView::Give { text } => Some(text),
    }
}

/// The seed after a change: a fingerprint stands for the number that it
/// writes, and for none where it writes none.
pub open spec fn seed_after(c: FingerprintView, before: Option<u32>) -> Option<u32> {
    match c {
        FingerprintView::Keep => before,
        FingerprintView::Clear => None,
        FingerprintView::Give { text } => match unsigned_upto(text, u32::MAX as nat) {
            Some(n) => Some(n as u32),
            None => None,
        },
    }
}

pub open spec fn flag_given(new: Option<bool>, flag: Option<bool>) -> Option<bool> {
    match new {
        Some(b) => Some(b),
        None => flag,
    }
}

impl CamoufoxConfig {
    /// Changes what is given, and leaves the rest.
    pub fn update_fingerprint(
        &mut self,
        fingerprint: &FingerprintChange,
        os: &Option<String>,
        randomize: Option<bool>,
    )
        ensures
            opt_text(final(self).fingerprint) == fingerprint_after(
                fingerprint@,
                old(self).fingerprint,
            ),
            opt_text(final(self).os) == text_given(*os, old(self).os),
            final(self).randomize_fingerprint_on_launch == flag_given(
                randomize,
                old(self).randomize_fingerprint_on_launch,
            ),
            final(self).screen_max_width == old(self).screen_max_width,
            final(self).screen_max_height == old(self).screen_max_height,
            final(self).screen_min_width == old(self).screen_min_width,
            final(self).screen_min_height == old(self).screen_min_height,
    {
        match fingerprint {
            FingerprintChange::Keep => {},
            FingerprintChange::Clear => {
                self.fingerprint = None;
            },
            FingerprintChange::Give { text } => {
                self.fingerprint = Some(text.clone());
            },
        }
        match os {
            Some(t) => {
                self.os = Some(t.clone());
            },
            None => {},
        }
        if randomize.is_some() {
            self.randomize_fingerprint_on_launch = randomize;
        }
    }
}

impl CloakConfig {
    /// Changes what is given, and leaves the rest. The fingerprint stands for
    /// the seed.
    pub fn update_fingerprint(
        &mut self,
        fingerprint: &FingerprintChange,
        os: &Option<String>,
        randomize: Option<bool>,
    )
        ensures
            final(self).seed == seed_after(fingerprint@, old(self).seed),
            opt_text(final(self).os) == text_given(*os, old(self).os),
            final(self).randomize_seed_on_launch == flag_given(
                randomize,
                old(self).randomize_seed_on_launch,
            ),
            final(self).timezone == old(self).timezone,
            final(self).locale == old(self).locale,
            final(self).screen_width == old(self).screen_width,
            final(self).screen_height == old(self).screen_height,
            final(self).block_images == old(self).block_images,
            final(self).block_webrtc == old(self).block_webrtc,
            final(self).block_webgl == old(self).block_webgl,
            final(self).geoip == old(self).geoip,
            final(self).proxy == old(self).proxy,
    {
        match fingerprint {
            FingerprintChange::Keep => {},
            FingerprintChange::Clear => {
                self.seed = None;
            },
            FingerprintChange::Give { text } => {
                self.seed = parse_u32(text.as_str());
            },
        }
        match os {
            Some(t) => {
                self.os = Some(t.clone());
            },
            None => {},
        }
        if randomize.is_some() {
            self.randomize_seed_on_launch = randomize;
        }
    }
}

// ---------------------------------------------------------------------------
// Success
// ---------------------------------------------------------------------------

/// What is known of what a tool has changed: its name and its id where it has
/// them, its kind, and how many entries were taken over, passed over or
/// replaced, and wrong.
#[derive(Debug, PartialEq, Eq)]
pub struct Outcome {
    pub name: String,
    pub id: String,
    pub kind: String,
    pub imported: u64,
    pub others: u64,
    pub errors: u64,
}

pub open spec fn counted(o: Outcome, second: Seq<char>, third: Seq<char>) -> Seq<char> {
    "Import complete: "@ + dec(o.imported as nat) + " imported, "@ + dec(o.others as nat) + second
        + dec(o.errors as nat) + third
}

fn count_text(o: &Outcome, second: &str, third: &str) -> (r: String)
    ensures
        r@ == counted(*o, second@, third@),
{
    let mut s = join3("Import complete: ", dec_u64(o.imported).as_str(), " imported, ");
    s.append(dec_u64(o.others).as_str());
    s.append(second);
    s.append(dec_u64(o.errors).as_str());
    s.append(third);
    s
}

pub open spec fn created(what: Seq<char>, o: Outcome) -> Seq<char> {
    what + o.name@ + "' created successfully with ID: "@ + o.id@
}

fn created_text(what: &str, o: &Outcome) -> (r: String)
    ensures
        r@ == created(what@, *o),
{
    let mut s = join3(what, o.name.as_str(), "' created successfully with ID: ");
    s.append(o.id.as_str());
    s
}

/// What is said of a thing by the argument that named it.
pub open spec fn said_of(tool: Seq<char>, value: Seq<char>) -> Option<Seq<char>> {
    if tool == "delete_profile"@ {
        Some("Profile '"@ + value + "' deleted successfully"@)
    } else if tool == "delete_group"@ {
        Some("Group '"@ + value + "' deleted successfully"@)
    } else if tool == "delete_proxy"@ {
        Some("Proxy '"@ + value + "' deleted successfully"@)
    } else if tool == "delete_vpn"@ {
        Some("VPN '"@ + value + "' deleted successfully"@)
    } else if tool == "connect_vpn"@ {
        Some("VPN '"@ + value + "' connected successfully"@)
    } else if tool == "disconnect_vpn"@ {
        Some("VPN '"@ + value + "' disconnected successfully"@)
    } else {
        None
    }
}

fn say_of(tool: &str, value: &str) -> (r: Option<String>)
    ensures
        opt_text(r) == said_of(tool@, value@),
{
    if same(tool, "delete_profile") {
        return Some(join3("Profile '", value, "' deleted successfully"));
    }
    if same(tool, "delete_group") {
        return Some(join3("Group '", value, "' deleted successfully"));
    }
    if same(tool, "delete_proxy") {
        return Some(join3("Proxy '", value, "' deleted successfully"));
    }
    if same(tool, "delete_vpn") {
        return Some(join3("VPN '", value, "' deleted successfully"));
    }
    if same(tool, "connect_vpn") {
        return Some(join3("VPN '", value, "' connected successfully"));
    }
    if same(tool, "disconnect_vpn") {
        return Some(join3("VPN '", value, "' disconnected successfully"));
    }
    None
}

/// What is said of a tool that has done its work; nothing of those that
/// answer with what they have found.
pub open spec fn success(c: CallView, o: Outcome) -> Option<Seq<char>> {
    match c {
        CallView::RunProfile { .. } => Some(
            "Browser profile '"@ + o.name@ + "' launched successfully"@,
        ),
        CallView::CreateProfile { .. } => Some(
            "Profile '"@ + o.name@ + "' created (id: "@ + o.id@ + ")"@,
        ),
        CallView::UpdateProfile { profile_id, .. } => Some(
            "Profile '"@ + profile_id + "' updated successfully"@,
        ),
        CallView::UpdateGroup { .. } => Some("Group '"@ + o.name@ + "' updated successfully"@),
        CallView::AssignProfiles { profile_ids, group_id } => Some(
            dec(profile_ids.len()) + " profile(s) assigned to group '"@ + match group_id {
                Some(g) => g,
                None => "default"@,
            } + "'"@,
        ),
        CallView::CreateProxy { .. } => Some(created("Proxy '"@, o)),
        CallView::UpdateProxy { .. } => Some("Proxy '"@ + o.name@ + "' updated successfully"@),
        CallView::ImportProxies { .. } => Some(counted(o, " skipped, "@, " errors"@)),
        CallView::ImportCookies { .. } => Some(counted(o, " replaced, "@, " parse error(s)"@)),
        CallView::ImportVpn { .. } => Some(
            "VPN '"@ + o.name@ + "' ("@ + o.kind@ + ") imported successfully with ID: "@ + o.id@,
        ),
        CallView::UpdateFingerprint { .. } => Some(
            "Fingerprint configuration updated for profile '"@ + o.name@ + "'"@,
        ),
        CallView::UpdateBypassRules { rules, .. } => Some(
            "Proxy bypass rules updated for profile '"@ + o.name@ + "': "@ + dec(rules.len())
                + " rule(s) configured"@,
        ),
        CallView::AddProfileTag { tag, .. } => Some(
            "Tagged profile '"@ + o.name@ + "' with '"@ + tag + "'"@,
        ),
        CallView::UpdateDnsBlocklist { level, .. } => Some(
            "DNS blocklist updated for profile '"@ + o.name@ + "': "@ + level,
        ),
        CallView::One { tool, value } => if tool == "kill_profile"@ {
            Some("Browser profile '"@ + o.name@ + "' stopped successfully"@)
        } else if tool == "create_group"@ {
            Some(created("Group '"@, o))
        } else {
            said_of(tool, value)
        },
        _ => None,
    }
}

/// What is said of a tool that has done its work.
pub fn success_text(c: &ToolCall, o: &Outcome) -> (r: Option<String>)
    ensures
        opt_text(r) == success(c@, *o),
{
    let name = o.name.as_str();
    let s = match c {
        ToolCall::RunProfile { profile_id: _, url: _, headless: _ } => join3(
            "Browser profile '",
            name,
            "' launched successfully",
        ),
        ToolCall::CreateProfile {
            name: _,
            browser: _,
            proxy_id: _,
            launch_hook: _,
            group_id: _,
            tags: _,
        } => {
            let mut s = join3("Profile '", name, "' created (id: ");
            s.append(o.id.as_str());
            s.append(")");
            s
        },
        ToolCall::UpdateProfile { profile_id, changes: _ } => join3(
            "Profile '",
            profile_id.as_str(),
            "' updated successfully",
        ),
        ToolCall::UpdateGroup { group_id: _, name: _ } => join3(
            "Group '",
            name,
            "' updated successfully",
        ),
        ToolCall::AssignProfiles { profile_ids, group_id } => {
            let n: usize = profile_ids.len();
            let mut s = join2(
                dec_u64(n as u64).as_str(),
                " profile(s) assigned to group '",
            );
            match group_id {
                Some(g) => {
                    s.append(g.as_str());
                },
                None => {
                    s.append("default");
                },
            }
            s.append("'");
            s
        },
        ToolCall::CreateProxy { name: _, settings: _ } => created_text("Proxy '", o),
        ToolCall::UpdateProxy { proxy_id: _, name: _, has_settings: _ } => join3(
            "Proxy '",
            name,
            "' updated successfully",
        ),
        ToolCall::ImportProxies { content: _, as_json: _, name_prefix: _ } => count_text(
            o,
            " skipped, ",
            " errors",
        ),
        ToolCall::ImportCookies { profile_id: _, content: _ } => count_text(
            o,
            " replaced, ",
            " parse error(s)",
        ),
        ToolCall::ImportVpn { content: _, filename: _, name: _ } => {
            let mut s = join3("VPN '", name, "' (");
            s.append(o.kind.as_str());
            s.append(") imported successfully with ID: ");
            s.append(o.id.as_str());
            s
        },
        ToolCall::UpdateFingerprint { profile_id: _, fingerprint: _, os: _, randomize: _ } => join3(
            "Fingerprint configuration updated for profile '",
            name,
            "'",
        ),
        ToolCall::UpdateBypassRules { profile_id: _, rules } => {
            let n: usize = rules.len();
            let mut s = join3("Proxy bypass rules updated for profile '", name, "': ");
            s.append(dec_u64(n as u64).as_str());
            s.append(" rule(s) configured");
            s
        },
        ToolCall::AddProfileTag { profile_id: _, tag } => {
            let mut s = join3("Tagged profile '", name, "' with '");
            s.append(tag.as_str());
            s.append("'");
            s
        },
        ToolCall::UpdateDnsBlocklist { profile_id: _, level, blocklist: _ } => {
            let mut s = join3("DNS blocklist updated for profile '", name, "': ");
            s.append(level.as_str());
            s
        },
        ToolCall::One { tool, value } => {
            if same(tool.as_str(), "kill_profile") {
                join3("Browser profile '", name, "' stopped successfully")
            } else if same(tool.as_str(), "create_group") {
                created_text("Group '", o)
            } else {
                return say_of(tool.as_str(), value.as_str());
            }
        },
        _ => {
            return None;
        },
    };
    Some(s)
}

// ---------------------------------------------------------------------------
// Failure
// ---------------------------------------------------------------------------

/// What a failure of a tool with one argument is called. Those that only read
/// the profiles fail in listing them.
pub open spec fn one_failure(tool: Seq<char>) -> Seq<char> {
    if tool == "kill_profile"@ {
        "Failed to kill browser: "@
    } else if tool == "delete_profile"@ {
        "Failed to delete profile: "@
    } else if tool == "create_group"@ {
        "Failed to create group: "@
    } else if tool == "delete_group"@ {
        "Failed to delete group: "@
    } else if tool == "delete_proxy"@ {
        "Failed to delete proxy: "@
    } else if tool == "delete_vpn"@ {
        "Failed to delete VPN config: "@
    } else if tool == "connect_vpn"@ {
        "Failed to connect VPN: "@
    } else if tool == "disconnect_vpn"@ {
        "Failed to disconnect VPN: "@
    } else if tool == "create_extension_group"@ {
        "Failed to create extension group: "@
    } else if tool == "delete_extension"@ {
        "Failed to delete extension: "@
    } else if tool == "delete_extension_group"@ {
        "Failed to delete extension group: "@
    } else {
        "Failed to list profiles: "@
    }
}

fn one_failure_text(tool: &str) -> (r: &'static str)
    ensures
        r@ == one_failure(tool@),
{
    if same(tool, "kill_profile") {
        return "Failed to kill browser: ";
    }
    if same(tool, "delete_profile") {
        return "Failed to delete profile: ";
    }
    if same(tool, "create_group") {
        return "Failed to create group: ";
    }
    if same(tool, "delete_group") {
        return "Failed to delete group: ";
    }
    if same(tool, "delete_proxy") {
        return "Failed to delete proxy: ";
    }
    if same(tool, "delete_vpn") {
        return "Failed to delete VPN config: ";
    }
    if same(tool, "connect_vpn") {
        return "Failed to connect VPN: ";
    }
    if same(tool, "disconnect_vpn") {
        return "Failed to disconnect VPN: ";
    }
    if same(tool, "create_extension_group") {
        return "Failed to create extension group: ";
    }
    if same(tool, "delete_extension") {
        return "Failed to delete extension: ";
    }
    if same(tool, "delete_extension_group") {
        return "Failed to delete extension group: ";
    }
    "Failed to list profiles: "
}

/// What a failure of a tool without arguments is called.
pub open spec fn plain_failure(tool: Seq<char>) -> Seq<char> {
    if tool == "list_profiles"@ {
        "Failed to list profiles: "@
    } else if tool == "list_tags"@ {
        "Failed to get tags: "@
    } else if tool == "list_groups"@ {
        "Failed to list groups: "@
    } else if tool == "list_vpn_configs"@ {
        "Failed to list VPN configs: "@
    } else if tool == "list_extensions"@ {
        "Failed to list extensions: "@
    } else {
        "Failed to list extension groups: "@
    }
}

fn plain_failure_text(tool: &str) -> (r: &'static str)
    ensures
        r@ == plain_failure(tool@),
{
    if same(tool, "list_profiles") {
        return "Failed to list profiles: ";
    }
    if same(tool, "list_tags") {
        return "Failed to get tags: ";
    }
    if same(tool, "list_groups") {
        return "Failed to list groups: ";
    }
    if same(tool, "list_vpn_configs") {
        return "Failed to list VPN configs: ";
    }
    if same(tool, "list_extensions") {
        return "Failed to list extensions: ";
    }
    "Failed to list extension groups: "
}

/// What a failure of a tool is called. The fingerprints of the two browsers
/// are kept apart.
pub open spec fn failure(c: CallView, browser: Seq<char>) -> Seq<char> {
    match c {
        CallView::Plain { tool } => plain_failure(tool),
        CallView::One { tool, .. } => one_failure(tool),
        CallView::RunProfile { .. } => "Failed to launch browser: "@,
        CallView::CreateProfile { .. } => "Failed to create profile: "@,
        CallView::UpdateGroup { .. } => "Failed to update group: "@,
        CallView::AssignProfiles { .. } => "Failed to assign profiles to group: "@,
        CallView::CreateProxy { .. } => "Failed to create proxy: "@,
        CallView::UpdateProxy { .. } => "Failed to update proxy: "@,
        CallView::ExportProxies { .. } => "Failed to export proxies: "@,
        CallView::ImportProxies { .. } => "Failed to import proxies: "@,
        CallView::ImportCookies { .. } => "Failed to import cookies: "@,
        CallView::ImportVpn { .. } => "Failed to import VPN config: "@,
        CallView::UpdateFingerprint { .. } => if browser == "cloak"@ {
            "Failed to update cloak config: "@
        } else {
            "Failed to update camoufox config: "@
        },
        CallView::UpdateBypassRules { .. } => "Failed to update proxy bypass rules: "@,
        CallView::AddProfileTag { .. } => "Failed to add tag: "@,
        CallView::UpdateDnsBlocklist { .. } => "Failed to update DNS blocklist: "@,
        CallView::AssignExtensionGroup { .. } => "Failed to assign extension group: "@,
        _ => "Failed to list profiles: "@,
    }
}

/// What is said of a tool that has failed.
pub fn tool_failed(c: &ToolCall, browser: &str, e: &str) -> (r: McpError)
    ensures
        r@ == refused(failure(c@, browser@) + e@),
{
    let what = match c {
        ToolCall::Plain { tool } => plain_failure_text(tool.as_str()),
        ToolCall::One { tool, value: _ } => one_failure_text(tool.as_str()),
        ToolCall::RunProfile { profile_id: _, url: _, headless: _ } => "Failed to launch browser: ",
        ToolCall::CreateProfile {
            name: _,
            browser: _,
            proxy_id: _,
            launch_hook: _,
            group_id: _,
            tags: _,
        } => "Failed to create profile: ",
        ToolCall::UpdateGroup { group_id: _, name: _ } => "Failed to update group: ",
        ToolCall::AssignProfiles {
            profile_ids: _,
            group_id: _,
        } => "Failed to assign profiles to group: ",
        ToolCall::CreateProxy { name: _, settings: _ } => "Failed to create proxy: ",
        ToolCall::UpdateProxy {
            proxy_id: _,
            name: _,
            has_settings: _,
        } => "Failed to update proxy: ",
        ToolCall::ExportProxies { as_json: _ } => "Failed to export proxies: ",
        ToolCall::ImportProxies {
            content: _,
            as_json: _,
            name_prefix: _,
        } => "Failed to import proxies: ",
        ToolCall::ImportCookies { profile_id: _, content: _ } => "Failed to import cookies: ",
        ToolCall::ImportVpn {
            content: _,
            filename: _,
            name: _,
        } => "Failed to import VPN config: ",
        ToolCall::UpdateFingerprint { profile_id: _, fingerprint: _, os: _, randomize: _ } => {
            if same(browser, "cloak") {
                "Failed to update cloak config: "
            } else {
                "Failed to update camoufox config: "
            }
        },
        ToolCall::UpdateBypassRules {
            profile_id: _,
            rules: _,
        } => "Failed to update proxy bypass rules: ",
        ToolCall::AddProfileTag { profile_id: _, tag: _ } => "Failed to add tag: ",
        ToolCall::UpdateDnsBlocklist {
            profile_id: _,
            level: _,
            blocklist: _,
        } => "Failed to update DNS blocklist: ",
        ToolCall::AssignExtensionGroup {
            profile_id: _,
            group: _,
        } => "Failed to assign extension group: ",
        _ => "Failed to list profiles: ",
    };
    refusal(join2(what, e).as_str())
}

/// What a tool cannot find or cannot read.
#[derive(Debug, PartialEq, Eq)]
pub enum Lacking {
    Group { id: String },
    Proxy { id: String },
    /// A profile that a group of extensions is to be assigned to.
    Profile { id: String },
    /// No version of the browser has been downloaded.
    Version { browser: String },
    /// No line of the list is a proxy.
    Proxies,
    Scenario { id: String },
    /// What was given is no scenario.
    ScenarioForm { error: String },
}

/// What is said of it.
pub open spec fn lack(l: Lacking) -> ErrorView {
    match l {
        Lacking::Group { id } => refused("Group not found: "@ + id@),
        Lacking::Proxy { id } => refused("Proxy not found: "@ + id@),
        Lacking::Profile { id } => refused("Profile '"@ + id@ + "' not found"@),
        Lacking::Version { browser } => refused(
            "No downloaded version found for "@ + browser@ + ". Download it first."@,
        ),
        Lacking::Proxies => refused("No valid proxies found in content"@),
        Lacking::Scenario { id } => refused("Scenario not found: "@ + id@),
        Lacking::ScenarioForm { error } => invalid("Invalid scenario: "@ + error@),
    }
}

/// What is said of what a tool cannot find or cannot read.
pub fn lacking(l: &Lacking) -> (r: McpError)
    ensures
        r@ == lack(*l),
{
    match l {
        Lacking::Group { id } => refusal(join2("Group not found: ", id.as_str()).as_str()),
        Lacking::Proxy { id } => refusal(join2("Proxy not found: ", id.as_str()).as_str()),
        Lacking::Profile { id } => refusal(
            join3("Profile '", id.as_str(), "' not found").as_str(),
        ),
        Lacking::Version { browser } => refusal(
            join3(
                "No downloaded version found for ",
                browser.as_str(),
                ". Download it first.",
            ).as_str(),
        ),
        Lacking::Proxies => refusal("No valid proxies found in content"),
        Lacking::Scenario { id } => refusal(join2("Scenario not found: ", id.as_str()).as_str()),
        Lacking::ScenarioForm { error } => invalid_args(
            join2("Invalid scenario: ", error.as_str()).as_str(),
        ),
    }
}

} // verus!
