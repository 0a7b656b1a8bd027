//! What the list of tools says: which tools there are, in which order, and what each
//! of them needs.
use vstd::prelude::*;

use crate::json::{lemma_with_field, lemma_with_object};
use crate::tools::{
    all_tools, extension_tools, group_tools, identity_tools, no_words, page_tools, profile_tools,
    proxy_tools, reading_tools, tool, tool_json, tools_body, vpn_tools, ToolView,
};
use crate::value::JsonView;

verus! {

/// The tool has that name and needs those arguments, no more and no fewer.
pub open spec fn is_tool(t: ToolView, name: Seq<char>, needs: Seq<JsonView>) -> bool {
    &&& t.name == name
    &&& t.input_schema.field_str("type"@) == Some("object"@)
    &&& t.input_schema.field_array("required"@) == Some(needs)
}

proof fn lemma_schema_keys()
    ensures
        "type"@.len() == 4,
        "properties"@.len() == 10,
        "required"@.len() == 8,
        "name"@.len() == 4 && "name"@[0] == 'n',
        "description"@.len() == 11 && "description"@[0] == 'd',
        "inputSchema"@.len() == 11 && "inputSchema"@[0] == 'i',
{
    reveal_strlit("type");
    reveal_strlit("properties");
    reveal_strlit("required");
    reveal_strlit("name");
    reveal_strlit("description");
    reveal_strlit("inputSchema");
}

proof fn lemma_tool(
    t: ToolView,
    name: Seq<char>,
    description: Seq<char>,
    properties: JsonView,
    required: Seq<Seq<char>>,
    needs: Seq<JsonView>,
)
    requires
        t == tool(name, description, properties, required),
        needs == required.map_values(|w: Seq<char>| JsonView::Str(w)),
    ensures
        is_tool(t, name, needs),
{
    broadcast use {lemma_with_field, lemma_with_object};

    lemma_schema_keys();
}

/// A tool that is made for a list of needs has them as its needs.
broadcast proof fn lemma_made(
    name: Seq<char>,
    description: Seq<char>,
    properties: JsonView,
    required: Seq<Seq<char>>,
)
    ensures
        is_tool(
            #[trigger] tool(name, description, properties, required),
            name,
            required.map_values(|w: Seq<char>| JsonView::Str(w)),
        ),
{
    lemma_tool(
        tool(name, description, properties, required),
        name,
        description,
        properties,
        required,
        required.map_values(|w: Seq<char>| JsonView::Str(w)),
    );
}

proof fn lemma_needs(a: Seq<char>, b: Seq<char>, c: Seq<char>, d: Seq<char>)
    ensures
        no_words().map_values(|w: Seq<char>| JsonView::Str(w)) == Seq::<JsonView>::empty(),
        no_words().push(a).map_values(|w: Seq<char>| JsonView::Str(w)) == seq![JsonView::Str(a)],
        no_words().push(a).push(b).map_values(|w: Seq<char>| JsonView::Str(w)) == seq![
            JsonView::Str(a),
            JsonView::Str(b),
        ],
        no_words().push(a).push(b).push(c).map_values(|w: Seq<char>| JsonView::Str(w)) == seq![
            JsonView::Str(a),
            JsonView::Str(b),
            JsonView::Str(c),
        ],
        no_words().push(a).push(b).push(c).push(d).map_values(|w: Seq<char>| JsonView::Str(w))
            == seq![JsonView::Str(a), JsonView::Str(b), JsonView::Str(c), JsonView::Str(d)],
{
    let f = |w: Seq<char>| JsonView::Str(w);
    assert(no_words().map_values(f) =~= Seq::<JsonView>::empty());
    assert(no_words().push(a).map_values(f) =~= seq![JsonView::Str(a)]);
    assert(no_words().push(a).push(b).map_values(f) =~= seq![JsonView::Str(a), JsonView::Str(b)]);
    assert(no_words().push(a).push(b).push(c).map_values(f) =~= seq![
        JsonView::Str(a),
        JsonView::Str(b),
        JsonView::Str(c),
    ]);
    assert(no_words().push(a).push(b).push(c).push(d).map_values(f) =~= seq![
        JsonView::Str(a),
        JsonView::Str(b),
        JsonView::Str(c),
        JsonView::Str(d),
    ]);
}

/// The tools for profiles, behind those that are there, and what each needs.
pub proof fn lemma_profile_tools(a: Seq<ToolView>)
    ensures
        ({
            let t = profile_tools(a);
            let n = a.len() as int;
            &&& t.len() == n + 10
            &&& t.take(n) == a
            &&& is_tool(t[n + 0], "list_profiles"@, Seq::empty())
            &&& is_tool(t[n + 1], "get_profile"@, seq![JsonView::Str("profile_id"@)])
            &&& is_tool(t[n + 2], "run_profile"@, seq![JsonView::Str("profile_id"@)])
            &&& is_tool(t[n + 3], "kill_profile"@, seq![JsonView::Str("profile_id"@)])
            &&& is_tool(t[n + 4], "create_profile"@, seq![JsonView::Str("name"@), JsonView::Str("browser"@)])
            &&& is_tool(t[n + 5], "update_profile"@, seq![JsonView::Str("profile_id"@)])
            &&& is_tool(t[n + 6], "delete_profile"@, seq![JsonView::Str("profile_id"@)])
            &&& is_tool(t[n + 7], "list_tags"@, Seq::empty())
            &&& is_tool(t[n + 8], "list_proxies"@, Seq::empty())
            &&& is_tool(t[n + 9], "get_profile_status"@, seq![JsonView::Str("profile_id"@)])
        }),
{
    broadcast use lemma_made;

    let t = profile_tools(a);
    assert(t.take(a.len() as int) =~= a);
    lemma_needs(""@, ""@, ""@, ""@);
    lemma_needs("profile_id"@, ""@, ""@, ""@);
    lemma_needs("name"@, "browser"@, ""@, ""@);
}

/// The tools for groups, behind those that are there, and what each needs.
pub proof fn lemma_group_tools(a: Seq<ToolView>)
    ensures
        ({
            let t = group_tools(a);
            let n = a.len() as int;
            &&& t.len() == n + 6
            &&& t.take(n) == a
            &&& is_tool(t[n + 0], "list_groups"@, Seq::empty())
            &&& is_tool(t[n + 1], "get_group"@, seq![JsonView::Str("group_id"@)])
            &&& is_tool(t[n + 2], "create_group"@, seq![JsonView::Str("name"@)])
            &&& is_tool(t[n + 3], "update_group"@, seq![JsonView::Str("group_id"@), JsonView::Str("name"@)])
            &&& is_tool(t[n + 4], "delete_group"@, seq![JsonView::Str("group_id"@)])
            &&& is_tool(t[n + 5], "assign_profiles_to_group"@, seq![JsonView::Str("profile_ids"@)])
        }),
{
    broadcast use lemma_made;

    let t = group_tools(a);
    assert(t.take(a.len() as int) =~= a);
    lemma_needs(""@, ""@, ""@, ""@);
    lemma_needs("group_id"@, ""@, ""@, ""@);
    lemma_needs("name"@, ""@, ""@, ""@);
    lemma_needs("group_id"@, "name"@, ""@, ""@);
    lemma_needs("profile_ids"@, ""@, ""@, ""@);
}

/// The tools for proxies, behind those that are there, and what each needs.
pub proof fn lemma_proxy_tools(a: Seq<ToolView>)
    ensures
        ({
            let t = proxy_tools(a);
            let n = a.len() as int;
            &&& t.len() == n + 6
            &&& t.take(n) == a
            &&& is_tool(t[n + 0], "get_proxy"@, seq![JsonView::Str("proxy_id"@)])
            &&& is_tool(t[n + 1], "create_proxy"@, seq![JsonView::Str("name"@), JsonView::Str("proxy_type"@), JsonView::Str("host"@), JsonView::Str("port"@)])
            &&& is_tool(t[n + 2], "update_proxy"@, seq![JsonView::Str("proxy_id"@)])
            &&& is_tool(t[n + 3], "delete_proxy"@, seq![JsonView::Str("proxy_id"@)])
            &&& is_tool(t[n + 4], "export_proxies"@, seq![JsonView::Str("format"@)])
            &&& is_tool(t[n + 5], "import_proxies"@, seq![JsonView::Str("content"@), JsonView::Str("format"@)])
        }),
{
    broadcast use lemma_made;

    let t = proxy_tools(a);
    assert(t.take(a.len() as int) =~= a);
    lemma_needs("proxy_id"@, ""@, ""@, ""@);
    lemma_needs("name"@, "proxy_type"@, "host"@, "port"@);
    lemma_needs("format"@, ""@, ""@, ""@);
    lemma_needs("content"@, "format"@, ""@, ""@);
}

/// The tools for private networks, behind those that are there, and what each needs.
pub proof fn lemma_vpn_tools(a: Seq<ToolView>)
    ensures
        ({
            let t = vpn_tools(a);
            let n = a.len() as int;
            &&& t.len() == n + 6
            &&& t.take(n) == a
            &&& is_tool(t[n + 0], "import_vpn"@, seq![JsonView::Str("content"@), JsonView::Str("filename"@)])
            &&& is_tool(t[n + 1], "list_vpn_configs"@, Seq::empty())
            &&& is_tool(t[n + 2], "delete_vpn"@, seq![JsonView::Str("vpn_id"@)])
            &&& is_tool(t[n + 3], "connect_vpn"@, seq![JsonView::Str("vpn_id"@)])
            &&& is_tool(t[n + 4], "disconnect_vpn"@, seq![JsonView::Str("vpn_id"@)])
            &&& is_tool(t[n + 5], "get_vpn_status"@, seq![JsonView::Str("vpn_id"@)])
        }),
{
    broadcast use lemma_made;

    let t = vpn_tools(a);
    assert(t.take(a.len() as int) =~= a);
    lemma_needs("content"@, "filename"@, ""@, ""@);
    lemma_needs(""@, ""@, ""@, ""@);
    lemma_needs("vpn_id"@, ""@, ""@, ""@);
}

/// The tools for the identity of a profile, behind those that are there, and what each needs.
pub proof fn lemma_identity_tools(a: Seq<ToolView>)
    ensures
        ({
            let t = identity_tools(a);
            let n = a.len() as int;
            &&& t.len() == n + 5
            &&& t.take(n) == a
            &&& is_tool(t[n + 0], "get_profile_fingerprint"@, seq![JsonView::Str("profile_id"@)])
            &&& is_tool(t[n + 1], "update_profile_fingerprint"@, seq![JsonView::Str("profile_id"@)])
            &&& is_tool(t[n + 2], "update_profile_proxy_bypass_rules"@, seq![JsonView::Str("profile_id"@), JsonView::Str("rules"@)])
            &&& is_tool(t[n + 3], "update_profile_dns_blocklist"@, seq![JsonView::Str("profile_id"@), JsonView::Str("level"@)])
            &&& is_tool(t[n + 4], "get_dns_blocklist_status"@, Seq::empty())
        }),
{
    broadcast use lemma_made;

    let t = identity_tools(a);
    assert(t.take(a.len() as int) =~= a);
    lemma_needs("profile_id"@, ""@, ""@, ""@);
    lemma_needs("profile_id"@, "rules"@, ""@, ""@);
    lemma_needs("profile_id"@, "level"@, ""@, ""@);
    lemma_needs(""@, ""@, ""@, ""@);
}

/// The tools for extensions and teams, behind those that are there, and what each needs.
pub proof fn lemma_extension_tools(a: Seq<ToolView>)
    ensures
        ({
            let t = extension_tools(a);
            let n = a.len() as int;
            &&& t.len() == n + 9
            &&& t.take(n) == a
            &&& is_tool(t[n + 0], "list_extensions"@, Seq::empty())
            &&& is_tool(t[n + 1], "list_extension_groups"@, Seq::empty())
            &&& is_tool(t[n + 2], "create_extension_group"@, seq![JsonView::Str("name"@)])
            &&& is_tool(t[n + 3], "delete_extension"@, seq![JsonView::Str("extension_id"@)])
            &&& is_tool(t[n + 4], "delete_extension_group"@, seq![JsonView::Str("group_id"@)])
            &&& is_tool(t[n + 5], "assign_extension_group_to_profile"@, seq![JsonView::Str("profile_id"@)])
            &&& is_tool(t[n + 6], "import_profile_cookies"@, seq![JsonView::Str("profile_id"@), JsonView::Str("content"@)])
            &&& is_tool(t[n + 7], "get_team_locks"@, Seq::empty())
            &&& is_tool(t[n + 8], "get_team_lock_status"@, seq![JsonView::Str("profile_id"@)])
        }),
{
    broadcast use lemma_made;

    let t = extension_tools(a);
    assert(t.take(a.len() as int) =~= a);
    lemma_needs(""@, ""@, ""@, ""@);
    lemma_needs("name"@, ""@, ""@, ""@);
    lemma_needs("extension_id"@, ""@, ""@, ""@);
    lemma_needs("group_id"@, ""@, ""@, ""@);
    lemma_needs("profile_id"@, ""@, ""@, ""@);
    lemma_needs("profile_id"@, "content"@, ""@, ""@);
}

/// The tools for acting on pages, behind those that are there, and what each needs.
pub proof fn lemma_page_tools(a: Seq<ToolView>)
    ensures
        ({
            let t = page_tools(a);
            let n = a.len() as int;
            &&& t.len() == n + 11
            &&& t.take(n) == a
            &&& is_tool(t[n + 0], "navigate"@, seq![JsonView::Str("profile_id"@), JsonView::Str("url"@)])
            &&& is_tool(t[n + 1], "screenshot"@, seq![JsonView::Str("profile_id"@)])
            &&& is_tool(t[n + 2], "evaluate_javascript"@, seq![JsonView::Str("profile_id"@), JsonView::Str("expression"@)])
            &&& is_tool(t[n + 3], "click_element"@, seq![JsonView::Str("profile_id"@), JsonView::Str("selector"@)])
            &&& is_tool(t[n + 4], "type_text"@, seq![JsonView::Str("profile_id"@), JsonView::Str("selector"@), JsonView::Str("text"@)])
            &&& is_tool(t[n + 5], "press_key"@, seq![JsonView::Str("profile_id"@), JsonView::Str("key"@)])
            &&& is_tool(t[n + 6], "upload_file"@, seq![JsonView::Str("profile_id"@), JsonView::Str("selector"@), JsonView::Str("files"@)])
            &&& is_tool(t[n + 7], "list_tabs"@, seq![JsonView::Str("profile_id"@)])
            &&& is_tool(t[n + 8], "new_tab"@, seq![JsonView::Str("profile_id"@)])
            &&& is_tool(t[n + 9], "switch_tab"@, seq![JsonView::Str("profile_id"@), JsonView::Str("index"@)])
            &&& is_tool(t[n + 10], "close_tab"@, seq![JsonView::Str("profile_id"@), JsonView::Str("index"@)])
        }),
{
    broadcast use lemma_made;

    let t = page_tools(a);
    assert(t.take(a.len() as int) =~= a);
    lemma_needs("profile_id"@, "url"@, ""@, ""@);
    lemma_needs("profile_id"@, ""@, ""@, ""@);
    lemma_needs("profile_id"@, "expression"@, ""@, ""@);
    lemma_needs("profile_id"@, "selector"@, ""@, ""@);
    lemma_needs("profile_id"@, "selector"@, "text"@, ""@);
    lemma_needs("profile_id"@, "key"@, ""@, ""@);
    lemma_needs("profile_id"@, "selector"@, "files"@, ""@);
    lemma_needs("profile_id"@, "index"@, ""@, ""@);
}

/// The tools for reading pages, for elements by number and for scenarios, behind those that are there, and what each needs.
pub proof fn lemma_reading_tools(a: Seq<ToolView>)
    ensures
        ({
            let t = reading_tools(a);
            let n = a.len() as int;
            &&& t.len() == n + 7
            &&& t.take(n) == a
            &&& is_tool(t[n + 0], "get_page_content"@, seq![JsonView::Str("profile_id"@)])
            &&& is_tool(t[n + 1], "get_page_info"@, seq![JsonView::Str("profile_id"@)])
            &&& is_tool(t[n + 2], "get_interactive_elements"@, seq![JsonView::Str("profile_id"@)])
            &&& is_tool(t[n + 3], "click_by_index"@, seq![JsonView::Str("profile_id"@), JsonView::Str("index"@)])
            &&& is_tool(t[n + 4], "type_by_index"@, seq![JsonView::Str("profile_id"@), JsonView::Str("index"@), JsonView::Str("text"@)])
            &&& is_tool(t[n + 5], "run_scenario"@, seq![JsonView::Str("profile_id"@)])
            &&& is_tool(t[n + 6], "list_scenario_runs"@, Seq::empty())
        }),
{
    broadcast use lemma_made;

    let t = reading_tools(a);
    assert(t.take(a.len() as int) =~= a);
    lemma_needs("profile_id"@, ""@, ""@, ""@);
    lemma_needs("profile_id"@, "index"@, ""@, ""@);
    lemma_needs("profile_id"@, "index"@, "text"@, ""@);
    lemma_needs(""@, ""@, ""@, ""@);
}

/// All the tools stand in one list, and each is told of by its name, by what it does
/// and by what it takes.
pub proof fn lemma_all_tools(i: int)
    requires
        0 <= i < all_tools().len(),
    ensures
        all_tools().len() == 60,
        tools_body().field_array("tools"@) matches Some(list) && list.len() == all_tools().len()
            && list[i].field_str("name"@) == Some(all_tools()[i].name) && list[i].field_str(
            "description"@,
        ) == Some(all_tools()[i].description) && list[i].field("inputSchema"@) == Some(
            all_tools()[i].input_schema,
        ),
{
    broadcast use {lemma_with_field, lemma_with_object};

    lemma_schema_keys();
    let a1 = profile_tools(Seq::empty());
    let a2 = group_tools(a1);
    let a3 = proxy_tools(a2);
    let a4 = vpn_tools(a3);
    let a5 = identity_tools(a4);
    let a6 = extension_tools(a5);
    let a7 = page_tools(a6);
    lemma_profile_tools(Seq::empty());
    lemma_group_tools(a1);
    lemma_proxy_tools(a2);
    lemma_vpn_tools(a3);
    lemma_identity_tools(a4);
    lemma_extension_tools(a5);
    lemma_page_tools(a6);
    lemma_reading_tools(a7);
    let list = all_tools().map_values(|t: ToolView| tool_json(t));
    assert(list[i] == tool_json(all_tools()[i]));
}

} // verus!
