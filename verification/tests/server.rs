//! The server, its tools, and what they answer.
use watermelon::actions::{ActionError, McpActionExecutor};
use watermelon::calls::{
    change_failed, dispatch_tool_call, patch_proxy, read_changes, require_app, scenario_source,
    FingerprintChange, Gate, ProfileChange, ProxySettings, ScenarioSource, ToolCall,
};
use watermelon::cloak::CloakConfig;
use watermelon::profiles::ProfileEntry;
use watermelon::protocol::{
    after_bind, admits, health, preferred_port, refusal, respond, text_reply, McpError, McpRequest,
    McpServer, PortStep, Posted, Routed,
};
use watermelon::replies::{
    get_profile_fingerprint, lacking, profile_status, shown_profiles, success_text,
    supported_profile, tool_failed, CamoufoxConfig, Lacking, Outcome, Presentation,
};
use watermelon::value::Json;

const OPEN: Gate = Gate { initialized: true, team_plan: true };

#[test]
fn test_mcp_tools_count() {
    let server = McpServer::new();
    let tools = server.get_tools();

    assert!(tools.len() >= 37);

    // Check tool names
    let tool_names: Vec<&str> = tools.iter().map(|t| t.name.as_str()).collect();
    // Profile tools
    assert!(tool_names.contains(&"list_profiles"));
    assert!(tool_names.contains(&"get_profile"));
    assert!(tool_names.contains(&"run_profile"));
    assert!(tool_names.contains(&"kill_profile"));
    assert!(tool_names.contains(&"get_profile_status"));
    // Group tools
    assert!(tool_names.contains(&"list_groups"));
    assert!(tool_names.contains(&"get_group"));
    assert!(tool_names.contains(&"create_group"));
    assert!(tool_names.contains(&"update_group"));
    assert!(tool_names.contains(&"delete_group"));
    assert!(tool_names.contains(&"assign_profiles_to_group"));
    // Proxy tools
    assert!(tool_names.contains(&"list_proxies"));
    assert!(tool_names.contains(&"get_proxy"));
    assert!(tool_names.contains(&"create_proxy"));
    assert!(tool_names.contains(&"update_proxy"));
    assert!(tool_names.contains(&"delete_proxy"));
    // Proxy import/export tools
    assert!(tool_names.contains(&"export_proxies"));
    assert!(tool_names.contains(&"import_proxies"));
    // VPN tools
    assert!(tool_names.contains(&"import_vpn"));
    assert!(tool_names.contains(&"list_vpn_configs"));
    assert!(tool_names.contains(&"delete_vpn"));
    assert!(tool_names.contains(&"connect_vpn"));
    assert!(tool_names.contains(&"disconnect_vpn"));
    assert!(tool_names.contains(&"get_vpn_status"));
    // Fingerprint tools
    assert!(tool_names.contains(&"get_profile_fingerprint"));
    assert!(tool_names.contains(&"update_profile_fingerprint"));
    assert!(tool_names.contains(&"update_profile_proxy_bypass_rules"));
    // Extension tools
    assert!(tool_names.contains(&"list_extensions"));
    assert!(tool_names.contains(&"list_extension_groups"));
    assert!(tool_names.contains(&"create_extension_group"));
    assert!(tool_names.contains(&"delete_extension"));
    assert!(tool_names.contains(&"delete_extension_group"));
    assert!(tool_names.contains(&"assign_extension_group_to_profile"));
    // Cookie tools
    assert!(tool_names.contains(&"import_profile_cookies"));
    // Team lock tools
    assert!(tool_names.contains(&"get_team_locks"));
    assert!(tool_names.contains(&"get_team_lock_status"));
    // Browser interaction tools
    assert!(tool_names.contains(&"navigate"));
    assert!(tool_names.contains(&"screenshot"));
    assert!(tool_names.contains(&"evaluate_javascript"));
    assert!(tool_names.contains(&"click_element"));
    assert!(tool_names.contains(&"type_text"));
    assert!(tool_names.contains(&"get_page_content"));
    assert!(tool_names.contains(&"get_page_info"));
}

#[test]
fn test_mcp_server_initial_state() {
    let server = McpServer::new();
    assert!(!server.is_running());
}

fn obj(fields: &[(&str, Json)]) -> Json {
    let mut o = Json::empty();
    for (k, v) in fields {
        o = o.with(k, v.copy());
    }
    o
}

fn request(method: &str, id: Option<u64>, params: Option<Json>) -> McpRequest {
    McpRequest {
        jsonrpc: "2.0".to_string(),
        id: id.map(Json::from_uint),
        method: method.to_string(),
        params,
    }
}

#[test]
fn server_starts_once_and_stops_once() {
    let mut s = McpServer::new();
    assert_eq!(s.get_port(), None);
    assert!(s.stop().is_err());
    assert!(s.check_start().is_ok());
    s.started(51080, "secret");
    assert!(s.is_running());
    assert_eq!(s.get_port(), Some(51080));
    assert!(s.check_start().is_err());
    assert!(s.stop().is_ok());
    assert!(!s.is_running());
}

#[test]
fn ports_are_tried_in_turn() {
    assert_eq!(preferred_port(None), 51080);
    assert_eq!(preferred_port(Some(9)), 9);
    assert_eq!(after_bind(0, 9, true, 5), PortStep::Take(9));
    assert_eq!(after_bind(9, 9, false, 1005), PortStep::Try(51005));
    assert_eq!(after_bind(10, 9, false, 5), PortStep::GiveUp);
}

#[test]
fn only_the_token_lets_in() {
    assert!(admits("/health", &None, "t"));
    assert!(admits("/mcp/t", &None, "t"));
    assert!(admits("/mcp", &Some("Bearer t".to_string()), "t"));
    assert!(!admits("/mcp", &None, "t"));
    assert!(!admits("/mcp/u", &Some("Bearer u".to_string()), "t"));
    assert_eq!(health("1.0").str_or("status", ""), "ok");
}

#[test]
fn sessions_begin_and_end() {
    let mut s = McpServer::new();
    let r = s.handle_mcp_post(&None, Some(request("initialize", Some(1), None)), "1.0");
    assert!(matches!(r, Posted::Body { .. }));
    s.started(51080, "t");
    assert!(matches!(s.handle_mcp_post(&None, None, "1.0"), Posted::BadRequest { .. }));
    let id = match s.handle_mcp_post(&None, Some(request("initialize", Some(1), None)), "1.0") {
        Posted::Session { id, body } => {
            let info = body.result.expect("a result");
            let server = info.get("serverInfo").expect("its name").copy();
            assert_eq!(server.str_or("version", ""), "1.0");
            id
        }
        other => panic!("no session: {:?}", other),
    };
    assert_eq!(id.len(), 36);
    let known = Some(id.clone());
    let done = request("notifications/initialized", None, None);
    assert_eq!(s.handle_mcp_post(&known, Some(done), "1.0"), Posted::Accepted);
    let ping = s.handle_mcp_post(&known, Some(request("ping", Some(2), None)), "1.0");
    assert!(matches!(ping, Posted::Handle { .. }));
    s.handle_mcp_delete(&known);
    let gone = s.handle_mcp_post(&known, Some(request("ping", Some(3), None)), "1.0");
    assert_eq!(gone, Posted::NotFound);
}

#[test]
fn requests_are_routed() {
    let mut s = McpServer::new();
    let code = |r: Routed| match r {
        Routed::Reply { body } => body.error.map(|e| e.code),
        _ => None,
    };
    assert_eq!(code(s.handle_request(request("ping", Some(1), None))), Some(-32001));
    s.started(51080, "t");
    assert_eq!(code(s.handle_request(request("ping", Some(1), None))), None);
    assert_eq!(code(s.handle_request(request("nope", Some(1), None))), Some(-32601));
    assert_eq!(code(s.handle_request(request("tools/call", Some(1), None))), Some(-32602));
    assert!(matches!(
        s.handle_request(request("tools/list", Some(1), None)),
        Routed::List { .. }
    ));
    let call = obj(&[("name", Json::text("list_tags"))]);
    match s.handle_request(request("tools/call", Some(4), Some(call))) {
        Routed::Call { id, name, arguments } => {
            assert_eq!(id, Json::from_uint(4));
            assert_eq!(name, "list_tags");
            assert_eq!(arguments, Json::empty());
        }
        _ => panic!("a call"),
    }
}

#[test]
fn reply_holds_a_result_or_an_error() {
    let ok = respond(Json::from_uint(1), Ok(text_reply("hi".to_string()))).to_json();
    assert_eq!(
        ok.render(),
        "{\"id\":1,\"jsonrpc\":\"2.0\",\"result\":{\"content\":[{\"text\":\"hi\",\"type\":\"text\"}]}}"
    );
    let bad = respond(Json::Null, Err(refusal("a \"b\"\n"))).to_json();
    assert_eq!(
        bad.render(),
        "{\"error\":{\"code\":-32000,\"message\":\"a \\\"b\\\"\\n\"},\"id\":null,\"jsonrpc\":\"2.0\"}"
    );
}

#[test]
fn every_listed_tool_is_known() {
    let server = McpServer::new();
    for t in server.get_tools() {
        if let Err(e) = dispatch_tool_call(&t.name, &Json::empty(), OPEN) {
            assert!(!e.message.starts_with("Unknown tool"), "{}", t.name);
        }
    }
    let e = dispatch_tool_call("no_such_tool", &Json::empty(), OPEN).unwrap_err();
    assert_eq!(e, McpError { code: e.code, message: "Unknown tool: no_such_tool".to_string() });
    // One tool is called from inside and not listed.
    let e = dispatch_tool_call("add_profile_tag", &Json::empty(), OPEN).unwrap_err();
    assert_eq!(e.message, "Missing profile_id");
    assert!(server.get_tools().iter().all(|t| t.name != "add_profile_tag"));
    let list = server.handle_tools_list();
    assert_eq!(list.get_array("tools").map(Vec::len), Some(server.get_tools().len()));
}

#[test]
fn arguments_are_read_or_missed() {
    let e = dispatch_tool_call("navigate", &Json::empty(), OPEN).unwrap_err();
    assert_eq!((e.code, e.message.as_str()), (-32602, "Missing profile_id"));
    let args = obj(&[("profile_id", Json::text("p")), ("url", Json::text("u"))]);
    assert_eq!(
        dispatch_tool_call("navigate", &args, OPEN),
        Ok(ToolCall::Navigate { profile_id: "p".to_string(), url: "u".to_string() })
    );
    let args = obj(&[("profile_id", Json::text("p")), ("fingerprint", Json::Null)]);
    assert_eq!(
        dispatch_tool_call("update_profile_fingerprint", &args, OPEN),
        Ok(ToolCall::UpdateFingerprint {
            profile_id: "p".to_string(),
            fingerprint: FingerprintChange::Clear,
            os: None,
            randomize: None,
        })
    );
    let shut = Gate { initialized: false, team_plan: false };
    assert!(dispatch_tool_call("get_team_locks", &Json::empty(), shut).is_err());
    assert!(require_app(false).is_err());
    assert!(require_app(true).is_ok());
}

#[test]
fn missing_arguments_are_named() {
    let none: &[(&str, &str)] = &[
        ("get_profile", "Missing profile_id"),
        ("run_profile", "Missing profile_id"),
        ("update_profile", "Missing profile_id"),
        ("create_profile", "Missing name"),
        ("create_group", "Missing name"),
        ("get_group", "Missing group_id"),
        ("update_group", "Missing group_id"),
        ("assign_profiles_to_group", "Missing profile_ids"),
        ("get_proxy", "Missing proxy_id"),
        ("update_proxy", "Missing proxy_id"),
        ("create_proxy", "Missing name"),
        ("export_proxies", "Missing format"),
        ("import_proxies", "Missing content"),
        ("delete_vpn", "Missing vpn_id"),
        ("import_vpn", "Missing content"),
        ("create_extension_group", "Missing required parameter: name"),
        ("delete_extension", "Missing required parameter: extension_id"),
        ("delete_extension_group", "Missing required parameter: group_id"),
        ("assign_extension_group_to_profile", "Missing required parameter: profile_id"),
        ("update_profile_proxy_bypass_rules", "Missing profile_id"),
        ("update_profile_dns_blocklist", "Missing profile_id"),
        ("import_profile_cookies", "Missing profile_id"),
        ("get_page_info", "Missing profile_id"),
        ("press_key", "Missing profile_id"),
    ];
    for (tool, message) in none {
        let e = dispatch_tool_call(tool, &Json::empty(), OPEN).unwrap_err();
        assert_eq!((e.code, e.message.as_str()), (-32602, *message), "{tool}");
    }
    let some: &[(&str, &str)] = &[
        ("navigate", "Missing url"),
        ("evaluate_javascript", "Missing expression"),
        ("click_element", "Missing selector"),
        ("type_text", "Missing selector"),
        ("click_by_index", "Missing index"),
        ("type_by_index", "Missing index"),
        ("press_key", "Missing key"),
        ("upload_file", "Missing selector"),
        ("add_profile_tag", "Missing tag"),
        ("update_profile_dns_blocklist", "Missing level"),
        ("update_profile_proxy_bypass_rules", "Missing rules array"),
        ("import_profile_cookies", "Missing content"),
    ];
    let args = obj(&[("profile_id", Json::text("p"))]);
    for (tool, message) in some {
        let e = dispatch_tool_call(tool, &args, OPEN).unwrap_err();
        assert_eq!((e.code, e.message.as_str()), (-32602, *message), "{tool}");
    }
}

#[test]
fn wrong_arguments_are_refused() {
    let refused = |tool: &str, args: Json| dispatch_tool_call(tool, &args, OPEN).unwrap_err().message;
    assert_eq!(
        refused(
            "create_profile",
            obj(&[("name", Json::text("n")), ("browser", Json::text("chrome"))])
        ),
        "browser must be 'camoufox' or 'cloak'"
    );
    assert_eq!(
        refused("export_proxies", obj(&[("format", Json::text("csv"))])),
        "Invalid format 'csv', must be 'json' or 'txt'"
    );
    assert_eq!(
        refused(
            "upload_file",
            obj(&[("profile_id", Json::text("p")), ("selector", Json::text("#f"))])
        ),
        "No files provided"
    );
    assert_eq!(
        refused(
            "add_profile_tag",
            obj(&[("profile_id", Json::text("p")), ("tag", Json::text("  "))])
        ),
        "Missing tag"
    );
    let shut = Gate { initialized: false, team_plan: false };
    let e = dispatch_tool_call("create_group", &obj(&[("name", Json::text("n"))]), shut);
    assert_eq!(e.unwrap_err().message, "MCP server not properly initialized");
    let e = dispatch_tool_call("get_team_locks", &Json::empty(), shut);
    assert_eq!(e.unwrap_err().message, "Team features require an active team plan");
}

#[test]
fn changes_of_a_profile_in_their_order() {
    let args = obj(&[
        ("name", Json::text("n")),
        ("proxy_id", Json::text("")),
        ("tags", Json::Array(vec![Json::text("a"), Json::from_uint(1), Json::text("b")])),
    ]);
    let changes = read_changes(&args);
    assert_eq!(
        changes,
        vec![
            ProfileChange::Rename { name: "n".to_string() },
            ProfileChange::Proxy { id: None },
            ProfileChange::Tags { tags: vec!["a".to_string(), "b".to_string()] },
        ]
    );
    assert_eq!(change_failed(&changes[0], "x").message, "Failed to rename profile: x");
}

#[test]
fn proxy_keeps_what_is_not_changed() {
    let p = ProxySettings {
        proxy_type: "http".to_string(),
        host: "h".to_string(),
        port: 1,
        username: Some("u".to_string()),
        password: None,
    };
    let q = patch_proxy(&obj(&[("port", Json::from_uint(65_537))]), &p);
    assert_eq!((q.host.as_str(), q.port, q.username.as_deref()), ("h", 1, Some("u")));
    let args = obj(&[("proxy_id", Json::text("p")), ("username", Json::text("v"))]);
    assert_eq!(
        dispatch_tool_call("update_proxy", &args, OPEN),
        Ok(ToolCall::UpdateProxy { proxy_id: "p".to_string(), name: None, has_settings: true })
    );
    let q = patch_proxy(&args, &p);
    assert_eq!((q.username.as_deref(), q.password), (Some("v"), None));
    assert_eq!((q.proxy_type.as_str(), q.host.as_str(), q.port), ("http", "h", 1));
    let args = obj(&[("proxy_id", Json::text("p")), ("name", Json::text("n"))]);
    assert_eq!(
        dispatch_tool_call("update_proxy", &args, OPEN),
        Ok(ToolCall::UpdateProxy {
            proxy_id: "p".to_string(),
            name: Some("n".to_string()),
            has_settings: false,
        })
    );
    let q = patch_proxy(&obj(&[("host", Json::text("g")), ("port", Json::from_uint(8080))]), &p);
    assert_eq!((q.host.as_str(), q.port), ("g", 8080));
}

#[test]
fn scenario_is_given_or_named() {
    assert!(scenario_source(&Json::empty()).is_err());
    assert!(matches!(
        scenario_source(&obj(&[("scenario_id", Json::text("a"))])),
        Ok(ScenarioSource::Saved { .. })
    ));
    assert!(matches!(
        scenario_source(&obj(&[("scenario", Json::empty()), ("scenario_id", Json::text("a"))])),
        Ok(ScenarioSource::Inline { .. })
    ));
}

#[test]
fn tool_is_called_on_the_profile_of_the_run() {
    let x = McpActionExecutor;
    let args = obj(&[("profile_id", Json::text("other")), ("url", Json::text("u"))]);
    let args = x.arguments("mine", args);
    assert_eq!(args.str_or("profile_id", ""), "mine");
    assert_eq!(args.str_or("url", ""), "u");
    assert_eq!(x.arguments("mine", Json::Null).str_or("profile_id", ""), "mine");
    assert_eq!(
        x.failure(&refusal("a \"b\"")),
        ActionError("McpError { code: -32000, message: \"a \\\"b\\\"\" }".to_string())
    );
}

fn entry(id: &str, browser: &str, running: bool) -> ProfileEntry {
    ProfileEntry {
        id: id.to_string(),
        name: format!("{id}!"),
        browser: browser.to_string(),
        group_id: None,
        running,
    }
}

#[test]
fn profiles_are_told_of_where_they_can_be_automated() {
    let v = vec![
        entry("a", "cloak", true),
        entry("b", "firefox", true),
        entry("c", "camoufox", false),
    ];
    assert_eq!(shown_profiles(&v), vec![0, 2]);
    assert_eq!(supported_profile(&v, "a").unwrap().name, "a!");
    assert_eq!(supported_profile(&v, "x").unwrap_err().message, "Profile not found: x");
    assert_eq!(
        supported_profile(&v, "b").unwrap_err().message,
        "MCP only supports Camoufox and Cloak profiles"
    );
    assert_eq!(
        profile_status(&v, "c"),
        Ok(text_reply("{\"is_running\":false,\"profile_id\":\"c\"}".to_string()))
    );
}

#[test]
fn fingerprints_are_changed_and_told() {
    let mut cloak = CloakConfig::default();
    let give = |t: &str| FingerprintChange::Give { text: t.to_string() };
    cloak.update_fingerprint(&give("12345"), &None, Some(true));
    assert_eq!((cloak.seed, cloak.randomize_seed_on_launch), (Some(12345), Some(true)));
    cloak.update_fingerprint(&FingerprintChange::Keep, &Some("linux".to_string()), None);
    assert_eq!((cloak.seed, cloak.os.as_deref()), (Some(12345), Some("linux")));
    cloak.update_fingerprint(&give("many"), &None, None);
    assert_eq!(cloak.seed, None);
    assert_eq!(cloak.randomize_seed_on_launch, Some(true));

    let mut fox = CamoufoxConfig {
        fingerprint: None,
        os: Some("macos".to_string()),
        randomize_fingerprint_on_launch: None,
        screen_max_width: Some(1920),
        screen_max_height: None,
        screen_min_width: None,
        screen_min_height: None,
    };
    fox.update_fingerprint(&give("old"), &None, None);
    fox.update_fingerprint(&FingerprintChange::Clear, &None, None);
    assert_eq!(fox.fingerprint, None);
    fox.update_fingerprint(&give("fp"), &None, None);
    assert_eq!((fox.fingerprint.as_deref(), fox.os.as_deref()), (Some("fp"), Some("macos")));
    let told = get_profile_fingerprint(&Presentation::Camoufox { config: fox }).unwrap();
    let text = told.get("content").unwrap().item(0).unwrap().str_or("text", "");
    assert!(text.starts_with("{\n  \"browser\": \"camoufox\",\n  \"fingerprint\": \"fp\","));
    assert!(text.contains("\"screen_max_width\": 1920"));
    assert!(get_profile_fingerprint(&Presentation::Cloak { config: cloak }).is_ok());
    assert!(get_profile_fingerprint(&Presentation::Other).is_err());
}

#[test]
fn tools_say_what_they_have_done() {
    let o = Outcome {
        name: "N".to_string(),
        id: "I".to_string(),
        kind: "wireguard".to_string(),
        imported: 3,
        others: 2,
        errors: 1,
    };
    let one = |tool: &str| ToolCall::One { tool: tool.to_string(), value: "V".to_string() };
    let said = |c: &ToolCall| success_text(c, &o);
    assert_eq!(
        said(&one("create_group")).as_deref(),
        Some("Group 'N' created successfully with ID: I")
    );
    assert_eq!(said(&one("connect_vpn")).as_deref(), Some("VPN 'V' connected successfully"));
    assert_eq!(
        said(&one("kill_profile")).as_deref(),
        Some("Browser profile 'N' stopped successfully")
    );
    assert_eq!(said(&one("get_profile")), None);
    let many = ToolCall::AssignProfiles {
        profile_ids: vec!["a".to_string(), "b".to_string()],
        group_id: None,
    };
    assert_eq!(said(&many).as_deref(), Some("2 profile(s) assigned to group 'default'"));
    let import = ToolCall::ImportProxies {
        content: String::new(),
        as_json: true,
        name_prefix: None,
    };
    assert_eq!(
        said(&import).as_deref(),
        Some("Import complete: 3 imported, 2 skipped, 1 errors")
    );
    let vpn = ToolCall::ImportVpn {
        content: String::new(),
        filename: String::new(),
        name: None,
    };
    assert_eq!(
        said(&vpn).as_deref(),
        Some("VPN 'N' (wireguard) imported successfully with ID: I")
    );
}

#[test]
fn tools_say_what_went_wrong() {
    let one = |tool: &str| ToolCall::One { tool: tool.to_string(), value: "V".to_string() };
    assert_eq!(
        tool_failed(&one("delete_vpn"), "", "x").message,
        "Failed to delete VPN config: x"
    );
    let fp = ToolCall::UpdateFingerprint {
        profile_id: "p".to_string(),
        fingerprint: FingerprintChange::Keep,
        os: None,
        randomize: None,
    };
    assert_eq!(tool_failed(&fp, "cloak", "x").message, "Failed to update cloak config: x");
    assert_eq!(tool_failed(&fp, "camoufox", "x").message, "Failed to update camoufox config: x");
    assert_eq!(
        tool_failed(&ToolCall::Plain { tool: "list_tags".to_string() }, "", "x").message,
        "Failed to get tags: x"
    );
    assert_eq!(lacking(&Lacking::Proxies).message, "No valid proxies found in content");
    let e = lacking(&Lacking::ScenarioForm { error: "x".to_string() });
    assert_eq!((e.code, e.message.as_str()), (-32602, "Invalid scenario: x"));
}
