//! Launching browsers, and finding them again.
use watermelon::cloak::{
    build_cloak_args, find_cloak_process_by_profile, first_page, host_platform, launch_args,
    new_tab_url, resolve_seed, resolve_seed_with, spawn_error, wait_for_cdp_ready, wants_geo,
    CdpTarget, CloakConfig, CloakManager, ExitPoint, Host, Place, Probe, ProcessInfo, Wait,
};
use watermelon::value::Json;

#[test]
fn build_cloak_args_sets_seed_and_fingerprint_flags() {
    let config = CloakConfig {
        seed: Some(42069),
        os: Some("windows".to_string()),
        timezone: Some("America/New_York".to_string()),
        locale: Some("en-US".to_string()),
        block_webgl: Some(true),
        ..Default::default()
    };
    let args = build_cloak_args(
        9222, "/tmp/p", &config, 42069, None, false, &vec![], false, Host::Linux,
    );

    assert!(args.contains(&"--fingerprint=42069".to_string()));
    assert!(args.contains(&"--fingerprint-platform=windows".to_string()));
    assert!(args.contains(&"--fingerprint-timezone=America/New_York".to_string()));
    assert!(args.contains(&"--fingerprint-locale=en-US".to_string()));
    assert!(args.contains(&"--lang=en-US".to_string()));
    assert!(args.contains(&"--disable-3d-apis".to_string()));
    assert!(args.contains(&"--remote-debugging-port=9222".to_string()));
    assert!(args.contains(&"--fingerprint-screen-width=1920".to_string()));
    assert!(args.contains(&"--fingerprint-screen-height=1080".to_string()));
    assert!(!args.iter().any(|a| a.starts_with("--proxy-pac-url=")));
    assert!(!args.contains(&"--headless=new".to_string()));
}

#[test]
fn build_cloak_args_defaults_platform_and_wires_proxy() {
    let config = CloakConfig::default();
    let args = build_cloak_args(
        5500,
        "/tmp/p",
        &config,
        11111,
        Some("http://127.0.0.1:8080"),
        true,
        &vec!["/ext/a".to_string()],
        true,
        Host::Macos,
    );
    assert!(args.contains(&"--fingerprint=11111".to_string()));
    assert!(args.iter().any(|a| a.starts_with("--fingerprint-platform=")));
    assert!(args.iter().any(|a| a.starts_with("--proxy-pac-url=")));
    assert!(args.contains(&"--load-extension=/ext/a".to_string()));
    assert!(args.contains(&"--headless=new".to_string()));
    assert!(args.contains(&"--disk-cache-size=1".to_string()));
}

#[test]
fn build_cloak_args_pins_macos_screen_defaults() {
    let config = CloakConfig {
        os: Some("macos".to_string()),
        ..Default::default()
    };
    let args = build_cloak_args(
        9333, "/tmp/p", &config, 42069, None, false, &vec![], false, Host::Linux,
    );
    assert!(args.contains(&"--fingerprint-screen-width=1440".to_string()));
    assert!(args.contains(&"--fingerprint-screen-height=900".to_string()));
}

#[test]
fn platform_of_the_host() {
    assert_eq!(host_platform(Host::Macos), "macos");
    assert_ne!(host_platform(Host::Windows), host_platform(Host::Macos));
}

#[test]
fn seed_is_kept_unless_a_new_one_is_wanted() {
    let kept = CloakConfig { seed: Some(20000), ..Default::default() };
    assert_eq!(resolve_seed(&kept), (20000, None));
    let anew = CloakConfig {
        seed: Some(20000),
        randomize_seed_on_launch: Some(true),
        ..Default::default()
    };
    assert_eq!(resolve_seed_with(&anew, 30000), (30000, Some(30000)));
    assert_eq!(resolve_seed_with(&anew, 20000), (20000, None));
    let (seed, keep) = resolve_seed(&CloakConfig::default());
    assert!((10000..=99999).contains(&seed));
    assert_eq!(keep, Some(seed));
}

#[test]
fn place_follows_the_proxy() {
    let config = CloakConfig {
        timezone: Some("Asia/Tokyo".to_string()),
        ..Default::default()
    };
    let exit = Some(ExitPoint {
        ip: "203.0.113.7".to_string(),
        place: Some(Place {
            timezone: "Europe/Paris".to_string(),
            locale: "fr-FR".to_string(),
            latitude: "48.85".to_string(),
            longitude: "2.35".to_string(),
        }),
    });
    let none: Vec<String> = vec![];
    let args = launch_args(
        1, "/p", &config, 12345, Some("http://x"), false, &none, false, Host::Linux, &exit,
    );
    assert!(args.contains(&"--fingerprint-webrtc-ip=203.0.113.7".to_string()));
    assert!(args.contains(&"--fingerprint-locale=fr-FR".to_string()));
    assert!(args.contains(&"--lang=fr-FR".to_string()));
    assert!(args.contains(&"--fingerprint-location=48.85,2.35".to_string()));
    assert!(!args.contains(&"--fingerprint-timezone=Europe/Paris".to_string()));
    let direct = launch_args(
        1, "/p", &config, 12345, None, false, &none, false, Host::Linux, &exit,
    );
    assert!(!direct.iter().any(|a| a.starts_with("--fingerprint-webrtc-ip=")));
    let off = CloakConfig { geoip: Some(Json::Bool(false)), ..Default::default() };
    assert!(!wants_geo(&off, true));
    assert!(wants_geo(&CloakConfig::default(), true));
}

#[test]
fn missing_runtime_is_hinted_at() {
    assert_eq!(spawn_error("gone", Some(2)), "Failed to spawn Cloak: gone");
    assert!(spawn_error("gone", Some(14001)).contains("Visual C++ Redistributable"));
}

#[test]
fn debugging_interface_is_waited_for() {
    let down = Probe::Error { error: "refused".to_string() };
    assert!(matches!(wait_for_cdp_ready(0, &Probe::Up, 9), Wait::Ready));
    assert!(matches!(wait_for_cdp_ready(118, &down, 9), Wait::Again { ms: 500 }));
    match wait_for_cdp_ready(119, &down, 9) {
        Wait::GiveUp { message } => assert_eq!(
            message,
            "Cloak CDP not ready after 120 attempts on port 9: request failed: refused"
        ),
        _ => panic!("the last attempt"),
    }
}

#[test]
fn first_page_among_the_targets() {
    let t = |kind: &str, url: Option<&str>| CdpTarget {
        target_type: kind.to_string(),
        websocket_debugger_url: url.map(|u| u.to_string()),
    };
    let v = vec![t("worker", Some("ws://w")), t("page", Some("ws://p"))];
    assert_eq!(first_page(&v), Some("ws://p".to_string()));
    assert_eq!(first_page(&vec![t("page", None), t("page", Some("ws://p"))]), None);
}

#[test]
fn address_of_a_tab_is_encoded() {
    assert_eq!(
        new_tab_url(9222, "https://x.com/a b?q=é~"),
        "http://127.0.0.1:9222/json/new?https%3A%2F%2Fx.com%2Fa%20b%3Fq%3D%C3%A9~"
    );
}

#[test]
fn browsers_are_kept_and_found() {
    let mut m = CloakManager::new();
    let r = m.record_launch("i1".to_string(), Some(77), "/p", Some("https://x.com"), 9222, Some(5));
    assert_eq!((r.processId, r.cdp_port, r.used_seed), (Some(77), Some(9222), Some(5)));
    let paths = vec![Some("/p".to_string())];
    assert_eq!(m.get_cdp_port(&paths, "/p"), Some(9222));
    assert_eq!(m.get_cdp_port(&paths, "/q"), None);
    assert_eq!(m.process_of_profile(&paths, "/p"), Some(77));
    assert_eq!(m.find_cloak_by_profile(&paths, "/p", true, None).unwrap().id, "i1");
    // One that is gone is forgotten.
    assert!(m.find_cloak_by_profile(&paths, "/p", false, None).is_none());
    let none: Vec<Option<String>> = vec![];
    let found = m.find_cloak_by_profile(&none, "/p", false, Some((88, Some(9333)))).unwrap();
    assert_eq!((found.id.as_str(), found.cdp_port), ("recovered_88", Some(9333)));
    assert_eq!(m.stop_cloak("recovered_88"), Some(88));
    assert_eq!(m.stop_cloak("recovered_88"), None);
}

#[test]
fn process_of_a_profile_is_told_by_its_arguments() {
    let process = |pid: u32, name: &str, cmd: &[&str]| ProcessInfo {
        pid,
        name: name.to_string(),
        cmd: cmd.iter().map(|s| Some(s.to_string())).collect(),
    };
    let v = vec![
        process(1, "bash", &["bash", "--user-data-dir=/p"]),
        process(
            2,
            "chromium",
            &["chromium", "--user-data-dir=/p", "--remote-debugging-port=9222"],
        ),
    ];
    assert_eq!(find_cloak_process_by_profile(&v, "/other"), None);
    let found = find_cloak_process_by_profile(&v, "/p");
    assert_eq!(found, Some((2, Some(9222))));
}
