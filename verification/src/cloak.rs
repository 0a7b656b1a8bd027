//! The Cloak browser: the arguments it is launched with, and the register of
//! the instances that run.
//!
//! Cloak derives its whole fingerprint from a number, the seed, and from a few
//! flags beside it.
use vstd::prelude::*;

use vstd::utf8::encode_utf8;

use crate::map::{lemma_lookup_put, lemma_lookup_without, lookup, put, sorted, without, TextMap};
use crate::model::copy_opt;
use crate::text::{
    contains, dec, dec_u64, has_part, has_prefix, join2, join3, join_texts, joined,
    lemma_texts_push, lower_case, after_prefix, opt_text, parse_u16, same, starts, strip, texts,
    to_lower, unsigned_upto,
};
use crate::value::{Json, JsonView};

verus! {

/// The operating system that the browser is launched on.
#[derive(Debug, Clone, Copy, PartialEq, Eq, Structural)]
pub enum Host {
    Macos,
    Linux,
    Windows,
}

/// The settings of a Cloak profile. The seed is its identity; the other
/// fields refine it.
#[derive(Debug, PartialEq, Eq)]
pub struct CloakConfig {
    /// The seed, from 10000 to 99999; one is made up where there is none.
    pub seed: Option<u32>,
    /// Whether every launch makes up a new seed.
    pub randomize_seed_on_launch: Option<bool>,
    /// "windows", "macos" or "linux".
    pub os: Option<String>,
    pub timezone: Option<String>,
    pub locale: Option<String>,
    pub screen_width: Option<u32>,
    pub screen_height: Option<u32>,
    pub block_images: Option<bool>,
    pub block_webrtc: Option<bool>,
    pub block_webgl: Option<bool>,
    pub geoip: Option<Json>,
    pub proxy: Option<String>,
}

impl Default for CloakConfig {
    fn default() -> (r: CloakConfig)
        ensures
            r.seed is None,
            r.randomize_seed_on_launch is None,
            r.os is None,
            r.timezone is None,
            r.locale is None,
            r.screen_width is None,
            r.screen_height is None,
            r.block_images is None,
            r.block_webrtc is None,
            r.block_webgl is None,
            r.geoip is None,
            r.proxy is None,
    {
        CloakConfig {
            seed: None,
            randomize_seed_on_launch: None,
            os: None,
            timezone: None,
            locale: None,
            screen_width: None,
            screen_height: None,
            block_images: None,
            block_webrtc: None,
            block_webgl: None,
            geoip: None,
            proxy: None,
        }
    }
}

/// What became of a launch.
#[derive(Debug, PartialEq, Eq)]
#[allow(non_snake_case)]
pub struct CloakLaunchResult {
    pub id: String,
    pub processId: Option<u32>,
    pub profilePath: Option<String>,
    pub url: Option<String>,
    pub cdp_port: Option<u16>,
    /// The seed that was used, where it is not the one of the profile.
    pub used_seed: Option<u32>,
}

// ---------------------------------------------------------------------------
// Arguments
// ---------------------------------------------------------------------------

pub open spec fn host_name(h: Host) -> Seq<char> {
    match h {
        Host::Macos => "macos"@,
        Host::Linux => "linux"@,
        Host::Windows => "windows"@,
    }
}

/// The platform of the fingerprint where the profile names none.
pub fn host_platform(host: Host) -> (r: String)
    ensures
        r@ == host_name(host),
{
    match host {
        Host::Macos => "macos".to_owned(),
        Host::Linux => "linux".to_owned(),
        Host::Windows => "windows".to_owned(),
    }
}

/// `s` without the prefix `pre`, however often it stands there.
pub open spec fn bare(s: Seq<char>, pre: Seq<char>) -> Seq<char>
    decreases s.len(),
{
    if pre.len() > 0 && starts(s, pre) {
        bare(s.skip(pre.len() as int), pre)
    } else {
        s
    }
}

/// A script that sends everything through one proxy.
pub open spec fn proxy_script(proxy: Seq<char>) -> Seq<char> {
    "data:application/x-ns-proxy-autoconfig,function FindProxyForURL(url,host){return \"PROXY "@
        + bare(bare(proxy, "http://"@), "https://"@) + "\";}"@
}

/// The text, where there is one and it is not empty.
pub open spec fn filled_in(o: Option<Seq<char>>) -> Option<Seq<char>> {
    match o {
        Some(s) => if s.len() > 0 {
            Some(s)
        } else {
            None
        },
        None => None,
    }
}

pub open spec fn is_on(o: Option<bool>) -> bool {
    o == Some(true)
}

/// The first arguments, which every launch has.
pub open spec fn base_args(port: u16, profile_path: Seq<char>) -> Seq<Seq<char>> {
    Seq::empty().push("--remote-debugging-port="@ + dec(port as nat)).push(
        "--remote-debugging-address=127.0.0.1"@,
    ).push("--user-data-dir="@ + profile_path).push("--no-first-run"@).push(
        "--no-default-browser-check"@,
    ).push("--disable-background-mode"@).push("--disable-component-update"@).push(
        "--disable-background-timer-throttling"@,
    ).push("--disable-session-crashed-bubble"@).push("--hide-crash-restore-bubble"@).push(
        "--disable-infobars"@,
    ).push("--use-mock-keychain"@).push("--password-store=basic"@)
}

pub open spec fn push_if(a: Seq<Seq<char>>, cond: bool, x: Seq<char>) -> Seq<Seq<char>> {
    if cond {
        a.push(x)
    } else {
        a
    }
}

pub open spec fn platform_of(config: CloakConfig, host: Host) -> Seq<char> {
    match opt_text(config.os) {
        Some(p) => p,
        None => host_name(host),
    }
}

pub open spec fn screen_of(config: CloakConfig, platform: Seq<char>) -> (u32, u32) {
    (
        match config.screen_width {
            Some(w) => w,
            None => if platform == "macos"@ {
                1440
            } else {
                1920
            },
        },
        match config.screen_height {
            Some(h) => h,
            None => if platform == "macos"@ {
                900
            } else {
                1080
            },
        },
    )
}

/// The flags that make up the fingerprint.
pub open spec fn fingerprint_args(
    a: Seq<Seq<char>>,
    config: CloakConfig,
    seed: u32,
    host: Host,
) -> Seq<Seq<char>> {
    let platform = platform_of(config, host);
    let a1 = a.push("--fingerprint="@ + dec(seed as nat)).push(
        "--fingerprint-platform="@ + platform,
    );
    let a2 = match filled_in(opt_text(config.timezone)) {
        Some(tz) => a1.push("--fingerprint-timezone="@ + tz),
        None => a1,
    };
    let a3 = match filled_in(opt_text(config.locale)) {
        Some(l) => a2.push("--fingerprint-locale="@ + l).push("--lang="@ + l),
        None => a2,
    };
    let (w, h) = screen_of(config, platform);
    a3.push("--fingerprint-screen-width="@ + dec(w as nat)).push(
        "--fingerprint-screen-height="@ + dec(h as nat),
    )
}

/// The flags that switch things off, and those of the surroundings.
pub open spec fn switch_args(
    a: Seq<Seq<char>>,
    config: CloakConfig,
    ephemeral: bool,
    headless: bool,
    host: Host,
) -> Seq<Seq<char>> {
    let a1 = push_if(a, is_on(config.block_webgl), "--disable-3d-apis"@);
    let a2 = push_if(
        a1,
        is_on(config.block_webrtc),
        "--force-webrtc-ip-handling-policy=disable_non_proxied_udp"@,
    );
    let a3 = push_if(a2, is_on(config.block_images), "--blink-settings=imagesEnabled=false"@);
    let a4 = push_if(a3, host == Host::Windows || !headless, "--ignore-gpu-blocklist"@);
    let a5 = push_if(a4, headless, "--headless=new"@);
    let a6 = if host == Host::Linux {
        a5.push("--no-sandbox"@).push("--disable-setuid-sandbox"@).push("--disable-dev-shm-usage"@)
    } else {
        a5
    };
    if ephemeral {
        a6.push("--disk-cache-size=1"@).push("--disable-breakpad"@).push(
            "--disable-crash-reporter"@,
        ).push("--no-service-autorun"@).push("--disable-sync"@)
    } else {
        a6
    }
}

/// All the arguments of a launch.
pub open spec fn cloak_args(
    port: u16,
    profile_path: Seq<char>,
    config: CloakConfig,
    seed: u32,
    proxy_url: Option<Seq<char>>,
    ephemeral: bool,
    extension_paths: Seq<Seq<char>>,
    headless: bool,
    host: Host,
) -> Seq<Seq<char>> {
    let a = switch_args(
        fingerprint_args(base_args(port, profile_path), config, seed, host),
        config,
        ephemeral,
        headless,
        host,
    );
    let b = push_if(
        a,
        extension_paths.len() > 0,
        "--load-extension="@ + joined(extension_paths, ","@),
    );
    match proxy_url {
        Some(proxy) => b.push("--proxy-pac-url="@ + proxy_script(proxy)).push(
            "--dns-prefetch-disable"@,
        ),
        None => b,
    }
}

fn add(args: &mut Vec<String>, x: String)
    ensures
        texts(final(args)@) == texts(old(args)@).push(x@),
{
    proof {
        lemma_texts_push(args@, x);
    }
    args.push(x);
}

fn add_if(args: &mut Vec<String>, cond: bool, x: &str)
    ensures
        texts(final(args)@) == push_if(texts(old(args)@), cond, x@),
{
    if cond {
        self::add(args, x.to_owned());
    }
}

fn on(o: Option<bool>) -> (r: bool)
    ensures
        r == is_on(o),
{
    match o {
        Some(b) => b,
        None => false,
    }
}

fn without_prefix(s: &str, pre: &str) -> (r: String)
    requires
        pre@.len() > 0,
    ensures
        r@ == bare(s@, pre@),
    decreases s@.len(),
{
    match strip(s, pre) {
        Some(rest) => without_prefix(rest.as_str(), pre),
        None => s.to_owned(),
    }
}

fn proxy_text(proxy: &str) -> (r: String)
    ensures
        r@ == proxy_script(proxy@),
{
    proof {
        reveal_strlit("http://");
        reveal_strlit("https://");
        assert("http://"@.len() == 7 && "https://"@.len() == 8);
    }
    let http = without_prefix(proxy, "http://");
    let address = without_prefix(http.as_str(), "https://");
    join3(
        "data:application/x-ns-proxy-autoconfig,function FindProxyForURL(url,host){return \"PROXY ",
        address.as_str(),
        "\";}",
    )
}

fn add_base(args: &mut Vec<String>, port: u16, profile_path: &str)
    requires
        old(args)@.len() == 0,
    ensures
        texts(final(args)@) == base_args(port, profile_path@),
{
    assert(texts(args@) =~= Seq::<Seq<char>>::empty());
    self::add(args, join2("--remote-debugging-port=", dec_u64(port as u64).as_str()));
    self::add(args, "--remote-debugging-address=127.0.0.1".to_owned());
    self::add(args, join2("--user-data-dir=", profile_path));
    self::add(args, "--no-first-run".to_owned());
    self::add(args, "--no-default-browser-check".to_owned());
    self::add(args, "--disable-background-mode".to_owned());
    self::add(args, "--disable-component-update".to_owned());
    self::add(args, "--disable-background-timer-throttling".to_owned());
    self::add(args, "--disable-session-crashed-bubble".to_owned());
    self::add(args, "--hide-crash-restore-bubble".to_owned());
    self::add(args, "--disable-infobars".to_owned());
    self::add(args, "--use-mock-keychain".to_owned());
    self::add(args, "--password-store=basic".to_owned());
}

fn add_fingerprint(args: &mut Vec<String>, config: &CloakConfig, seed: u32, host: Host)
    ensures
        texts(final(args)@) == fingerprint_args(texts(old(args)@), *config, seed, host),
{
    let platform = match &config.os {
        Some(p) => p.clone(),
        None => host_platform(host),
    };
    self::add(args, join2("--fingerprint=", dec_u64(seed as u64).as_str()));
    self::add(args, join2("--fingerprint-platform=", platform.as_str()));
    match &config.timezone {
        Some(tz) => {
            if !tz.as_str().is_empty() {
                self::add(args, join2("--fingerprint-timezone=", tz.as_str()));
            }
        },
        None => {},
    }
    match &config.locale {
        Some(l) => {
            if !l.as_str().is_empty() {
                self::add(args, join2("--fingerprint-locale=", l.as_str()));
                self::add(args, join2("--lang=", l.as_str()));
            }
        },
        None => {},
    }
    let mac: bool = same(platform.as_str(), "macos");
    let w: u32 = match config.screen_width {
        Some(w) => w,
        None => if mac {
            1440
        } else {
            1920
        },
    };
    let h: u32 = match config.screen_height {
        Some(h) => h,
        None => if mac {
            900
        } else {
            1080
        },
    };
    self::add(args, join2("--fingerprint-screen-width=", dec_u64(w as u64).as_str()));
    self::add(args, join2("--fingerprint-screen-height=", dec_u64(h as u64).as_str()));
}

fn add_switches(
    args: &mut Vec<String>,
    config: &CloakConfig,
    ephemeral: bool,
    headless: bool,
    host: Host,
)
    ensures
        texts(final(args)@) == switch_args(
            texts(old(args)@),
            *config,
            ephemeral,
            headless,
            host,
        ),
{
    add_if(args, on(config.block_webgl), "--disable-3d-apis");
    add_if(
        args,
        on(config.block_webrtc),
        "--force-webrtc-ip-handling-policy=disable_non_proxied_udp",
    );
    add_if(args, on(config.block_images), "--blink-settings=imagesEnabled=false");
    add_if(args, host == Host::Windows || !headless, "--ignore-gpu-blocklist");
    add_if(args, headless, "--headless=new");
    if host == Host::Linux {
        self::add(args, "--no-sandbox".to_owned());
        self::add(args, "--disable-setuid-sandbox".to_owned());
        self::add(args, "--disable-dev-shm-usage".to_owned());
    }
    if ephemeral {
        self::add(args, "--disk-cache-size=1".to_owned());
        self::add(args, "--disable-breakpad".to_owned());
        self::add(args, "--disable-crash-reporter".to_owned());
        self::add(args, "--no-service-autorun".to_owned());
        self::add(args, "--disable-sync".to_owned());
    }
}

pub open spec fn opt_slice(o: Option<&str>) -> Option<Seq<char>> {
    match o {
        Some(s) => Some(s@),
        None => None,
    }
}

/// The arguments of a launch.
pub fn build_cloak_args(
    port: u16,
    profile_path: &str,
    config: &CloakConfig,
    seed: u32,
    proxy_url: Option<&str>,
    ephemeral: bool,
    extension_paths: &Vec<String>,
    headless: bool,
    host: Host,
) -> (r: Vec<String>)
    ensures
        texts(r@) == cloak_args(
            port,
            profile_path@,
            *config,
            seed,
            opt_slice(proxy_url),
            ephemeral,
            texts(extension_paths@),
            headless,
            host,
        ),
{
    let mut args: Vec<String> = Vec::new();
    add_base(&mut args, port, profile_path);
    add_fingerprint(&mut args, config, seed, host);
    add_switches(&mut args, config, ephemeral, headless, host);
    assert(texts(extension_paths@).len() == extension_paths@.len());
    if extension_paths.len() > 0 {
        self::add(
            &mut args,
            join2("--load-extension=", join_texts(extension_paths, ",").as_str()),
        );
    }
    match proxy_url {
        Some(proxy) => {
            self::add(&mut args, join2("--proxy-pac-url=", proxy_text(proxy).as_str()));
            self::add(&mut args, "--dns-prefetch-disable".to_owned());
        },
        None => {},
    }
    args
}

// ---------------------------------------------------------------------------
// Launching
// ---------------------------------------------------------------------------

/// The seed of a launch: the one of the profile, or the one made up where the
/// profile has none or wants a new one each time.
pub open spec fn seed_for(config: CloakConfig, made_up: u32) -> u32 {
    match config.seed {
        Some(s) => if is_on(config.randomize_seed_on_launch) {
            made_up
        } else {
            s
        },
        None => made_up,
    }
}

/// The seed that the profile has to keep, where it is a new one.
pub open spec fn seed_to_keep(config: CloakConfig, seed: u32) -> Option<u32> {
    if config.seed == Some(seed) {
        None
    } else {
        Some(seed)
    }
}

/// `rand`'s `random_range` over a range: a number in it, both ends included,
/// that nothing else determines.
#[verifier::external_body]
fn random_between(low: u32, high: u32) -> (r: u32)
    requires
        low <= high,
    ensures
        low <= r <= high,
{
    rand::RngExt::random_range(&mut rand::rng(), low..=high)
}

/// The seed of a launch, given the one to use where one is made up, and the
/// seed that the profile has to keep.
pub fn resolve_seed_with(config: &CloakConfig, made_up: u32) -> (r: (u32, Option<u32>))
    ensures
        r.0 == seed_for(*config, made_up),
        r.1 == seed_to_keep(*config, r.0),
{
    let randomize: bool = on(config.randomize_seed_on_launch);
    let seed: u32 = match config.seed {
        Some(s) => if randomize {
            made_up
        } else {
            s
        },
        None => made_up,
    };
    let kept: bool = match config.seed {
        Some(s) => s == seed,
        None => false,
    };
    if kept {
        (seed, None)
    } else {
        (seed, Some(seed))
    }
}

/// The seed of a launch, and the seed that the profile has to keep.
pub fn resolve_seed(config: &CloakConfig) -> (r: (u32, Option<u32>))
    ensures
        exists|made_up: u32|
            10000 <= made_up <= 99999 && r.0 == #[trigger] seed_for(*config, made_up),
        r.1 == seed_to_keep(*config, r.0),
{
    let made_up: u32 = random_between(10000, 99999);
    resolve_seed_with(config, made_up)
}

/// A profile with a seed that does not want a new one keeps it from launch to
/// launch; any other launch hands its seed back to be kept, unless it is by
/// chance the same.
pub proof fn lemma_seed(config: CloakConfig, made_up: u32)
    ensures
        config.seed is Some && !is_on(config.randomize_seed_on_launch) ==> seed_for(config, made_up)
            == config.seed->0 && seed_to_keep(config, seed_for(config, made_up)) is None,
        config.seed is None ==> seed_to_keep(config, seed_for(config, made_up)) == Some(made_up),
{
}

/// Whether the flags of the place are to follow the address that the proxy
/// shows to the world.
pub open spec fn follows_proxy(config: CloakConfig, has_proxy: bool) -> bool {
    has_proxy && !(config.geoip is Some && config.geoip->0@ == JsonView::Bool(false))
}

pub fn wants_geo(config: &CloakConfig, has_proxy: bool) -> (r: bool)
    ensures
        r == follows_proxy(*config, has_proxy),
{
    match &config.geoip {
        Some(Json::Bool(b)) => has_proxy && *b,
        _ => has_proxy,
    }
}

/// Where an address is: its time zone, its locale and its coordinates.
pub struct Place {
    pub timezone: String,
    pub locale: String,
    pub latitude: String,
    pub longitude: String,
}

/// The arguments with the flags of a place behind them. What the profile
/// says of the time zone and the locale comes first.
pub open spec fn place_args(
    a: Seq<Seq<char>>,
    config: CloakConfig,
    ip: Seq<char>,
    place: Option<Place>,
) -> Seq<Seq<char>> {
    let a1 = a.push("--fingerprint-webrtc-ip="@ + ip);
    match place {
        Some(g) => {
            let a2 = push_if(
                a1,
                filled_in(opt_text(config.timezone)) is None,
                "--fingerprint-timezone="@ + g.timezone@,
            );
            let a3 = if filled_in(opt_text(config.locale)) is None {
                a2.push("--fingerprint-locale="@ + g.locale@).push("--lang="@ + g.locale@)
            } else {
                a2
            };
            a3.push("--fingerprint-location="@ + g.latitude@ + ","@ + g.longitude@)
        },
        None => a1,
    }
}

fn is_blank(o: &Option<String>) -> (r: bool)
    ensures
        r == (filled_in(opt_text(*o)) is None),
{
    match o {
        Some(s) => s.as_str().is_empty(),
        None => true,
    }
}

/// Puts the flags of the place behind the arguments, once the address that
/// the proxy shows is known.
pub fn add_place(args: &mut Vec<String>, config: &CloakConfig, ip: &str, place: &Option<Place>)
    ensures
        texts(final(args)@) == place_args(texts(old(args)@), *config, ip@, *place),
{
    self::add(args, join2("--fingerprint-webrtc-ip=", ip));
    match place {
        Some(g) => {
            if is_blank(&config.timezone) {
                self::add(args, join2("--fingerprint-timezone=", g.timezone.as_str()));
            }
            if is_blank(&config.locale) {
                self::add(args, join2("--fingerprint-locale=", g.locale.as_str()));
                self::add(args, join2("--lang=", g.locale.as_str()));
            }
            let mut x = join3("--fingerprint-location=", g.latitude.as_str(), ",");
            x.append(g.longitude.as_str());
            self::add(args, x);
        },
        None => {},
    }
}

/// What is known of the address that a proxy shows: the address, and where
/// it is.
pub struct ExitPoint {
    pub ip: String,
    pub place: Option<Place>,
}

/// All the arguments of a launch, those of the place among them where the
/// profile wants them and the address is known.
pub open spec fn launch_arguments(
    a: Seq<Seq<char>>,
    config: CloakConfig,
    has_proxy: bool,
    exit: Option<ExitPoint>,
) -> Seq<Seq<char>> {
    if follows_proxy(config, has_proxy) && exit is Some {
        place_args(a, config, exit->0.ip@, exit->0.place)
    } else {
        a
    }
}

/// All the arguments of a launch.
pub fn launch_args(
    port: u16,
    profile_path: &str,
    config: &CloakConfig,
    seed: u32,
    proxy_url: Option<&str>,
    ephemeral: bool,
    extension_paths: &Vec<String>,
    headless: bool,
    host: Host,
    exit: &Option<ExitPoint>,
) -> (r: Vec<String>)
    ensures
        texts(r@) == launch_arguments(
            cloak_args(
                port,
                profile_path@,
                *config,
                seed,
                opt_slice(proxy_url),
                ephemeral,
                texts(extension_paths@),
                headless,
                host,
            ),
            *config,
            proxy_url is Some,
            *exit,
        ),
{
    let mut args = build_cloak_args(
        port,
        profile_path,
        config,
        seed,
        proxy_url,
        ephemeral,
        extension_paths,
        headless,
        host,
    );
    if wants_geo(config, proxy_url.is_some()) {
        match exit {
            Some(e) => {
                add_place(&mut args, config, e.ip.as_str(), &e.place);
            },
            None => {},
        }
    }
    args
}

/// The message where the browser could not be started.
pub open spec fn spawn_message(error: Seq<char>, code: Option<i32>) -> Seq<char> {
    "Failed to spawn Cloak: "@ + error + if code == Some(14001i32) {
        ". This usually means the Visual C++ Redistributable is not installed. Download it from https://aka.ms/vs/17/release/vc_redist.x64.exe"@
    } else {
        ""@
    }
}

pub fn spawn_error(error: &str, code: Option<i32>) -> (r: String)
    ensures
        r@ == spawn_message(error@, code),
{
    let known: bool = match code {
        Some(c) => c == 14001,
        None => false,
    };
    if known {
        join3(
            "Failed to spawn Cloak: ",
            error,
            ". This usually means the Visual C++ Redistributable is not installed. Download it from https://aka.ms/vs/17/release/vc_redist.x64.exe",
        )
    } else {
        join3("Failed to spawn Cloak: ", error, "")
    }
}

/// A target of the debugging interface.
pub struct CdpTarget {
    pub target_type: String,
    pub websocket_debugger_url: Option<String>,
}

/// The address of the first page among the first `n` targets. A page without
/// an address hides those behind it.
pub open spec fn page_address(t: Seq<CdpTarget>, from: int) -> Option<Seq<char>>
    decreases t.len() - from,
{
    if from < 0 || from >= t.len() {
        None
    } else if t[from].target_type@ == "page"@ {
        opt_text(t[from].websocket_debugger_url)
    } else {
        page_address(t, from + 1)
    }
}

/// The address of the first page.
pub fn first_page(targets: &Vec<CdpTarget>) -> (r: Option<String>)
    ensures
        opt_text(r) == page_address(targets@, 0),
{
    let mut i: usize = 0;
    while i < targets.len()
        invariant
            i <= targets@.len(),
            page_address(targets@, 0) == page_address(targets@, i as int),
        decreases targets@.len() - i,
    {
        if same(targets[i].target_type.as_str(), "page") {
            return copy_opt(&targets[i].websocket_debugger_url);
        }
        i = i + 1;
    }
    None
}

// ---------------------------------------------------------------------------
// Waiting for the debugging interface
// ---------------------------------------------------------------------------

/// What an attempt to reach the debugging interface came to.
pub enum Probe {
    /// It answered with success.
    Up,
    /// It answered with another status.
    Status { status: String },
    /// There was no answer.
    Error { error: String },
}

/// What to do after an attempt.
pub enum Wait {
    Ready,
    /// Try again in so many milliseconds.
    Again { ms: u64 },
    GiveUp { message: String },
}

pub enum WaitView {
    Ready,
    Again { ms: u64 },
    GiveUp { message: Seq<char> },
}

impl Wait {
    pub open spec fn view(&self) -> WaitView {
        match self {
            Wait::Ready => WaitView::Ready,
            Wait::Again { ms } => WaitView::Again { ms: *ms },
            Wait::GiveUp { message } => WaitView::GiveUp { message: message@ },
        }
    }
}

pub open spec fn version_url(port: u16) -> Seq<char> {
    "http://127.0.0.1:"@ + dec(port as nat) + "/json/version"@
}

pub open spec fn probe_error(p: Probe, port: u16) -> Seq<char> {
    match p {
        Probe::Up => Seq::empty(),
        Probe::Status { status } => "HTTP "@ + status@ + " from "@ + version_url(port),
        Probe::Error { error } => "request failed: "@ + error@,
    }
}

/// After attempt `attempt`, counted from zero: there are 120, half a second
/// apart, and the last failure is reported.
pub open spec fn after_probe(attempt: u32, p: Probe, port: u16) -> WaitView {
    if p is Up {
        WaitView::Ready
    } else if attempt + 1 < 120 {
        WaitView::Again { ms: 500 }
    } else {
        WaitView::GiveUp {
            message: "Cloak CDP not ready after 120 attempts on port "@ + dec(port as nat) + ": "@
                + probe_error(p, port),
        }
    }
}

/// What to do after an attempt to reach the debugging interface.
pub fn wait_for_cdp_ready(attempt: u32, p: &Probe, port: u16) -> (r: Wait)
    ensures
        r@ == after_probe(attempt, *p, port),
{
    let error = match p {
        Probe::Up => {
            return Wait::Ready;
        },
        Probe::Status { status } => {
            let mut e = join3("HTTP ", status.as_str(), " from ");
            let url = join3("http://127.0.0.1:", dec_u64(port as u64).as_str(), "/json/version");
            e.append(url.as_str());
            e
        },
        Probe::Error { error } => join2("request failed: ", error.as_str()),
    };
    if attempt < 119 {
        return Wait::Again { ms: 500 };
    }
    let mut message = join3(
        "Cloak CDP not ready after 120 attempts on port ",
        dec_u64(port as u64).as_str(),
        ": ",
    );
    message.append(error.as_str());
    Wait::GiveUp { message }
}

// ---------------------------------------------------------------------------
// Running instances
// ---------------------------------------------------------------------------

/// A browser that runs.
#[derive(Debug, PartialEq, Eq)]
pub struct CloakInstance {
    pub process_id: Option<u32>,
    pub profile_path: Option<String>,
    pub url: Option<String>,
    pub cdp_port: Option<u16>,
}

pub struct InstanceView {
    pub process_id: Option<u32>,
    pub profile_path: Option<Seq<char>>,
    pub url: Option<Seq<char>>,
    pub cdp_port: Option<u16>,
}

impl CloakInstance {
    pub open spec fn view(&self) -> InstanceView {
        InstanceView {
            process_id: self.process_id,
            profile_path: opt_text(self.profile_path),
            url: opt_text(self.url),
            cdp_port: self.cdp_port,
        }
    }
}

pub struct LaunchView {
    pub id: Seq<char>,
    pub process_id: Option<u32>,
    pub profile_path: Option<Seq<char>>,
    pub url: Option<Seq<char>>,
    pub cdp_port: Option<u16>,
    pub used_seed: Option<u32>,
}

impl CloakLaunchResult {
    pub open spec fn view(&self) -> LaunchView {
        LaunchView {
            id: self.id@,
            process_id: self.processId,
            profile_path: opt_text(self.profilePath),
            url: opt_text(self.url),
            cdp_port: self.cdp_port,
            used_seed: self.used_seed,
        }
    }
}

pub open spec fn opt_launch(o: Option<CloakLaunchResult>) -> Option<LaunchView> {
    match o {
        Some(r) => Some(r@),
        None => None,
    }
}

/// The browsers that run, by their ids.
pub struct CloakManager {
    pub instances: TextMap<CloakInstance>,
}

impl CloakManager {
    /// The browsers are kept in the order of their ids, each id once.
    pub open spec fn well_formed(&self) -> bool {
        sorted(self.instances@)
    }
}

/// The first instance whose path, as `paths` gives it, is `target`. The paths
/// stand in the order of the instances.
pub open spec fn instance_at(
    m: Seq<(Seq<char>, CloakInstance)>,
    paths: Seq<Option<Seq<char>>>,
    target: Seq<char>,
    from: int,
) -> Option<int>
    decreases m.len() - from,
{
    if from < 0 || from >= m.len() {
        None
    } else if from < paths.len() && paths[from] == Some(target) {
        Some(from)
    } else {
        instance_at(m, paths, target, from + 1)
    }
}

pub open spec fn opt_texts(v: Seq<Option<String>>) -> Seq<Option<Seq<char>>> {
    v.map_values(|o: Option<String>| opt_text(o))
}

pub open spec fn launched(id: Seq<char>, i: InstanceView, used_seed: Option<u32>) -> LaunchView {
    LaunchView {
        id,
        process_id: i.process_id,
        profile_path: i.profile_path,
        url: i.url,
        cdp_port: i.cdp_port,
        used_seed,
    }
}

/// A process that the system runs: its number, its name, and its arguments,
/// where they are text. The data directory among them is given in the form
/// that paths are compared in.
pub struct ProcessInfo {
    pub pid: u32,
    pub name: String,
    pub cmd: Vec<Option<String>>,
}

pub open spec fn arg_starts(a: Option<String>, pre: Seq<char>) -> bool {
    a is Some && starts(a->0@, pre)
}

/// A browser of the right kind, not one of its helpers.
pub open spec fn is_browser(p: ProcessInfo) -> bool {
    let name = lower_case(p.name@);
    &&& p.cmd@.len() > 0
    &&& contains(name, "cloak"@) || contains(name, "chromium"@) || contains(name, "chrome"@)
    &&& forall|i: int| 0 <= i < p.cmd@.len() ==> !arg_starts(#[trigger] p.cmd@[i], "--type="@)
}

/// It uses the data directory.
pub open spec fn uses_dir(p: ProcessInfo, dir: Seq<char>) -> bool {
    exists|i: int|
        0 <= i < p.cmd@.len() && (#[trigger] p.cmd@[i]) is Some && after_prefix(
            p.cmd@[i]->0@,
            "--user-data-dir="@,
        ) == Some(dir)
}

/// The debugging port that the last of the first `n` arguments to name one
/// gives.
pub open spec fn port_of(cmd: Seq<Option<String>>, n: int) -> Option<u16>
    decreases n,
{
    if n <= 0 {
        None
    } else {
        match opt_text(cmd[n - 1]) {
            Some(a) => match after_prefix(a, "--remote-debugging-port="@) {
                Some(t) => match unsigned_upto(t, u16::MAX as nat) {
                    Some(v) => Some(v as u16),
                    None => None,
                },
                None => port_of(cmd, n - 1),
            },
            None => port_of(cmd, n - 1),
        }
    }
}

/// The first browser among the processes from `from` on that uses the
/// directory: its number and its debugging port.
pub open spec fn process_using(ps: Seq<ProcessInfo>, dir: Seq<char>, from: int) -> Option<
    (u32, Option<u16>),
>
    decreases ps.len() - from,
{
    if from < 0 || from >= ps.len() {
        None
    } else if is_browser(ps[from]) && uses_dir(ps[from], dir) {
        Some((ps[from].pid, port_of(ps[from].cmd@, ps[from].cmd@.len() as int)))
    } else {
        process_using(ps, dir, from + 1)
    }
}

fn looks_like_browser(p: &ProcessInfo) -> (r: bool)
    ensures
        r == is_browser(*p),
{
    if p.cmd.len() == 0 {
        return false;
    }
    let name = to_lower(p.name.as_str());
    if !(has_part(name.as_str(), "cloak") || has_part(name.as_str(), "chromium") || has_part(
        name.as_str(),
        "chrome",
    )) {
        return false;
    }
    let mut i: usize = 0;
    while i < p.cmd.len()
        invariant
            i <= p.cmd@.len(),
            forall|j: int| 0 <= j < i ==> !arg_starts(#[trigger] p.cmd@[j], "--type="@),
        decreases p.cmd@.len() - i,
    {
        match &p.cmd[i] {
            Some(a) => {
                if has_prefix(a.as_str(), "--type=") {
                    assert(arg_starts(p.cmd@[i as int], "--type="@));
                    return false;
                }
            },
            None => {},
        }
        i = i + 1;
    }
    true
}

/// Finds the browser that uses a data directory among the processes of the
/// system.
pub fn find_cloak_process_by_profile(processes: &Vec<ProcessInfo>, dir: &str) -> (r: Option<
    (u32, Option<u16>),
>)
    ensures
        r == process_using(processes@, dir@, 0),
{
    let mut k: usize = 0;
    while k < processes.len()
        invariant
            k <= processes@.len(),
            process_using(processes@, dir@, 0) == process_using(processes@, dir@, k as int),
        decreases processes@.len() - k,
    {
        let p = &processes[k];
        if looks_like_browser(p) {
            let mut matched: bool = false;
            let mut port: Option<u16> = None;
            let mut i: usize = 0;
            while i < p.cmd.len()
                invariant
                    i <= p.cmd@.len(),
                    port == port_of(p.cmd@, i as int),
                    matched == exists|j: int|
                        0 <= j < i && (#[trigger] p.cmd@[j]) is Some && after_prefix(
                            p.cmd@[j]->0@,
                            "--user-data-dir="@,
                        ) == Some(dir@),
                decreases p.cmd@.len() - i,
            {
                let ghost was = matched;
                match &p.cmd[i] {
                    Some(a) => {
                        match strip(a.as_str(), "--user-data-dir=") {
                            Some(v) => {
                                if same(v.as_str(), dir) {
                                    matched = true;
                                    assert(p.cmd@[i as int] is Some && after_prefix(
                                        p.cmd@[i as int]->0@,
                                        "--user-data-dir="@,
                                    ) == Some(dir@));
                                }
                            },
                            None => {},
                        }
                        match strip(a.as_str(), "--remote-debugging-port=") {
                            Some(v) => {
                                port = parse_u16(v.as_str());
                            },
                            None => {},
                        }
                    },
                    None => {},
                }
                i = i + 1;
            }
            if matched {
                return Some((p.pid, port));
            }
        }
        k = k + 1;
    }
    None
}

impl CloakManager {
    pub fn new() -> (r: CloakManager)
        ensures
            r.instances@ == Seq::<(Seq<char>, CloakInstance)>::empty(),
            r.well_formed(),
    {
        CloakManager { instances: TextMap::new() }
    }

    /// Enters a browser that has been launched.
    pub fn record_launch(
        &mut self,
        id: String,
        process_id: Option<u32>,
        profile_path: &str,
        url: Option<&str>,
        port: u16,
        used_seed: Option<u32>,
    ) -> (r: CloakLaunchResult)
        ensures
            r@ == (LaunchView {
                id: id@,
                process_id,
                profile_path: Some(profile_path@),
                url: opt_slice(url),
                cdp_port: Some(port),
                used_seed,
            }),
            exists|i: CloakInstance|
                final(self).instances@ == #[trigger] put(old(self).instances@, id@, i) && i@ == (
                InstanceView {
                    process_id,
                    profile_path: Some(profile_path@),
                    url: opt_slice(url),
                    cdp_port: Some(port),
                }),
            old(self).well_formed() ==> final(self).well_formed(),
    {
        let opened = match url {
            Some(u) => Some(u.to_owned()),
            None => None,
        };
        let instance = CloakInstance {
            process_id,
            profile_path: Some(profile_path.to_owned()),
            url: copy_opt(&opened),
            cdp_port: Some(port),
        };
        let r = CloakLaunchResult {
            id: id.clone(),
            processId: process_id,
            profilePath: Some(profile_path.to_owned()),
            url: opened,
            cdp_port: Some(port),
            used_seed,
        };
        self.instances.insert(id, instance);
        r
    }

    /// Takes an instance out, and says which process is to be stopped.
    pub fn stop_cloak(&mut self, id: &str) -> (r: Option<u32>)
        ensures
            final(self).instances@ == without(old(self).instances@, id@),
            r == match lookup(old(self).instances@, id@) {
                Some(i) => i.process_id,
                None => None,
            },
            old(self).well_formed() ==> final(self).well_formed(),
    {
        match self.instances.remove(id) {
            Some(i) => i.process_id,
            None => None,
        }
    }

    fn place(&self, paths: &Vec<Option<String>>, target: &str) -> (r: Option<usize>)
        ensures
            match r {
                Some(i) => i < self.instances@.len() && instance_at(
                    self.instances@,
                    opt_texts(paths@),
                    target@,
                    0,
                ) == Some(i as int),
                None => instance_at(self.instances@, opt_texts(paths@), target@, 0) is None,
            },
    {
        let mut i: usize = 0;
        while i < self.instances.len()
            invariant
                i <= self.instances@.len(),
                instance_at(self.instances@, opt_texts(paths@), target@, 0) == instance_at(
                    self.instances@,
                    opt_texts(paths@),
                    target@,
                    i as int,
                ),
            decreases self.instances@.len() - i,
        {
            if i < paths.len() {
                assert(opt_texts(paths@)[i as int] == opt_text(paths@[i as int]));
                match &paths[i] {
                    Some(p) => {
                        if same(p.as_str(), target) {
                            return Some(i);
                        }
                    },
                    None => {},
                }
            }
            i = i + 1;
        }
        None
    }

    /// The debugging port of the browser that uses a profile. `paths` holds
    /// the paths of the instances in the form that paths are compared in.
    pub fn get_cdp_port(&self, paths: &Vec<Option<String>>, target: &str) -> (r: Option<u16>)
        ensures
            r == match instance_at(self.instances@, opt_texts(paths@), target@, 0) {
                Some(i) => self.instances@[i].1.cdp_port,
                None => None,
            },
    {
        match self.place(paths, target) {
            Some(i) => self.instances.value_at(i).cdp_port,
            None => None,
        }
    }

    /// The process to look after before `find_cloak_by_profile`.
    pub fn process_of_profile(&self, paths: &Vec<Option<String>>, target: &str) -> (r: Option<u32>)
        ensures
            r == match instance_at(self.instances@, opt_texts(paths@), target@, 0) {
                Some(i) => self.instances@[i].1.process_id,
                None => None,
            },
    {
        match self.place(paths, target) {
            Some(i) => self.instances.value_at(i).process_id,
            None => None,
        }
    }

    /// Finds the browser that uses a profile. An instance whose process is
    /// gone is taken out. Without an instance, a browser that was found among
    /// the processes of the system is entered.
    pub fn find_cloak_by_profile(
        &mut self,
        paths: &Vec<Option<String>>,
        target: &str,
        alive: bool,
        found: Option<(u32, Option<u16>)>,
    ) -> (r: Option<CloakLaunchResult>)
        ensures
            ({
                let m = old(self).instances@;
                let at = instance_at(m, opt_texts(paths@), target@, 0);
                if at is Some && m[at->0].1.process_id is Some {
                    if alive {
                        &&& opt_launch(r) == Some(launched(m[at->0].0, m[at->0].1@, None))
                        &&& final(self).instances@ == m
                    } else {
                        &&& r is None
                        &&& final(self).instances@ == without(m, m[at->0].0)
                    }
                } else if found is Some {
                    let id = "recovered_"@ + dec((found->0).0 as nat);
                    let i = InstanceView {
                        process_id: Some((found->0).0),
                        profile_path: Some(target@),
                        url: None,
                        cdp_port: (found->0).1,
                    };
                    &&& opt_launch(r) == Some(launched(id, i, None))
                    &&& exists|x: CloakInstance|
                        final(self).instances@ == #[trigger] put(m, id, x) && x@ == i
                } else {
                    &&& r is None
                    &&& final(self).instances@ == m
                }
            }),
            old(self).well_formed() ==> final(self).well_formed(),
    {
        match self.place(paths, target) {
            Some(k) => {
                let inst = self.instances.value_at(k);
                if inst.process_id.is_some() {
                    if alive {
                        return Some(
                            CloakLaunchResult {
                                id: self.instances.key_at(k).clone(),
                                processId: inst.process_id,
                                profilePath: copy_opt(&inst.profile_path),
                                url: copy_opt(&inst.url),
                                cdp_port: inst.cdp_port,
                                used_seed: None,
                            },
                        );
                    }
                    let id = self.instances.key_at(k).clone();
                    let _ = self.instances.remove(id.as_str());
                    return None;
                }
            },
            None => {},
        }
        match found {
            Some((pid, port)) => {
                let id = join2("recovered_", dec_u64(pid as u64).as_str());
                let instance = CloakInstance {
                    process_id: Some(pid),
                    profile_path: Some(target.to_owned()),
                    url: None,
                    cdp_port: port,
                };
                let r = CloakLaunchResult {
                    id: id.clone(),
                    processId: Some(pid),
                    profilePath: Some(target.to_owned()),
                    url: None,
                    cdp_port: port,
                    used_seed: None,
                };
                self.instances.insert(id, instance);
                Some(r)
            },
            None => None,
        }
    }
}

/// A browser that has been entered is there, until it is stopped or its process
/// is gone; the others are as they were.
pub proof fn lemma_launch_and_stop(
    m: CloakManager,
    id: Seq<char>,
    i: CloakInstance,
    other: Seq<char>,
)
    requires
        m.well_formed(),
        other != id,
    ensures
        lookup(put(m.instances@, id, i), id) == Some(i),
        lookup(put(m.instances@, id, i), other) == lookup(m.instances@, other),
        lookup(without(m.instances@, id), id) is None,
        lookup(without(m.instances@, id), other) == lookup(m.instances@, other),
{
    lemma_lookup_put(m.instances@, id, i, other);
    lemma_lookup_without(m.instances@, id, other);
}

// ---------------------------------------------------------------------------
// Opening a tab
// ---------------------------------------------------------------------------

pub open spec fn hex_digit(d: u8) -> char {
    seq![
        '0',
        '1',
        '2',
        '3',
        '4',
        '5',
        '6',
        '7',
        '8',
        '9',
        'A',
        'B',
        'C',
        'D',
        'E',
        'F',
    ][d as int]
}

/// The bytes that stand for themselves in an address.
pub open spec fn unreserved(b: u8) -> bool {
    (0x30 <= b <= 0x39) || (0x41 <= b <= 0x5a) || (0x61 <= b <= 0x7a) || b == 0x2d || b == 0x2e || b
        == 0x5f || b == 0x7e
}

/// The bytes with every other one written as a percent sign and two digits.
pub open spec fn percent_encoded(b: Seq<u8>) -> Seq<char>
    decreases b.len(),
{
    if b.len() == 0 {
        Seq::empty()
    } else {
        percent_encoded(b.drop_last()) + if unreserved(b.last()) {
            seq![b.last() as char]
        } else {
            seq!['%', hex_digit(b.last() / 16), hex_digit(b.last() % 16)]
        }
    }
}

/// `urlencoding::encode` percent-encodes every byte of the UTF-8 form of a
/// text but ASCII letters, digits and `-`, `.`, `_`, `~`, with upper-case
/// hexadecimal digits.
#[verifier::external_body]
fn url_encode(s: &str) -> (r: String)
    ensures
        r@ == percent_encoded(encode_utf8(s@)),
{
    urlencoding::encode(s).into_owned()
}

/// The address that opens a tab with the given page.
pub fn new_tab_url(port: u16, url: &str) -> (r: String)
    ensures
        r@ == "http://127.0.0.1:"@ + dec(port as nat) + "/json/new?"@ + percent_encoded(
            encode_utf8(url@),
        ),
{
    let mut out = join3("http://127.0.0.1:", dec_u64(port as u64).as_str(), "/json/new?");
    out.append(url_encode(url).as_str());
    out
}

} // verus!
