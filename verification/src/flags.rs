//! What a launch asks of the browser, and how a browser that runs is found again.
use vstd::prelude::*;

use crate::cloak::{
    after_probe, base_args, cloak_args, fingerprint_args, is_browser, is_on, launch_arguments,
    page_address, percent_encoded, platform_of, port_of, process_using, push_if, screen_of,
    seed_for, seed_to_keep, switch_args, uses_dir, CdpTarget, CloakConfig, ExitPoint, Host, Place,
    Probe, ProcessInfo, WaitView,
};
use crate::text::{dec, joined, opt_text, starts};
use crate::value::JsonView;

verus! {

broadcast proof fn lemma_push_has(a: Seq<Seq<char>>, x: Seq<char>, y: Seq<char>)
    ensures
        #[trigger] a.push(x).contains(y) <==> a.contains(y) || x == y,
{
    let b = a.push(x);
    if b.contains(y) {
        let i = choose|i: int| 0 <= i < b.len() && b[i] == y;
        if i < a.len() {
            assert(a[i] == y);
        }
    }
    if a.contains(y) {
        let i = choose|i: int| 0 <= i < a.len() && a[i] == y;
        assert(b[i] == y);
    }
    assert(b[a.len() as int] == x);
}

/// A launch listens for commands at its port, on this machine alone, and keeps its
/// data in the directory of the profile. Its fingerprint is made from the seed, for
/// the platform and the screen of the profile.
pub proof fn lemma_launch_has(
    port: u16,
    path: Seq<char>,
    config: CloakConfig,
    seed: u32,
    proxy: Option<Seq<char>>,
    ephemeral: bool,
    extensions: Seq<Seq<char>>,
    headless: bool,
    host: Host,
)
    ensures
        ({
            let a = cloak_args(
                port,
                path,
                config,
                seed,
                proxy,
                ephemeral,
                extensions,
                headless,
                host,
            );
            &&& a.contains("--remote-debugging-port="@ + dec(port as nat))
            &&& a.contains("--remote-debugging-address=127.0.0.1"@)
            &&& a.contains("--user-data-dir="@ + path)
            &&& a.contains("--fingerprint="@ + dec(seed as nat))
            &&& config.os is Some ==> a.contains("--fingerprint-platform="@ + config.os->0@)
            &&& config.os is None && host == Host::Macos ==> a.contains(
                "--fingerprint-platform="@ + "macos"@,
            )
            &&& config.os is None && host == Host::Linux ==> a.contains(
                "--fingerprint-platform="@ + "linux"@,
            )
            &&& config.os is None && host == Host::Windows ==> a.contains(
                "--fingerprint-platform="@ + "windows"@,
            )
            &&& config.timezone is Some && config.timezone->0@.len() > 0 ==> a.contains(
                "--fingerprint-timezone="@ + config.timezone->0@,
            )
            &&& config.locale is Some && config.locale->0@.len() > 0 ==> a.contains(
                "--fingerprint-locale="@ + config.locale->0@,
            ) && a.contains("--lang="@ + config.locale->0@)
            &&& config.screen_width is Some ==> a.contains(
                "--fingerprint-screen-width="@ + dec(config.screen_width->0 as nat),
            )
            &&& config.screen_height is Some ==> a.contains(
                "--fingerprint-screen-height="@ + dec(config.screen_height->0 as nat),
            )
            &&& extensions.len() > 0 ==> a.contains("--load-extension="@ + joined(extensions, ","@))
            &&& proxy is Some ==> a.contains("--dns-prefetch-disable"@)
            &&& ephemeral ==> a.contains("--disk-cache-size=1"@)
            &&& host == Host::Linux ==> a.contains("--no-sandbox"@)
        }),
{
    broadcast use lemma_push_has;

    let base = base_args(port, path);
    let print = fingerprint_args(base, config, seed, host);
    let switched = switch_args(print, config, ephemeral, headless, host);
    let a = cloak_args(port, path, config, seed, proxy, ephemeral, extensions, headless, host);
    lemma_base_has(port, path);
    lemma_print_has(base, config, seed, host);
    lemma_switch_keeps(print, config, ephemeral, headless, host);
    lemma_rest_keeps(port, path, config, seed, proxy, ephemeral, extensions, headless, host);
    let k1 = "--remote-debugging-port="@ + dec(port as nat);
    let k2 = "--remote-debugging-address=127.0.0.1"@;
    let k3 = "--user-data-dir="@ + path;
    assert(print.contains(k1) && print.contains(k2) && print.contains(k3));
    assert(switched.contains(k1) && switched.contains(k2) && switched.contains(k3));
    assert(switched.contains("--fingerprint="@ + dec(seed as nat)));
    assert(switched.contains("--fingerprint-platform="@ + platform_of(config, host)));
    if config.timezone is Some && config.timezone->0@.len() > 0 {
        assert(switched.contains("--fingerprint-timezone="@ + config.timezone->0@));
    }
    if config.locale is Some && config.locale->0@.len() > 0 {
        assert(switched.contains("--fingerprint-locale="@ + config.locale->0@));
        assert(switched.contains("--lang="@ + config.locale->0@));
    }
    if config.screen_width is Some {
        assert(switched.contains(
            "--fingerprint-screen-width="@ + dec(config.screen_width->0 as nat),
        ));
    }
    if config.screen_height is Some {
        assert(switched.contains(
            "--fingerprint-screen-height="@ + dec(config.screen_height->0 as nat),
        ));
    }
}

proof fn lemma_base_has(port: u16, path: Seq<char>)
    ensures
        base_args(port, path).contains("--remote-debugging-port="@ + dec(port as nat)),
        base_args(port, path).contains("--remote-debugging-address=127.0.0.1"@),
        base_args(port, path).contains("--user-data-dir="@ + path),
{
    let a = base_args(port, path);
    assert(a[0] == "--remote-debugging-port="@ + dec(port as nat));
    assert(a[1] == "--remote-debugging-address=127.0.0.1"@);
    assert(a[2] == "--user-data-dir="@ + path);
}

proof fn lemma_print_has(a: Seq<Seq<char>>, config: CloakConfig, seed: u32, host: Host)
    ensures
        ({
            let b = fingerprint_args(a, config, seed, host);
            &&& forall|x: Seq<char>| a.contains(x) ==> #[trigger] b.contains(x)
            &&& b.contains("--fingerprint="@ + dec(seed as nat))
            &&& b.contains("--fingerprint-platform="@ + platform_of(config, host))
            &&& config.timezone is Some && config.timezone->0@.len() > 0 ==> b.contains(
                "--fingerprint-timezone="@ + config.timezone->0@,
            )
            &&& config.locale is Some && config.locale->0@.len() > 0 ==> b.contains(
                "--fingerprint-locale="@ + config.locale->0@,
            ) && b.contains("--lang="@ + config.locale->0@)
            &&& config.screen_width is Some ==> b.contains(
                "--fingerprint-screen-width="@ + dec(config.screen_width->0 as nat),
            )
            &&& config.screen_height is Some ==> b.contains(
                "--fingerprint-screen-height="@ + dec(config.screen_height->0 as nat),
            )
        }),
{
    broadcast use lemma_push_has;

}

proof fn lemma_switch_keeps(
    a: Seq<Seq<char>>,
    config: CloakConfig,
    ephemeral: bool,
    headless: bool,
    host: Host,
)
    ensures
        forall|x: Seq<char>|
            a.contains(x) ==> #[trigger] switch_args(
                a,
                config,
                ephemeral,
                headless,
                host,
            ).contains(x),
        ephemeral ==> switch_args(a, config, ephemeral, headless, host).contains(
            "--disk-cache-size=1"@,
        ),
        host == Host::Linux ==> switch_args(a, config, ephemeral, headless, host).contains(
            "--no-sandbox"@,
        ),
{
    assert forall|x: Seq<char>| a.contains(x) implies #[trigger] switch_args(
        a,
        config,
        ephemeral,
        headless,
        host,
    ).contains(x) by {
        lemma_switch_has(a, config, ephemeral, headless, host, x);
    }
    lemma_switch_has(a, config, ephemeral, headless, host, "--disk-cache-size=1"@);
    lemma_switch_has(a, config, ephemeral, headless, host, "--no-sandbox"@);
}

/// What is among the switches.
proof fn lemma_switch_has(
    a: Seq<Seq<char>>,
    config: CloakConfig,
    ephemeral: bool,
    headless: bool,
    host: Host,
    y: Seq<char>,
)
    ensures
        switch_args(a, config, ephemeral, headless, host).contains(y) <==> {
            ||| a.contains(y)
            ||| is_on(config.block_webgl) && y == "--disable-3d-apis"@
            ||| is_on(config.block_webrtc) && y
                == "--force-webrtc-ip-handling-policy=disable_non_proxied_udp"@
            ||| is_on(config.block_images) && y == "--blink-settings=imagesEnabled=false"@
            ||| (host == Host::Windows || !headless) && y == "--ignore-gpu-blocklist"@
            ||| headless && y == "--headless=new"@
            ||| host == Host::Linux && (y == "--no-sandbox"@ || y == "--disable-setuid-sandbox"@
                || y == "--disable-dev-shm-usage"@)
            ||| ephemeral && (y == "--disk-cache-size=1"@ || y == "--disable-breakpad"@ || y
                == "--disable-crash-reporter"@ || y == "--no-service-autorun"@ || y
                == "--disable-sync"@)
        },
{
    broadcast use lemma_push_has;

    let a1 = push_if(a, is_on(config.block_webgl), "--disable-3d-apis"@);
    let a2 = push_if(
        a1,
        is_on(config.block_webrtc),
        "--force-webrtc-ip-handling-policy=disable_non_proxied_udp"@,
    );
    let a3 = push_if(a2, is_on(config.block_images), "--blink-settings=imagesEnabled=false"@);
    let a4 = push_if(a3, host == Host::Windows || !headless, "--ignore-gpu-blocklist"@);
    let a5 = push_if(a4, headless, "--headless=new"@);
    lemma_push_if(a, is_on(config.block_webgl), "--disable-3d-apis"@, y);
    lemma_push_if(
        a1,
        is_on(config.block_webrtc),
        "--force-webrtc-ip-handling-policy=disable_non_proxied_udp"@,
        y,
    );
    lemma_push_if(a2, is_on(config.block_images), "--blink-settings=imagesEnabled=false"@, y);
    lemma_push_if(a3, host == Host::Windows || !headless, "--ignore-gpu-blocklist"@, y);
    lemma_push_if(a4, headless, "--headless=new"@, y);
}

proof fn lemma_push_if(a: Seq<Seq<char>>, cond: bool, x: Seq<char>, y: Seq<char>)
    ensures
        push_if(a, cond, x).contains(y) <==> a.contains(y) || (cond && x == y),
{
    broadcast use lemma_push_has;

}

proof fn lemma_rest_keeps(
    port: u16,
    path: Seq<char>,
    config: CloakConfig,
    seed: u32,
    proxy: Option<Seq<char>>,
    ephemeral: bool,
    extensions: Seq<Seq<char>>,
    headless: bool,
    host: Host,
)
    ensures
        ({
            let switched = switch_args(
                fingerprint_args(base_args(port, path), config, seed, host),
                config,
                ephemeral,
                headless,
                host,
            );
            let a = cloak_args(port, path, config, seed, proxy, ephemeral, extensions, headless, host);
            &&& forall|x: Seq<char>| switched.contains(x) ==> #[trigger] a.contains(x)
            &&& forall|x: Seq<char>| #[trigger]
                a.contains(x) ==> switched.contains(x) || x == "--load-extension="@ + joined(
                    extensions,
                    ","@,
                ) || x == "--dns-prefetch-disable"@ || (proxy is Some && x == "--proxy-pac-url="@
                    + crate::cloak::proxy_script(proxy->0))
            &&& extensions.len() > 0 ==> a.contains("--load-extension="@ + joined(extensions, ","@))
            &&& proxy is Some ==> a.contains("--dns-prefetch-disable"@)
        }),
{
    broadcast use lemma_push_has;

}

/// A launch goes without a window, without 3D, without pictures or without
/// addresses past the proxy exactly where that is asked for.
pub proof fn lemma_launch_switches(
    port: u16,
    path: Seq<char>,
    config: CloakConfig,
    seed: u32,
    proxy: Option<Seq<char>>,
    ephemeral: bool,
    extensions: Seq<Seq<char>>,
    headless: bool,
    host: Host,
)
    ensures
        ({
            let a = cloak_args(
                port,
                path,
                config,
                seed,
                proxy,
                ephemeral,
                extensions,
                headless,
                host,
            );
            &&& a.contains("--headless=new"@) <==> headless
            &&& a.contains("--disable-3d-apis"@) <==> config.block_webgl == Some(true)
            &&& a.contains("--blink-settings=imagesEnabled=false"@) <==> config.block_images == Some(
                true,
            )
            &&& a.contains("--force-webrtc-ip-handling-policy=disable_non_proxied_udp"@)
                <==> config.block_webrtc == Some(true)
        }),
{
    lemma_flags();
    lemma_front_flags(port, path, config, seed, host);
    lemma_rest_keeps(port, path, config, seed, proxy, ephemeral, extensions, headless, host);
    let print = fingerprint_args(base_args(port, path), config, seed, host);
    let y1 = "--headless=new"@;
    let y2 = "--disable-3d-apis"@;
    let y3 = "--blink-settings=imagesEnabled=false"@;
    let y4 = "--force-webrtc-ip-handling-policy=disable_non_proxied_udp"@;
    lemma_switch_has(print, config, ephemeral, headless, host, y1);
    lemma_switch_has(print, config, ephemeral, headless, host, y2);
    lemma_switch_has(print, config, ephemeral, headless, host, y3);
    lemma_switch_has(print, config, ephemeral, headless, host, y4);
    let x = "--load-extension="@ + joined(extensions, ","@);
    assert(x[2] == "--load-extension="@[2]);
    if let Some(p) = proxy {
        let y = "--proxy-pac-url="@ + crate::cloak::proxy_script(p);
        assert(y[2] == "--proxy-pac-url="@[2]);
    }
}

proof fn lemma_front_flags(
    port: u16,
    path: Seq<char>,
    config: CloakConfig,
    seed: u32,
    host: Host,
)
    ensures
        ({
            let a = fingerprint_args(base_args(port, path), config, seed, host);
            &&& !a.contains("--headless=new"@)
            &&& !a.contains("--disable-3d-apis"@)
            &&& !a.contains("--blink-settings=imagesEnabled=false"@)
            &&& !a.contains("--force-webrtc-ip-handling-policy=disable_non_proxied_udp"@)
        }),
{
    broadcast use lemma_push_has;

    lemma_flags();
    let platform = platform_of(config, host);
    let (w, h) = screen_of(config, platform);
    let x1 = "--remote-debugging-port="@ + dec(port as nat);
    assert(x1[2] == "--remote-debugging-port="@[2]);
    let x2 = "--user-data-dir="@ + path;
    assert(x2[2] == "--user-data-dir="@[2]);
    let x3 = "--fingerprint="@ + dec(seed as nat);
    assert(x3[2] == "--fingerprint="@[2] && x3[3] == "--fingerprint="@[3]);
    let x4 = "--fingerprint-platform="@ + platform;
    assert(x4[2] == "--fingerprint-platform="@[2] && x4[3] == "--fingerprint-platform="@[3]);
    let x5 = "--fingerprint-screen-width="@ + dec(w as nat);
    assert(x5[2] == "--fingerprint-screen-width="@[2] && x5[3] == "--fingerprint-screen-width="@[3]);
    let x6 = "--fingerprint-screen-height="@ + dec(h as nat);
    assert(x6[2] == "--fingerprint-screen-height="@[2] && x6[3]
        == "--fingerprint-screen-height="@[3]);
    if let Some(tz) = crate::cloak::filled_in(opt_text(config.timezone)) {
        let x = "--fingerprint-timezone="@ + tz;
        assert(x[2] == "--fingerprint-timezone="@[2] && x[3] == "--fingerprint-timezone="@[3]);
    }
    if let Some(l) = crate::cloak::filled_in(opt_text(config.locale)) {
        let x = "--fingerprint-locale="@ + l;
        assert(x[2] == "--fingerprint-locale="@[2] && x[3] == "--fingerprint-locale="@[3]);
        let y = "--lang="@ + l;
        assert(y[2] == "--lang="@[2]);
    }
}

/// Where the profile follows its proxy and the address that the proxy shows is
/// known, the launch shows that address and the place of it, but for what the
/// profile sets itself; where not, it has no such flags.
pub proof fn lemma_launch_place(
    a: Seq<Seq<char>>,
    config: CloakConfig,
    has_proxy: bool,
    exit: ExitPoint,
    g: Place,
)
    requires
        exit.place == Some(g),
    ensures
        ({
            let follows = has_proxy && !(config.geoip is Some && config.geoip->0@ == JsonView::Bool(
                false,
            ));
            let b = launch_arguments(a, config, has_proxy, Some(exit));
            &&& follows ==> b.contains("--fingerprint-webrtc-ip="@ + exit.ip@)
            &&& follows && config.timezone is None ==> b.contains(
                "--fingerprint-timezone="@ + g.timezone@,
            )
            &&& follows && config.locale is None ==> b.contains(
                "--fingerprint-locale="@ + g.locale@,
            ) && b.contains("--lang="@ + g.locale@)
            &&& follows ==> b.contains(
                "--fingerprint-location="@ + g.latitude@ + ","@ + g.longitude@,
            )
            &&& !follows ==> b == a
            &&& launch_arguments(a, config, has_proxy, None) == a
            &&& forall|x: Seq<char>| a.contains(x) ==> #[trigger] b.contains(x)
        }),
{
    broadcast use lemma_push_has;

}

/// The proxy that a launch goes through is the one that was given, without the
/// scheme of its address.
pub proof fn lemma_launch_proxy(host: Seq<char>)
    requires
        !starts(host, "http://"@),
        !starts(host, "https://"@),
    ensures
        crate::text::contains(crate::cloak::proxy_script("http://"@ + host), host),
        crate::cloak::proxy_script("http://"@ + host) == crate::cloak::proxy_script(host),
{
    reveal_strlit("http://");
    reveal_strlit("https://");
    let p = "http://"@ + host;
    assert("http://"@.len() == 7 && "https://"@.len() == 8);
    assert(p.subrange(0, 7) =~= "http://"@);
    assert(p.skip(7) =~= host);
    reveal_with_fuel(crate::cloak::bare, 3);
    let s = crate::cloak::proxy_script(p);
    let head =
        "data:application/x-ns-proxy-autoconfig,function FindProxyForURL(url,host){return \"PROXY "@;
    assert(s.subrange(head.len() as int, head.len() + host.len() as int) =~= host);
    assert(crate::text::occurs(s, host, head.len() as int));
}

/// A launch of a profile that keeps its seed uses that one; one that makes up a new
/// one, or has none, uses the one that was made up and hands it back to be kept.
pub proof fn lemma_seed_used(config: CloakConfig, made_up: u32, s: u32)
    ensures
        config.seed == Some(s) && config.randomize_seed_on_launch != Some(true) ==> seed_for(
            config,
            made_up,
        ) == s,
        config.seed == Some(s) && config.randomize_seed_on_launch == Some(true) ==> seed_for(
            config,
            made_up,
        ) == made_up,
        config.seed is None ==> seed_for(config, made_up) == made_up,
        config.seed != Some(s) ==> seed_to_keep(config, s) == Some(s),
        config.seed == Some(s) ==> seed_to_keep(config, s) is None,
{
}

/// A browser is waited for, half a second at a time, until it answers; after a minute
/// of that it is given up.
pub proof fn lemma_waiting(attempt: u32, p: Probe, port: u16)
    ensures
        p is Up <==> after_probe(attempt, p, port) is Ready,
        !(p is Up) && attempt < 119 ==> after_probe(attempt, p, port) == (WaitView::Again {
            ms: 500,
        }),
        !(p is Up) && attempt >= 119 ==> after_probe(attempt, p, port) is GiveUp,
{
}

/// The process that is found is a browser, runs with the directory that was asked
/// for, and is the first such; none is found only where there is none.
pub proof fn lemma_process_found(ps: Seq<ProcessInfo>, dir: Seq<char>, from: int)
    requires
        0 <= from,
    ensures
        match process_using(ps, dir, from) {
            Some((pid, port)) => exists|i: int|
                from <= i < ps.len() && (#[trigger] ps[i]).pid == pid && is_browser(ps[i])
                    && uses_dir(ps[i], dir),
            None => forall|i: int|
                from <= i < ps.len() ==> !(is_browser(#[trigger] ps[i]) && uses_dir(ps[i], dir)),
        },
    decreases ps.len() - from,
{
    if from < ps.len() {
        if is_browser(ps[from]) && uses_dir(ps[from], dir) {
            let found = process_using(ps, dir, from)->0;
            let (pid, port) = found;
            assert(ps[from].pid == pid);
        } else {
            lemma_process_found(ps, dir, from + 1);
        }
    }
}

/// The address of a page is that of the first target that is one.
pub proof fn lemma_page_address(t: Seq<CdpTarget>, i: int)
    requires
        0 <= i < t.len(),
        t[i].target_type@ == "page"@,
        forall|j: int| 0 <= j < i ==> (#[trigger] t[j]).target_type@ != "page"@,
    ensures
        page_address(t, 0) == opt_text(t[i].websocket_debugger_url),
{
    lemma_page_address_from(t, 0, i);
}

proof fn lemma_page_address_from(t: Seq<CdpTarget>, from: int, i: int)
    requires
        0 <= from <= i < t.len(),
        t[i].target_type@ == "page"@,
        forall|j: int| 0 <= j < i ==> (#[trigger] t[j]).target_type@ != "page"@,
    ensures
        page_address(t, from) == opt_text(t[i].websocket_debugger_url),
    decreases i - from,
{
    if from < i {
        lemma_page_address_from(t, from + 1, i);
    }
}

/// The debugging port of a process is the one that its arguments name, the last one
/// where they name several.
pub proof fn lemma_port_of(cmd: Seq<Option<String>>, a: String, other: String, p: u16)
    requires
        a@ == "--remote-debugging-port="@ + dec(p as nat),
        !starts(other@, "--remote-debugging-port="@),
    ensures
        port_of(cmd.push(Some(a)), cmd.len() as int + 1) == Some(p),
        port_of(cmd.push(Some(other)), cmd.len() as int + 1) == port_of(cmd, cmd.len() as int),
        port_of(cmd.push(None), cmd.len() as int + 1) == port_of(cmd, cmd.len() as int),
        port_of(cmd, 0) is None,
{
    let pre = "--remote-debugging-port="@;
    assert(a@.subrange(0, pre.len() as int) =~= pre);
    assert(a@.skip(pre.len() as int) =~= dec(p as nat));
    crate::text::lemma_dec_value(p as nat);
    lemma_port_front(cmd, Some(other), cmd.len() as int);
    lemma_port_front(cmd, None, cmd.len() as int);
    assert(cmd.push(Some(a))[cmd.len() as int] == Some(a));
    assert(cmd.push(Some(other))[cmd.len() as int] == Some(other));
    assert(cmd.push(None)[cmd.len() as int] == None::<String>);
}

proof fn lemma_port_front(cmd: Seq<Option<String>>, x: Option<String>, n: int)
    requires
        n <= cmd.len(),
    ensures
        port_of(cmd.push(x), n) == port_of(cmd, n),
    decreases n,
{
    if n > 0 {
        lemma_port_front(cmd, x, n - 1);
        assert(cmd.push(x)[n - 1] == cmd[n - 1]);
    }
}

/// Letters, digits and four marks stand for themselves in an address, and any other
/// byte for a percent sign and its two hexadecimal digits.
pub proof fn lemma_percent(b: Seq<u8>, x: u8)
    ensures
        percent_encoded(Seq::empty()) == Seq::<char>::empty(),
        ({
            let c = x as char;
            if ('a' <= c <= 'z') || ('A' <= c <= 'Z') || ('0' <= c <= '9') || c == '-' || c == '.'
                || c == '_' || c == '~' {
                percent_encoded(b.push(x)) == percent_encoded(b).push(c)
            } else {
                percent_encoded(b.push(x)) == percent_encoded(b) + seq![
                    '%',
                    "0123456789ABCDEF"@[x as int / 16],
                    "0123456789ABCDEF"@[x as int % 16],
                ]
            }
        }),
{
    reveal_strlit("0123456789ABCDEF");
    assert("0123456789ABCDEF"@ =~= seq![
        '0',
        '1',
        '2',
        '3',
        '4',
        '5',
        '6',
        '7',
        '8',
        '9',
        'A',
        'B',
        'C',
        'D',
        'E',
        'F',
    ]);
    let s = b.push(x);
    assert(s.drop_last() =~= b);
    assert(percent_encoded(b) + seq![x as char] =~= percent_encoded(b).push(x as char));
}

/// The browser that uses a profile is the first whose path is that of the profile;
/// none is found only where none has it.
pub proof fn lemma_instance_at(
    m: Seq<(Seq<char>, crate::cloak::CloakInstance)>,
    paths: Seq<Option<Seq<char>>>,
    target: Seq<char>,
    from: int,
)
    requires
        0 <= from,
        paths.len() == m.len(),
    ensures
        match crate::cloak::instance_at(m, paths, target, from) {
            Some(i) => from <= i < m.len() && paths[i] == Some(target) && forall|j: int|
                from <= j < i ==> #[trigger] paths[j] != Some(target),
            None => forall|j: int| from <= j < m.len() ==> #[trigger] paths[j] != Some(target),
        },
    decreases m.len() - from,
{
    if from < m.len() && paths[from] != Some(target) {
        lemma_instance_at(m, paths, target, from + 1);
    }
}

/// The flags, as far as it takes to tell the switches from the others.
proof fn lemma_flags()
    ensures
        "--remote-debugging-port="@.len() == 24 && "--remote-debugging-port="@[2] == 'r' && "--remote-debugging-port="@[3] == 'e' && "--remote-debugging-port="@[10] == 'e',
        "--remote-debugging-address=127.0.0.1"@.len() == 36 && "--remote-debugging-address=127.0.0.1"@[2] == 'r' && "--remote-debugging-address=127.0.0.1"@[3] == 'e' && "--remote-debugging-address=127.0.0.1"@[10] == 'e',
        "--user-data-dir="@.len() == 16 && "--user-data-dir="@[2] == 'u' && "--user-data-dir="@[3] == 's' && "--user-data-dir="@[10] == 'a',
        "--no-first-run"@.len() == 14 && "--no-first-run"@[2] == 'n' && "--no-first-run"@[3] == 'o' && "--no-first-run"@[10] == '-',
        "--no-default-browser-check"@.len() == 26 && "--no-default-browser-check"@[2] == 'n' && "--no-default-browser-check"@[3] == 'o' && "--no-default-browser-check"@[10] == 'l',
        "--disable-background-mode"@.len() == 25 && "--disable-background-mode"@[2] == 'd' && "--disable-background-mode"@[3] == 'i' && "--disable-background-mode"@[10] == 'b',
        "--disable-component-update"@.len() == 26 && "--disable-component-update"@[2] == 'd' && "--disable-component-update"@[3] == 'i' && "--disable-component-update"@[10] == 'c',
        "--disable-background-timer-throttling"@.len() == 37 && "--disable-background-timer-throttling"@[2] == 'd' && "--disable-background-timer-throttling"@[3] == 'i' && "--disable-background-timer-throttling"@[10] == 'b',
        "--disable-session-crashed-bubble"@.len() == 32 && "--disable-session-crashed-bubble"@[2] == 'd' && "--disable-session-crashed-bubble"@[3] == 'i' && "--disable-session-crashed-bubble"@[10] == 's',
        "--hide-crash-restore-bubble"@.len() == 27 && "--hide-crash-restore-bubble"@[2] == 'h' && "--hide-crash-restore-bubble"@[3] == 'i' && "--hide-crash-restore-bubble"@[10] == 's',
        "--disable-infobars"@.len() == 18 && "--disable-infobars"@[2] == 'd' && "--disable-infobars"@[3] == 'i' && "--disable-infobars"@[10] == 'i',
        "--use-mock-keychain"@.len() == 19 && "--use-mock-keychain"@[2] == 'u' && "--use-mock-keychain"@[3] == 's' && "--use-mock-keychain"@[10] == '-',
        "--password-store=basic"@.len() == 22 && "--password-store=basic"@[2] == 'p' && "--password-store=basic"@[3] == 'a' && "--password-store=basic"@[10] == '-',
        "--fingerprint="@.len() == 14 && "--fingerprint="@[2] == 'f' && "--fingerprint="@[3] == 'i' && "--fingerprint="@[10] == 'i',
        "--fingerprint-platform="@.len() == 23 && "--fingerprint-platform="@[2] == 'f' && "--fingerprint-platform="@[3] == 'i' && "--fingerprint-platform="@[10] == 'i',
        "--fingerprint-timezone="@.len() == 23 && "--fingerprint-timezone="@[2] == 'f' && "--fingerprint-timezone="@[3] == 'i' && "--fingerprint-timezone="@[10] == 'i',
        "--fingerprint-locale="@.len() == 21 && "--fingerprint-locale="@[2] == 'f' && "--fingerprint-locale="@[3] == 'i' && "--fingerprint-locale="@[10] == 'i',
        "--lang="@.len() == 7 && "--lang="@[2] == 'l' && "--lang="@[3] == 'a',
        "--fingerprint-screen-width="@.len() == 27 && "--fingerprint-screen-width="@[2] == 'f' && "--fingerprint-screen-width="@[3] == 'i' && "--fingerprint-screen-width="@[10] == 'i',
        "--fingerprint-screen-height="@.len() == 28 && "--fingerprint-screen-height="@[2] == 'f' && "--fingerprint-screen-height="@[3] == 'i' && "--fingerprint-screen-height="@[10] == 'i',
        "--disable-3d-apis"@.len() == 17 && "--disable-3d-apis"@[2] == 'd' && "--disable-3d-apis"@[3] == 'i' && "--disable-3d-apis"@[10] == '3',
        "--force-webrtc-ip-handling-policy=disable_non_proxied_udp"@.len() == 57 && "--force-webrtc-ip-handling-policy=disable_non_proxied_udp"@[2] == 'f' && "--force-webrtc-ip-handling-policy=disable_non_proxied_udp"@[3] == 'o' && "--force-webrtc-ip-handling-policy=disable_non_proxied_udp"@[10] == 'b',
        "--blink-settings=imagesEnabled=false"@.len() == 36 && "--blink-settings=imagesEnabled=false"@[2] == 'b' && "--blink-settings=imagesEnabled=false"@[3] == 'l' && "--blink-settings=imagesEnabled=false"@[10] == 't',
        "--ignore-gpu-blocklist"@.len() == 22 && "--ignore-gpu-blocklist"@[2] == 'i' && "--ignore-gpu-blocklist"@[3] == 'g' && "--ignore-gpu-blocklist"@[10] == 'p',
        "--headless=new"@.len() == 14 && "--headless=new"@[2] == 'h' && "--headless=new"@[3] == 'e' && "--headless=new"@[10] == '=',
        "--no-sandbox"@.len() == 12 && "--no-sandbox"@[2] == 'n' && "--no-sandbox"@[3] == 'o' && "--no-sandbox"@[10] == 'o',
        "--disable-setuid-sandbox"@.len() == 24 && "--disable-setuid-sandbox"@[2] == 'd' && "--disable-setuid-sandbox"@[3] == 'i' && "--disable-setuid-sandbox"@[10] == 's',
        "--disable-dev-shm-usage"@.len() == 23 && "--disable-dev-shm-usage"@[2] == 'd' && "--disable-dev-shm-usage"@[3] == 'i' && "--disable-dev-shm-usage"@[10] == 'd',
        "--disk-cache-size=1"@.len() == 19 && "--disk-cache-size=1"@[2] == 'd' && "--disk-cache-size=1"@[3] == 'i' && "--disk-cache-size=1"@[10] == 'h',
        "--disable-breakpad"@.len() == 18 && "--disable-breakpad"@[2] == 'd' && "--disable-breakpad"@[3] == 'i' && "--disable-breakpad"@[10] == 'b',
        "--disable-crash-reporter"@.len() == 24 && "--disable-crash-reporter"@[2] == 'd' && "--disable-crash-reporter"@[3] == 'i' && "--disable-crash-reporter"@[10] == 'c',
        "--no-service-autorun"@.len() == 20 && "--no-service-autorun"@[2] == 'n' && "--no-service-autorun"@[3] == 'o' && "--no-service-autorun"@[10] == 'c',
        "--disable-sync"@.len() == 14 && "--disable-sync"@[2] == 'd' && "--disable-sync"@[3] == 'i' && "--disable-sync"@[10] == 's',
        "--load-extension="@.len() == 17 && "--load-extension="@[2] == 'l' && "--load-extension="@[3] == 'o' && "--load-extension="@[10] == 'e',
        "--proxy-pac-url="@.len() == 16 && "--proxy-pac-url="@[2] == 'p' && "--proxy-pac-url="@[3] == 'r' && "--proxy-pac-url="@[10] == 'c',
        "--dns-prefetch-disable"@.len() == 22 && "--dns-prefetch-disable"@[2] == 'd' && "--dns-prefetch-disable"@[3] == 'n' && "--dns-prefetch-disable"@[10] == 'e',
        "--fingerprint-webrtc-ip="@.len() == 24 && "--fingerprint-webrtc-ip="@[2] == 'f' && "--fingerprint-webrtc-ip="@[3] == 'i' && "--fingerprint-webrtc-ip="@[10] == 'i',
        "--fingerprint-location="@.len() == 23 && "--fingerprint-location="@[2] == 'f' && "--fingerprint-location="@[3] == 'i' && "--fingerprint-location="@[10] == 'i',
{
    reveal_strlit("--remote-debugging-port=");
    reveal_strlit("--remote-debugging-address=127.0.0.1");
    reveal_strlit("--user-data-dir=");
    reveal_strlit("--no-first-run");
    reveal_strlit("--no-default-browser-check");
    reveal_strlit("--disable-background-mode");
    reveal_strlit("--disable-component-update");
    reveal_strlit("--disable-background-timer-throttling");
    reveal_strlit("--disable-session-crashed-bubble");
    reveal_strlit("--hide-crash-restore-bubble");
    reveal_strlit("--disable-infobars");
    reveal_strlit("--use-mock-keychain");
    reveal_strlit("--password-store=basic");
    reveal_strlit("--fingerprint=");
    reveal_strlit("--fingerprint-platform=");
    reveal_strlit("--fingerprint-timezone=");
    reveal_strlit("--fingerprint-locale=");
    reveal_strlit("--lang=");
    reveal_strlit("--fingerprint-screen-width=");
    reveal_strlit("--fingerprint-screen-height=");
    reveal_strlit("--disable-3d-apis");
    reveal_strlit("--force-webrtc-ip-handling-policy=disable_non_proxied_udp");
    reveal_strlit("--blink-settings=imagesEnabled=false");
    reveal_strlit("--ignore-gpu-blocklist");
    reveal_strlit("--headless=new");
    reveal_strlit("--no-sandbox");
    reveal_strlit("--disable-setuid-sandbox");
    reveal_strlit("--disable-dev-shm-usage");
    reveal_strlit("--disk-cache-size=1");
    reveal_strlit("--disable-breakpad");
    reveal_strlit("--disable-crash-reporter");
    reveal_strlit("--no-service-autorun");
    reveal_strlit("--disable-sync");
    reveal_strlit("--load-extension=");
    reveal_strlit("--proxy-pac-url=");
    reveal_strlit("--dns-prefetch-disable");
    reveal_strlit("--fingerprint-webrtc-ip=");
    reveal_strlit("--fingerprint-location=");
}

} // verus!
