//! What is told of profiles and of tools that have done their work.
use vstd::prelude::*;

use crate::calls::{CallView, FingerprintView};
use crate::cloak::CloakConfig;
use crate::json::{lemma_with_field, lemma_with_object, render};
use crate::plan::reply_text;
use crate::profiles::{lemma_profile_named, ProfileView};
use crate::protocol::lemma_text_read_back;
use crate::replies::{
    counted, created, fingerprint_after, flag_given, presented, said_of, seed_after, shown,
    status_answer, success, supported, text_given, CamoufoxConfig, Outcome, Presentation,
};
use crate::text::{contains, dec, ends, lemma_dec_value, occurs, starts};
use crate::value::JsonView;

verus! {

/// What stands between two texts stands in the whole.
proof fn lemma_between(a: Seq<char>, x: Seq<char>, b: Seq<char>)
    ensures
        contains(a + x + b, x),
{
    let s = a + x + b;
    assert(s.subrange(a.len() as int, a.len() + x.len() as int) =~= x);
    assert(occurs(s, x, a.len() as int));
}

/// A profile is told of where it is there and its browser can be automated, and it is
/// the one with the id that was asked for.
pub proof fn lemma_supported(v: Seq<ProfileView>, id: Seq<char>)
    ensures
        match supported(v, id) {
            Ok(p) => v.contains(p) && p.id == id && (p.browser == "camoufox"@ || p.browser
                == "cloak"@),
            Err(e) => (forall|i: int| 0 <= i < v.len() ==> (#[trigger] v[i]).id != id) || exists|
                i: int,
            |
                0 <= i < v.len() && (#[trigger] v[i]).id == id && v[i].browser != "camoufox"@
                    && v[i].browser != "cloak"@,
        },
        supported(v, id) is Ok ==> status_answer(v, id) is Ok && reply_text(
            status_answer(v, id)->Ok_0,
        ) == render(
            JsonView::empty().with("profile_id"@, JsonView::Str(id)).with(
                "is_running"@,
                JsonView::Bool((supported(v, id)->Ok_0).running),
            ),
        ),
{
    lemma_profile_named(v, id);
    if let Some(p) = crate::profiles::profile_named(v, id) {
        let i = choose|i: int| 0 <= i < v.len() && v[i] == p;
        assert(v[i].id == id);
    }
    if supported(v, id) is Ok {
        lemma_text_read_back(
            render(
                JsonView::empty().with("profile_id"@, JsonView::Str(id)).with(
                    "is_running"@,
                    JsonView::Bool((supported(v, id)->Ok_0).running),
                ),
            ),
        );
    }
}

/// The profiles that are listed are those whose browser can be automated, in their
/// order.
pub proof fn lemma_shown(v: Seq<ProfileView>, n: int, i: int)
    requires
        0 <= n <= v.len(),
    ensures
        shown(v, n).contains(i) <==> 0 <= i < n && (v[i].browser == "camoufox"@ || v[i].browser
            == "cloak"@),
        forall|a: int, b: int| 0 <= a < b < shown(v, n).len() ==> shown(v, n)[a] < shown(v, n)[b],
    decreases n,
{
    if n > 0 {
        lemma_shown(v, n - 1, i);
        let before = shown(v, n - 1);
        let now = shown(v, n);
        if now.contains(i) {
            let k = choose|k: int| 0 <= k < now.len() && now[k] == i;
            if k < before.len() {
                assert(before[k] == i);
            }
        }
        if before.contains(i) {
            let k = choose|k: int| 0 <= k < before.len() && before[k] == i;
            assert(now[k] == i);
        }
        if now.len() > before.len() {
            assert(now[before.len() as int] == n - 1);
            assert forall|a: int, b: int| 0 <= a < b < now.len() implies now[a] < now[b] by {
                if b == before.len() {
                    lemma_shown(v, n - 1, before[a]);
                    assert(before.contains(before[a]));
                }
            }
        }
    }
}

/// A fingerprint that is given is the one from then on, one that is cleared is gone,
/// and one that is not spoken of stays; a seed, likewise, is the number that the
/// fingerprint writes. The other settings are those that are given, where they are.
pub proof fn lemma_fingerprint_changes(
    text: Seq<char>,
    before: Option<String>,
    seed: Option<u32>,
    n: u32,
    s: String,
    flag: Option<bool>,
    b: bool,
)
    ensures
        fingerprint_after(FingerprintView::Give { text }, before) == Some(text),
        fingerprint_after(FingerprintView::Clear, before) is None,
        fingerprint_after(FingerprintView::Keep, before) == crate::text::opt_text(before),
        seed_after(FingerprintView::Give { text: dec(n as nat) }, seed) == Some(n),
        seed_after(FingerprintView::Clear, seed) is None,
        seed_after(FingerprintView::Keep, seed) == seed,
        text_given(Some(s), before) == Some(s@),
        text_given(None, before) == crate::text::opt_text(before),
        flag_given(Some(b), flag) == Some(b),
        flag_given(None, flag) == flag,
{
    lemma_dec_value(n as nat);
}

proof fn lemma_print_keys()
    ensures
        "browser"@.len() == 7,
        "fingerprint"@.len() == 11,
        "os"@.len() == 2,
        "randomize_fingerprint_on_launch"@.len() == 31,
        "screen_max_width"@.len() == 16 && "screen_max_width"@[8] == 'a',
        "screen_max_height"@.len() == 17 && "screen_max_height"@[8] == 'a',
        "screen_min_width"@.len() == 16 && "screen_min_width"@[8] == 'i',
        "screen_min_height"@.len() == 17 && "screen_min_height"@[8] == 'i',
        "seed"@.len() == 4,
        "randomize_seed_on_launch"@.len() == 24,
        "timezone"@.len() == 8,
        "locale"@.len() == 6,
        "screen_width"@.len() == 12,
        "screen_height"@.len() == 13,
{
    reveal_strlit("browser");
    reveal_strlit("fingerprint");
    reveal_strlit("os");
    reveal_strlit("randomize_fingerprint_on_launch");
    reveal_strlit("screen_max_width");
    reveal_strlit("screen_max_height");
    reveal_strlit("screen_min_width");
    reveal_strlit("screen_min_height");
    reveal_strlit("seed");
    reveal_strlit("randomize_seed_on_launch");
    reveal_strlit("timezone");
    reveal_strlit("locale");
    reveal_strlit("screen_width");
    reveal_strlit("screen_height");
}

/// What is told of how a profile presents itself is what is set for it, each setting
/// under its own name.
pub proof fn lemma_presented(a: CamoufoxConfig, b: CloakConfig, t: String, n: u32)
    ensures
        ({
            let v = presented(Presentation::Camoufox { config: a })->0;
            &&& v.field_str("browser"@) == Some("camoufox"@)
            &&& a.fingerprint == Some(t) ==> v.field_str("fingerprint"@) == Some(t@)
            &&& a.os == Some(t) ==> v.field_str("os"@) == Some(t@)
            &&& a.screen_max_width == Some(n) ==> v.field_uint("screen_max_width"@) == Some(
                n as u64,
            )
            &&& a.screen_max_height == Some(n) ==> v.field_uint("screen_max_height"@) == Some(
                n as u64,
            )
            &&& a.screen_min_width == Some(n) ==> v.field_uint("screen_min_width"@) == Some(
                n as u64,
            )
            &&& a.screen_min_height == Some(n) ==> v.field_uint("screen_min_height"@) == Some(
                n as u64,
            )
        }),
        ({
            let v = presented(Presentation::Cloak { config: b })->0;
            &&& v.field_str("browser"@) == Some("cloak"@)
            &&& b.seed == Some(n) ==> v.field_uint("seed"@) == Some(n as u64)
            &&& b.os == Some(t) ==> v.field_str("os"@) == Some(t@)
            &&& b.timezone == Some(t) ==> v.field_str("timezone"@) == Some(t@)
            &&& b.locale == Some(t) ==> v.field_str("locale"@) == Some(t@)
            &&& b.screen_width == Some(n) ==> v.field_uint("screen_width"@) == Some(n as u64)
            &&& b.screen_height == Some(n) ==> v.field_uint("screen_height"@) == Some(n as u64)
        }),
        presented(Presentation::Other) is None,
{
    broadcast use {lemma_with_field, lemma_with_object};

    lemma_print_keys();
}

/// A tool that has made something tells its name and its id.
pub proof fn lemma_made(what: Seq<char>, o: Outcome)
    ensures
        contains(created(what, o), o.name@),
        ends(created(what, o), o.id@),
        starts(created(what, o), what),
{
    let s = created(what, o);
    lemma_between(what, o.name@, "' created successfully with ID: "@ + o.id@);
    assert(s =~= what + o.name@ + ("' created successfully with ID: "@ + o.id@));
    assert(s.subrange(s.len() - o.id@.len(), s.len() as int) =~= o.id@);
    assert(s.subrange(0, what.len() as int) =~= what);
}

/// A tool that has taken entries over tells how many it took over, how many it did
/// not, and how many were wrong, in that order.
pub proof fn lemma_counted(o: Outcome, second: Seq<char>, third: Seq<char>)
    ensures
        starts(
            counted(o, second, third),
            "Import complete: "@ + dec(o.imported as nat) + " imported, "@,
        ),
        contains(counted(o, second, third), dec(o.others as nat) + second),
        ends(counted(o, second, third), dec(o.errors as nat) + third),
{
    let s = counted(o, second, third);
    let a = "Import complete: "@ + dec(o.imported as nat) + " imported, "@;
    let b = dec(o.others as nat) + second;
    let c = dec(o.errors as nat) + third;
    assert(s =~= a + b + c);
    lemma_between(a, b, c);
    assert(s.subrange(0, a.len() as int) =~= a);
    assert(s.subrange(s.len() - c.len(), s.len() as int) =~= c);
}

/// A tool that has done its work says so of what it was done to: by name, where the
/// name is known, or else by what the call named.
pub proof fn lemma_success(
    o: Outcome,
    profile_id: Seq<char>,
    url: Option<Seq<char>>,
    headless: bool,
    rules: Seq<Seq<char>>,
    tag: Seq<char>,
    value: Seq<char>,
)
    ensures
        ({
            let t = success(CallView::RunProfile { profile_id, url, headless }, o);
            t is Some && contains(t->0, o.name@)
        }),
        ({
            let t = success(CallView::UpdateBypassRules { profile_id, rules }, o);
            t is Some && contains(t->0, o.name@) && contains(t->0, dec(rules.len()))
        }),
        ({
            let t = success(CallView::AddProfileTag { profile_id, tag }, o);
            t is Some && contains(t->0, o.name@) && contains(t->0, tag)
        }),
        ({
            let t = success(CallView::One { tool: "kill_profile"@, value }, o);
            t is Some && contains(t->0, o.name@)
        }),
        said_of("delete_profile"@, value) is Some && contains(
            said_of("delete_profile"@, value)->0,
            value,
        ),
        said_of("list_profiles"@, value) is None,
{
    lemma_between("Browser profile '"@, o.name@, "' launched successfully"@);
    lemma_between("Browser profile '"@, o.name@, "' stopped successfully"@);
    lemma_between("Profile '"@, value, "' deleted successfully"@);
    let n = dec(rules.len());
    let r = "Proxy bypass rules updated for profile '"@ + o.name@ + "': "@ + n
        + " rule(s) configured"@;
    lemma_between(
        "Proxy bypass rules updated for profile '"@,
        o.name@,
        "': "@ + n + " rule(s) configured"@,
    );
    assert(r =~= "Proxy bypass rules updated for profile '"@ + o.name@ + ("': "@ + n
        + " rule(s) configured"@));
    lemma_between(
        "Proxy bypass rules updated for profile '"@ + o.name@ + "': "@,
        n,
        " rule(s) configured"@,
    );
    let g = "Tagged profile '"@ + o.name@ + "' with '"@ + tag + "'"@;
    lemma_between("Tagged profile '"@, o.name@, "' with '"@ + tag + "'"@);
    assert(g =~= "Tagged profile '"@ + o.name@ + ("' with '"@ + tag + "'"@));
    lemma_between("Tagged profile '"@ + o.name@ + "' with '"@, tag, "'"@);
    reveal_strlit("list_profiles");
    reveal_strlit("delete_profile");
    reveal_strlit("delete_group");
    reveal_strlit("delete_proxy");
    reveal_strlit("delete_vpn");
    reveal_strlit("connect_vpn");
    reveal_strlit("disconnect_vpn");
    assert("list_profiles"@[0] == 'l' && "delete_profile"@[0] == 'd' && "delete_group"@[0] == 'd');
    assert("delete_proxy"@[0] == 'd' && "delete_vpn"@[0] == 'd' && "connect_vpn"@[0] == 'c');
    assert("disconnect_vpn"@[0] == 'd');
}

} // verus!
