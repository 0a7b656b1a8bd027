//! Keys: their names in the two protocols that browsers speak, and the
//! commands that press them and type texts.
use vstd::prelude::*;

use crate::json::lemma_field_with;
use crate::protocol::{invalid, invalid_args, ErrorView, McpError};
use crate::text::{chars_of, join2, opt_text, same, texts};
use crate::value::{
    lemma_array_view, lemma_object_view, lemma_values_push, values, Json, JsonView,
};

verus! {

broadcast use {lemma_array_view, lemma_object_view};

// ---------------------------------------------------------------------------
// Names
// ---------------------------------------------------------------------------

/// A named key of the debugging protocol: its name, its place on the keyboard
/// and its number.
pub struct CdpKey {
    pub key: String,
    pub code: String,
    pub vk: i64,
}

pub struct CdpKeyView {
    pub key: Seq<char>,
    pub code: Seq<char>,
    pub vk: i64,
}

impl CdpKey {
    pub open spec fn view(&self) -> CdpKeyView {
        CdpKeyView { key: self.key@, code: self.code@, vk: self.vk }
    }
}

pub open spec fn opt_key(o: Option<CdpKey>) -> Option<CdpKeyView> {
    match o {
        Some(k) => Some(k@),
        None => None,
    }
}

/// The key of a name, whose place is called like the key.
pub open spec fn key_called(name: Seq<char>, vk: i64) -> Option<CdpKeyView> {
    Some(CdpKeyView { key: name, code: name, vk })
}

pub open spec fn cdp_key(name: Seq<char>) -> Option<CdpKeyView> {
    if name == "Enter"@ {
        key_called("Enter"@, 13)
    } else if name == "Tab"@ {
        key_called("Tab"@, 9)
    } else if name == "Escape"@ || name == "Esc"@ {
        key_called("Escape"@, 27)
    } else if name == "Backspace"@ {
        key_called("Backspace"@, 8)
    } else if name == "Delete"@ || name == "Del"@ {
        key_called("Delete"@, 46)
    } else if name == "ArrowUp"@ || name == "Up"@ {
        key_called("ArrowUp"@, 38)
    } else if name == "ArrowDown"@ || name == "Down"@ {
        key_called("ArrowDown"@, 40)
    } else if name == "ArrowLeft"@ || name == "Left"@ {
        key_called("ArrowLeft"@, 37)
    } else if name == "ArrowRight"@ || name == "Right"@ {
        key_called("ArrowRight"@, 39)
    } else if name == "Home"@ {
        key_called("Home"@, 36)
    } else if name == "End"@ {
        key_called("End"@, 35)
    } else if name == "PageUp"@ {
        key_called("PageUp"@, 33)
    } else if name == "PageDown"@ {
        key_called("PageDown"@, 34)
    } else if name == "Space"@ {
        Some(CdpKeyView { key: " "@, code: "Space"@, vk: 32 })
    } else {
        None
    }
}

/// The character that stands for a named key in the other protocol.
pub open spec fn bidi_key(name: Seq<char>) -> Option<Seq<char>> {
    if name == "Enter"@ {
        Some("\u{E007}"@)
    } else if name == "Tab"@ {
        Some("\u{E004}"@)
    } else if name == "Escape"@ || name == "Esc"@ {
        Some("\u{E00C}"@)
    } else if name == "Backspace"@ {
        Some("\u{E003}"@)
    } else if name == "Delete"@ || name == "Del"@ {
        Some("\u{E017}"@)
    } else if name == "ArrowUp"@ || name == "Up"@ {
        Some("\u{E013}"@)
    } else if name == "ArrowDown"@ || name == "Down"@ {
        Some("\u{E015}"@)
    } else if name == "ArrowLeft"@ || name == "Left"@ {
        Some("\u{E012}"@)
    } else if name == "ArrowRight"@ || name == "Right"@ {
        Some("\u{E014}"@)
    } else if name == "Home"@ {
        Some("\u{E011}"@)
    } else if name == "End"@ {
        Some("\u{E010}"@)
    } else if name == "PageUp"@ {
        Some("\u{E00E}"@)
    } else if name == "PageDown"@ {
        Some("\u{E00F}"@)
    } else if name == "Space"@ {
        Some(" "@)
    } else {
        None
    }
}

/// A modifier: as a key, as a bit, and as a character.
pub struct Modifier {
    pub key: CdpKey,
    pub bit: u64,
    pub value: String,
}

pub struct ModifierView {
    pub key: CdpKeyView,
    pub bit: u64,
    pub value: Seq<char>,
}

impl Modifier {
    pub open spec fn view(&self) -> ModifierView {
        ModifierView { key: self.key@, bit: self.bit, value: self.value@ }
    }
}

pub open spec fn opt_modifier(o: Option<Modifier>) -> Option<ModifierView> {
    match o {
        Some(m) => Some(m@),
        None => None,
    }
}

/// Alt is bit 1, Control 2, Meta 4 and Shift 8.
pub open spec fn modifier(name: Seq<char>) -> Option<ModifierView> {
    if name == "Shift"@ {
        Some(
            ModifierView {
                key: CdpKeyView { key: "Shift"@, code: "ShiftLeft"@, vk: 16 },
                bit: 8,
                value: "\u{E008}"@,
            },
        )
    } else if name == "Control"@ || name == "Ctrl"@ {
        Some(
            ModifierView {
                key: CdpKeyView { key: "Control"@, code: "ControlLeft"@, vk: 17 },
                bit: 2,
                value: "\u{E009}"@,
            },
        )
    } else if name == "Alt"@ || name == "Option"@ {
        Some(
            ModifierView {
                key: CdpKeyView { key: "Alt"@, code: "AltLeft"@, vk: 18 },
                bit: 1,
                value: "\u{E00A}"@,
            },
        )
    } else if name == "Meta"@ || name == "Cmd"@ || name == "Command"@ {
        Some(
            ModifierView {
                key: CdpKeyView { key: "Meta"@, code: "MetaLeft"@, vk: 91 },
                bit: 4,
                value: "\u{E03D}"@,
            },
        )
    } else {
        None
    }
}

fn make_key(key: &str, code: &str, vk: i64) -> (r: CdpKey)
    ensures
        r@ == (CdpKeyView { key: key@, code: code@, vk }),
{
    CdpKey { key: key.to_owned(), code: code.to_owned(), vk }
}

/// The key of the debugging protocol with a name.
pub fn cdp_named_key(name: &str) -> (r: Option<CdpKey>)
    ensures
        opt_key(r) == cdp_key(name@),
{
    if same(name, "Enter") {
        Some(make_key("Enter", "Enter", 13))
    } else if same(name, "Tab") {
        Some(make_key("Tab", "Tab", 9))
    } else if same(name, "Escape") || same(name, "Esc") {
        Some(make_key("Escape", "Escape", 27))
    } else if same(name, "Backspace") {
        Some(make_key("Backspace", "Backspace", 8))
    } else if same(name, "Delete") || same(name, "Del") {
        Some(make_key("Delete", "Delete", 46))
    } else if same(name, "ArrowUp") || same(name, "Up") {
        Some(make_key("ArrowUp", "ArrowUp", 38))
    } else if same(name, "ArrowDown") || same(name, "Down") {
        Some(make_key("ArrowDown", "ArrowDown", 40))
    } else if same(name, "ArrowLeft") || same(name, "Left") {
        Some(make_key("ArrowLeft", "ArrowLeft", 37))
    } else if same(name, "ArrowRight") || same(name, "Right") {
        Some(make_key("ArrowRight", "ArrowRight", 39))
    } else if same(name, "Home") {
        Some(make_key("Home", "Home", 36))
    } else if same(name, "End") {
        Some(make_key("End", "End", 35))
    } else if same(name, "PageUp") {
        Some(make_key("PageUp", "PageUp", 33))
    } else if same(name, "PageDown") {
        Some(make_key("PageDown", "PageDown", 34))
    } else if same(name, "Space") {
        Some(make_key(" ", "Space", 32))
    } else {
        None
    }
}

/// The character that stands for a named key in the other protocol.
pub fn bidi_named_key(name: &str) -> (r: Option<String>)
    ensures
        opt_text(r) == bidi_key(name@),
{
    if same(name, "Enter") {
        Some("\u{E007}".to_owned())
    } else if same(name, "Tab") {
        Some("\u{E004}".to_owned())
    } else if same(name, "Escape") || same(name, "Esc") {
        Some("\u{E00C}".to_owned())
    } else if same(name, "Backspace") {
        Some("\u{E003}".to_owned())
    } else if same(name, "Delete") || same(name, "Del") {
        Some("\u{E017}".to_owned())
    } else if same(name, "ArrowUp") || same(name, "Up") {
        Some("\u{E013}".to_owned())
    } else if same(name, "ArrowDown") || same(name, "Down") {
        Some("\u{E015}".to_owned())
    } else if same(name, "ArrowLeft") || same(name, "Left") {
        Some("\u{E012}".to_owned())
    } else if same(name, "ArrowRight") || same(name, "Right") {
        Some("\u{E014}".to_owned())
    } else if same(name, "Home") {
        Some("\u{E011}".to_owned())
    } else if same(name, "End") {
        Some("\u{E010}".to_owned())
    } else if same(name, "PageUp") {
        Some("\u{E00E}".to_owned())
    } else if same(name, "PageDown") {
        Some("\u{E00F}".to_owned())
    } else if same(name, "Space") {
        Some(" ".to_owned())
    } else {
        None
    }
}

/// The modifier with a name.
pub fn modifier_info(name: &str) -> (r: Option<Modifier>)
    ensures
        opt_modifier(r) == modifier(name@),
{
    if same(name, "Shift") {
        Some(
            Modifier {
                key: make_key("Shift", "ShiftLeft", 16),
                bit: 8,
                value: "\u{E008}".to_owned(),
            },
        )
    } else if same(name, "Control") || same(name, "Ctrl") {
        Some(
            Modifier {
                key: make_key("Control", "ControlLeft", 17),
                bit: 2,
                value: "\u{E009}".to_owned(),
            },
        )
    } else if same(name, "Alt") || same(name, "Option") {
        Some(
            Modifier {
                key: make_key("Alt", "AltLeft", 18),
                bit: 1,
                value: "\u{E00A}".to_owned(),
            },
        )
    } else if same(name, "Meta") || same(name, "Cmd") || same(name, "Command") {
        Some(
            Modifier {
                key: make_key("Meta", "MetaLeft", 91),
                bit: 4,
                value: "\u{E03D}".to_owned(),
            },
        )
    } else {
        None
    }
}

/// A key has a name in one protocol exactly where it has one in the other.
pub proof fn lemma_same_names(name: Seq<char>)
    ensures
        cdp_key(name) is Some <==> bidi_key(name) is Some,
{
}

// ---------------------------------------------------------------------------
// Pressing a key
// ---------------------------------------------------------------------------

/// The modifiers of the first `n` names, or the first name that is none.
pub open spec fn modifiers_of(names: Seq<Seq<char>>, n: int) -> Result<
    Seq<ModifierView>,
    ErrorView,
>
    decreases n,
{
    if n <= 0 {
        Ok(Seq::empty())
    } else {
        match modifiers_of(names, n - 1) {
            Err(e) => Err(e),
            Ok(v) => match modifier(names[n - 1]) {
                Some(m) => Ok(v.push(m)),
                None => Err(invalid("Unknown modifier: "@ + names[n - 1])),
            },
        }
    }
}

/// The bits of the first `n` modifiers together.
pub open spec fn mask(v: Seq<ModifierView>, n: int) -> u64
    decreases n,
{
    if n <= 0 {
        0
    } else {
        mask(v, n - 1) | v[n - 1].bit
    }
}

pub open spec fn modifier_views(v: Seq<Modifier>) -> Seq<ModifierView> {
    v.map_values(|m: Modifier| m@)
}

fn read_modifiers(names: &Vec<String>) -> (r: Result<Vec<Modifier>, McpError>)
    ensures
        match r {
            Ok(v) => modifiers_of(texts(names@), names@.len() as int) == Ok::<
                Seq<ModifierView>,
                ErrorView,
            >(modifier_views(v@)),
            Err(e) => modifiers_of(texts(names@), names@.len() as int) == Err::<
                Seq<ModifierView>,
                ErrorView,
            >(e@),
        },
{
    let ghost all = texts(names@);
    let mut out: Vec<Modifier> = Vec::new();
    let mut i: usize = 0;
    assert(modifier_views(out@) =~= Seq::<ModifierView>::empty());
    while i < names.len()
        invariant
            i <= names@.len(),
            all == texts(names@),
            modifiers_of(all, i as int) == Ok::<Seq<ModifierView>, ErrorView>(
                modifier_views(out@),
            ),
        decreases names@.len() - i,
    {
        assert(all[i as int] == names@[i as int]@);
        match modifier_info(names[i].as_str()) {
            Some(m) => {
                let ghost before = modifier_views(out@);
                out.push(m);
                assert(modifier_views(out@) =~= before.push(m@));
            },
            None => {
                let e = invalid_args(join2("Unknown modifier: ", names[i].as_str()).as_str());
                proof {
                    lemma_modifiers_fail(all, i as int + 1, all.len() as int);
                }
                return Err(e);
            },
        }
        i = i + 1;
    }
    Ok(out)
}

proof fn lemma_modifiers_fail(names: Seq<Seq<char>>, i: int, n: int)
    requires
        i <= n,
        modifiers_of(names, i) is Err,
    ensures
        modifiers_of(names, n) == modifiers_of(names, i),
    decreases n - i,
{
    if i < n {
        lemma_modifiers_fail(names, i, n - 1);
    }
}

/// The parameters of an event of a modifier. Like every event of a press, it
/// carries the bits of all the modifiers that are held.
pub open spec fn modifier_event(kind: Seq<char>, m: ModifierView, bits: u64) -> JsonView {
    JsonView::empty().with("type"@, JsonView::Str(kind)).with("key"@, JsonView::Str(m.key.key)).with(
        "code"@,
        JsonView::Str(m.key.code),
    ).with("windowsVirtualKeyCode"@, JsonView::from_int(m.key.vk)).with(
        "nativeVirtualKeyCode"@,
        JsonView::from_int(m.key.vk),
    ).with("modifiers"@, JsonView::from_uint(bits))
}

/// The parameters of an event of the key itself. A single character carries
/// its text when it goes down, unless a modifier other than shift is held.
pub open spec fn key_event(kind: Seq<char>, key: Seq<char>, bits: u64) -> JsonView {
    match cdp_key(key) {
        Some(k) => JsonView::empty().with("type"@, JsonView::Str(kind)).with(
            "key"@,
            JsonView::Str(k.key),
        ).with("modifiers"@, JsonView::from_uint(bits)).with("code"@, JsonView::Str(k.code)).with(
            "windowsVirtualKeyCode"@,
            JsonView::from_int(k.vk),
        ).with("nativeVirtualKeyCode"@, JsonView::from_int(k.vk)),
        None => {
            let base = JsonView::empty().with("type"@, JsonView::Str(kind)).with(
                "key"@,
                JsonView::Str(key),
            ).with("modifiers"@, JsonView::from_uint(bits));
            if kind == "keyDown"@ && bits & 7 == 0 {
                base.with("text"@, JsonView::Str(key)).with("unmodifiedText"@, JsonView::Str(key))
            } else {
                base
            }
        },
    }
}

/// A key that can be pressed: a named one, or a single character.
pub open spec fn can_press(key: Seq<char>) -> bool {
    cdp_key(key) is Some || key.len() == 1
}

pub open spec fn bad_key(key: Seq<char>) -> ErrorView {
    invalid("Unsupported key: "@ + key)
}

/// The modifiers going down, one after the other.
pub open spec fn downs(v: Seq<ModifierView>, bits: u64) -> Seq<JsonView> {
    v.map_values(|m: ModifierView| modifier_event("keyDown"@, m, bits))
}

/// The modifiers coming up, the last one first.
pub open spec fn ups(v: Seq<ModifierView>, bits: u64) -> Seq<JsonView> {
    Seq::new(v.len(), |i: int| modifier_event("keyUp"@, v[v.len() - 1 - i], bits))
}

/// The events that press a key, or why it cannot be pressed: the modifiers go
/// down, the key goes down and up, the modifiers come up.
pub open spec fn cdp_press(key: Seq<char>, names: Seq<Seq<char>>) -> Result<
    Seq<JsonView>,
    ErrorView,
> {
    match modifiers_of(names, names.len() as int) {
        Err(e) => Err(e),
        Ok(v) => if !can_press(key) {
            Err(bad_key(key))
        } else {
            let bits = mask(v, v.len() as int);
            Ok(
                downs(v, bits).push(key_event("keyDown"@, key, bits)).push(
                    key_event("keyUp"@, key, bits),
                ) + ups(v, bits),
            )
        },
    }
}

fn modifier_json(kind: &str, m: &Modifier, bits: u64) -> (r: Json)
    ensures
        r@ == modifier_event(kind@, m@, bits),
{
    Json::empty().with("type", Json::text(kind)).with("key", Json::text(m.key.key.as_str())).with(
        "code",
        Json::text(m.key.code.as_str()),
    ).with("windowsVirtualKeyCode", Json::from_int(m.key.vk)).with(
        "nativeVirtualKeyCode",
        Json::from_int(m.key.vk),
    ).with("modifiers", Json::from_uint(bits))
}

fn key_json(down: bool, key: &str, named: &Option<CdpKey>, bits: u64) -> (r: Json)
    requires
        opt_key(*named) == cdp_key(key@),
    ensures
        r@ == key_event(
            if down {
                "keyDown"@
            } else {
                "keyUp"@
            },
            key@,
            bits,
        ),
{
    let kind = if down {
        "keyDown"
    } else {
        "keyUp"
    };
    proof {
        reveal_strlit("keyDown");
        reveal_strlit("keyUp");
        assert("keyDown"@.len() == 7 && "keyUp"@.len() == 5);
    }
    match named {
        Some(k) => Json::empty().with("type", Json::text(kind)).with(
            "key",
            Json::text(k.key.as_str()),
        ).with("modifiers", Json::from_uint(bits)).with("code", Json::text(k.code.as_str())).with(
            "windowsVirtualKeyCode",
            Json::from_int(k.vk),
        ).with("nativeVirtualKeyCode", Json::from_int(k.vk)),
        None => {
            let base = Json::empty().with("type", Json::text(kind)).with(
                "key",
                Json::text(key),
            ).with("modifiers", Json::from_uint(bits));
            if down && bits & 7 == 0 {
                base.with("text", Json::text(key)).with("unmodifiedText", Json::text(key))
            } else {
                base
            }
        },
    }
}

pub open spec fn events_result(r: Result<Vec<Json>, McpError>) -> Result<Seq<JsonView>, ErrorView> {
    match r {
        Ok(v) => Ok(values(v@)),
        Err(e) => Err(e@),
    }
}

/// The events of the debugging protocol that press a key.
pub fn press_key_cdp(key: &str, names: &Vec<String>) -> (r: Result<Vec<Json>, McpError>)
    ensures
        events_result(r) == cdp_press(key@, texts(names@)),
{
    assert(texts(names@).len() == names@.len());
    let mods = match read_modifiers(names) {
        Ok(v) => v,
        Err(e) => {
            return Err(e);
        },
    };
    let ghost v = modifier_views(mods@);
    let named = cdp_named_key(key);
    if named.is_none() && chars_of(key).len() != 1 {
        return Err(invalid_args(join2("Unsupported key: ", key).as_str()));
    }
    let mut bits: u64 = 0;
    let mut i: usize = 0;
    while i < mods.len()
        invariant
            i <= mods@.len(),
            v == modifier_views(mods@),
            bits == mask(v, i as int),
        decreases mods@.len() - i,
    {
        bits = bits | mods[i].bit;
        i = i + 1;
    }
    let mut out: Vec<Json> = Vec::new();
    let ghost first = downs(v, bits);
    let mut k: usize = 0;
    while k < mods.len()
        invariant
            k <= mods@.len(),
            v == modifier_views(mods@),
            first == downs(v, bits),
            values(out@) =~= first.take(k as int),
        decreases mods@.len() - k,
    {
        let x = modifier_json("keyDown", &mods[k], bits);
        proof {
            lemma_values_push(out@, x);
        }
        out.push(x);
        k = k + 1;
    }
    assert(first.take(first.len() as int) =~= first);
    let down = key_json(true, key, &named, bits);
    let up = key_json(false, key, &named, bits);
    proof {
        lemma_values_push(out@, down);
        lemma_values_push(out@.push(down), up);
    }
    out.push(down);
    out.push(up);
    let ghost mid = values(out@);
    let ghost last = ups(v, bits);
    let mut j: usize = 0;
    assert(mid + last.take(0) =~= mid);
    while j < mods.len()
        invariant
            j <= mods@.len(),
            v == modifier_views(mods@),
            last == ups(v, bits),
            values(out@) == mid + last.take(j as int),
        decreases mods@.len() - j,
    {
        let x = modifier_json("keyUp", &mods[mods.len() - 1 - j], bits);
        proof {
            lemma_values_push(out@, x);
            assert(last[j as int] == x@);
            assert((mid + last.take(j as int)).push(x@) =~= mid + last.take(j as int + 1));
        }
        out.push(x);
        j = j + 1;
    }
    assert(last.take(last.len() as int) =~= last);
    Ok(out)
}

// ---------------------------------------------------------------------------
// The other protocol
// ---------------------------------------------------------------------------

/// A key going down or up.
pub open spec fn bidi_event(kind: Seq<char>, value: Seq<char>) -> JsonView {
    JsonView::empty().with("type"@, JsonView::Str(kind)).with("value"@, JsonView::Str(value))
}

fn bidi_json(kind: &str, value: &str) -> (r: Json)
    ensures
        r@ == bidi_event(kind@, value@),
{
    Json::empty().with("type", Json::text(kind)).with("value", Json::text(value))
}

/// The value of the key itself.
pub open spec fn bidi_value(key: Seq<char>) -> Seq<char> {
    match bidi_key(key) {
        Some(v) => v,
        None => key,
    }
}

/// The actions that press a key, or why it cannot be pressed.
pub open spec fn bidi_press(key: Seq<char>, names: Seq<Seq<char>>) -> Result<
    Seq<JsonView>,
    ErrorView,
> {
    match modifiers_of(names, names.len() as int) {
        Err(e) => Err(e),
        Ok(v) => if !can_press(key) {
            Err(bad_key(key))
        } else {
            Ok(
                v.map_values(|m: ModifierView| bidi_event("keyDown"@, m.value)).push(
                    bidi_event("keyDown"@, bidi_value(key)),
                ).push(bidi_event("keyUp"@, bidi_value(key))) + Seq::new(
                    v.len(),
                    |i: int| bidi_event("keyUp"@, v[v.len() - 1 - i].value),
                ),
            )
        },
    }
}

/// The actions of the other protocol that press a key.
pub fn press_key_bidi(key: &str, names: &Vec<String>) -> (r: Result<Vec<Json>, McpError>)
    ensures
        events_result(r) == bidi_press(key@, texts(names@)),
{
    proof {
        lemma_same_names(key@);
    }
    assert(texts(names@).len() == names@.len());
    let mods = match read_modifiers(names) {
        Ok(v) => v,
        Err(e) => {
            return Err(e);
        },
    };
    let ghost v = modifier_views(mods@);
    let main = match bidi_named_key(key) {
        Some(x) => x,
        None => {
            if chars_of(key).len() != 1 {
                return Err(invalid_args(join2("Unsupported key: ", key).as_str()));
            }
            key.to_owned()
        },
    };
    let mut out: Vec<Json> = Vec::new();
    let ghost first = v.map_values(|m: ModifierView| bidi_event("keyDown"@, m.value));
    let mut k: usize = 0;
    while k < mods.len()
        invariant
            k <= mods@.len(),
            v == modifier_views(mods@),
            first == v.map_values(|m: ModifierView| bidi_event("keyDown"@, m.value)),
            values(out@) =~= first.take(k as int),
        decreases mods@.len() - k,
    {
        let x = bidi_json("keyDown", mods[k].value.as_str());
        proof {
            lemma_values_push(out@, x);
        }
        out.push(x);
        k = k + 1;
    }
    assert(first.take(first.len() as int) =~= first);
    let down = bidi_json("keyDown", main.as_str());
    let up = bidi_json("keyUp", main.as_str());
    proof {
        lemma_values_push(out@, down);
        lemma_values_push(out@.push(down), up);
    }
    out.push(down);
    out.push(up);
    let ghost mid = values(out@);
    let ghost last = Seq::new(
        v.len(),
        |i: int| bidi_event("keyUp"@, v[v.len() - 1 - i].value),
    );
    let mut j: usize = 0;
    assert(mid + last.take(0) =~= mid);
    while j < mods.len()
        invariant
            j <= mods@.len(),
            v == modifier_views(mods@),
            last == Seq::new(v.len(), |i: int| bidi_event("keyUp"@, v[v.len() - 1 - i].value)),
            values(out@) == mid + last.take(j as int),
        decreases mods@.len() - j,
    {
        let x = bidi_json("keyUp", mods[mods.len() - 1 - j].value.as_str());
        proof {
            lemma_values_push(out@, x);
            assert(last[j as int] == x@);
            assert((mid + last.take(j as int)).push(x@) =~= mid + last.take(j as int + 1));
        }
        out.push(x);
        j = j + 1;
    }
    assert(last.take(last.len() as int) =~= last);
    Ok(out)
}

/// The two protocols refuse the same keys for the same reasons, and press the
/// others with as many events: each modifier and the key go down and come up.
pub proof fn lemma_same_presses(key: Seq<char>, names: Seq<Seq<char>>)
    ensures
        cdp_press(key, names) is Err <==> bidi_press(key, names) is Err,
        cdp_press(key, names) is Err ==> cdp_press(key, names)->Err_0 == bidi_press(
            key,
            names,
        )->Err_0,
        cdp_press(key, names) is Ok ==> cdp_press(key, names)->Ok_0.len() == 2 * names.len() + 2
            && bidi_press(key, names)->Ok_0.len() == 2 * names.len() + 2,
{
    lemma_modifiers_len(names, names.len() as int);
}

proof fn lemma_modifiers_len(names: Seq<Seq<char>>, n: int)
    requires
        0 <= n,
    ensures
        modifiers_of(names, n) is Ok ==> modifiers_of(names, n)->Ok_0.len() == n,
    decreases n,
{
    if n > 0 {
        lemma_modifiers_len(names, n - 1);
    }
}

// ---------------------------------------------------------------------------
// Typing
// ---------------------------------------------------------------------------

/// A keystroke.
#[derive(Debug, Clone, Copy, PartialEq, Eq, Structural)]
pub enum Keystroke {
    Char(char),
    Backspace,
}

/// A keystroke, and how long to wait before it, in milliseconds.
#[derive(Debug, Clone, Copy, PartialEq, Eq, Structural)]
pub struct TypingEvent {
    pub delay_ms: u64,
    pub stroke: Keystroke,
}

/// A command of the debugging protocol.
pub open spec fn command(id: u64, method: Seq<char>, params: JsonView) -> JsonView {
    JsonView::empty().with("id"@, JsonView::from_uint(id)).with(
        "method"@,
        JsonView::Str(method),
    ).with("params"@, params)
}

/// A command of the debugging protocol.
pub fn command_json(id: u64, method: &str, params: Json) -> (r: Json)
    ensures
        r@ == command(id, method@, params@),
{
    Json::empty().with("id", Json::from_uint(id)).with("method", Json::text(method)).with(
        "params",
        params,
    )
}

/// The parameters of an event of a typed key.
pub open spec fn stroke_event(down: bool, k: Keystroke) -> JsonView {
    let kind = JsonView::Str(
        if down {
            "keyDown"@
        } else {
            "keyUp"@
        },
    );
    match k {
        Keystroke::Char(c) => {
            let t = JsonView::Str(seq![c]);
            if down {
                JsonView::empty().with("type"@, kind).with("text"@, t).with("key"@, t).with(
                    "unmodifiedText"@,
                    t,
                )
            } else {
                JsonView::empty().with("type"@, kind).with("key"@, t)
            }
        },
        Keystroke::Backspace => JsonView::empty().with("type"@, kind).with(
            "key"@,
            JsonView::Str("Backspace"@),
        ).with("code"@, JsonView::Str("Backspace"@)).with(
            "windowsVirtualKeyCode"@,
            JsonView::from_uint(8),
        ).with("nativeVirtualKeyCode"@, JsonView::from_uint(8)),
    }
}

/// The commands that type the first `n` keystrokes: each key goes down and
/// up, and the commands are numbered from one.
pub open spec fn typing(v: Seq<TypingEvent>, n: int) -> Seq<JsonView>
    decreases n,
{
    if n <= 0 {
        Seq::empty()
    } else {
        typing(v, n - 1).push(
            command(
                (2 * n - 1) as u64,
                "Input.dispatchKeyEvent"@,
                stroke_event(true, v[n - 1].stroke),
            ),
        ).push(
            command(
                (2 * n) as u64,
                "Input.dispatchKeyEvent"@,
                stroke_event(false, v[n - 1].stroke),
            ),
        )
    }
}

fn char_text(c: char) -> (r: String)
    ensures
        r@ == seq![c],
{
    let mut s = String::new();
    s.push(c);
    assert(s@ =~= seq![c]);
    s
}

fn stroke_json(down: bool, k: Keystroke) -> (r: Json)
    ensures
        r@ == stroke_event(down, k),
{
    let kind = if down {
        Json::text("keyDown")
    } else {
        Json::text("keyUp")
    };
    match k {
        Keystroke::Char(c) => {
            let t = char_text(c);
            if down {
                Json::empty().with("type", kind).with("text", Json::text(t.as_str())).with(
                    "key",
                    Json::text(t.as_str()),
                ).with("unmodifiedText", Json::text(t.as_str()))
            } else {
                Json::empty().with("type", kind).with("key", Json::Str(t))
            }
        },
        Keystroke::Backspace => Json::empty().with("type", kind).with(
            "key",
            Json::text("Backspace"),
        ).with("code", Json::text("Backspace")).with("windowsVirtualKeyCode", Json::from_uint(8)).with(
            "nativeVirtualKeyCode",
            Json::from_uint(8),
        ),
    }
}

/// The commands that type a text: two for each keystroke.
pub fn send_human_keystrokes(events: &Vec<TypingEvent>) -> (r: Vec<Json>)
    requires
        events@.len() <= 0x3fff_ffff_ffff_ffff,
    ensures
        values(r@) == typing(events@, events@.len() as int),
        r@.len() == 2 * events@.len(),
{
    let mut out: Vec<Json> = Vec::new();
    let mut id: u64 = 1;
    let mut i: usize = 0;
    assert(values(out@) =~= Seq::<JsonView>::empty());
    while i < events.len()
        invariant
            i <= events@.len() <= 0x3fff_ffff_ffff_ffff,
            id == 2 * i + 1,
            out@.len() == 2 * i,
            values(out@) == typing(events@, i as int),
        decreases events@.len() - i,
    {
        let down = command_json(
            id,
            "Input.dispatchKeyEvent",
            stroke_json(true, events[i].stroke),
        );
        let up = command_json(
            id + 1,
            "Input.dispatchKeyEvent",
            stroke_json(false, events[i].stroke),
        );
        proof {
            lemma_values_push(out@, down);
            lemma_values_push(out@.push(down), up);
        }
        out.push(down);
        out.push(up);
        id = id + 2;
        i = i + 1;
    }
    out
}

/// The value of a keystroke in the other protocol.
pub open spec fn stroke_value(k: Keystroke) -> Seq<char> {
    match k {
        Keystroke::Char(c) => seq![c],
        Keystroke::Backspace => "\u{E003}"@,
    }
}

pub open spec fn pause(ms: u64) -> JsonView {
    JsonView::empty().with("type"@, JsonView::Str("pause"@)).with(
        "duration"@,
        JsonView::from_uint(ms),
    )
}

/// The actions that type the first `n` keystrokes, with the pauses between
/// them.
pub open spec fn bidi_typing(v: Seq<TypingEvent>, n: int) -> Seq<JsonView>
    decreases n,
{
    if n <= 0 {
        Seq::empty()
    } else {
        let before = bidi_typing(v, n - 1);
        let e = v[n - 1];
        let rested = if e.delay_ms > 0 {
            before.push(pause(e.delay_ms))
        } else {
            before
        };
        rested.push(bidi_event("keyDown"@, stroke_value(e.stroke))).push(
            bidi_event("keyUp"@, stroke_value(e.stroke)),
        )
    }
}

/// The actions of the other protocol that type a text.
pub fn send_bidi_keystrokes(events: &Vec<TypingEvent>) -> (r: Vec<Json>)
    ensures
        values(r@) == bidi_typing(events@, events@.len() as int),
{
    let mut out: Vec<Json> = Vec::new();
    let mut i: usize = 0;
    assert(values(out@) =~= Seq::<JsonView>::empty());
    while i < events.len()
        invariant
            i <= events@.len(),
            values(out@) == bidi_typing(events@, i as int),
        decreases events@.len() - i,
    {
        let e = events[i];
        if e.delay_ms > 0 {
            let x = Json::empty().with("type", Json::text("pause")).with(
                "duration",
                Json::from_uint(e.delay_ms),
            );
            proof {
                lemma_values_push(out@, x);
            }
            out.push(x);
        }
        let value = match e.stroke {
            Keystroke::Char(c) => char_text(c),
            Keystroke::Backspace => "\u{E003}".to_owned(),
        };
        let down = bidi_json("keyDown", value.as_str());
        let up = bidi_json("keyUp", value.as_str());
        proof {
            lemma_values_push(out@, down);
            lemma_values_push(out@.push(down), up);
        }
        out.push(down);
        out.push(up);
        i = i + 1;
    }
    out
}

/// The actions that put a text in, without pauses.
pub open spec fn bidi_insert(t: Seq<char>, n: int) -> Seq<JsonView>
    decreases n,
{
    if n <= 0 {
        Seq::empty()
    } else {
        bidi_insert(t, n - 1).push(bidi_event("keyDown"@, seq![t[n - 1]])).push(
            bidi_event("keyUp"@, seq![t[n - 1]]),
        )
    }
}

/// The actions that put a text in, without pauses.
pub fn insert_actions(text: &str) -> (r: Vec<Json>)
    ensures
        values(r@) == bidi_insert(text@, text@.len() as int),
{
    let cs = chars_of(text);
    let mut out: Vec<Json> = Vec::new();
    let mut i: usize = 0;
    assert(values(out@) =~= Seq::<JsonView>::empty());
    while i < cs.len()
        invariant
            i <= cs@.len(),
            cs@ == text@,
            values(out@) == bidi_insert(text@, i as int),
        decreases cs@.len() - i,
    {
        let value = char_text(cs[i]);
        let down = bidi_json("keyDown", value.as_str());
        let up = bidi_json("keyUp", value.as_str());
        proof {
            lemma_values_push(out@, down);
            lemma_values_push(out@.push(down), up);
        }
        out.push(down);
        out.push(up);
        i = i + 1;
    }
    out
}

/// Typing by hand without delays and putting the text in are the same.
pub proof fn lemma_typing_is_inserting(t: Seq<char>, v: Seq<TypingEvent>, n: int)
    requires
        0 <= n <= t.len(),
        v.len() == t.len(),
        forall|i: int|
            0 <= i < t.len() ==> #[trigger] v[i] == (TypingEvent {
                delay_ms: 0,
                stroke: Keystroke::Char(t[i]),
            }),
    ensures
        bidi_typing(v, n) == bidi_insert(t, n),
    decreases n,
{
    if n > 0 {
        lemma_typing_is_inserting(t, v, n - 1);
    }
}

/// Every event that presses a key carries the bits of all the modifiers.
pub proof fn lemma_events_carry_bits(key: Seq<char>, names: Seq<Seq<char>>, i: int)
    requires
        cdp_press(key, names) is Ok,
        0 <= i < cdp_press(key, names)->Ok_0.len(),
    ensures
        ({
            let v = modifiers_of(names, names.len() as int)->Ok_0;
            cdp_press(key, names)->Ok_0[i].field("modifiers"@) == Some(
                JsonView::from_uint(mask(v, v.len() as int)),
            )
        }),
{
    let v = modifiers_of(names, names.len() as int)->Ok_0;
    let bits = mask(v, v.len() as int);
    if i < v.len() {
        lemma_modifier_bits("keyDown"@, v[i], bits);
    } else if i == v.len() {
        lemma_key_bits("keyDown"@, key, bits);
    } else if i == v.len() + 1 {
        lemma_key_bits("keyUp"@, key, bits);
    } else {
        lemma_modifier_bits("keyUp"@, v[v.len() - 1 - (i - v.len() - 2)], bits);
    }
}

proof fn lemma_modifier_bits(kind: Seq<char>, m: ModifierView, bits: u64)
    ensures
        modifier_event(kind, m, bits).field("modifiers"@) == Some(JsonView::from_uint(bits)),
{
    let o = JsonView::empty().with("type"@, JsonView::Str(kind)).with(
        "key"@,
        JsonView::Str(m.key.key),
    ).with("code"@, JsonView::Str(m.key.code)).with(
        "windowsVirtualKeyCode"@,
        JsonView::from_int(m.key.vk),
    ).with("nativeVirtualKeyCode"@, JsonView::from_int(m.key.vk));
    lemma_field_with(o, "modifiers"@, JsonView::from_uint(bits), "modifiers"@);
}

proof fn lemma_key_bits(kind: Seq<char>, key: Seq<char>, bits: u64)
    ensures
        key_event(kind, key, bits).field("modifiers"@) == Some(JsonView::from_uint(bits)),
{
    reveal_strlit("modifiers");
    reveal_strlit("code");
    reveal_strlit("text");
    reveal_strlit("windowsVirtualKeyCode");
    reveal_strlit("nativeVirtualKeyCode");
    reveal_strlit("unmodifiedText");
    let bv = JsonView::from_uint(bits);
    let name = match cdp_key(key) {
        Some(k) => k.key,
        None => key,
    };
    let o = JsonView::empty().with("type"@, JsonView::Str(kind)).with("key"@, JsonView::Str(name));
    let a = o.with("modifiers"@, bv);
    lemma_field_with(o, "modifiers"@, bv, "modifiers"@);
    match cdp_key(key) {
        Some(k) => {
            let b = a.with("code"@, JsonView::Str(k.code));
            let c = b.with("windowsVirtualKeyCode"@, JsonView::from_int(k.vk));
            lemma_field_with(a, "code"@, JsonView::Str(k.code), "modifiers"@);
            lemma_field_with(
                b,
                "windowsVirtualKeyCode"@,
                JsonView::from_int(k.vk),
                "modifiers"@,
            );
            lemma_field_with(c, "nativeVirtualKeyCode"@, JsonView::from_int(k.vk), "modifiers"@);
        },
        None => {
            let b = a.with("text"@, JsonView::Str(key));
            lemma_field_with(a, "text"@, JsonView::Str(key), "modifiers"@);
            lemma_field_with(b, "unmodifiedText"@, JsonView::Str(key), "modifiers"@);
        },
    }
}

} // verus!
