//! What pressing keys and typing come to, event by event.
use vstd::prelude::*;

use crate::json::{lemma_with_field, lemma_with_object};
use crate::keys::{
    bidi_insert, bidi_key, bidi_press, bidi_typing, cdp_key, cdp_press, key_event, mask, modifier,
    modifiers_of, stroke_event, typing, Keystroke, ModifierView, TypingEvent,
};

verus! {

proof fn lemma_event_fields()
    ensures
        "type"@.len() == 4 && "type"@[0] == 't' && "type"@[1] == 'y',
        "text"@.len() == 4 && "text"@[0] == 't' && "text"@[1] == 'e',
        "key"@.len() == 3,
        "code"@.len() == 4 && "code"@[0] == 'c',
        "windowsVirtualKeyCode"@.len() == 21,
        "nativeVirtualKeyCode"@.len() == 20,
        "modifiers"@.len() == 9,
        "unmodifiedText"@.len() == 14,
        "id"@.len() == 2,
        "method"@.len() == 6 && "method"@[0] == 'm',
        "params"@.len() == 6 && "params"@[0] == 'p',
        "value"@.len() == 5,
        "duration"@.len() == 8,
        "keyDown"@.len() == 7,
        "keyUp"@.len() == 5 && "keyUp"@[0] == 'k',
        "pause"@.len() == 5 && "pause"@[0] == 'p',
{
    reveal_strlit("type");
    reveal_strlit("text");
    reveal_strlit("key");
    reveal_strlit("code");
    reveal_strlit("windowsVirtualKeyCode");
    reveal_strlit("nativeVirtualKeyCode");
    reveal_strlit("modifiers");
    reveal_strlit("unmodifiedText");
    reveal_strlit("id");
    reveal_strlit("method");
    reveal_strlit("params");
    reveal_strlit("value");
    reveal_strlit("duration");
    reveal_strlit("keyDown");
    reveal_strlit("keyUp");
    reveal_strlit("pause");
}

proof fn lemma_modifiers_named(names: Seq<Seq<char>>, n: int)
    requires
        0 <= n <= names.len(),
    ensures
        modifiers_of(names, n) is Ok ==> modifiers_of(names, n)->Ok_0.len() == n && forall|i: int|
            0 <= i < n ==> modifier(#[trigger] names[i]) == Some(modifiers_of(names, n)->Ok_0[i]),
        modifiers_of(names, n) is Err ==> exists|i: int|
            0 <= i < n && modifier(#[trigger] names[i]) is None,
    decreases n,
{
    if n > 0 {
        lemma_modifiers_named(names, n - 1);
        if modifiers_of(names, n) is Err && modifiers_of(names, n - 1) is Ok {
            assert(modifier(names[n - 1]) is None);
        }
    }
}

/// A key is pressed under its modifiers: they go down in their order, then the key
/// goes down and comes up, then they come up in the opposite order. Each event names
/// its key. Nothing is pressed where a modifier is not known, or the key is neither
/// known nor a single character.
pub proof fn lemma_press_in_order(key: Seq<char>, names: Seq<Seq<char>>, i: int)
    requires
        0 <= i < names.len() || names.len() == 0,
    ensures
        cdp_press(key, names) is Ok <==> (cdp_key(key) is Some || key.len() == 1) && forall|j: int|
            0 <= j < names.len() ==> modifier(#[trigger] names[j]) is Some,
        cdp_press(key, names) is Ok ==> ({
            let e = cdp_press(key, names)->Ok_0;
            let n = names.len() as int;
            let named = match cdp_key(key) {
                Some(k) => k.key,
                None => key,
            };
            &&& e.len() == 2 * n + 2
            &&& e[n].field_str("type"@) == Some("keyDown"@)
            &&& e[n].field_str("key"@) == Some(named)
            &&& e[n + 1].field_str("type"@) == Some("keyUp"@)
            &&& e[n + 1].field_str("key"@) == Some(named)
            &&& 0 <= i < n ==> e[i].field_str("type"@) == Some("keyDown"@) && e[i].field_str("key"@)
                == Some((modifier(names[i])->0).key.key) && e[2 * n + 1 - i].field_str("type"@)
                == Some("keyUp"@) && e[2 * n + 1 - i].field_str("key"@) == Some(
                (modifier(names[i])->0).key.key,
            )
        }),
{
    broadcast use {lemma_with_field, lemma_with_object};

    lemma_event_fields();
    lemma_modifiers_named(names, names.len() as int);
    if forall|j: int| 0 <= j < names.len() ==> modifier(#[trigger] names[j]) is Some {
        assert(modifiers_of(names, names.len() as int) is Ok);
    }
}

/// The bits that the events of a press carry are those of all the modifiers that are
/// held, and of no other: one for alt, two for control, four for meta, and eight for
/// shift.
pub proof fn lemma_press_bits(v: Seq<ModifierView>, n: int, b: u64)
    requires
        0 <= n <= v.len(),
        b == 1 || b == 2 || b == 4 || b == 8,
        forall|i: int|
            0 <= i < n ==> ((#[trigger] v[i]).bit == 1 || v[i].bit == 2 || v[i].bit == 4 || v[i].bit
                == 8),
    ensures
        mask(v, n) & b != 0 <==> exists|i: int| 0 <= i < n && (#[trigger] v[i]).bit == b,
    decreases n,
{
    if n > 0 {
        lemma_press_bits(v, n - 1, b);
        let m = mask(v, n - 1);
        let x = v[n - 1].bit;
        assert((m | x) & b == (m & b) | (x & b)) by (bit_vector);
        assert(x == b ==> x & b != 0) by (bit_vector)
            requires
                b == 1 || b == 2 || b == 4 || b == 8,
        ;
        assert(x != b ==> x & b == 0) by (bit_vector)
            requires
                b == 1 || b == 2 || b == 4 || b == 8,
                x == 1 || x == 2 || x == 4 || x == 8,
        ;
        let p = m & b;
        let q = x & b;
        assert(p | q != 0 <==> p != 0 || q != 0) by (bit_vector);
        if exists|i: int| 0 <= i < n && (#[trigger] v[i]).bit == b {
            let i = choose|i: int| 0 <= i < n && (#[trigger] v[i]).bit == b;
            if i < n - 1 {
                assert(v[i].bit == b);
            }
        }
    } else {
        assert(0u64 & b == 0) by (bit_vector);
    }
}

/// Each modifier has its bit, under each of its names.
pub proof fn lemma_modifier_bits()
    ensures
        modifier("Alt"@) is Some && (modifier("Alt"@)->0).bit == 1,
        modifier("Control"@) is Some && (modifier("Control"@)->0).bit == 2,
        modifier("Ctrl"@) == modifier("Control"@),
        modifier("Meta"@) is Some && (modifier("Meta"@)->0).bit == 4,
        modifier("Shift"@) is Some && (modifier("Shift"@)->0).bit == 8,
{
    reveal_strlit("Alt");
    reveal_strlit("Control");
    reveal_strlit("Ctrl");
    reveal_strlit("Meta");
    reveal_strlit("Shift");
    reveal_strlit("Option");
    assert("Alt"@.len() == 3 && "Control"@.len() == 7 && "Ctrl"@.len() == 4 && "Meta"@.len() == 4);
    assert("Shift"@.len() == 5 && "Option"@.len() == 6);
    assert("Ctrl"@[0] == 'C' && "Meta"@[0] == 'M');
}

/// A single character that is pressed puts itself in, as long as no modifier is held
/// but shift; with another it puts nothing in, and coming up it never does.
pub proof fn lemma_press_text(key: Seq<char>, bits: u64)
    requires
        cdp_key(key) is None,
    ensures
        bits & 7 == 0 ==> key_event("keyDown"@, key, bits).field_str("text"@) == Some(key),
        bits & 7 != 0 ==> key_event("keyDown"@, key, bits).field("text"@) is None,
        key_event("keyUp"@, key, bits).field("text"@) is None,
        0u64 & 7 == 0,
        8u64 & 7 == 0,
        1u64 & 7 != 0,
        2u64 & 7 != 0,
        4u64 & 7 != 0,
{
    broadcast use {lemma_with_field, lemma_with_object};

    lemma_event_fields();
    assert(0u64 & 7 == 0 && 8u64 & 7 == 0 && 1u64 & 7 != 0 && 2u64 & 7 != 0 && 4u64 & 7 != 0)
        by (bit_vector);
}

/// The named keys have the numbers that keyboards give them, and the other names of a
/// key stand for the same key.
pub proof fn lemma_named_keys()
    ensures
        cdp_key("Enter"@) is Some && (cdp_key("Enter"@)->0).vk == 13,
        cdp_key("Tab"@) is Some && (cdp_key("Tab"@)->0).vk == 9,
        cdp_key("Escape"@) is Some && (cdp_key("Escape"@)->0).vk == 27,
        cdp_key("Backspace"@) is Some && (cdp_key("Backspace"@)->0).vk == 8,
        cdp_key("Delete"@) is Some && (cdp_key("Delete"@)->0).vk == 46,
        cdp_key("ArrowUp"@) is Some && (cdp_key("ArrowUp"@)->0).vk == 38,
        cdp_key("ArrowDown"@) is Some && (cdp_key("ArrowDown"@)->0).vk == 40,
        cdp_key("ArrowLeft"@) is Some && (cdp_key("ArrowLeft"@)->0).vk == 37,
        cdp_key("ArrowRight"@) is Some && (cdp_key("ArrowRight"@)->0).vk == 39,
        cdp_key("Home"@) is Some && (cdp_key("Home"@)->0).vk == 36,
        cdp_key("End"@) is Some && (cdp_key("End"@)->0).vk == 35,
        cdp_key("PageUp"@) is Some && (cdp_key("PageUp"@)->0).vk == 33,
        cdp_key("PageDown"@) is Some && (cdp_key("PageDown"@)->0).vk == 34,
        cdp_key("Space"@) is Some && (cdp_key("Space"@)->0).vk == 32,
        cdp_key("Esc"@) == cdp_key("Escape"@) && bidi_key("Esc"@) == bidi_key("Escape"@),
        cdp_key("Del"@) == cdp_key("Delete"@) && bidi_key("Del"@) == bidi_key("Delete"@),
        cdp_key("Up"@) == cdp_key("ArrowUp"@) && bidi_key("Up"@) == bidi_key("ArrowUp"@),
        cdp_key("Down"@) == cdp_key("ArrowDown"@) && bidi_key("Down"@) == bidi_key("ArrowDown"@),
        cdp_key("Left"@) == cdp_key("ArrowLeft"@) && bidi_key("Left"@) == bidi_key("ArrowLeft"@),
        cdp_key("Right"@) == cdp_key("ArrowRight"@) && bidi_key("Right"@) == bidi_key(
            "ArrowRight"@,
        ),
        bidi_key("Enter"@) == Some("\u{E007}"@),
        bidi_key("Tab"@) == Some("\u{E004}"@),
        bidi_key("Escape"@) == Some("\u{E00C}"@),
        bidi_key("Backspace"@) == Some("\u{E003}"@),
        bidi_key("Delete"@) == Some("\u{E017}"@),
        bidi_key("ArrowUp"@) == Some("\u{E013}"@),
        bidi_key("ArrowDown"@) == Some("\u{E015}"@),
        bidi_key("ArrowLeft"@) == Some("\u{E012}"@),
        bidi_key("ArrowRight"@) == Some("\u{E014}"@),
{
    lemma_key_names();
}

/// In the other protocol, too, a key goes down and comes up between its modifiers,
/// which go down in their order and come up in the opposite one.
pub proof fn lemma_bidi_press_in_order(key: Seq<char>, names: Seq<Seq<char>>, i: int)
    requires
        bidi_press(key, names) is Ok,
        0 <= i < names.len() || names.len() == 0,
    ensures
        ({
            let e = bidi_press(key, names)->Ok_0;
            let n = names.len() as int;
            let value = match bidi_key(key) {
                Some(v) => v,
                None => key,
            };
            &&& e.len() == 2 * n + 2
            &&& e[n].field_str("type"@) == Some("keyDown"@)
            &&& e[n].field_str("value"@) == Some(value)
            &&& e[n + 1].field_str("type"@) == Some("keyUp"@)
            &&& e[n + 1].field_str("value"@) == Some(value)
            &&& 0 <= i < n ==> e[i].field_str("type"@) == Some("keyDown"@) && e[i].field_str(
                "value"@,
            ) == Some((modifier(names[i])->0).value) && e[2 * n + 1 - i].field_str("type"@) == Some(
                "keyUp"@,
            ) && e[2 * n + 1 - i].field_str("value"@) == Some((modifier(names[i])->0).value)
        }),
{
    broadcast use {lemma_with_field, lemma_with_object};

    lemma_event_fields();
    lemma_modifiers_named(names, names.len() as int);
}

/// Typing sends two commands for each keystroke, in their order and numbered one
/// after the other: the key goes down, which puts its character in, and comes up.
pub proof fn lemma_typed(v: Seq<TypingEvent>, n: int, i: int, c: char)
    requires
        0 <= i < n <= v.len(),
        2 * n <= u64::MAX,
        v[i].stroke == Keystroke::Char(c),
    ensures
        ({
            let t = typing(v, n);
            &&& t.len() == 2 * n
            &&& t[2 * i].field_uint("id"@) == Some((2 * i + 1) as u64)
            &&& t[2 * i + 1].field_uint("id"@) == Some((2 * i + 2) as u64)
            &&& t[2 * i].field_str("method"@) == Some("Input.dispatchKeyEvent"@)
            &&& t[2 * i].field("params"@) is Some
            &&& (t[2 * i].field("params"@)->0).field_str("type"@) == Some("keyDown"@)
            &&& (t[2 * i].field("params"@)->0).field_str("text"@) == Some(seq![c])
            &&& t[2 * i + 1].field("params"@) is Some
            &&& (t[2 * i + 1].field("params"@)->0).field_str("type"@) == Some("keyUp"@)
            &&& (t[2 * i + 1].field("params"@)->0).field_str("key"@) == Some(seq![c])
            &&& (t[2 * i + 1].field("params"@)->0).field("text"@) is None
        }),
    decreases n,
{
    broadcast use {lemma_with_field, lemma_with_object};

    lemma_event_fields();
    lemma_typing_len(v, n - 1);
    if i < n - 1 {
        lemma_typed(v, n - 1, i, c);
        let before = typing(v, n - 1);
        assert(typing(v, n)[2 * i] == before[2 * i]);
        assert(typing(v, n)[2 * i + 1] == before[2 * i + 1]);
    }
}

proof fn lemma_typing_len(v: Seq<TypingEvent>, n: int)
    requires
        0 <= n,
    ensures
        typing(v, n).len() == 2 * n,
    decreases n,
{
    if n > 0 {
        lemma_typing_len(v, n - 1);
    }
}

/// A step back takes a character away: it is the key of that name, and puts nothing
/// in.
pub proof fn lemma_typed_back(down: bool)
    ensures
        stroke_event(down, Keystroke::Backspace).field_str("key"@) == Some("Backspace"@),
        stroke_event(down, Keystroke::Backspace).field_uint("windowsVirtualKeyCode"@) == Some(8u64),
        stroke_event(down, Keystroke::Backspace).field("text"@) is None,
        stroke_event(down, Keystroke::Backspace).field_str("type"@) == Some(
            if down {
                "keyDown"@
            } else {
                "keyUp"@
            },
        ),
{
    broadcast use {lemma_with_field, lemma_with_object};

    lemma_event_fields();
}

/// With one more keystroke, typing in the other protocol rests as long as the
/// keystroke says, where it says so, and then presses and releases the key.
pub proof fn lemma_bidi_typed(v: Seq<TypingEvent>, e: TypingEvent)
    ensures
        ({
            let before = bidi_typing(v, v.len() as int);
            let now = bidi_typing(v.push(e), v.len() as int + 1);
            let m = now.len() as int;
            let value = match e.stroke {
                Keystroke::Char(c) => seq![c],
                Keystroke::Backspace => "\u{E003}"@,
            };
            &&& m == before.len() + if e.delay_ms > 0 {
                3int
            } else {
                2
            }
            &&& before.is_prefix_of(now)
            &&& e.delay_ms > 0 ==> now[m - 3].field_str("type"@) == Some("pause"@) && now[m
                - 3].field_uint("duration"@) == Some(e.delay_ms)
            &&& now[m - 2].field_str("type"@) == Some("keyDown"@)
            &&& now[m - 2].field_str("value"@) == Some(value)
            &&& now[m - 1].field_str("type"@) == Some("keyUp"@)
            &&& now[m - 1].field_str("value"@) == Some(value)
        }),
{
    broadcast use {lemma_with_field, lemma_with_object};

    lemma_event_fields();
    lemma_bidi_front(v, e, v.len() as int);
    assert(v.push(e)[v.len() as int] == e);
    let before = bidi_typing(v, v.len() as int);
    let now = bidi_typing(v.push(e), v.len() as int + 1);
    assert(before =~= now.take(before.len() as int));
}

proof fn lemma_bidi_front(v: Seq<TypingEvent>, e: TypingEvent, n: int)
    requires
        n <= v.len(),
    ensures
        bidi_typing(v.push(e), n) == bidi_typing(v, n),
    decreases n,
{
    if n > 0 {
        lemma_bidi_front(v, e, n - 1);
        assert(v.push(e)[n - 1] == v[n - 1]);
    }
}

/// Putting a text in presses and releases each of its characters, in their order.
pub proof fn lemma_inserted(t: Seq<char>, n: int, i: int)
    requires
        0 <= i < n <= t.len(),
    ensures
        bidi_insert(t, n).len() == 2 * n,
        bidi_insert(t, n)[2 * i].field_str("type"@) == Some("keyDown"@),
        bidi_insert(t, n)[2 * i].field_str("value"@) == Some(seq![t[i]]),
        bidi_insert(t, n)[2 * i + 1].field_str("type"@) == Some("keyUp"@),
        bidi_insert(t, n)[2 * i + 1].field_str("value"@) == Some(seq![t[i]]),
    decreases n,
{
    broadcast use {lemma_with_field, lemma_with_object};

    lemma_event_fields();
    lemma_insert_len(t, n - 1);
    if i < n - 1 {
        lemma_inserted(t, n - 1, i);
        let before = bidi_insert(t, n - 1);
        assert(bidi_insert(t, n)[2 * i] == before[2 * i]);
        assert(bidi_insert(t, n)[2 * i + 1] == before[2 * i + 1]);
    }
}

proof fn lemma_insert_len(t: Seq<char>, n: int)
    requires
        0 <= n,
    ensures
        bidi_insert(t, n).len() == 2 * n,
    decreases n,
{
    if n > 0 {
        lemma_insert_len(t, n - 1);
    }
}

proof fn lemma_key_names()
    ensures
        "Enter"@.len() == 5 && "Enter"@[0] == 'E',
        "Tab"@.len() == 3 && "Tab"@[1] == 'a',
        "Escape"@.len() == 6 && "Escape"@[0] == 'E',
        "Esc"@.len() == 3 && "Esc"@[1] == 's',
        "Backspace"@.len() == 9 && "Backspace"@[5] == 'p',
        "Delete"@.len() == 6 && "Delete"@[0] == 'D',
        "Del"@.len() == 3 && "Del"@[1] == 'e',
        "ArrowUp"@.len() == 7,
        "Up"@.len() == 2,
        "ArrowDown"@.len() == 9 && "ArrowDown"@[5] == 'D',
        "Down"@.len() == 4 && "Down"@[0] == 'D',
        "ArrowLeft"@.len() == 9 && "ArrowLeft"@[5] == 'L',
        "Left"@.len() == 4 && "Left"@[0] == 'L',
        "ArrowRight"@.len() == 10,
        "Right"@.len() == 5 && "Right"@[0] == 'R',
        "Home"@.len() == 4 && "Home"@[0] == 'H',
        "End"@.len() == 3 && "End"@[1] == 'n',
        "PageUp"@.len() == 6 && "PageUp"@[0] == 'P',
        "PageDown"@.len() == 8,
        "Space"@.len() == 5 && "Space"@[0] == 'S',
{
    reveal_strlit("Enter");
    reveal_strlit("Tab");
    reveal_strlit("Escape");
    reveal_strlit("Esc");
    reveal_strlit("Backspace");
    reveal_strlit("Delete");
    reveal_strlit("Del");
    reveal_strlit("ArrowUp");
    reveal_strlit("Up");
    reveal_strlit("ArrowDown");
    reveal_strlit("Down");
    reveal_strlit("ArrowLeft");
    reveal_strlit("Left");
    reveal_strlit("ArrowRight");
    reveal_strlit("Right");
    reveal_strlit("Home");
    reveal_strlit("End");
    reveal_strlit("PageUp");
    reveal_strlit("PageDown");
    reveal_strlit("Space");
}

} // verus!
