//! What filling in comes to: what each filter makes of a value, and what a token
//! stands for.
use vstd::prelude::*;

use crate::interpolate::{
    as_double, choice, filled, filled_fields, filled_from, filled_items, filled_value, filter_chain,
    filter_trace, filtered, grouped, is_filter, path_value, resolved, spacing, token_text,
    ScopeView, TraceView, Whole,
};
use crate::json::{json_parsed, plain, render};
use crate::map::lookup;
use crate::text::{
    after_prefix, dec, first_at, lemma_cut_once, lemma_dec_digits, lemma_dec_value,
    lemma_filter_push, lemma_first_at, lemma_split_halves, lemma_split_parts, lemma_split_single,
    lower_case, occurs, one_of, split, starts, trim, unsigned_upto, upper_case, white_space,
};
use crate::value::{JsonView, NumberView};

verus! {

// ---------------------------------------------------------------------------
// Filters
// ---------------------------------------------------------------------------

proof fn lemma_filter_names()
    ensures
        "length"@.len() == 6,
        "upper"@.len() == 5 && "upper"@[0] == 'u',
        "lower"@.len() == 5 && "lower"@[0] == 'l',
        "truncate"@.len() == 8,
        "join"@.len() == 4 && "join"@[1] == 'o',
        "first"@.len() == 5 && "first"@[0] == 'f',
        "last"@.len() == 4 && "last"@[1] == 'a',
        "json"@.len() == 4 && "json"@[1] == 's',
        "format_vnd"@.len() == 10,
{
    reveal_strlit("length");
    reveal_strlit("upper");
    reveal_strlit("lower");
    reveal_strlit("truncate");
    reveal_strlit("join");
    reveal_strlit("first");
    reveal_strlit("last");
    reveal_strlit("json");
    reveal_strlit("format_vnd");
}

/// The filter `last` gives the item that a list ends with, and `first` the one
/// that it begins with, whatever else is in the list. An empty list has neither,
/// and what is no list stays as it is.
pub proof fn lemma_first_and_last(
    a: Seq<JsonView>,
    x: JsonView,
    v: JsonView,
    arg: Option<Seq<char>>,
    readings: Seq<(Seq<char>, Whole)>,
)
    ensures
        filtered("last"@, arg, JsonView::Array(a.push(x)), readings) == x,
        filtered("first"@, arg, JsonView::Array(seq![x] + a), readings) == x,
        a.len() > 0 ==> filtered("last"@, arg, JsonView::Array(a), readings) == a[a.len() - 1],
        a.len() > 0 ==> filtered("first"@, arg, JsonView::Array(a), readings) == a[0],
        a.len() == 0 ==> filtered("last"@, arg, JsonView::Array(a), readings) == JsonView::Null,
        a.len() == 0 ==> filtered("first"@, arg, JsonView::Array(a), readings) == JsonView::Null,
        !(v is Array) ==> filtered("last"@, arg, v, readings) == v,
        !(v is Array) ==> filtered("first"@, arg, v, readings) == v,
{
    lemma_filter_names();
}

/// The filter `length` counts the items of a list and the characters of a text:
/// none in an empty one, and one more with each that is added. Nothing else has a
/// length.
pub proof fn lemma_length(
    a: Seq<JsonView>,
    x: JsonView,
    s: Seq<char>,
    v: JsonView,
    arg: Option<Seq<char>>,
    readings: Seq<(Seq<char>, Whole)>,
)
    requires
        a.len() < u64::MAX,
        s.len() <= u64::MAX,
    ensures
        filtered("length"@, arg, JsonView::Array(Seq::empty()), readings) == JsonView::from_uint(0),
        filtered("length"@, arg, JsonView::Array(a), readings) == JsonView::from_uint(
            a.len() as u64,
        ),
        filtered("length"@, arg, JsonView::Array(a.push(x)), readings) == JsonView::from_uint(
            (a.len() + 1) as u64,
        ),
        filtered("length"@, arg, JsonView::Str(s), readings) == JsonView::from_uint(
            s.len() as u64,
        ),
        !(v is Array) && !(v is Str) ==> filtered("length"@, arg, v, readings)
            == JsonView::from_uint(0),
{
    lemma_filter_names();
}

/// The filter `join` puts the items of a list behind one another with the
/// argument between them, or a comma where there is none.
pub proof fn lemma_join(
    a: Seq<JsonView>,
    x: JsonView,
    v: JsonView,
    arg: Option<Seq<char>>,
    readings: Seq<(Seq<char>, Whole)>,
)
    ensures
        filtered("join"@, arg, JsonView::Array(Seq::empty()), readings) == JsonView::Str(
            Seq::empty(),
        ),
        filtered("join"@, arg, JsonView::Array(seq![x]), readings) == JsonView::Str(plain(x)),
        a.len() > 0 ==> ({
            let sep = match arg {
                Some(s) => s,
                None => ","@,
            };
            filtered("join"@, arg, JsonView::Array(a.push(x)), readings) == JsonView::Str(
                plain(filtered("join"@, arg, JsonView::Array(a), readings)) + sep + plain(x),
            )
        }),
        !(v is Array) ==> filtered("join"@, arg, v, readings) == v,
{
    lemma_filter_names();
    let f = |y: JsonView| plain(y);
    assert(Seq::<JsonView>::empty().map_values(f) =~= Seq::<Seq<char>>::empty());
    assert(seq![x].map_values(f) =~= seq![plain(x)]);
    let all = a.push(x).map_values(f);
    assert(all.drop_last() =~= a.map_values(f));
    assert(all.last() == plain(x));
}

/// The filter `truncate` keeps a text that is not longer than the argument says,
/// or 100 characters where it says nothing. Of a longer one it keeps that many
/// characters from the front and puts three dots behind them.
pub proof fn lemma_truncate(
    v: JsonView,
    n: nat,
    arg: Option<Seq<char>>,
    readings: Seq<(Seq<char>, Whole)>,
)
    requires
        n <= usize::MAX,
        arg == Some(dec(n)) || (n == 100 && (arg is None || unsigned_upto(
            arg->0,
            usize::MAX as nat,
        ) is None)),
    ensures
        plain(v).len() <= n ==> filtered("truncate"@, arg, v, readings) == JsonView::Str(plain(v)),
        plain(v).len() > n ==> ({
            let t = plain(filtered("truncate"@, arg, v, readings));
            &&& filtered("truncate"@, arg, v, readings) is Str
            &&& t.len() == n + 3
            &&& t.take(n as int) == plain(v).take(n as int)
            &&& t.skip(n as int) == seq!['.', '.', '.']
        }),
{
    lemma_filter_names();
    lemma_dec_value(n);
    reveal_strlit("...");
    let t = plain(filtered("truncate"@, arg, v, readings));
    if plain(v).len() > n {
        assert(t.take(n as int) =~= plain(v).take(n as int));
        assert(t.skip(n as int) =~= seq!['.', '.', '.']);
    }
}

/// The filters `upper` and `lower` give the text of a value in the one case or the
/// other, and `json` gives its notation, of a text too.
pub proof fn lemma_cases(
    v: JsonView,
    s: Seq<char>,
    arg: Option<Seq<char>>,
    readings: Seq<(Seq<char>, Whole)>,
)
    ensures
        filtered("upper"@, arg, JsonView::Str(s), readings) == JsonView::Str(upper_case(s)),
        filtered("lower"@, arg, JsonView::Str(s), readings) == JsonView::Str(lower_case(s)),
        plain(filtered("upper"@, arg, v, readings)) == upper_case(plain(v)),
        plain(filtered("lower"@, arg, v, readings)) == lower_case(plain(v)),
        filtered("json"@, arg, v, readings) == JsonView::Str(render(v)),
{
    lemma_filter_names();
}

spec fn no_dot() -> spec_fn(char) -> bool {
    |c: char| c != '.'
}

/// The filter `format_vnd` writes a whole number with a dot before every three
/// digits from the end and the sign of the currency behind: without the dots it
/// is the number.
pub proof fn lemma_format_vnd(n: u64, arg: Option<Seq<char>>, readings: Seq<(Seq<char>, Whole)>)
    requires
        n < 9007199254740992,
    ensures
        ({
            let t = plain(
                filtered("format_vnd"@, arg, JsonView::Number(NumberView::PosInt(n)), readings),
            );
            let m = t.len() - " ₫"@.len();
            &&& 0 <= m
            &&& t.skip(m) == " ₫"@
            &&& t.take(m).filter(|c: char| c != '.') == dec(n as nat)
            &&& forall|i: int| 0 <= i < m ==> (#[trigger] t[i] == '.' <==> (m - i) % 4 == 0)
            &&& t[0] != '.'
        }),
{
    lemma_filter_names();
    let v = JsonView::Number(NumberView::PosInt(n));
    let t = plain(filtered("format_vnd"@, arg, v, readings));
    assert(spacing(n as int, 1) == 1);
    assert(as_double(n as int) == n) by {
        assert(n as int / 1 == n as int && n as int % 1 == 0);
    }
    let digits = dec(n as nat);
    let g = grouped(digits);
    assert(t == g + " ₫"@);
    lemma_dec_value(n as nat);
    assert forall|i: int| 0 <= i < digits.len() implies #[trigger] digits[i] != '.' by {
        lemma_dec_digits(n as nat, i);
    }
    lemma_grouped(digits);
    let m = t.len() - " ₫"@.len();
    assert(t.take(m) =~= g);
    assert(t.skip(m) =~= " ₫"@);
    assert(no_dot() =~= (|c: char| c != '.'));
    assert forall|i: int| 0 <= i < m implies (#[trigger] t[i] == '.' <==> (m - i) % 4 == 0) by {
        assert(t[i] == g[i]);
    }
}

proof fn lemma_filter_all(s: Seq<char>)
    requires
        forall|i: int| 0 <= i < s.len() ==> #[trigger] s[i] != '.',
    ensures
        s.filter(no_dot()) == s,
    decreases s.len(),
{
    reveal(Seq::filter);
    if s.len() > 0 {
        let t = s.drop_last();
        assert forall|i: int| 0 <= i < t.len() implies #[trigger] t[i] != '.' by {
            assert(s[i] != '.');
        }
        lemma_filter_all(t);
        assert(s[s.len() - 1] != '.');
        assert(t.push(s.last()) =~= s);
    } else {
        assert(s.filter(no_dot()) =~= s);
    }
}

proof fn lemma_filter_add(a: Seq<char>, b: Seq<char>)
    ensures
        (a + b).filter(no_dot()) == a.filter(no_dot()) + b.filter(no_dot()),
    decreases b.len(),
{
    reveal(Seq::filter);
    if b.len() == 0 {
        assert(a + b =~= a);
        assert(a.filter(no_dot()) + b.filter(no_dot()) =~= a.filter(no_dot()));
    } else {
        let t = b.drop_last();
        lemma_filter_add(a, t);
        assert((a + b).drop_last() =~= a + t);
        lemma_filter_push(a + t, b.last(), no_dot());
        lemma_filter_push(t, b.last(), no_dot());
        assert((a + t).push(b.last()) =~= a + b);
        assert(t.push(b.last()) =~= b);
        assert((a + b).filter(no_dot()) =~= a.filter(no_dot()) + b.filter(no_dot()));
    }
}

proof fn lemma_dot_dropped()
    ensures
        "."@.filter(no_dot()) == Seq::<char>::empty(),
{
    reveal_strlit(".");
    let none = Seq::<char>::empty();
    lemma_filter_all(none);
    lemma_filter_push(none, '.', no_dot());
    assert("."@ =~= none.push('.'));
}

proof fn lemma_grouped(d: Seq<char>)
    requires
        d.len() > 0,
        forall|i: int| 0 <= i < d.len() ==> #[trigger] d[i] != '.',
    ensures
        grouped(d).len() > 0,
        grouped(d)[0] == d[0],
        grouped(d).filter(no_dot()) == d,
        forall|i: int|
            0 <= i < grouped(d).len() ==> (#[trigger] grouped(d)[i] == '.' <==> (grouped(d).len()
                - i) % 4 == 0),
    decreases d.len(),
{
    reveal_strlit(".");
    let g = grouped(d);
    if d.len() <= 3 {
        lemma_filter_all(d);
    } else {
        let head = d.take(d.len() - 3);
        let tail = d.skip(d.len() - 3);
        assert forall|i: int| 0 <= i < head.len() implies #[trigger] head[i] != '.' by {
            assert(d[i] != '.');
        }
        assert forall|i: int| 0 <= i < tail.len() implies #[trigger] tail[i] != '.' by {
            assert(d[d.len() - 3 + i] != '.');
        }
        lemma_grouped(head);
        let gh = grouped(head);
        lemma_filter_all(tail);
        lemma_filter_add(gh, "."@);
        lemma_filter_add(gh + "."@, tail);
        lemma_dot_dropped();
        assert(g == gh + "."@ + tail);
        assert(head + Seq::<char>::empty() + tail =~= d);
        assert forall|i: int| 0 <= i < g.len() implies (#[trigger] g[i] == '.' <==> (g.len() - i)
            % 4 == 0) by {
            if i < gh.len() {
                assert(g[i] == gh[i]);
                assert((gh.len() - i) % 4 == 0 <==> (g.len() - i) % 4 == 0);
            } else if i == gh.len() {
            } else {
                assert(g[i] == tail[i - gh.len() - 1]);
            }
        }
    }
}

/// In a text, a text stands for itself, null for nothing, and a truth value or a
/// whole number for its usual notation.
pub proof fn lemma_plain(s: Seq<char>, n: u64, k: i64)
    requires
        k < 0,
    ensures
        plain(JsonView::Str(s)) == s,
        plain(JsonView::Null) == Seq::<char>::empty(),
        plain(JsonView::Bool(true)) == "true"@,
        plain(JsonView::Bool(false)) == "false"@,
        crate::text::unsigned_value(plain(JsonView::from_uint(n))) == Some(n as nat),
        crate::text::signed_value(plain(JsonView::from_int(k))) == Some(k as int),
{
    lemma_dec_value(n as nat);
    lemma_dec_value((-k) as nat);
    let t = plain(JsonView::from_int(k));
    assert(t.drop_first() =~= dec((-k) as nat));
}

/// There are nine filters. None of them is told of as unknown; any other name is, and
/// leaves the value as it was.
pub proof fn lemma_known_filters(
    name: Seq<char>,
    arg: Option<Seq<char>>,
    v: JsonView,
    readings: Seq<(Seq<char>, Whole)>,
    tr: TraceView,
)
    ensures
        ({
            let known = name == "length"@ || name == "upper"@ || name == "lower"@ || name
                == "truncate"@ || name == "join"@ || name == "first"@ || name == "last"@ || name
                == "json"@ || name == "format_vnd"@;
            let after = filter_trace(name, v, tr);
            &&& known <==> is_filter(name)
            &&& known ==> after.unknown == tr.unknown
            &&& !known ==> after.unknown == tr.unknown.push(name) && filtered(
                name,
                arg,
                v,
                readings,
            ) == v
            &&& after.warnings == tr.warnings
            &&& after.draws == tr.draws
            &&& name != "format_vnd"@ ==> after.asked == tr.asked
        }),
{
    lemma_filter_names();
}

// ---------------------------------------------------------------------------
// Names and paths
// ---------------------------------------------------------------------------

/// A name stands for the variable of that name; behind a dot, the name of a field
/// stands for that field of what comes before.
pub proof fn lemma_path(vars: Seq<(Seq<char>, JsonView)>, path: Seq<char>, name: Seq<char>)
    requires
        !name.contains('.'),
    ensures
        resolved(vars, name) == lookup(vars, name),
        resolved(vars, path + "."@ + name) == match resolved(vars, path) {
            Some(v) => v.field(name),
            None => None,
        },
{
    reveal_strlit(".");
    assert("."@ =~= seq!['.']);
    lemma_split_single(name, '.');
    lemma_split_halves(path, '.', name);
    lemma_split_parts(path, one_of(seq!['.']));
    let before = split(path, seq!['.']);
    let all = before + seq![name];
    let n = all.len() as int;
    assert(all[n - 1] == name);
    lemma_path_front(vars, before, name, before.len() as int);
    if n - 1 <= 1 {
    }
}

proof fn lemma_path_front(
    vars: Seq<(Seq<char>, JsonView)>,
    before: Seq<Seq<char>>,
    name: Seq<char>,
    n: int,
)
    requires
        1 <= n <= before.len(),
    ensures
        path_value(vars, before + seq![name], n) == path_value(vars, before, n),
    decreases n,
{
    let all = before + seq![name];
    assert(all[n - 1] == before[n - 1]);
    assert(all[0] == before[0]);
    if n > 1 {
        lemma_path_front(vars, before, name, n - 1);
    }
}

// ---------------------------------------------------------------------------
// Tokens
// ---------------------------------------------------------------------------

/// A name that can stand alone between braces.
pub open spec fn bare(name: Seq<char>) -> bool {
    &&& !name.contains('|')
    &&& !name.contains('}')
    &&& !name.contains('.')
    &&& trim(name) == name
    &&& after_prefix(name, "random_from:"@) is None
}

/// A token that stands first in a template is filled in, and the rest as it would
/// be without it.
pub proof fn lemma_token_first(token: Seq<char>, rest: Seq<char>, sc: ScopeView, tr: TraceView)
    requires
        !token.contains('}'),
    ensures
        ({
            let (t, tr1) = token_text(token, sc, tr);
            filled("{{"@ + token + "}}"@ + rest, sc, tr) == (
                t + filled(rest, sc, tr1).0,
                filled(rest, sc, tr1).1,
            )
        }),
{
    lemma_token_end(token, rest);
    let head = "{{"@ + token + "}}"@;
    let s = head + rest;
    let (t, tr1) = token_text(token, sc, tr);
    assert(Seq::<char>::empty() + t =~= t);
    assert(filled(s, sc, tr) == filled_from(s, head.len() as int, t, sc, tr1));
    crate::interpolate::lemma_filled_shifted(head, rest, 0, t, Seq::empty(), sc, tr1);
    assert(t + Seq::<char>::empty() =~= t);
}

proof fn lemma_token_end(token: Seq<char>, rest: Seq<char>)
    requires
        !token.contains('}'),
    ensures
        ({
            let head = "{{"@ + token + "}}"@;
            let s = head + rest;
            &&& head.len() == token.len() + 4
            &&& occurs(s, seq!['{', '{'], 0)
            &&& first_at(s, seq!['}', '}'], 2) == Some(2 + token.len() as int)
            &&& s.subrange(2, 2 + token.len() as int) == token
        }),
{
    reveal_strlit("{{");
    reveal_strlit("}}");
    let head = "{{"@ + token + "}}"@;
    let s = head + rest;
    let close = seq!['}', '}'];
    let at = 2 + token.len() as int;
    assert(s.subrange(0, 2) =~= seq!['{', '{']);
    assert(s.subrange(at, at + 2) =~= close);
    lemma_first_at(s, close, 2);
    let end = first_at(s, close, 2);
    assert(occurs(s, close, at));
    assert(end is Some);
    if end->0 < at {
        let i = end->0;
        assert(s.subrange(i, i + 2)[0] == s[i]);
        assert(s[i] == token[i - 2]);
        assert(token.contains('}'));
    }
    assert(s.subrange(2, at) =~= token);
}

/// A name between braces, with or without white space about it, stands for the
/// system variable of that name; where there is none, for the variable of the run;
/// where there is none either, for nothing, and a warning says so.
pub proof fn lemma_name_in_braces(
    token: Seq<char>,
    name: Seq<char>,
    rest: Seq<char>,
    sc: ScopeView,
    tr: TraceView,
)
    requires
        !token.contains('}'),
        trim(token) == name,
        bare(name),
    ensures
        ({
            let whole = filled("{{"@ + token + "}}"@ + rest, sc, tr);
            match lookup(sc.sys, name) {
                Some(s) => whole.0 == s + filled(rest, sc, tr).0,
                None => match lookup(sc.vars, name) {
                    Some(v) => whole.0 == plain(v) + filled(rest, sc, tr).0,
                    None => whole.0 == filled(
                        rest,
                        sc,
                        tr.warn("Variable not found: "@ + name),
                    ).0 && whole.1 == filled(
                        rest,
                        sc,
                        tr.warn("Variable not found: "@ + name),
                    ).1,
                },
            }
        }),
{
    lemma_token_first(token, rest, sc, tr);
    lemma_split_single(name, '|');
    lemma_path(sc.vars, name, name);
    let parts = split(name, seq!['|']);
    assert(parts[0] == name);
    let t = token_text(token, sc, tr).0;
    if lookup(sc.sys, name) is None && lookup(sc.vars, name) is None {
        assert(t =~= Seq::<char>::empty());
        assert(t + filled(rest, sc, tr.warn("Variable not found: "@ + name)).0 =~= filled(
            rest,
            sc,
            tr.warn("Variable not found: "@ + name),
        ).0);
    }
}

/// The filters behind a name are applied one after the other, the first to the
/// variable and each other to what the one before it gave: `name|f|g` is `g` of
/// `f` of the variable. An argument stands behind a colon.
pub proof fn lemma_filters_in_turn(
    name: Seq<char>,
    f: Seq<char>,
    arg: Seq<char>,
    g: Seq<char>,
    v: JsonView,
    sc: ScopeView,
    tr: TraceView,
)
    requires
        bare(name),
        lookup(sc.sys, name) is None,
        lookup(sc.vars, name) == Some(v),
        !f.contains('|') && !f.contains(':') && trim(f) == f && trim(f + ":"@ + arg) == f + ":"@
            + arg,
        !g.contains('|') && !g.contains(':') && trim(g) == g,
        !arg.contains('|') && trim(arg) == arg,
        f.len() > 0,
        g.len() > 0,
        name.len() > 0,
        arg.len() > 0,
    ensures
        token_text(name + "|"@ + f, sc, tr).0 == plain(filtered(f, None, v, sc.readings)),
        token_text(name + "|"@ + f + ":"@ + arg, sc, tr).0 == plain(
            filtered(f, Some(arg), v, sc.readings),
        ),
        token_text(name + "|"@ + f + "|"@ + g, sc, tr).0 == plain(
            filtered(g, None, filtered(f, None, v, sc.readings), sc.readings),
        ),
{
    reveal_strlit("|");
    reveal_strlit(":");
    assert("|"@ =~= seq!['|']);
    assert(":"@ =~= seq![':']);
    lemma_split_single(name, '|');
    lemma_split_single(f, '|');
    lemma_split_single(g, '|');
    lemma_path(sc.vars, name, name);
    lemma_cut_once(f, ':', arg);
    lemma_cut_once(g, ':', arg);
    // One filter.
    let one = name + "|"@ + f;
    lemma_split_halves(name, '|', f);
    lemma_trim_ends(name, "|"@ + f, f);
    assert(one =~= name + ("|"@ + f));
    lemma_no_choice_prefix(name, "|"@ + f);
    let p1 = seq![name] + seq![f];
    assert(split(one, seq!['|']) == p1);
    assert(p1[0] == name && p1[1] == f && p1.len() == 2);
    reveal_with_fuel(filter_chain, 4);
    // With an argument.
    let fa = f + ":"@ + arg;
    let two = name + "|"@ + f + ":"@ + arg;
    assert(two =~= name + seq!['|'] + fa);
    assert(!fa.contains('|')) by {
        if fa.contains('|') {
            let i = choose|i: int| 0 <= i < fa.len() && fa[i] == '|';
            if i < f.len() {
                assert(f[i] == '|');
            } else if i > f.len() {
                assert(arg[i - f.len() - 1] == '|');
            }
        }
    }
    lemma_split_single(fa, '|');
    lemma_split_halves(name, '|', fa);
    lemma_trim_ends(name, "|"@ + fa, fa);
    assert(two =~= name + ("|"@ + fa));
    lemma_no_choice_prefix(name, "|"@ + fa);
    let p2 = seq![name] + seq![fa];
    assert(p2[0] == name && p2[1] == fa && p2.len() == 2);
    // Two filters.
    let three = one + "|"@ + g;
    lemma_split_halves(one, '|', g);
    let p3 = p1 + seq![g];
    assert(p3[0] == name && p3[1] == f && p3[2] == g && p3.len() == 3);
    lemma_trim_ends(name, "|"@ + f + "|"@ + g, g);
    assert(three =~= name + ("|"@ + f + "|"@ + g));
    lemma_no_choice_prefix(name, "|"@ + f + "|"@ + g);
}

/// A text that begins with a trimmed text and ends with one is trimmed.
proof fn lemma_trim_ends(a: Seq<char>, b: Seq<char>, end: Seq<char>)
    requires
        a.len() > 0,
        end.len() > 0,
        trim(a) == a,
        trim(end) == end,
        b.len() > 0,
        b.last() == end.last(),
    ensures
        trim(a + b) == a + b,
{
    lemma_trimmed(a);
    lemma_trimmed(end);
    let s = a + b;
    assert(s[0] == a[0]);
    assert(s.last() == b.last());
}

proof fn lemma_trimmed(a: Seq<char>)
    requires
        trim(a) == a,
        a.len() > 0,
    ensures
        !white_space(a[0]),
        !white_space(a.last()),
{
    if white_space(a[0]) {
        lemma_trim_shorter(a.drop_first());
        lemma_trim_shorter(crate::text::trim_start(a));
    } else if white_space(a.last()) {
        lemma_trim_shorter(a.drop_last());
    }
}

proof fn lemma_trim_shorter(a: Seq<char>)
    ensures
        crate::text::trim_start(a).len() <= a.len(),
        crate::text::trim_end(a).len() <= a.len(),
    decreases a.len(),
{
    if a.len() > 0 {
        lemma_trim_shorter(a.drop_first());
        lemma_trim_shorter(a.drop_last());
    }
}

/// A name that does not ask for a random choice does not with a filter behind it.
proof fn lemma_no_choice_prefix(name: Seq<char>, more: Seq<char>)
    requires
        after_prefix(name, "random_from:"@) is None,
        more.len() > 0,
        more[0] == '|',
    ensures
        after_prefix(name + more, "random_from:"@) is None,
{
    reveal_strlit("random_from:");
    let pre = "random_from:"@;
    let s = name + more;
    if starts(s, pre) {
        if name.len() >= pre.len() {
            assert(name.subrange(0, pre.len() as int) =~= s.subrange(0, pre.len() as int));
        } else {
            assert(s.subrange(0, pre.len() as int)[name.len() as int] == '|');
            assert(pre[name.len() as int] != '|');
        }
    }
}

// ---------------------------------------------------------------------------
// Choices
// ---------------------------------------------------------------------------

/// A random choice is one of the items of its list, and chance can make it any of
/// them. Where there is no list, or an empty one, it is nothing.
pub proof fn lemma_choice(
    a: Seq<JsonView>,
    i: int,
    parsed: Result<JsonView, Seq<char>>,
    tr: TraceView,
)
    ensures
        a.len() > 0 ==> exists|k: int|
            0 <= k < a.len() && choice(Ok(JsonView::Array(a)), tr).0 == plain(#[trigger] a[k]),
        0 <= i < a.len() && i <= u64::MAX && tr.draws.len() > 0 && tr.draws.last() == i ==> choice(
            Ok(JsonView::Array(a)),
            tr,
        ).0 == plain(a[i]),
        parsed is Err || !(parsed->Ok_0 is Array) || (parsed->Ok_0)->Array_0.len() == 0 ==> choice(
            parsed,
            tr,
        ) == (Seq::<char>::empty(), tr),
        choice(parsed, tr).1.warnings == tr.warnings,
{
    if a.len() > 0 {
        let k = tr.next() as int % a.len() as int;
        vstd::arithmetic::div_mod::lemma_mod_bound(tr.next() as int, a.len() as int);
        assert(choice(Ok(JsonView::Array(a)), tr).0 == plain(a[k]));
        if 0 <= i < a.len() {
            vstd::arithmetic::div_mod::lemma_small_mod(i as nat, a.len());
        }
    }
}

/// Behind `random_from:` stands the list that is chosen from.
pub proof fn lemma_random_from(list: Seq<char>, sc: ScopeView, tr: TraceView)
    requires
        list.len() > 0,
        trim(list) == list,
    ensures
        token_text("random_from:"@ + list, sc, tr) == choice(json_parsed(list), tr),
{
    reveal_strlit("random_from:");
    let pre = "random_from:"@;
    let s = pre + list;
    lemma_trimmed(list);
    assert(!white_space(pre[0]));
    assert(s[0] == pre[0]);
    assert(s.last() == list.last());
    assert(trim(s) == s);
    assert(s.subrange(0, pre.len() as int) =~= pre);
    assert(s.skip(pre.len() as int) =~= list);
}

// ---------------------------------------------------------------------------
// Values
// ---------------------------------------------------------------------------

/// Filling in a value fills in the texts in it and changes nothing else: a list
/// keeps its length, an object its keys and their order, and what is neither a
/// text nor holds one stays as it is.
pub proof fn lemma_filled_shape(v: JsonView, sc: ScopeView, tr: TraceView)
    ensures
        match v {
            JsonView::Str(s) => filled_value(v, sc, tr) == (
                JsonView::Str(filled(s, sc, tr).0),
                filled(s, sc, tr).1,
            ),
            JsonView::Array(a) => filled_value(v, sc, tr).0 is Array && filled_value(
                v,
                sc,
                tr,
            ).0->Array_0.len() == a.len(),
            JsonView::Object(m) => filled_value(v, sc, tr).0 is Object && filled_value(
                v,
                sc,
                tr,
            ).0->Object_0.len() == m.len() && forall|i: int|
                0 <= i < m.len() ==> (#[trigger] filled_value(v, sc, tr).0->Object_0[i]).0
                    == m[i].0,
            _ => filled_value(v, sc, tr) == (v, tr),
        },
{
    match v {
        JsonView::Array(a) => {
            lemma_items_shape(a, a.len(), sc, tr);
        },
        JsonView::Object(m) => {
            lemma_fields_shape(m, m.len(), sc, tr);
        },
        _ => {},
    }
}

proof fn lemma_items_shape(a: Seq<JsonView>, n: nat, sc: ScopeView, tr: TraceView)
    requires
        n <= a.len(),
    ensures
        filled_items(a, n, sc, tr).0.len() == n,
    decreases n,
{
    if n > 0 {
        lemma_items_shape(a, (n - 1) as nat, sc, tr);
    }
}

proof fn lemma_fields_shape(
    m: Seq<(Seq<char>, JsonView)>,
    n: nat,
    sc: ScopeView,
    tr: TraceView,
)
    requires
        n <= m.len(),
    ensures
        filled_fields(m, n, sc, tr).0.len() == n,
        forall|i: int| 0 <= i < n ==> (#[trigger] filled_fields(m, n, sc, tr).0[i]).0 == m[i].0,
    decreases n,
{
    if n > 0 {
        lemma_fields_shape(m, (n - 1) as nat, sc, tr);
    }
}

/// The items of a list are filled in from left to right, each with what the ones
/// before it left of the random numbers, and so are the fields of an object.
pub proof fn lemma_filled_in_turn(
    a: Seq<JsonView>,
    x: JsonView,
    m: Seq<(Seq<char>, JsonView)>,
    k: Seq<char>,
    sc: ScopeView,
    tr: TraceView,
)
    ensures
        ({
            let (front, tr1) = filled_value(JsonView::Array(a), sc, tr);
            let (y, tr2) = filled_value(x, sc, tr1);
            &&& front is Array
            &&& filled_value(JsonView::Array(a.push(x)), sc, tr) == (
                JsonView::Array(front->Array_0.push(y)),
                tr2,
            )
        }),
        ({
            let (front, tr1) = filled_value(JsonView::Object(m), sc, tr);
            let (y, tr2) = filled_value(x, sc, tr1);
            &&& front is Object
            &&& filled_value(JsonView::Object(m.push((k, x))), sc, tr) == (
                JsonView::Object(front->Object_0.push((k, y))),
                tr2,
            )
        }),
{
    lemma_items_front(a, x, a.len(), sc, tr);
    lemma_fields_front(m, (k, x), m.len(), sc, tr);
    assert(a.push(x)[a.len() as int] == x);
    assert(m.push((k, x))[m.len() as int] == (k, x));
}

proof fn lemma_items_front(a: Seq<JsonView>, x: JsonView, n: nat, sc: ScopeView, tr: TraceView)
    requires
        n <= a.len(),
    ensures
        filled_items(a.push(x), n, sc, tr) == filled_items(a, n, sc, tr),
    decreases n,
{
    if n > 0 {
        lemma_items_front(a, x, (n - 1) as nat, sc, tr);
        assert(a.push(x)[n - 1] == a[n - 1]);
    }
}

proof fn lemma_fields_front(
    m: Seq<(Seq<char>, JsonView)>,
    e: (Seq<char>, JsonView),
    n: nat,
    sc: ScopeView,
    tr: TraceView,
)
    requires
        n <= m.len(),
    ensures
        filled_fields(m.push(e), n, sc, tr) == filled_fields(m, n, sc, tr),
    decreases n,
{
    if n > 0 {
        lemma_fields_front(m, e, (n - 1) as nat, sc, tr);
        assert(m.push(e)[n - 1] == m[n - 1]);
    }
}

} // verus!
