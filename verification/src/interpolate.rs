//! Variables in texts: `{{name}}`, `{{a.b.c}}`, `{{name | filter:arg}}` and
//! `{{random_from: ["a","b"]}}`.
use vstd::prelude::*;

use crate::chance::{draw, pick};
use crate::json::{json_parsed, parse_json_text, parsed_view, plain, render, value_to_string};
use crate::map::{lemma_values_by, lookup, values_by, TextMap};
use crate::text::{
    after_prefix, chars_of, clip, count_chars, cut_once, dec, dec_u64, find_from, first_at, join2,
    join_texts, joined, lemma_split_parts, lemma_texts_push, lower_case, occurs, occurs_at, one_of,
    opt_text, parse_usize, piece, same, split, split_on, split_once, strip, texts, to_lower,
    to_upper, trim, trimmed, unsigned_upto, upper_case,
};
use crate::value::{
    deep, entries, lemma_array_view, lemma_element_smaller, lemma_field_smaller, lemma_object_view,
    lemma_values_push, values, Json, JsonView, Number, NumberView,
};

verus! {

broadcast use {lemma_array_view, lemma_object_view};

/// The whole part of a number that was read from its notation, and its sign.
#[derive(Debug, Clone, Copy, PartialEq, Eq, Structural)]
pub struct Whole {
    pub negative: bool,
    pub magnitude: u64,
}

/// What the texts between the braces may refer to. `readings` says what the
/// notations of numbers stand for that are no whole numbers.
pub struct Scope<'a> {
    pub vars: &'a TextMap<Json>,
    pub sys: &'a TextMap<String>,
    pub readings: &'a TextMap<Whole>,
}

pub struct ScopeView {
    pub vars: Seq<(Seq<char>, JsonView)>,
    pub sys: Seq<(Seq<char>, Seq<char>)>,
    pub readings: Seq<(Seq<char>, Whole)>,
}

/// The text that a `String` holds, as a function.
pub open spec fn chars() -> spec_fn(String) -> Seq<char> {
    |s: String| s@
}

/// The entries of a map of texts.
pub open spec fn text_entries(m: Seq<(Seq<char>, String)>) -> Seq<(Seq<char>, Seq<char>)> {
    values_by(m, chars())
}

impl<'a> Scope<'a> {
    pub open spec fn view(&self) -> ScopeView {
        ScopeView {
            vars: entries(self.vars@),
            sys: text_entries(self.sys@),
            readings: self.readings@,
        }
    }
}

/// What goes along with filling in a text: the warnings, the random numbers
/// that are left, the notations of numbers that were looked up, and the filters
/// that were asked for and are not known.
pub struct Trace {
    pub warnings: Vec<String>,
    pub draws: Vec<u64>,
    pub asked: Vec<String>,
    pub unknown: Vec<String>,
}

pub struct TraceView {
    pub warnings: Seq<Seq<char>>,
    pub draws: Seq<u64>,
    pub asked: Seq<Seq<char>>,
    pub unknown: Seq<Seq<char>>,
}

impl TraceView {
    pub open spec fn warn(self, w: Seq<char>) -> TraceView {
        TraceView { warnings: self.warnings.push(w), ..self }
    }

    pub open spec fn ask(self, t: Seq<char>) -> TraceView {
        TraceView { asked: self.asked.push(t), ..self }
    }

    pub open spec fn miss(self, name: Seq<char>) -> TraceView {
        TraceView { unknown: self.unknown.push(name), ..self }
    }

    /// The next random number; zero where none is left.
    pub open spec fn next(self) -> u64 {
        if self.draws.len() > 0 {
            self.draws.last()
        } else {
            0
        }
    }

    pub open spec fn drawn(self) -> TraceView {
        if self.draws.len() > 0 {
            TraceView { draws: self.draws.drop_last(), ..self }
        } else {
            self
        }
    }
}

impl Trace {
    pub open spec fn view(&self) -> TraceView {
        TraceView {
            warnings: texts(self.warnings@),
            draws: self.draws@,
            asked: texts(self.asked@),
            unknown: texts(self.unknown@),
        }
    }

    fn warn(&mut self, w: String)
        ensures
            final(self)@ == old(self)@.warn(w@),
    {
        proof {
            lemma_texts_push(self.warnings@, w);
        }
        self.warnings.push(w);
    }

    fn ask(&mut self, t: String)
        ensures
            final(self)@ == old(self)@.ask(t@),
    {
        proof {
            lemma_texts_push(self.asked@, t);
        }
        self.asked.push(t);
    }

    fn miss(&mut self, name: String)
        ensures
            final(self)@ == old(self)@.miss(name@),
    {
        proof {
            lemma_texts_push(self.unknown@, name);
        }
        self.unknown.push(name);
    }

    fn next(&mut self) -> (r: u64)
        ensures
            r == old(self)@.next(),
            final(self)@ == old(self)@.drawn(),
    {
        match self.draws.pop() {
            Some(d) => d,
            None => 0,
        }
    }
}

// ---------------------------------------------------------------------------
// Filters
// ---------------------------------------------------------------------------

/// The least power of two `u >= from` with `n < 2^53 u`: the distance of
/// neighbouring doubles about `n`.
pub open spec fn spacing(n: int, from: int) -> int
    decreases n - from,
{
    if from <= 0 || n < 9007199254740992 * from {
        from
    } else {
        spacing(n, 2 * from)
    }
}

/// A whole number as a double holds it: the nearest multiple of the spacing,
/// the even one of two that are equally near.
pub open spec fn as_double(n: int) -> int {
    let u = spacing(n, 1);
    let q = n / u;
    let r = n % u;
    if 2 * r > u || (2 * r == u && q % 2 == 1) {
        (q + 1) * u
    } else {
        q * u
    }
}

/// The number, or the greatest that a `u64` holds.
pub open spec fn clamped(n: int) -> u64 {
    if n > u64::MAX {
        u64::MAX
    } else {
        n as u64
    }
}

proof fn lemma_spacing(n: int, from: int)
    requires
        0 <= n <= u64::MAX,
        1 <= from,
        from == 1 || 9007199254740992 * from <= 2 * n,
    ensures
        1 <= spacing(n, from),
        n < 9007199254740992 * spacing(n, from),
        spacing(n, from) == 1 || 9007199254740992 * spacing(n, from) <= 2 * n,
    decreases n - from,
{
    if n >= 9007199254740992 * from {
        lemma_spacing(n, 2 * from);
    }
}

fn round_double(n: u64) -> (r: u64)
    ensures
        r == clamped(as_double(n as int)),
{
    let mut u: u64 = 1;
    while n / u >= 9007199254740992
        invariant
            1 <= u,
            u == 1 || 9007199254740992 * u <= 2 * n,
            spacing(n as int, 1) == spacing(n as int, u as int),
        decreases n - u,
    {
        assert(n >= 9007199254740992 * u) by (nonlinear_arith)
            requires
                n / u >= 9007199254740992,
                u >= 1,
        ;
        u = u * 2;
    }
    assert(n < 9007199254740992 * u) by (nonlinear_arith)
        requires
            n / u < 9007199254740992,
            u >= 1,
    ;
    let q: u128 = (n / u) as u128;
    let rem: u64 = n % u;
    let up: bool = rem > u - rem || (rem == u - rem && q % 2 == 1);
    let m: u128 = if up {
        q + 1
    } else {
        q
    };
    assert(m * u <= 0xffff_ffff_ffff_ffff_ffff_ffff_ffff_ffff) by (nonlinear_arith)
        requires
            m <= 9007199254740992,
            u <= 0xffff_ffff_ffff_ffff,
    ;
    let v: u128 = m * (u as u128);
    if v > 0xffff_ffff_ffff_ffff {
        u64::MAX
    } else {
        v as u64
    }
}

/// The sign and the whole part of what a value counts for; zero for what is
/// no number.
pub open spec fn whole_of(v: JsonView, readings: Seq<(Seq<char>, Whole)>) -> Whole {
    match v {
        JsonView::Number(NumberView::PosInt(n)) => Whole {
            negative: false,
            magnitude: clamped(as_double(n as int)),
        },
        JsonView::Number(NumberView::NegInt(n)) => Whole {
            negative: n < 0,
            magnitude: clamped(as_double(if n < 0 {
                -n
            } else {
                n as int
            })),
        },
        JsonView::Number(NumberView::Float(t)) => read_whole(t, readings),
        JsonView::Str(t) => read_whole(t, readings),
        _ => Whole { negative: false, magnitude: 0 },
    }
}

pub open spec fn read_whole(t: Seq<char>, readings: Seq<(Seq<char>, Whole)>) -> Whole {
    match lookup(readings, t) {
        Some(w) => w,
        None => Whole { negative: false, magnitude: 0 },
    }
}

/// The notation that has to be looked up to know what the value counts for.
pub open spec fn looked_up(v: JsonView) -> Option<Seq<char>> {
    match v {
        JsonView::Number(NumberView::Float(t)) => Some(t),
        JsonView::Str(t) => Some(t),
        _ => None,
    }
}

/// The digits in groups of three, with dots between the groups.
pub open spec fn grouped(digits: Seq<char>) -> Seq<char>
    decreases digits.len(),
{
    if digits.len() <= 3 {
        digits
    } else {
        grouped(digits.take(digits.len() - 3)) + "."@ + digits.skip(digits.len() - 3)
    }
}

/// A whole number with dots between the thousands.
pub open spec fn thousands(w: Whole) -> Seq<char> {
    let digits = grouped(dec(w.magnitude as nat));
    if w.negative {
        "-"@ + digits
    } else {
        digits
    }
}

fn group_digits(cs: &Vec<char>, hi: usize) -> (r: String)
    requires
        hi <= cs@.len(),
    ensures
        r@ == grouped(cs@.take(hi as int)),
    decreases hi,
{
    let ghost d = cs@.take(hi as int);
    if hi <= 3 {
        let r = piece(cs, 0, hi);
        assert(r@ =~= d);
        r
    } else {
        let mut out = group_digits(cs, hi - 3);
        assert(d.take(hi - 3) =~= cs@.take(hi - 3));
        out.append(".");
        let tail = piece(cs, hi - 3, hi);
        assert(tail@ =~= d.skip(hi - 3));
        out.append(tail.as_str());
        out
    }
}

/// A whole number with dots between the thousands.
pub fn thousands_sep(w: Whole) -> (r: String)
    ensures
        r@ == thousands(w),
{
    let cs = chars_of(dec_u64(w.magnitude).as_str());
    let digits = group_digits(&cs, cs.len());
    assert(cs@.take(cs@.len() as int) =~= cs@);
    if w.negative {
        join2("-", digits.as_str())
    } else {
        digits
    }
}

/// The filters that there are.
pub open spec fn is_filter(name: Seq<char>) -> bool {
    name == "length"@ || name == "upper"@ || name == "lower"@ || name == "truncate"@ || name
        == "join"@ || name == "first"@ || name == "last"@ || name == "json"@ || name
        == "format_vnd"@
}

/// What a filter makes of a value. A filter that is not known changes nothing;
/// the trace tells of it.
pub open spec fn filtered(
    name: Seq<char>,
    arg: Option<Seq<char>>,
    v: JsonView,
    readings: Seq<(Seq<char>, Whole)>,
) -> JsonView {
    if name == "length"@ {
        match v {
            JsonView::Array(a) => JsonView::from_uint(a.len() as u64),
            JsonView::Str(s) => JsonView::from_uint(s.len() as u64),
            _ => JsonView::from_uint(0),
        }
    } else if name == "upper"@ {
        JsonView::Str(upper_case(plain(v)))
    } else if name == "lower"@ {
        JsonView::Str(lower_case(plain(v)))
    } else if name == "truncate"@ {
        let n = match arg {
            Some(a) => match unsigned_upto(a, usize::MAX as nat) {
                Some(n) => n as int,
                None => 100,
            },
            None => 100,
        };
        let s = plain(v);
        if s.len() > n {
            JsonView::Str(s.take(n) + "..."@)
        } else {
            JsonView::Str(s)
        }
    } else if name == "join"@ {
        match v {
            JsonView::Array(a) => JsonView::Str(
                joined(
                    a.map_values(|x: JsonView| plain(x)),
                    match arg {
                        Some(s) => s,
                        None => ","@,
                    },
                ),
            ),
            other => other,
        }
    } else if name == "first"@ {
        match v {
            JsonView::Array(a) => if a.len() > 0 {
                a[0]
            } else {
                JsonView::Null
            },
            other => other,
        }
    } else if name == "last"@ {
        match v {
            JsonView::Array(a) => if a.len() > 0 {
                a.last()
            } else {
                JsonView::Null
            },
            other => other,
        }
    } else if name == "json"@ {
        JsonView::Str(render(v))
    } else if name == "format_vnd"@ {
        JsonView::Str(thousands(whole_of(v, readings)) + " ₫"@)
    } else {
        v
    }
}

/// The trace once a filter has been applied.
pub open spec fn filter_trace(name: Seq<char>, v: JsonView, tr: TraceView) -> TraceView {
    if name == "format_vnd"@ {
        match looked_up(v) {
            Some(t) => tr.ask(t),
            None => tr,
        }
    } else if is_filter(name) {
        tr
    } else {
        tr.miss(name)
    }
}

fn plain_items(a: &Vec<Json>) -> (r: Vec<String>)
    ensures
        texts(r@) == values(a@).map_values(|x: JsonView| plain(x)),
{
    let ghost want = values(a@).map_values(|x: JsonView| plain(x));
    let mut out: Vec<String> = Vec::new();
    let mut i: usize = 0;
    while i < a.len()
        invariant
            i <= a@.len(),
            want == values(a@).map_values(|x: JsonView| plain(x)),
            texts(out@) =~= want.take(i as int),
        decreases a@.len() - i,
    {
        let t = value_to_string(&a[i]);
        proof {
            lemma_texts_push(out@, t);
        }
        out.push(t);
        i = i + 1;
    }
    assert(want.take(want.len() as int) =~= want);
    out
}

fn read(t: &String, readings: &TextMap<Whole>, trace: &mut Trace) -> (r: Whole)
    ensures
        r == read_whole(t@, readings@),
        final(trace)@ == old(trace)@.ask(t@),
{
    trace.ask(t.clone());
    match readings.get(t.as_str()) {
        Some(w) => *w,
        None => Whole { negative: false, magnitude: 0 },
    }
}

fn whole_part(v: &Json, readings: &TextMap<Whole>, trace: &mut Trace) -> (r: Whole)
    ensures
        r == whole_of(v@, readings@),
        final(trace)@ == match looked_up(v@) {
            Some(t) => old(trace)@.ask(t),
            None => old(trace)@,
        },
{
    match v {
        Json::Number(Number::PosInt(n)) => Whole { negative: false, magnitude: round_double(*n) },
        Json::Number(Number::NegInt(n)) => {
            let m: u64 = if *n == i64::MIN {
                9223372036854775808
            } else if *n < 0 {
                (-*n) as u64
            } else {
                *n as u64
            };
            Whole { negative: *n < 0, magnitude: round_double(m) }
        },
        Json::Number(Number::Float(t)) => read(t, readings, trace),
        Json::Str(t) => read(t, readings, trace),
        _ => Whole { negative: false, magnitude: 0 },
    }
}

/// Applies a filter to a value.
pub fn apply_filter(
    name: &str,
    arg: &Option<String>,
    v: Json,
    readings: &TextMap<Whole>,
    trace: &mut Trace,
) -> (r: Json)
    ensures
        r@ == filtered(name@, opt_text(*arg), v@, readings@),
        final(trace)@ == filter_trace(name@, v@, old(trace)@),
{
    proof {
        reveal_strlit("length");
        reveal_strlit("upper");
        reveal_strlit("lower");
        reveal_strlit("truncate");
        reveal_strlit("join");
        reveal_strlit("first");
        reveal_strlit("last");
        reveal_strlit("json");
        reveal_strlit("format_vnd");
        assert("format_vnd"@.len() == 10);
        assert("length"@.len() == 6 && "upper"@.len() == 5 && "lower"@.len() == 5);
        assert("truncate"@.len() == 8 && "join"@.len() == 4 && "first"@.len() == 5);
        assert("last"@.len() == 4 && "json"@.len() == 4);
    }
    if same(name, "length") {
        return match &v {
            Json::Array(a) => Json::from_uint(a.len() as u64),
            Json::Str(s) => Json::from_uint(count_chars(s.as_str()) as u64),
            _ => Json::from_uint(0),
        };
    }
    if same(name, "upper") {
        return Json::Str(to_upper(value_to_string(&v).as_str()));
    }
    if same(name, "lower") {
        return Json::Str(to_lower(value_to_string(&v).as_str()));
    }
    if same(name, "truncate") {
        let n: usize = match arg {
            Some(a) => match parse_usize(a.as_str()) {
                Some(n) => n,
                None => 100,
            },
            None => 100,
        };
        let s = value_to_string(&v);
        if count_chars(s.as_str()) > n {
            let mut t = clip(s.as_str(), n);
            t.append("...");
            return Json::Str(t);
        }
        return Json::Str(s);
    }
    if same(name, "join") {
        return match v {
            Json::Array(a) => {
                let parts = plain_items(&a);
                match arg {
                    Some(s) => Json::Str(join_texts(&parts, s.as_str())),
                    None => Json::Str(join_texts(&parts, ",")),
                }
            },
            other => other,
        };
    }
    if same(name, "first") {
        return match v {
            Json::Array(a) => {
                if a.len() > 0 {
                    a[0].copy()
                } else {
                    Json::Null
                }
            },
            other => other,
        };
    }
    if same(name, "last") {
        return match v {
            Json::Array(a) => {
                if a.len() > 0 {
                    a[a.len() - 1].copy()
                } else {
                    Json::Null
                }
            },
            other => other,
        };
    }
    if same(name, "json") {
        return Json::Str(v.render());
    }
    if same(name, "format_vnd") {
        let w = whole_part(&v, readings, trace);
        let mut t = thousands_sep(w);
        t.append(" ₫");
        return Json::Str(t);
    }
    trace.miss(name.to_owned());
    v
}

// ---------------------------------------------------------------------------
// Tokens
// ---------------------------------------------------------------------------

/// The value that the first `n` names of a path lead to.
pub open spec fn path_value(
    vars: Seq<(Seq<char>, JsonView)>,
    path: Seq<Seq<char>>,
    n: int,
) -> Option<JsonView>
    decreases n,
{
    if n <= 1 {
        lookup(vars, path[0])
    } else {
        match path_value(vars, path, n - 1) {
            Some(v) => v.field(path[n - 1]),
            None => None,
        }
    }
}

/// The value that a dotted path leads to.
pub open spec fn resolved(vars: Seq<(Seq<char>, JsonView)>, path: Seq<char>) -> Option<JsonView> {
    let names = split(path, seq!['.']);
    path_value(vars, names, names.len() as int)
}

/// The name and the argument of a filter.
pub open spec fn filter_call(raw: Seq<char>) -> (Seq<char>, Option<Seq<char>>) {
    let f = trim(raw);
    match cut_once(f, ':') {
        Some((n, a)) => (trim(n), Some(trim(a))),
        None => (f, None),
    }
}

/// The value and the trace once the filters `parts[1..n]` have been applied.
pub open spec fn filter_chain(
    parts: Seq<Seq<char>>,
    n: int,
    v: JsonView,
    sc: ScopeView,
    tr: TraceView,
) -> (JsonView, TraceView)
    decreases n,
{
    if n <= 1 {
        (v, tr)
    } else {
        let (before, t) = filter_chain(parts, n - 1, v, sc, tr);
        let (name, arg) = filter_call(parts[n - 1]);
        (filtered(name, arg, before, sc.readings), filter_trace(name, before, t))
    }
}

/// What stands for a variable: a system variable before one of the run.
pub open spec fn variable(name: Seq<char>, sc: ScopeView, tr: TraceView) -> (JsonView, TraceView) {
    match lookup(sc.sys, name) {
        Some(s) => (JsonView::Str(s), tr),
        None => match resolved(sc.vars, name) {
            Some(v) => (v, tr),
            None => (JsonView::Null, tr.warn("Variable not found: "@ + name)),
        },
    }
}

/// The text that chance picks from a list, given what the list reads as;
/// nothing where it is none, or empty.
pub open spec fn choice(parsed: Result<JsonView, Seq<char>>, tr: TraceView) -> (
    Seq<char>,
    TraceView,
) {
    match parsed {
        Ok(JsonView::Array(a)) => if a.len() > 0 {
            (plain(a[tr.next() as int % a.len() as int]), tr.drawn())
        } else {
            (Seq::empty(), tr)
        },
        _ => (Seq::empty(), tr),
    }
}

/// The text that chance picks from a list, given what the list reads as.
pub fn pick_text(parsed: Result<Json, String>, trace: &mut Trace) -> (r: String)
    ensures
        (r@, final(trace)@) == choice(parsed_view(parsed), old(trace)@),
{
    match parsed {
        Ok(Json::Array(a)) => {
            if a.len() > 0 {
                let d = trace.next();
                return value_to_string(&a[pick(d, a.len())]);
            }
        },
        _ => {},
    }
    let empty = String::new();
    assert(empty@ =~= Seq::<char>::empty());
    empty
}

/// The text that stands for what is between two pairs of braces.
pub open spec fn token_text(token: Seq<char>, sc: ScopeView, tr: TraceView) -> (
    Seq<char>,
    TraceView,
) {
    let t = trim(token);
    match after_prefix(t, "random_from:"@) {
        Some(rest) => choice(json_parsed(trim(rest)), tr),
        None => {
            let parts = split(t, seq!['|']);
            let (v, tr1) = variable(trim(parts[0]), sc, tr);
            let (w, tr2) = filter_chain(parts, parts.len() as int, v, sc, tr1);
            (plain(w), tr2)
        },
    }
}

/// The value that a dotted path leads to.
pub fn resolve_path(vars: &TextMap<Json>, path: &str) -> (r: Option<Json>)
    ensures
        match r {
            Some(v) => resolved(entries(vars@), path@) == Some(v@),
            None => resolved(entries(vars@), path@) is None,
        },
{
    let dot: [char; 1] = ['.'];
    assert(dot@ =~= seq!['.']);
    let names = split_on(path, &dot);
    proof {
        lemma_split_parts(path@, one_of(seq!['.']));
        assert(texts(names@).len() == names@.len());
    }
    let ghost all = texts(names@);
    proof {
        lemma_values_by(vars@, deep(), all[0], Json::Null);
    }
    let mut cur: &Json = match vars.get(names[0].as_str()) {
        Some(v) => v,
        None => {
            proof {
                lemma_path_none(entries(vars@), all, 1, all.len() as int);
            }
            return None;
        },
    };
    let mut i: usize = 1;
    while i < names.len()
        invariant
            1 <= i <= names@.len(),
            all == texts(names@),
            all == split(path@, seq!['.']),
            path_value(entries(vars@), all, i as int) == Some(cur@),
        decreases names@.len() - i,
    {
        match cur.get(names[i].as_str()) {
            Some(v) => {
                cur = v;
            },
            None => {
                proof {
                    lemma_path_none(entries(vars@), all, i as int + 1, all.len() as int);
                }
                return None;
            },
        }
        i = i + 1;
    }
    Some(cur.copy())
}

proof fn lemma_path_none(vars: Seq<(Seq<char>, JsonView)>, path: Seq<Seq<char>>, i: int, n: int)
    requires
        1 <= i <= n,
        path_value(vars, path, i) is None,
    ensures
        path_value(vars, path, n) is None,
    decreases n,
{
    if i < n {
        lemma_path_none(vars, path, i, n - 1);
    }
}

fn read_filter(raw: &str) -> (r: (String, Option<String>))
    ensures
        (r.0@, opt_text(r.1)) == filter_call(raw@),
{
    let f = trimmed(raw);
    match split_once(f.as_str(), ':') {
        Some((n, a)) => (trimmed(n.as_str()), Some(trimmed(a.as_str()))),
        None => (f, None),
    }
}

/// The text that stands for what is between two pairs of braces.
pub fn resolve_token(token: &str, scope: &Scope, trace: &mut Trace) -> (r: String)
    ensures
        (r@, final(trace)@) == token_text(token@, scope@, old(trace)@),
{
    let t = trimmed(token);
    match strip(t.as_str(), "random_from:") {
        Some(rest) => {
            return pick_text(parse_json_text(trimmed(rest.as_str()).as_str()), trace);
        },
        None => {},
    }
    let bar: [char; 1] = ['|'];
    assert(bar@ =~= seq!['|']);
    let parts = split_on(t.as_str(), &bar);
    let ghost all = texts(parts@);
    proof {
        lemma_split_parts(t@, one_of(seq!['|']));
        assert(all.len() == parts@.len());
        assert(all[0] == parts@[0]@);
    }
    let ghost start = trace@;
    let name = trimmed(parts[0].as_str());
    proof {
        lemma_values_by(scope.sys@, chars(), name@, arbitrary());
    }
    let mut value: Json = match scope.sys.get(name.as_str()) {
        Some(s) => Json::Str(s.clone()),
        None => match resolve_path(scope.vars, name.as_str()) {
            Some(v) => v,
            None => {
                trace.warn(join2("Variable not found: ", name.as_str()));
                Json::Null
            },
        },
    };
    let ghost (v0, tr0) = variable(name@, scope@, start);
    assert(v0 == value@ && tr0 == trace@);
    let mut i: usize = 1;
    while i < parts.len()
        invariant
            1 <= i <= parts@.len(),
            all == texts(parts@),
            filter_chain(all, i as int, v0, scope@, tr0) == (value@, trace@),
        decreases parts@.len() - i,
    {
        let (fname, arg) = read_filter(parts[i].as_str());
        value = apply_filter(fname.as_str(), &arg, value, scope.readings, trace);
        i = i + 1;
    }
    value_to_string(&value)
}

// ---------------------------------------------------------------------------
// Texts
// ---------------------------------------------------------------------------

/// `template` from position `i` on, filled in, behind `out`. What stands
/// between `{{` and the next `}}` is a token; everything else stands for
/// itself.
pub open spec fn filled_from(
    s: Seq<char>,
    i: int,
    out: Seq<char>,
    sc: ScopeView,
    tr: TraceView,
) -> (Seq<char>, TraceView)
    decreases s.len() - i,
{
    if i < 0 || i >= s.len() {
        (out, tr)
    } else {
        let end = first_at(s, seq!['}', '}'], i + 2);
        if occurs(s, seq!['{', '{'], i) && end is Some && i + 2 <= end->0 <= s.len() - 2 {
            let (t, tr1) = token_text(s.subrange(i + 2, end->0), sc, tr);
            filled_from(s, end->0 + 2, out + t, sc, tr1)
        } else {
            filled_from(s, i + 1, out.push(s[i]), sc, tr)
        }
    }
}

/// A template with its tokens filled in.
pub open spec fn filled(s: Seq<char>, sc: ScopeView, tr: TraceView) -> (Seq<char>, TraceView) {
    filled_from(s, 0, Seq::empty(), sc, tr)
}

/// A template with its tokens filled in.
pub fn fill(template: &str, scope: &Scope, trace: &mut Trace) -> (r: String)
    ensures
        (r@, final(trace)@) == filled(template@, scope@, old(trace)@),
{
    let cs = chars_of(template);
    let n: usize = cs.len();
    let mut open: Vec<char> = Vec::new();
    open.push('{');
    open.push('{');
    let mut close: Vec<char> = Vec::new();
    close.push('}');
    close.push('}');
    assert(open@ =~= seq!['{', '{']);
    assert(close@ =~= seq!['}', '}']);
    let mut out = String::new();
    let mut i: usize = 0;
    assert(out@ =~= Seq::<char>::empty());
    while i < n
        invariant
            i <= n,
            n == cs@.len(),
            cs@ == template@,
            open@ == seq!['{', '{'],
            close@ == seq!['}', '}'],
            filled(template@, scope@, old(trace)@) == filled_from(
                cs@,
                i as int,
                out@,
                scope@,
                trace@,
            ),
        decreases n - i,
    {
        if occurs_at(&cs, &open, i) {
            match find_from(&cs, &close, i + 2) {
                Some(end) => {
                    let token = piece(&cs, i + 2, end);
                    let t = resolve_token(token.as_str(), scope, trace);
                    out.append(t.as_str());
                    i = end + 2;
                    continue ;
                },
                None => {},
            }
        }
        out.push(cs[i]);
        i = i + 1;
    }
    out
}

/// A text without a token stands for itself.
pub proof fn lemma_filled_plain(s: Seq<char>, sc: ScopeView, tr: TraceView)
    requires
        forall|i: int| !occurs(s, seq!['{', '{'], i),
    ensures
        filled(s, sc, tr) == (s, tr),
{
    lemma_filled_plain_from(s, 0, Seq::empty(), sc, tr);
    assert(Seq::<char>::empty() + s.skip(0) =~= s);
}

proof fn lemma_filled_plain_from(s: Seq<char>, i: int, out: Seq<char>, sc: ScopeView, tr: TraceView)
    requires
        0 <= i <= s.len(),
        forall|i: int| !occurs(s, seq!['{', '{'], i),
    ensures
        filled_from(s, i, out, sc, tr) == (out + s.skip(i), tr),
    decreases s.len() - i,
{
    if i == s.len() {
        assert(out + s.skip(i) =~= out);
    } else {
        assert(!occurs(s, seq!['{', '{'], i));
        lemma_filled_plain_from(s, i + 1, out.push(s[i]), sc, tr);
        assert(out.push(s[i]) + s.skip(i + 1) =~= out + s.skip(i));
    }
}

/// A text without an opening brace before a template stays as it is, and the
/// template is filled in as it would be without it.
pub proof fn lemma_filled_after_plain(a: Seq<char>, b: Seq<char>, sc: ScopeView, tr: TraceView)
    requires
        !a.contains('{'),
    ensures
        filled(a + b, sc, tr) == (a + filled(b, sc, tr).0, filled(b, sc, tr).1),
{
    lemma_plain_passed(a, b, 0, Seq::empty(), sc, tr);
    assert(Seq::<char>::empty() + a.skip(0) =~= a);
    lemma_filled_shifted(a, b, 0, a, Seq::empty(), sc, tr);
    assert(a + Seq::<char>::empty() =~= a);
}

/// A text without an opening brace before a template without a random choice
/// stays as it is, with the same warnings, whatever chance does.
pub proof fn lemma_plain_before(
    a: Seq<char>,
    b: Seq<char>,
    sc: ScopeView,
    w: Seq<Seq<char>>,
    d1: Seq<u64>,
    d2: Seq<u64>,
)
    requires
        !a.contains('{'),
        no_choices(b),
    ensures
        ({
            let whole = filled(a + b, sc, fresh_trace(w, d1));
            let part = filled(b, sc, fresh_trace(w, d2));
            &&& whole.0 == a + part.0
            &&& whole.1.warnings == part.1.warnings
            &&& w.is_prefix_of(whole.1.warnings)
        }),
        filled(a, sc, fresh_trace(w, d1)) == (a, fresh_trace(w, d1)),
{
    let tr = fresh_trace(w, d2);
    lemma_filled_after_plain(a, b, sc, fresh_trace(w, d1));
    lemma_no_choice_from(b, 0, Seq::empty(), sc, tr, d1);
    assert(tr.with_draws(d1) == fresh_trace(w, d1));
    lemma_filled_warnings(a + b, sc, fresh_trace(w, d1));
    lemma_filled_after_plain(a, Seq::empty(), sc, fresh_trace(w, d1));
    assert(a + Seq::<char>::empty() =~= a);
}

proof fn lemma_plain_passed(
    a: Seq<char>,
    b: Seq<char>,
    i: int,
    out: Seq<char>,
    sc: ScopeView,
    tr: TraceView,
)
    requires
        !a.contains('{'),
        0 <= i <= a.len(),
    ensures
        filled_from(a + b, i, out, sc, tr) == filled_from(
            a + b,
            a.len() as int,
            out + a.skip(i),
            sc,
            tr,
        ),
    decreases a.len() - i,
{
    if i == a.len() {
        assert(out + a.skip(i) =~= out);
    } else {
        let s = a + b;
        assert(a.contains(a[i]));
        assert(!occurs(s, seq!['{', '{'], i)) by {
            if occurs(s, seq!['{', '{'], i) {
                assert(s.subrange(i, i + 2)[0] == s[i]);
            }
        }
        lemma_plain_passed(a, b, i + 1, out.push(s[i]), sc, tr);
        assert(out.push(s[i]) + a.skip(i + 1) =~= out + a.skip(i));
    }
}

proof fn lemma_occurs_shifted(p: Seq<char>, s: Seq<char>, pat: Seq<char>, i: int)
    requires
        0 <= i,
    ensures
        occurs(p + s, pat, p.len() + i) == occurs(s, pat, i),
{
    if i + pat.len() <= s.len() {
        assert((p + s).subrange(p.len() + i, p.len() + i + pat.len()) =~= s.subrange(
            i,
            i + pat.len(),
        ));
    }
}

proof fn lemma_first_shifted(p: Seq<char>, s: Seq<char>, pat: Seq<char>, i: int)
    requires
        0 <= i,
    ensures
        first_at(p + s, pat, p.len() + i) == match first_at(s, pat, i) {
            Some(k) => Some(p.len() + k),
            None => None,
        },
        first_at(s, pat, i) is Some ==> i <= first_at(s, pat, i)->0,
    decreases s.len() + 1 - i,
{
    lemma_occurs_shifted(p, s, pat, i);
    if i + pat.len() <= s.len() && !occurs(s, pat, i) {
        lemma_first_shifted(p, s, pat, i + 1);
    }
}

pub(crate) proof fn lemma_filled_shifted(
    p: Seq<char>,
    s: Seq<char>,
    i: int,
    out: Seq<char>,
    x: Seq<char>,
    sc: ScopeView,
    tr: TraceView,
)
    requires
        0 <= i,
    ensures
        ({
            let (t, left) = filled_from(s, i, x, sc, tr);
            filled_from(p + s, p.len() + i, out + x, sc, tr) == (out + t, left)
        }),
    decreases s.len() - i,
{
    if i < s.len() {
        let close = seq!['}', '}'];
        let end = first_at(s, close, i + 2);
        lemma_occurs_shifted(p, s, seq!['{', '{'], i);
        lemma_first_shifted(p, s, close, i + 2);
        if occurs(s, seq!['{', '{'], i) && end is Some && i + 2 <= end->0 <= s.len() - 2 {
            let token = s.subrange(i + 2, end->0);
            let (t, tr1) = token_text(token, sc, tr);
            assert((p + s).subrange(p.len() + i + 2, p.len() + end->0) =~= token);
            lemma_filled_shifted(p, s, end->0 + 2, out, x + t, sc, tr1);
            assert((out + x) + t =~= out + (x + t));
        } else {
            lemma_filled_shifted(p, s, i + 1, out, x.push(s[i]), sc, tr);
            assert((out + x).push((p + s)[p.len() + i]) =~= out + x.push(s[i]));
        }
    }
}

/// No token of the text, from position `i` on, is a random choice.
pub open spec fn no_choices_from(s: Seq<char>, i: int) -> bool
    decreases s.len() - i,
{
    if i < 0 || i >= s.len() {
        true
    } else {
        let end = first_at(s, seq!['}', '}'], i + 2);
        if occurs(s, seq!['{', '{'], i) && end is Some && i + 2 <= end->0 <= s.len() - 2 {
            after_prefix(trim(s.subrange(i + 2, end->0)), "random_from:"@) is None
                && no_choices_from(s, end->0 + 2)
        } else {
            no_choices_from(s, i + 1)
        }
    }
}

/// No token of the text is a random choice.
pub open spec fn no_choices(s: Seq<char>) -> bool {
    no_choices_from(s, 0)
}

impl TraceView {
    /// The trace with other random numbers at hand.
    pub open spec fn with_draws(self, draws: Seq<u64>) -> TraceView {
        TraceView { draws, ..self }
    }
}

proof fn lemma_no_choice_from(
    s: Seq<char>,
    i: int,
    out: Seq<char>,
    sc: ScopeView,
    tr: TraceView,
    d: Seq<u64>,
)
    requires
        no_choices_from(s, i),
    ensures
        ({
            let (t, left) = filled_from(s, i, out, sc, tr);
            filled_from(s, i, out, sc, tr.with_draws(d)) == (t, left.with_draws(d))
        }),
    decreases s.len() - i,
{
    if 0 <= i < s.len() {
        let end = first_at(s, seq!['}', '}'], i + 2);
        if occurs(s, seq!['{', '{'], i) && end is Some && i + 2 <= end->0 <= s.len() - 2 {
            let token = s.subrange(i + 2, end->0);
            let (t, tr1) = token_text(token, sc, tr);
            let parts = split(trim(token), seq!['|']);
            let (v, tr0) = variable(trim(parts[0]), sc, tr);
            lemma_chain_with_draws(parts, parts.len() as int, v, sc, tr0, d);
            lemma_no_choice_from(s, end->0 + 2, out + t, sc, tr1, d);
        } else {
            lemma_no_choice_from(s, i + 1, out.push(s[i]), sc, tr, d);
        }
    }
}

proof fn lemma_chain_with_draws(
    parts: Seq<Seq<char>>,
    n: int,
    v: JsonView,
    sc: ScopeView,
    tr: TraceView,
    d: Seq<u64>,
)
    ensures
        ({
            let (w, left) = filter_chain(parts, n, v, sc, tr);
            filter_chain(parts, n, v, sc, tr.with_draws(d)) == (w, left.with_draws(d))
        }),
    decreases n,
{
    if n > 1 {
        lemma_chain_with_draws(parts, n - 1, v, sc, tr, d);
    }
}

/// The filters among `parts[1..n]` that are not known.
pub open spec fn missing(parts: Seq<Seq<char>>, n: int) -> Seq<Seq<char>>
    decreases n,
{
    if n <= 1 {
        Seq::empty()
    } else {
        let name = filter_call(parts[n - 1]).0;
        if is_filter(name) {
            missing(parts, n - 1)
        } else {
            missing(parts, n - 1).push(name)
        }
    }
}

/// A token tells of the filters that it asks for and that are not known, and of
/// no others.
pub proof fn lemma_unknown_filters(token: Seq<char>, sc: ScopeView, tr: TraceView)
    requires
        after_prefix(trim(token), "random_from:"@) is None,
    ensures
        ({
            let parts = split(trim(token), seq!['|']);
            token_text(token, sc, tr).1.unknown == tr.unknown + missing(parts, parts.len() as int)
        }),
{
    let parts = split(trim(token), seq!['|']);
    let (v, tr0) = variable(trim(parts[0]), sc, tr);
    lemma_chain_unknown(parts, parts.len() as int, v, sc, tr0);
}

proof fn lemma_chain_unknown(
    parts: Seq<Seq<char>>,
    n: int,
    v: JsonView,
    sc: ScopeView,
    tr: TraceView,
)
    ensures
        filter_chain(parts, n, v, sc, tr).1.unknown == tr.unknown + missing(parts, n),
    decreases n,
{
    reveal_strlit("format_vnd");
    if n <= 1 {
        assert(tr.unknown + missing(parts, n) =~= tr.unknown);
    } else {
        lemma_chain_unknown(parts, n - 1, v, sc, tr);
        let name = filter_call(parts[n - 1]).0;
        assert((tr.unknown + missing(parts, n - 1)).push(name) =~= tr.unknown + missing(
            parts,
            n - 1,
        ).push(name));
    }
}

/// Filling in only adds warnings.
pub proof fn lemma_filled_warnings(s: Seq<char>, sc: ScopeView, tr: TraceView)
    ensures
        tr.warnings.is_prefix_of(filled(s, sc, tr).1.warnings),
{
    lemma_filled_warnings_from(s, 0, Seq::empty(), sc, tr);
}

proof fn lemma_filled_warnings_from(
    s: Seq<char>,
    i: int,
    out: Seq<char>,
    sc: ScopeView,
    tr: TraceView,
)
    ensures
        tr.warnings.is_prefix_of(filled_from(s, i, out, sc, tr).1.warnings),
    decreases s.len() - i,
{
    if i < 0 || i >= s.len() {
    } else {
        let end = first_at(s, seq!['}', '}'], i + 2);
        if occurs(s, seq!['{', '{'], i) && end is Some && i + 2 <= end->0 <= s.len() - 2 {
            let token = s.subrange(i + 2, end->0);
            let (t, tr1) = token_text(token, sc, tr);
            lemma_token_warnings(token, sc, tr);
            lemma_filled_warnings_from(s, end->0 + 2, out + t, sc, tr1);
        } else {
            lemma_filled_warnings_from(s, i + 1, out.push(s[i]), sc, tr);
        }
    }
}

proof fn lemma_token_warnings(token: Seq<char>, sc: ScopeView, tr: TraceView)
    ensures
        tr.warnings.is_prefix_of(token_text(token, sc, tr).1.warnings),
{
    let t = trim(token);
    if after_prefix(t, "random_from:"@) is None {
        let parts = split(t, seq!['|']);
        let (v, tr1) = variable(trim(parts[0]), sc, tr);
        lemma_chain_warnings(parts, parts.len() as int, v, sc, tr1);
    }
}

proof fn lemma_chain_warnings(
    parts: Seq<Seq<char>>,
    n: int,
    v: JsonView,
    sc: ScopeView,
    tr: TraceView,
)
    ensures
        filter_chain(parts, n, v, sc, tr).1.warnings == tr.warnings,
    decreases n,
{
    if n > 1 {
        lemma_chain_warnings(parts, n - 1, v, sc, tr);
    }
}

/// The trace at the start, with the given random numbers at hand.
pub open spec fn fresh_trace(warnings: Seq<Seq<char>>, draws: Seq<u64>) -> TraceView {
    TraceView { warnings, draws, asked: Seq::empty(), unknown: Seq::empty() }
}

/// How many positions of a text, from `i` on, hold an opening pair of braces.
pub open spec fn openings_from(s: Seq<char>, i: int) -> nat
    decreases s.len() - i,
{
    if i < 0 || i >= s.len() {
        0
    } else {
        openings_from(s, i + 1) + if occurs(s, seq!['{', '{'], i) {
            1nat
        } else {
            0nat
        }
    }
}

/// How many positions of a text hold an opening pair of braces: no text takes
/// more random numbers to fill in.
pub open spec fn openings(s: Seq<char>) -> nat {
    openings_from(s, 0)
}

/// How many positions of the text hold an opening pair of braces.
pub(crate) fn count_tokens(template: &str) -> (n: usize)
    ensures
        n == openings(template@),
{
    let cs = chars_of(template);
    let mut open: Vec<char> = Vec::new();
    open.push('{');
    open.push('{');
    assert(open@ =~= seq!['{', '{']);
    let mut n: usize = 0;
    let mut i: usize = 0;
    while i < cs.len()
        invariant
            n <= i <= cs@.len(),
            cs@ == template@,
            open@ == seq!['{', '{'],
            n + openings_from(cs@, i as int) == openings(template@),
        decreases cs@.len() - i,
    {
        if occurs_at(&cs, &open, i) {
            n = n + 1;
        }
        i = i + 1;
    }
    n
}

/// Fills in a template. A variable that does not exist leaves nothing behind
/// but a warning; a random choice is made anew each time.
pub fn interpolate(
    template: &str,
    vars: &TextMap<Json>,
    sys: &TextMap<String>,
    readings: &TextMap<Whole>,
    warnings: &mut Vec<String>,
) -> (r: String)
    ensures
        exists|draws: Seq<u64>|
            draws.len() == openings(template@) && (#[trigger] filled(
                template@,
                ScopeView {
                    vars: entries(vars@),
                    sys: text_entries(sys@),
                    readings: readings@,
                },
                fresh_trace(texts(old(warnings)@), draws),
            )).0 == r@ && filled(
                template@,
                ScopeView {
                    vars: entries(vars@),
                    sys: text_entries(sys@),
                    readings: readings@,
                },
                fresh_trace(texts(old(warnings)@), draws),
            ).1.warnings == texts(final(warnings)@),
{
    let mut trace = Trace {
        warnings: Vec::new(),
        draws: draw(count_tokens(template)),
        asked: Vec::new(),
        unknown: Vec::new(),
    };
    trace.warnings.append(warnings);
    let scope = Scope { vars, sys, readings };
    let ghost tr = trace@;
    proof {
        assert(trace.warnings@ =~= old(warnings)@);
        assert(tr.asked =~= Seq::<Seq<char>>::empty());
        assert(tr.unknown =~= Seq::<Seq<char>>::empty());
    }
    let r = fill(template, &scope, &mut trace);
    *warnings = trace.warnings;
    assert(tr == fresh_trace(texts(old(warnings)@), tr.draws));
    assert(texts(warnings@) == filled(template@, scope@, tr).1.warnings);
    r
}

// ---------------------------------------------------------------------------
// Values
// ---------------------------------------------------------------------------

/// A value with every text inside it filled in, from left to right.
pub open spec fn filled_value(v: JsonView, sc: ScopeView, tr: TraceView) -> (JsonView, TraceView)
    decreases v, 0nat,
{
    match v {
        JsonView::Str(s) => {
            let (t, tr1) = filled(s, sc, tr);
            (JsonView::Str(t), tr1)
        },
        JsonView::Array(a) => {
            let (b, tr1) = filled_items(a, a.len(), sc, tr);
            (JsonView::Array(b), tr1)
        },
        JsonView::Object(m) => {
            let (b, tr1) = filled_fields(m, m.len(), sc, tr);
            (JsonView::Object(b), tr1)
        },
        other => (other, tr),
    }
}

pub open spec fn filled_items(a: Seq<JsonView>, n: nat, sc: ScopeView, tr: TraceView) -> (
    Seq<JsonView>,
    TraceView,
)
    decreases a, n,
{
    if n == 0 || n > a.len() {
        (Seq::empty(), tr)
    } else {
        let (b, tr1) = filled_items(a, (n - 1) as nat, sc, tr);
        let (x, tr2) = filled_value(a[n - 1], sc, tr1);
        (b.push(x), tr2)
    }
}

pub open spec fn filled_fields(
    m: Seq<(Seq<char>, JsonView)>,
    n: nat,
    sc: ScopeView,
    tr: TraceView,
) -> (Seq<(Seq<char>, JsonView)>, TraceView)
    decreases m, n,
{
    if n == 0 || n > m.len() {
        (Seq::empty(), tr)
    } else {
        let (b, tr1) = filled_fields(m, (n - 1) as nat, sc, tr);
        let (x, tr2) = filled_value(m[n - 1].1, sc, tr1);
        (b.push((m[n - 1].0, x)), tr2)
    }
}

/// A value with every text inside it filled in.
pub fn interp_value(v: &Json, scope: &Scope, trace: &mut Trace) -> (r: Json)
    ensures
        (r@, final(trace)@) == filled_value(v@, scope@, old(trace)@),
    decreases v,
{
    match v {
        Json::Str(s) => Json::Str(fill(s.as_str(), scope, trace)),
        Json::Array(a) => {
            let ghost all = values(a@);
            let ghost tr = trace@;
            let mut out: Vec<Json> = Vec::new();
            let mut i: usize = 0;
            assert(values(out@) =~= Seq::<JsonView>::empty());
            while i < a.len()
                invariant
                    i <= a@.len(),
                    *v == Json::Array(*a),
                    all == values(a@),
                    filled_items(all, i as nat, scope@, tr) == (values(out@), trace@),
                decreases a@.len() - i,
            {
                proof {
                    lemma_element_smaller(*v, i as int);
                }
                let x = interp_value(&a[i], scope, trace);
                proof {
                    lemma_values_push(out@, x);
                }
                out.push(x);
                i = i + 1;
            }
            Json::Array(out)
        },
        Json::Object(o) => {
            let ghost all = entries(o@);
            let ghost tr = trace@;
            let mut out: TextMap<Json> = TextMap::new();
            let mut i: usize = 0;
            assert(entries(out@) =~= Seq::<(Seq<char>, JsonView)>::empty());
            while i < o.entries.len()
                invariant
                    i <= o.entries@.len(),
                    *v == Json::Object(*o),
                    all == entries(o@),
                    filled_fields(all, i as nat, scope@, tr) == (entries(out@), trace@),
                decreases o.entries@.len() - i,
            {
                proof {
                    lemma_field_smaller(*v, i as int);
                }
                let x = interp_value(&o.entries[i].1, scope, trace);
                let ghost before = entries(out@);
                let e = (o.entries[i].0.clone(), x);
                out.entries.push(e);
                assert(entries(out@) =~= before.push((e.0@, e.1@)));
                i = i + 1;
            }
            Json::Object(out)
        },
        other => other.copy(),
    }
}

// ---------------------------------------------------------------------------
// Random numbers
// ---------------------------------------------------------------------------

/// The number, or the greatest that a `usize` holds.
pub open spec fn capped(n: nat) -> usize {
    if n <= usize::MAX {
        n as usize
    } else {
        usize::MAX
    }
}

/// How many opening pairs of braces the texts inside a value hold.
pub open spec fn openings_in(v: JsonView) -> nat
    decreases v, 0nat,
{
    match v {
        JsonView::Str(s) => openings(s),
        JsonView::Array(a) => openings_of_items(a, a.len()),
        JsonView::Object(m) => openings_of_fields(m, m.len()),
        _ => 0,
    }
}

pub open spec fn openings_of_items(a: Seq<JsonView>, n: nat) -> nat
    decreases a, n,
{
    if n == 0 || n > a.len() {
        0
    } else {
        openings_of_items(a, (n - 1) as nat) + openings_in(a[n - 1])
    }
}

pub open spec fn openings_of_fields(m: Seq<(Seq<char>, JsonView)>, n: nat) -> nat
    decreases m, n,
{
    if n == 0 || n > m.len() {
        0
    } else {
        openings_of_fields(m, (n - 1) as nat) + openings_in(m[n - 1].1)
    }
}

/// The sum of two numbers, or the greatest that a `usize` holds.
pub(crate) fn capped_sum(a: usize, b: usize) -> (r: usize)
    ensures
        r == capped((a + b) as nat),
{
    if a <= usize::MAX - b {
        a + b
    } else {
        usize::MAX
    }
}

/// How many opening pairs of braces the texts inside a value hold.
pub(crate) fn count_value_tokens(v: &Json) -> (n: usize)
    ensures
        n == capped(openings_in(v@)),
    decreases v,
{
    match v {
        Json::Str(s) => count_tokens(s.as_str()),
        Json::Array(a) => {
            let ghost all = values(a@);
            let mut n: usize = 0;
            let mut i: usize = 0;
            while i < a.len()
                invariant
                    i <= a@.len(),
                    *v == Json::Array(*a),
                    all == values(a@),
                    n == capped(openings_of_items(all, i as nat)),
                decreases a@.len() - i,
            {
                proof {
                    lemma_element_smaller(*v, i as int);
                }
                let k: usize = count_value_tokens(&a[i]);
                n = capped_sum(n, k);
                i = i + 1;
            }
            n
        },
        Json::Object(o) => {
            let ghost all = entries(o@);
            let mut n: usize = 0;
            let mut i: usize = 0;
            while i < o.entries.len()
                invariant
                    i <= o.entries@.len(),
                    *v == Json::Object(*o),
                    all == entries(o@),
                    n == capped(openings_of_fields(all, i as nat)),
                decreases o.entries@.len() - i,
            {
                proof {
                    lemma_field_smaller(*v, i as int);
                }
                let k: usize = count_value_tokens(&o.entries[i].1);
                n = capped_sum(n, k);
                i = i + 1;
            }
            n
        },
        _ => 0,
    }
}

impl TraceView {
    /// The trace with more random numbers behind those at hand.
    pub open spec fn backed(self, more: Seq<u64>) -> TraceView {
        TraceView { draws: more + self.draws, ..self }
    }
}

/// With one random number for each opening pair of braces, filling in a text
/// never runs out of them: more would change nothing.
pub proof fn lemma_filled_draws(s: Seq<char>, sc: ScopeView, tr: TraceView, more: Seq<u64>)
    requires
        tr.draws.len() >= openings(s),
    ensures
        ({
            let (t, left) = filled(s, sc, tr);
            &&& filled(s, sc, tr.backed(more)) == (t, left.backed(more))
            &&& left.draws.len() + openings(s) >= tr.draws.len()
        }),
{
    lemma_filled_draws_from(s, 0, Seq::empty(), sc, tr, more);
}

proof fn lemma_filled_draws_from(
    s: Seq<char>,
    i: int,
    out: Seq<char>,
    sc: ScopeView,
    tr: TraceView,
    more: Seq<u64>,
)
    requires
        tr.draws.len() >= openings_from(s, i),
    ensures
        ({
            let (t, left) = filled_from(s, i, out, sc, tr);
            &&& filled_from(s, i, out, sc, tr.backed(more)) == (t, left.backed(more))
            &&& left.draws.len() + openings_from(s, i) >= tr.draws.len()
        }),
    decreases s.len() - i,
{
    if 0 <= i < s.len() {
        let end = first_at(s, seq!['}', '}'], i + 2);
        if occurs(s, seq!['{', '{'], i) && end is Some && i + 2 <= end->0 <= s.len() - 2 {
            let token = s.subrange(i + 2, end->0);
            let (t, tr1) = token_text(token, sc, tr);
            lemma_token_draws(token, sc, tr, more);
            lemma_openings_fewer(s, i + 1, end->0 + 2);
            lemma_filled_draws_from(s, end->0 + 2, out + t, sc, tr1, more);
        } else {
            lemma_filled_draws_from(s, i + 1, out.push(s[i]), sc, tr, more);
        }
    }
}

proof fn lemma_openings_fewer(s: Seq<char>, i: int, j: int)
    requires
        0 <= i <= j,
    ensures
        openings_from(s, j) <= openings_from(s, i),
    decreases j - i,
{
    if i < j {
        lemma_openings_fewer(s, i + 1, j);
    }
}

proof fn lemma_token_draws(token: Seq<char>, sc: ScopeView, tr: TraceView, more: Seq<u64>)
    requires
        tr.draws.len() >= 1,
    ensures
        ({
            let (t, left) = token_text(token, sc, tr);
            &&& token_text(token, sc, tr.backed(more)) == (t, left.backed(more))
            &&& left.draws.len() + 1 >= tr.draws.len()
        }),
{
    let t = trim(token);
    match after_prefix(t, "random_from:"@) {
        Some(rest) => {
            assert((more + tr.draws).drop_last() =~= more + tr.draws.drop_last());
            assert((more + tr.draws).last() == tr.draws.last());
        },
        None => {
            let parts = split(t, seq!['|']);
            let (v, tr1) = variable(trim(parts[0]), sc, tr);
            lemma_chain_draws(parts, parts.len() as int, v, sc, tr1, more);
        },
    }
}

proof fn lemma_chain_draws(
    parts: Seq<Seq<char>>,
    n: int,
    v: JsonView,
    sc: ScopeView,
    tr: TraceView,
    more: Seq<u64>,
)
    ensures
        ({
            let (w, left) = filter_chain(parts, n, v, sc, tr);
            &&& filter_chain(parts, n, v, sc, tr.backed(more)) == (w, left.backed(more))
            &&& left.draws == tr.draws
        }),
    decreases n,
{
    if n > 1 {
        lemma_chain_draws(parts, n - 1, v, sc, tr, more);
    }
}

/// With one random number for each opening pair of braces inside it, filling
/// in a value never runs out of them: more would change nothing.
pub proof fn lemma_value_draws(v: JsonView, sc: ScopeView, tr: TraceView, more: Seq<u64>)
    requires
        tr.draws.len() >= openings_in(v),
    ensures
        ({
            let (w, left) = filled_value(v, sc, tr);
            &&& filled_value(v, sc, tr.backed(more)) == (w, left.backed(more))
            &&& left.draws.len() + openings_in(v) >= tr.draws.len()
        }),
    decreases v, 0nat,
{
    match v {
        JsonView::Str(s) => {
            lemma_filled_draws(s, sc, tr, more);
        },
        JsonView::Array(a) => {
            lemma_items_draws(a, a.len(), sc, tr, more);
        },
        JsonView::Object(m) => {
            lemma_fields_draws(m, m.len(), sc, tr, more);
        },
        _ => {},
    }
}

proof fn lemma_items_draws(
    a: Seq<JsonView>,
    n: nat,
    sc: ScopeView,
    tr: TraceView,
    more: Seq<u64>,
)
    requires
        tr.draws.len() >= openings_of_items(a, n),
    ensures
        ({
            let (b, left) = filled_items(a, n, sc, tr);
            &&& filled_items(a, n, sc, tr.backed(more)) == (b, left.backed(more))
            &&& left.draws.len() + openings_of_items(a, n) >= tr.draws.len()
        }),
    decreases a, n,
{
    if 0 < n <= a.len() {
        lemma_items_draws(a, (n - 1) as nat, sc, tr, more);
        let tr1 = filled_items(a, (n - 1) as nat, sc, tr).1;
        lemma_value_draws(a[n - 1], sc, tr1, more);
    }
}

proof fn lemma_fields_draws(
    m: Seq<(Seq<char>, JsonView)>,
    n: nat,
    sc: ScopeView,
    tr: TraceView,
    more: Seq<u64>,
)
    requires
        tr.draws.len() >= openings_of_fields(m, n),
    ensures
        ({
            let (b, left) = filled_fields(m, n, sc, tr);
            &&& filled_fields(m, n, sc, tr.backed(more)) == (b, left.backed(more))
            &&& left.draws.len() + openings_of_fields(m, n) >= tr.draws.len()
        }),
    decreases m, n,
{
    if 0 < n <= m.len() {
        lemma_fields_draws(m, (n - 1) as nat, sc, tr, more);
        let tr1 = filled_fields(m, (n - 1) as nat, sc, tr).1;
        lemma_value_draws(m[n - 1].1, sc, tr1, more);
    }
}

} // verus!
