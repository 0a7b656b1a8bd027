//! Text as sequences of characters: searching, trimming, cutting, and the
//! decimal notation of whole numbers.
use vstd::prelude::*;

verus! {

/// `String::push` appends the one character it is given.
pub assume_specification[ String::push ](s: &mut String, c: char)
    ensures
        final(s)@ == old(s)@.push(c),
;

/// The characters with the White_Space property of Unicode.
pub open spec fn white_space(c: char) -> bool {
    ||| '\u{9}' <= c <= '\u{d}'
    ||| c == ' '
    ||| c == '\u{85}'
    ||| c == '\u{a0}'
    ||| c == '\u{1680}'
    ||| '\u{2000}' <= c <= '\u{200a}'
    ||| c == '\u{2028}'
    ||| c == '\u{2029}'
    ||| c == '\u{202f}'
    ||| c == '\u{205f}'
    ||| c == '\u{3000}'
}

/// `char::is_whitespace` says whether a character has the White_Space property
/// of Unicode.
pub assume_specification[ char::is_whitespace ](c: char) -> (r: bool)
    ensures
        r == white_space(c),
;

/// The upper-case form of a text, by the Unicode case tables.
pub uninterp spec fn upper_case(s: Seq<char>) -> Seq<char>;

/// `str::to_uppercase` maps a text to its upper-case form. The result depends
/// on the text alone.
#[verifier::external_body]
pub(crate) fn to_upper(s: &str) -> (r: String)
    ensures
        r@ == upper_case(s@),
{
    s.to_uppercase()
}

/// The lower-case form of a text, by the Unicode case tables.
pub uninterp spec fn lower_case(s: Seq<char>) -> Seq<char>;

/// `str::to_lowercase` maps a text to its lower-case form. The result depends
/// on the text alone.
#[verifier::external_body]
pub(crate) fn to_lower(s: &str) -> (r: String)
    ensures
        r@ == lower_case(s@),
{
    s.to_lowercase()
}

/// The contents of a list of strings.
pub open spec fn texts(v: Seq<String>) -> Seq<Seq<char>> {
    v.map_values(|s: String| s@)
}

pub proof fn lemma_texts_push(v: Seq<String>, s: String)
    ensures
        texts(v.push(s)) == texts(v).push(s@),
{
    assert(texts(v.push(s)) =~= texts(v).push(s@));
}

/// The characters of a string.
pub fn chars_of(s: &str) -> (r: Vec<char>)
    ensures
        r@ == s@,
{
    let mut out: Vec<char> = Vec::new();
    for c in it: s.chars()
        invariant
            out@ =~= it.seq().take(it.index() as int),
            it.seq() == s@,
    {
        out.push(c);
    }
    out
}

/// The string with the characters `cs[from..to]`.
pub fn piece(cs: &Vec<char>, from: usize, to: usize) -> (r: String)
    requires
        from <= to <= cs@.len(),
    ensures
        r@ == cs@.subrange(from as int, to as int),
{
    let mut out = String::new();
    let mut i: usize = from;
    while i < to
        invariant
            from <= i <= to <= cs@.len(),
            out@ =~= cs@.subrange(from as int, i as int),
        decreases to - i,
    {
        out.push(cs[i]);
        i = i + 1;
    }
    out
}

/// Whether two strings hold the same characters.
pub fn same(a: &str, b: &str) -> (r: bool)
    ensures
        r == (a@ == b@),
{
    a.to_owned() == b.to_owned()
}

/// One text behind the other.
pub fn join2(a: &str, b: &str) -> (r: String)
    ensures
        r@ == a@ + b@,
{
    let mut out = a.to_owned();
    out.append(b);
    out
}

/// Three texts, one behind the other.
pub fn join3(a: &str, b: &str, c: &str) -> (r: String)
    ensures
        r@ == a@ + b@ + c@,
{
    let mut out = a.to_owned();
    out.append(b);
    out.append(c);
    out
}

/// A copy of a list of strings.
pub fn copy_texts(v: &Vec<String>) -> (r: Vec<String>)
    ensures
        texts(r@) == texts(v@),
        r@.len() == v@.len(),
{
    let mut out: Vec<String> = Vec::new();
    let mut i: usize = 0;
    while i < v.len()
        invariant
            i <= v@.len(),
            out@.len() == i,
            texts(out@) =~= texts(v@).take(i as int),
        decreases v@.len() - i,
    {
        proof {
            lemma_texts_push(out@, v@[i as int]);
        }
        out.push(v[i].clone());
        i = i + 1;
    }
    assert(texts(v@).take(v@.len() as int) =~= texts(v@));
    out
}

/// Whether `x` is one of the strings of `v`.
pub fn has_text(v: &Vec<String>, x: &str) -> (r: bool)
    ensures
        r == texts(v@).contains(x@),
{
    let mut i: usize = 0;
    while i < v.len()
        invariant
            i <= v@.len(),
            forall|j: int| 0 <= j < i ==> texts(v@)[j] != x@,
        decreases v@.len() - i,
    {
        if same(v[i].as_str(), x) {
            assert(texts(v@)[i as int] == x@);
            return true;
        }
        i = i + 1;
    }
    false
}

// ---------------------------------------------------------------------------
// Searching
// ---------------------------------------------------------------------------

/// `pat` stands in `s` at position `i`.
pub open spec fn occurs(s: Seq<char>, pat: Seq<char>, i: int) -> bool {
    &&& 0 <= i
    &&& i + pat.len() <= s.len()
    &&& s.subrange(i, i + pat.len()) == pat
}

/// The first position at or after `from` where `pat` stands in `s`.
pub open spec fn first_at(s: Seq<char>, pat: Seq<char>, from: int) -> Option<int>
    decreases s.len() + 1 - from,
{
    if from < 0 || from + pat.len() > s.len() {
        None
    } else if occurs(s, pat, from) {
        Some(from)
    } else {
        first_at(s, pat, from + 1)
    }
}

/// `pat` stands somewhere in `s`.
pub open spec fn contains(s: Seq<char>, pat: Seq<char>) -> bool {
    exists|i: int| occurs(s, pat, i)
}

/// What a search returns is the first occurrence; it fails only where there
/// is none.
pub proof fn lemma_first_at(s: Seq<char>, pat: Seq<char>, from: int)
    requires
        0 <= from,
    ensures
        match first_at(s, pat, from) {
            Some(i) => from <= i && occurs(s, pat, i) && forall|j: int|
                from <= j < i ==> !occurs(s, pat, j),
            None => forall|j: int| from <= j ==> !occurs(s, pat, j),
        },
    decreases s.len() + 1 - from,
{
    if from + pat.len() > s.len() {
    } else if occurs(s, pat, from) {
    } else {
        lemma_first_at(s, pat, from + 1);
    }
}

/// Whether `pat` stands in `cs` at position `i`.
pub fn occurs_at(cs: &Vec<char>, pat: &Vec<char>, i: usize) -> (r: bool)
    ensures
        r == occurs(cs@, pat@, i as int),
{
    if pat.len() > cs.len() || i > cs.len() - pat.len() {
        return false;
    }
    let n: usize = cs.len();
    let mut k: usize = 0;
    while k < pat.len()
        invariant
            i + pat@.len() <= n,
            n == cs@.len(),
            k <= pat@.len(),
            forall|j: int| 0 <= j < k ==> cs@[i + j] == pat@[j],
        decreases pat@.len() - k,
    {
        if cs[i + k] != pat[k] {
            assert(cs@.subrange(i as int, i + pat@.len())[k as int] != pat@[k as int]);
            return false;
        }
        k = k + 1;
    }
    assert(cs@.subrange(i as int, i + pat@.len()) =~= pat@);
    true
}

/// The first position at or after `from` where `pat` stands in `cs`.
pub fn find_from(cs: &Vec<char>, pat: &Vec<char>, from: usize) -> (r: Option<usize>)
    ensures
        match r {
            Some(i) => first_at(cs@, pat@, from as int) == Some(i as int) && from <= i && i
                + pat@.len() <= cs@.len(),
            None => first_at(cs@, pat@, from as int) is None,
        },
{
    if pat.len() > cs.len() {
        return None;
    }
    let last: usize = cs.len() - pat.len();
    let mut i: usize = from;
    while i <= last
        invariant
            from <= i,
            last == cs@.len() - pat@.len(),
            first_at(cs@, pat@, from as int) == first_at(cs@, pat@, i as int),
        decreases last + 1 - i,
    {
        if occurs_at(cs, pat, i) {
            return Some(i);
        }
        assert(first_at(cs@, pat@, i as int) == first_at(cs@, pat@, i as int + 1));
        if i == last {
            assert(first_at(cs@, pat@, i as int + 1) is None);
            return None;
        }
        i = i + 1;
    }
    None
}

/// Whether `pat` stands somewhere in `s`.
pub fn has_part(s: &str, pat: &str) -> (r: bool)
    ensures
        r == contains(s@, pat@),
{
    let cs = chars_of(s);
    let pc = chars_of(pat);
    let found = find_from(&cs, &pc, 0);
    proof {
        lemma_first_at(s@, pat@, 0);
    }
    found.is_some()
}

/// Whether `s` begins with `pre`.
pub open spec fn starts(s: Seq<char>, pre: Seq<char>) -> bool {
    occurs(s, pre, 0)
}

pub fn has_prefix(s: &str, pre: &str) -> (r: bool)
    ensures
        r == starts(s@, pre@),
{
    let cs = chars_of(s);
    let pc = chars_of(pre);
    occurs_at(&cs, &pc, 0)
}

/// What follows `pre` in `s`, where `s` begins with `pre`.
pub open spec fn after_prefix(s: Seq<char>, pre: Seq<char>) -> Option<Seq<char>> {
    if starts(s, pre) {
        Some(s.skip(pre.len() as int))
    } else {
        None
    }
}

pub open spec fn opt_text(o: Option<String>) -> Option<Seq<char>> {
    match o {
        Some(s) => Some(s@),
        None => None,
    }
}

pub fn strip(s: &str, pre: &str) -> (r: Option<String>)
    ensures
        opt_text(r) == after_prefix(s@, pre@),
{
    let cs = chars_of(s);
    let pc = chars_of(pre);
    if occurs_at(&cs, &pc, 0) {
        let rest = piece(&cs, pc.len(), cs.len());
        assert(rest@ =~= s@.skip(pre@.len() as int));
        Some(rest)
    } else {
        None
    }
}

/// `s` ends with `suf`.
pub open spec fn ends(s: Seq<char>, suf: Seq<char>) -> bool {
    occurs(s, suf, s.len() - suf.len())
}

pub fn has_suffix(s: &str, suf: &str) -> (r: bool)
    ensures
        r == ends(s@, suf@),
{
    let cs = chars_of(s);
    let pc = chars_of(suf);
    if pc.len() > cs.len() {
        return false;
    }
    occurs_at(&cs, &pc, cs.len() - pc.len())
}

// ---------------------------------------------------------------------------
// Trimming
// ---------------------------------------------------------------------------

/// `s` without its leading white space.
pub open spec fn trim_start(s: Seq<char>) -> Seq<char>
    decreases s.len(),
{
    if s.len() > 0 && white_space(s[0]) {
        trim_start(s.drop_first())
    } else {
        s
    }
}

/// `s` without its trailing white space.
pub open spec fn trim_end(s: Seq<char>) -> Seq<char>
    decreases s.len(),
{
    if s.len() > 0 && white_space(s.last()) {
        trim_end(s.drop_last())
    } else {
        s
    }
}

/// `s` without the white space around it.
pub open spec fn trim(s: Seq<char>) -> Seq<char> {
    trim_end(trim_start(s))
}

/// `s` without its leading white space.
pub fn trim_left(s: &str) -> (r: String)
    ensures
        r@ == trim_start(s@),
{
    let cs = chars_of(s);
    let mut lo: usize = 0;
    assert(cs@.skip(0) =~= cs@);
    while lo < cs.len() && cs[lo].is_whitespace()
        invariant
            lo <= cs@.len(),
            trim_start(cs@) == trim_start(cs@.skip(lo as int)),
        decreases cs@.len() - lo,
    {
        assert(cs@.skip(lo as int).drop_first() =~= cs@.skip(lo as int + 1));
        lo = lo + 1;
    }
    let r = piece(&cs, lo, cs.len());
    assert(r@ =~= cs@.skip(lo as int));
    r
}

/// `s` without the white space around it.
pub fn trimmed(s: &str) -> (r: String)
    ensures
        r@ == trim(s@),
{
    let left = trim_left(s);
    let cs = chars_of(left.as_str());
    let mut hi: usize = cs.len();
    assert(cs@.take(hi as int) =~= cs@);
    while hi > 0 && cs[hi - 1].is_whitespace()
        invariant
            hi <= cs@.len(),
            trim_end(cs@) == trim_end(cs@.take(hi as int)),
        decreases hi,
    {
        assert(cs@.take(hi as int).drop_last() =~= cs@.take(hi as int - 1));
        hi = hi - 1;
    }
    let r = piece(&cs, 0, hi);
    assert(r@ =~= cs@.take(hi as int));
    r
}

// ---------------------------------------------------------------------------
// Cutting
// ---------------------------------------------------------------------------

/// The parts of `s` between the characters that satisfy `cut`, in order.
pub open spec fn split_by(s: Seq<char>, cut: spec_fn(char) -> bool) -> Seq<Seq<char>>
    decreases s.len(),
{
    if s.len() == 0 {
        seq![Seq::<char>::empty()]
    } else {
        let before = split_by(s.drop_last(), cut);
        if cut(s.last()) {
            before.push(Seq::<char>::empty())
        } else {
            before.drop_last().push(before.last().push(s.last()))
        }
    }
}

/// "Is one of the characters `seps`."
pub open spec fn one_of(seps: Seq<char>) -> spec_fn(char) -> bool {
    |c: char| seps.contains(c)
}

/// The parts of `s` between the characters `seps`.
pub open spec fn split(s: Seq<char>, seps: Seq<char>) -> Seq<Seq<char>> {
    split_by(s, one_of(seps))
}

/// There is always a part, and no part holds a cutting character.
pub proof fn lemma_split_parts(s: Seq<char>, cut: spec_fn(char) -> bool)
    ensures
        split_by(s, cut).len() >= 1,
        forall|i: int, k: int|
            0 <= i < split_by(s, cut).len() && 0 <= k < split_by(s, cut)[i].len() ==> !cut(
                #[trigger] split_by(s, cut)[i][k],
            ),
    decreases s.len(),
{
    if s.len() > 0 {
        lemma_split_parts(s.drop_last(), cut);
    }
}

/// No part is longer than the text, and there are at most as many cuts as
/// characters.
pub proof fn lemma_split_size(s: Seq<char>, cut: spec_fn(char) -> bool)
    ensures
        1 <= split_by(s, cut).len() <= s.len() + 1,
        forall|i: int|
            0 <= i < split_by(s, cut).len() ==> (#[trigger] split_by(s, cut)[i]).len() <= s.len(),
    decreases s.len(),
{
    if s.len() > 0 {
        lemma_split_size(s.drop_last(), cut);
    }
}

/// Whether `c` is one of `seps`.
pub fn is_one_of(c: char, seps: &[char]) -> (r: bool)
    ensures
        r == seps@.contains(c),
{
    let mut i: usize = 0;
    while i < seps.len()
        invariant
            i <= seps@.len(),
            forall|j: int| 0 <= j < i ==> seps@[j] != c,
        decreases seps@.len() - i,
    {
        if seps[i] == c {
            return true;
        }
        i = i + 1;
    }
    false
}

/// The parts of `s` between the characters `seps`.
pub fn split_on(s: &str, seps: &[char]) -> (r: Vec<String>)
    ensures
        texts(r@) == split(s@, seps@),
{
    let cs = chars_of(s);
    let ghost cut = one_of(seps@);
    let mut out: Vec<String> = Vec::new();
    let mut cur = String::new();
    let mut i: usize = 0;
    assert(cs@.take(0) =~= Seq::<char>::empty());
    assert(texts(out@).push(cur@) =~= seq![Seq::<char>::empty()]);
    while i < cs.len()
        invariant
            i <= cs@.len(),
            cut == one_of(seps@),
            texts(out@).push(cur@) == split_by(cs@.take(i as int), cut),
        decreases cs@.len() - i,
    {
        let c = cs[i];
        let ghost before = texts(out@).push(cur@);
        assert(cs@.take(i as int + 1).drop_last() =~= cs@.take(i as int));
        assert(before.drop_last() =~= texts(out@));
        if is_one_of(c, seps) {
            proof {
                lemma_texts_push(out@, cur);
            }
            out.push(cur);
            cur = String::new();
        } else {
            cur.push(c);
        }
        i = i + 1;
    }
    assert(cs@.take(cs@.len() as int) =~= cs@);
    proof {
        lemma_texts_push(out@, cur);
    }
    out.push(cur);
    out
}

/// The words of `s`: its parts between white space, the empty ones left out.
pub open spec fn words(s: Seq<char>) -> Seq<Seq<char>> {
    split_by(s, |c: char| white_space(c)).filter(|w: Seq<char>| w.len() > 0)
}

/// The words of `s`.
pub fn words_of(s: &str) -> (r: Vec<String>)
    ensures
        texts(r@) == words(s@),
{
    let cs = chars_of(s);
    let ghost cut = |c: char| white_space(c);
    let ghost keep = |w: Seq<char>| w.len() > 0;
    let mut out: Vec<String> = Vec::new();
    let mut cur = String::new();
    let mut i: usize = 0;
    let ghost mut done: Seq<Seq<char>> = Seq::empty();
    proof {
        reveal(Seq::filter);
        assert(cs@.take(0) =~= Seq::<char>::empty());
        assert(done.push(cur@) =~= seq![Seq::<char>::empty()]);
        assert(texts(out@) =~= Seq::<Seq<char>>::empty());
    }
    while i < cs.len()
        invariant
            i <= cs@.len(),
            cut == (|c: char| white_space(c)),
            keep == (|w: Seq<char>| w.len() > 0),
            done.push(cur@) == split_by(cs@.take(i as int), cut),
            texts(out@) == done.filter(keep),
        decreases cs@.len() - i,
    {
        let c = cs[i];
        assert(cs@.take(i as int + 1).drop_last() =~= cs@.take(i as int));
        assert(done.push(cur@).drop_last() =~= done);
        if c.is_whitespace() {
            proof {
                lemma_filter_push(done, cur@, keep);
                done = done.push(cur@);
            }
            if !cur.as_str().is_empty() {
                proof {
                    lemma_texts_push(out@, cur);
                }
                out.push(cur);
            }
            cur = String::new();
        } else {
            cur.push(c);
        }
        i = i + 1;
    }
    assert(cs@.take(cs@.len() as int) =~= cs@);
    proof {
        lemma_filter_push(done, cur@, keep);
    }
    if !cur.as_str().is_empty() {
        proof {
            lemma_texts_push(out@, cur);
        }
        out.push(cur);
    }
    out
}

/// Filtering a sequence with one more element.
pub proof fn lemma_filter_push<A>(s: Seq<A>, x: A, keep: spec_fn(A) -> bool)
    ensures
        s.push(x).filter(keep) == if keep(x) {
            s.filter(keep).push(x)
        } else {
            s.filter(keep)
        },
{
    reveal(Seq::filter);
    assert(s.push(x).drop_last() =~= s);
}

/// What a filter lets through satisfies it and was there.
pub proof fn lemma_filter_elem<A>(s: Seq<A>, keep: spec_fn(A) -> bool, x: A)
    requires
        s.filter(keep).contains(x),
    ensures
        keep(x),
        s.contains(x),
    decreases s.len(),
{
    reveal(Seq::filter);
    if s.len() > 0 {
        let t = s.drop_last();
        let f = t.filter(keep);
        let i = choose|i: int| 0 <= i < s.filter(keep).len() && s.filter(keep)[i] == x;
        if i < f.len() {
            assert(f[i] == x);
            lemma_filter_elem(t, keep, x);
            let k = choose|k: int| 0 <= k < t.len() && t[k] == x;
            assert(s[k] == x);
        } else {
            assert(s[s.len() - 1] == x);
        }
    }
}

/// Words with a space between them are read back as they were.
pub proof fn lemma_words_read_back(parts: Seq<Seq<char>>)
    requires
        parts.len() > 0,
        forall|i: int| 0 <= i < parts.len() ==> (#[trigger] parts[i]).len() > 0,
        forall|i: int, k: int|
            0 <= i < parts.len() && 0 <= k < parts[i].len() ==> !white_space(#[trigger] parts[i][k]),
    ensures
        words(joined(parts, seq![' '])) == parts,
{
    let s = joined(parts, seq![' ']);
    assert forall|i: int| 0 <= i < parts.len() implies !(#[trigger] parts[i]).contains(' ') by {
        if parts[i].contains(' ') {
            let k = choose|k: int| 0 <= k < parts[i].len() && parts[i][k] == ' ';
            assert(white_space(parts[i][k]));
        }
    }
    lemma_joined_split(parts, ' ');
    lemma_joined_chars(parts);
    let space = one_of(seq![' ']);
    assert(seq![' '][0] == ' ');
    assert forall|i: int| 0 <= i < s.len() implies white_space(#[trigger] s[i]) == space(s[i]) by {
        if space(s[i]) {
            assert(seq![' '].contains(s[i]));
            assert(s[i] == ' ');
        }
    }
    lemma_same_cuts(s, |c: char| white_space(c), space);
    lemma_filter_keeps(parts, |w: Seq<char>| w.len() > 0);
}

proof fn lemma_joined_chars(parts: Seq<Seq<char>>)
    requires
        forall|i: int, k: int|
            0 <= i < parts.len() && 0 <= k < parts[i].len() ==> !white_space(#[trigger] parts[i][k]),
    ensures
        forall|j: int|
            0 <= j < joined(parts, seq![' ']).len() && white_space(
                #[trigger] joined(parts, seq![' '])[j],
            ) ==> joined(parts, seq![' '])[j] == ' ',
    decreases parts.len(),
{
    let s = joined(parts, seq![' ']);
    if parts.len() == 1 {
        assert(s == parts[0]);
    } else if parts.len() > 1 {
        let front = parts.drop_last();
        assert forall|i: int, k: int|
            0 <= i < front.len() && 0 <= k < front[i].len() implies !white_space(
            #[trigger] front[i][k],
        ) by {
            assert(front[i][k] == parts[i][k]);
        }
        lemma_joined_chars(front);
        let a = joined(front, seq![' ']);
        let b = parts.last();
        assert forall|j: int| 0 <= j < s.len() && white_space(#[trigger] s[j]) implies s[j] == ' '
            by {
            if j < a.len() {
                assert(s[j] == a[j]);
            } else if j > a.len() {
                assert(s[j] == b[j - a.len() - 1]);
                assert(b[j - a.len() - 1] == parts[parts.len() - 1][j - a.len() - 1]);
            }
        }
    }
}

proof fn lemma_same_cuts(s: Seq<char>, a: spec_fn(char) -> bool, b: spec_fn(char) -> bool)
    requires
        forall|i: int| 0 <= i < s.len() ==> a(#[trigger] s[i]) == b(s[i]),
    ensures
        split_by(s, a) == split_by(s, b),
    decreases s.len(),
{
    if s.len() > 0 {
        let t = s.drop_last();
        assert forall|i: int| 0 <= i < t.len() implies a(#[trigger] t[i]) == b(t[i]) by {
            assert(t[i] == s[i]);
        }
        lemma_same_cuts(t, a, b);
        assert(a(s[s.len() - 1]) == b(s[s.len() - 1]));
    }
}

proof fn lemma_filter_keeps<A>(s: Seq<A>, keep: spec_fn(A) -> bool)
    requires
        forall|i: int| 0 <= i < s.len() ==> keep(#[trigger] s[i]),
    ensures
        s.filter(keep) == s,
    decreases s.len(),
{
    reveal(Seq::filter);
    if s.len() > 0 {
        let t = s.drop_last();
        assert forall|i: int| 0 <= i < t.len() implies keep(#[trigger] t[i]) by {
            assert(t[i] == s[i]);
        }
        lemma_filter_keeps(t, keep);
        assert(keep(s[s.len() - 1]));
        assert(t.push(s.last()) =~= s);
    } else {
        assert(s.filter(keep) =~= s);
    }
}

/// Trimming takes the white space away from both ends and leaves what is between.
pub proof fn lemma_trimmed_ends(a: Seq<char>, s: Seq<char>, b: Seq<char>)
    requires
        forall|i: int| 0 <= i < a.len() ==> white_space(#[trigger] a[i]),
        forall|i: int| 0 <= i < b.len() ==> white_space(#[trigger] b[i]),
        s.len() > 0,
        !white_space(s[0]),
        !white_space(s.last()),
    ensures
        trim(a + s + b) == s,
        trim(a) == Seq::<char>::empty(),
    decreases a.len() + b.len(),
{
    let t = a + s + b;
    if a.len() > 0 {
        let rest = a.drop_first();
        assert forall|i: int| 0 <= i < rest.len() implies white_space(#[trigger] rest[i]) by {
            assert(rest[i] == a[i + 1]);
        }
        assert(t[0] == a[0]);
        assert(white_space(a[0]));
        assert(t.drop_first() =~= rest + s + b);
        lemma_trimmed_ends(rest, s, b);
    } else {
        assert(t[0] == s[0]);
        assert(trim_start(t) == t);
        assert(trim_start(a) =~= Seq::<char>::empty());
        if b.len() > 0 {
            let less = b.drop_last();
            assert forall|i: int| 0 <= i < less.len() implies white_space(#[trigger] less[i]) by {
                assert(less[i] == b[i]);
            }
            assert(t.last() == b[b.len() - 1]);
            assert(t.drop_last() =~= a + s + less);
            lemma_trimmed_ends(a, s, less);
            assert((a + s + less)[0] == s[0]);
            assert(trim_start(a + s + less) == a + s + less);
        } else {
            assert(t =~= s);
        }
    }
}

/// `s` cut at the first `sep`: what stands before it and what stands behind.
pub open spec fn cut_once(s: Seq<char>, sep: char) -> Option<(Seq<char>, Seq<char>)> {
    match first_at(s, seq![sep], 0) {
        Some(i) => Some((s.take(i), s.skip(i + 1))),
        None => None,
    }
}

/// A text is cut at the first separator, and a text without one is not cut.
pub proof fn lemma_cut_once(a: Seq<char>, sep: char, b: Seq<char>)
    requires
        !a.contains(sep),
    ensures
        cut_once(a, sep) is None,
        cut_once(a + seq![sep] + b, sep) == Some((a, b)),
{
    let s = a + seq![sep] + b;
    lemma_first_at(a, seq![sep], 0);
    if first_at(a, seq![sep], 0) is Some {
        let i = first_at(a, seq![sep], 0)->0;
        assert(a.subrange(i, i + 1)[0] == sep);
        assert(a[i] == sep);
    }
    lemma_first_at(s, seq![sep], 0);
    assert(s.subrange(a.len() as int, a.len() as int + 1) =~= seq![sep]);
    assert(occurs(s, seq![sep], a.len() as int));
    let i = first_at(s, seq![sep], 0)->0;
    assert(s.subrange(i, i + 1)[0] == sep);
    if i < a.len() {
        assert(a[i] == sep);
    }
    assert(s.take(i) =~= a);
    assert(s.skip(i + 1) =~= b);
}

/// Cutting a text at a separator in it, and its two halves, gives the same parts.
pub proof fn lemma_split_halves(a: Seq<char>, sep: char, b: Seq<char>)
    ensures
        split(a + seq![sep] + b, seq![sep]) == split(a, seq![sep]) + split(b, seq![sep]),
    decreases b.len(),
{
    let cut = one_of(seq![sep]);
    let s = a + seq![sep] + b;
    assert(seq![sep][0] == sep);
    if b.len() == 0 {
        assert(s.drop_last() =~= a);
        assert(split(s, seq![sep]) =~= split(a, seq![sep]) + split(b, seq![sep]));
    } else {
        let t = b.drop_last();
        lemma_split_halves(a, sep, t);
        lemma_split_parts(t, cut);
        assert(s.drop_last() =~= a + seq![sep] + t);
        let before = split_by(a, cut) + split_by(t, cut);
        assert(before.last() == split_by(t, cut).last());
        assert(before.drop_last() =~= split_by(a, cut) + split_by(t, cut).drop_last());
        assert(split(s, seq![sep]) =~= split(a, seq![sep]) + split(b, seq![sep]));
    }
}

/// A text without the separator is its own only part.
pub proof fn lemma_split_single(a: Seq<char>, sep: char)
    requires
        !a.contains(sep),
    ensures
        split(a, seq![sep]) == seq![a],
{
    let parts = seq![a];
    assert forall|i: int| 0 <= i < parts.len() implies !(#[trigger] parts[i]).contains(sep) by {}
    lemma_joined_split(parts, sep);
}

pub open spec fn opt_pair(o: Option<(String, String)>) -> Option<(Seq<char>, Seq<char>)> {
    match o {
        Some(p) => Some((p.0@, p.1@)),
        None => None,
    }
}

/// `s` cut at the first `sep`.
pub fn split_once(s: &str, sep: char) -> (r: Option<(String, String)>)
    ensures
        opt_pair(r) == cut_once(s@, sep),
{
    let cs = chars_of(s);
    let mut pat: Vec<char> = Vec::new();
    pat.push(sep);
    assert(pat@ =~= seq![sep]);
    match find_from(&cs, &pat, 0) {
        Some(i) => {
            let n: usize = cs.len();
            let a = piece(&cs, 0, i);
            let b = piece(&cs, i + 1, n);
            assert(a@ =~= s@.take(i as int));
            assert(b@ =~= s@.skip(i as int + 1));
            Some((a, b))
        },
        None => None,
    }
}

/// `s` without a carriage return at its end.
pub open spec fn drop_return(s: Seq<char>) -> Seq<char> {
    if s.len() > 0 && s.last() == '\r' {
        s.drop_last()
    } else {
        s
    }
}

/// The lines of `s`. A line ends at a line feed, which may have a carriage
/// return before it; behind the last line feed there is a line only where
/// characters are left.
pub open spec fn lines(s: Seq<char>) -> Seq<Seq<char>> {
    let parts = split(s, seq!['\n']);
    let last = parts.len() - 1;
    let ended = parts.take(last).map_values(|p: Seq<char>| drop_return(p));
    if parts[last].len() == 0 {
        ended
    } else {
        ended.push(parts[last])
    }
}

fn without_return(s: &str) -> (r: String)
    ensures
        r@ == drop_return(s@),
{
    let cs = chars_of(s);
    if cs.len() > 0 && cs[cs.len() - 1] == '\r' {
        let r = piece(&cs, 0, cs.len() - 1);
        assert(r@ =~= s@.drop_last());
        r
    } else {
        s.to_owned()
    }
}

/// The lines of `s`.
pub fn lines_of(s: &str) -> (r: Vec<String>)
    ensures
        texts(r@) == lines(s@),
{
    let sep: [char; 1] = ['\n'];
    assert(sep@ =~= seq!['\n']);
    let parts = split_on(s, &sep);
    proof {
        lemma_split_parts(s@, one_of(seq!['\n']));
    }
    let ghost all = texts(parts@);
    let last: usize = parts.len() - 1;
    let mut out: Vec<String> = Vec::new();
    let mut i: usize = 0;
    while i < last
        invariant
            i <= last,
            last == parts@.len() - 1,
            all == texts(parts@),
            texts(out@) =~= all.take(i as int).map_values(|p: Seq<char>| drop_return(p)),
        decreases last - i,
    {
        let line = without_return(parts[i].as_str());
        proof {
            lemma_texts_push(out@, line);
        }
        out.push(line);
        i = i + 1;
    }
    if !parts[last].as_str().is_empty() {
        proof {
            lemma_texts_push(out@, parts@[last as int]);
        }
        out.push(parts[last].clone());
    }
    out
}

/// Putting the parts back together with a separator between them.
pub open spec fn joined(parts: Seq<Seq<char>>, sep: Seq<char>) -> Seq<char>
    decreases parts.len(),
{
    if parts.len() == 0 {
        Seq::empty()
    } else if parts.len() == 1 {
        parts[0]
    } else {
        joined(parts.drop_last(), sep) + sep + parts.last()
    }
}

/// Cutting at one character and joining with it again gives the text back.
pub proof fn lemma_split_joined(s: Seq<char>, sep: char)
    ensures
        joined(split(s, seq![sep]), seq![sep]) == s,
    decreases s.len(),
{
    let cut = one_of(seq![sep]);
    lemma_split_parts(s, cut);
    if s.len() == 0 {
    } else {
        let t = s.drop_last();
        let before = split_by(t, cut);
        lemma_split_joined(t, sep);
        lemma_split_parts(t, cut);
        assert(seq![sep].contains(s.last()) <==> s.last() == sep) by {
            assert(seq![sep][0] == sep);
        }
        if s.last() == sep {
            let all = before.push(Seq::<char>::empty());
            assert(all.drop_last() =~= before);
            assert(joined(all, seq![sep]) =~= s);
        } else {
            let all = before.drop_last().push(before.last().push(s.last()));
            assert(s =~= t.push(s.last()));
            assert(all.last() == before.last().push(s.last()));
            if before.len() == 1 {
                assert(all.len() == 1);
                assert(joined(all, seq![sep]) =~= s);
            } else {
                assert(all.drop_last() =~= before.drop_last());
                let head = joined(before.drop_last(), seq![sep]) + seq![sep];
                assert(t == head + before.last());
                assert(joined(all, seq![sep]) == head + all.last());
                assert(head + before.last().push(s.last()) =~= (head + before.last()).push(
                    s.last(),
                ));
            }
        }
    }
}

/// Joining parts with a character that none of them holds and cutting at it
/// again gives the parts back.
pub proof fn lemma_joined_split(parts: Seq<Seq<char>>, sep: char)
    requires
        parts.len() > 0,
        forall|i: int| 0 <= i < parts.len() ==> !(#[trigger] parts[i]).contains(sep),
    ensures
        split(joined(parts, seq![sep]), seq![sep]) == parts,
    decreases parts.len(), parts.last().len(),
{
    let cut = one_of(seq![sep]);
    let all = joined(parts, seq![sep]);
    let last = parts.last();
    let front = parts.drop_last();
    assert(seq![sep][0] == sep);
    if last.len() == 0 {
        if parts.len() == 1 {
            assert(all =~= Seq::<char>::empty());
            assert(split(all, seq![sep]) =~= parts);
        } else {
            lemma_joined_split(front, sep);
            assert(all =~= joined(front, seq![sep]).push(sep));
            assert(all.drop_last() =~= joined(front, seq![sep]));
            assert(cut(sep));
            assert(last =~= Seq::<char>::empty());
            assert(split(all, seq![sep]) =~= parts);
        }
    } else {
        let c = last.last();
        let less = front.push(last.drop_last());
        assert(last.contains(c));
        assert(parts[parts.len() - 1] == last);
        assert(!seq![sep].contains(c)) by {
            assert(seq![sep].len() == 1);
        }
        assert forall|i: int| 0 <= i < less.len() implies !(#[trigger] less[i]).contains(sep) by {
            if i < front.len() {
                assert(less[i] == parts[i]);
            } else {
                if less[i].contains(sep) {
                    let k = choose|k: int| 0 <= k < less[i].len() && less[i][k] == sep;
                    assert(last[k] == sep);
                }
            }
        }
        lemma_joined_split(less, sep);
        assert(less.drop_last() =~= front);
        assert(all =~= joined(less, seq![sep]).push(c));
        assert(all.drop_last() =~= joined(less, seq![sep]));
        assert(last.drop_last().push(c) =~= last);
        assert(split(all, seq![sep]) =~= parts);
    }
}

/// The parts joined with `sep` between them.
pub fn join_texts(parts: &Vec<String>, sep: &str) -> (r: String)
    ensures
        r@ == joined(texts(parts@), sep@),
{
    let mut out = String::new();
    let mut i: usize = 0;
    let ghost all = texts(parts@);
    assert(all.take(0) =~= Seq::<Seq<char>>::empty());
    while i < parts.len()
        invariant
            i <= parts@.len(),
            all == texts(parts@),
            out@ == joined(all.take(i as int), sep@),
        decreases parts@.len() - i,
    {
        assert(all.take(i as int + 1).drop_last() =~= all.take(i as int));
        if i > 0 {
            out.append(sep);
        }
        out.append(parts[i].as_str());
        assert(out@ =~= joined(all.take(i as int + 1), sep@));
        i = i + 1;
    }
    assert(all.take(all.len() as int) =~= all);
    out
}

/// `s` with every `from` replaced by the characters `to`.
pub open spec fn replaced(s: Seq<char>, from: char, to: Seq<char>) -> Seq<char>
    decreases s.len(),
{
    if s.len() == 0 {
        Seq::empty()
    } else {
        replaced(s.drop_last(), from, to) + if s.last() == from {
            to
        } else {
            seq![s.last()]
        }
    }
}

/// `s` with every `from` replaced by the characters `to`.
pub fn replace_char(s: &str, from: char, to: &str) -> (r: String)
    ensures
        r@ == replaced(s@, from, to@),
{
    let cs = chars_of(s);
    let mut out = String::new();
    let mut i: usize = 0;
    assert(cs@.take(0) =~= Seq::<char>::empty());
    while i < cs.len()
        invariant
            i <= cs@.len(),
            out@ == replaced(cs@.take(i as int), from, to@),
        decreases cs@.len() - i,
    {
        assert(cs@.take(i as int + 1).drop_last() =~= cs@.take(i as int));
        if cs[i] == from {
            out.append(to);
        } else {
            out.push(cs[i]);
        }
        assert(out@ =~= replaced(cs@.take(i as int + 1), from, to@));
        i = i + 1;
    }
    assert(cs@.take(cs@.len() as int) =~= cs@);
    out
}

/// At most the first `n` characters of `s`.
pub open spec fn clipped(s: Seq<char>, n: int) -> Seq<char> {
    if s.len() > n {
        s.take(n)
    } else {
        s
    }
}

/// At most the first `n` characters of `s`.
pub fn clip(s: &str, n: usize) -> (r: String)
    ensures
        r@ == clipped(s@, n as int),
{
    let cs = chars_of(s);
    if cs.len() > n {
        let r = piece(&cs, 0, n);
        assert(r@ =~= s@.take(n as int));
        r
    } else {
        s.to_owned()
    }
}

/// The number of characters of `s`.
pub fn count_chars(s: &str) -> (n: usize)
    ensures
        n == s@.len(),
{
    chars_of(s).len()
}

// ---------------------------------------------------------------------------
// Decimal notation
// ---------------------------------------------------------------------------

pub open spec fn digit_value(c: char) -> Option<nat> {
    if '0' <= c && c <= '9' {
        Some((c as int - '0' as int) as nat)
    } else {
        None
    }
}

/// The number that a run of decimal digits stands for; nothing where a
/// character is no digit.
pub open spec fn digits_value(s: Seq<char>) -> Option<nat>
    decreases s.len(),
{
    if s.len() == 0 {
        Some(0)
    } else {
        match (digits_value(s.drop_last()), digit_value(s.last())) {
            (Some(n), Some(d)) => Some(n * 10 + d),
            _ => None,
        }
    }
}

/// The whole number that `s` writes: an optional plus sign and one digit or
/// more.
pub open spec fn unsigned_value(s: Seq<char>) -> Option<nat> {
    let d = if s.len() > 0 && s[0] == '+' {
        s.drop_first()
    } else {
        s
    };
    if d.len() == 0 {
        None
    } else {
        digits_value(d)
    }
}

/// The whole number that `s` writes: an optional sign and one digit or more.
pub open spec fn signed_value(s: Seq<char>) -> Option<int> {
    if s.len() > 0 && s[0] == '-' {
        if s.len() == 1 {
            None
        } else {
            match digits_value(s.drop_first()) {
                Some(n) => Some(-(n as int)),
                None => None,
            }
        }
    } else {
        match unsigned_value(s) {
            Some(n) => Some(n as int),
            None => None,
        }
    }
}

/// `unsigned_value`, where the number is at most `max`.
pub open spec fn unsigned_upto(s: Seq<char>, max: nat) -> Option<nat> {
    match unsigned_value(s) {
        Some(n) => if n <= max {
            Some(n)
        } else {
            None
        },
        None => None,
    }
}

proof fn lemma_digits_grow(s: Seq<char>, i: int)
    requires
        0 <= i <= s.len(),
        digits_value(s) is Some,
    ensures
        digits_value(s.take(i)) is Some,
        digits_value(s.take(i))->0 <= digits_value(s)->0,
    decreases s.len(),
{
    if i == s.len() {
        assert(s.take(i) =~= s);
    } else {
        lemma_digits_grow(s.drop_last(), i);
        assert(s.drop_last().take(i) =~= s.take(i));
    }
}

/// The number that `cs[from..]` writes in digits, where it is at most `max`.
fn digits_upto(cs: &Vec<char>, from: usize, max: u64) -> (r: Option<u64>)
    requires
        from <= cs@.len(),
    ensures
        match digits_value(cs@.skip(from as int)) {
            Some(n) => if n <= max {
                r == Some(n as u64)
            } else {
                r is None
            },
            None => r is None,
        },
{
    let ghost d = cs@.skip(from as int);
    let mut n: u64 = 0;
    let mut i: usize = from;
    assert(d.take(0) =~= Seq::<char>::empty());
    while i < cs.len()
        invariant
            from <= i <= cs@.len(),
            d == cs@.skip(from as int),
            digits_value(d.take(i - from)) == Some(n as nat),
            n <= max,
        decreases cs@.len() - i,
    {
        let c = cs[i];
        let ghost k = i - from;
        assert(d.take(k + 1).drop_last() =~= d.take(k));
        assert(d.take(k + 1).last() == c);
        if !('0' <= c && c <= '9') {
            proof {
                if digits_value(d) is Some {
                    lemma_digits_grow(d, k + 1);
                }
            }
            return None;
        }
        let v: u64 = (c as u32 - '0' as u32) as u64;
        if n > (u64::MAX - v) / 10 || n * 10 + v > max {
            proof {
                if digits_value(d) is Some {
                    lemma_digits_grow(d, k + 1);
                }
            }
            return None;
        }
        n = n * 10 + v;
        i = i + 1;
    }
    assert(d.take(d.len() as int) =~= d);
    Some(n)
}

/// The whole number up to `max` that `s` writes.
pub fn parse_upto(s: &str, max: u64) -> (r: Option<u64>)
    ensures
        match unsigned_upto(s@, max as nat) {
            Some(n) => r == Some(n as u64),
            None => r is None,
        },
{
    let cs = chars_of(s);
    let from: usize = if cs.len() > 0 && cs[0] == '+' {
        1
    } else {
        0
    };
    proof {
        assert(cs@.skip(0) =~= cs@);
        if cs@.len() > 0 {
            assert(cs@.skip(1) =~= cs@.drop_first());
        }
    }
    if from == cs.len() {
        return None;
    }
    digits_upto(&cs, from, max)
}

pub fn parse_u16(s: &str) -> (r: Option<u16>)
    ensures
        match unsigned_upto(s@, u16::MAX as nat) {
            Some(n) => r == Some(n as u16),
            None => r is None,
        },
{
    match parse_upto(s, 65535) {
        Some(n) => Some(n as u16),
        None => None,
    }
}

pub fn parse_u32(s: &str) -> (r: Option<u32>)
    ensures
        match unsigned_upto(s@, u32::MAX as nat) {
            Some(n) => r == Some(n as u32),
            None => r is None,
        },
{
    match parse_upto(s, 4294967295) {
        Some(n) => Some(n as u32),
        None => None,
    }
}

pub fn parse_usize(s: &str) -> (r: Option<usize>)
    ensures
        match unsigned_upto(s@, usize::MAX as nat) {
            Some(n) => r == Some(n as usize),
            None => r is None,
        },
{
    match parse_upto(s, usize::MAX as u64) {
        Some(n) => Some(n as usize),
        None => None,
    }
}

/// The whole number that `s` writes, where an `i64` holds it.
pub fn parse_i64(s: &str) -> (r: Option<i64>)
    ensures
        match signed_value(s@) {
            Some(n) => if i64::MIN <= n <= i64::MAX {
                r == Some(n as i64)
            } else {
                r is None
            },
            None => r is None,
        },
{
    let cs = chars_of(s);
    if cs.len() > 0 && cs[0] == '-' {
        assert(cs@.skip(1) =~= cs@.drop_first());
        if cs.len() == 1 {
            return None;
        }
        match digits_upto(&cs, 1, 9223372036854775808) {
            Some(n) => {
                if n == 9223372036854775808 {
                    Some(i64::MIN)
                } else {
                    Some(-(n as i64))
                }
            },
            None => None,
        }
    } else {
        match parse_upto(s, 9223372036854775807) {
            Some(n) => Some(n as i64),
            None => None,
        }
    }
}

pub open spec fn digit_char(d: nat) -> char {
    seq!['0', '1', '2', '3', '4', '5', '6', '7', '8', '9'][d as int]
}

/// The decimal notation of `n`.
pub open spec fn dec(n: nat) -> Seq<char>
    decreases n,
{
    if n < 10 {
        seq![digit_char(n)]
    } else {
        dec(n / 10).push(digit_char(n % 10))
    }
}

/// The decimal notation of `n`, with a minus sign where it is negative.
pub open spec fn dec_int(n: int) -> Seq<char> {
    if n < 0 {
        seq!['-'] + dec((-n) as nat)
    } else {
        dec(n as nat)
    }
}

/// The decimal notation of `n`.
pub fn dec_u64(n: u64) -> (r: String)
    ensures
        r@ == dec(n as nat),
    decreases n,
{
    let digits: [char; 10] = ['0', '1', '2', '3', '4', '5', '6', '7', '8', '9'];
    if n < 10 {
        let mut out = String::new();
        out.push(digits[n as usize]);
        assert(out@ =~= dec(n as nat));
        out
    } else {
        let mut out = dec_u64(n / 10);
        out.push(digits[(n % 10) as usize]);
        out
    }
}

/// The decimal notation of `n`.
pub fn dec_i64(n: i64) -> (r: String)
    ensures
        r@ == dec_int(n as int),
{
    if n < 0 {
        let mag: u64 = if n == i64::MIN {
            9223372036854775808
        } else {
            (-n) as u64
        };
        let mut out = String::new();
        out.push('-');
        out.append(dec_u64(mag).as_str());
        assert(out@ =~= dec_int(n as int));
        out
    } else {
        dec_u64(n as u64)
    }
}

/// Reading back what `dec` writes gives the number.
pub proof fn lemma_dec_value(n: nat)
    ensures
        digits_value(dec(n)) == Some(n),
        dec(n).len() >= 1,
        dec(n)[0] != '+',
        unsigned_value(dec(n)) == Some(n),
    decreases n,
{
    if n < 10 {
        let s = dec(n);
        assert(s.drop_last() =~= Seq::<char>::empty());
        assert(digits_value(s.drop_last()) == Some(0nat));
        assert(digit_value(s.last()) == Some(n));
    } else {
        let s = dec(n);
        lemma_dec_value(n / 10);
        assert(s.drop_last() =~= dec(n / 10));
        assert(digit_value(s.last()) == Some((n % 10) as nat));
    }
}

/// The decimal notation of a number holds digits alone.
pub proof fn lemma_dec_digits(n: nat, i: int)
    requires
        0 <= i < dec(n).len(),
    ensures
        '0' <= dec(n)[i] <= '9',
    decreases n,
{
    if n >= 10 && i < dec(n).len() - 1 {
        lemma_dec_digits(n / 10, i);
        assert(dec(n)[i] == dec(n / 10)[i]);
    }
}

/// The decimal notation of a number holds no character that is not a digit.
pub proof fn lemma_dec_lacks(n: nat, c: char)
    requires
        c < '0' || c > '9',
    ensures
        !dec(n).contains(c),
{
    if dec(n).contains(c) {
        let i = choose|i: int| 0 <= i < dec(n).len() && dec(n)[i] == c;
        lemma_dec_digits(n, i);
    }
}

// ---------------------------------------------------------------------------
// Order
// ---------------------------------------------------------------------------

/// `a` stands before `b` in the order of a dictionary over code points.
pub open spec fn text_lt(a: Seq<char>, b: Seq<char>) -> bool
    decreases a.len(),
{
    if b.len() == 0 {
        false
    } else if a.len() == 0 {
        true
    } else if a[0] != b[0] {
        a[0] < b[0]
    } else {
        text_lt(a.drop_first(), b.drop_first())
    }
}

pub proof fn lemma_text_lt_irreflexive(a: Seq<char>)
    ensures
        !text_lt(a, a),
    decreases a.len(),
{
    if a.len() > 0 {
        lemma_text_lt_irreflexive(a.drop_first());
    }
}

pub proof fn lemma_text_lt_transitive(a: Seq<char>, b: Seq<char>, c: Seq<char>)
    requires
        text_lt(a, b),
        text_lt(b, c),
    ensures
        text_lt(a, c),
    decreases a.len(),
{
    if a.len() > 0 && a[0] == b[0] && b[0] == c[0] {
        lemma_text_lt_transitive(a.drop_first(), b.drop_first(), c.drop_first());
    }
}

pub proof fn lemma_text_lt_total(a: Seq<char>, b: Seq<char>)
    ensures
        text_lt(a, b) || text_lt(b, a) || a == b,
    decreases a.len(),
{
    if a.len() > 0 && b.len() > 0 && a[0] == b[0] {
        lemma_text_lt_total(a.drop_first(), b.drop_first());
        if a.drop_first() == b.drop_first() {
            assert(a =~= seq![a[0]] + a.drop_first());
            assert(b =~= seq![b[0]] + b.drop_first());
        }
    } else if a.len() == 0 && b.len() == 0 {
        assert(a =~= b);
    }
}

/// Whether `a` stands before `b`.
pub fn comes_before(a: &str, b: &str) -> (r: bool)
    ensures
        r == text_lt(a@, b@),
{
    let x = chars_of(a);
    let y = chars_of(b);
    let mut i: usize = 0;
    assert(x@.skip(0) =~= x@);
    assert(y@.skip(0) =~= y@);
    while i < x.len() && i < y.len()
        invariant
            i <= x@.len(),
            i <= y@.len(),
            x@ == a@,
            y@ == b@,
            text_lt(x@, y@) == text_lt(x@.skip(i as int), y@.skip(i as int)),
        decreases x@.len() - i,
    {
        assert(x@.skip(i as int)[0] == x@[i as int]);
        assert(y@.skip(i as int)[0] == y@[i as int]);
        let p: char = x[i];
        let q: char = y[i];
        if p != q {
            return p < q;
        }
        assert(x@.skip(i as int).drop_first() =~= x@.skip(i as int + 1));
        assert(y@.skip(i as int).drop_first() =~= y@.skip(i as int + 1));
        i = i + 1;
    }
    i < y.len()
}

} // verus!
