//! The scripts that are run in a page.
use vstd::prelude::*;

use crate::text::{
    contains, dec, dec_u64, digits_value, first_at, join3, lemma_dec_digits, lemma_dec_value,
    lemma_first_at, occurs, replace_char, replaced, same,
};

verus! {

/// Clicks an element: up to the selector.
pub const CLICK_FIND: &'static str = r#"(() => {
        const el = document.querySelector('"#;

/// Clicks an element: between the two places of the selector.
pub const CLICK_MISSING: &'static str = r#"');
        if (!el) throw new Error('Element not found: "#;

/// Clicks an element: what follows the selector.
pub const CLICK_END: &'static str = r#"');
        el.scrollIntoView({block: 'center'});
        el.click();
        return true;
      })()"#;

/// Focuses an element: up to the selector.
pub const FOCUS_FIND: &'static str = r#"(() => {
          const el = document.querySelector('"#;

/// Focuses an element: between the two places of the selector.
pub const FOCUS_MISSING: &'static str = r#"');
          if (!el) throw new Error('Element not found: "#;

/// Focuses an element and leaves what is in it.
pub const FOCUS_END: &'static str = r#"');
          el.scrollIntoView({block: 'center'});
          el.focus();
          return true;
        })()"#;

/// Focuses an element and empties it.
pub const FOCUS_CLEAR_END: &'static str = r#"');
          el.scrollIntoView({block: 'center'});
          el.focus();
          el.value = '';
          el.dispatchEvent(new Event('input', {bubbles: true}));
          return true;
        })()"#;

/// Reads an element: up to the selector.
pub const CONTENT_FIND: &'static str = r#"(() => {
            const el = document.querySelector('"#;

/// Reads the markup of an element.
pub const CONTENT_HTML_END: &'static str = r#"');
            return el ? el.outerHTML : null;
          })()"#;

/// Reads the text of an element.
pub const CONTENT_TEXT_END: &'static str = r#"');
            return el ? el.innerText : null;
          })()"#;

/// Clicks a listed element: up to its number.
pub const CLICK_INDEX_FIND: &'static str = r#"(() => {
        const arr = window.__watermelon_interactive;
        if (!arr || !arr["#;

/// Clicks a listed element: between the first two places of its number.
pub const CLICK_INDEX_MISSING: &'static str = "]) throw new Error('No element at index ";

/// Clicks a listed element: between the last two places of its number.
pub const CLICK_INDEX_TAKE: &'static str = r#". Call get_interactive_elements first or after navigation.');
        const el = arr["#;

/// Clicks a listed element: what follows its number.
pub const CLICK_INDEX_END: &'static str = r#"];
        el.scrollIntoView({block: 'center'});
        el.click();
        return true;
      })()"#;

/// Focuses a listed element: up to its number.
pub const FOCUS_INDEX_FIND: &'static str = r#"(() => {
          const arr = window.__watermelon_interactive;
          if (!arr || !arr["#;

/// Focuses a listed element: between the first two places of its number.
pub const FOCUS_INDEX_MISSING: &'static str = "]) throw new Error('No element at index ";

/// Focuses a listed element: between the last two places of its number.
pub const FOCUS_INDEX_TAKE: &'static str = r#". Call get_interactive_elements first or after navigation.');
          const el = arr["#;

/// Focuses a listed element and leaves what is in it.
pub const FOCUS_INDEX_END: &'static str = r#"];
          el.scrollIntoView({block: 'center'});
          el.focus();
          return true;
        })()"#;

/// Focuses a listed element and empties it.
pub const FOCUS_INDEX_CLEAR_END: &'static str = r#"];
          el.scrollIntoView({block: 'center'});
          el.focus();
          el.value = '';
          el.dispatchEvent(new Event('input', {bubbles: true}));
          return true;
        })()"#;

/// Lists the elements of a page that can be acted on: up to the limit. The
/// elements stay in the page, so that they can be found by their number.
pub const ELEMENTS_HEAD: &'static str = r#"(() => {
  const SELECTORS = 'a, button, input, select, textarea, [role="button"], [role="link"], [role="checkbox"], [role="radio"], [role="tab"], [role="menuitem"], [role="combobox"], [role="option"], [contenteditable=""], [contenteditable="true"], [tabindex]:not([tabindex="-1"])';
  const ATTRS = ['type','name','id','role','aria-label','aria-checked','aria-expanded','placeholder','title','value','href','alt'];
  const MAX_CHARS = "#;

/// Lists the elements of a page that can be acted on: what follows the limit.
pub const ELEMENTS_TAIL: &'static str = r#";
  const interactive = [];
  const lines = [];
  let truncated = false;
  let total = 0;
  const nodes = document.querySelectorAll(SELECTORS);
  for (const el of nodes) {
    if (el.disabled) continue;
    const r = el.getBoundingClientRect();
    if (r.width <= 0 || r.height <= 0) continue;
    const style = window.getComputedStyle(el);
    if (style.visibility === 'hidden' || style.display === 'none' || style.opacity === '0') continue;
    const tag = el.tagName.toLowerCase();
    const parts = [];
    for (const a of ATTRS) {
      const v = el.getAttribute(a);
      if (v) parts.push(a + '="' + String(v).slice(0,100).replace(/"/g,'\\"') + '"');
    }
    let text = '';
    if (!['INPUT','TEXTAREA','SELECT'].includes(el.tagName)) {
      text = (el.innerText || el.textContent || '').trim().replace(/\s+/g,' ').slice(0,100);
    }
    const idx = interactive.length;
    const line = '[' + idx + ']<' + tag + (parts.length ? ' ' + parts.join(' ') : '') + '>' + text + '</' + tag + '>';
    if (total + line.length + 1 > MAX_CHARS) { truncated = true; break; }
    total += line.length + 1;
    interactive.push(el);
    lines.push(line);
  }
  window.__watermelon_interactive = interactive;
  return JSON.stringify({ elements: lines.join('\n'), count: interactive.length, truncated: truncated });
})()"#;

/// Reads what a page can see of the browser.
pub const FINGERPRINT: &'static str = r#"(() => {
      const out = {};
      const set = (k, fn) => { try { out[k] = fn(); } catch (e) {} };
      set('userAgent', () => navigator.userAgent);
      set('platform', () => navigator.platform);
      set('vendor', () => navigator.vendor);
      set('language', () => navigator.language);
      set('languages', () => navigator.languages);
      set('hardwareConcurrency', () => navigator.hardwareConcurrency);
      set('deviceMemory', () => navigator.deviceMemory);
      set('maxTouchPoints', () => navigator.maxTouchPoints);
      set('webdriver', () => navigator.webdriver);
      set('doNotTrack', () => navigator.doNotTrack);
      set('screen', () => ({
        width: screen.width, height: screen.height,
        availWidth: screen.availWidth, availHeight: screen.availHeight,
        colorDepth: screen.colorDepth, pixelDepth: screen.pixelDepth,
      }));
      set('devicePixelRatio', () => window.devicePixelRatio);
      set('innerSize', () => `${window.innerWidth}x${window.innerHeight}`);
      set('outerSize', () => `${window.outerWidth}x${window.outerHeight}`);
      set('timezone', () => Intl.DateTimeFormat().resolvedOptions().timeZone);
      set('timezoneOffset', () => new Date().getTimezoneOffset());
      try {
        const c = document.createElement('canvas');
        const gl = c.getContext('webgl') || c.getContext('experimental-webgl');
        if (gl) {
          const dbg = gl.getExtension('WEBGL_debug_renderer_info');
          if (dbg) {
            out.webglVendor = gl.getParameter(dbg.UNMASKED_VENDOR_WEBGL);
            out.webglRenderer = gl.getParameter(dbg.UNMASKED_RENDERER_WEBGL);
          }
        }
      } catch (e) {}
      return out;
    })()"#;

/// Tells where a page is and how far it has loaded.
pub const PAGE_INFO: &'static str = "JSON.stringify({url: location.href, title: document.title, readyState: document.readyState})";

/// A selector for a place between single quotation marks in a script.
pub open spec fn quoted_selector(s: Seq<char>) -> Seq<char> {
    replaced(replaced(s, '\\', "\\\\"@), '\'', "\\'"@)
}

fn quote_selector(s: &str) -> (r: String)
    ensures
        r@ == quoted_selector(s@),
{
    replace_char(replace_char(s, '\\', "\\\\").as_str(), '\'', "\\'")
}

/// The script that clicks the element.
pub open spec fn click(selector: Seq<char>) -> Seq<char> {
    let q = quoted_selector(selector);
    CLICK_FIND@ + q + CLICK_MISSING@ + q + CLICK_END@
}

/// The script that clicks the element.
pub fn click_script(selector: &str) -> (r: String)
    ensures
        r@ == click(selector@),
{
    let q = quote_selector(selector);
    let mut s = join3(CLICK_FIND, q.as_str(), CLICK_MISSING);
    s.append(q.as_str());
    s.append(CLICK_END);
    s
}

/// The script that focuses the element, and empties it where asked to.
pub open spec fn focus(selector: Seq<char>, clear: bool) -> Seq<char> {
    let q = quoted_selector(selector);
    FOCUS_FIND@ + q + FOCUS_MISSING@ + q + if clear {
        FOCUS_CLEAR_END@
    } else {
        FOCUS_END@
    }
}

/// The script that focuses the element.
pub fn focus_script(selector: &str, clear: bool) -> (r: String)
    ensures
        r@ == focus(selector@, clear),
{
    let q = quote_selector(selector);
    let mut s = join3(FOCUS_FIND, q.as_str(), FOCUS_MISSING);
    s.append(q.as_str());
    if clear {
        s.append(FOCUS_CLEAR_END);
    } else {
        s.append(FOCUS_END);
    }
    s
}

/// The script that reads the page, or an element of it.
pub open spec fn content(format: Seq<char>, selector: Option<Seq<char>>) -> Seq<char> {
    let html = format == "html"@;
    match selector {
        Some(sel) => CONTENT_FIND@ + quoted_selector(sel) + if html {
            CONTENT_HTML_END@
        } else {
            CONTENT_TEXT_END@
        },
        None => if html {
            "document.documentElement.outerHTML"@
        } else {
            "document.body.innerText"@
        },
    }
}

/// The script that reads the page, or an element of it.
pub fn content_script(format: &str, selector: &Option<String>) -> (r: String)
    ensures
        r@ == content(format@, crate::text::opt_text(*selector)),
{
    let html: bool = same(format, "html");
    match selector {
        Some(sel) => {
            let q = quote_selector(sel.as_str());
            if html {
                join3(CONTENT_FIND, q.as_str(), CONTENT_HTML_END)
            } else {
                join3(CONTENT_FIND, q.as_str(), CONTENT_TEXT_END)
            }
        },
        None => {
            if html {
                "document.documentElement.outerHTML".to_owned()
            } else {
                "document.body.innerText".to_owned()
            }
        },
    }
}

/// The script that clicks the listed element.
pub open spec fn click_index(index: u64) -> Seq<char> {
    let n = dec(index as nat);
    CLICK_INDEX_FIND@ + n + CLICK_INDEX_MISSING@ + n + CLICK_INDEX_TAKE@ + n + CLICK_INDEX_END@
}

/// The script that clicks the listed element.
pub fn click_index_script(index: u64) -> (r: String)
    ensures
        r@ == click_index(index),
{
    let n = dec_u64(index);
    let mut s = join3(CLICK_INDEX_FIND, n.as_str(), CLICK_INDEX_MISSING);
    s.append(n.as_str());
    s.append(CLICK_INDEX_TAKE);
    s.append(n.as_str());
    s.append(CLICK_INDEX_END);
    s
}

/// The script that focuses the listed element, and empties it where asked to.
pub open spec fn focus_index(index: u64, clear: bool) -> Seq<char> {
    let n = dec(index as nat);
    FOCUS_INDEX_FIND@ + n + FOCUS_INDEX_MISSING@ + n + FOCUS_INDEX_TAKE@ + n + if clear {
        FOCUS_INDEX_CLEAR_END@
    } else {
        FOCUS_INDEX_END@
    }
}

/// The script that focuses the listed element.
pub fn focus_index_script(index: u64, clear: bool) -> (r: String)
    ensures
        r@ == focus_index(index, clear),
{
    let n = dec_u64(index);
    let mut s = join3(FOCUS_INDEX_FIND, n.as_str(), FOCUS_INDEX_MISSING);
    s.append(n.as_str());
    s.append(FOCUS_INDEX_TAKE);
    s.append(n.as_str());
    if clear {
        s.append(FOCUS_INDEX_CLEAR_END);
    } else {
        s.append(FOCUS_INDEX_END);
    }
    s
}

/// The script that lists the elements that can be acted on.
pub open spec fn elements(max_chars: u64) -> Seq<char> {
    ELEMENTS_HEAD@ + dec(max_chars as nat) + ELEMENTS_TAIL@
}

/// The script that lists the elements that can be acted on.
pub fn elements_script(max_chars: u64) -> (r: String)
    ensures
        r@ == elements(max_chars),
{
    join3(ELEMENTS_HEAD, dec_u64(max_chars).as_str(), ELEMENTS_TAIL)
}

// ---------------------------------------------------------------------------
// Reading a selector back
// ---------------------------------------------------------------------------

/// What stands between the start of `t` and the first quotation mark that no
/// backslash precedes, with each backslash taken away that precedes another
/// character, and what follows that mark.
pub open spec fn read_quoted(t: Seq<char>) -> Option<(Seq<char>, Seq<char>)>
    decreases t.len(),
{
    if t.len() == 0 {
        None
    } else if t[0] == '\'' {
        Some((Seq::empty(), t.skip(1)))
    } else if t[0] == '\\' {
        if t.len() < 2 {
            None
        } else {
            match read_quoted(t.skip(2)) {
                Some((a, b)) => Some((seq![t[1]] + a, b)),
                None => None,
            }
        }
    } else {
        match read_quoted(t.skip(1)) {
            Some((a, b)) => Some((seq![t[0]] + a, b)),
            None => None,
        }
    }
}

/// A selector, whatever it holds, ends in a script where it was meant to end,
/// and is read there as it was given.
pub proof fn lemma_selector_read_back(s: Seq<char>, rest: Seq<char>)
    ensures
        read_quoted(quoted_selector(s) + seq!['\''] + rest) == Some((s, rest)),
    decreases s.len(),
{
    let end = seq!['\''] + rest;
    if s.len() == 0 {
        assert(quoted_selector(s) + seq!['\''] + rest =~= end);
        assert(end.skip(1) =~= rest);
    } else {
        let tail = s.skip(1);
        lemma_selector_read_back(tail, rest);
        lemma_quoted_front(s);
        let e = quoted_char(s[0]);
        let more = quoted_selector(tail) + seq!['\''] + rest;
        let t = quoted_selector(s) + seq!['\''] + rest;
        lemma_quoted_char(s[0]);
        assert(t =~= e + more);
        assert(t.skip(e.len() as int) =~= more);
        assert(seq![s[0]] + tail =~= s);
    }
}

spec fn quoted_char(c: char) -> Seq<char> {
    if c == '\\' {
        "\\\\"@
    } else if c == '\'' {
        "\\'"@
    } else {
        seq![c]
    }
}

proof fn lemma_quoted_char(c: char)
    ensures
        c == '\\' || c == '\'' ==> quoted_char(c) == seq!['\\', c],
        c != '\\' && c != '\'' ==> quoted_char(c) == seq![c],
{
    reveal_strlit("\\\\");
    reveal_strlit("\\'");
    assert("\\\\"@ =~= seq!['\\', '\\']);
    assert("\\'"@ =~= seq!['\\', '\'']);
}

proof fn lemma_replaced_push(s: Seq<char>, c: char, from: char, to: Seq<char>)
    ensures
        replaced(s.push(c), from, to) == replaced(s, from, to) + if c == from {
            to
        } else {
            seq![c]
        },
{
    assert(s.push(c).drop_last() =~= s);
}

proof fn lemma_quoted_push(s: Seq<char>, c: char)
    ensures
        quoted_selector(s.push(c)) == quoted_selector(s) + quoted_char(c),
{
    let once = replaced(s, '\\', "\\\\"@);
    lemma_replaced_push(s, c, '\\', "\\\\"@);
    lemma_quoted_char(c);
    if c == '\\' {
        assert(once + seq!['\\', '\\'] =~= once.push('\\').push('\\'));
        lemma_replaced_push(once, '\\', '\'', "\\'"@);
        lemma_replaced_push(once.push('\\'), '\\', '\'', "\\'"@);
        assert(quoted_selector(s.push(c)) =~= quoted_selector(s) + quoted_char(c));
    } else {
        assert(once + seq![c] =~= once.push(c));
        lemma_replaced_push(once, c, '\'', "\\'"@);
    }
}

proof fn lemma_quoted_front(s: Seq<char>)
    requires
        s.len() > 0,
    ensures
        quoted_selector(s) == quoted_char(s[0]) + quoted_selector(s.skip(1)),
    decreases s.len(),
{
    let head = s.drop_last();
    assert(head.push(s.last()) =~= s);
    lemma_quoted_push(head, s.last());
    if head.len() == 0 {
        assert(quoted_selector(head) =~= Seq::<char>::empty());
        assert(s.skip(1) =~= head);
        assert(quoted_selector(s) =~= quoted_char(s[0]) + quoted_selector(s.skip(1)));
    } else {
        lemma_quoted_front(head);
        lemma_quoted_push(head.skip(1), s.last());
        assert(head.skip(1).push(s.last()) =~= s.skip(1));
        assert(quoted_selector(s) =~= quoted_char(s[0]) + quoted_selector(s.skip(1)));
    }
}

// ---------------------------------------------------------------------------
// What a script acts on
// ---------------------------------------------------------------------------

/// No character among the first `n` is `c`.
spec fn lacks(s: Seq<char>, c: char, n: nat) -> bool
    decreases n,
{
    n == 0 || (s[n - 1] != c && lacks(s, c, (n - 1) as nat))
}

proof fn lemma_lacks(s: Seq<char>, c: char, n: nat, i: int)
    requires
        lacks(s, c, n),
        0 <= i < n,
    ensures
        s[i] != c,
    decreases n,
{
    if i < n - 1 {
        lemma_lacks(s, c, (n - 1) as nat, i);
    }
}

proof fn lemma_lacks_all(s: Seq<char>, c: char)
    requires
        lacks(s, c, s.len()),
    ensures
        !s.contains(c),
{
    if s.contains(c) {
        let i = choose|i: int| 0 <= i < s.len() && s[i] == c;
        lemma_lacks(s, c, s.len(), i);
    }
}

/// The number of the one element that a script takes from the list that the page
/// keeps: what stands between `const el = arr[` and the next bracket.
pub open spec fn taken_index(script: Seq<char>) -> Option<nat> {
    match first_at(script, "const el = arr["@, 0) {
        Some(i) => match first_at(script, "]"@, i + 15) {
            Some(j) => digits_value(script.subrange(i + 15, j)),
            None => None,
        },
        None => None,
    }
}

/// The number of the element that a script looks for before it takes one: what
/// stands between `!arr || !arr[` and the next bracket.
pub open spec fn checked_index(script: Seq<char>) -> Option<nat> {
    match first_at(script, "!arr || !arr["@, 0) {
        Some(i) => match first_at(script, "]"@, i + 13) {
            Some(j) => digits_value(script.subrange(i + 13, j)),
            None => None,
        },
        None => None,
    }
}

/// What stands first behind a text that holds no `[` but at its end, up to the
/// first `]`.
proof fn lemma_between(head: Seq<char>, pat: Seq<char>, n: nat, rest: Seq<char>)
    requires
        pat.len() > 0,
        pat.last() == '[',
        head.len() >= pat.len(),
        head.subrange(head.len() - pat.len(), head.len() as int) == pat,
        forall|j: int| 0 <= j < head.len() - pat.len() ==> !occurs(head, pat, j),
        rest.len() > 0,
        rest[0] == ']',
    ensures
        ({
            let s = head + dec(n) + rest;
            let i = head.len() - pat.len();
            &&& first_at(s, pat, 0) == Some(i)
            &&& first_at(s, "]"@, i + pat.len()) == Some(head.len() as int + dec(n).len())
            &&& s.subrange(i + pat.len(), head.len() as int + dec(n).len()) == dec(n)
            &&& digits_value(dec(n)) == Some(n)
        }),
{
    reveal_strlit("]");
    assert("]"@ =~= seq![']']);
    let s = head + dec(n) + rest;
    let i = head.len() - pat.len();
    lemma_dec_value(n);
    lemma_first_at(s, pat, 0);
    assert(s.subrange(i, i + pat.len()) =~= pat);
    assert(occurs(s, pat, i));
    let k = first_at(s, pat, 0)->0;
    if k < i {
        assert(head.subrange(k, k + pat.len()) =~= s.subrange(k, k + pat.len()));
        assert(occurs(head, pat, k));
    }
    let from = head.len() as int;
    let end = from + dec(n).len();
    lemma_first_at(s, "]"@, from);
    assert(s.subrange(end, end + 1) =~= "]"@);
    assert(occurs(s, "]"@, end));
    let j = first_at(s, "]"@, from)->0;
    if j < end {
        assert(s.subrange(j, j + 1)[0] == s[j]);
        assert(s[j] == dec(n)[j - from]);
        lemma_dec_digits(n, j - from);
    }
    assert(s.subrange(from, end) =~= dec(n));
}

/// In a script of this make, the numbers stand where they are looked for.
proof fn lemma_indexed(
    find: Seq<char>,
    missing: Seq<char>,
    take: Seq<char>,
    end: Seq<char>,
    n: nat,
)
    requires
        find.len() > 13,
        lacks(find, '[', (find.len() - 1) as nat),
        find.subrange(find.len() - 13, find.len() as int) == "!arr || !arr["@,
        lacks(missing, '[', missing.len()),
        missing.len() > 0,
        missing[0] == ']',
        take.len() > 15,
        lacks(take, '[', (take.len() - 1) as nat),
        take.subrange(take.len() - 15, take.len() as int) == "const el = arr["@,
        end.len() > 0,
        end[0] == ']',
    ensures
        taken_index(find + dec(n) + missing + dec(n) + take + dec(n) + end) == Some(n),
        checked_index(find + dec(n) + missing + dec(n) + take + dec(n) + end) == Some(n),
{
    reveal_strlit("const el = arr[");
    reveal_strlit("!arr || !arr[");
    let d = dec(n);
    let all = find + d + missing + d + take + d + end;
    let check = "!arr || !arr["@;
    assert(check.len() == 13 && check.last() == '[' && check[8] == '!');
    assert forall|j: int| 0 <= j < find.len() - 13 implies !occurs(find, check, j) by {
        if occurs(find, check, j) {
            assert(find.subrange(j, j + 13)[12] == find[j + 12]);
            lemma_lacks(find, '[', (find.len() - 1) as nat, j + 12);
        }
    }
    let rest = missing + d + take + d + end;
    lemma_between(find, check, n, rest);
    assert(find + d + rest =~= all);
    let pat = "const el = arr["@;
    assert(pat.len() == 15 && pat.last() == '[' && pat[10] == ' ');
    let head = find + d + missing + d + take;
    assert(head.subrange(head.len() - 15, head.len() as int) =~= take.subrange(
        take.len() - 15,
        take.len() as int,
    ));
    assert forall|j: int| 0 <= j < head.len() - 15 implies !occurs(head, pat, j) by {
        if occurs(head, pat, j) {
            let at = j + 14;
            assert(head.subrange(j, j + 15)[14] == head[at]);
            assert(head.subrange(j, j + 15)[10] == head[j + 10]);
            let f = find.len() as int;
            let g = f + d.len();
            let h = g + missing.len();
            let k = h + d.len();
            if at < f - 1 {
                assert(head[at] == find[at]);
                lemma_lacks(find, '[', (find.len() - 1) as nat, at);
            } else if at == f - 1 {
                assert(head[j + 10] == find[f - 5]);
                assert(find.subrange(find.len() - 13, find.len() as int)[8] == find[f - 5]);
            } else if at < g {
                assert(head[at] == d[at - f]);
                lemma_dec_digits(n, at - f);
            } else if at < h {
                assert(head[at] == missing[at - g]);
                lemma_lacks(missing, '[', missing.len(), at - g);
            } else if at < k {
                assert(head[at] == d[at - h]);
                lemma_dec_digits(n, at - h);
            } else {
                assert(head[at] == take[at - k]);
                lemma_lacks(take, '[', (take.len() - 1) as nat, at - k);
            }
        }
    }
    lemma_between(head, pat, n, end);
    assert(head + d + end =~= all);
}

/// What stands in the last part of a text stands in the text.
proof fn lemma_contains_tail(a: Seq<char>, b: Seq<char>, pat: Seq<char>, i: int)
    requires
        0 <= i,
        i + pat.len() <= b.len(),
        b.subrange(i, i + pat.len()) =~= pat,
    ensures
        contains(a + b, pat),
{
    let s = a + b;
    assert(s.subrange(a.len() + i, a.len() + i + pat.len()) =~= pat);
    assert(occurs(s, pat, a.len() + i));
}

/// The script that clicks a listed element takes the element of that number from
/// the list, having made sure that there is one, and clicks it. So scripts for
/// different numbers act on different elements.
pub proof fn lemma_click_index(index: u64)
    ensures
        taken_index(click_index(index)) == Some(index as nat),
        checked_index(click_index(index)) == Some(index as nat),
        contains(click_index(index), "el.click();"@),
{
    let n = index as nat;
    reveal_strlit(
        r#"(() => {
        const arr = window.__watermelon_interactive;
        if (!arr || !arr["#,
    );
    reveal_strlit(
        "]) throw new Error('No element at index ",
    );
    reveal_strlit(
        r#". Call get_interactive_elements first or after navigation.');
        const el = arr["#,
    );
    reveal_strlit(
        r#"];
        el.scrollIntoView({block: 'center'});
        el.click();
        return true;
      })()"#,
    );
    reveal_strlit("const el = arr[");
    reveal_strlit("!arr || !arr[");
    reveal_with_fuel(lacks, 130);
    let find = CLICK_INDEX_FIND@;
    let missing = CLICK_INDEX_MISSING@;
    let take = CLICK_INDEX_TAKE@;
    assert(find.subrange(find.len() - 13, find.len() as int) =~= "!arr || !arr["@);
    assert(take.subrange(take.len() - 15, take.len() as int) =~= "const el = arr["@);
    let front = find + dec(n) + missing + dec(n) + take + dec(n);
    let end = CLICK_INDEX_END@;
    lemma_indexed(find, missing, take, end, n);
    reveal_strlit("el.click();");
    lemma_contains_tail(front, end, "el.click();"@, 57);
}

/// The script that focuses a listed element takes the element of that number from
/// the list, having made sure that there is one, and focuses it; where asked to, it
/// empties the element.
pub proof fn lemma_focus_index(index: u64, clear: bool)
    ensures
        taken_index(focus_index(index, clear)) == Some(index as nat),
        checked_index(focus_index(index, clear)) == Some(index as nat),
        contains(focus_index(index, clear), "el.focus();"@),
        clear ==> contains(focus_index(index, clear), "el.value = '';"@),
{
    let n = index as nat;
    reveal_strlit(
        r#"(() => {
          const arr = window.__watermelon_interactive;
          if (!arr || !arr["#,
    );
    reveal_strlit(
        "]) throw new Error('No element at index ",
    );
    reveal_strlit(
        r#". Call get_interactive_elements first or after navigation.');
          const el = arr["#,
    );
    reveal_strlit(
        r#"];
          el.scrollIntoView({block: 'center'});
          el.focus();
          return true;
        })()"#,
    );
    reveal_strlit(
        r#"];
          el.scrollIntoView({block: 'center'});
          el.focus();
          el.value = '';
          el.dispatchEvent(new Event('input', {bubbles: true}));
          return true;
        })()"#,
    );
    reveal_strlit("const el = arr[");
    reveal_strlit("!arr || !arr[");
    reveal_with_fuel(lacks, 130);
    let find = FOCUS_INDEX_FIND@;
    let missing = FOCUS_INDEX_MISSING@;
    let take = FOCUS_INDEX_TAKE@;
    assert(find.subrange(find.len() - 13, find.len() as int) =~= "!arr || !arr["@);
    assert(take.subrange(take.len() - 15, take.len() as int) =~= "const el = arr["@);
    let front = find + dec(n) + missing + dec(n) + take + dec(n);
    let end = if clear {
        FOCUS_INDEX_CLEAR_END@
    } else {
        FOCUS_INDEX_END@
    };
    lemma_indexed(find, missing, take, end, n);
    reveal_strlit("el.focus();");
    lemma_contains_tail(front, end, "el.focus();"@, 61);
    reveal_strlit("el.value = '';");
    if clear {
        lemma_contains_tail(front, end, "el.value = '';"@, 83);
    }
}

/// The selector of the element that a script looks for: what stands between
/// `document.querySelector('` and the quotation mark that ends it, as the script
/// reads it.
pub open spec fn selected(script: Seq<char>) -> Option<Seq<char>> {
    match first_at(script, "document.querySelector('"@, 0) {
        Some(i) => match read_quoted(script.skip(i + 24)) {
            Some((selector, _)) => Some(selector),
            None => None,
        },
        None => None,
    }
}

proof fn lemma_selected(find: Seq<char>, selector: Seq<char>, end: Seq<char>)
    requires
        find.len() > 24,
        lacks(find, '\'', (find.len() - 1) as nat),
        find.subrange(find.len() - 24, find.len() as int) == "document.querySelector('"@,
        end.len() > 0,
        end[0] == '\'',
    ensures
        selected(find + quoted_selector(selector) + end) == Some(selector),
{
    reveal_strlit("document.querySelector('");
    let pat = "document.querySelector('"@;
    assert(pat.len() == 24 && pat.last() == '\'');
    let q = quoted_selector(selector);
    let s = find + q + end;
    let i = find.len() - 24;
    lemma_first_at(s, pat, 0);
    assert(s.subrange(i, i + 24) =~= pat);
    assert(occurs(s, pat, i));
    let k = first_at(s, pat, 0)->0;
    if k < i {
        assert(s.subrange(k, k + 24)[23] == s[k + 23]);
        assert(s[k + 23] == find[k + 23]);
        lemma_lacks(find, '\'', (find.len() - 1) as nat, k + 23);
    }
    let rest = end.skip(1);
    lemma_selector_read_back(selector, rest);
    assert(s.skip(find.len() as int) =~= q + seq!['\''] + rest);
}

/// The script that clicks an element looks for the one with the selector that was
/// given, whatever characters are in it, and clicks it.
pub proof fn lemma_click(selector: Seq<char>)
    ensures
        selected(click(selector)) == Some(selector),
        contains(click(selector), "el.click();"@),
{
    reveal_strlit(
        r#"(() => {
        const el = document.querySelector('"#,
    );
    reveal_strlit(
        r#"');
        if (!el) throw new Error('Element not found: "#,
    );
    reveal_strlit(
        r#"');
        el.scrollIntoView({block: 'center'});
        el.click();
        return true;
      })()"#,
    );
    reveal_strlit("document.querySelector('");
    reveal_strlit("el.click();");
    reveal_with_fuel(lacks, 80);
    let find = CLICK_FIND@;
    let q = quoted_selector(selector);
    assert(find.subrange(find.len() - 24, find.len() as int) =~= "document.querySelector('"@);
    let end = CLICK_MISSING@ + q + CLICK_END@;
    lemma_selected(find, selector, end);
    assert(click(selector) =~= find + q + end);
    lemma_contains_tail(find + q + CLICK_MISSING@ + q, CLICK_END@, "el.click();"@, 58);
}

/// The script that focuses an element looks for the one with the selector that was
/// given and focuses it; where asked to, it empties the element.
pub proof fn lemma_focus(selector: Seq<char>, clear: bool)
    ensures
        selected(focus(selector, clear)) == Some(selector),
        contains(focus(selector, clear), "el.focus();"@),
        clear ==> contains(focus(selector, clear), "el.value = '';"@),
{
    reveal_strlit(
        r#"(() => {
          const el = document.querySelector('"#,
    );
    reveal_strlit(
        r#"');
          if (!el) throw new Error('Element not found: "#,
    );
    reveal_strlit(
        r#"');
          el.scrollIntoView({block: 'center'});
          el.focus();
          return true;
        })()"#,
    );
    reveal_strlit(
        r#"');
          el.scrollIntoView({block: 'center'});
          el.focus();
          el.value = '';
          el.dispatchEvent(new Event('input', {bubbles: true}));
          return true;
        })()"#,
    );
    reveal_strlit("document.querySelector('");
    reveal_strlit("el.focus();");
    reveal_strlit("el.value = '';");
    reveal_with_fuel(lacks, 80);
    let find = FOCUS_FIND@;
    let q = quoted_selector(selector);
    let last = if clear {
        FOCUS_CLEAR_END@
    } else {
        FOCUS_END@
    };
    assert(find.subrange(find.len() - 24, find.len() as int) =~= "document.querySelector('"@);
    let end = FOCUS_MISSING@ + q + last;
    lemma_selected(find, selector, end);
    assert(focus(selector, clear) =~= find + q + end);
    let front = find + q + FOCUS_MISSING@ + q;
    lemma_contains_tail(front, last, "el.focus();"@, 62);
    if clear {
        lemma_contains_tail(front, last, "el.value = '';"@, 84);
    }
}

/// The script that reads an element looks for the one with the selector that was
/// given, and returns its markup where `html` is asked for, and its text where not.
/// Without a selector it is the page that is read.
pub proof fn lemma_content(format: Seq<char>, selector: Seq<char>)
    ensures
        selected(content(format, Some(selector))) == Some(selector),
        format == "html"@ ==> contains(
            content(format, Some(selector)),
            "return el ? el.outerHTML : null;"@,
        ),
        format != "html"@ ==> contains(
            content(format, Some(selector)),
            "return el ? el.innerText : null;"@,
        ),
        format == "html"@ ==> content(format, None) == "document.documentElement.outerHTML"@,
        format != "html"@ ==> content(format, None) == "document.body.innerText"@,
{
    reveal_strlit(
        r#"(() => {
            const el = document.querySelector('"#,
    );
    reveal_strlit(
        r#"');
            return el ? el.outerHTML : null;
          })()"#,
    );
    reveal_strlit(
        r#"');
            return el ? el.innerText : null;
          })()"#,
    );
    reveal_strlit("document.querySelector('");
    reveal_strlit("return el ? el.outerHTML : null;");
    reveal_strlit("return el ? el.innerText : null;");
    reveal_with_fuel(lacks, 80);
    let find = CONTENT_FIND@;
    let q = quoted_selector(selector);
    assert(find.subrange(find.len() - 24, find.len() as int) =~= "document.querySelector('"@);
    lemma_selected(find, selector, CONTENT_HTML_END@);
    lemma_selected(find, selector, CONTENT_TEXT_END@);
    lemma_contains_tail(find + q, CONTENT_HTML_END@, "return el ? el.outerHTML : null;"@, 16);
    lemma_contains_tail(find + q, CONTENT_TEXT_END@, "return el ? el.innerText : null;"@, 16);
}

/// The script that lists the elements keeps to the number of characters that it was
/// given, keeps the elements for the scripts that act on them by number, and hands
/// back the list.
pub proof fn lemma_elements(max_chars: u64)
    ensures
        contains(elements(max_chars), "const MAX_CHARS = "@ + dec(max_chars as nat) + ";"@),
        contains(elements(max_chars), "window.__watermelon_interactive = interactive;"@),
{
    reveal_strlit(
        r#"(() => {
  const SELECTORS = 'a, button, input, select, textarea, [role="button"], [role="link"], [role="checkbox"], [role="radio"], [role="tab"], [role="menuitem"], [role="combobox"], [role="option"], [contenteditable=""], [contenteditable="true"], [tabindex]:not([tabindex="-1"])';
  const ATTRS = ['type','name','id','role','aria-label','aria-checked','aria-expanded','placeholder','title','value','href','alt'];
  const MAX_CHARS = "#,
    );
    reveal_strlit(
        r#";
  const interactive = [];
  const lines = [];
  let truncated = false;
  let total = 0;
  const nodes = document.querySelectorAll(SELECTORS);
  for (const el of nodes) {
    if (el.disabled) continue;
    const r = el.getBoundingClientRect();
    if (r.width <= 0 || r.height <= 0) continue;
    const style = window.getComputedStyle(el);
    if (style.visibility === 'hidden' || style.display === 'none' || style.opacity === '0') continue;
    const tag = el.tagName.toLowerCase();
    const parts = [];
    for (const a of ATTRS) {
      const v = el.getAttribute(a);
      if (v) parts.push(a + '="' + String(v).slice(0,100).replace(/"/g,'\\"') + '"');
    }
    let text = '';
    if (!['INPUT','TEXTAREA','SELECT'].includes(el.tagName)) {
      text = (el.innerText || el.textContent || '').trim().replace(/\s+/g,' ').slice(0,100);
    }
    const idx = interactive.length;
    const line = '[' + idx + ']<' + tag + (parts.length ? ' ' + parts.join(' ') : '') + '>' + text + '</' + tag + '>';
    if (total + line.length + 1 > MAX_CHARS) { truncated = true; break; }
    total += line.length + 1;
    interactive.push(el);
    lines.push(line);
  }
  window.__watermelon_interactive = interactive;
  return JSON.stringify({ elements: lines.join('\n'), count: interactive.length, truncated: truncated });
})()"#,
    );
    reveal_strlit("const MAX_CHARS = ");
    reveal_strlit(";");
    reveal_strlit("window.__watermelon_interactive = interactive;");
    let d = dec(max_chars as nat);
    let head = ELEMENTS_HEAD@;
    let tail = ELEMENTS_TAIL@;
    let pat = "const MAX_CHARS = "@ + d + ";"@;
    let all = elements(max_chars);
    let i = head.len() - 18;
    assert(head.subrange(i, head.len() as int) =~= "const MAX_CHARS = "@);
    assert(all.subrange(i, i + pat.len()) =~= pat);
    assert(occurs(all, pat, i));
    lemma_contains_tail(
        head + d,
        tail,
        "window.__watermelon_interactive = interactive;"@,
        1158,
    );
}

} // verus!
