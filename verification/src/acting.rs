//! What the tools that act on a page come to: the command that each sends, what it
//! does with the reply, and what it tells.
use vstd::prelude::*;

use crate::calls::CallView;
use crate::json::{json_parsed, lemma_with_field, lemma_with_object, pretty};
use crate::pages::{
    acting_profile, evaluated, returned_text, thrown, ActiveTabView, PageActionView, PageEventView,
    PageRunView, PageStageView,
};
use crate::plan::reply_text;
use crate::profiles::{lemma_profile_named, ProfileView};
use crate::protocol::lemma_text_read_back;
use crate::scripts::{
    checked_index, lemma_click, lemma_click_index, lemma_content, lemma_elements, lemma_focus,
    lemma_focus_index, selected, taken_index,
};
use crate::text::{contains, dec, ends};
use crate::value::{JsonView, NumberView};

verus! {

proof fn lemma_params()
    ensures
        "expression"@.len() == 10,
        "returnByValue"@.len() == 13,
        "awaitPromise"@.len() == 12,
        "format"@.len() == 6,
        "quality"@.len() == 7,
        "clip"@.len() == 4,
        "captureBeyondViewport"@.len() == 21,
        "x"@.len() == 1 && "x"@[0] == 'x',
        "y"@.len() == 1 && "y"@[0] == 'y',
        "width"@.len() == 5 && "width"@[0] == 'w',
        "height"@.len() == 6,
        "scale"@.len() == 5 && "scale"@[0] == 's',
        "nodeId"@.len() == 6 && "nodeId"@[0] == 'n',
        "selector"@.len() == 8,
        "files"@.len() == 5,
        "type"@.len() == 4 && "type"@[0] == 't' && "type"@[1] == 'y',
        "text"@.len() == 4 && "text"@[0] == 't' && "text"@[1] == 'e',
        "data"@.len() == 4 && "data"@[0] == 'd',
        "mimeType"@.len() == 8,
        "value"@.len() == 5 && "value"@[0] == 'v',
        "error"@.len() == 5 && "error"@[0] == 'e',
        "index"@.len() == 5 && "index"@[0] == 'i',
        "url"@.len() == 3,
        "title"@.len() == 5 && "title"@[0] == 't',
{
    reveal_strlit("expression");
    reveal_strlit("returnByValue");
    reveal_strlit("awaitPromise");
    reveal_strlit("format");
    reveal_strlit("quality");
    reveal_strlit("clip");
    reveal_strlit("captureBeyondViewport");
    reveal_strlit("x");
    reveal_strlit("y");
    reveal_strlit("width");
    reveal_strlit("height");
    reveal_strlit("scale");
    reveal_strlit("nodeId");
    reveal_strlit("selector");
    reveal_strlit("files");
    reveal_strlit("type");
    reveal_strlit("text");
    reveal_strlit("data");
    reveal_strlit("mimeType");
    reveal_strlit("value");
    reveal_strlit("error");
    reveal_strlit("index");
    reveal_strlit("url");
    reveal_strlit("title");
}

/// The text that a tool which is done tells.
pub open spec fn told(a: PageActionView) -> Option<Seq<char>> {
    match a {
        PageActionView::Finish { result: Ok(v), .. } => Some(reply_text(v)),
        _ => None,
    }
}

/// The script that a command runs in the page, where it runs one.
pub open spec fn script_of(a: PageActionView) -> Option<Seq<char>> {
    match a {
        PageActionView::Send { method, params, .. } => if method == "Runtime.evaluate"@ {
            params.field_str("expression"@)
        } else {
            None
        },
        _ => None,
    }
}

/// A tool that has failed says why, and the active tab stays.
pub open spec fn failed(a: PageActionView) -> Option<Seq<char>> {
    match a {
        PageActionView::Finish { tab: ActiveTabView::Keep, result: Err(e) } => Some(e.message),
        _ => None,
    }
}

/// Navigating sends the page to the address that was given and waits for it to
/// load; then it tells where it went.
pub proof fn lemma_navigate(s: PageRunView, profile_id: Seq<char>, url: Seq<char>, r: JsonView)
    requires
        s.call == (CallView::Navigate { profile_id, url }),
    ensures
        ({
            let (t, a) = s.step(PageEventView::Start);
            let (u, b) = t.step(PageEventView::Reply(Ok(r)));
            &&& a matches PageActionView::Send { method, params, wait } && method
                == "Page.navigate"@ && params.field_str("url"@) == Some(url) && wait == Some(30u64)
            &&& told(b) is Some && ends(told(b)->0, url)
            &&& u.stage is Done
        }),
{
    broadcast use {lemma_with_field, lemma_with_object};

    let text = "Navigated to "@ + url;
    lemma_text_read_back(text);
    assert(text.subrange(text.len() - url.len(), text.len() as int) =~= url);
}

/// Clicking runs a script that clicks the element with the selector that was given
/// and waits for a page that loads thereupon; what the script throws is why it
/// failed.
pub proof fn lemma_click_tool(
    s: PageRunView,
    profile_id: Seq<char>,
    selector: Seq<char>,
    r: JsonView,
)
    requires
        s.call == (CallView::Click { profile_id, selector }),
    ensures
        ({
            let (t, a) = s.step(PageEventView::Start);
            let (u, b) = t.step(PageEventView::Reply(Ok(r)));
            &&& script_of(a) is Some
            &&& selected(script_of(a)->0) == Some(selector)
            &&& contains(script_of(a)->0, "el.click();"@)
            &&& a matches PageActionView::Send { wait, .. } && wait == Some(10u64)
            &&& r.field("exceptionDetails"@) is None ==> told(b) is Some && ends(
                told(b)->0,
                selector,
            )
            &&& r.field("exceptionDetails"@) is Some ==> failed(b) is Some
        }),
{
    broadcast use {lemma_with_field, lemma_with_object};

    lemma_params();
    lemma_click(selector);
    let text = "Clicked element: "@ + selector;
    lemma_text_read_back(text);
    assert(text.subrange(text.len() - selector.len(), text.len() as int) =~= selector);
}

/// Clicking by number runs a script that clicks the listed element of that number,
/// and tells that number.
pub proof fn lemma_click_index_tool(
    s: PageRunView,
    profile_id: Seq<char>,
    index: u64,
    r: JsonView,
)
    requires
        s.call == (CallView::ClickIndex { profile_id, index }),
    ensures
        ({
            let (t, a) = s.step(PageEventView::Start);
            let (u, b) = t.step(PageEventView::Reply(Ok(r)));
            &&& script_of(a) is Some
            &&& taken_index(script_of(a)->0) == Some(index as nat)
            &&& checked_index(script_of(a)->0) == Some(index as nat)
            &&& contains(script_of(a)->0, "el.click();"@)
            &&& a matches PageActionView::Send { wait, .. } && wait == Some(10u64)
            &&& r.field("exceptionDetails"@) is None ==> told(b) is Some && ends(
                told(b)->0,
                dec(index as nat),
            )
            &&& r.field("exceptionDetails"@) is Some ==> failed(b) is Some
        }),
{
    broadcast use {lemma_with_field, lemma_with_object};

    lemma_params();
    lemma_click_index(index);
    let d = dec(index as nat);
    let text = "Clicked element at index "@ + d;
    lemma_text_read_back(text);
    assert(text.subrange(text.len() - d.len(), text.len() as int) =~= d);
}

/// Typing first focuses the element with the selector that was given, and empties
/// it where asked to. Then the text goes in, all of it: at once where asked to, and
/// else as a person types, at the pace that was given. An element that cannot be
/// focused gets no text.
pub proof fn lemma_type_tool(
    s: PageRunView,
    profile_id: Seq<char>,
    selector: Seq<char>,
    text: Seq<char>,
    clear_first: bool,
    instant: bool,
    wpm: Option<NumberView>,
    r: JsonView,
    done: JsonView,
)
    requires
        s.call == (CallView::TypeText { profile_id, selector, text, clear_first, instant, wpm }),
    ensures
        ({
            let (t, a) = s.step(PageEventView::Start);
            let (u, b) = t.step(PageEventView::Reply(Ok(r)));
            let (w, c) = u.step(PageEventView::Reply(Ok(done)));
            &&& script_of(a) is Some
            &&& selected(script_of(a)->0) == Some(selector)
            &&& contains(script_of(a)->0, "el.focus();"@)
            &&& clear_first ==> contains(script_of(a)->0, "el.value = '';"@)
            &&& r.field("exceptionDetails"@) is Some ==> failed(b) is Some
            &&& r.field("exceptionDetails"@) is None && !instant ==> b == (PageActionView::Type {
                text,
                wpm,
            })
            &&& r.field("exceptionDetails"@) is None && instant ==> (b matches PageActionView::Send {
                method,
                params,
                ..
            } && method == "Input.insertText"@ && params.field_str("text"@) == Some(text))
            &&& r.field("exceptionDetails"@) is None ==> told(c) is Some && ends(
                told(c)->0,
                selector,
            )
        }),
{
    broadcast use {lemma_with_field, lemma_with_object};

    lemma_params();
    lemma_focus(selector, clear_first);
    let last = "Typed text into element: "@ + selector;
    lemma_text_read_back(last);
    assert(last.subrange(last.len() - selector.len(), last.len() as int) =~= selector);
}

/// Typing by number focuses the listed element of that number, and then puts the
/// text in as typing does.
pub proof fn lemma_type_index_tool(
    s: PageRunView,
    profile_id: Seq<char>,
    index: u64,
    text: Seq<char>,
    clear_first: bool,
    instant: bool,
    wpm: Option<NumberView>,
    r: JsonView,
    done: JsonView,
)
    requires
        s.call == (CallView::TypeIndex { profile_id, index, text, clear_first, instant, wpm }),
    ensures
        ({
            let (t, a) = s.step(PageEventView::Start);
            let (u, b) = t.step(PageEventView::Reply(Ok(r)));
            let (w, c) = u.step(PageEventView::Reply(Ok(done)));
            &&& script_of(a) is Some
            &&& taken_index(script_of(a)->0) == Some(index as nat)
            &&& contains(script_of(a)->0, "el.focus();"@)
            &&& clear_first ==> contains(script_of(a)->0, "el.value = '';"@)
            &&& r.field("exceptionDetails"@) is Some ==> failed(b) is Some
            &&& r.field("exceptionDetails"@) is None && !instant ==> b == (PageActionView::Type {
                text,
                wpm,
            })
            &&& r.field("exceptionDetails"@) is None && instant ==> (b matches PageActionView::Send {
                method,
                params,
                ..
            } && method == "Input.insertText"@ && params.field_str("text"@) == Some(text))
            &&& r.field("exceptionDetails"@) is None ==> told(c) is Some && ends(
                told(c)->0,
                dec(index as nat),
            )
        }),
{
    broadcast use {lemma_with_field, lemma_with_object};

    lemma_params();
    lemma_focus_index(index, clear_first);
    let d = dec(index as nat);
    let last = "Typed text into element at index "@ + d;
    lemma_text_read_back(last);
    assert(last.subrange(last.len() - d.len(), last.len() as int) =~= d);
}

/// Reading the page tells what the script returned, all of it where it is not too
/// long; of a text that is, the beginning, as long as was asked for.
pub proof fn lemma_content_tool(
    s: PageRunView,
    profile_id: Seq<char>,
    format: Seq<char>,
    selector: Seq<char>,
    max_chars: u64,
    r: JsonView,
    text: Seq<char>,
)
    requires
        s.call == (CallView::PageContent { profile_id, format, selector: Some(selector), max_chars }),
        r.field("result"@) is Some,
        (r.field("result"@)->0).field_str("value"@) == Some(text),
    ensures
        ({
            let (t, a) = s.step(PageEventView::Start);
            let (u, b) = t.step(PageEventView::Reply(Ok(r)));
            &&& script_of(a) is Some
            &&& selected(script_of(a)->0) == Some(selector)
            &&& format == "html"@ ==> contains(script_of(a)->0, "return el ? el.outerHTML : null;"@)
            &&& format != "html"@ ==> contains(script_of(a)->0, "return el ? el.innerText : null;"@)
            &&& told(b) is Some
            &&& text.len() <= max_chars ==> told(b)->0 == text
            &&& text.len() > max_chars ==> told(b)->0.len() > max_chars && told(b)->0.take(
                max_chars as int,
            ) == text.take(max_chars as int)
        }),
{
    broadcast use {lemma_with_field, lemma_with_object};

    lemma_params();
    lemma_content(format, selector);
    let all = crate::pages::page_text(text, max_chars);
    lemma_text_read_back(all);
    if text.len() > max_chars {
        reveal_strlit("\n\n[truncated: showing ");
        assert(all.take(max_chars as int) =~= text.take(max_chars as int));
    }
}

/// A script that was given is run as it is; it is waited for, and the page after it,
/// where asked to. What it came to is told.
pub proof fn lemma_evaluate_tool(
    s: PageRunView,
    profile_id: Seq<char>,
    expression: Seq<char>,
    await_promise: bool,
    wait_for_load: bool,
    r: JsonView,
    v: JsonView,
)
    requires
        s.call == (CallView::Evaluate { profile_id, expression, await_promise, wait_for_load }),
        r.field("exceptionDetails"@) is None,
        r.field("result"@) is Some,
        (r.field("result"@)->0).field("value"@) == Some(v),
    ensures
        ({
            let (t, a) = s.step(PageEventView::Start);
            let (u, b) = t.step(PageEventView::Reply(Ok(r)));
            &&& script_of(a) == Some(expression)
            &&& a matches PageActionView::Send { params, wait, .. } && params.field_bool(
                "returnByValue"@,
            ) == Some(true) && params.field_bool("awaitPromise"@) == Some(await_promise) && wait
                == (if wait_for_load {
                Some(30u64)
            } else {
                None
            })
            &&& told(b) is Some && told(b)->0 == pretty(evaluated(r))
            &&& evaluated(r).field("value"@) == Some(v)
            &&& evaluated(r).field("error"@) is None
        }),
{
    broadcast use {lemma_with_field, lemma_with_object};

    lemma_params();
    lemma_text_read_back(pretty(evaluated(r)));
}

/// What a script throws is told as an error, by its text, and what it returns is
/// not told then.
pub proof fn lemma_evaluate_throws(r: JsonView, ex: JsonView, text: Seq<char>)
    requires
        r.field("exceptionDetails"@) == Some(ex),
        ex.field_str("text"@) == Some(text),
    ensures
        evaluated(r).field_str("error"@) == Some(text),
        evaluated(r).field("value"@) is None,
{
    broadcast use {lemma_with_field, lemma_with_object};

    lemma_params();
}

/// Why a script that acts failed: what the exception says of itself; where it says
/// nothing, its text; where it has none, what the tool says.
pub proof fn lemma_thrown(r: JsonView, ex: JsonView, e: JsonView, t: Seq<char>, other: Seq<char>)
    ensures
        r.field("exceptionDetails"@) is None ==> thrown(r, other) is None,
        r.field("exceptionDetails"@) == Some(ex) && ex.field("exception"@) == Some(e)
            && e.field_str("description"@) == Some(t) ==> thrown(r, other) == Some(t),
        r.field("exceptionDetails"@) == Some(ex) && ex.field("exception"@) is None && ex.field_str(
            "text"@,
        ) == Some(t) ==> thrown(r, other) == Some(t),
        r.field("exceptionDetails"@) == Some(ex) && ex.field("exception"@) is None && ex.field(
            "text"@,
        ) is None ==> thrown(r, other) == Some(other),
{
}

/// Listing the elements runs the script for it with the limit that was given, and
/// tells how many there are and which.
pub proof fn lemma_elements_tool(
    s: PageRunView,
    profile_id: Seq<char>,
    max_chars: u64,
    r: JsonView,
    p: JsonView,
    n: u64,
    list: Seq<char>,
)
    requires
        s.call == (CallView::Elements { profile_id, max_chars }),
        r.field("exceptionDetails"@) is None,
        json_parsed(returned_text(r, "{}"@)) == Ok::<JsonView, Seq<char>>(p),
        p.field_uint("count"@) == Some(n),
        p.field_str("elements"@) == Some(list),
    ensures
        ({
            let (t, a) = s.step(PageEventView::Start);
            let (u, b) = t.step(PageEventView::Reply(Ok(r)));
            &&& script_of(a) is Some && contains(
                script_of(a)->0,
                "const MAX_CHARS = "@ + dec(max_chars as nat) + ";"@,
            )
            &&& told(b) is Some && ends(told(b)->0, list) && crate::text::starts(
                told(b)->0,
                dec(n as nat) + " interactive elements"@,
            )
        }),
{
    broadcast use {lemma_with_field, lemma_with_object};

    lemma_params();
    lemma_elements(max_chars);
    let text = crate::pages::elements_text(Ok(p), max_chars);
    lemma_text_read_back(text);
    assert(text.subrange(text.len() - list.len(), text.len() as int) =~= list);
    reveal_strlit(" interactive elements");
    reveal_strlit(" interactive elements:");
    reveal_strlit(" interactive elements (truncated at ");
    let head = dec(n as nat) + " interactive elements"@;
    assert(text.subrange(0, head.len() as int) =~= head);
}

/// A screenshot is taken in the format and the quality that were asked for, and
/// handed on as it came, as an image of that format. One of the whole page is taken
/// of as much as the page measures.
pub proof fn lemma_screenshot_tool(
    s: PageRunView,
    profile_id: Seq<char>,
    format: Seq<char>,
    quality: i64,
    full_page: bool,
    size: JsonView,
    sizes: JsonView,
    width: NumberView,
    height: NumberView,
    r: JsonView,
    data: Seq<char>,
)
    requires
        s.call == (CallView::Screenshot { profile_id, format, quality: Some(quality), full_page }),
        sizes.field("contentSize"@) == Some(size),
        size.field("width"@) == Some(JsonView::Number(width)),
        size.field("height"@) == Some(JsonView::Number(height)),
        r.field_str("data"@) == Some(data),
    ensures
        ({
            let (t, a) = s.step(PageEventView::Start);
            &&& !full_page ==> shoots(a, format, quality)
            &&& full_page ==> ({
                let (u, b) = t.step(PageEventView::Reply(Ok(sizes)));
                let (w, c) = u.step(
                    PageEventView::Scaled { width: Some(width), height: Some(height) },
                );
                &&& a matches PageActionView::Send { method, .. } && method
                    == "Page.getLayoutMetrics"@
                &&& b == (PageActionView::Scale { width: Some(width), height: Some(height) })
                &&& shoots(c, format, quality)
                &&& c matches PageActionView::Send { params, .. } && params.field("clip"@) is Some
                    && (params.field("clip"@)->0).field("width"@) == Some(JsonView::Number(width))
                    && (params.field("clip"@)->0).field("height"@) == Some(JsonView::Number(height))
                    && (params.field("clip"@)->0).field("x"@) == Some(JsonView::from_uint(0))
                    && (params.field("clip"@)->0).field("y"@) == Some(JsonView::from_uint(0))
                    && (params.field("clip"@)->0).field("scale"@) == Some(JsonView::from_uint(1))
                    && params.field_bool("captureBeyondViewport"@) == Some(true)
            })
            &&& PageRunView { stage: PageStageView::Sent, ..s }.step(PageEventView::Reply(Ok(r))).1
                matches PageActionView::Finish { tab, result } && result is Ok && ({
                let image = result->Ok_0.field_array("content"@);
                &&& image is Some && image->0.len() == 1
                &&& image->0[0].field_str("type"@) == Some("image"@)
                &&& image->0[0].field_str("data"@) == Some(data)
                &&& image->0[0].field_str("mimeType"@) == Some("image/"@ + format)
            })
        }),
{
    broadcast use {lemma_with_field, lemma_with_object};

    lemma_params();
}

/// The command takes a picture in that format and quality.
pub open spec fn shoots(a: PageActionView, format: Seq<char>, quality: i64) -> bool {
    a matches PageActionView::Send { method, params, .. } && method == "Page.captureScreenshot"@
        && params.field_str("format"@) == Some(format) && params.field("quality"@) == Some(
        JsonView::from_int(quality),
    )
}

/// A new tab is opened at the address that was given, and is the active one from
/// then on.
pub proof fn lemma_new_tab_tool(
    s: PageRunView,
    profile_id: Seq<char>,
    url: Seq<char>,
    r: JsonView,
    target: Seq<char>,
)
    requires
        s.call == (CallView::NewTab { profile_id, url }),
        !s.bidi,
        r.field_str("targetId"@) == Some(target),
    ensures
        ({
            let (t, a) = s.step(PageEventView::Start);
            let (u, b) = t.step(PageEventView::Reply(Ok(r)));
            &&& a matches PageActionView::Browser { method, params } && method
                == "Target.createTarget"@ && params.field_str("url"@) == Some(url)
            &&& b matches PageActionView::Finish { tab, .. } && tab == (ActiveTabView::Point {
                target,
            })
            &&& told(b) is Some && ends(told(b)->0, url)
        }),
{
    broadcast use {lemma_with_field, lemma_with_object};

    let text = "Opened new tab: "@ + url;
    lemma_text_read_back(text);
    assert(text.subrange(text.len() - url.len(), text.len() as int) =~= url);
}

/// Switching to a tab and closing one act on the page of that number among the
/// pages of the browser: the one brings it to the front and makes it the active
/// one, the other closes it and forgets it. Where there is no such page, nothing is
/// done.
pub proof fn lemma_tab_tools(
    s: PageRunView,
    profile_id: Seq<char>,
    index: u64,
    targets: JsonView,
    target: Seq<char>,
    r: JsonView,
)
    requires
        s.call == (CallView::SwitchTab { profile_id, index }) || s.call == (CallView::CloseTab {
            profile_id,
            index,
        }),
        !s.bidi,
        index < crate::pages::listed(targets).len() ==> crate::pages::listed(
            targets,
        )[index as int].field_str("id"@) == Some(target),
    ensures
        ({
            let (t, a) = s.step(PageEventView::Start);
            let (u, b) = t.step(PageEventView::Reply(Ok(targets)));
            let (w, c) = u.step(PageEventView::Reply(Ok(r)));
            let there = index < crate::pages::listed(targets).len();
            &&& a is Targets
            &&& there ==> (b matches PageActionView::Browser { method, params }
                && params.field_str("targetId"@) == Some(target) && method == (
            if s.call is SwitchTab {
                "Target.activateTarget"@
            } else {
                "Target.closeTarget"@
            }))
            &&& there ==> (c matches PageActionView::Finish { tab, .. } && tab == (
            if s.call is SwitchTab {
                ActiveTabView::Point { target }
            } else {
                ActiveTabView::Forget { target }
            }))
            &&& there ==> told(c) is Some && ends(told(c)->0, dec(index as nat))
            &&& !there ==> failed(b) is Some && ends(failed(b)->0, dec(index as nat))
        }),
{
    broadcast use {lemma_with_field, lemma_with_object};

    let d = dec(index as nat);
    let one = "Switched to tab "@ + d;
    let two = "Closed tab "@ + d;
    let none = "No tab at index "@ + d;
    lemma_text_read_back(one);
    lemma_text_read_back(two);
    assert(one.subrange(one.len() - d.len(), one.len() as int) =~= d);
    assert(two.subrange(two.len() - d.len(), two.len() as int) =~= d);
    assert(none.subrange(none.len() - d.len(), none.len() as int) =~= d);
}

/// The pages are told of as tabs, in their order, each with its number, its address
/// and its title.
pub proof fn lemma_page_tabs(v: Seq<JsonView>, i: int, url: Seq<char>, title: Seq<char>)
    requires
        0 <= i < v.len(),
        v[i].field_str("url"@) == Some(url),
        v[i].field_str("title"@) == Some(title),
    ensures
        crate::pages::page_tabs(v).len() == v.len(),
        crate::pages::page_tabs(v)[i].field("index"@) == Some(JsonView::from_uint(i as u64)),
        crate::pages::page_tabs(v)[i].field_str("url"@) == Some(url),
        crate::pages::page_tabs(v)[i].field_str("title"@) == Some(title),
{
    broadcast use {lemma_with_field, lemma_with_object};

    lemma_params();
}

/// A page is a target of the kind `page` that is no tool of the browser itself.
pub proof fn lemma_pages(targets: Seq<JsonView>, t: JsonView)
    ensures
        crate::cdp::pages(targets).contains(t) ==> targets.contains(t) && t.field_str("type"@)
            == Some("page"@),
        crate::cdp::pages(targets).len() <= targets.len(),
{
    if crate::cdp::pages(targets).contains(t) {
        crate::text::lemma_filter_elem(targets, crate::cdp::is_page(), t);
    }
    assert(crate::cdp::pages(targets).len() <= targets.len()) by {
        targets.lemma_filter_len(crate::cdp::is_page());
    }
}

/// Attaching files looks for the input with the selector that was given in the
/// document, and hands it the files that were given, in their order. Where there is
/// no such input, none is attached.
pub proof fn lemma_upload_tool(
    s: PageRunView,
    profile_id: Seq<char>,
    selector: Seq<char>,
    files: Seq<Seq<char>>,
    doc: JsonView,
    root: JsonView,
    root_id: i64,
    node: JsonView,
    node_id: i64,
)
    requires
        s.call == (CallView::UploadFile { profile_id, selector, files }),
        !s.bidi,
        doc.field("root"@) == Some(root),
        root.field_int("nodeId"@) == Some(root_id),
        node.field_int("nodeId"@) == Some(node_id),
    ensures
        ({
            let (t, a) = s.step(PageEventView::Start);
            let (u, b) = t.step(PageEventView::Reply(Ok(doc)));
            let (w, c) = u.step(PageEventView::Reply(Ok(node)));
            &&& a matches PageActionView::Send { method, .. } && method == "DOM.getDocument"@
            &&& b matches PageActionView::Send { method, params, .. } && method
                == "DOM.querySelector"@ && params.field_str("selector"@) == Some(selector)
                && params.field("nodeId"@) == Some(JsonView::from_int(root_id))
            &&& node_id != 0 ==> (c matches PageActionView::Send { method, params, .. } && method
                == "DOM.setFileInputFiles"@ && params.field("nodeId"@) == Some(
                JsonView::from_int(node_id),
            ) && (params.field_array("files"@) matches Some(list) && list.len() == files.len()
                && forall|i: int|
                0 <= i < files.len() ==> #[trigger] list[i] == JsonView::Str(files[i])))
            &&& node_id == 0 ==> failed(c) is Some && ends(failed(c)->0, selector)
        }),
{
    broadcast use {lemma_with_field, lemma_with_object};

    lemma_params();
    let none = "File input not found: "@ + selector;
    assert(none.subrange(none.len() - selector.len(), none.len() as int) =~= selector);
}

/// A tool acts on the profile that was named, where there is one, it runs, and its
/// browser is one that can be acted on; on no other.
pub proof fn lemma_acting_profile(v: Seq<ProfileView>, id: Seq<char>)
    ensures
        match acting_profile(v, id) {
            Ok(p) => v.contains(p) && p.id == id && p.running && (p.browser == "camoufox"@
                || p.browser == "cloak"@),
            Err(e) => {
                ||| forall|i: int| 0 <= i < v.len() ==> (#[trigger] v[i]).id != id
                ||| exists|i: int|
                    0 <= i < v.len() && (#[trigger] v[i]).id == id && (!v[i].running || (
                    v[i].browser != "camoufox"@ && v[i].browser != "cloak"@))
            },
        },
{
    lemma_profile_named(v, id);
    if let Some(p) = crate::profiles::profile_named(v, id) {
        let i = choose|i: int| 0 <= i < v.len() && v[i] == p;
        assert(v[i].id == id);
    }
}

} // verus!
