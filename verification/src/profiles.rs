//! What is known of the browser profiles.
use vstd::prelude::*;

use crate::text::{lemma_texts_push, opt_text, same, texts};

verus! {

/// A browser profile, as far as automation reads it.
#[derive(Debug, PartialEq, Eq)]
pub struct ProfileEntry {
    pub id: String,
    pub name: String,
    /// The engine: "camoufox", "cloak" or another.
    pub browser: String,
    pub group_id: Option<String>,
    /// Whether a process runs it.
    pub running: bool,
}

pub struct ProfileView {
    pub id: Seq<char>,
    pub name: Seq<char>,
    pub browser: Seq<char>,
    pub group_id: Option<Seq<char>>,
    pub running: bool,
}

impl ProfileEntry {
    pub open spec fn view(&self) -> ProfileView {
        ProfileView {
            id: self.id@,
            name: self.name@,
            browser: self.browser@,
            group_id: opt_text(self.group_id),
            running: self.running,
        }
    }
}

pub open spec fn profile_views(v: Seq<ProfileEntry>) -> Seq<ProfileView> {
    v.map_values(|p: ProfileEntry| p@)
}

/// The place of the first profile with the id, from `from` on.
pub open spec fn profile_at(v: Seq<ProfileView>, id: Seq<char>, from: int) -> Option<int>
    decreases v.len() - from,
{
    if from < 0 || from >= v.len() {
        None
    } else if v[from].id == id {
        Some(from)
    } else {
        profile_at(v, id, from + 1)
    }
}

/// The profile with the id.
pub open spec fn profile_named(v: Seq<ProfileView>, id: Seq<char>) -> Option<ProfileView> {
    match profile_at(v, id, 0) {
        Some(i) => Some(v[i]),
        None => None,
    }
}

/// The profile with the id.
pub fn find_profile<'a>(v: &'a Vec<ProfileEntry>, id: &str) -> (r: Option<&'a ProfileEntry>)
    ensures
        match r {
            Some(p) => profile_named(profile_views(v@), id@) == Some(p@),
            None => profile_named(profile_views(v@), id@) is None,
        },
{
    let ghost all = profile_views(v@);
    let mut i: usize = 0;
    while i < v.len()
        invariant
            i <= v@.len(),
            all == profile_views(v@),
            profile_at(all, id@, 0) == profile_at(all, id@, i as int),
        decreases v@.len() - i,
    {
        assert(all[i as int] == v@[i as int]@);
        if same(v[i].id.as_str(), id) {
            return Some(&v[i]);
        }
        i = i + 1;
    }
    None
}

/// Some profile with the id runs.
pub open spec fn runs(v: Seq<ProfileView>, id: Seq<char>) -> bool {
    exists|i: int| 0 <= i < v.len() && (#[trigger] v[i]).id == id && v[i].running
}

/// Whether the profile with the id runs.
pub fn profile_is_running(v: &Vec<ProfileEntry>, id: &str) -> (r: bool)
    ensures
        r == runs(profile_views(v@), id@),
{
    let ghost all = profile_views(v@);
    let mut i: usize = 0;
    while i < v.len()
        invariant
            i <= v@.len(),
            all == profile_views(v@),
            forall|j: int| 0 <= j < i ==> !((#[trigger] all[j]).id == id@ && all[j].running),
        decreases v@.len() - i,
    {
        assert(all[i as int] == v@[i as int]@);
        if same(v[i].id.as_str(), id) && v[i].running {
            assert(all[i as int].id == id@ && all[i as int].running);
            return true;
        }
        i = i + 1;
    }
    false
}

/// The texts, each where it stands first.
pub open spec fn each_once(s: Seq<Seq<char>>) -> Seq<Seq<char>>
    decreases s.len(),
{
    if s.len() == 0 {
        s
    } else {
        let before = each_once(s.drop_last());
        if before.contains(s.last()) {
            before
        } else {
            before.push(s.last())
        }
    }
}

/// Leaving out what is there already leaves nothing twice, and nothing out.
pub proof fn lemma_each_once(s: Seq<Seq<char>>)
    ensures
        each_once(s).no_duplicates(),
        forall|x: Seq<char>| #[trigger] each_once(s).contains(x) <==> s.contains(x),
    decreases s.len(),
{
    if s.len() > 0 {
        let t = s.drop_last();
        lemma_each_once(t);
        let before = each_once(t);
        assert forall|x: Seq<char>| #[trigger] each_once(s).contains(x) <==> s.contains(x) by {
            if s.contains(x) {
                let i = choose|i: int| 0 <= i < s.len() && s[i] == x;
                if i < t.len() {
                    assert(t[i] == x);
                    assert(before.contains(x));
                    let k = choose|k: int| 0 <= k < before.len() && before[k] == x;
                    assert(each_once(s)[k] == x);
                } else if !before.contains(x) {
                    assert(each_once(s)[before.len() as int] == x);
                }
            }
            if each_once(s).contains(x) {
                let k = choose|k: int| 0 <= k < each_once(s).len() && each_once(s)[k] == x;
                if k < before.len() {
                    assert(before[k] == x);
                    assert(before.contains(x));
                    assert(t.contains(x));
                    let i = choose|i: int| 0 <= i < t.len() && t[i] == x;
                    assert(s[i] == x);
                } else {
                    assert(s[s.len() - 1] == x);
                }
            }
        }
    }
}

/// The profiles in the first `n` that belong to one of the groups.
pub open spec fn members(v: Seq<ProfileView>, groups: Seq<Seq<char>>, n: int) -> Seq<Seq<char>>
    decreases n,
{
    if n <= 0 {
        Seq::empty()
    } else {
        let before = members(v, groups, n - 1);
        match v[n - 1].group_id {
            Some(g) => if groups.contains(g) {
                before.push(v[n - 1].id)
            } else {
                before
            },
            None => before,
        }
    }
}

/// The profiles named, then those of the groups, each once.
pub open spec fn expanded(
    ids: Seq<Seq<char>>,
    groups: Seq<Seq<char>>,
    v: Seq<ProfileView>,
) -> Seq<Seq<char>> {
    each_once(ids + members(v, groups, v.len() as int))
}

/// The profiles of an assignment are those that it names and those that belong to
/// one of its groups, none else and none twice; the ones that it names come
/// first, in their order.
pub proof fn lemma_expanded(ids: Seq<Seq<char>>, groups: Seq<Seq<char>>, v: Seq<ProfileView>)
    ensures
        expanded(ids, groups, v).no_duplicates(),
        forall|p: Seq<char>| #[trigger]
            expanded(ids, groups, v).contains(p) <==> ids.contains(p) || exists|i: int|
                0 <= i < v.len() && (#[trigger] v[i]).id == p && v[i].group_id is Some
                    && groups.contains(v[i].group_id->0),
        ids.no_duplicates() ==> ids.is_prefix_of(expanded(ids, groups, v)),
{
    let m = members(v, groups, v.len() as int);
    let all = ids + m;
    lemma_each_once(all);
    assert forall|p: Seq<char>| #[trigger] expanded(ids, groups, v).contains(p) <==> ids.contains(p)
        || exists|i: int|
        0 <= i < v.len() && (#[trigger] v[i]).id == p && v[i].group_id is Some && groups.contains(
            v[i].group_id->0,
        ) by {
        lemma_members(v, groups, v.len() as int, p);
        if all.contains(p) {
            let i = choose|i: int| 0 <= i < all.len() && all[i] == p;
            if i < ids.len() {
                assert(ids[i] == p);
            } else {
                assert(m[i - ids.len()] == p);
            }
        }
        if ids.contains(p) {
            let i = choose|i: int| 0 <= i < ids.len() && ids[i] == p;
            assert(all[i] == p);
        }
        if m.contains(p) {
            let i = choose|i: int| 0 <= i < m.len() && m[i] == p;
            assert(all[ids.len() + i] == p);
        }
    }
    if ids.no_duplicates() {
        lemma_named_first(ids, m, m.len() as int);
        assert(m.take(m.len() as int) =~= m);
    }
}

proof fn lemma_members(v: Seq<ProfileView>, groups: Seq<Seq<char>>, n: int, p: Seq<char>)
    requires
        0 <= n <= v.len(),
    ensures
        members(v, groups, n).contains(p) <==> exists|i: int|
            0 <= i < n && (#[trigger] v[i]).id == p && v[i].group_id is Some && groups.contains(
                v[i].group_id->0,
            ),
    decreases n,
{
    if n > 0 {
        lemma_members(v, groups, n - 1, p);
        let before = members(v, groups, n - 1);
        let all = members(v, groups, n);
        if all.contains(p) {
            let k = choose|k: int| 0 <= k < all.len() && all[k] == p;
            if k < before.len() {
                assert(before[k] == p);
            } else {
                assert(v[n - 1].id == p);
            }
        }
        if before.contains(p) {
            let k = choose|k: int| 0 <= k < before.len() && before[k] == p;
            assert(all[k] == p);
        }
        if v[n - 1].id == p && v[n - 1].group_id is Some && groups.contains(v[n - 1].group_id->0) {
            assert(all[before.len() as int] == p);
        }
    }
}

proof fn lemma_named_first(ids: Seq<Seq<char>>, m: Seq<Seq<char>>, n: int)
    requires
        ids.no_duplicates(),
        0 <= n <= m.len(),
    ensures
        ids.is_prefix_of(each_once(ids + m.take(n))),
    decreases n,
{
    let s = ids + m.take(n);
    if n == 0 {
        assert(s =~= ids);
        lemma_distinct_stay(ids);
        assert(ids.is_prefix_of(ids)) by {
            assert(ids =~= ids.take(ids.len() as int));
        }
    } else {
        lemma_named_first(ids, m, n - 1);
        assert(s.drop_last() =~= ids + m.take(n - 1));
        let before = each_once(s.drop_last());
        assert(ids =~= each_once(s).take(ids.len() as int)) by {
            assert(ids =~= before.take(ids.len() as int));
        }
    }
}

proof fn lemma_distinct_stay(s: Seq<Seq<char>>)
    requires
        s.no_duplicates(),
    ensures
        each_once(s) == s,
    decreases s.len(),
{
    if s.len() > 0 {
        let t = s.drop_last();
        assert(t.no_duplicates()) by {
            assert forall|i: int, j: int|
                0 <= i < t.len() && 0 <= j < t.len() && i != j implies t[i] != t[j] by {
                assert(s[i] != s[j]);
            }
        }
        lemma_distinct_stay(t);
        if t.contains(s.last()) {
            let i = choose|i: int| 0 <= i < t.len() && t[i] == s.last();
            assert(s[i] != s[s.len() - 1]);
        }
        assert(t.push(s.last()) =~= s);
    }
}

/// The profile that is found has the id that was asked for and is one of them;
/// none is found only where none has it.
pub proof fn lemma_profile_named(v: Seq<ProfileView>, id: Seq<char>)
    ensures
        profile_named(v, id) is Some ==> (profile_named(v, id)->0).id == id && v.contains(
            profile_named(v, id)->0,
        ),
        profile_named(v, id) is None ==> forall|i: int|
            0 <= i < v.len() ==> (#[trigger] v[i]).id != id,
{
    lemma_profile_at(v, id, 0);
}

proof fn lemma_profile_at(v: Seq<ProfileView>, id: Seq<char>, from: int)
    requires
        0 <= from,
    ensures
        match profile_at(v, id, from) {
            Some(i) => from <= i < v.len() && v[i].id == id,
            None => forall|i: int| from <= i < v.len() ==> (#[trigger] v[i]).id != id,
        },
    decreases v.len() - from,
{
    if from < v.len() && v[from].id != id {
        lemma_profile_at(v, id, from + 1);
    }
}

/// The texts, each where it stands first.
pub fn dedup_texts(v: Vec<String>) -> (r: Vec<String>)
    ensures
        texts(r@) == each_once(texts(v@)),
{
    let ghost all = texts(v@);
    let mut out: Vec<String> = Vec::new();
    let mut i: usize = 0;
    assert(all.take(0) =~= Seq::<Seq<char>>::empty());
    assert(texts(out@) =~= Seq::<Seq<char>>::empty());
    while i < v.len()
        invariant
            i <= v@.len(),
            all == texts(v@),
            texts(out@) == each_once(all.take(i as int)),
        decreases v@.len() - i,
    {
        assert(all.take(i as int + 1).drop_last() =~= all.take(i as int));
        if !crate::text::has_text(&out, v[i].as_str()) {
            proof {
                lemma_texts_push(out@, v@[i as int]);
            }
            out.push(v[i].clone());
        }
        i = i + 1;
    }
    assert(all.take(all.len() as int) =~= all);
    out
}

/// The profiles named, then those of the groups, each once.
pub fn expand_profiles(
    ids: &Vec<String>,
    groups: &Vec<String>,
    v: &Vec<ProfileEntry>,
) -> (r: Vec<String>)
    ensures
        texts(r@) == expanded(texts(ids@), texts(groups@), profile_views(v@)),
{
    let ghost all = profile_views(v@);
    let ghost first = texts(ids@);
    let mut out = crate::text::copy_texts(ids);
    let mut i: usize = 0;
    assert(first + Seq::<Seq<char>>::empty() =~= first);
    while i < v.len()
        invariant
            i <= v@.len(),
            all == profile_views(v@),
            texts(out@) == first + members(all, texts(groups@), i as int),
        decreases v@.len() - i,
    {
        assert(all[i as int] == v@[i as int]@);
        match &v[i].group_id {
            Some(g) => {
                if crate::text::has_text(groups, g.as_str()) {
                    let id = v[i].id.clone();
                    proof {
                        lemma_texts_push(out@, id);
                        let m = members(all, texts(groups@), i as int);
                        assert((first + m).push(id@) =~= first + m.push(id@));
                    }
                    out.push(id);
                }
            },
            None => {},
        }
        i = i + 1;
    }
    dedup_texts(out)
}

} // verus!
