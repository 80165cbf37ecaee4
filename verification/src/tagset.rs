//! An indexed collection of scanned tags.

use vstd::prelude::*;
use crate::glob::{glob_matches, glob_scan, lemma_scan_agrees, only_stars_from};
use crate::tag::PlcTag;
use crate::text::{chars_of, str_eq, trim_end_char};

verus! {

/// A scanned tag list, indexed for lookup by browse path and display name.
///
/// Dereferences to `[PlcTag]`, so iteration and slicing work as on a `Vec`.
#[derive(Debug, Default)]
pub struct TagSet {
    tags: Vec<PlcTag>,
}

impl View for TagSet {
    type V = Seq<PlcTag>;

    closed spec fn view(&self) -> Seq<PlcTag> {
        self.tags@
    }
}

/// Index of the last of `tags[..n]` whose path is `key`, or `-1`.
pub open spec fn last_with_path(tags: Seq<PlcTag>, key: Seq<char>, n: int) -> int
    decreases n,
{
    if n <= 0 {
        -1
    } else if tags[n - 1].path@ == key {
        n - 1
    } else {
        last_with_path(tags, key, n - 1)
    }
}

/// Index of the first of `tags[from..]` whose display name is `key`, or `-1`.
pub open spec fn first_with_name(tags: Seq<PlcTag>, key: Seq<char>, from: int) -> int
    decreases tags.len() - from,
{
    if from < 0 || from >= tags.len() {
        -1
    } else if tags[from].display_name@ == key {
        from
    } else {
        first_with_name(tags, key, from + 1)
    }
}

/// Index of the first of `tags[from..]` whose node ID is `key`, or `-1`.
pub open spec fn first_with_node_id(tags: Seq<PlcTag>, key: Seq<char>, from: int) -> int
    decreases tags.len() - from,
{
    if from < 0 || from >= tags.len() {
        -1
    } else if tags[from].node_id@ == key {
        from
    } else {
        first_with_node_id(tags, key, from + 1)
    }
}

/// Which tag a lookup by `key` finds: the one whose browse path is `key`
/// (the last, should several share it), else the first whose display name is
/// `key`, else none (`-1`).
pub open spec fn find_index(tags: Seq<PlcTag>, key: Seq<char>) -> int {
    let by_path = last_with_path(tags, key, tags.len() as int);
    if by_path >= 0 {
        by_path
    } else {
        first_with_name(tags, key, 0)
    }
}

/// The tags of `tags[..n]` whose browse path matches `pattern`, in order.
pub open spec fn matching_prefix(tags: Seq<PlcTag>, pattern: Seq<char>, n: int) -> Seq<PlcTag>
    decreases n,
{
    if n <= 0 {
        Seq::empty()
    } else if glob_matches(pattern, tags[n - 1].path@) {
        matching_prefix(tags, pattern, n - 1).push(tags[n - 1])
    } else {
        matching_prefix(tags, pattern, n - 1)
    }
}

/// `path` lies directly beneath `parent`: it starts with `parent` (trailing
/// slashes dropped) and a `/`, and holds no further `/`.
pub open spec fn directly_beneath(parent: Seq<char>, path: Seq<char>) -> bool {
    let prefix = trim_end_char(parent, '/').push('/');
    &&& prefix.len() <= path.len()
    &&& path.take(prefix.len() as int) == prefix
    &&& !path.skip(prefix.len() as int).contains('/')
}

/// The tags of `tags[..n]` directly beneath `parent`, in order.
pub open spec fn children_prefix(tags: Seq<PlcTag>, parent: Seq<char>, n: int) -> Seq<PlcTag>
    decreases n,
{
    if n <= 0 {
        Seq::empty()
    } else if directly_beneath(parent, tags[n - 1].path@) {
        children_prefix(tags, parent, n - 1).push(tags[n - 1])
    } else {
        children_prefix(tags, parent, n - 1)
    }
}

/// The tags a vector of references points at.
pub open spec fn pointees(v: Seq<&PlcTag>) -> Seq<PlcTag> {
    v.map_values(|t: &PlcTag| *t)
}

/// `s` with every trailing `/` dropped, then a single `/` added.
fn child_prefix(parent: &str) -> (r: Vec<char>)
    ensures
        r@ == trim_end_char(parent@, '/').push('/'),
{
    let mut v = chars_of(parent);
    let ghost whole = v@;
    while v.len() > 0 && v[v.len() - 1] == '/'
        invariant
            trim_end_char(whole, '/') == trim_end_char(v@, '/'),
        decreases v.len(),
    {
        let ghost before = v@;
        v.pop();
        assert(before.drop_last() =~= v@);
    }
    v.push('/');
    v
}

/// Whether `path` lies directly beneath the parent whose child prefix is `prefix`.
fn beneath(prefix: &Vec<char>, path: &str) -> (r: bool)
    requires
        prefix@.len() > 0,
    ensures
        r == ({
            &&& prefix@.len() <= path@.len()
            &&& path@.take(prefix@.len() as int) == prefix@
            &&& !path@.skip(prefix@.len() as int).contains('/')
        }),
{
    let p = chars_of(path);
    if p.len() < prefix.len() {
        return false;
    }
    let mut k: usize = 0;
    while k < prefix.len()
        invariant
            p@ == path@,
            prefix.len() <= p.len(),
            k <= prefix.len(),
            forall|m: int| 0 <= m < k ==> p@[m] == prefix@[m],
        decreases prefix.len() - k,
    {
        if p[k] != prefix[k] {
            assert(p@.take(prefix@.len() as int)[k as int] != prefix@[k as int]);
            return false;
        }
        k += 1;
    }
    assert(p@.take(prefix@.len() as int) =~= prefix@);
    let mut j: usize = prefix.len();
    while j < p.len()
        invariant
            p@ == path@,
            prefix.len() <= j <= p.len(),
            forall|m: int| prefix.len() <= m < j ==> p@[m] != '/',
        decreases p.len() - j,
    {
        if p[j] == '/' {
            assert(p@.skip(prefix@.len() as int)[j - prefix.len()] == '/');
            return false;
        }
        j += 1;
    }
    assert forall|m: int| 0 <= m < p@.skip(prefix@.len() as int).len() implies p@.skip(prefix@.len() as int)[m] != '/' by {
        assert(p@.skip(prefix@.len() as int)[m] == p@[prefix.len() + m]);
    }
    true
}

impl TagSet {
    /// Builds an indexed set from a tag list.
    ///
    /// Where several tags share a display name, the first wins for name
    /// lookup; browse paths are unique by construction, and should two share
    /// one anyway, the last wins.
    pub fn new(tags: Vec<PlcTag>) -> (s: Self)
        ensures
            s@ == tags@,
    {
        TagSet { tags }
    }

    /// Finds a tag by exact browse path, falling back to display name.
    pub fn find(&self, path_or_name: &str) -> (r: Option<&PlcTag>)
        ensures
            find_index(self@, path_or_name@) < 0 ==> r is None,
            find_index(self@, path_or_name@) >= 0 ==> r is Some && *r->0 == self@[find_index(self@, path_or_name@)],
    {
        let mut n: usize = self.tags.len();
        while n > 0
            invariant
                n <= self.tags.len(),
                last_with_path(self@, path_or_name@, self@.len() as int) == last_with_path(self@, path_or_name@, n as int),
            decreases n,
        {
            if str_eq(self.tags[n - 1].path.as_str(), path_or_name) {
                return Some(&self.tags[n - 1]);
            }
            n -= 1;
        }
        let mut i: usize = 0;
        while i < self.tags.len()
            invariant
                i <= self.tags.len(),
                last_with_path(self@, path_or_name@, self@.len() as int) == -1,
                first_with_name(self@, path_or_name@, 0) == first_with_name(self@, path_or_name@, i as int),
            decreases self.tags.len() - i,
        {
            if str_eq(self.tags[i].display_name.as_str(), path_or_name) {
                return Some(&self.tags[i]);
            }
            i += 1;
        }
        None
    }

    /// Finds a tag by its node ID; the first, should several share it.
    pub fn find_by_node_id(&self, node_id: &str) -> (r: Option<&PlcTag>)
        ensures
            first_with_node_id(self@, node_id@, 0) < 0 ==> r is None,
            first_with_node_id(self@, node_id@, 0) >= 0 ==> r is Some && *r->0 == self@[first_with_node_id(self@, node_id@, 0)],
    {
        let mut i: usize = 0;
        while i < self.tags.len()
            invariant
                i <= self.tags.len(),
                first_with_node_id(self@, node_id@, 0) == first_with_node_id(self@, node_id@, i as int),
            decreases self.tags.len() - i,
        {
            if str_eq(self.tags[i].node_id.as_str(), node_id) {
                return Some(&self.tags[i]);
            }
            i += 1;
        }
        None
    }

    /// Every tag whose browse path matches a glob pattern, in order.
    ///
    /// `*` matches any run of characters including `/`, and `?` matches one.
    pub fn matching(&self, pattern: &str) -> (r: Vec<&PlcTag>)
        ensures
            pointees(r@) == matching_prefix(self@, pattern@, self@.len() as int),
    {
        let mut out: Vec<&PlcTag> = Vec::new();
        let mut i: usize = 0;
        while i < self.tags.len()
            invariant
                i <= self.tags.len(),
                pointees(out@) == matching_prefix(self@, pattern@, i as int),
            decreases self.tags.len() - i,
        {
            let tag = &self.tags[i];
            if glob_match(pattern, tag.path.as_str()) {
                out.push(tag);
                assert(pointees(out@) =~= matching_prefix(self@, pattern@, i as int).push(self@[i as int]));
            }
            i += 1;
        }
        out
    }

    /// Every tag directly beneath a browse path, in order.
    pub fn children_of(&self, path: &str) -> (r: Vec<&PlcTag>)
        ensures
            pointees(r@) == children_prefix(self@, path@, self@.len() as int),
    {
        let prefix = child_prefix(path);
        let mut out: Vec<&PlcTag> = Vec::new();
        let mut i: usize = 0;
        while i < self.tags.len()
            invariant
                i <= self.tags.len(),
                prefix@ == trim_end_char(path@, '/').push('/'),
                pointees(out@) == children_prefix(self@, path@, i as int),
            decreases self.tags.len() - i,
        {
            let tag = &self.tags[i];
            if beneath(&prefix, tag.path.as_str()) {
                out.push(tag);
                assert(pointees(out@) =~= children_prefix(self@, path@, i as int).push(self@[i as int]));
            }
            i += 1;
        }
        out
    }

    /// Number of tags in the set.
    pub fn len(&self) -> (r: usize)
        ensures
            r == self@.len(),
    {
        self.tags.len()
    }

    /// Whether the set is empty.
    pub fn is_empty(&self) -> (r: bool)
        ensures
            r == (self@.len() == 0),
    {
        self.tags.len() == 0
    }

    /// Consumes the set and returns the underlying list.
    pub fn into_vec(self) -> (r: Vec<PlcTag>)
        ensures
            r@ == self@,
    {
        self.tags
    }

    /// Borrows the underlying list.
    pub fn as_slice(&self) -> (r: &[PlcTag])
        ensures
            r@ == self@,
    {
        self.tags.as_slice()
    }
}

impl Clone for TagSet {
    fn clone(&self) -> (r: Self)
        ensures
            r@ == self@,
    {
        let mut tags: Vec<PlcTag> = Vec::new();
        let mut i: usize = 0;
        while i < self.tags.len()
            invariant
                i <= self.tags.len(),
                tags@ == self.tags@.take(i as int),
            decreases self.tags.len() - i,
        {
            tags.push(self.tags[i].clone());
            assert(self.tags@.take(i + 1) =~= self.tags@.take(i as int).push(self.tags@[i as int]));
            i += 1;
        }
        assert(self.tags@.take(self.tags.len() as int) =~= self.tags@);
        TagSet { tags }
    }
}

impl From<Vec<PlcTag>> for TagSet {
    fn from(tags: Vec<PlcTag>) -> (r: Self)
        ensures
            r@ == tags@,
    {
        TagSet { tags }
    }
}

impl vstd::std_specs::convert::FromSpecImpl<Vec<PlcTag>> for TagSet {
    open spec fn obeys_from_spec() -> bool {
        true
    }

    closed spec fn from_spec(v: Vec<PlcTag>) -> TagSet {
        TagSet { tags: v }
    }
}

impl std::ops::Deref for TagSet {
    type Target = [PlcTag];

    fn deref(&self) -> (r: &[PlcTag])
        ensures
            r@ == self@,
    {
        self.tags.as_slice()
    }
}

/// Matches `text` against a glob with `*` and `?` wildcards.
///
/// `*` matches any run of characters, `/` included, and `?` exactly one.
/// Iterative with a single backtracking point rather than recursive, so a
/// pathological pattern cannot blow the stack.
pub fn glob_match(pattern: &str, text: &str) -> (r: bool)
    ensures
        r == glob_matches(pattern@, text@),
{
    proof {
        lemma_scan_agrees(pattern@, text@);
    }
    let pat: Vec<char> = chars_of(pattern);
    let txt: Vec<char> = chars_of(text);
    let ghost pv = pat@;
    let ghost tv = txt@;

    let mut p: usize = 0;
    let mut t: usize = 0;
    let mut star: usize = usize::MAX;
    let mut resume: usize = 0;

    while t < txt.len()
        invariant
            pv == pat@,
            tv == txt@,
            pv == pattern@,
            tv == text@,
            glob_scan(pv, tv, 0, 0, -1, 0) == glob_matches(pv, tv),
            p <= pat.len(),
            t <= txt.len(),
            resume <= t,
            star == usize::MAX || star < pat.len(),
            glob_scan(pv, tv, 0, 0, -1, 0) == glob_scan(
                pv,
                tv,
                p as int,
                t as int,
                if star == usize::MAX { -1 } else { star as int },
                resume as int,
            ),
        decreases txt.len() - resume, (txt.len() - t) + (pat.len() - p),
    {
        if p < pat.len() && pat[p] == '*' {
            star = p;
            resume = t;
            p += 1;
        } else if p < pat.len() && (pat[p] == '?' || pat[p] == txt[t]) {
            p += 1;
            t += 1;
        } else if star != usize::MAX {
            // Backtrack: let the last `*` swallow one more character.
            p = star + 1;
            resume += 1;
            t = resume;
        } else {
            assert(!glob_scan(pv, tv, p as int, t as int, -1, resume as int));
            return false;
        }
    }

    while p < pat.len() && pat[p] == '*'
        invariant
            pv == pat@,
            pv == pattern@,
            tv == text@,
            glob_scan(pv, tv, 0, 0, -1, 0) == glob_matches(pv, tv),
            p <= pat.len(),
            glob_scan(pv, tv, 0, 0, -1, 0) == only_stars_from(pv, p as int),
        decreases pat.len() - p,
    {
        p += 1;
    }

    p == pat.len()
}

/// `last_with_path` finds the last tag of `tags[..n]` with that path.
proof fn lemma_last_with_path(tags: Seq<PlcTag>, key: Seq<char>, n: int)
    requires
        0 <= n <= tags.len(),
    ensures
        -1 <= last_with_path(tags, key, n) < n,
        last_with_path(tags, key, n) >= 0 ==> tags[last_with_path(tags, key, n)].path@ == key,
        forall|i: int| 0 <= i < n && tags[i].path@ == key ==> i <= last_with_path(tags, key, n),
    decreases n,
{
    if n > 0 {
        lemma_last_with_path(tags, key, n - 1);
    }
}

/// `first_with_name` finds the first tag of `tags[from..]` with that name.
proof fn lemma_first_with_name(tags: Seq<PlcTag>, key: Seq<char>, from: int)
    requires
        0 <= from <= tags.len(),
    ensures
        first_with_name(tags, key, from) == -1 || from <= first_with_name(tags, key, from) < tags.len(),
        first_with_name(tags, key, from) >= 0 ==> tags[first_with_name(tags, key, from)].display_name@ == key,
        forall|i: int|
            from <= i < tags.len() && tags[i].display_name@ == key ==> first_with_name(tags, key, from) >= 0
                && first_with_name(tags, key, from) <= i,
    decreases tags.len() - from,
{
    if from < tags.len() {
        lemma_first_with_name(tags, key, from + 1);
    }
}

/// Where no two tags share a browse path, a lookup finds the tag with that
/// path, wherever it stands; failing that, the first tag with that display
/// name; failing that, nothing.
pub proof fn law_find_path_then_first_name(tags: Seq<PlcTag>, key: Seq<char>)
    requires
        forall|i: int, j: int| 0 <= i < j < tags.len() ==> tags[i].path@ != tags[j].path@,
    ensures
        forall|i: int| 0 <= i < tags.len() && tags[i].path@ == key ==> find_index(tags, key) == i,
        (forall|i: int| 0 <= i < tags.len() ==> tags[i].path@ != key) ==> {
            ||| find_index(tags, key) == -1 && forall|i: int| 0 <= i < tags.len() ==> tags[i].display_name@ != key
            ||| {
                &&& 0 <= find_index(tags, key) < tags.len()
                &&& tags[find_index(tags, key)].display_name@ == key
                &&& forall|i: int| 0 <= i < find_index(tags, key) ==> tags[i].display_name@ != key
            }
        },
{
    lemma_last_with_path(tags, key, tags.len() as int);
    lemma_first_with_name(tags, key, 0);
}

/// A trailing `/` on the parent path changes nothing: the children of `p/`
/// are the children of `p`.
pub proof fn law_children_ignore_trailing_slash(tags: Seq<PlcTag>, parent: Seq<char>, n: int)
    ensures
        children_prefix(tags, parent.push('/'), n) == children_prefix(tags, parent, n),
    decreases n,
{
    assert(trim_end_char(parent.push('/'), '/') == trim_end_char(parent.push('/').drop_last(), '/'));
    assert(parent.push('/').drop_last() =~= parent);
    if n > 0 {
        law_children_ignore_trailing_slash(tags, parent, n - 1);
    }
}

proof fn lemma_first_with_node_id(tags: Seq<PlcTag>, key: Seq<char>, from: int)
    requires
        0 <= from,
    ensures
        first_with_node_id(tags, key, from) == -1 || from <= first_with_node_id(tags, key, from) < tags.len(),
        first_with_node_id(tags, key, from) >= 0 ==> tags[first_with_node_id(tags, key, from)].node_id@ == key,
        forall|i: int|
            from <= i < tags.len() && (first_with_node_id(tags, key, from) == -1 || i < first_with_node_id(
                tags,
                key,
                from,
            )) ==> tags[i].node_id@ != key,
    decreases tags.len() - from,
{
    if from < tags.len() {
        lemma_first_with_node_id(tags, key, from + 1);
    }
}

/// A lookup by node ID finds a tag whose node ID equals the key exactly, the
/// first such; it finds nothing only when no tag has that node ID.
pub proof fn law_node_id_lookup_is_exact(tags: Seq<PlcTag>, key: Seq<char>)
    ensures
        first_with_node_id(tags, key, 0) >= 0 ==> {
            &&& first_with_node_id(tags, key, 0) < tags.len()
            &&& tags[first_with_node_id(tags, key, 0)].node_id@ == key
            &&& forall|i: int| 0 <= i < first_with_node_id(tags, key, 0) ==> tags[i].node_id@ != key
        },
        first_with_node_id(tags, key, 0) < 0 ==> forall|i: int| 0 <= i < tags.len() ==> tags[i].node_id@ != key,
{
    lemma_first_with_node_id(tags, key, 0);
}

} // verus!
