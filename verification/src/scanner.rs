//! Walking an address space into a flat tag list.

use vstd::prelude::*;
use crate::browser::{listing_of, BrowsedNode, NodeBrowser, NodeClass};
use crate::error::Error;
use crate::filter::NodeFilter;
use crate::tag::{clone_opt_string, is_property_reference, reached_as_property, PlcTag};
use crate::text::{join_path, join_path_spec, owned, str_eq};

verus! {

/// Tuning knobs for a scan.
#[derive(Debug, Clone, Copy)]
#[non_exhaustive]
pub struct ScanOptions {
    /// Maximum recursion depth below the root node.
    ///
    /// Guards against pathological address spaces. Twelve levels covers a
    /// typical PLC data-block hierarchy with room to spare.
    pub max_depth: usize,
    /// Whether to descend into the children of `Variable` nodes.
    ///
    /// Structured tags expose their members as child variables, so this is
    /// usually what you want. Turn it off to collect only top-level variables.
    pub descend_into_variables: bool,
    /// Whether to keep nodes reached through `HasProperty`.
    ///
    /// Properties (`EngineeringUnits`, `EURange`, ...) are metadata rather
    /// than process data, so they are left out unless this is set.
    pub include_properties: bool,
}

impl Default for ScanOptions {
    fn default() -> (r: Self)
        ensures
            r.max_depth == 12,
            r.descend_into_variables,
            !r.include_properties,
    {
        ScanOptions { max_depth: 12, descend_into_variables: true, include_properties: false }
    }
}

impl ScanOptions {
    /// Sets the maximum recursion depth below the root node.
    pub fn max_depth(self, depth: usize) -> (r: Self)
        ensures
            r.max_depth == depth,
            r.descend_into_variables == self.descend_into_variables,
            r.include_properties == self.include_properties,
    {
        ScanOptions { max_depth: depth, ..self }
    }

    /// Sets whether to descend into the children of `Variable` nodes.
    pub fn descend_into_variables(self, yes: bool) -> (r: Self)
        ensures
            r.max_depth == self.max_depth,
            r.descend_into_variables == yes,
            r.include_properties == self.include_properties,
    {
        ScanOptions { descend_into_variables: yes, ..self }
    }

    /// Sets whether nodes reached through `HasProperty` are kept.
    pub fn include_properties(self, yes: bool) -> (r: Self)
        ensures
            r.max_depth == self.max_depth,
            r.descend_into_variables == self.descend_into_variables,
            r.include_properties == yes,
    {
        ScanOptions { include_properties: yes, ..self }
    }
}

/// The outcome of a scan, including the subtrees that could not be read.
///
/// Partial results are reported rather than silently dropped: a scan that
/// returns 2,400 tags because one subtree failed looks identical to a healthy
/// 2,400-tag scan unless the failure is surfaced.
#[derive(Debug)]
#[non_exhaustive]
pub struct ScanReport {
    /// Every variable node discovered, in browse order.
    pub tags: Vec<PlcTag>,
    /// Subtrees that could not be browsed, paired with the reason.
    pub skipped: Vec<(String, Error)>,
}

impl ScanReport {
    /// Returns `true` when no subtree was skipped.
    pub fn is_complete(&self) -> (r: bool)
        ensures
            r == (self.skipped@.len() == 0),
    {
        self.skipped.len() == 0
    }

    /// Consumes the report and returns just the tags.
    pub fn into_tags(self) -> (r: Vec<PlcTag>)
        ensures
            r@ == self.tags@,
    {
        self.tags
    }
}

/// One answer a scan received, in the order it received them: a filter's
/// verdict on a display name, or a browser's listing of a node.
pub enum Answer {
    /// Whether the filter kept a node.
    Verdict(bool),
    /// What the browser returned for a node.
    Listing(Result<Seq<BrowsedNode>, Error>),
}

/// A tag a scan collects: a variable's names, the path that reached it and
/// how many levels below the root it sits.
pub struct ScannedTag {
    /// The variable's display name.
    pub display_name: Seq<char>,
    /// The variable's browse name.
    pub browse_name: Seq<char>,
    /// The variable's node identifier.
    pub node_id: Seq<char>,
    /// The reference type that reached it.
    pub reference_type: Option<String>,
    /// Its type definition.
    pub type_definition: Option<String>,
    /// The slash-joined browse names from the root.
    pub path: Seq<char>,
    /// Levels below the root: `1` for the root's own children.
    pub depth: int,
}

/// What walking part of the tree produces.
pub struct WalkOut {
    /// Tags collected, in order.
    pub tags: Seq<ScannedTag>,
    /// Subtrees whose listing failed, keyed by node.
    pub skipped: Seq<(Seq<char>, Error)>,
    /// Each node browsed, with the ancestors it had when it was browsed.
    pub browsed: Seq<(Seq<char>, Seq<Seq<char>>)>,
    /// How many answers were consumed.
    pub used: int,
    /// Every answer was of the kind asked for and one the filter or browser may give.
    pub ok: bool,
}

impl WalkOut {
    /// Nothing collected, nothing consumed.
    pub open spec fn empty() -> WalkOut {
        WalkOut { tags: Seq::empty(), skipped: Seq::empty(), browsed: Seq::empty(), used: 0, ok: true }
    }

    /// The answers ran out or were not of the kind asked for.
    pub open spec fn stuck(used: int) -> WalkOut {
        WalkOut { tags: Seq::empty(), skipped: Seq::empty(), browsed: Seq::empty(), used, ok: false }
    }

    /// `self` followed by `rest`.
    pub open spec fn followed_by(self, rest: WalkOut) -> WalkOut {
        WalkOut {
            tags: self.tags + rest.tags,
            skipped: self.skipped + rest.skipped,
            browsed: self.browsed + rest.browsed,
            used: self.used + rest.used,
            ok: self.ok && rest.ok,
        }
    }
}

/// `Variable`, the class text a scanned tag carries.
pub open spec fn variable_class_name() -> Seq<char> {
    seq!['V', 'a', 'r', 'i', 'a', 'b', 'l', 'e']
}

/// `t` is the record built for the scanned tag `s`: its names, class and
/// path, how it was reached, and no attribute read yet.
pub open spec fn is_scanned(t: PlcTag, s: ScannedTag) -> bool {
    &&& t.display_name@ == s.display_name
    &&& t.browse_name@ == s.browse_name
    &&& t.node_id@ == s.node_id
    &&& t.node_class@ == variable_class_name()
    &&& t.path@ == s.path
    &&& t.data_type is None
    &&& t.value_rank is None
    &&& t.access_level is None
    &&& t.min_sampling_interval_bits is None
    &&& t.historizing is None
    &&& t.type_definition == s.type_definition
    &&& t.reference_type == s.reference_type
}

/// The name a node adds to the browse path: its browse name, or its display
/// name when the browse name is empty.
pub open spec fn path_segment(c: BrowsedNode) -> Seq<char> {
    if c.browse_name@.len() == 0 {
        c.display_name@
    } else {
        c.browse_name@
    }
}

/// The tag a scan records for the variable `c` found at `path`, `depth`
/// levels below the root.
pub open spec fn scanned_of(c: BrowsedNode, path: Seq<char>, depth: int) -> ScannedTag {
    ScannedTag {
        display_name: c.display_name@,
        browse_name: c.browse_name@,
        node_id: c.node_id@,
        reference_type: c.reference_type,
        type_definition: c.type_definition,
        path,
        depth,
    }
}

/// The characters of each string.
pub open spec fn names(v: Seq<String>) -> Seq<Seq<char>> {
    v.map_values(|s: String| s@)
}

/// `new` is `old` with tags matching `tags` and entries matching `skipped`
/// appended, everything before left as it was.
pub open spec fn report_extends(old: ScanReport, new: ScanReport, tags: Seq<ScannedTag>, skipped: Seq<(Seq<char>, Error)>) -> bool {
    &&& new.tags@.len() == old.tags@.len() + tags.len()
    &&& forall|k: int| 0 <= k < old.tags@.len() ==> new.tags@[k] == old.tags@[k]
    &&& forall|k: int| 0 <= k < tags.len() ==> is_scanned(#[trigger] new.tags@[old.tags@.len() + k], tags[k])
    &&& new.skipped@.len() == old.skipped@.len() + skipped.len()
    &&& forall|k: int| 0 <= k < old.skipped@.len() ==> new.skipped@[k] == old.skipped@[k]
    &&& forall|k: int|
        0 <= k < skipped.len() ==> (#[trigger] new.skipped@[old.skipped@.len() + k]).0@ == skipped[k].0
            && new.skipped@[old.skipped@.len() + k].1 == skipped[k].1
}

/// Every tag sits between `lo` and `hi` levels below the root.
pub open spec fn depths_within(tags: Seq<ScannedTag>, lo: int, hi: int) -> bool {
    forall|k: int| 0 <= k < tags.len() ==> lo <= #[trigger] tags[k].depth <= hi
}

/// No node was browsed while it was among its own ancestors.
pub open spec fn never_below_itself(browsed: Seq<(Seq<char>, Seq<Seq<char>>)>) -> bool {
    forall|k: int| 0 <= k < browsed.len() ==> !(#[trigger] browsed[k]).1.contains(browsed[k].0)
}

proof fn lemma_depths_concat(a: Seq<ScannedTag>, b: Seq<ScannedTag>, lo: int, hi: int)
    requires
        depths_within(a, lo, hi),
        depths_within(b, lo, hi),
    ensures
        depths_within(a + b, lo, hi),
{
    assert forall|k: int| 0 <= k < (a + b).len() implies lo <= #[trigger] (a + b)[k].depth <= hi by {
        if k < a.len() {
            assert((a + b)[k] == a[k]);
        } else {
            assert((a + b)[k] == b[k - a.len()]);
        }
    }
}

proof fn lemma_depths_widen(a: Seq<ScannedTag>, lo: int, lower: int, hi: int)
    requires
        depths_within(a, lo, hi),
        lower <= lo,
    ensures
        depths_within(a, lower, hi),
{
}

proof fn lemma_never_below_concat(a: Seq<(Seq<char>, Seq<Seq<char>>)>, b: Seq<(Seq<char>, Seq<Seq<char>>)>)
    requires
        never_below_itself(a),
        never_below_itself(b),
    ensures
        never_below_itself(a + b),
{
    assert forall|k: int| 0 <= k < (a + b).len() implies !(#[trigger] (a + b)[k]).1.contains((a + b)[k].0) by {
        if k < a.len() {
            assert((a + b)[k] == a[k]);
        } else {
            assert((a + b)[k] == b[k - a.len()]);
        }
    }
}

/// `rep` holds exactly tags matching `tags` and entries matching `skipped`.
pub open spec fn report_is(rep: ScanReport, tags: Seq<ScannedTag>, skipped: Seq<(Seq<char>, Error)>) -> bool {
    &&& rep.tags@.len() == tags.len()
    &&& forall|k: int| 0 <= k < tags.len() ==> is_scanned(#[trigger] rep.tags@[k], tags[k])
    &&& rep.skipped@.len() == skipped.len()
    &&& forall|k: int|
        0 <= k < skipped.len() ==> (#[trigger] rep.skipped@[k]).0@ == skipped[k].0 && rep.skipped@[k].1 == skipped[k].1
}

proof fn lemma_report_extends_trans(
    a: ScanReport,
    b: ScanReport,
    c: ScanReport,
    t1: Seq<ScannedTag>,
    s1: Seq<(Seq<char>, Error)>,
    t2: Seq<ScannedTag>,
    s2: Seq<(Seq<char>, Error)>,
)
    requires
        report_extends(a, b, t1, s1),
        report_extends(b, c, t2, s2),
    ensures
        report_extends(a, c, t1 + t2, s1 + s2),
{
    let t = t1 + t2;
    let s = s1 + s2;
    assert forall|k: int| 0 <= k < t.len() implies is_scanned(#[trigger] c.tags@[a.tags@.len() + k], t[k]) by {
        if k < t1.len() {
            assert(c.tags@[a.tags@.len() + k] == b.tags@[a.tags@.len() + k]);
        } else {
            assert(c.tags@[b.tags@.len() + (k - t1.len())] == c.tags@[a.tags@.len() + k]);
        }
    }
    assert forall|k: int| 0 <= k < s.len() implies (#[trigger] c.skipped@[a.skipped@.len() + k]).0@ == s[k].0
        && c.skipped@[a.skipped@.len() + k].1 == s[k].1 by {
        if k < s1.len() {
            assert(c.skipped@[a.skipped@.len() + k] == b.skipped@[a.skipped@.len() + k]);
        } else {
            assert(c.skipped@[b.skipped@.len() + (k - s1.len())] == c.skipped@[a.skipped@.len() + k]);
        }
    }
}

/// Recursively walks an address space, collecting variable nodes as tags.
pub struct TreeScanner<'a, B: NodeBrowser + ?Sized, F: NodeFilter + ?Sized> {
    browser: &'a B,
    filter: &'a F,
    options: ScanOptions,
}

impl<'a, B: NodeBrowser + ?Sized, F: NodeFilter + ?Sized> TreeScanner<'a, B, F> {
    /// The browser this scanner lists nodes with.
    pub closed spec fn spec_browser(&self) -> &'a B {
        self.browser
    }

    /// The filter this scanner keeps nodes with.
    pub closed spec fn spec_filter(&self) -> &'a F {
        self.filter
    }

    /// The options this scanner walks with.
    pub closed spec fn spec_options(&self) -> ScanOptions {
        self.options
    }

    /// Creates a scanner over the given browser and filter.
    pub fn new(browser: &'a B, filter: &'a F, options: ScanOptions) -> (r: Self)
        ensures
            r.spec_browser() == browser,
            r.spec_filter() == filter,
            r.spec_options() == options,
    {
        TreeScanner { browser, filter, options }
    }

    /// `c` is left out of the scan for being a property.
    pub open spec fn excluded(&self, c: BrowsedNode) -> bool {
        !self.spec_options().include_properties && reached_as_property(c.reference_type)
    }

    /// What walking `ch[i..]` produces, one level below `parent` at `depth`,
    /// with ancestors `anc`, when the filter and browser give the answers
    /// `ans` in turn.
    ///
    /// Nothing is walked deeper than `max_depth`. The filter is asked about
    /// every child; one it keeps that is not a left-out property gets the
    /// path `parent/segment` (see [`path_segment`]); a `Variable` becomes a tag; a `Variable`
    /// (when descending into variables) or an `Object` is browsed and walked
    /// one level deeper, unless it is one of its own ancestors. A failed
    /// listing records the node as skipped and the walk goes on.
    pub open spec fn walk_spec(
        &self,
        ch: Seq<BrowsedNode>,
        i: int,
        parent: Seq<char>,
        depth: int,
        anc: Seq<Seq<char>>,
        ans: Seq<Answer>,
    ) -> WalkOut
        decreases ans.len(),
    {
        if depth > self.spec_options().max_depth || i < 0 || i >= ch.len() {
            WalkOut::empty()
        } else if ans.len() == 0 || !(ans[0] is Verdict) {
            WalkOut::stuck(0)
        } else {
            let c = ch[i];
            let verdict = ans[0]->Verdict_0;
            let heard = self.spec_filter().may_accept(c.display_name@, verdict);
            let keep = verdict && !self.excluded(c);
            if !keep {
                let here = WalkOut { used: 1, ok: heard, ..WalkOut::empty() };
                here.followed_by(self.walk_spec(ch, i + 1, parent, depth, anc, ans.skip(1)))
            } else {
                let path = join_path_spec(parent, path_segment(c));
                let found = if c.node_class == NodeClass::Variable {
                    seq![scanned_of(c, path, depth)]
                } else {
                    Seq::empty()
                };
                let descend = match c.node_class {
                    NodeClass::Variable => self.spec_options().descend_into_variables,
                    NodeClass::Object => true,
                    _ => false,
                };
                let key = c.node_id@;
                if !descend || anc.contains(key) {
                    let here = WalkOut { tags: found, used: 1, ok: heard, ..WalkOut::empty() };
                    here.followed_by(self.walk_spec(ch, i + 1, parent, depth, anc, ans.skip(1)))
                } else if ans.len() < 2 || !(ans[1] is Listing) {
                    WalkOut { tags: found, used: 1, ok: false, ..WalkOut::empty() }
                } else {
                    let listing = ans[1]->Listing_0;
                    let listed = self.spec_browser().may_list(key, listing);
                    let visit = seq![(key, anc)];
                    match listing {
                        Err(e) => {
                            let here = WalkOut {
                                tags: found,
                                skipped: seq![(key, e)],
                                browsed: visit,
                                used: 2,
                                ok: heard && listed,
                            };
                            here.followed_by(self.walk_spec(ch, i + 1, parent, depth, anc, ans.skip(2)))
                        },
                        Ok(grandchildren) => {
                            let sub = self.walk_spec(grandchildren, 0, path, depth + 1, anc.push(key), ans.skip(2));
                            if 0 <= sub.used <= ans.len() - 2 {
                                let here = WalkOut {
                                    tags: found + sub.tags,
                                    skipped: sub.skipped,
                                    browsed: visit + sub.browsed,
                                    used: 2 + sub.used,
                                    ok: heard && listed && sub.ok,
                                };
                                here.followed_by(self.walk_spec(ch, i + 1, parent, depth, anc, ans.skip(2 + sub.used)))
                            } else {
                                WalkOut::stuck(2)
                            }
                        },
                    }
                }
            }
        }
    }

    /// A walk that consumed only answers within `x`, all well formed, ends
    /// the same however many answers follow.
    pub proof fn lemma_walk_extends(
        &self,
        ch: Seq<BrowsedNode>,
        i: int,
        parent: Seq<char>,
        depth: int,
        anc: Seq<Seq<char>>,
        x: Seq<Answer>,
        y: Seq<Answer>,
    )
        requires
            self.walk_spec(ch, i, parent, depth, anc, x).ok,
            self.walk_spec(ch, i, parent, depth, anc, x).used <= x.len(),
        ensures
            self.walk_spec(ch, i, parent, depth, anc, x + y) == self.walk_spec(ch, i, parent, depth, anc, x),
        decreases x.len(),
    {
        let xy = x + y;
        if depth > self.spec_options().max_depth || i < 0 || i >= ch.len() {
        } else if x.len() == 0 || !(x[0] is Verdict) {
        } else {
            assert(xy[0] == x[0]);
            assert(xy.skip(1) =~= x.skip(1) + y);
            let c = ch[i];
            let keep = x[0]->Verdict_0 && !self.excluded(c);
            if !keep {
                self.lemma_walk_extends(ch, i + 1, parent, depth, anc, x.skip(1), y);
            } else {
                let path = join_path_spec(parent, path_segment(c));
                let descend = match c.node_class {
                    NodeClass::Variable => self.spec_options().descend_into_variables,
                    NodeClass::Object => true,
                    _ => false,
                };
                let key = c.node_id@;
                if !descend || anc.contains(key) {
                    self.lemma_walk_extends(ch, i + 1, parent, depth, anc, x.skip(1), y);
                } else if x.len() < 2 || !(x[1] is Listing) {
                } else {
                    assert(xy[1] == x[1]);
                    assert(xy.skip(2) =~= x.skip(2) + y);
                    let listing = x[1]->Listing_0;
                    match listing {
                        Err(e) => {
                            self.lemma_walk_extends(ch, i + 1, parent, depth, anc, x.skip(2), y);
                        },
                        Ok(grandchildren) => {
                            let sub = self.walk_spec(grandchildren, 0, path, depth + 1, anc.push(key), x.skip(2));
                            if 0 <= sub.used <= x.len() - 2 {
                                self.lemma_walk_extends(grandchildren, 0, path, depth + 1, anc.push(key), x.skip(2), y);
                                assert(xy.skip(2 + sub.used) =~= x.skip(2 + sub.used) + y);
                                self.lemma_walk_extends(ch, i + 1, parent, depth, anc, x.skip(2 + sub.used), y);
                            }
                        },
                    }
                }
            }
        }
    }

    /// After the answers `l` the walk of `ch` from child 0 has produced `acc`
    /// and is at child `i`, whatever answers follow.
    pub open spec fn walk_reached(
        &self,
        ch: Seq<BrowsedNode>,
        i: int,
        parent: Seq<char>,
        depth: int,
        anc: Seq<Seq<char>>,
        l: Seq<Answer>,
        acc: WalkOut,
    ) -> bool {
        forall|s: Seq<Answer>|
            #[trigger] self.walk_spec(ch, 0, parent, depth, anc, l + s) == acc.followed_by(
                self.walk_spec(ch, i, parent, depth, anc, s),
            )
    }

    /// Processing child `i` consumes exactly `x` and produces `here`,
    /// whatever answers follow.
    pub open spec fn child_step(
        &self,
        ch: Seq<BrowsedNode>,
        i: int,
        parent: Seq<char>,
        depth: int,
        anc: Seq<Seq<char>>,
        x: Seq<Answer>,
        here: WalkOut,
    ) -> bool {
        forall|s: Seq<Answer>|
            #[trigger] self.walk_spec(ch, i, parent, depth, anc, x + s) == here.followed_by(
                self.walk_spec(ch, i + 1, parent, depth, anc, s),
            )
    }

    proof fn lemma_advance(
        &self,
        ch: Seq<BrowsedNode>,
        i: int,
        parent: Seq<char>,
        depth: int,
        anc: Seq<Seq<char>>,
        l: Seq<Answer>,
        acc: WalkOut,
        x: Seq<Answer>,
        here: WalkOut,
    )
        requires
            self.walk_reached(ch, i, parent, depth, anc, l, acc),
            self.child_step(ch, i, parent, depth, anc, x, here),
        ensures
            self.walk_reached(ch, i + 1, parent, depth, anc, l + x, acc.followed_by(here)),
    {
        assert forall|s: Seq<Answer>|
            #[trigger] self.walk_spec(ch, 0, parent, depth, anc, (l + x) + s) == acc.followed_by(here).followed_by(
                self.walk_spec(ch, i + 1, parent, depth, anc, s),
            ) by {
            assert((l + x) + s =~= l + (x + s));
            let w0 = self.walk_spec(ch, 0, parent, depth, anc, l + (x + s));
            let wi = self.walk_spec(ch, i, parent, depth, anc, x + s);
            let wn = self.walk_spec(ch, i + 1, parent, depth, anc, s);
            assert(w0 == acc.followed_by(wi));
            assert(wi == here.followed_by(wn));
            assert(acc.followed_by(here.followed_by(wn)) =~= acc.followed_by(here).followed_by(wn)) by {
                assert(acc.tags + (here.tags + wn.tags) =~= (acc.tags + here.tags) + wn.tags);
                assert(acc.skipped + (here.skipped + wn.skipped) =~= (acc.skipped + here.skipped) + wn.skipped);
                assert(acc.browsed + (here.browsed + wn.browsed) =~= (acc.browsed + here.browsed) + wn.browsed);
            }
        }
    }

    /// Processes one level of children and recurses.
    ///
    /// Returns the answers the filter and browser gave, in order.
    fn walk(
        &self,
        children: Vec<BrowsedNode>,
        parent_path: &str,
        depth: usize,
        ancestors: &mut Vec<String>,
        report: &mut ScanReport,
    ) -> (log: Ghost<Seq<Answer>>)
        ensures
            final(ancestors)@ == old(ancestors)@,
            ({
                let w = self.walk_spec(children@, 0, parent_path@, depth as int, names(old(ancestors)@), log@);
                &&& w.ok
                &&& w.used == log@.len()
                &&& report_extends(*old(report), *final(report), w.tags, w.skipped)
            }),
        decreases self.spec_options().max_depth + 1 - depth,
    {
        let ghost ch = children@;
        let ghost anc = names(ancestors@);
        let ghost parent = parent_path@;
        let ghost d = depth as int;
        let ghost start = *report;

        if depth > self.options.max_depth {
            assert(report_extends(start, *report, Seq::empty(), Seq::empty()));
            return Ghost(Seq::empty());
        }

        let ghost mut l: Seq<Answer> = Seq::empty();
        let ghost mut acc: WalkOut = WalkOut::empty();
        assert(self.walk_reached(ch, 0, parent, d, anc, l, acc)) by {
            assert forall|s: Seq<Answer>|
                #[trigger] self.walk_spec(ch, 0, parent, d, anc, l + s) == acc.followed_by(
                    self.walk_spec(ch, 0, parent, d, anc, s),
                ) by {
                assert(l + s =~= s);
                let w = self.walk_spec(ch, 0, parent, d, anc, s);
                assert(acc.followed_by(w) =~= w);
            }
        }
        assert(report_extends(start, *report, acc.tags, acc.skipped));

        let mut i: usize = 0;
        while i < children.len()
            invariant
                ch == children@,
                anc == names(ancestors@),
                parent == parent_path@,
                d == depth as int,
                depth <= self.spec_options().max_depth,
                i <= children.len(),
                ancestors@ == old(ancestors)@,
                start == *old(report),
                self.walk_reached(ch, i as int, parent, d, anc, l, acc),
                acc.ok,
                acc.used == l.len(),
                report_extends(start, *report, acc.tags, acc.skipped),
            decreases children.len() - i,
        {
            let child = &children[i];
            let ghost c = ch[i as int];
            let ghost before = *report;
            let verdict = self.filter.accepts(child.display_name.as_str());
            let keep = verdict && (self.options.include_properties || !is_property_reference(&child.reference_type));
            assert(keep == (verdict && !self.excluded(c)));
            let ghost mut x: Seq<Answer> = seq![Answer::Verdict(verdict)];
            let ghost mut here: WalkOut = WalkOut { used: 1, ..WalkOut::empty() };

            if keep {
                proof {
                    reveal_strlit("");
                    assert(""@ =~= Seq::<char>::empty());
                }
                let unnamed = str_eq(child.browse_name.as_str(), "");
                assert(unnamed == (c.browse_name@.len() == 0)) by {
                    if c.browse_name@.len() == 0 {
                        assert(c.browse_name@ =~= Seq::<char>::empty());
                    }
                }
                let segment = if unnamed {
                    child.display_name.as_str()
                } else {
                    child.browse_name.as_str()
                };
                assert(segment@ == path_segment(c));
                let path = join_path(parent_path, segment);
                let is_variable = child.node_class == NodeClass::Variable;
                if is_variable {
                    let mut tag = PlcTag::new(
                        child.display_name.as_str(),
                        child.browse_name.as_str(),
                        child.node_id.as_str(),
                        "Variable",
                        path.as_str(),
                    );
                    tag.type_definition = clone_opt_string(&child.type_definition);
                    tag.reference_type = clone_opt_string(&child.reference_type);
                    proof {
                        reveal_strlit("Variable");
                        assert("Variable"@ =~= variable_class_name());
                    }
                    report.tags.push(tag);
                    proof {
                        here.tags = seq![scanned_of(c, path@, d)];
                        assert(report_extends(before, *report, here.tags, here.skipped));
                    }
                } else {
                    assert(report_extends(before, *report, here.tags, here.skipped));
                }
                let descend = match child.node_class {
                    NodeClass::Variable => self.options.descend_into_variables,
                    NodeClass::Object => true,
                    _ => false,
                };
                let key = child.node_id.clone();
                if descend && !Self::is_ancestor(ancestors, &key) {
                    let ghost pushed = names(ancestors@).push(key@);
                    ancestors.push(key.clone());
                    assert(names(ancestors@) =~= pushed);
                    let listing = self.browser.children_of(key.as_str());
                    let ghost heard_listing = listing_of(listing);
                    proof {
                        x = x.push(Answer::Listing(heard_listing));
                        here.browsed = seq![(key@, anc)];
                        here.used = 2;
                    }
                    match listing {
                        Ok(grandchildren) => {
                            let ghost g = grandchildren@;
                            let ghost mid = *report;
                            let sublog = if depth < usize::MAX {
                                self.walk(grandchildren, path.as_str(), depth + 1, ancestors, report)
                            } else {
                                assert(report_extends(mid, *report, Seq::empty(), Seq::empty()));
                                Ghost(Seq::empty())
                            };
                            let ghost sub = self.walk_spec(g, 0, path@, d + 1, pushed, sublog@);
                            proof {
                                lemma_report_extends_trans(before, mid, *report, here.tags, here.skipped, sub.tags, sub.skipped);
                                x = x + sublog@;
                                here.tags = here.tags + sub.tags;
                                here.skipped = sub.skipped;
                                here.browsed = here.browsed + sub.browsed;
                                here.used = 2 + sub.used;
                                assert forall|s: Seq<Answer>|
                                    #[trigger] self.walk_spec(ch, i as int, parent, d, anc, x + s) == here.followed_by(
                                        self.walk_spec(ch, i + 1, parent, d, anc, s),
                                    ) by {
                                    let xs = x + s;
                                    assert(xs[0] == Answer::Verdict(verdict));
                                    assert(xs[1] == Answer::Listing(heard_listing));
                                    assert(xs.skip(2) =~= sublog@ + s);
                                    self.lemma_walk_extends(g, 0, path@, d + 1, pushed, sublog@, s);
                                    assert(xs.skip(2 + sub.used) =~= s);
                                    let wn = self.walk_spec(ch, i + 1, parent, d, anc, s);
                                    assert(WalkOut {
                                        tags: here.tags,
                                        skipped: here.skipped,
                                        browsed: here.browsed,
                                        used: here.used,
                                        ok: true,
                                    }.followed_by(wn) == here.followed_by(wn));
                                }
                            }
                        },
                        Err(e) => {
                            let ghost err = e;
                            report.skipped.push((key, e));
                            proof {
                                here.skipped = seq![(c.node_id@, err)];
                                assert(report_extends(before, *report, here.tags, here.skipped));
                                assert forall|s: Seq<Answer>|
                                    #[trigger] self.walk_spec(ch, i as int, parent, d, anc, x + s) == here.followed_by(
                                        self.walk_spec(ch, i + 1, parent, d, anc, s),
                                    ) by {
                                    let xs = x + s;
                                    assert(xs[0] == Answer::Verdict(verdict));
                                    assert(xs[1] == Answer::Listing(heard_listing));
                                    assert(xs.skip(2) =~= s);
                                }
                            }
                        },
                    }
                    ancestors.pop();
                    assert(ancestors@ =~= old(ancestors)@);
                } else {
                    proof {
                        assert forall|s: Seq<Answer>|
                            #[trigger] self.walk_spec(ch, i as int, parent, d, anc, x + s) == here.followed_by(
                                self.walk_spec(ch, i + 1, parent, d, anc, s),
                            ) by {
                            let xs = x + s;
                            assert(xs[0] == Answer::Verdict(verdict));
                            assert(xs.skip(1) =~= s);
                        }
                    }
                }
            } else {
                proof {
                    assert(report_extends(before, *report, here.tags, here.skipped));
                    assert forall|s: Seq<Answer>|
                        #[trigger] self.walk_spec(ch, i as int, parent, d, anc, x + s) == here.followed_by(
                            self.walk_spec(ch, i + 1, parent, d, anc, s),
                        ) by {
                        let xs = x + s;
                        assert(xs[0] == Answer::Verdict(verdict));
                        assert(xs.skip(1) =~= s);
                    }
                }
            }
            proof {
                assert(self.child_step(ch, i as int, parent, d, anc, x, here));
                self.lemma_advance(ch, i as int, parent, d, anc, l, acc, x, here);
                lemma_report_extends_trans(start, before, *report, acc.tags, acc.skipped, here.tags, here.skipped);
                l = l + x;
                acc = acc.followed_by(here);
            }
            i += 1;
        }

        proof {
            let e: Seq<Answer> = Seq::empty();
            assert(l + e =~= l);
            let w = self.walk_spec(ch, i as int, parent, d, anc, e);
            assert(w == WalkOut::empty());
            assert(acc.followed_by(w) =~= acc);
        }
        Ghost(l)
    }

    /// The answers `ans` account for a scan from `root` that returned `r`:
    /// the root's listing comes first; a failed one is the scan's error, and
    /// otherwise the report holds what walking the listed children yields
    /// with the remaining answers.
    pub open spec fn scan_describes(&self, root: Seq<char>, ans: Seq<Answer>, r: Result<ScanReport, Error>) -> bool {
        &&& ans.len() >= 1
        &&& ans[0] is Listing
        &&& self.spec_browser().may_list(root, ans[0]->Listing_0)
        &&& match ans[0]->Listing_0 {
            Err(e) => ans.len() == 1 && r == Err::<ScanReport, Error>(e),
            Ok(ch) => {
                let w = self.walk_spec(ch, 0, Seq::empty(), 1, seq![root], ans.skip(1));
                &&& w.ok
                &&& w.used == ans.len() - 1
                &&& r is Ok
                &&& report_is(r->Ok_0, w.tags, w.skipped)
            },
        }
    }

    /// Scans everything reachable from `root`, given in OPC UA string form.
    ///
    /// Fails only if `root` itself cannot be browsed; deeper failures are
    /// recorded in [`ScanReport::skipped`].
    pub fn scan(&self, root: &str) -> (r: Result<ScanReport, Error>)
        ensures
            exists|ans: Seq<Answer>| self.scan_describes(root@, ans, r),
    {
        let listing = self.browser.children_of(root);
        let ghost first = Answer::Listing(listing_of(listing));
        let children = match listing {
            Ok(children) => children,
            Err(e) => {
                let r = Err(e);
                assert(self.scan_describes(root@, seq![first], r));
                return r;
            },
        };
        let mut report = ScanReport { tags: Vec::new(), skipped: Vec::new() };
        let ghost start = report;
        let mut ancestors: Vec<String> = Vec::new();
        ancestors.push(owned(root));
        proof {
            reveal_strlit("");
            assert(names(ancestors@) =~= seq![root@]);
        }
        let log = self.walk(children, "", 1, &mut ancestors, &mut report);
        let r = Ok(report);
        proof {
            let ans = seq![first] + log@;
            assert(ans.skip(1) =~= log@);
            assert(""@ =~= Seq::<char>::empty());
            let w = self.walk_spec(children@, 0, Seq::empty(), 1, seq![root@], log@);
            let rep = r->Ok_0;
            assert(start.tags@.len() == 0 && start.skipped@.len() == 0);
            assert forall|k: int| 0 <= k < w.tags.len() implies is_scanned(#[trigger] rep.tags@[k], w.tags[k]) by {
                assert(rep.tags@[start.tags@.len() + k] == rep.tags@[k]);
            }
            assert forall|k: int| 0 <= k < w.skipped.len() implies (#[trigger] rep.skipped@[k]).0@ == w.skipped[k].0
                && rep.skipped@[k].1 == w.skipped[k].1 by {
                assert(rep.skipped@[start.skipped@.len() + k] == rep.skipped@[k]);
            }
            assert(report_is(rep, w.tags, w.skipped));
            assert(self.scan_describes(root@, ans, r));
        }
        r
    }

    /// Every tag a walk at `depth` collects sits between `depth` and
    /// `max_depth` levels below the root.
    pub proof fn lemma_tags_within_depth(
        &self,
        ch: Seq<BrowsedNode>,
        i: int,
        parent: Seq<char>,
        depth: int,
        anc: Seq<Seq<char>>,
        ans: Seq<Answer>,
    )
        ensures
            depths_within(self.walk_spec(ch, i, parent, depth, anc, ans).tags, depth, self.spec_options().max_depth as int),
        decreases ans.len(),
    {
        let hi = self.spec_options().max_depth as int;
        let w = self.walk_spec(ch, i, parent, depth, anc, ans);
        if depth > self.spec_options().max_depth || i < 0 || i >= ch.len() {
        } else if ans.len() == 0 || !(ans[0] is Verdict) {
        } else {
            let c = ch[i];
            let keep = ans[0]->Verdict_0 && !self.excluded(c);
            let path = join_path_spec(parent, path_segment(c));
            let found = if c.node_class == NodeClass::Variable {
                seq![scanned_of(c, path, depth)]
            } else {
                Seq::empty()
            };
            assert(depths_within(found, depth, hi));
            if !keep {
                self.lemma_tags_within_depth(ch, i + 1, parent, depth, anc, ans.skip(1));
                assert(w.tags =~= Seq::<ScannedTag>::empty() + self.walk_spec(ch, i + 1, parent, depth, anc, ans.skip(1)).tags);
            } else {
                let descend = match c.node_class {
                    NodeClass::Variable => self.spec_options().descend_into_variables,
                    NodeClass::Object => true,
                    _ => false,
                };
                let key = c.node_id@;
                if !descend || anc.contains(key) {
                    let rest = self.walk_spec(ch, i + 1, parent, depth, anc, ans.skip(1));
                    self.lemma_tags_within_depth(ch, i + 1, parent, depth, anc, ans.skip(1));
                    lemma_depths_concat(found, rest.tags, depth, hi);
                } else if ans.len() < 2 || !(ans[1] is Listing) {
                } else {
                    match ans[1]->Listing_0 {
                        Err(e) => {
                            let rest = self.walk_spec(ch, i + 1, parent, depth, anc, ans.skip(2));
                            self.lemma_tags_within_depth(ch, i + 1, parent, depth, anc, ans.skip(2));
                            lemma_depths_concat(found, rest.tags, depth, hi);
                        },
                        Ok(g) => {
                            let sub = self.walk_spec(g, 0, path, depth + 1, anc.push(key), ans.skip(2));
                            self.lemma_tags_within_depth(g, 0, path, depth + 1, anc.push(key), ans.skip(2));
                            lemma_depths_widen(sub.tags, depth + 1, depth, hi);
                            lemma_depths_concat(found, sub.tags, depth, hi);
                            if 0 <= sub.used <= ans.len() - 2 {
                                let rest = self.walk_spec(ch, i + 1, parent, depth, anc, ans.skip(2 + sub.used));
                                self.lemma_tags_within_depth(ch, i + 1, parent, depth, anc, ans.skip(2 + sub.used));
                                lemma_depths_concat(found + sub.tags, rest.tags, depth, hi);
                            }
                        },
                    }
                }
            }
        }
    }

    /// A walk never browses a node while that node is one of its own
    /// ancestors, so a reference cycle is cut where it closes.
    pub proof fn lemma_no_node_browsed_below_itself(
        &self,
        ch: Seq<BrowsedNode>,
        i: int,
        parent: Seq<char>,
        depth: int,
        anc: Seq<Seq<char>>,
        ans: Seq<Answer>,
    )
        ensures
            never_below_itself(self.walk_spec(ch, i, parent, depth, anc, ans).browsed),
        decreases ans.len(),
    {
        let w = self.walk_spec(ch, i, parent, depth, anc, ans);
        if depth > self.spec_options().max_depth || i < 0 || i >= ch.len() {
        } else if ans.len() == 0 || !(ans[0] is Verdict) {
        } else {
            let c = ch[i];
            let keep = ans[0]->Verdict_0 && !self.excluded(c);
            if !keep {
                let rest = self.walk_spec(ch, i + 1, parent, depth, anc, ans.skip(1));
                self.lemma_no_node_browsed_below_itself(ch, i + 1, parent, depth, anc, ans.skip(1));
                lemma_never_below_concat(Seq::empty(), rest.browsed);
            } else {
                let path = join_path_spec(parent, path_segment(c));
                let descend = match c.node_class {
                    NodeClass::Variable => self.spec_options().descend_into_variables,
                    NodeClass::Object => true,
                    _ => false,
                };
                let key = c.node_id@;
                if !descend || anc.contains(key) {
                    let rest = self.walk_spec(ch, i + 1, parent, depth, anc, ans.skip(1));
                    self.lemma_no_node_browsed_below_itself(ch, i + 1, parent, depth, anc, ans.skip(1));
                    lemma_never_below_concat(Seq::empty(), rest.browsed);
                } else if ans.len() < 2 || !(ans[1] is Listing) {
                } else {
                    let visit = seq![(key, anc)];
                    assert(never_below_itself(visit));
                    match ans[1]->Listing_0 {
                        Err(e) => {
                            let rest = self.walk_spec(ch, i + 1, parent, depth, anc, ans.skip(2));
                            self.lemma_no_node_browsed_below_itself(ch, i + 1, parent, depth, anc, ans.skip(2));
                            lemma_never_below_concat(visit, rest.browsed);
                        },
                        Ok(g) => {
                            let sub = self.walk_spec(g, 0, path, depth + 1, anc.push(key), ans.skip(2));
                            self.lemma_no_node_browsed_below_itself(g, 0, path, depth + 1, anc.push(key), ans.skip(2));
                            lemma_never_below_concat(visit, sub.browsed);
                            if 0 <= sub.used <= ans.len() - 2 {
                                let rest = self.walk_spec(ch, i + 1, parent, depth, anc, ans.skip(2 + sub.used));
                                self.lemma_no_node_browsed_below_itself(ch, i + 1, parent, depth, anc, ans.skip(2 + sub.used));
                                lemma_never_below_concat(visit + sub.browsed, rest.browsed);
                            }
                        },
                    }
                }
            }
        }
    }

    /// A kept `Variable` child becomes a tag, first among what its turn
    /// yields, whose path is the parent's path joined with the child's
    /// browse name, or with its display name only when the browse name is
    /// empty.
    pub proof fn law_tag_path_uses_browse_name(
        &self,
        ch: Seq<BrowsedNode>,
        i: int,
        parent: Seq<char>,
        depth: int,
        anc: Seq<Seq<char>>,
        ans: Seq<Answer>,
    )
        requires
            depth <= self.spec_options().max_depth,
            0 <= i < ch.len(),
            ans.len() > 0,
            ans[0] == Answer::Verdict(true),
            !self.excluded(ch[i]),
            ch[i].node_class == NodeClass::Variable,
            self.walk_spec(ch, i, parent, depth, anc, ans).ok,
        ensures
            self.walk_spec(ch, i, parent, depth, anc, ans).tags.len() > 0,
            self.walk_spec(ch, i, parent, depth, anc, ans).tags[0].path == join_path_spec(
                parent,
                if ch[i].browse_name@.len() > 0 {
                    ch[i].browse_name@
                } else {
                    ch[i].display_name@
                },
            ),
            self.walk_spec(ch, i, parent, depth, anc, ans).tags[0].node_id == ch[i].node_id@,
    {
    }

    /// The nodes below a kept child that is walked into, whatever its node
    /// class, are walked with the parent's path joined with the child's
    /// browse name (its display name only when the browse name is empty):
    /// their tags follow the child's own, as walking its listing from that
    /// path yields them.
    pub proof fn law_subtree_path_uses_browse_name(
        &self,
        ch: Seq<BrowsedNode>,
        i: int,
        parent: Seq<char>,
        depth: int,
        anc: Seq<Seq<char>>,
        ans: Seq<Answer>,
        listing: Seq<BrowsedNode>,
    )
        requires
            depth <= self.spec_options().max_depth,
            0 <= i < ch.len(),
            ans.len() > 1,
            ans[0] == Answer::Verdict(true),
            ans[1] == Answer::Listing(Ok::<Seq<BrowsedNode>, Error>(listing)),
            !self.excluded(ch[i]),
            ch[i].node_class == NodeClass::Object || (ch[i].node_class == NodeClass::Variable
                && self.spec_options().descend_into_variables),
            !anc.contains(ch[i].node_id@),
            self.walk_spec(ch, i, parent, depth, anc, ans).ok,
        ensures
            ({
                let own: int = if ch[i].node_class == NodeClass::Variable {
                    1
                } else {
                    0
                };
                let below = self.walk_spec(
                    listing,
                    0,
                    join_path_spec(
                        parent,
                        if ch[i].browse_name@.len() > 0 {
                            ch[i].browse_name@
                        } else {
                            ch[i].display_name@
                        },
                    ),
                    depth + 1,
                    anc.push(ch[i].node_id@),
                    ans.skip(2),
                ).tags;
                let tags = self.walk_spec(ch, i, parent, depth, anc, ans).tags;
                &&& own + below.len() <= tags.len()
                &&& tags.subrange(own, own + below.len()) == below
            }),
    {
        let c = ch[i];
        let path = join_path_spec(parent, path_segment(c));
        let found = if c.node_class == NodeClass::Variable {
            seq![scanned_of(c, path, depth)]
        } else {
            Seq::<ScannedTag>::empty()
        };
        let sub = self.walk_spec(listing, 0, path, depth + 1, anc.push(c.node_id@), ans.skip(2));
        let w = self.walk_spec(ch, i, parent, depth, anc, ans);
        assert(0 <= sub.used <= ans.len() - 2);
        let rest = self.walk_spec(ch, i + 1, parent, depth, anc, ans.skip(2 + sub.used));
        assert(w.tags == found + sub.tags + rest.tags);
        assert(w.tags.subrange(found.len() as int, (found.len() + sub.tags.len()) as int) =~= sub.tags);
    }

    /// Whether `key` is among the ancestors.
    fn is_ancestor(ancestors: &Vec<String>, key: &String) -> (r: bool)
        ensures
            r == names(ancestors@).contains(key@),
    {
        let mut i: usize = 0;
        while i < ancestors.len()
            invariant
                i <= ancestors.len(),
                forall|k: int| 0 <= k < i ==> ancestors@[k]@ != key@,
            decreases ancestors.len() - i,
        {
            if ancestors[i] == *key {
                assert(names(ancestors@)[i as int] == key@);
                return true;
            }
            i += 1;
        }
        assert forall|k: int| 0 <= k < names(ancestors@).len() implies names(ancestors@)[k] != key@ by {
            assert(names(ancestors@)[k] == ancestors@[k]@);
        }
        false
    }
}

} // verus!
