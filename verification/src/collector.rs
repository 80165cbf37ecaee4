//! The decisions a collector makes about which tags to monitor and which
//! sessions to release.

use vstd::prelude::*;
use crate::error::Error;
use crate::glob::glob_matches;
use crate::tag::PlcTag;
use crate::tagset::glob_match;
use crate::text::str_eq;
use crate::writer::{node_id_parses, parses_as_node_id};

verus! {

/// Which of the scanned tags a collector monitors.
pub enum Selection {
    /// Every tag.
    All,
    /// Only the named tags, by browse path or display name.
    Only(Vec<String>),
    /// Only tags whose browse path matches a glob.
    Matching(String),
}

impl Selection {
    /// Whether the selection keeps `t`.
    pub open spec fn keeps_spec(&self, t: PlcTag) -> bool {
        match self {
            Selection::All => true,
            Selection::Only(wanted) => exists|k: int|
                0 <= k < wanted@.len() && (#[trigger] wanted@[k]@ == t.path@ || wanted@[k]@ == t.display_name@),
            Selection::Matching(pattern) => glob_matches(pattern@, t.path@),
        }
    }

    /// Whether the selection keeps `tag`.
    pub fn keeps(&self, tag: &PlcTag) -> (r: bool)
        ensures
            r == self.keeps_spec(*tag),
    {
        match self {
            Selection::All => true,
            Selection::Only(wanted) => names_tag(wanted, tag),
            Selection::Matching(pattern) => glob_match(pattern.as_str(), tag.path.as_str()),
        }
    }
}

/// Whether one of `wanted` is the browse path or display name of `tag`.
fn names_tag(wanted: &Vec<String>, tag: &PlcTag) -> (r: bool)
    ensures
        r == exists|k: int|
            0 <= k < wanted@.len() && (#[trigger] wanted@[k]@ == tag.path@ || wanted@[k]@ == tag.display_name@),
{
    let mut k: usize = 0;
    while k < wanted.len()
        invariant
            k <= wanted@.len(),
            forall|m: int| 0 <= m < k ==> !(#[trigger] wanted@[m]@ == tag.path@ || wanted@[m]@ == tag.display_name@),
        decreases wanted.len() - k,
    {
        if str_eq(wanted[k].as_str(), tag.path.as_str()) || str_eq(wanted[k].as_str(), tag.display_name.as_str()) {
            assert(wanted@[k as int]@ == tag.path@ || wanted@[k as int]@ == tag.display_name@);
            return true;
        }
        k += 1;
    }
    false
}

/// Whether a collector may start running: an error kept from building it
/// is returned first, then a missing sink is refused.
pub fn ready_to_run(deferred_error: Option<Error>, sink_set: bool) -> (r: Result<(), Error>)
    ensures
        match deferred_error {
            Some(e) => r == Err::<(), Error>(e),
            None => if sink_set {
                r is Ok
            } else {
                r == Err::<(), Error>(Error::MissingSink)
            },
        },
{
    match deferred_error {
        Some(e) => Err(e),
        None => if sink_set {
            Ok(())
        } else {
            Err(Error::MissingSink)
        },
    }
}

/// Whether tags are loaded from the cache rather than scanned: only when a
/// cache is configured, it exists, and no rescan was asked for.
pub fn reads_cache(configured: bool, exists: bool, force_rescan: bool) -> (r: bool)
    ensures
        r == (configured && exists && !force_rescan),
{
    configured && exists && !force_rescan
}

/// The tags of `tags[..n]` a selection keeps, in order.
pub open spec fn selected_prefix(selection: Selection, tags: Seq<PlcTag>, n: int) -> Seq<PlcTag>
    decreases n,
{
    if n <= 0 {
        Seq::empty()
    } else if selection.keeps_spec(tags[n - 1]) {
        selected_prefix(selection, tags, n - 1).push(tags[n - 1])
    } else {
        selected_prefix(selection, tags, n - 1)
    }
}

/// Applies the selection to the scanned tags, keeping their order.
pub fn select_tags(selection: &Selection, tags: Vec<PlcTag>) -> (r: Vec<PlcTag>)
    ensures
        r@ == selected_prefix(*selection, tags@, tags@.len() as int),
{
    let mut kept: Vec<PlcTag> = Vec::new();
    let mut i: usize = 0;
    while i < tags.len()
        invariant
            i <= tags.len(),
            kept@ == selected_prefix(*selection, tags@, i as int),
        decreases tags.len() - i,
    {
        if selection.keeps(&tags[i]) {
            kept.push(tags[i].clone());
        }
        i += 1;
    }
    kept
}

/// How many of `len` tags are subscribed under a ceiling of `max_subscribed_items`.
pub open spec fn split_point(len: int, max_subscribed_items: int) -> int {
    if max_subscribed_items < len {
        max_subscribed_items
    } else {
        len
    }
}

/// How many of `len` tags are subscribed when the server monitors at most
/// `max_subscribed_items`; the rest are polled.
pub fn subscription_split(len: usize, max_subscribed_items: usize) -> (r: usize)
    ensures
        r == split_point(len as int, max_subscribed_items as int),
{
    if max_subscribed_items < len { max_subscribed_items } else { len }
}

/// Splits the selected tags for monitoring: the first
/// `max_subscribed_items` are subscribed, the rest polled.
///
/// Subscriptions are cheap per update but capped by the server; everything
/// above the cap falls through to polling, so selecting fewer tags than the
/// cap means the poller never starts.
pub fn split_for_monitoring(tags: Vec<PlcTag>, max_subscribed_items: usize) -> (r: (Vec<PlcTag>, Vec<PlcTag>))
    ensures
        r.0@ == tags@.take(split_point(tags@.len() as int, max_subscribed_items as int)),
        r.1@ == tags@.skip(split_point(tags@.len() as int, max_subscribed_items as int)),
        r.0@ + r.1@ == tags@,
        tags@.len() <= max_subscribed_items ==> r.1@.len() == 0,
{
    let split_at = subscription_split(tags.len(), max_subscribed_items);
    let mut subscribed: Vec<PlcTag> = Vec::new();
    let mut polled: Vec<PlcTag> = Vec::new();
    let mut i: usize = 0;
    while i < tags.len()
        invariant
            split_at <= tags.len(),
            i <= tags.len(),
            subscribed@ == tags@.take(if i < split_at { i as int } else { split_at as int }),
            polled@ == (if i <= split_at { Seq::<PlcTag>::empty() } else { tags@.subrange(split_at as int, i as int) }),
        decreases tags.len() - i,
    {
        let tag = tags[i].clone();
        if i < split_at {
            subscribed.push(tag);
            assert(tags@.take(i + 1) =~= tags@.take(i as int).push(tags@[i as int]));
        } else {
            polled.push(tag);
            assert(tags@.subrange(split_at as int, i + 1) =~= (if i <= split_at {
                Seq::<PlcTag>::empty()
            } else {
                tags@.subrange(split_at as int, i as int)
            }).push(tags@[i as int]));
        }
        i += 1;
    }
    assert(polled@ =~= tags@.skip(split_at as int));
    assert(subscribed@ + polled@ =~= tags@);
    (subscribed, polled)
}

/// The positions of the tags of `tags[..n]` whose node ID parses, in order.
pub open spec fn parseable_prefix(tags: Seq<PlcTag>, n: int) -> Seq<usize>
    decreases n,
{
    if n <= 0 {
        Seq::empty()
    } else if parses_as_node_id(tags[n - 1].node_id@) {
        parseable_prefix(tags, n - 1).push((n - 1) as usize)
    } else {
        parseable_prefix(tags, n - 1)
    }
}

/// The positions of the tags whose node ID parses, in order: the tags a
/// session can be asked to read or monitor. The others are left out.
pub fn parseable_positions(tags: &Vec<PlcTag>) -> (r: Vec<usize>)
    ensures
        r@ == parseable_prefix(tags@, tags@.len() as int),
        forall|k: int| 0 <= k < r@.len() ==> #[trigger] r@[k] < tags@.len() && parses_as_node_id(
            tags@[r@[k] as int].node_id@,
        ),
{
    let mut out: Vec<usize> = Vec::new();
    let mut i: usize = 0;
    while i < tags.len()
        invariant
            i <= tags.len(),
            out@ == parseable_prefix(tags@, i as int),
            forall|k: int| 0 <= k < out@.len() ==> #[trigger] out@[k] < i && parses_as_node_id(
                tags@[out@[k] as int].node_id@,
            ),
        decreases tags.len() - i,
    {
        if node_id_parses(tags[i].node_id.as_str()) {
            out.push(i);
        }
        i += 1;
    }
    out
}

/// The tags at `positions`, in the order the positions come.
pub fn pick_tags(tags: &Vec<PlcTag>, positions: &Vec<usize>) -> (r: Vec<PlcTag>)
    requires
        forall|k: int| 0 <= k < positions@.len() ==> #[trigger] positions@[k] < tags@.len(),
    ensures
        r@ == positions@.map_values(|p: usize| tags@[p as int]),
{
    let mut out: Vec<PlcTag> = Vec::new();
    let mut k: usize = 0;
    while k < positions.len()
        invariant
            k <= positions.len(),
            forall|m: int| 0 <= m < positions@.len() ==> #[trigger] positions@[m] < tags@.len(),
            out@ == positions@.take(k as int).map_values(|p: usize| tags@[p as int]),
        decreases positions.len() - k,
    {
        out.push(tags[positions[k]].clone());
        assert(positions@.take(k + 1).map_values(|p: usize| tags@[p as int]) =~= positions@.take(
            k as int,
        ).map_values(|p: usize| tags@[p as int]).push(tags@[positions@[k as int] as int]));
        k += 1;
    }
    assert(positions@.take(positions.len() as int) =~= positions@);
    out
}

/// The entries of `registry[..n]` registered under a name other than `name`, in order.
pub open spec fn kept_entries<S>(registry: Seq<(String, S)>, name: Seq<char>, n: int) -> Seq<(String, S)>
    decreases n,
{
    if n <= 0 {
        Seq::empty()
    } else if registry[n - 1].0@ != name {
        kept_entries(registry, name, n - 1).push(registry[n - 1])
    } else {
        kept_entries(registry, name, n - 1)
    }
}

/// The sessions of `registry[..n]` registered under `name`, in order.
pub open spec fn named_sessions<S>(registry: Seq<(String, S)>, name: Seq<char>, n: int) -> Seq<S>
    decreases n,
{
    if n <= 0 {
        Seq::empty()
    } else if registry[n - 1].0@ == name {
        named_sessions(registry, name, n - 1).push(registry[n - 1].1)
    } else {
        named_sessions(registry, name, n - 1)
    }
}

/// Removes every session registered under `name` and returns them, so the
/// caller can close them; the other entries stay, in order.
pub fn take_named<S>(registry: &mut Vec<(String, S)>, name: &str) -> (r: Vec<S>)
    ensures
        final(registry)@ == kept_entries(old(registry)@, name@, old(registry)@.len() as int),
        r@ == named_sessions(old(registry)@, name@, old(registry)@.len() as int),
{
    let mut entries: Vec<(String, S)> = Vec::new();
    std::mem::swap(&mut entries, registry);
    let ghost all = entries@;
    let mut kept: Vec<(String, S)> = Vec::new();
    let mut taken: Vec<S> = Vec::new();
    for entry in it: entries
        invariant
            it.seq() == all,
            kept@ == kept_entries(all, name@, it.index() as int),
            taken@ == named_sessions(all, name@, it.index() as int),
    {
        if str_eq(entry.0.as_str(), name) {
            taken.push(entry.1);
        } else {
            kept.push(entry);
        }
    }
    *registry = kept;
    taken
}

/// After the sessions registered under a name are taken, none is left
/// under it, and every entry under another name stays.
pub proof fn law_taken_name_is_gone<S>(registry: Seq<(String, S)>, name: Seq<char>, n: int)
    requires
        0 <= n <= registry.len(),
    ensures
        forall|k: int|
            0 <= k < kept_entries(registry, name, n).len() ==> (#[trigger] kept_entries(registry, name, n)[k]).0@
                != name,
        kept_entries(registry, name, n).len() + named_sessions(registry, name, n).len() == n,
    decreases n,
{
    if n > 0 {
        law_taken_name_is_gone(registry, name, n - 1);
        let e = kept_entries(registry, name, n - 1);
        let r = kept_entries(registry, name, n);
        if registry[n - 1].0@ != name {
            assert forall|k: int| 0 <= k < r.len() implies (#[trigger] r[k]).0@ != name by {
                if k < e.len() {
                    assert(r[k] == e[k]);
                }
            }
        }
    }
}

/// The names a selection lists, as text.
pub open spec fn listed_names(wanted: Seq<String>) -> Seq<Seq<char>> {
    wanted.map_values(|w: String| w@)
}

/// `Only(wanted)` keeps a tag exactly when `wanted` lists its browse path
/// or its display name as a whole name: a listed name that merely occurs
/// inside a path keeps nothing.
pub proof fn law_only_keeps_exactly_the_named_tags(wanted: Vec<String>, t: PlcTag)
    ensures
        Selection::Only(wanted).keeps_spec(t) <==> (listed_names(wanted@).contains(t.path@) || listed_names(
            wanted@,
        ).contains(t.display_name@)),
{
    let names = listed_names(wanted@);
    if Selection::Only(wanted).keeps_spec(t) {
        let k = choose|k: int|
            0 <= k < wanted@.len() && (#[trigger] wanted@[k]@ == t.path@ || wanted@[k]@ == t.display_name@);
        assert(names[k] == wanted@[k]@);
        if wanted@[k]@ == t.path@ {
            assert(names.contains(t.path@));
        } else {
            assert(names.contains(t.display_name@));
        }
    }
    if names.contains(t.path@) {
        let k = choose|k: int| 0 <= k < names.len() && names[k] == t.path@;
        assert(wanted@[k]@ == t.path@);
        let sel = Selection::Only(wanted);
        match sel {
            Selection::Only(w) => {
                assert(w@[k]@ == t.path@);
            },
            _ => {},
        }
        assert(Selection::Only(wanted).keeps_spec(t));
    }
    if names.contains(t.display_name@) {
        let k = choose|k: int| 0 <= k < names.len() && names[k] == t.display_name@;
        assert(wanted@[k]@ == t.display_name@);
        let sel = Selection::Only(wanted);
        match sel {
            Selection::Only(w) => {
                assert(w@[k]@ == t.display_name@);
            },
            _ => {},
        }
        assert(Selection::Only(wanted).keeps_spec(t));
    }
}

/// Every tag `select_tags` keeps under `Only(wanted)` has its browse path or
/// its display name listed in `wanted`, and every scanned tag so named is
/// kept.
pub proof fn law_only_selects_exactly_the_named_tags(wanted: Vec<String>, tags: Seq<PlcTag>, n: int)
    requires
        0 <= n <= tags.len(),
    ensures
        forall|x: PlcTag|
            #![trigger selected_prefix(Selection::Only(wanted), tags, n).contains(x)]
            selected_prefix(Selection::Only(wanted), tags, n).contains(x) ==> (listed_names(wanted@).contains(x.path@)
                || listed_names(wanted@).contains(x.display_name@)),
        forall|i: int|
            0 <= i < n && (listed_names(wanted@).contains(#[trigger] tags[i].path@) || listed_names(wanted@).contains(
                tags[i].display_name@,
            )) ==> selected_prefix(Selection::Only(wanted), tags, n).contains(tags[i]),
    decreases n,
{
    let sel = Selection::Only(wanted);
    if n > 0 {
        law_only_selects_exactly_the_named_tags(wanted, tags, n - 1);
        law_only_keeps_exactly_the_named_tags(wanted, tags[n - 1]);
        let prev = selected_prefix(sel, tags, n - 1);
        let cur = selected_prefix(sel, tags, n);
        assert forall|x: PlcTag| cur.contains(x) implies (listed_names(wanted@).contains(x.path@) || listed_names(
            wanted@,
        ).contains(x.display_name@)) by {
            if sel.keeps_spec(tags[n - 1]) {
                let k = choose|k: int| 0 <= k < cur.len() && cur[k] == x;
                if k < prev.len() {
                    assert(prev[k] == x);
                    assert(prev.contains(x));
                }
            } else {
                assert(prev.contains(x));
            }
        }
        assert forall|i: int|
            0 <= i < n && (listed_names(wanted@).contains(#[trigger] tags[i].path@) || listed_names(wanted@).contains(
                tags[i].display_name@,
            )) implies cur.contains(tags[i]) by {
            law_only_keeps_exactly_the_named_tags(wanted, tags[i]);
            if i < n - 1 {
                assert(prev.contains(tags[i]));
                let k = choose|k: int| 0 <= k < prev.len() && prev[k] == tags[i];
                if sel.keeps_spec(tags[n - 1]) {
                    assert(cur[k] == tags[i]);
                }
            } else {
                assert(cur[cur.len() - 1] == tags[i]);
            }
        }
    }
}

} // verus!
