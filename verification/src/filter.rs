//! Deciding which discovered nodes are worth keeping.

use vstd::prelude::*;
use crate::text::{contains_seq, contains_str, eq_ignore_ascii_case, eq_ignore_ascii_case_spec};

verus! {

/// Decides whether a node should be kept during a scan.
///
/// Any `Fn(&str) -> bool` implements this, so a closure works directly.
pub trait NodeFilter {
    /// `verdict` is an answer this filter may give for a node named `display_name`.
    ///
    /// Filters written in this crate pin it to one answer per name; unless an
    /// implementation says more, either answer may come.
    open spec fn may_accept(&self, display_name: Seq<char>, verdict: bool) -> bool {
        true
    }

    /// Returns `true` if a node with this display name should be kept.
    fn accepts(&self, display_name: &str) -> (r: bool)
        ensures
            self.may_accept(display_name@, r),
    ;
}

impl<F> NodeFilter for F where F: Fn(&str) -> bool {
    /// The closure's own answer for the name: one its postcondition allows,
    /// whenever its precondition holds for the name.
    fn accepts(&self, display_name: &str) -> (r: bool)
        ensures
            call_requires(*self, (display_name,)) ==> call_ensures(*self, (display_name,), r),
    {
        call_closure_filter(self, display_name)
    }
}

/// Runs a caller's closure filter on a name and returns its answer. When the
/// closure's own precondition holds for the name, the answer is one its
/// postcondition allows; a closure called outside its precondition may
/// answer anything, so nothing is claimed then.
#[verifier::external_body]
fn call_closure_filter<F: Fn(&str) -> bool>(f: &F, display_name: &str) -> (r: bool)
    ensures
        call_requires(*f, (display_name,)) ==> call_ensures(*f, (display_name,), r),
{
    f(display_name)
}

/// Keeps every node.
#[derive(Debug, Clone, Copy, Default)]
pub struct AcceptAll;

impl NodeFilter for AcceptAll {
    open spec fn may_accept(&self, display_name: Seq<char>, verdict: bool) -> bool {
        verdict
    }

    fn accepts(&self, _display_name: &str) -> (r: bool) {
        true
    }
}

/// `------`, the separator rows some servers expose.
pub open spec fn separator_row() -> Seq<char> {
    seq!['-', '-', '-', '-', '-', '-']
}

/// `Icon`.
pub open spec fn icon_name() -> Seq<char> {
    seq!['I', 'c', 'o', 'n']
}

/// `Server`.
pub open spec fn server_name() -> Seq<char> {
    seq!['S', 'e', 'r', 'v', 'e', 'r']
}

/// What the default filter keeps: everything but `Icon`, `Server` (in any
/// ASCII case) and names containing `------`.
pub open spec fn default_keeps(display_name: Seq<char>) -> bool {
    !(eq_ignore_ascii_case_spec(display_name, icon_name())
        || eq_ignore_ascii_case_spec(display_name, server_name())
        || contains_seq(display_name, separator_row()))
}

/// Drops nodes that are server furniture rather than process data.
///
/// Rejects `Icon`, `Server`, and separator rows containing `------`. These are
/// conventions seen on Siemens and comparable server implementations; if your
/// vendor uses different junk names, write your own filter instead.
#[derive(Debug, Clone, Copy, Default)]
pub struct DefaultNodeFilter;

impl NodeFilter for DefaultNodeFilter {
    open spec fn may_accept(&self, display_name: Seq<char>, verdict: bool) -> bool {
        verdict == default_keeps(display_name)
    }

    fn accepts(&self, display_name: &str) -> (r: bool) {
        proof {
            reveal_strlit("Icon");
            reveal_strlit("Server");
            reveal_strlit("------");
            assert("Icon"@ =~= icon_name());
            assert("Server"@ =~= server_name());
            assert("------"@ =~= separator_row());
        }
        !(eq_ignore_ascii_case(display_name, "Icon") || eq_ignore_ascii_case(display_name, "Server")
            || contains_str(display_name, "------"))
    }
}

} // verus!
