//! Listing the children of a node, with pagination handled.

use vstd::prelude::*;
use crate::error::{Error, StatusCode};
use crate::tag::clone_opt_string;
use crate::text::owned;

verus! {

/// The class of a node in the address space.
#[derive(Debug, Clone, Copy, PartialEq, Eq, Structural)]
pub enum NodeClass {
    /// No class given.
    Unspecified,
    /// An object: a container of other nodes.
    Object,
    /// A variable: a node with a value.
    Variable,
    /// A callable method.
    Method,
    /// The type of an object.
    ObjectType,
    /// The type of a variable.
    VariableType,
    /// A kind of reference between nodes.
    ReferenceType,
    /// A data type.
    DataType,
    /// A view onto part of the address space.
    View,
}

/// A child node discovered while browsing.
#[derive(Debug)]
#[non_exhaustive]
pub struct BrowsedNode {
    /// Identifier of the discovered node, in OPC UA string form.
    pub node_id: String,
    /// Text of the node's `DisplayName` attribute.
    pub display_name: String,
    /// Name part of the node's `BrowseName`, stable across server locales.
    pub browse_name: String,
    /// Class of the discovered node.
    pub node_class: NodeClass,
    /// The reference type that reached the node, in OPC UA string form.
    pub reference_type: Option<String>,
    /// The node's `TypeDefinition`, in OPC UA string form.
    pub type_definition: Option<String>,
}

impl Clone for BrowsedNode {
    fn clone(&self) -> (r: Self)
        ensures
            r == *self,
    {
        BrowsedNode {
            node_id: self.node_id.clone(),
            display_name: self.display_name.clone(),
            browse_name: self.browse_name.clone(),
            node_class: self.node_class,
            reference_type: clone_opt_string(&self.reference_type),
            type_definition: clone_opt_string(&self.type_definition),
        }
    }
}

impl BrowsedNode {
    /// Builds a browsed node record whose browse name is its display name,
    /// with no reference type or type definition known.
    ///
    /// Provided so callers outside this crate (test doubles, alternative
    /// [`NodeBrowser`] backends) can construct values.
    pub fn new(node_id: &str, display_name: &str, node_class: NodeClass) -> (r: Self)
        ensures
            r.node_id@ == node_id@,
            r.display_name@ == display_name@,
            r.browse_name@ == display_name@,
            r.node_class == node_class,
            r.reference_type is None,
            r.type_definition is None,
    {
        BrowsedNode {
            node_id: owned(node_id),
            display_name: owned(display_name),
            browse_name: owned(display_name),
            node_class,
            reference_type: None,
            type_definition: None,
        }
    }
}

/// The listing a `children_of` call returned, with its nodes as a sequence.
pub open spec fn listing_of(r: Result<Vec<BrowsedNode>, Error>) -> Result<Seq<BrowsedNode>, Error> {
    match r {
        Ok(v) => Ok(v@),
        Err(e) => Err(e),
    }
}

/// Lists the children of a node.
///
/// Implement this to drive a [`TreeScanner`](crate::TreeScanner) against a
/// fake address space in tests, or against a cached snapshot.
pub trait NodeBrowser {
    /// `listing` is an answer this browser may give for `node_id`.
    ///
    /// Unless an implementation says more, any listing may come back.
    open spec fn may_list(&self, node_id: Seq<char>, listing: Result<Seq<BrowsedNode>, Error>) -> bool {
        true
    }

    /// Returns every child of `node_id`, following continuation points.
    fn children_of(&self, node_id: &str) -> (r: Result<Vec<BrowsedNode>, Error>)
        ensures
            self.may_list(node_id@, listing_of(r)),
    ;
}

/// An opaque server-issued byte string; here, a browse continuation point.
#[derive(Debug)]
pub struct ByteString {
    /// The bytes, or `None` for a null byte string.
    pub value: Option<Vec<u8>>,
}

impl ByteString {
    /// The bytes as a sequence, or `None` for a null byte string.
    pub open spec fn bytes(&self) -> Option<Seq<u8>> {
        match self.value {
            Some(v) => Some(v@),
            None => None,
        }
    }

    /// The null byte string.
    pub fn null() -> (r: ByteString)
        ensures
            r.bytes() is None,
    {
        ByteString { value: None }
    }
}

impl Clone for ByteString {
    fn clone(&self) -> (r: Self)
        ensures
            r.bytes() == self.bytes(),
    {
        match &self.value {
            None => ByteString { value: None },
            Some(bytes) => {
                let mut copy: Vec<u8> = Vec::new();
                let mut i: usize = 0;
                while i < bytes.len()
                    invariant
                        i <= bytes.len(),
                        copy@ == bytes@.take(i as int),
                    decreases bytes.len() - i,
                {
                    copy.push(bytes[i]);
                    assert(bytes@.take(i + 1) == bytes@.take(i as int).push(bytes@[i as int]));
                    i += 1;
                }
                assert(bytes@.take(bytes.len() as int) =~= bytes@);
                ByteString { value: Some(copy) }
            },
        }
    }
}

/// One reference a browse returned: the node it leads to.
#[derive(Debug)]
pub struct ReferenceDescription {
    /// The reference's type, in OPC UA string form.
    pub reference_type_id: Option<String>,
    /// The target node, in OPC UA string form.
    pub node_id: String,
    /// The name part of the target's `BrowseName`.
    pub browse_name: String,
    /// The target's `DisplayName` text.
    pub display_name: String,
    /// The target's class.
    pub node_class: NodeClass,
    /// The target's `TypeDefinition`, in OPC UA string form.
    pub type_definition: Option<String>,
}

/// The outcome of browsing one node, or one page of it.
#[derive(Debug)]
pub struct BrowseResult {
    /// Status of this node's browse.
    pub status_code: StatusCode,
    /// Where the next page starts, when the server paginated.
    pub continuation_point: ByteString,
    /// The references on this page.
    pub references: Option<Vec<ReferenceDescription>>,
}

/// Which way references are followed.
#[derive(Debug, Clone, Copy, PartialEq, Eq, Structural)]
pub enum BrowseDirection {
    /// From source to target.
    Forward,
    /// From target to source.
    Inverse,
    /// Both ways.
    Both,
}

/// A request to list a node's references.
#[derive(Debug)]
pub struct BrowseDescription {
    /// Node to browse, in OPC UA string form.
    pub node_id: String,
    /// Which way to follow references.
    pub browse_direction: BrowseDirection,
    /// Reference type to follow, in OPC UA string form.
    pub reference_type_id: String,
    /// Whether subtypes of that reference type are followed too.
    pub include_subtypes: bool,
    /// Node classes to return; `0` for all.
    pub node_class_mask: u32,
    /// Fields of each reference to return.
    pub result_mask: u32,
}

/// `HierarchicalReferences` (`i=33`).
pub open spec fn hierarchical_references() -> Seq<char> {
    seq!['i', '=', '3', '3']
}

/// Every field of a reference description (`BrowseResultMask::All`).
pub const BROWSE_RESULT_MASK_ALL: u32 = 63;

/// The browse service calls a [`OpcUaNodeBrowser`] makes.
///
/// Implemented over a live session by the application. Each reply is one the
/// session may give to exactly the call made; unless an implementation says
/// more, any reply may come.
pub trait BrowseSession {
    /// `reply` is an answer this session may give to browsing `nodes_to_browse`.
    open spec fn may_browse(
        &self,
        nodes_to_browse: Seq<BrowseDescription>,
        reply: Result<Option<Vec<BrowseResult>>, StatusCode>,
    ) -> bool {
        true
    }

    /// `reply` is an answer this session may give to continuing a browse at
    /// the continuation points with these bytes.
    open spec fn may_browse_next(
        &self,
        release_continuation_points: bool,
        continuation_points: Seq<Option<Seq<u8>>>,
        reply: Result<Option<Vec<BrowseResult>>, StatusCode>,
    ) -> bool {
        true
    }

    /// Lists references for the supplied browse descriptions.
    fn browse(&self, nodes_to_browse: &[BrowseDescription]) -> (r: Result<Option<Vec<BrowseResult>>, StatusCode>)
        ensures
            self.may_browse(nodes_to_browse@, r),
    ;

    /// Continues a paginated browse using continuation points.
    fn browse_next(
        &self,
        release_continuation_points: bool,
        continuation_points: &[ByteString],
    ) -> (r: Result<Option<Vec<BrowseResult>>, StatusCode>)
        ensures
            self.may_browse_next(
                release_continuation_points,
                continuation_points@.map_values(|p: ByteString| p.bytes()),
                r,
            ),
    ;
}

/// Whether a continuation point carries a non-empty value.
pub open spec fn has_more_spec(point: ByteString) -> bool {
    match point.bytes() {
        Some(b) => b.len() > 0,
        None => false,
    }
}

/// Returns true when a continuation point carries a non-empty value.
///
/// A present-but-empty byte string would otherwise loop forever.
pub fn has_more(point: &ByteString) -> (r: bool)
    ensures
        r == has_more_spec(*point),
{
    match &point.value {
        Some(bytes) => bytes.len() > 0,
        None => false,
    }
}

/// The node a reference leads to, as a browsed node.
pub open spec fn node_of_reference(r: ReferenceDescription) -> BrowsedNode {
    BrowsedNode {
        node_id: r.node_id,
        display_name: r.display_name,
        browse_name: r.browse_name,
        node_class: r.node_class,
        reference_type: r.reference_type_id,
        type_definition: r.type_definition,
    }
}

/// The nodes the references of one page lead to, in order.
pub open spec fn nodes_of_references(references: Option<Vec<ReferenceDescription>>) -> Seq<BrowsedNode> {
    match references {
        Some(v) => v@.map_values(|r: ReferenceDescription| node_of_reference(r)),
        None => Seq::empty(),
    }
}

/// Converts raw reference descriptions into [`BrowsedNode`] values.
pub fn append_references(references: &Option<Vec<ReferenceDescription>>, out: &mut Vec<BrowsedNode>)
    ensures
        final(out)@ == old(out)@ + nodes_of_references(*references),
{
    match references {
        None => {
            assert(old(out)@ + nodes_of_references(*references) =~= old(out)@);
        },
        Some(list) => {
            let ghost start = out@;
            let mut i: usize = 0;
            while i < list.len()
                invariant
                    i <= list.len(),
                    out@ == start + list@.take(i as int).map_values(|r: ReferenceDescription| node_of_reference(r)),
                decreases list.len() - i,
            {
                let reference = &list[i];
                out.push(
                    BrowsedNode {
                        node_id: reference.node_id.clone(),
                        display_name: reference.display_name.clone(),
                        browse_name: reference.browse_name.clone(),
                        node_class: reference.node_class,
                        reference_type: clone_opt_string(&reference.reference_type_id),
                        type_definition: clone_opt_string(&reference.type_definition),
                    },
                );
                assert(list@.take(i + 1).map_values(|r: ReferenceDescription| node_of_reference(r))
                    =~= list@.take(i as int).map_values(|r: ReferenceDescription| node_of_reference(r)).push(
                    node_of_reference(list@[i as int]),
                ));
                i += 1;
            }
            assert(list@.take(list.len() as int) =~= list@);
        },
    }
}

/// The nodes of pages `results[..k]`, in order.
pub open spec fn nodes_of_pages(results: Seq<BrowseResult>, k: int) -> Seq<BrowsedNode>
    decreases k,
{
    if k <= 0 {
        Seq::empty()
    } else {
        nodes_of_pages(results, k - 1) + nodes_of_references(results[k - 1].references)
    }
}

/// The index of the first page whose status is bad, or `results.len()`.
pub open spec fn first_bad_page(results: Seq<BrowseResult>, from: int) -> int
    decreases results.len() - from,
{
    if from >= results.len() || from < 0 {
        results.len() as int
    } else if results[from].status_code.spec_bad() {
        from
    } else {
        first_bad_page(results, from + 1)
    }
}

/// Takes in one batch of `BrowseNext` pages: appends the nodes of each page
/// until a bad one, and returns the continuation point of the last page.
///
/// A bad page ends the listing with [`Error::Browse`] for `node_id`, after the
/// nodes of the pages before it were appended. An empty batch returns a null
/// continuation point.
pub fn absorb_pages(results: &Vec<BrowseResult>, node_id: &str, out: &mut Vec<BrowsedNode>) -> (r: Result<ByteString, Error>)
    ensures
        ({
            let bad = first_bad_page(results@, 0);
            &&& final(out)@ == old(out)@ + nodes_of_pages(results@, bad)
            &&& match r {
                Ok(point) => bad == results.len() && (if results.len() == 0 {
                    point.bytes() is None
                } else {
                    point.bytes() == results@[results.len() - 1].continuation_point.bytes()
                }),
                Err(e) => bad < results.len() && e is Browse && e->Browse_node_id@ == node_id@
                    && e->Browse_status == results@[bad].status_code,
            }
        }),
{
    let ghost start = out@;
    let mut next_point = ByteString::null();
    let mut i: usize = 0;
    while i < results.len()
        invariant
            i <= results.len(),
            first_bad_page(results@, 0) == first_bad_page(results@, i as int),
            start == old(out)@,
            out@ == start + nodes_of_pages(results@, i as int),
            i == 0 ==> next_point.bytes() is None,
            i > 0 ==> next_point.bytes() == results@[i - 1].continuation_point.bytes(),
        decreases results.len() - i,
    {
        let result = &results[i];
        if result.status_code.is_bad() {
            assert(first_bad_page(results@, i as int) == i);
            return Err(Error::Browse { node_id: owned(node_id), status: result.status_code });
        }
        assert(first_bad_page(results@, i as int) == first_bad_page(results@, i + 1));
        append_references(&result.references, out);
        next_point = result.continuation_point.clone();
        assert(out@ == start + nodes_of_pages(results@, i + 1));
        i += 1;
    }
    Ok(next_point)
}

/// A reply to one `Browse` or `BrowseNext` call.
pub type BrowseReply = Result<Option<Vec<BrowseResult>>, StatusCode>;

/// The continuation point a batch of pages leaves: the last page's, or none
/// for an empty batch.
pub open spec fn last_point(pages: Seq<BrowseResult>) -> Option<Seq<u8>> {
    if pages.len() == 0 {
        None
    } else {
        pages.last().continuation_point.bytes()
    }
}

/// A continuation point with bytes in it: there are more pages.
pub open spec fn more_pages(point: Option<Seq<u8>>) -> bool {
    match point {
        Some(b) => b.len() > 0,
        None => false,
    }
}

/// What listing a node yields from the results of its first browse, at
/// result `k` with the nodes `acc` gathered so far, when the `BrowseNext`
/// calls made from here are `log` (the point sent and the reply, in turn).
///
/// `paging` is `None` between results and `Some(point)` while following a
/// result's continuation points, after `rounds` calls for it. A bad status
/// ends the listing with that status; a reply without results ends the
/// paging of its result. `None` means `log` is not exactly the calls the
/// listing makes.
pub open spec fn run_listing(
    results: Seq<BrowseResult>,
    k: int,
    acc: Seq<BrowsedNode>,
    paging: Option<Option<Seq<u8>>>,
    rounds: int,
    log: Seq<(Option<Seq<u8>>, BrowseReply)>,
) -> Option<Result<Seq<BrowsedNode>, StatusCode>>
    decreases results.len() - k, (if paging is Some { 0int } else { 1int }), log.len(),
{
    if k < 0 || k > results.len() || (paging is Some && k == results.len()) {
        None
    } else {
        match paging {
            None => if k == results.len() {
                if log.len() == 0 {
                    Some(Ok(acc))
                } else {
                    None
                }
            } else if results[k].status_code.spec_bad() {
                if log.len() == 0 {
                    Some(Err(results[k].status_code))
                } else {
                    None
                }
            } else {
                run_listing(
                    results,
                    k,
                    acc + nodes_of_references(results[k].references),
                    Some(results[k].continuation_point.bytes()),
                    0,
                    log,
                )
            },
            Some(point) => if !(more_pages(point) && rounds < usize::MAX) {
                run_listing(results, k + 1, acc, None, 0, log)
            } else if log.len() == 0 || log[0].0 != point {
                None
            } else {
                match log[0].1 {
                    Err(status) => if log.len() == 1 {
                        Some(Err(status))
                    } else {
                        None
                    },
                    Ok(None) => run_listing(results, k + 1, acc, None, 0, log.skip(1)),
                    Ok(Some(pages)) => {
                        let bad = first_bad_page(pages@, 0);
                        if bad < pages@.len() {
                            if log.len() == 1 {
                                Some(Err(pages@[bad].status_code))
                            } else {
                                None
                            }
                        } else {
                            run_listing(
                                results,
                                k,
                                acc + nodes_of_pages(pages@, pages@.len() as int),
                                Some(last_point(pages@)),
                                rounds + 1,
                                log.skip(1),
                            )
                        }
                    },
                }
            },
        }
    }
}

/// What listing a node yields when its first `Browse` replied `first` and
/// the `BrowseNext` calls were `log`: the reply's failure, no children when
/// there were no results, else what following the results gives.
pub open spec fn listing_from(first: BrowseReply, log: Seq<(Option<Seq<u8>>, BrowseReply)>) -> Option<
    Result<Seq<BrowsedNode>, StatusCode>,
> {
    match first {
        Err(status) => if log.len() == 0 {
            Some(Err(status))
        } else {
            None
        },
        Ok(None) => if log.len() == 0 {
            Some(Ok(Seq::empty()))
        } else {
            None
        },
        Ok(Some(results)) => run_listing(results@, 0, Seq::empty(), None, 0, log),
    }
}

/// `listing` is what a children listing of `node_id` returns for the
/// outcome `outcome`: the nodes, or [`Error::Browse`] for `node_id` with the
/// status.
pub open spec fn listing_is(
    node_id: Seq<char>,
    outcome: Result<Seq<BrowsedNode>, StatusCode>,
    listing: Result<Seq<BrowsedNode>, Error>,
) -> bool {
    match outcome {
        Ok(nodes) => listing == Ok::<Seq<BrowsedNode>, Error>(nodes),
        Err(status) => listing matches Err(Error::Browse { node_id: n, status: s }) && n@ == node_id && s == status,
    }
}

/// A [`NodeBrowser`] backed by a live session.
pub struct OpcUaNodeBrowser<S: BrowseSession> {
    session: S,
}

impl<S: BrowseSession> OpcUaNodeBrowser<S> {
    /// The session this browser lists nodes through.
    pub closed spec fn spec_session(&self) -> S {
        self.session
    }

    /// Creates a browser over the given session.
    pub fn new(session: S) -> (r: Self)
        ensures
            r.spec_session() == session,
    {
        OpcUaNodeBrowser { session }
    }

    /// The request `children_of` sends first: forward hierarchical
    /// references of `node_id`, subtypes included, every node class and field.
    pub open spec fn describes_children_of(d: BrowseDescription, node_id: Seq<char>) -> bool {
        &&& d.node_id@ == node_id
        &&& d.browse_direction == BrowseDirection::Forward
        &&& d.reference_type_id@ == hierarchical_references()
        &&& d.include_subtypes
        &&& d.node_class_mask == 0
        &&& d.result_mask == BROWSE_RESULT_MASK_ALL
    }

    /// Builds the browse request for the children of `node_id`.
    pub fn children_request(node_id: &str) -> (d: BrowseDescription)
        ensures
            Self::describes_children_of(d, node_id@),
    {
        proof {
            reveal_strlit("i=33");
        }
        let reference_type_id = owned("i=33");
        assert(reference_type_id@ =~= hierarchical_references());
        BrowseDescription {
            node_id: owned(node_id),
            browse_direction: BrowseDirection::Forward,
            reference_type_id,
            include_subtypes: true,
            node_class_mask: 0,
            result_mask: BROWSE_RESULT_MASK_ALL,
        }
    }
}

impl<S: BrowseSession> OpcUaNodeBrowser<S> {
    /// The session may give the replies `first` and `log` to the calls a
    /// listing of `node_id` makes (`description` first, then each point in
    /// `log`), and `listing` is what those replies make of it.
    pub open spec fn listed_by(
        &self,
        node_id: Seq<char>,
        description: BrowseDescription,
        first: BrowseReply,
        log: Seq<(Option<Seq<u8>>, BrowseReply)>,
        listing: Result<Seq<BrowsedNode>, Error>,
    ) -> bool {
        &&& Self::describes_children_of(description, node_id)
        &&& self.spec_session().may_browse(seq![description], first)
        &&& forall|i: int|
            0 <= i < log.len() ==> self.spec_session().may_browse_next(false, seq![(#[trigger] log[i]).0], log[i].1)
        &&& listing_from(first, log) matches Some(outcome) && listing_is(node_id, outcome, listing)
    }
}

impl<S: BrowseSession> NodeBrowser for OpcUaNodeBrowser<S> {
    /// The listing is what the server's pages make of it: the references of
    /// each page in turn, continuation points followed until one is empty,
    /// or [`Error::Browse`] for the node at the first failure.
    open spec fn may_list(&self, node_id: Seq<char>, listing: Result<Seq<BrowsedNode>, Error>) -> bool {
        exists|description: BrowseDescription, first: BrowseReply, log: Seq<(Option<Seq<u8>>, BrowseReply)>|
            #[trigger] self.listed_by(node_id, description, first, log, listing)
    }

    fn children_of(&self, node_id: &str) -> (r: Result<Vec<BrowsedNode>, Error>) {
        let description = Self::children_request(node_id);
        let ghost desc = description;
        let mut children: Vec<BrowsedNode> = Vec::new();

        let requests = vec![description];
        assert(requests@ =~= seq![desc]);
        let first = self.session.browse(requests.as_slice());
        let ghost first_reply = first;
        let ghost mut log: Seq<(Option<Seq<u8>>, BrowseReply)> = Seq::empty();
        let results = match first {
            Ok(results) => results,
            Err(status) => {
                let r = Err(Error::Browse { node_id: owned(node_id), status });
                assert(self.listed_by(node_id@, desc, first_reply, log, listing_of(r)));
                return r;
            },
        };

        let results = match results {
            Some(results) => results,
            None => {
                let r = Ok(children);
                assert(listing_of(r) == Ok::<Seq<BrowsedNode>, Error>(Seq::empty())) by {
                    assert(children@ =~= Seq::<BrowsedNode>::empty());
                }
                assert(self.listed_by(node_id@, desc, first_reply, log, listing_of(r)));
                return r;
            },
        };
        let ghost rs = results@;
        assert(forall|s: Seq<(Option<Seq<u8>>, BrowseReply)>|
            #[trigger] listing_from(first_reply, log + s) == run_listing(rs, 0, children@, None, 0, s)) by {
            assert forall|s: Seq<(Option<Seq<u8>>, BrowseReply)>|
                #[trigger] listing_from(first_reply, log + s) == run_listing(rs, 0, children@, None, 0, s) by {
                assert(log + s =~= s);
                assert(children@ =~= Seq::<BrowsedNode>::empty());
            }
        }

        let mut k: usize = 0;
        while k < results.len()
            invariant
                k <= results.len(),
                rs == results@,
                first_reply == Ok::<Option<Vec<BrowseResult>>, StatusCode>(Some(results)),
                Self::describes_children_of(desc, node_id@),
                self.spec_session().may_browse(seq![desc], first_reply),
                forall|i: int|
                    0 <= i < log.len() ==> self.spec_session().may_browse_next(false, seq![(#[trigger] log[i]).0], log[i].1),
                forall|s: Seq<(Option<Seq<u8>>, BrowseReply)>|
                    #[trigger] listing_from(first_reply, log + s) == run_listing(rs, k as int, children@, None, 0, s),
            decreases results.len() - k,
        {
            let result = &results[k];
            if result.status_code.is_bad() {
                let r = Err(Error::Browse { node_id: owned(node_id), status: result.status_code });
                proof {
                    let e: Seq<(Option<Seq<u8>>, BrowseReply)> = Seq::empty();
                    assert(log + e =~= log);
                    assert(listing_from(first_reply, log + e) == run_listing(rs, k as int, children@, None, 0, e));
                    assert(self.listed_by(node_id@, desc, first_reply, log, listing_of(r)));
                }
                return r;
            }

            let ghost before = children@;
            append_references(&result.references, &mut children);

            let mut continuation_point = result.continuation_point.clone();
            proof {
                assert forall|s: Seq<(Option<Seq<u8>>, BrowseReply)>|
                    #[trigger] listing_from(first_reply, log + s) == run_listing(
                        rs,
                        k as int,
                        children@,
                        Some(continuation_point.bytes()),
                        0,
                        s,
                    ) by {
                    assert(listing_from(first_reply, log + s) == run_listing(rs, k as int, before, None, 0, s));
                }
            }
            // Each round trip fetches one more page; the count only bounds the
            // loop for a server that never stops paginating.
            let mut rounds: usize = 0;
            let mut paging = true;
            while paging && has_more(&continuation_point) && rounds < usize::MAX
                invariant
                    k < results.len(),
                    rs == results@,
                    first_reply == Ok::<Option<Vec<BrowseResult>>, StatusCode>(Some(results)),
                    Self::describes_children_of(desc, node_id@),
                    self.spec_session().may_browse(seq![desc], first_reply),
                    forall|i: int|
                        0 <= i < log.len() ==> self.spec_session().may_browse_next(
                            false,
                            seq![(#[trigger] log[i]).0],
                            log[i].1,
                        ),
                    paging ==> forall|s: Seq<(Option<Seq<u8>>, BrowseReply)>|
                        #[trigger] listing_from(first_reply, log + s) == run_listing(
                            rs,
                            k as int,
                            children@,
                            Some(continuation_point.bytes()),
                            rounds as int,
                            s,
                        ),
                    !paging ==> forall|s: Seq<(Option<Seq<u8>>, BrowseReply)>|
                        #[trigger] listing_from(first_reply, log + s) == run_listing(
                            rs,
                            k + 1,
                            children@,
                            None,
                            0,
                            s,
                        ),
                decreases usize::MAX - rounds, (if paging { 1int } else { 0int }),
            {
                let points = vec![continuation_point.clone()];
                let ghost point = continuation_point.bytes();
                assert(points@.map_values(|p: ByteString| p.bytes()) =~= seq![point]);
                let next = self.session.browse_next(false, points.as_slice());
                let ghost entry = (point, next);
                let ghost prior = log;
                proof {
                    log = log.push(entry);
                    assert forall|i: int| 0 <= i < log.len() implies self.spec_session().may_browse_next(
                        false,
                        seq![(#[trigger] log[i]).0],
                        log[i].1,
                    ) by {
                        if i < prior.len() {
                            assert(log[i] == prior[i]);
                        }
                    }
                    assert forall|s: Seq<(Option<Seq<u8>>, BrowseReply)>|
                        #[trigger] listing_from(first_reply, log + s) == run_listing(
                            rs,
                            k as int,
                            children@,
                            Some(point),
                            rounds as int,
                            seq![entry] + s,
                        ) by {
                        assert(log + s =~= prior + (seq![entry] + s));
                    }
                }
                let next_results = match next {
                    Ok(next) => next,
                    Err(status) => {
                        let r = Err(Error::Browse { node_id: owned(node_id), status });
                        proof {
                            let e: Seq<(Option<Seq<u8>>, BrowseReply)> = Seq::empty();
                            assert(log + e =~= log);
                            assert(seq![entry] + e =~= seq![entry]);
                            assert(listing_from(first_reply, log + e) == run_listing(
                                rs,
                                k as int,
                                children@,
                                Some(point),
                                rounds as int,
                                seq![entry] + e,
                            ));
                            assert(self.listed_by(node_id@, desc, first_reply, log, listing_of(r)));
                        }
                        return r;
                    },
                };

                match next_results {
                    Some(next_results) => {
                        let ghost gathered = children@;
                        match absorb_pages(&next_results, node_id, &mut children) {
                            Ok(point_after) => {
                                continuation_point = point_after;
                                proof {
                                    assert forall|s: Seq<(Option<Seq<u8>>, BrowseReply)>|
                                        #[trigger] listing_from(first_reply, log + s) == run_listing(
                                            rs,
                                            k as int,
                                            children@,
                                            Some(continuation_point.bytes()),
                                            rounds + 1,
                                            s,
                                        ) by {
                                        let xs = seq![entry] + s;
                                        assert(xs[0] == entry);
                                        assert(xs.skip(1) =~= s);
                                        assert(listing_from(first_reply, log + s) == run_listing(
                                            rs,
                                            k as int,
                                            gathered,
                                            Some(point),
                                            rounds as int,
                                            xs,
                                        ));
                                    }
                                }
                            },
                            Err(e) => {
                                let r = Err(e);
                                proof {
                                    let e0: Seq<(Option<Seq<u8>>, BrowseReply)> = Seq::empty();
                                    assert(log + e0 =~= log);
                                    let xs = seq![entry] + e0;
                                    assert(xs =~= seq![entry]);
                                    assert(listing_from(first_reply, log + e0) == run_listing(
                                        rs,
                                        k as int,
                                        gathered,
                                        Some(point),
                                        rounds as int,
                                        xs,
                                    ));
                                    assert(self.listed_by(node_id@, desc, first_reply, log, listing_of(r)));
                                }
                                return r;
                            },
                        }
                    },
                    None => {
                        paging = false;
                        proof {
                            assert forall|s: Seq<(Option<Seq<u8>>, BrowseReply)>|
                                #[trigger] listing_from(first_reply, log + s) == run_listing(
                                    rs,
                                    k + 1,
                                    children@,
                                    None,
                                    0,
                                    s,
                                ) by {
                                let xs = seq![entry] + s;
                                assert(xs[0] == entry);
                                assert(xs.skip(1) =~= s);
                            }
                        }
                    },
                }
                rounds += 1;
            }
            proof {
                if paging {
                    assert forall|s: Seq<(Option<Seq<u8>>, BrowseReply)>|
                        #[trigger] listing_from(first_reply, log + s) == run_listing(rs, k + 1, children@, None, 0, s) by {
                        assert(listing_from(first_reply, log + s) == run_listing(
                            rs,
                            k as int,
                            children@,
                            Some(continuation_point.bytes()),
                            rounds as int,
                            s,
                        ));
                    }
                }
            }
            k += 1;
        }

        let r = Ok(children);
        proof {
            let e: Seq<(Option<Seq<u8>>, BrowseReply)> = Seq::empty();
            assert(log + e =~= log);
            assert(listing_from(first_reply, log + e) == run_listing(rs, k as int, children@, None, 0, e));
            assert(self.listed_by(node_id@, desc, first_reply, log, listing_of(r)));
        }
        r
    }
}

} // verus!
