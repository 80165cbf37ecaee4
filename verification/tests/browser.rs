//! Listing children through a scripted browse service, pagination included.

use opcua_tag_browser::{
    absorb_pages, append_references, has_more, BrowseDescription, BrowseDirection, BrowseResult, BrowseSession,
    BrowsedNode, ByteString, Error, NodeBrowser, NodeClass, OpcUaNodeBrowser, ReferenceDescription, StatusCode,
};
use std::cell::RefCell;
use std::rc::Rc;

fn reference(id: &str, name: &str) -> ReferenceDescription {
    ReferenceDescription {
        reference_type_id: Some("i=47".to_string()),
        node_id: id.to_string(),
        browse_name: format!("{name}_b"),
        display_name: name.to_string(),
        node_class: NodeClass::Variable,
        type_definition: Some("i=63".to_string()),
    }
}

fn page(status: StatusCode, point: Option<Vec<u8>>, refs: Vec<ReferenceDescription>) -> BrowseResult {
    BrowseResult { status_code: status, continuation_point: ByteString { value: point }, references: Some(refs) }
}

type Calls = Rc<RefCell<Vec<String>>>;

/// Answers one browse and then `BrowseNext` pages in turn.
struct PagedSession {
    first: RefCell<Option<Result<Option<Vec<BrowseResult>>, StatusCode>>>,
    next: RefCell<Vec<Result<Option<Vec<BrowseResult>>, StatusCode>>>,
    calls: Calls,
}

impl BrowseSession for PagedSession {
    fn browse(&self, nodes_to_browse: &[BrowseDescription]) -> Result<Option<Vec<BrowseResult>>, StatusCode> {
        let d = &nodes_to_browse[0];
        assert_eq!(d.browse_direction, BrowseDirection::Forward);
        assert_eq!(d.reference_type_id, "i=33");
        assert!(d.include_subtypes);
        self.calls.borrow_mut().push(format!("browse {}", d.node_id));
        self.first.borrow_mut().take().unwrap()
    }

    fn browse_next(&self, release: bool, points: &[ByteString]) -> Result<Option<Vec<BrowseResult>>, StatusCode> {
        assert!(!release);
        self.calls.borrow_mut().push(format!("next {:?}", points[0].value));
        self.next.borrow_mut().remove(0)
    }
}

fn scripted(
    first: Result<Option<Vec<BrowseResult>>, StatusCode>,
    next: Vec<Result<Option<Vec<BrowseResult>>, StatusCode>>,
) -> (OpcUaNodeBrowser<PagedSession>, Calls) {
    let calls: Calls = Rc::new(RefCell::new(Vec::new()));
    let session = PagedSession { first: RefCell::new(Some(first)), next: RefCell::new(next), calls: calls.clone() };
    (OpcUaNodeBrowser::new(session), calls)
}

fn ids(nodes: &[BrowsedNode]) -> Vec<&str> {
    nodes.iter().map(|n| n.node_id.as_str()).collect()
}

#[test]
fn pages_are_followed_until_the_continuation_point_is_empty() {
    let good = StatusCode::good();
    let (browser, calls) = scripted(
        Ok(Some(vec![page(good, Some(vec![1]), vec![reference("a", "A"), reference("b", "B")])])),
        vec![
            Ok(Some(vec![page(good, Some(vec![2]), vec![reference("c", "C")])])),
            Ok(Some(vec![page(good, Some(vec![]), vec![reference("d", "D")])])),
        ],
    );
    let children = browser.children_of("ns=2;s=root").unwrap();
    assert_eq!(ids(&children), vec!["a", "b", "c", "d"]);
    assert_eq!(
        *calls.borrow(),
        vec!["browse ns=2;s=root".to_string(), "next Some([1])".to_string(), "next Some([2])".to_string()]
    );
}

#[test]
fn a_failed_browse_names_the_node() {
    let bad = StatusCode::new(0x8034_0000);
    let (browser, _) = scripted(Err(bad), vec![]);
    assert!(matches!(browser.children_of("n1"), Err(Error::Browse { node_id, status }) if node_id == "n1" && status == bad));

    let (browser, _) = scripted(Ok(Some(vec![page(bad, None, vec![])])), vec![]);
    assert!(matches!(browser.children_of("n2"), Err(Error::Browse { node_id, .. }) if node_id == "n2"));

    let good = StatusCode::good();
    let (browser, _) = scripted(
        Ok(Some(vec![page(good, Some(vec![9]), vec![reference("a", "A")])])),
        vec![Ok(Some(vec![page(bad, None, vec![reference("z", "Z")])]))],
    );
    assert!(matches!(browser.children_of("n3"), Err(Error::Browse { status, .. }) if status == bad));
}

#[test]
fn no_results_means_no_children() {
    let (browser, _) = scripted(Ok(None), vec![]);
    assert!(browser.children_of("n").unwrap().is_empty());
    let good = StatusCode::good();
    let (browser, _) = scripted(Ok(Some(vec![page(good, Some(vec![5]), vec![reference("a", "A")])])), vec![Ok(None)]);
    assert_eq!(ids(&browser.children_of("n").unwrap()), vec!["a"]);
}

#[test]
fn continuation_points() {
    assert!(!has_more(&ByteString::null()));
    assert!(!has_more(&ByteString { value: Some(vec![]) }));
    assert!(has_more(&ByteString { value: Some(vec![0]) }));
}

#[test]
fn references_become_browsed_nodes_in_order() {
    let mut out = vec![BrowsedNode::new("x", "X", NodeClass::Object)];
    append_references(&Some(vec![reference("a", "A"), reference("b", "B")]), &mut out);
    append_references(&None, &mut out);
    assert_eq!(ids(&out), vec!["x", "a", "b"]);
    assert_eq!(out[1].display_name, "A");
    assert_eq!(out[1].browse_name, "A_b");
    assert_eq!(out[1].node_class, NodeClass::Variable);
    assert_eq!(out[1].reference_type.as_deref(), Some("i=47"));
    assert_eq!(out[1].type_definition.as_deref(), Some("i=63"));
    assert_eq!(out[0].browse_name, "X");
    assert!(out[0].reference_type.is_none());
}

#[test]
fn absorbing_pages_stops_at_a_bad_one() {
    let good = StatusCode::good();
    let bad = StatusCode::new(0x8034_0000);
    let mut out = Vec::new();
    let point = absorb_pages(
        &vec![page(good, Some(vec![1]), vec![reference("a", "A")]), page(good, Some(vec![2]), vec![reference("b", "B")])],
        "n",
        &mut out,
    )
    .unwrap();
    assert_eq!(point.value, Some(vec![2]));
    assert_eq!(ids(&out), vec!["a", "b"]);

    let mut out = Vec::new();
    let r = absorb_pages(
        &vec![page(good, Some(vec![1]), vec![reference("a", "A")]), page(bad, None, vec![reference("b", "B")])],
        "n",
        &mut out,
    );
    assert!(matches!(r, Err(Error::Browse { status, .. }) if status == bad));
    assert_eq!(ids(&out), vec!["a"]);

    let mut out = Vec::new();
    assert_eq!(absorb_pages(&vec![], "n", &mut out).unwrap().value, None);
}

#[test]
fn the_children_request_follows_hierarchical_references() {
    let d = OpcUaNodeBrowser::<PagedSession>::children_request("ns=2;s=x");
    assert_eq!(d.node_id, "ns=2;s=x");
    assert_eq!(d.node_class_mask, 0);
    assert_eq!(d.result_mask, 63);
}
