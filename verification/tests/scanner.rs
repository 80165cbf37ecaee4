//! Scanner behaviour against a fake address space.

use opcua::types::NodeId;
use opcua_tag_browser::{
    AcceptAll, BrowsedNode, DefaultNodeFilter, Error, NodeBrowser, NodeClass, ScanOptions,
    TreeScanner,
};
use std::collections::HashMap;

struct FakeBrowser {
    children: HashMap<String, Vec<BrowsedNode>>,
}

impl FakeBrowser {
    fn new() -> Self {
        Self {
            children: HashMap::new(),
        }
    }

    fn with(mut self, parent: &str, children: Vec<BrowsedNode>) -> Self {
        self.children.insert(parent.to_string(), children);
        self
    }
}

impl NodeBrowser for FakeBrowser {
    fn children_of(&self, node_id: &str) -> Result<Vec<BrowsedNode>, Error> {
        Ok(self.children.get(node_id).cloned().unwrap_or_default())
    }
}

fn node(id: &str, name: &str, class: NodeClass) -> BrowsedNode {
    BrowsedNode::new(&NodeId::new(2, id.to_string()).to_string(), name, class)
}

fn root_id() -> String {
    NodeId::new(2, "root").to_string()
}

#[test]
fn collects_variables_and_records_their_path() {
    let root = root_id();
    let machine = node("machine", "Machine", NodeClass::Object);
    let speed = node("speed", "Speed", NodeClass::Variable);

    let browser = FakeBrowser::new()
        .with(&root, vec![machine.clone()])
        .with(&machine.node_id, vec![speed]);

    let report = TreeScanner::new(&browser, &AcceptAll, ScanOptions::default())
        .scan(&root)
        .expect("scan should succeed");

    assert_eq!(report.tags.len(), 1);
    assert_eq!(report.tags[0].path, "Machine/Speed");
    assert!(report.is_complete());
}

#[test]
fn default_filter_drops_server_furniture() {
    let root = root_id();
    let browser = FakeBrowser::new().with(
        &root,
        vec![
            node("icon", "Icon", NodeClass::Variable),
            node("sep", "------", NodeClass::Variable),
            node("real", "Speed", NodeClass::Variable),
        ],
    );

    let report = TreeScanner::new(&browser, &DefaultNodeFilter, ScanOptions::default())
        .scan(&root)
        .unwrap();

    assert_eq!(report.tags.len(), 1);
    assert_eq!(report.tags[0].display_name, "Speed");
}

#[test]
fn cyclic_references_terminate() {
    let root = root_id();
    let a = node("a", "A", NodeClass::Object);
    let b = node("b", "B", NodeClass::Object);

    let browser = FakeBrowser::new()
        .with(&root, vec![a.clone()])
        .with(&a.node_id, vec![b.clone()])
        .with(&b.node_id, vec![a.clone()]);

    let report = TreeScanner::new(&browser, &AcceptAll, ScanOptions::default())
        .scan(&root)
        .unwrap();

    assert!(report.tags.is_empty());
}

#[test]
fn shared_node_is_expanded_under_every_path() {
    // The node "shared" is reachable as both /F/H and /B/H. Each browse path
    // is treated as a distinct node.
    let root = root_id();
    let f = node("f", "F", NodeClass::Object);
    let b = node("b", "B", NodeClass::Object);
    let shared = node("shared", "H", NodeClass::Object);
    let leaf = node("leaf", "Value", NodeClass::Variable);

    let browser = FakeBrowser::new()
        .with(&root, vec![f.clone(), b.clone()])
        .with(&f.node_id, vec![shared.clone()])
        .with(&b.node_id, vec![shared.clone()])
        .with(&shared.node_id, vec![leaf]);

    let report = TreeScanner::new(&browser, &AcceptAll, ScanOptions::default())
        .scan(&root)
        .unwrap();

    let paths: Vec<&str> = report.tags.iter().map(|t| t.path.as_str()).collect();
    assert!(paths.contains(&"F/H/Value"), "got {paths:?}");
    assert!(paths.contains(&"B/H/Value"), "got {paths:?}");
}

#[test]
fn depth_limit_is_respected() {
    let root = root_id();
    let level1 = node("l1", "L1", NodeClass::Object);
    let deep = node("deep", "Deep", NodeClass::Variable);

    let browser = FakeBrowser::new()
        .with(&root, vec![level1.clone()])
        .with(&level1.node_id, vec![deep]);

    let mut options = ScanOptions::default();
    options.max_depth = 1;

    let report = TreeScanner::new(&browser, &AcceptAll, options)
        .scan(&root)
        .unwrap();

    assert!(report.tags.is_empty());
}

#[test]
fn a_single_variable_under_the_root_has_its_name_as_path() {
    let root = root_id();
    let browser = FakeBrowser::new().with(&root, vec![node("speed", "Speed", NodeClass::Variable)]);
    let report = TreeScanner::new(&browser, &AcceptAll, ScanOptions::default()).scan(&root).unwrap();
    assert_eq!(report.tags.len(), 1);
    assert_eq!(report.tags[0].path, "Speed");
    assert_eq!(report.tags[0].node_class, "Variable");
}

/// Fails to list the nodes in `broken`, answers the rest from a fixture.
struct PartlyBroken {
    inner: FakeBrowser,
    broken: Vec<String>,
}

impl NodeBrowser for PartlyBroken {
    fn children_of(&self, node_id: &str) -> Result<Vec<BrowsedNode>, Error> {
        if self.broken.iter().any(|b| b == node_id) {
            return Err(Error::Browse {
                node_id: node_id.to_string(),
                status: opcua_tag_browser::StatusCode::new(0x8034_0000),
            });
        }
        self.inner.children_of(node_id)
    }
}

#[test]
fn an_unreadable_root_fails_the_scan() {
    let root = root_id();
    let browser = PartlyBroken { inner: FakeBrowser::new(), broken: vec![root.clone()] };
    let result = TreeScanner::new(&browser, &AcceptAll, ScanOptions::default()).scan(&root);
    assert!(matches!(result, Err(Error::Browse { node_id, .. }) if node_id == root));
}

#[test]
fn an_unreadable_subtree_is_reported_and_the_walk_goes_on() {
    let root = root_id();
    let bad = node("bad", "Bad", NodeClass::Object);
    let good = node("good", "Good", NodeClass::Object);
    let value = node("value", "Value", NodeClass::Variable);
    let browser = PartlyBroken {
        inner: FakeBrowser::new().with(&root, vec![bad.clone(), good.clone()]).with(&good.node_id, vec![value]),
        broken: vec![bad.node_id.clone()],
    };
    let report = TreeScanner::new(&browser, &AcceptAll, ScanOptions::default()).scan(&root).unwrap();
    assert!(!report.is_complete());
    assert_eq!(report.skipped.len(), 1);
    assert_eq!(report.skipped[0].0, bad.node_id);
    let tags = report.into_tags();
    assert_eq!(tags.len(), 1);
    assert_eq!(tags[0].path, "Good/Value");
}

#[test]
fn variables_are_not_descended_when_switched_off() {
    let root = root_id();
    let parent = node("udt", "Motor", NodeClass::Variable);
    let member = node("member", "Current", NodeClass::Variable);
    let browser = FakeBrowser::new().with(&root, vec![parent.clone()]).with(&parent.node_id, vec![member]);

    let all = TreeScanner::new(&browser, &AcceptAll, ScanOptions::default()).scan(&root).unwrap();
    let all_paths: Vec<&str> = all.tags.iter().map(|t| t.path.as_str()).collect();
    assert_eq!(all_paths, vec!["Motor", "Motor/Current"]);

    let top = TreeScanner::new(&browser, &AcceptAll, ScanOptions::default().descend_into_variables(false))
        .scan(&root)
        .unwrap();
    assert_eq!(top.tags.len(), 1);
    assert_eq!(ScanOptions::default().max_depth, 12);
}

#[test]
fn properties_are_left_out_unless_asked_for() {
    let root = root_id();
    let mut units = node("units", "EngineeringUnits", NodeClass::Variable);
    units.reference_type = Some("i=46".to_string());
    let mut speed = node("speed", "Speed", NodeClass::Variable);
    speed.reference_type = Some("i=47".to_string());
    speed.type_definition = Some("i=63".to_string());
    speed.browse_name = "SpeedBrowse".to_string();
    let browser = FakeBrowser::new().with(&root, vec![units, speed]);

    let report = TreeScanner::new(&browser, &AcceptAll, ScanOptions::default()).scan(&root).unwrap();
    assert_eq!(report.tags.len(), 1);
    let tag = &report.tags[0];
    assert_eq!(tag.display_name, "Speed");
    assert_eq!(tag.browse_name, "SpeedBrowse");
    assert_eq!(tag.path, "SpeedBrowse");
    assert_eq!(tag.type_definition.as_deref(), Some("i=63"));
    assert!(!tag.is_property());

    let all = TreeScanner::new(&browser, &AcceptAll, ScanOptions::default().include_properties(true)).scan(&root).unwrap();
    assert_eq!(all.tags.len(), 2);
    assert!(all.tags[0].is_property());
}

#[test]
fn an_empty_browse_name_falls_back_to_the_display_name() {
    let root = root_id();
    let mut motor = node("motor", "Motor", NodeClass::Object);
    motor.browse_name = String::new();
    let speed = node("speed", "Speed", NodeClass::Variable);
    let browser = FakeBrowser::new().with(&root, vec![motor.clone()]).with(&motor.node_id, vec![speed]);
    let report = TreeScanner::new(&browser, &AcceptAll, ScanOptions::default()).scan(&root).unwrap();
    assert_eq!(report.tags[0].path, "Motor/Speed");
}
