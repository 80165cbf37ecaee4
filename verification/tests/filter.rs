//! Node filters: the default furniture filter, accept-all, and closures.

use opcua_tag_browser::{AcceptAll, DefaultNodeFilter, NodeFilter};

#[test]
fn closures_are_filters() {
    let only_process_data = |name: &str| !name.starts_with('_') && !name.eq_ignore_ascii_case("Diagnostics");
    assert!(only_process_data.accepts("Speed"));
    assert!(!only_process_data.accepts("_internal"));
    assert!(!only_process_data.accepts("DIAGNOSTICS"));
}

#[test]
fn default_filter_drops_icon_server_and_separators() {
    let filter = DefaultNodeFilter;
    assert!(filter.accepts("Speed"));
    assert!(!filter.accepts("Icon"));
    assert!(!filter.accepts("icon"));
    assert!(!filter.accepts("SERVER"));
    assert!(!filter.accepts("------"));
    assert!(!filter.accepts("-------- Axis --------"));
    assert!(filter.accepts("-----"));
    assert!(filter.accepts("Icons"));
    assert!(filter.accepts("ServerStatus"));
}

#[test]
fn accept_all_keeps_everything() {
    assert!(AcceptAll.accepts("Icon"));
    assert!(AcceptAll.accepts(""));
}
