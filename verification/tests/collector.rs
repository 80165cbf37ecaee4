//! Choosing which tags a collector monitors, and releasing sessions by name.

use opcua_tag_browser::{
    parseable_positions, pick_tags, reads_cache, ready_to_run, select_tags, split_for_monitoring, subscription_split,
    take_named, Error, PlcTag, Selection,
};

fn tags() -> Vec<PlcTag> {
    vec![
        PlcTag::new("Speed", "Speed", "ns=2;s=a", "Variable", "Machine/Axis1/Speed"),
        PlcTag::new("Position", "Position", "ns=2;s=b", "Variable", "Machine/Axis1/Position"),
        PlcTag::new("Temp", "Temp", "ns=2;s=d", "Variable", "Oven/Temp"),
    ]
}

fn paths(tags: &[PlcTag]) -> Vec<&str> {
    tags.iter().map(|t| t.path.as_str()).collect()
}

#[test]
fn selections_keep_order() {
    assert_eq!(select_tags(&Selection::All, tags()).len(), 3);
    let only = Selection::Only(vec!["Temp".to_string(), "Machine/Axis1/Speed".to_string()]);
    assert_eq!(paths(&select_tags(&only, tags())), vec!["Machine/Axis1/Speed", "Oven/Temp"]);
    let matching = Selection::Matching("Machine/*".to_string());
    assert_eq!(paths(&select_tags(&matching, tags())), vec!["Machine/Axis1/Speed", "Machine/Axis1/Position"]);
    assert!(select_tags(&Selection::Only(vec![]), tags()).is_empty());
    assert!(matching.keeps(&tags()[0]));
    assert!(!matching.keeps(&tags()[2]));
}

#[test]
fn overflow_beyond_the_subscription_ceiling_is_polled() {
    assert_eq!(subscription_split(2500, 800), 800);
    assert_eq!(subscription_split(300, 800), 300);
    assert_eq!(subscription_split(0, 800), 0);
}

#[test]
fn sessions_are_taken_by_name() {
    let mut registry = vec![("a".to_string(), 1), ("b".to_string(), 2), ("a".to_string(), 3)];
    assert_eq!(take_named(&mut registry, "a"), vec![1, 3]);
    assert_eq!(registry, vec![("b".to_string(), 2)]);
    assert!(take_named(&mut registry, "zzz").is_empty());
    assert_eq!(registry.len(), 1);
}

#[test]
fn tags_above_the_ceiling_are_polled() {
    let (subscribed, polled) = split_for_monitoring(tags(), 2);
    assert_eq!(paths(&subscribed), vec!["Machine/Axis1/Speed", "Machine/Axis1/Position"]);
    assert_eq!(paths(&polled), vec!["Oven/Temp"]);
    let (subscribed, polled) = split_for_monitoring(tags(), 800);
    assert_eq!(subscribed.len(), 3);
    assert!(polled.is_empty());
}

#[test]
fn only_parseable_node_ids_are_requested_and_refusals_map_back() {
    let mut all = tags();
    all.insert(1, PlcTag::new("Odd", "Odd", "no node id", "Variable", "Odd"));
    assert_eq!(parseable_positions(&all), vec![0, 2, 3]);
    let refused = pick_tags(&all, &vec![3, 0]);
    assert_eq!(paths(&refused), vec!["Oven/Temp", "Machine/Axis1/Speed"]);
}

#[test]
fn a_deferred_error_comes_before_a_missing_sink() {
    let deferred = Error::SinkSetup("disk full".to_string());
    assert!(matches!(ready_to_run(Some(deferred.clone()), false), Err(Error::SinkSetup(m)) if m == "disk full"));
    assert!(matches!(ready_to_run(Some(deferred), true), Err(Error::SinkSetup(_))));
    assert!(matches!(ready_to_run(None, false), Err(Error::MissingSink)));
    assert!(ready_to_run(None, true).is_ok());
}

#[test]
fn the_cache_is_read_only_when_present_and_not_overridden() {
    assert!(reads_cache(true, true, false));
    assert!(!reads_cache(true, true, true));
    assert!(!reads_cache(true, false, false));
    assert!(!reads_cache(false, false, false));
}
