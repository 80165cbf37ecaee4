//! Interpreting a tag's attributes.

use opcua_tag_browser::PlcTag;

fn tag_with_access_level(access_level: Option<u8>) -> PlcTag {
    let mut tag = PlcTag::new("Speed", "Speed", "ns=2;s=speed", "Variable", "Speed");
    tag.access_level = access_level;
    tag
}

#[test]
fn unread_access_level_assumes_readable_and_writable() {
    let tag = tag_with_access_level(None);
    assert!(tag.is_readable());
    assert!(tag.is_writable());
    assert!(!tag.has_history());
}

#[test]
fn access_level_bits_are_interpreted() {
    let read_only = tag_with_access_level(Some(0x01));
    assert!(read_only.is_readable());
    assert!(!read_only.is_writable());

    let read_write = tag_with_access_level(Some(0x01 | 0x02));
    assert!(read_write.is_readable());
    assert!(read_write.is_writable());

    let with_history = tag_with_access_level(Some(0x04));
    assert!(with_history.has_history());
}

#[test]
fn value_rank_determines_is_array() {
    let mut scalar = PlcTag::new("S", "S", "ns=2;s=s", "Variable", "S");
    scalar.value_rank = Some(-1);
    assert!(!scalar.is_array());

    let mut array = PlcTag::new("A", "A", "ns=2;s=a", "Variable", "A");
    array.value_rank = Some(1);
    assert!(array.is_array());
}

#[test]
fn reference_type_determines_is_property() {
    let mut plain = PlcTag::new("S", "S", "ns=2;s=s", "Variable", "S");
    assert!(!plain.is_property());

    // i=46 is HasProperty.
    plain.reference_type = Some("i=46".to_string());
    assert!(plain.is_property());
}

#[test]
fn new_tag_has_no_attributes_and_clones_equal() {
    let tag = PlcTag::new("Speed", "SpeedBrowse", "ns=2;s=x", "Variable", "M/Speed");
    assert_eq!(tag.browse_name, "SpeedBrowse");
    assert_eq!(tag.node_class, "Variable");
    assert!(tag.data_type.is_none() && tag.min_sampling_interval_bits.is_none());
    let copy = tag.clone();
    assert_eq!(copy.path, "M/Speed");
    assert!(!copy.is_array() && !copy.has_history());
}

#[test]
fn only_has_property_itself_marks_a_property() {
    let mut tag = PlcTag::new("S", "S", "ns=2;s=s", "Variable", "S");
    tag.reference_type = Some("i=461".to_string());
    assert!(!tag.is_property());
    tag.reference_type = Some("i=47".to_string());
    assert!(!tag.is_property());
}
