//! Filling in the attributes of `Variable` tags over a scripted session.

use opcua_tag_browser::{
    apply_attributes, fill_variable_attributes, usable_value, variable_indices, AttributeReads, AttributeSession,
    DataValue, PlcTag, StatusCode,
};
use std::cell::RefCell;
use std::rc::Rc;

type Log = Rc<RefCell<Vec<Vec<String>>>>;

/// Answers each read with five integer values per node, all from `answer`.
struct FakeAttributes {
    log: Log,
    fail: bool,
    short_by: usize,
}

impl AttributeSession for FakeAttributes {
    type Value = i64;

    fn read_attributes(&self, node_ids: &[String]) -> Result<Vec<DataValue<i64>>, StatusCode> {
        self.log.borrow_mut().push(node_ids.to_vec());
        if self.fail {
            return Err(StatusCode::bad_unexpected_error());
        }
        let mut values = Vec::new();
        for _ in node_ids {
            values.push(DataValue { value: Some(11), status: None });
            values.push(DataValue { value: Some(-1), status: None });
            values.push(DataValue { value: Some(3), status: None });
            values.push(DataValue { value: Some(100), status: Some(StatusCode::bad_no_data()) });
            values.push(DataValue { value: Some(1), status: None });
        }
        values.truncate(values.len() - self.short_by);
        Ok(values)
    }

    fn interpret(
        data_type: Option<&i64>,
        value_rank: Option<&i64>,
        access_level: Option<&i64>,
        min_sampling_interval: Option<&i64>,
        historizing: Option<&i64>,
    ) -> AttributeReads {
        AttributeReads {
            data_type: data_type.map(|v| format!("i={v}")),
            value_rank: value_rank.copied(),
            access_level: access_level.copied(),
            min_sampling_interval_bits: min_sampling_interval.map(|v| (*v as f64).to_bits()),
            historizing: historizing.map(|v| *v != 0),
        }
    }
}

fn tags() -> Vec<PlcTag> {
    vec![
        PlcTag::new("Machine", "Machine", "ns=2;s=m", "Object", "Machine"),
        PlcTag::new("Speed", "Speed", "ns=2;s=speed", "Variable", "Machine/Speed"),
        PlcTag::new("Broken", "Broken", "not a node id", "Variable", "Machine/Broken"),
        PlcTag::new("Temp", "Temp", "ns=2;s=temp", "Variable", "Machine/Temp"),
    ]
}

#[test]
fn variable_tags_get_their_attributes() {
    let log: Log = Rc::new(RefCell::new(Vec::new()));
    let session = FakeAttributes { log: log.clone(), fail: false, short_by: 0 };
    let mut tags = tags();
    fill_variable_attributes(&session, &mut tags);
    assert_eq!(*log.borrow(), vec![vec!["ns=2;s=speed".to_string(), "ns=2;s=temp".to_string()]]);
    let speed = &tags[1];
    assert_eq!(speed.data_type.as_deref(), Some("i=11"));
    assert_eq!(speed.value_rank, Some(-1));
    assert_eq!(speed.access_level, Some(3));
    assert_eq!(speed.min_sampling_interval_bits, None);
    assert_eq!(speed.historizing, Some(true));
    assert!(tags[0].data_type.is_none());
    assert!(tags[2].data_type.is_none());
    assert_eq!(tags[3].access_level, Some(3));
}

#[test]
fn a_failed_or_short_read_leaves_tags_as_they_were() {
    let log: Log = Rc::new(RefCell::new(Vec::new()));
    let mut failed = tags();
    fill_variable_attributes(&FakeAttributes { log: log.clone(), fail: true, short_by: 0 }, &mut failed);
    assert!(failed.iter().all(|t| t.access_level.is_none()));

    let mut short = tags();
    fill_variable_attributes(&FakeAttributes { log, fail: false, short_by: 1 }, &mut short);
    assert_eq!(short[1].access_level, Some(3));
    assert_eq!(short[3].access_level, None);
}

#[test]
fn reads_are_batched_two_hundred_nodes_at_a_time() {
    let log: Log = Rc::new(RefCell::new(Vec::new()));
    let mut many: Vec<PlcTag> = (0..450)
        .map(|i| PlcTag::new("V", "V", &format!("ns=2;i={i}"), "Variable", &format!("V{i}")))
        .collect();
    fill_variable_attributes(&FakeAttributes { log: log.clone(), fail: false, short_by: 0 }, &mut many);
    let sizes: Vec<usize> = log.borrow().iter().map(|b| b.len()).collect();
    assert_eq!(sizes, vec![200, 200, 50]);
    assert!(many.iter().all(|t| t.value_rank == Some(-1)));
}

#[test]
fn helpers() {
    assert_eq!(variable_indices(&tags()), vec![1, 2, 3]);
    let good: DataValue<i64> = DataValue { value: Some(5), status: None };
    assert_eq!(usable_value(&good), Some(&5));
    let uncertain: DataValue<i64> = DataValue { value: Some(5), status: Some(StatusCode::new(0x4000_0000)) };
    assert_eq!(usable_value(&uncertain), None);
    let mut tag = tags().remove(1);
    apply_attributes(
        &mut tag,
        AttributeReads {
            data_type: None,
            value_rank: Some(0x1_0000_0002),
            access_level: Some(0x103),
            min_sampling_interval_bits: Some(7),
            historizing: Some(false),
        },
    );
    assert_eq!(tag.value_rank, Some(2));
    assert_eq!(tag.access_level, Some(3));
    assert_eq!(tag.min_sampling_interval_bits, Some(7));
    assert_eq!(tag.path, "Machine/Speed");
}
