//! Reading and writing through a `TagClient` over a scripted session.

use opcua_tag_browser::{
    read_outcome, write_outcome, DataValue, Error, PlcTag, StatusCode, TagClient, TagSession, TagSet, WriteRequest,
};
use std::cell::RefCell;
use std::rc::Rc;
use std::sync::Arc;

type WriteLog = Rc<RefCell<Vec<Vec<(String, i64)>>>>;
type ReadLog = Rc<RefCell<Vec<Vec<String>>>>;

/// Records what it is asked to read and write and answers from scripts.
struct FakeSession {
    writes: WriteLog,
    reads: ReadLog,
    write_answer: Result<Vec<StatusCode>, StatusCode>,
    read_answer: Result<Vec<Option<i64>>, StatusCode>,
}

impl TagSession for FakeSession {
    type Value = i64;

    fn read_values(&self, node_ids: &[String]) -> Result<Vec<DataValue<i64>>, StatusCode> {
        self.reads.borrow_mut().push(node_ids.to_vec());
        self.read_answer
            .clone()
            .map(|values| values.into_iter().map(|value| DataValue { value, status: None }).collect())
    }

    fn write_values(&self, writes: Vec<WriteRequest<i64>>) -> Result<Vec<StatusCode>, StatusCode> {
        self.writes.borrow_mut().push(writes.into_iter().map(|w| (w.node_id, w.value)).collect());
        self.write_answer.clone()
    }

    fn is_connected(&self) -> bool {
        true
    }

    fn format_value(value: &i64) -> String {
        value.to_string()
    }
}

fn tags() -> Arc<TagSet> {
    let mut read_only = PlcTag::new("Count", "Count", "ns=2;s=count", "Variable", "Line/Count");
    read_only.access_level = Some(0x01);
    Arc::new(TagSet::new(vec![
        PlcTag::new("Speed", "Speed", "ns=2;s=speed", "Variable", "Line/Speed"),
        read_only,
    ]))
}

fn scripted_client(
    write_answer: Result<Vec<StatusCode>, StatusCode>,
    read_answer: Result<Vec<Option<i64>>, StatusCode>,
) -> (TagClient<FakeSession>, WriteLog, ReadLog) {
    let writes: WriteLog = Rc::new(RefCell::new(Vec::new()));
    let reads: ReadLog = Rc::new(RefCell::new(Vec::new()));
    let session = FakeSession { writes: writes.clone(), reads: reads.clone(), write_answer, read_answer };
    (TagClient::new(session, tags()), writes, reads)
}

#[test]
fn set_writes_the_resolved_node() {
    let (client, writes, _) = scripted_client(Ok(vec![StatusCode::good()]), Ok(vec![]));
    assert!(client.set("Line/Speed", 42).is_ok());
    assert!(client.set("Speed", 43).is_ok());
    assert!(client.set("ns=4;i=17", 44).is_ok());
    assert_eq!(
        *writes.borrow(),
        vec![
            vec![("ns=2;s=speed".to_string(), 42)],
            vec![("ns=2;s=speed".to_string(), 43)],
            vec![("ns=4;i=17".to_string(), 44)],
        ]
    );
}

#[test]
fn read_only_and_unknown_tags_are_refused_before_sending() {
    let (client, writes, _) = scripted_client(Ok(vec![StatusCode::good()]), Ok(vec![]));
    assert!(matches!(client.set("Line/Count", 1), Err(Error::NotWritable { path }) if path == "Line/Count"));
    assert!(matches!(client.set("No/Such/Tag", 1), Err(Error::UnknownTag { path }) if path == "No/Such/Tag"));
    assert!(matches!(client.set_node("not a node id", 1), Err(Error::BadNodeId { node_id }) if node_id == "not a node id"));
    assert!(writes.borrow().is_empty());
}

#[test]
fn a_bad_item_status_fails_the_write() {
    let bad = StatusCode::new(0x803B_0000);
    let (client, _, _) = scripted_client(Ok(vec![bad]), Ok(vec![]));
    assert!(matches!(client.set("Speed", 1), Err(Error::Write { node_id, status }) if node_id == "ns=2;s=speed" && status == bad));
    let (client, _, _) = scripted_client(Ok(vec![]), Ok(vec![]));
    assert!(matches!(
        client.set("Speed", 1),
        Err(Error::Write { status, .. }) if status == StatusCode::bad_unexpected_error()
    ));
    let (client, _, _) = scripted_client(Err(bad), Ok(vec![]));
    assert!(matches!(client.set_node("ns=2;s=speed", 1), Err(Error::Write { status, .. }) if status == bad));
}

#[test]
fn set_many_sends_one_call_or_fails_on_the_first_bad_path() {
    let good = StatusCode::good();
    let (client, writes, _) = scripted_client(Ok(vec![good, good]), Ok(vec![]));
    assert_eq!(client.set_many(&[("Speed", 1), ("ns=2;s=count", 2)]).unwrap(), vec![good, good]);
    assert_eq!(writes.borrow().len(), 1);
    assert_eq!(writes.borrow()[0], vec![("ns=2;s=speed".to_string(), 1), ("ns=2;s=count".to_string(), 2)]);
    assert!(matches!(client.set_many(&[("Speed", 1), ("Nope", 2)]), Err(Error::UnknownTag { path }) if path == "Nope"));
    assert_eq!(writes.borrow().len(), 1);

    let bad = StatusCode::new(0x800D_0000);
    let (client, _, _) = scripted_client(Err(bad), Ok(vec![]));
    assert!(matches!(client.set_many(&[("Speed", 1)]), Err(Error::Write { node_id, status }) if node_id == "Speed" && status == bad));
}

#[test]
fn get_reads_and_renders_the_value() {
    let (client, _, reads) = scripted_client(Ok(vec![]), Ok(vec![Some(7)]));
    assert_eq!(client.get("Line/Speed").unwrap(), "7");
    assert_eq!(client.get_variant("Count").unwrap(), 7);
    assert_eq!(*reads.borrow(), vec![vec!["ns=2;s=speed".to_string()], vec!["ns=2;s=count".to_string()]]);

    let (client, _, _) = scripted_client(Ok(vec![]), Ok(vec![None]));
    assert!(matches!(
        client.get("Speed"),
        Err(Error::Read { status, .. }) if status == StatusCode::bad_no_data()
    ));
    let (client, _, _) = scripted_client(Ok(vec![]), Err(StatusCode::bad_unexpected_error()));
    assert!(matches!(client.get_variant("Speed"), Err(Error::Read { node_id, .. }) if node_id == "ns=2;s=speed"));
    assert!(matches!(client.get("Missing"), Err(Error::UnknownTag { .. })));
}

#[test]
fn outcomes_from_raw_answers() {
    assert!(write_outcome("n", Ok(vec![StatusCode::good()])).is_ok());
    assert!(matches!(write_outcome("n", Ok(vec![])), Err(Error::Write { node_id, .. }) if node_id == "n"));
    let answer: Result<Vec<DataValue<i64>>, StatusCode> = Ok(vec![DataValue { value: Some(3), status: None }]);
    assert_eq!(read_outcome("n", answer).unwrap(), 3);
    let empty: Result<Vec<DataValue<i64>>, StatusCode> = Ok(vec![]);
    assert!(matches!(read_outcome("n", empty), Err(Error::Read { status, .. }) if status == StatusCode::bad_no_data()));
}

#[test]
fn client_exposes_its_tags() {
    let (client, _, _) = scripted_client(Ok(vec![]), Ok(vec![]));
    assert_eq!(client.tags().len(), 2);
    assert!(client.is_connected());
}
