//! Reading and writing individual tag values on demand.

use vstd::prelude::*;
use std::str::FromStr;
use std::sync::Arc;
use crate::error::{Error, StatusCode};
use crate::tag::{law_writable_is_the_current_write_bit, PlcTag};
use crate::tagset::{find_index, TagSet};
use crate::text::owned;

verus! {

/// Whether `text` parses as an OPC UA node identifier
/// (`ns=<namespace>;<i|s|g|b>=<value>`, the namespace part optional).
pub uninterp spec fn parses_as_node_id(text: Seq<char>) -> bool;

/// Whether `opcua`'s `NodeId::from_str` accepts `text`.
///
/// The parse is a pure function of the text, so its outcome is named by
/// [`parses_as_node_id`].
#[verifier::external_body]
pub(crate) fn node_id_parses(text: &str) -> (r: bool)
    ensures
        r == parses_as_node_id(text@),
{
    opcua::types::NodeId::from_str(text).is_ok()
}

/// A value as a read returned it, with the status the server attached.
pub struct DataValue<V> {
    /// The value, when the server sent one.
    pub value: Option<V>,
    /// The status; `None` means good.
    pub status: Option<StatusCode>,
}

/// A request to write `value` to the `Value` attribute of a node.
pub struct WriteRequest<V> {
    /// The node, in OPC UA string form.
    pub node_id: String,
    /// The value to write.
    pub value: V,
}

/// The value reads and writes a [`TagClient`] makes.
///
/// Implemented over a live session by the application. Each call's reply is
/// one the session may give to exactly the request sent; unless an
/// implementation says more, any reply, and any rendering of a value, may come.
pub trait TagSession {
    /// A value as the session carries it.
    type Value;

    /// `reply` is an answer this session may give to a read of `node_ids`.
    open spec fn may_read(&self, node_ids: Seq<Seq<char>>, reply: Result<Vec<DataValue<Self::Value>>, StatusCode>) -> bool {
        true
    }

    /// `reply` is an answer this session may give to writing each value to
    /// its node, in order.
    open spec fn may_write(&self, writes: Seq<(Seq<char>, Self::Value)>, reply: Result<Vec<StatusCode>, StatusCode>) -> bool {
        true
    }

    /// Reads the `Value` attribute of each node, without timestamps and
    /// without accepting cached values.
    fn read_values(&self, node_ids: &[String]) -> (r: Result<Vec<DataValue<Self::Value>>, StatusCode>)
        ensures
            self.may_read(node_ids@.map_values(|id: String| id@), r),
    ;

    /// Writes values to nodes. The returned status codes correspond one to
    /// one with `writes`; an overall `Ok` does not mean each write succeeded.
    fn write_values(&self, writes: Vec<WriteRequest<Self::Value>>) -> (r: Result<Vec<StatusCode>, StatusCode>)
        ensures
            self.may_write(write_pairs(writes@), r),
    ;

    /// `connected` is an answer this session may give when asked whether
    /// its transport is connected.
    open spec fn may_report_connected(&self, connected: bool) -> bool {
        true
    }

    /// `text` is a display string this session may render `value` as.
    open spec fn may_render(value: &Self::Value, text: Seq<char>) -> bool {
        true
    }

    /// Reports whether the transport is currently connected.
    fn is_connected(&self) -> (r: bool)
        ensures
            self.may_report_connected(r),
    ;

    /// Renders a value as a display string.
    fn format_value(value: &Self::Value) -> (r: String)
        ensures
            Self::may_render(value, r@),
    ;
}

/// The node and value of each write request, in order.
pub open spec fn write_pairs<V>(writes: Seq<WriteRequest<V>>) -> Seq<(Seq<char>, V)> {
    writes.map_values(|w: WriteRequest<V>| (w.node_id@, w.value))
}

/// Where a path, display name or node ID leads: the node ID of the tag it
/// finds, else the text itself when it is a node ID, else nowhere.
pub open spec fn resolution(tags: Seq<PlcTag>, path: Seq<char>) -> Option<Seq<char>> {
    let found = find_index(tags, path);
    if found >= 0 {
        Some(tags[found].node_id@)
    } else if parses_as_node_id(path) {
        Some(path)
    } else {
        None
    }
}

/// What a write returned, as the outcome of writing one node.
pub open spec fn write_outcome_spec(node_id: Seq<char>, result: Result<Vec<StatusCode>, StatusCode>, r: Result<(), Error>) -> bool {
    match result {
        Err(status) => r matches Err(Error::Write { node_id: n, status: s }) && n@ == node_id && s == status,
        Ok(statuses) => if statuses@.len() == 0 {
            r matches Err(Error::Write { node_id: n, status: s }) && n@ == node_id && s.bits == 0x8001_0000
        } else if statuses@[0].spec_good() {
            r is Ok
        } else {
            r matches Err(Error::Write { node_id: n, status: s }) && n@ == node_id && s == statuses@[0]
        },
    }
}

/// What a read returned, as the value of one node.
pub open spec fn read_outcome_spec<V>(node_id: Seq<char>, result: Result<Vec<DataValue<V>>, StatusCode>, r: Result<V, Error>) -> bool {
    match result {
        Err(status) => r matches Err(Error::Read { node_id: n, status: s }) && n@ == node_id && s == status,
        Ok(values) => if values@.len() > 0 && values@[0].value is Some {
            r == Ok::<V, Error>(values@[0].value->0)
        } else {
            r matches Err(Error::Read { node_id: n, status: s }) && n@ == node_id && s.bits == 0x809B_0000
        },
    }
}

/// What writing `value` to one node through `session` gives: `BadNodeId`
/// for text that is no node ID, else the outcome of a reply the session may
/// give to writing exactly that value to exactly that node.
pub open spec fn write_node_spec<S: TagSession>(session: S, node_id: Seq<char>, value: S::Value, r: Result<(), Error>) -> bool {
    if parses_as_node_id(node_id) {
        exists|reply: Result<Vec<StatusCode>, StatusCode>|
            session.may_write(seq![(node_id, value)], reply) && write_outcome_spec(node_id, reply, r)
    } else {
        r matches Err(Error::BadNodeId { node_id: n }) && n@ == node_id
    }
}

/// What reading one node through `session` gives: `BadNodeId` for text that
/// is no node ID, else the outcome of a reply the session may give to a read
/// of exactly that node.
pub open spec fn read_node_spec<S: TagSession>(session: S, node_id: Seq<char>, r: Result<S::Value, Error>) -> bool {
    if parses_as_node_id(node_id) {
        exists|reply: Result<Vec<DataValue<S::Value>>, StatusCode>|
            session.may_read(seq![node_id], reply) && read_outcome_spec(node_id, reply, r)
    } else {
        r matches Err(Error::BadNodeId { node_id: n }) && n@ == node_id
    }
}

/// What writing `value` by `path` gives: `NotWritable` for a tag found
/// whose `AccessLevel` says read-only, `UnknownTag` for a path that leads
/// nowhere, else what writing the node it leads to gives.
pub open spec fn set_result<S: TagSession>(
    session: S,
    tags: Seq<PlcTag>,
    path: Seq<char>,
    value: S::Value,
    r: Result<(), Error>,
) -> bool {
    let found = find_index(tags, path);
    if found >= 0 && !tags[found].spec_writable() {
        r matches Err(Error::NotWritable { path: p }) && p@ == path
    } else {
        match resolution(tags, path) {
            None => r matches Err(Error::UnknownTag { path: p }) && p@ == path,
            Some(id) => write_node_spec(session, id, value, r),
        }
    }
}

/// A path the client can send a write for: it leads to a node ID that parses.
pub open spec fn sendable(tags: Seq<PlcTag>, path: Seq<char>) -> bool {
    resolution(tags, path) matches Some(id) && parses_as_node_id(id)
}

/// Why the path at a batch position cannot be sent: `UnknownTag` when it
/// leads nowhere, `BadNodeId` when it leads to text that is no node ID.
pub open spec fn unsendable_error(tags: Seq<PlcTag>, path: Seq<char>, e: Error) -> bool {
    match resolution(tags, path) {
        None => e matches Error::UnknownTag { path: p } && p@ == path,
        Some(id) => e matches Error::BadNodeId { node_id: n } && n@ == id,
    }
}

/// The outcome of writing one node, from what the write returned.
///
/// An overall `Ok` does not mean the individual write succeeded: the first
/// status decides, and a missing one is `BadUnexpectedError`.
pub fn write_outcome(node_id: &str, result: Result<Vec<StatusCode>, StatusCode>) -> (r: Result<(), Error>)
    ensures
        write_outcome_spec(node_id@, result, r),
{
    match result {
        Err(status) => Err(Error::Write { node_id: owned(node_id), status }),
        Ok(statuses) => {
            if statuses.len() == 0 {
                Err(Error::Write { node_id: owned(node_id), status: StatusCode::bad_unexpected_error() })
            } else if statuses[0].is_good() {
                Ok(())
            } else {
                Err(Error::Write { node_id: owned(node_id), status: statuses[0] })
            }
        },
    }
}

/// The value of one node, from what the read returned; no value is `BadNoData`.
pub fn read_outcome<V>(node_id: &str, result: Result<Vec<DataValue<V>>, StatusCode>) -> (r: Result<V, Error>)
    ensures
        read_outcome_spec(node_id@, result, r),
{
    match result {
        Err(status) => Err(Error::Read { node_id: owned(node_id), status }),
        Ok(mut values) => {
            if values.len() > 0 {
                let first = values.swap_remove(0);
                match first.value {
                    Some(v) => Ok(v),
                    None => Err(Error::Read { node_id: owned(node_id), status: StatusCode::bad_no_data() }),
                }
            } else {
                Err(Error::Read { node_id: owned(node_id), status: StatusCode::bad_no_data() })
            }
        },
    }
}

/// Reads and writes individual tag values on demand.
///
/// Addresses tags by browse path or display name through the [`TagSet`] it
/// was built with, or nodes the scan filtered out by raw node ID.
pub struct TagClient<S: TagSession> {
    session: S,
    tags: Arc<TagSet>,
}

impl<S: TagSession> TagClient<S> {
    /// The tags this client addresses.
    pub closed spec fn spec_tags(&self) -> Seq<PlcTag> {
        self.tags@
    }

    /// The session this client reads and writes through.
    pub closed spec fn spec_session(&self) -> S {
        self.session
    }

    /// Creates a client over a session and the tags it can address.
    pub fn new(session: S, tags: Arc<TagSet>) -> (r: Self)
        ensures
            r.spec_tags() == tags@,
            r.spec_session() == session,
    {
        TagClient { session, tags }
    }

    /// Turns a browse path, display name, or node ID into a node ID.
    fn resolve(&self, path: &str) -> (r: Result<String, Error>)
        ensures
            match resolution(self.spec_tags(), path@) {
                Some(id) => r is Ok && r->Ok_0@ == id,
                None => r matches Err(Error::UnknownTag { path: p }) && p@ == path@,
            },
    {
        if let Some(tag) = self.tags.find(path) {
            return Ok(tag.node_id.clone());
        }
        // Fall back to treating the input as a node ID directly, so callers can
        // address nodes that were filtered out of the scan.
        if node_id_parses(path) {
            return Ok(owned(path));
        }
        Err(Error::UnknownTag { path: owned(path) })
    }

    /// Writes one value, addressing the tag by browse path or display name.
    ///
    /// A tag whose `AccessLevel` marks it read-only is refused with
    /// [`Error::NotWritable`] before anything is sent; a path that leads
    /// nowhere with [`Error::UnknownTag`].
    pub fn set(&self, path: &str, value: S::Value) -> (r: Result<(), Error>)
        ensures
            set_result(self.spec_session(), self.spec_tags(), path@, value, r),
    {
        if let Some(tag) = self.tags.find(path) {
            if !tag.is_writable() {
                return Err(Error::NotWritable { path: owned(path) });
            }
        }
        let node_id = self.resolve(path)?;
        self.set_node(node_id.as_str(), value)
    }

    /// Writes one value by raw node ID.
    ///
    /// A node ID that does not parse is refused with [`Error::BadNodeId`]
    /// before anything is sent; otherwise [`write_outcome`] decides.
    pub fn set_node(&self, node_id: &str, value: S::Value) -> (r: Result<(), Error>)
        ensures
            write_node_spec(self.spec_session(), node_id@, value, r),
    {
        if !node_id_parses(node_id) {
            return Err(Error::BadNodeId { node_id: owned(node_id) });
        }
        let ghost sent = value;
        let mut requests: Vec<WriteRequest<S::Value>> = Vec::new();
        requests.push(WriteRequest { node_id: owned(node_id), value });
        assert(write_pairs(requests@) =~= seq![(node_id@, sent)]);
        let result = self.session.write_values(requests);
        write_outcome(node_id, result)
    }

    /// Writes several values in one service call.
    ///
    /// Returns one status per input, in order. Every path is resolved first;
    /// the first that leads nowhere fails the call before anything is sent.
    pub fn set_many(&self, values: &[(&str, S::Value)]) -> (r: Result<Vec<StatusCode>, Error>) where S::Value: Clone
        ensures
            r is Ok ==> forall|k: int| 0 <= k < values@.len() ==> #[trigger] sendable(self.spec_tags(), values@[k].0@),
            forall|k: int|
                0 <= k < values@.len() && !sendable(self.spec_tags(), #[trigger] values@[k].0@) && (forall|j: int|
                    0 <= j < k ==> sendable(self.spec_tags(), values@[j].0@)) ==> (r matches Err(e)
                    && unsendable_error(self.spec_tags(), values@[k].0@, e)),
            (forall|k: int| 0 <= k < values@.len() ==> #[trigger] sendable(self.spec_tags(), values@[k].0@)) ==> exists|
                writes: Seq<(Seq<char>, S::Value)>,
                reply: Result<Vec<StatusCode>, StatusCode>,
            |
                {
                    &&& writes.len() == values@.len()
                    &&& forall|k: int|
                        0 <= k < values@.len() ==> Some((#[trigger] writes[k]).0) == resolution(
                            self.spec_tags(),
                            values@[k].0@,
                        ) && cloned(values@[k].1, writes[k].1)
                    &&& self.spec_session().may_write(writes, reply)
                    &&& match reply {
                        Ok(statuses) => r == Ok::<Vec<StatusCode>, Error>(statuses),
                        Err(status) => r matches Err(Error::Write { node_id: n, status: s }) && s == status && n@
                            == (if values@.len() > 0 {
                            values@[0].0@
                        } else {
                            Seq::<char>::empty()
                        }),
                    }
                },
    {
        let mut requests: Vec<WriteRequest<S::Value>> = Vec::new();
        let mut i: usize = 0;
        while i < values.len()
            invariant
                i <= values@.len(),
                forall|k: int| 0 <= k < i ==> #[trigger] sendable(self.spec_tags(), values@[k].0@),
                requests@.len() == i,
                forall|k: int|
                    0 <= k < i ==> Some((#[trigger] write_pairs(requests@)[k]).0) == resolution(
                        self.spec_tags(),
                        values@[k].0@,
                    ) && cloned(values@[k].1, write_pairs(requests@)[k].1),
            decreases values.len() - i,
        {
            let node_id = match self.resolve(values[i].0) {
                Ok(id) => id,
                Err(e) => {
                    assert(!sendable(self.spec_tags(), values@[i as int].0@));
                    return Err(e);
                },
            };
            if !node_id_parses(node_id.as_str()) {
                assert(!sendable(self.spec_tags(), values@[i as int].0@));
                return Err(Error::BadNodeId { node_id });
            }
            let value = values[i].1.clone();
            assert(cloned(values@[i as int].1, value));
            let ghost before = requests@;
            requests.push(WriteRequest { node_id, value });
            assert forall|k: int| 0 <= k < i + 1 implies Some((#[trigger] write_pairs(requests@)[k]).0) == resolution(
                self.spec_tags(),
                values@[k].0@,
            ) && cloned(values@[k].1, write_pairs(requests@)[k].1) by {
                if k < i {
                    assert(requests@[k] == before[k]);
                    assert(write_pairs(before)[k] == write_pairs(requests@)[k]);
                }
            }
            i += 1;
        }
        let ghost writes = write_pairs(requests@);
        let reply = self.session.write_values(requests);
        let ghost answer = reply;
        let r = match reply {
            Ok(statuses) => Ok(statuses),
            Err(status) => {
                let first = if values.len() > 0 { owned(values[0].0) } else { String::new() };
                Err(Error::Write { node_id: first, status })
            },
        };
        assert(writes.len() == values@.len());
        assert(self.spec_session().may_write(writes, answer));
        r
    }

    /// Reads one value as a display string.
    ///
    /// Fails as [`get_variant`](Self::get_variant) does; a value it reads is
    /// returned as the session renders it.
    pub fn get(&self, path: &str) -> (r: Result<String, Error>)
        ensures
            match resolution(self.spec_tags(), path@) {
                None => r matches Err(Error::UnknownTag { path: p }) && p@ == path@,
                Some(id) => exists|read: Result<S::Value, Error>|
                    #![trigger read_node_spec(self.spec_session(), id, read)]
                    read_node_spec(self.spec_session(), id, read) && match read {
                        Ok(v) => r matches Ok(text) && S::may_render(&v, text@),
                        Err(e) => r == Err::<String, Error>(e),
                    },
            },
    {
        let value = match self.get_variant(path) {
            Ok(v) => v,
            Err(e) => {
                return Err(e);
            },
        };
        Ok(S::format_value(&value))
    }

    /// Reads one value as the session carries it.
    ///
    /// A path that leads nowhere fails with [`Error::UnknownTag`] before
    /// anything is sent; otherwise [`read_outcome`] decides.
    pub fn get_variant(&self, path: &str) -> (r: Result<S::Value, Error>)
        ensures
            match resolution(self.spec_tags(), path@) {
                None => r matches Err(Error::UnknownTag { path: p }) && p@ == path@,
                Some(id) => read_node_spec(self.spec_session(), id, r),
            },
    {
        let node_id = self.resolve(path)?;
        if !node_id_parses(node_id.as_str()) {
            return Err(Error::BadNodeId { node_id });
        }
        let mut ids: Vec<String> = Vec::new();
        ids.push(node_id.clone());
        assert(ids@.map_values(|id: String| id@) =~= seq![node_id@]);
        let result = self.session.read_values(ids.as_slice());
        read_outcome(node_id.as_str(), result)
    }

    /// The tags this client can address.
    pub fn tags(&self) -> (r: &TagSet)
        ensures
            r@ == self.spec_tags(),
    {
        &self.tags
    }

    /// Whether the underlying session is connected, as the session reports it.
    pub fn is_connected(&self) -> (r: bool)
        ensures
            self.spec_session().may_report_connected(r),
    {
        self.session.is_connected()
    }
}

/// A write by path to a tag it finds is refused as not writable exactly
/// when the tag's `AccessLevel` was read and lacks the `CurrentWrite` bit
/// (the second lowest); a tag with that bit set, or never read, is sent.
pub proof fn law_set_refuses_only_read_only_tags<S: TagSession>(
    session: S,
    tags: Seq<PlcTag>,
    path: Seq<char>,
    value: S::Value,
    r: Result<(), Error>,
)
    requires
        set_result(session, tags, path, value, r),
        find_index(tags, path) >= 0,
    ensures
        (r matches Err(Error::NotWritable { .. })) <==> (tags[find_index(tags, path)].access_level matches Some(
            a,
        ) && (a as int / 2) % 2 == 0),
        !(r matches Err(Error::NotWritable { .. })) ==> write_node_spec(session, tags[find_index(tags, path)].node_id@, value, r),
{
    let t = tags[find_index(tags, path)];
    law_writable_is_the_current_write_bit(t);
    if t.spec_writable() {
        let id = t.node_id@;
        if parses_as_node_id(id) {
            let reply = choose|reply: Result<Vec<StatusCode>, StatusCode>|
                session.may_write(seq![(id, value)], reply) && write_outcome_spec(id, reply, r);
            assert(write_outcome_spec(id, reply, r));
        }
    }
}

} // verus!
