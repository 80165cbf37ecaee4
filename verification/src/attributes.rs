//! Reading the `Variable` attributes a browse does not return: `DataType`,
//! `ValueRank`, `AccessLevel`, `MinimumSamplingInterval` and `Historizing`.

use vstd::prelude::*;
use crate::error::StatusCode;
use crate::tag::PlcTag;
use crate::writer::{node_id_parses, parses_as_node_id, DataValue};

verus! {

/// Nodes read per `Read` service call. Each contributes five values, so
/// this keeps a single request comfortably under a typical server's
/// `MaxNodesPerRead`.
pub const NODES_PER_BATCH: usize = 200;

/// The five attributes read for one node, as plain values.
pub struct AttributeReads {
    /// `DataType`, rendered as text.
    pub data_type: Option<String>,
    /// `ValueRank`, as read.
    pub value_rank: Option<i64>,
    /// `AccessLevel`, as read.
    pub access_level: Option<i64>,
    /// `MinimumSamplingInterval`, as the bit pattern of its `f64`.
    pub min_sampling_interval_bits: Option<u64>,
    /// `Historizing`.
    pub historizing: Option<bool>,
}

/// The attribute reads a [`fill_variable_attributes`] makes.
///
/// Implemented over a live session by the application. Each reply is one the
/// session may give to exactly the read made; unless an implementation says
/// more, any reply, and any interpretation of a value, may come.
pub trait AttributeSession {
    /// A value as the session carries it.
    type Value;

    /// `reply` is an answer this session may give to reading the five
    /// attributes of each of `node_ids`.
    open spec fn may_read_attributes(
        &self,
        node_ids: Seq<Seq<char>>,
        reply: Result<Vec<DataValue<Self::Value>>, StatusCode>,
    ) -> bool {
        true
    }

    /// `reads` is an interpretation of the five values given.
    open spec fn interprets(
        data_type: Option<&Self::Value>,
        value_rank: Option<&Self::Value>,
        access_level: Option<&Self::Value>,
        min_sampling_interval: Option<&Self::Value>,
        historizing: Option<&Self::Value>,
        reads: AttributeReads,
    ) -> bool {
        true
    }

    /// Reads, for each node in turn, its `DataType`, `ValueRank`,
    /// `AccessLevel`, `MinimumSamplingInterval` and `Historizing`, five
    /// values per node, without timestamps.
    fn read_attributes(&self, node_ids: &[String]) -> (r: Result<Vec<DataValue<Self::Value>>, StatusCode>)
        ensures
            self.may_read_attributes(node_ids@.map_values(|id: String| id@), r),
    ;

    /// Interprets the five values read for one node; `None` where the server
    /// reported a bad status or sent no value.
    fn interpret(
        data_type: Option<&Self::Value>,
        value_rank: Option<&Self::Value>,
        access_level: Option<&Self::Value>,
        min_sampling_interval: Option<&Self::Value>,
        historizing: Option<&Self::Value>,
    ) -> (r: AttributeReads)
        ensures
            Self::interprets(data_type, value_rank, access_level, min_sampling_interval, historizing, r),
    ;
}

/// The value of a read, unless the server reported a bad or uncertain status.
pub open spec fn usable_of<V>(data_value: &DataValue<V>) -> Option<&V> {
    match data_value.status {
        Some(s) => if !s.spec_good() {
            None
        } else {
            match data_value.value {
                Some(v) => Some(&v),
                None => None,
            }
        },
        None => match data_value.value {
            Some(v) => Some(&v),
            None => None,
        },
    }
}

/// The value of a read unless the server reported a bad or uncertain status
/// for it.
pub fn usable_value<V>(data_value: &DataValue<V>) -> (r: Option<&V>)
    ensures
        r == usable_of(data_value),
{
    if let Some(s) = &data_value.status {
        if !s.is_good() {
            return None;
        }
    }
    match &data_value.value {
        Some(v) => Some(v),
        None => None,
    }
}

/// `Variable`.
pub open spec fn variable_text() -> Seq<char> {
    seq!['V', 'a', 'r', 'i', 'a', 'b', 'l', 'e']
}

/// The positions of the tags of `tags[..n]` whose class is `Variable`, in order.
pub open spec fn variable_positions(tags: Seq<PlcTag>, n: int) -> Seq<usize>
    decreases n,
{
    if n <= 0 {
        Seq::empty()
    } else if tags[n - 1].node_class@ == variable_text() {
        variable_positions(tags, n - 1).push((n - 1) as usize)
    } else {
        variable_positions(tags, n - 1)
    }
}

/// The positions of the `Variable` tags, in order.
pub fn variable_indices(tags: &Vec<PlcTag>) -> (r: Vec<usize>)
    ensures
        r@ == variable_positions(tags@, tags@.len() as int),
{
    proof {
        reveal_strlit("Variable");
    }
    assert("Variable"@ =~= variable_text());
    let mut out: Vec<usize> = Vec::new();
    let mut i: usize = 0;
    while i < tags.len()
        invariant
            i <= tags.len(),
            "Variable"@ == variable_text(),
            out@ == variable_positions(tags@, i as int),
        decreases tags.len() - i,
    {
        if crate::text::str_eq(tags[i].node_class.as_str(), "Variable") {
            out.push(i);
        }
        i += 1;
    }
    out
}

/// `tag` with its attribute fields set from `reads`; `ValueRank` keeps the
/// low 32 bits and `AccessLevel` the low 8, as `as` conversions do.
pub open spec fn with_attributes(tag: PlcTag, reads: AttributeReads) -> PlcTag {
    PlcTag {
        data_type: reads.data_type,
        value_rank: match reads.value_rank {
            Some(v) => Some(v as i32),
            None => None,
        },
        access_level: match reads.access_level {
            Some(v) => Some(v as u8),
            None => None,
        },
        min_sampling_interval_bits: reads.min_sampling_interval_bits,
        historizing: reads.historizing,
        ..tag
    }
}

/// Fills in a tag's attribute fields from what was read for it.
pub fn apply_attributes(tag: &mut PlcTag, reads: AttributeReads)
    ensures
        *final(tag) == with_attributes(*old(tag), reads),
{
    tag.value_rank = match reads.value_rank {
        Some(v) => Some(v as i32),
        None => None,
    };
    tag.access_level = match reads.access_level {
        Some(v) => Some(v as u8),
        None => None,
    };
    tag.min_sampling_interval_bits = reads.min_sampling_interval_bits;
    tag.historizing = reads.historizing;
    tag.data_type = reads.data_type;
}

/// `after` differs from `before` at most in the attribute fields of tags
/// whose class is `Variable` and whose node ID parses.
pub open spec fn only_attributes_filled(before: Seq<PlcTag>, after: Seq<PlcTag>) -> bool {
    &&& after.len() == before.len()
    &&& forall|k: int|
        0 <= k < before.len() ==> {
            let (b, a) = (before[k], #[trigger] after[k]);
            &&& a.display_name == b.display_name
            &&& a.browse_name == b.browse_name
            &&& a.node_id == b.node_id
            &&& a.node_class == b.node_class
            &&& a.path == b.path
            &&& a.type_definition == b.type_definition
            &&& a.reference_type == b.reference_type
            &&& (b.node_class@ != variable_text() || !parses_as_node_id(b.node_id@)) ==> a == b
        }
}

/// `reads` with each field cleared whose value was unusable, so an attribute
/// is only ever filled from a value the server reported as good.
pub open spec fn masked(reads: AttributeReads, d: bool, v: bool, a: bool, m: bool, h: bool) -> AttributeReads {
    AttributeReads {
        data_type: if d { reads.data_type } else { None },
        value_rank: if v { reads.value_rank } else { None },
        access_level: if a { reads.access_level } else { None },
        min_sampling_interval_bits: if m { reads.min_sampling_interval_bits } else { None },
        historizing: if h { reads.historizing } else { None },
    }
}

/// Clears the fields of `reads` whose value was unusable.
fn mask_reads(reads: AttributeReads, d: bool, v: bool, a: bool, m: bool, h: bool) -> (r: AttributeReads)
    ensures
        r == masked(reads, d, v, a, m, h),
{
    AttributeReads {
        data_type: if d { reads.data_type } else { None },
        value_rank: if v { reads.value_rank } else { None },
        access_level: if a { reads.access_level } else { None },
        min_sampling_interval_bits: if m { reads.min_sampling_interval_bits } else { None },
        historizing: if h { reads.historizing } else { None },
    }
}

/// `after` is `before` filled from the five values `five` read for it:
/// the session's interpretation of the usable values, each field left empty
/// whose value was unusable.
pub open spec fn filled_from<S: AttributeSession>(before: PlcTag, five: Seq<DataValue<S::Value>>, after: PlcTag) -> bool {
    exists|reads: AttributeReads|
        {
            &&& #[trigger] S::interprets(
                usable_of(&five[0]),
                usable_of(&five[1]),
                usable_of(&five[2]),
                usable_of(&five[3]),
                usable_of(&five[4]),
                reads,
            )
            &&& after == with_attributes(
                before,
                masked(
                    reads,
                    usable_of(&five[0]) is Some,
                    usable_of(&five[1]) is Some,
                    usable_of(&five[2]) is Some,
                    usable_of(&five[3]) is Some,
                    usable_of(&five[4]) is Some,
                ),
            )
        }
}

/// The batch of `Variable` positions starting at `lo`: [`NODES_PER_BATCH`]
/// of them, or what is left.
pub open spec fn batch_of(vars: Seq<usize>, lo: int) -> Seq<usize> {
    vars.subrange(lo, if vars.len() - lo <= NODES_PER_BATCH { vars.len() as int } else { lo + NODES_PER_BATCH })
}

/// The positions in `idx` whose tag has a node ID that parses, in order.
pub open spec fn parsed_of(tags: Seq<PlcTag>, idx: Seq<usize>) -> Seq<usize>
    decreases idx.len(),
{
    if idx.len() == 0 {
        Seq::empty()
    } else if parses_as_node_id(tags[idx.last() as int].node_id@) {
        parsed_of(tags, idx.drop_last()).push(idx.last())
    } else {
        parsed_of(tags, idx.drop_last())
    }
}

/// The node IDs of the tags at `idx`.
pub open spec fn ids_of(tags: Seq<PlcTag>, idx: Seq<usize>) -> Seq<Seq<char>> {
    idx.map_values(|i: usize| tags[i as int].node_id@)
}

/// The five values read for the node at position `p` of a batch, when the
/// read succeeded and came back long enough.
pub open spec fn read_at<V>(reply: Result<Vec<DataValue<V>>, StatusCode>, p: int) -> Option<Seq<DataValue<V>>> {
    match reply {
        Ok(values) => if 5 * p + 5 <= values@.len() {
            Some(values@.subrange(5 * p, 5 * p + 5))
        } else {
            None
        },
        Err(_) => None,
    }
}

/// The batch at `lo` of the `Variable` positions `vars` of `before` was read
/// with `reply`, a reply the session may give to reading exactly the node IDs
/// that parse, and each such tag is filled from its five values in `after`
/// when they came back, and otherwise left as it was.
pub open spec fn batch_filled<S: AttributeSession>(
    session: S,
    before: Seq<PlcTag>,
    after: Seq<PlcTag>,
    vars: Seq<usize>,
    lo: int,
    reply: Result<Vec<DataValue<S::Value>>, StatusCode>,
) -> bool {
    let parsed = parsed_of(before, batch_of(vars, lo));
    &&& parsed.len() > 0 ==> session.may_read_attributes(ids_of(before, parsed), reply)
    &&& forall|p: int|
        0 <= p < parsed.len() ==> match read_at(reply, p) {
            Some(five) => filled_from::<S>(before[parsed[p] as int], five, after[#[trigger] parsed[p] as int]),
            None => after[parsed[p] as int] == before[parsed[p] as int],
        }
}

/// Every batch of the `Variable` tags of `before` was read with its reply in
/// `replies`, and filled from it in `after` (see [`batch_filled`]).
pub open spec fn all_batches_filled<S: AttributeSession>(
    session: S,
    before: Seq<PlcTag>,
    after: Seq<PlcTag>,
    replies: Seq<Result<Vec<DataValue<S::Value>>, StatusCode>>,
) -> bool {
    let vars = variable_positions(before, before.len() as int);
    forall|j: int|
        0 <= j && j * NODES_PER_BATCH < vars.len() ==> j < replies.len() && batch_filled(
            session,
            before,
            after,
            vars,
            j * NODES_PER_BATCH,
            #[trigger] replies[j],
        )
}

/// Reads the attributes of every `Variable` tag and fills them in,
/// [`NODES_PER_BATCH`] nodes per call.
///
/// Tags whose node ID does not parse, or whose read comes back short or
/// failed, keep their attribute fields as they were rather than failing the
/// whole scan: a handful of unreadable nodes should not block the rest.
pub fn fill_variable_attributes<S: AttributeSession>(session: &S, tags: &mut Vec<PlcTag>)
    ensures
        only_attributes_filled(old(tags)@, final(tags)@),
        exists|replies: Seq<Result<Vec<DataValue<S::Value>>, StatusCode>>|
            #[trigger] all_batches_filled(*session, old(tags)@, final(tags)@, replies),
{
    let indices = variable_indices(tags);
    let ghost initial = tags@;
    let ghost vars = indices@;
    proof {
        assert(initial.len() == tags.len());
        lemma_variable_positions(initial, initial.len() as int);
        lemma_variable_positions_increase(initial, initial.len() as int);
    }
    let ghost mut replies: Seq<Result<Vec<DataValue<S::Value>>, StatusCode>> = Seq::empty();
    let ghost mut done: int = 0;
    let mut chunk_start: usize = 0;
    while chunk_start < indices.len()
        invariant
            initial == old(tags)@,
            vars == indices@,
            vars == variable_positions(initial, initial.len() as int),
            tags@.len() == initial.len(),
            forall|k: int| 0 <= k < vars.len() ==> #[trigger] vars[k] < initial.len() && initial[vars[k] as int].node_class@
                == variable_text(),
            forall|a: int, b: int| 0 <= a < b < vars.len() ==> vars[a] < vars[b],
            only_attributes_filled(initial, tags@),
            chunk_start <= indices.len(),
            chunk_start as int <= done * NODES_PER_BATCH,
            chunk_start < indices.len() ==> chunk_start as int == done * NODES_PER_BATCH,
            replies.len() == done,
            forall|j: int|
                0 <= j < done ==> batch_filled(*session, initial, tags@, vars, j * NODES_PER_BATCH, #[trigger] replies[j]),
            forall|k: int|
                0 <= k < initial.len() && chunk_start < vars.len() && vars[chunk_start as int] <= k ==> tags@[k]
                    == initial[k],
            forall|j: int, p: int|
                0 <= j < done && 0 <= p < parsed_of(initial, batch_of(vars, j * NODES_PER_BATCH)).len() ==> (
                chunk_start < vars.len() ==> #[trigger] parsed_of(initial, batch_of(vars, j * NODES_PER_BATCH))[p]
                    < vars[chunk_start as int]),
        decreases indices.len() - chunk_start,
    {
        let chunk_end = if indices.len() - chunk_start <= NODES_PER_BATCH {
            indices.len()
        } else {
            chunk_start + NODES_PER_BATCH
        };
        let ghost start_tags = tags@;
        let ghost batch = vars.subrange(chunk_start as int, chunk_end as int);
        assert(batch == batch_of(vars, chunk_start as int));
        let mut node_ids: Vec<String> = Vec::new();
        let mut parsed: Vec<usize> = Vec::new();
        let mut j: usize = chunk_start;
        while j < chunk_end
            invariant
                chunk_start <= j <= chunk_end <= indices.len(),
                vars == indices@,
                tags@ == start_tags,
                tags@.len() == initial.len(),
                only_attributes_filled(initial, tags@),
                forall|k: int| 0 <= k < vars.len() ==> #[trigger] vars[k] < initial.len(),
                parsed@ == parsed_of(initial, vars.subrange(chunk_start as int, j as int)),
                node_ids@.map_values(|id: String| id@) == ids_of(initial, parsed@),
            decreases chunk_end - j,
        {
            let index = indices[j];
            assert(vars[j as int] < initial.len());
            assert(tags@[index as int].node_id == initial[index as int].node_id);
            let ghost sub = vars.subrange(chunk_start as int, j + 1);
            assert(sub.drop_last() =~= vars.subrange(chunk_start as int, j as int));
            assert(sub.last() == index);
            if node_id_parses(tags[index].node_id.as_str()) {
                let ghost before_ids = node_ids@;
                let ghost before_parsed = parsed@;
                let id = tags[index].node_id.clone();
                assert(id@ == initial[index as int].node_id@);
                node_ids.push(id);
                parsed.push(index);
                assert(node_ids@.map_values(|id: String| id@) =~= before_ids.map_values(|id: String| id@).push(
                    initial[index as int].node_id@,
                ));
                assert(ids_of(initial, parsed@) =~= ids_of(initial, before_parsed).push(initial[index as int].node_id@));
            }
            j += 1;
        }
        proof {
            lemma_parsed_within(initial, batch, if chunk_start < vars.len() { vars[chunk_start as int] as int } else { 0 }, if chunk_end < vars.len() { vars[chunk_end as int] as int } else { initial.len() as int });
        }
        let ghost mut reply: Result<Vec<DataValue<S::Value>>, StatusCode> = Err(StatusCode { bits: 0 });
        if node_ids.len() > 0 {
            let answer = session.read_attributes(node_ids.as_slice());
            proof {
                reply = answer;
            }
            if let Ok(values) = answer {
                let mut position: usize = 0;
                while position < parsed.len()
                    invariant
                        position <= parsed.len(),
                        parsed.len() <= NODES_PER_BATCH,
                        parsed@ == parsed_of(initial, batch),
                        reply == Ok::<Vec<DataValue<S::Value>>, StatusCode>(values),
                        tags@.len() == initial.len(),
                        only_attributes_filled(initial, tags@),
                        forall|p: int| 0 <= p < parsed@.len() ==> #[trigger] parsed@[p] < initial.len()
                            && initial[parsed@[p] as int].node_class@ == variable_text()
                            && parses_as_node_id(initial[parsed@[p] as int].node_id@),
                        forall|a: int, b: int| 0 <= a < b < parsed@.len() ==> parsed@[a] < parsed@[b],
                        forall|k: int|
                            0 <= k < initial.len() && !(exists|p: int| 0 <= p < position && parsed@[p] == k)
                                ==> tags@[k] == start_tags[k],
                        forall|p: int| position <= p < parsed@.len() ==> start_tags[#[trigger] parsed@[p] as int] == initial[parsed@[p] as int],
                        forall|p: int|
                            0 <= p < position ==> match read_at(reply, p) {
                                Some(five) => filled_from::<S>(
                                    initial[parsed@[p] as int],
                                    five,
                                    tags@[#[trigger] parsed@[p] as int],
                                ),
                                None => tags@[parsed@[p] as int] == initial[parsed@[p] as int],
                            },
                    decreases parsed.len() - position,
                {
                    let index = parsed[position];
                    let base = position * 5;
                    let ghost before = tags@;
                    if base + 5 <= values.len() {
                        let u0 = usable_value(&values[base]);
                        let u1 = usable_value(&values[base + 1]);
                        let u2 = usable_value(&values[base + 2]);
                        let u3 = usable_value(&values[base + 3]);
                        let u4 = usable_value(&values[base + 4]);
                        let interpreted = S::interpret(u0, u1, u2, u3, u4);
                        let reads = mask_reads(
                            interpreted,
                            u0.is_some(),
                            u1.is_some(),
                            u2.is_some(),
                            u3.is_some(),
                            u4.is_some(),
                        );
                        let mut tag = tags[index].clone();
                        apply_attributes(&mut tag, reads);
                        tags.set(index, tag);
                        proof {
                            let five = values@.subrange(base as int, base + 5);
                            assert(read_at(reply, position as int) == Some(five));
                            assert(five[0] == values@[base as int]);
                            assert(five[1] == values@[base + 1]);
                            assert(five[2] == values@[base + 2]);
                            assert(five[3] == values@[base + 3]);
                            assert(five[4] == values@[base + 4]);
                            assert(before[index as int] == initial[index as int]);
                            assert(S::interprets(
                                usable_of(&five[0]),
                                usable_of(&five[1]),
                                usable_of(&five[2]),
                                usable_of(&five[3]),
                                usable_of(&five[4]),
                                interpreted,
                            ));
                            assert(filled_from::<S>(initial[index as int], five, tags@[index as int]));
                        }
                    } else {
                        proof {
                            assert(read_at(reply, position as int) is None);
                            assert(tags@[index as int] == initial[index as int]);
                        }
                    }
                    proof {
                        assert forall|k: int|
                            0 <= k < initial.len() && !(exists|p: int| 0 <= p < position + 1 && parsed@[p] == k)
                                implies tags@[k] == start_tags[k] by {
                            assert(!(exists|p: int| 0 <= p < position && parsed@[p] == k));
                            if k != index {
                                assert(tags@[k] == before[k]);
                            }
                        }
                        assert forall|p: int| 0 <= p < position + 1 implies match read_at(reply, p) {
                            Some(five) => filled_from::<S>(
                                initial[parsed@[p] as int],
                                five,
                                tags@[#[trigger] parsed@[p] as int],
                            ),
                            None => tags@[parsed@[p] as int] == initial[parsed@[p] as int],
                        } by {
                            if p < position {
                                assert(parsed@[p] < parsed@[position as int]);
                                assert(tags@[parsed@[p] as int] == before[parsed@[p] as int]);
                            }
                        }
                        assert forall|k: int| 0 <= k < initial.len() implies ({
                            let (b, a) = (initial[k], #[trigger] tags@[k]);
                            &&& a.display_name == b.display_name
                            &&& a.browse_name == b.browse_name
                            &&& a.node_id == b.node_id
                            &&& a.node_class == b.node_class
                            &&& a.path == b.path
                            &&& a.type_definition == b.type_definition
                            &&& a.reference_type == b.reference_type
                            &&& (b.node_class@ != variable_text() || !parses_as_node_id(b.node_id@)) ==> a == b
                        }) by {
                            if k != index {
                                assert(tags@[k] == before[k]);
                            }
                        }
                    }
                    position += 1;
                }
                proof {
                    assert forall|p: int| 0 <= p < parsed@.len() implies match read_at(reply, p) {
                        Some(five) => filled_from::<S>(initial[parsed@[p] as int], five, tags@[#[trigger] parsed@[p] as int]),
                        None => tags@[parsed@[p] as int] == initial[parsed@[p] as int],
                    } by {}
                }
            }
        }
        proof {
            let lo = if chunk_start < vars.len() { vars[chunk_start as int] as int } else { 0 };
            let hi = if chunk_end < vars.len() { vars[chunk_end as int] as int } else { initial.len() as int };
            let pb = parsed_of(initial, batch);
            // The tags this batch filled lie in [lo, hi); nothing else moved.
            assert forall|k: int| 0 <= k < initial.len() && !(lo <= k < hi) implies tags@[k] == start_tags[k] by {
                if node_ids.len() > 0 {
                    if reply is Ok {
                        assert(!(exists|p: int| 0 <= p < pb.len() && pb[p] == k));
                    }
                }
            }
            assert(batch_filled(*session, initial, tags@, vars, chunk_start as int, reply)) by {
                if pb.len() > 0 {
                    assert(node_ids@.map_values(|id: String| id@) =~= ids_of(initial, pb));
                }
                if !(node_ids.len() > 0 && reply is Ok) {
                    assert forall|p: int| 0 <= p < pb.len() implies match read_at(reply, p) {
                        Some(five) => filled_from::<S>(initial[pb[p] as int], five, tags@[#[trigger] pb[p] as int]),
                        None => tags@[pb[p] as int] == initial[pb[p] as int],
                    } by {
                        assert(tags@ == start_tags);
                    }
                }
            }
            assert forall|jj: int| 0 <= jj < done implies batch_filled(
                *session,
                initial,
                tags@,
                vars,
                jj * NODES_PER_BATCH,
                #[trigger] replies[jj],
            ) by {
                lemma_batch_filled_frame(*session, initial, start_tags, tags@, vars, jj * NODES_PER_BATCH, replies[jj], lo);
            }
            if chunk_end < vars.len() {
                assert(vars[chunk_start as int] < vars[chunk_end as int]);
                assert forall|k: int| 0 <= k < initial.len() && vars[chunk_end as int] <= k implies tags@[k] == initial[k] by {
                    assert(tags@[k] == start_tags[k]);
                }
            }
            replies = replies.push(reply);
            done = done + 1;
            assert forall|jj: int| 0 <= jj < done implies batch_filled(
                *session,
                initial,
                tags@,
                vars,
                jj * NODES_PER_BATCH,
                #[trigger] replies[jj],
            ) by {}
            if chunk_end < vars.len() {
                assert forall|jj: int, p: int|
                    0 <= jj < done && 0 <= p < parsed_of(initial, batch_of(vars, jj * NODES_PER_BATCH)).len() implies #[trigger] parsed_of(
                    initial,
                    batch_of(vars, jj * NODES_PER_BATCH),
                )[p] < vars[chunk_end as int] by {
                    if jj < done - 1 {
                        assert(vars[chunk_start as int] < vars[chunk_end as int]);
                    }
                }
            }
        }
        chunk_start = chunk_end;
    }
    proof {
        assert(all_batches_filled(*session, initial, tags@, replies));
    }
}

/// Tags that agree below `bound` keep a batch filled when all its tags lie
/// below `bound`.
proof fn lemma_batch_filled_frame<S: AttributeSession>(
    session: S,
    before: Seq<PlcTag>,
    a1: Seq<PlcTag>,
    a2: Seq<PlcTag>,
    vars: Seq<usize>,
    lo: int,
    reply: Result<Vec<DataValue<S::Value>>, StatusCode>,
    bound: int,
)
    requires
        batch_filled(session, before, a1, vars, lo, reply),
        a1.len() == a2.len(),
        forall|k: int| 0 <= k < a1.len() && k < bound ==> a1[k] == a2[k],
        forall|p: int|
            0 <= p < parsed_of(before, batch_of(vars, lo)).len() ==> #[trigger] parsed_of(before, batch_of(vars, lo))[p]
                < bound && parsed_of(before, batch_of(vars, lo))[p] < a1.len(),
    ensures
        batch_filled(session, before, a2, vars, lo, reply),
{
    let parsed = parsed_of(before, batch_of(vars, lo));
    assert forall|p: int| 0 <= p < parsed.len() implies match read_at(reply, p) {
        Some(five) => filled_from::<S>(before[parsed[p] as int], five, a2[#[trigger] parsed[p] as int]),
        None => a2[parsed[p] as int] == before[parsed[p] as int],
    } by {
        assert(a1[parsed[p] as int] == a2[parsed[p] as int]);
    }
}

/// The positions `parsed_of` keeps are among those given: when every one of
/// `idx` lies in `[lo, hi)` and they increase, so do the kept ones, and each
/// kept tag's node ID parses.
proof fn lemma_parsed_within(tags: Seq<PlcTag>, idx: Seq<usize>, lo: int, hi: int)
    requires
        forall|k: int| 0 <= k < idx.len() ==> lo <= #[trigger] idx[k] < hi,
        forall|a: int, b: int| 0 <= a < b < idx.len() ==> idx[a] < idx[b],
    ensures
        forall|p: int| 0 <= p < parsed_of(tags, idx).len() ==> lo <= #[trigger] parsed_of(tags, idx)[p] < hi
            && parses_as_node_id(tags[parsed_of(tags, idx)[p] as int].node_id@),
        forall|a: int, b: int| 0 <= a < b < parsed_of(tags, idx).len() ==> parsed_of(tags, idx)[a] < parsed_of(tags, idx)[b],
        forall|p: int| 0 <= p < parsed_of(tags, idx).len() ==> exists|m: int| 0 <= m < idx.len() && idx[m] == #[trigger] parsed_of(tags, idx)[p],
        parsed_of(tags, idx).len() <= idx.len(),
    decreases idx.len(),
{
    if idx.len() > 0 {
        let rest = idx.drop_last();
        lemma_parsed_within(tags, rest, lo, if idx.len() >= 2 { idx.last() as int } else { hi });
        lemma_parsed_within(tags, rest, lo, hi);
        let pr = parsed_of(tags, rest);
        let pp = parsed_of(tags, idx);
        if parses_as_node_id(tags[idx.last() as int].node_id@) {
            assert(pp == pr.push(idx.last()));
            assert forall|p: int| 0 <= p < pp.len() implies exists|m: int| 0 <= m < idx.len() && idx[m] == #[trigger] pp[p] by {
                if p < pr.len() {
                    assert(pp[p] == pr[p]);
                    let m = choose|m: int| 0 <= m < rest.len() && rest[m] == #[trigger] pr[p];
                    assert(idx[m] == pp[p]);
                } else {
                    assert(idx[idx.len() - 1] == pp[p]);
                }
            }
            assert forall|a: int, b: int| 0 <= a < b < pp.len() implies pp[a] < pp[b] by {
                if b < pr.len() {
                    assert(pp[a] == pr[a] && pp[b] == pr[b]);
                } else {
                    assert(pp[a] == pr[a]);
                    let m = choose|m: int| 0 <= m < rest.len() && rest[m] == #[trigger] pr[a];
                    assert(idx[m] < idx[idx.len() - 1]);
                }
            }
            assert forall|p: int| 0 <= p < pp.len() implies lo <= #[trigger] pp[p] < hi
                && parses_as_node_id(tags[pp[p] as int].node_id@) by {
                if p < pr.len() {
                    assert(pp[p] == pr[p]);
                }
            }
        } else {
            assert(pp == pr);
            assert forall|p: int| 0 <= p < pp.len() implies exists|m: int| 0 <= m < idx.len() && idx[m] == #[trigger] pp[p] by {
                let m = choose|m: int| 0 <= m < rest.len() && rest[m] == #[trigger] pr[p];
                assert(idx[m] == pp[p]);
            }
        }
    }
}

/// The positions of the `Variable` tags increase.
proof fn lemma_variable_positions_increase(tags: Seq<PlcTag>, n: int)
    requires
        0 <= n <= tags.len(),
        tags.len() <= usize::MAX,
    ensures
        forall|a: int, b: int|
            0 <= a < b < variable_positions(tags, n).len() ==> variable_positions(tags, n)[a] < variable_positions(
                tags,
                n,
            )[b],
    decreases n,
{
    if n > 0 {
        lemma_variable_positions_increase(tags, n - 1);
        lemma_variable_positions(tags, n - 1);
        let p = variable_positions(tags, n - 1);
        let q = variable_positions(tags, n);
        if tags[n - 1].node_class@ == variable_text() {
            assert(q == p.push((n - 1) as usize));
            assert forall|a: int, b: int| 0 <= a < b < q.len() implies q[a] < q[b] by {
                assert(q[a] == p[a]);
                if b < p.len() {
                    assert(q[b] == p[b]);
                }
            }
        }
    }
}

proof fn lemma_variable_positions(tags: Seq<PlcTag>, n: int)
    requires
        0 <= n <= tags.len(),
        tags.len() <= usize::MAX,
    ensures
        forall|k: int| 0 <= k < variable_positions(tags, n).len() ==> #[trigger] variable_positions(tags, n)[k] < n
            && tags[variable_positions(tags, n)[k] as int].node_class@ == variable_text(),
    decreases n,
{
    if n > 0 {
        lemma_variable_positions(tags, n - 1);
        let p = variable_positions(tags, n - 1);
        let q = variable_positions(tags, n);
        if tags[n - 1].node_class@ == variable_text() {
            assert(q == p.push((n - 1) as usize));
            assert forall|k: int| 0 <= k < q.len() implies #[trigger] q[k] < n && tags[q[k] as int].node_class@
                == variable_text() by {
                if k < p.len() {
                    assert(q[k] == p[k]);
                }
            }
        }
    }
}

} // verus!
