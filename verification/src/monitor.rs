//! The decisions behind live value collection: batch sizing for polling,
//! change detection, quality labels, and subscribing in chunks.

use vstd::prelude::*;
use crate::error::StatusCode;
use crate::text::owned;

verus! {

/// Floor for adaptive batch sizing, so a failing batch cannot stall the loop.
pub const MIN_BATCH_SIZE: usize = 10;

/// The batch size a poll starts with: the configured one, lowered to the
/// server's own `MaxNodesPerRead` when that is smaller.
pub fn effective_batch_size(configured: usize, server_limit: Option<usize>) -> (r: usize)
    ensures
        r == match server_limit {
            Some(limit) => if limit < configured { limit } else { configured },
            None => configured,
        },
{
    match server_limit {
        Some(limit) => if limit < configured { limit } else { configured },
        None => configured,
    }
}

/// The server's read limit from its `MaxNodesPerRead` value: a positive
/// count is a limit, zero means none.
pub fn server_read_limit(max_nodes_per_read: Option<u32>) -> (r: Option<usize>)
    ensures
        r == match max_nodes_per_read {
            Some(n) => if n > 0 { Some(n as usize) } else { None::<usize> },
            None => None::<usize>,
        },
{
    match max_nodes_per_read {
        Some(n) => if n > 0 { Some(n as usize) } else { None },
        None => None,
    }
}

/// What a poller does after a read of a batch failed.
#[derive(Debug, Clone, Copy, PartialEq, Eq, Structural)]
pub enum AfterFailedRead {
    /// The connection is gone: end the poll loop.
    Stop,
    /// Read the same range again with a smaller batch.
    Retry,
    /// Give up on this batch and go on with the next.
    Skip,
}

/// Where a polling pass stands: the next batch starts at `start`, and
/// batches are `batch_size` tags long, the last one cut at `len`.
///
/// Most read failures at scale are size related, so a failed read halves
/// the batch (down to [`MIN_BATCH_SIZE`]) and retries the same range; a
/// batch already at the floor is skipped.
pub struct PollCursor {
    start: usize,
    batch_size: usize,
    len: usize,
}

impl PollCursor {
    /// The first tag of the next batch.
    pub closed spec fn spec_start(&self) -> usize {
        self.start
    }

    /// The current batch size.
    pub closed spec fn spec_batch_size(&self) -> usize {
        self.batch_size
    }

    /// The number of tags polled.
    pub closed spec fn spec_len(&self) -> usize {
        self.len
    }

    /// The end of the batch starting at `start`: `batch_size` on, cut at `len`.
    pub open spec fn batch_end_spec(start: usize, batch_size: usize, len: usize) -> usize {
        if start >= len || len - start <= batch_size {
            if start >= len { start } else { len }
        } else {
            (start + batch_size) as usize
        }
    }

    /// A cursor at the start of a pass over `len` tags.
    pub fn new(len: usize, batch_size: usize) -> (r: Self)
        ensures
            r.spec_start() == 0,
            r.spec_batch_size() == batch_size,
            r.spec_len() == len,
    {
        PollCursor { start: 0, batch_size, len }
    }

    /// The current batch size.
    pub fn batch_size(&self) -> (r: usize)
        ensures
            r == self.spec_batch_size(),
    {
        self.batch_size
    }

    /// Whether every batch of this pass has been read or skipped.
    pub fn pass_done(&self) -> (r: bool)
        ensures
            r == (self.spec_start() >= self.spec_len()),
    {
        self.start >= self.len
    }

    /// The range `[start, end)` of the next batch.
    pub fn batch(&self) -> (r: (usize, usize))
        ensures
            r.0 == self.spec_start(),
            r.1 == Self::batch_end_spec(self.spec_start(), self.spec_batch_size(), self.spec_len()),
    {
        if self.start >= self.len {
            (self.start, self.start)
        } else if self.len - self.start <= self.batch_size {
            (self.start, self.len)
        } else {
            (self.start, self.start + self.batch_size)
        }
    }

    /// The batch was read: move on to the next.
    pub fn read_succeeded(&mut self)
        ensures
            final(self).spec_start() == Self::batch_end_spec(
                old(self).spec_start(),
                old(self).spec_batch_size(),
                old(self).spec_len(),
            ),
            final(self).spec_batch_size() == old(self).spec_batch_size(),
            final(self).spec_len() == old(self).spec_len(),
    {
        let (_, end) = self.batch();
        self.start = end;
    }

    /// The batch could not be read; `connected` says whether the session
    /// is still up.
    pub fn read_failed(&mut self, connected: bool) -> (r: AfterFailedRead)
        ensures
            final(self).spec_len() == old(self).spec_len(),
            !connected ==> r == AfterFailedRead::Stop && *final(self) == *old(self),
            connected && old(self).spec_batch_size() > MIN_BATCH_SIZE ==> r == AfterFailedRead::Retry
                && final(self).spec_start() == old(self).spec_start() && final(self).spec_batch_size() == (if old(
                self,
            ).spec_batch_size() / 2 < MIN_BATCH_SIZE {
                MIN_BATCH_SIZE
            } else {
                old(self).spec_batch_size() / 2
            }),
            connected && old(self).spec_batch_size() <= MIN_BATCH_SIZE ==> r == AfterFailedRead::Skip
                && final(self).spec_batch_size() == old(self).spec_batch_size() && final(self).spec_start()
                == Self::batch_end_spec(old(self).spec_start(), old(self).spec_batch_size(), old(self).spec_len()),
    {
        if !connected {
            return AfterFailedRead::Stop;
        }
        if self.batch_size > MIN_BATCH_SIZE {
            let half = self.batch_size / 2;
            self.batch_size = if half < MIN_BATCH_SIZE { MIN_BATCH_SIZE } else { half };
            AfterFailedRead::Retry
        } else {
            self.read_succeeded();
            AfterFailedRead::Skip
        }
    }

    /// Starts the next pass from the first tag, keeping the batch size learned.
    pub fn restart(&mut self)
        ensures
            final(self).spec_start() == 0,
            final(self).spec_batch_size() == old(self).spec_batch_size(),
            final(self).spec_len() == old(self).spec_len(),
    {
        self.start = 0;
    }
}

/// Within a pass, every read outcome that does not stop the loop makes
/// progress: a failure either shrinks the batch or moves past it, and a
/// success moves past it, so a pass ends however the reads go.
pub proof fn law_poll_pass_progresses(start: usize, batch_size: usize, len: usize)
    requires
        start < len,
        batch_size > 0,
    ensures
        PollCursor::batch_end_spec(start, batch_size, len) > start,
        PollCursor::batch_end_spec(start, batch_size, len) <= len,
        batch_size > MIN_BATCH_SIZE ==> (if batch_size / 2 < MIN_BATCH_SIZE {
            MIN_BATCH_SIZE
        } else {
            batch_size / 2
        }) < batch_size,
{
}

/// What one connectivity check reports, given the state the previous check
/// saw: the new state when it differs, else nothing.
pub open spec fn transition(was_connected: bool, is_connected: bool) -> Option<bool> {
    if is_connected == was_connected {
        None
    } else {
        Some(is_connected)
    }
}

/// Watches a session's connectivity and reports every transition, not
/// every check.
pub struct ConnectionWatch {
    connected: bool,
}

impl ConnectionWatch {
    /// The state the last check saw.
    pub closed spec fn spec_connected(&self) -> bool {
        self.connected
    }

    /// Starts from the state the session is in now.
    pub fn new(connected: bool) -> (r: Self)
        ensures
            r.spec_connected() == connected,
    {
        ConnectionWatch { connected }
    }

    /// Records a check: returns the new state when it differs from the one
    /// the previous check saw.
    pub fn observe(&mut self, connected: bool) -> (r: Option<bool>)
        ensures
            r == transition(old(self).spec_connected(), connected),
            final(self).spec_connected() == connected,
    {
        if connected == self.connected {
            None
        } else {
            self.connected = connected;
            Some(connected)
        }
    }
}

/// A state seen by two checks in a row is reported at most once: the
/// second check reports nothing.
pub proof fn law_steady_state_is_reported_once(was_connected: bool, is_connected: bool)
    ensures
        transition(is_connected, is_connected) is None,
        transition(was_connected, is_connected) is Some <==> was_connected != is_connected,
{
}

/// What was last reported for a tag, for change detection.
pub struct LastSeen {
    /// The value as rendered.
    pub rendered: String,
    /// The quality label.
    pub quality: String,
}

/// Whether a reported value reaches the sink: it must carry a value, not be
/// a structured container (its members are monitored on their own), and
/// belong to a known tag.
pub fn forwards_change(has_value: bool, is_structured: bool, known_tag: bool) -> (r: bool)
    ensures
        r == (has_value && !is_structured && known_tag),
{
    has_value && !is_structured && known_tag
}

/// Whether a reading differs enough from the previous one to report.
///
/// The first reading always is; a change of quality always is, even at a
/// constant value; otherwise `deadband_says` decides when a deadband applied
/// to two numeric readings, and else any change of the rendered value does.
pub open spec fn is_change_spec(
    previous: Option<(Seq<char>, Seq<char>)>,
    rendered: Seq<char>,
    quality: Seq<char>,
    deadband_says: Option<bool>,
) -> bool {
    match previous {
        None => true,
        Some((old_rendered, old_quality)) => if old_quality != quality {
            true
        } else {
            match deadband_says {
                Some(moved) => moved,
                None => old_rendered != rendered,
            }
        },
    }
}

/// Whether a reading differs enough from the previous one to report.
///
/// `deadband_says` is `Some` when a deadband is configured and both readings
/// are numeric: whether the value moved by at least the deadband.
pub fn is_change(previous: Option<&LastSeen>, rendered: &str, quality: &str, deadband_says: Option<bool>) -> (r: bool)
    ensures
        r == is_change_spec(
            match previous {
                Some(p) => Some((p.rendered@, p.quality@)),
                None => None,
            },
            rendered@,
            quality@,
            deadband_says,
        ),
{
    let previous = match previous {
        None => {
            return true;
        },
        Some(previous) => previous,
    };
    if !crate::text::str_eq(previous.quality.as_str(), quality) {
        return true;
    }
    match deadband_says {
        Some(moved) => moved,
        None => !crate::text::str_eq(previous.rendered.as_str(), rendered),
    }
}

/// A first reading is always reported, and so is any change of quality, in
/// either direction and at any value, whatever a deadband says; at the same
/// quality a deadband's verdict decides, and without one any change of the
/// rendered value does.
pub proof fn law_quality_changes_are_always_reported(
    old_rendered: Seq<char>,
    old_quality: Seq<char>,
    rendered: Seq<char>,
    quality: Seq<char>,
    deadband_says: Option<bool>,
)
    ensures
        is_change_spec(None, rendered, quality, deadband_says),
        quality != old_quality ==> is_change_spec(Some((old_rendered, old_quality)), rendered, quality, deadband_says),
        quality == old_quality && deadband_says is None ==> (is_change_spec(
            Some((old_rendered, old_quality)),
            rendered,
            quality,
            deadband_says,
        ) <==> rendered != old_rendered),
        quality == old_quality && deadband_says is Some ==> (is_change_spec(
            Some((old_rendered, old_quality)),
            rendered,
            quality,
            deadband_says,
        ) <==> deadband_says == Some(true)),
{
}

/// Whether a value's quality is good: an absent status means Good.
pub fn quality_is_good(status: Option<StatusCode>) -> (r: bool)
    ensures
        r == match status {
            Some(s) => s.spec_good(),
            None => true,
        },
{
    match status {
        Some(s) => s.is_good(),
        None => true,
    }
}

/// The text `opcua` displays for the status code with these bits.
pub uninterp spec fn status_code_text(bits: u32) -> Seq<char>;

/// How `opcua` displays a status code: its name, with any flag bits.
#[verifier::external_body]
fn status_text(status: StatusCode) -> (r: String)
    ensures
        r@ == status_code_text(status.bits),
{
    opcua::types::StatusCode::from_bits_truncate(status.bits).to_string()
}

/// `GOOD`.
pub open spec fn good_label() -> Seq<char> {
    seq!['G', 'O', 'O', 'D']
}

/// The quality label of a status: `GOOD`, `UNCERTAIN (<status>)` or
/// `BAD (<status>)`. An absent status means Good.
pub open spec fn quality_label(status: Option<StatusCode>) -> Seq<char> {
    match status {
        None => good_label(),
        Some(s) => if s.spec_good() {
            good_label()
        } else if s.spec_uncertain() {
            seq!['U', 'N', 'C', 'E', 'R', 'T', 'A', 'I', 'N', ' ', '('] + status_code_text(s.bits) + seq![')']
        } else {
            seq!['B', 'A', 'D', ' ', '('] + status_code_text(s.bits) + seq![')']
        },
    }
}

/// Renders the status code attached to a value as a short quality label.
///
/// An absent status means Good, per the OPC UA specification, so `None` maps
/// to `"GOOD"` rather than to an unknown state.
pub fn format_quality(status: Option<StatusCode>) -> (r: String)
    ensures
        r@ == quality_label(status),
{
    proof {
        reveal_strlit("GOOD");
        reveal_strlit("UNCERTAIN (");
        reveal_strlit("BAD (");
        reveal_strlit(")");
    }
    match status {
        None => {
            let r = owned("GOOD");
            assert(r@ =~= good_label());
            r
        },
        Some(s) => {
            if s.is_good() {
                let r = owned("GOOD");
                assert(r@ =~= good_label());
                r
            } else {
                let mut r = if s.is_uncertain() {
                    owned("UNCERTAIN (")
                } else {
                    owned("BAD (")
                };
                let name = status_text(s);
                r.append(name.as_str());
                r.append(")");
                assert(r@ =~= quality_label(status));
                r
            }
        },
    }
}

/// The subscription service calls [`subscribe_all`] makes.
///
/// Implemented over a live session by the application, whose subscription
/// forwards the changes the server pushes. Each reply is one the service may
/// give to exactly the call made; unless an implementation says more, any
/// reply may come.
pub trait SubscriptionService {
    /// A monitored-item creation request as the session carries it.
    type Request;

    /// `reply` is an answer the service may give to creating a subscription.
    open spec fn may_subscribe(&self, reply: Result<u32, StatusCode>) -> bool {
        true
    }

    /// `reply` is an answer the service may give to creating the items
    /// `requests` in subscription `subscription_id`.
    open spec fn may_monitor(
        &self,
        subscription_id: u32,
        requests: Seq<Self::Request>,
        reply: Result<Vec<StatusCode>, StatusCode>,
    ) -> bool {
        true
    }

    /// Creates one subscription, returning its identifier.
    fn create_subscription(&self) -> (r: Result<u32, StatusCode>)
        ensures
            self.may_subscribe(r),
    ;

    /// Creates monitored items in a subscription; one status per request.
    fn create_monitored_items(&self, subscription_id: u32, requests: &[Self::Request]) -> (r: Result<Vec<StatusCode>, StatusCode>)
        ensures
            self.may_monitor(subscription_id, requests@, r),
    ;
}

/// The positions `[offset, offset + n)` in order.
pub open spec fn positions(offset: int, n: int) -> Seq<usize>
    decreases n,
{
    if n <= 0 {
        Seq::empty()
    } else {
        positions(offset, n - 1).push((offset + n - 1) as usize)
    }
}

/// The positions of a batch starting at `offset` that the server refused:
/// each item whose status is bad, for as many statuses as came back.
pub open spec fn refused_in_batch(offset: int, n: int, statuses: Seq<StatusCode>) -> Seq<usize>
    decreases statuses.len(),
{
    if statuses.len() == 0 {
        Seq::empty()
    } else {
        let k = statuses.len() - 1;
        let earlier = refused_in_batch(offset, n, statuses.drop_last());
        if k < n && statuses[k].spec_bad() {
            earlier.push((offset + k) as usize)
        } else {
            earlier
        }
    }
}

/// The positions of a batch of `n` items starting at `offset` that were
/// refused, from what creating them returned: all of them when the call
/// failed, otherwise each whose own status is bad.
///
/// Per-item status matters: ignoring it is how a server silently drops half
/// the tags without any error.
pub fn refused_positions(offset: usize, n: usize, result: &Result<Vec<StatusCode>, StatusCode>) -> (r: Vec<usize>)
    requires
        offset + n <= usize::MAX,
    ensures
        r@ == match *result {
            Err(_) => positions(offset as int, n as int),
            Ok(statuses) => refused_in_batch(offset as int, n as int, statuses@),
        },
{
    let mut out: Vec<usize> = Vec::new();
    match result {
        Err(_) => {
            out = all_positions(offset, n);
        },
        Ok(statuses) => {
            let mut k: usize = 0;
            while k < statuses.len()
                invariant
                    k <= statuses.len(),
                    offset + n <= usize::MAX,
                    out@ == refused_in_batch(offset as int, n as int, statuses@.take(k as int)),
                decreases statuses.len() - k,
            {
                assert(statuses@.take(k + 1).drop_last() =~= statuses@.take(k as int));
                if k < n && statuses[k].is_bad() {
                    out.push(offset + k);
                }
                k += 1;
            }
            assert(statuses@.take(statuses.len() as int) =~= statuses@);
        },
    }
    out
}

/// The positions `[offset, offset + n)`.
fn all_positions(offset: usize, n: usize) -> (r: Vec<usize>)
    requires
        offset + n <= usize::MAX,
    ensures
        r@ == positions(offset as int, n as int),
{
    let mut out: Vec<usize> = Vec::new();
    let mut k: usize = 0;
    while k < n
        invariant
            k <= n,
            offset + n <= usize::MAX,
            out@ == positions(offset as int, k as int),
        decreases n - k,
    {
        out.push(offset + k);
        k += 1;
    }
    out
}

/// The end of the block of at most `size` items that starts at `lo`, cut at `hi`.
pub open spec fn block_end(lo: int, hi: int, size: int) -> int {
    if hi - lo <= size {
        hi
    } else {
        lo + size
    }
}

/// The batches `[start, end)` of `[lo, hi)`, `size` items each but the last.
pub open spec fn blocks(lo: int, hi: int, size: int) -> Seq<(int, int)>
    decreases hi - lo,
{
    if lo >= hi || size <= 0 {
        Seq::empty()
    } else {
        seq![(lo, block_end(lo, hi, size))] + blocks(block_end(lo, hi, size), hi, size)
    }
}

/// The request batches of [`subscribe_all`], in the order they are sent:
/// the requests from `lo` on cut into subscriptions of `chunk` items, each
/// cut into calls of `batch` items.
pub open spec fn request_batches(lo: int, total: int, chunk: int, batch: int) -> Seq<(int, int)>
    decreases total - lo,
{
    if lo >= total || chunk <= 0 {
        Seq::empty()
    } else {
        blocks(lo, block_end(lo, total, chunk), batch) + request_batches(
            block_end(lo, total, chunk),
            total,
            chunk,
            batch,
        )
    }
}

/// How many subscriptions the requests from `lo` on are cut into.
pub open spec fn chunk_count(lo: int, total: int, chunk: int) -> int
    decreases total - lo,
{
    if lo >= total || chunk <= 0 {
        0
    } else {
        1 + chunk_count(block_end(lo, total, chunk), total, chunk)
    }
}

/// For each batch of [`request_batches`] from `lo`, the number of the
/// subscription it belongs to, counting from `n`.
pub open spec fn batch_chunks(lo: int, total: int, chunk: int, batch: int, n: int) -> Seq<int>
    decreases total - lo,
{
    if lo >= total || chunk <= 0 {
        Seq::empty()
    } else {
        Seq::new(blocks(lo, block_end(lo, total, chunk), batch).len(), |_k: int| n) + batch_chunks(
            block_end(lo, total, chunk),
            total,
            chunk,
            batch,
            n + 1,
        )
    }
}

/// `outcome` is what creating the items of the batch `bounds` gave, in a
/// subscription whose creation replied `sub`: the service's reply to exactly
/// those requests, or the subscription's own failure when it has none.
pub open spec fn batch_answered<Svc: SubscriptionService>(
    service: Svc,
    requests: Seq<Svc::Request>,
    bounds: (int, int),
    sub: Result<u32, StatusCode>,
    outcome: Result<Vec<StatusCode>, StatusCode>,
) -> bool {
    match sub {
        Ok(id) => service.may_monitor(id, requests.subrange(bounds.0, bounds.1), outcome),
        Err(e) => outcome == Err::<Vec<StatusCode>, StatusCode>(e),
    }
}

/// `subs` (one per subscription) and `outcomes` (one per batch) are replies
/// the service may give to the calls [`subscribe_all`] makes for `requests`.
pub open spec fn subscribe_answers<Svc: SubscriptionService>(
    service: Svc,
    requests: Seq<Svc::Request>,
    chunk: int,
    batch: int,
    subs: Seq<Result<u32, StatusCode>>,
    outcomes: Seq<Result<Vec<StatusCode>, StatusCode>>,
) -> bool {
    let batches = request_batches(0, requests.len() as int, chunk, batch);
    let owners = batch_chunks(0, requests.len() as int, chunk, batch, 0);
    &&& subs.len() == chunk_count(0, requests.len() as int, chunk)
    &&& outcomes.len() == batches.len()
    &&& owners.len() == batches.len()
    &&& forall|i: int| 0 <= i < subs.len() ==> service.may_subscribe(#[trigger] subs[i])
    &&& forall|k: int|
        0 <= k < batches.len() ==> 0 <= #[trigger] owners[k] < subs.len() && batch_answered(
            service,
            requests,
            batches[k],
            subs[owners[k]],
            outcomes[k],
        )
}

/// The positions refused in the batch `[start, end)` given what creating
/// its items returned; a batch whose subscription could not be created
/// counts as a failed call.
pub open spec fn batch_refused(bounds: (int, int), outcome: Result<Vec<StatusCode>, StatusCode>) -> Seq<usize> {
    match outcome {
        Err(_) => positions(bounds.0, bounds.1 - bounds.0),
        Ok(statuses) => refused_in_batch(bounds.0, bounds.1 - bounds.0, statuses@),
    }
}

/// The refused positions of every batch, in batch order.
pub open spec fn all_refused(bounds: Seq<(int, int)>, outcomes: Seq<Result<Vec<StatusCode>, StatusCode>>) -> Seq<usize>
    decreases bounds.len(),
{
    if bounds.len() == 0 || outcomes.len() == 0 {
        Seq::empty()
    } else {
        all_refused(bounds.drop_last(), outcomes.drop_last()) + batch_refused(bounds.last(), outcomes.last())
    }
}

/// Subscribes every request, `sub_chunk_size` to a subscription and
/// `request_batch_size` to a call, returning the positions of the requests
/// the server refused, in order.
///
/// Refused requests are not an error: the caller polls them instead. A
/// subscription that cannot be created refuses its whole chunk; a failed
/// call refuses its whole batch; otherwise each item whose status is bad is
/// refused. The result is what [`refused_positions`] gives, batch after
/// batch, for replies the service may give to exactly the calls made: one
/// subscription per chunk, and for each batch the requests of that batch.
pub fn subscribe_all<Svc: SubscriptionService>(
    service: &Svc,
    requests: &Vec<Svc::Request>,
    sub_chunk_size: usize,
    request_batch_size: usize,
) -> (r: Vec<usize>)
    requires
        sub_chunk_size > 0,
        request_batch_size > 0,
    ensures
        exists|subs: Seq<Result<u32, StatusCode>>, outcomes: Seq<Result<Vec<StatusCode>, StatusCode>>|
            {
                &&& #[trigger] subscribe_answers(
                    *service,
                    requests@,
                    sub_chunk_size as int,
                    request_batch_size as int,
                    subs,
                    outcomes,
                )
                &&& r@ == all_refused(
                    request_batches(0, requests@.len() as int, sub_chunk_size as int, request_batch_size as int),
                    outcomes,
                )
            },
        forall|k: int| 0 <= k < r@.len() ==> r@[k] < requests@.len(),
        forall|j: int, k: int| 0 <= j < k < r@.len() ==> r@[j] < r@[k],
{
    let mut refused: Vec<usize> = Vec::new();
    let total = requests.len();
    let ghost c = sub_chunk_size as int;
    let ghost b = request_batch_size as int;
    let ghost reqs = requests@;
    let ghost mut sent: Seq<(int, int)> = Seq::empty();
    let ghost mut owners: Seq<int> = Seq::empty();
    let ghost mut subs: Seq<Result<u32, StatusCode>> = Seq::empty();
    let ghost mut outcomes: Seq<Result<Vec<StatusCode>, StatusCode>> = Seq::empty();
    let mut chunk_start: usize = 0;
    while chunk_start < total
        invariant
            total == requests@.len(),
            reqs == requests@,
            chunk_start <= total,
            c == sub_chunk_size as int,
            b == request_batch_size as int,
            sub_chunk_size > 0,
            request_batch_size > 0,
            sent + request_batches(chunk_start as int, total as int, c, b) == request_batches(0, total as int, c, b),
            owners + batch_chunks(chunk_start as int, total as int, c, b, subs.len() as int) == batch_chunks(
                0,
                total as int,
                c,
                b,
                0,
            ),
            subs.len() + chunk_count(chunk_start as int, total as int, c) == chunk_count(0, total as int, c),
            owners.len() == sent.len(),
            outcomes.len() == sent.len(),
            forall|i: int| 0 <= i < subs.len() ==> service.may_subscribe(#[trigger] subs[i]),
            forall|k: int|
                0 <= k < sent.len() ==> 0 <= #[trigger] owners[k] < subs.len() && batch_answered(
                    *service,
                    reqs,
                    sent[k],
                    subs[owners[k]],
                    outcomes[k],
                ),
            refused@ == all_refused(sent, outcomes),
            forall|k: int| 0 <= k < refused@.len() ==> refused@[k] < chunk_start,
            forall|j: int, k: int| 0 <= j < k < refused@.len() ==> refused@[j] < refused@[k],
        decreases total - chunk_start,
    {
        let chunk_end = if total - chunk_start <= sub_chunk_size { total } else { chunk_start + sub_chunk_size };
        let subscription = service.create_subscription();
        let ghost n = subs.len() as int;
        let ghost chunk_sent = sent;
        let ghost chunk_owners = owners;
        proof {
            subs = subs.push(subscription);
            assert forall|i: int| 0 <= i < subs.len() implies service.may_subscribe(#[trigger] subs[i]) by {}
            assert forall|k: int| 0 <= k < sent.len() implies 0 <= #[trigger] owners[k] < subs.len()
                && batch_answered(*service, reqs, sent[k], subs[owners[k]], outcomes[k]) by {
                assert(subs[owners[k]] == subs.drop_last()[owners[k]]);
            }
        }
        let mut batch_start = chunk_start;
        while batch_start < chunk_end
            invariant
                chunk_start <= batch_start <= chunk_end <= total,
                total == requests@.len(),
                reqs == requests@,
                c == sub_chunk_size as int,
                b == request_batch_size as int,
                request_batch_size > 0,
                chunk_end as int == block_end(chunk_start as int, total as int, c),
                sent + blocks(batch_start as int, chunk_end as int, b) == chunk_sent + blocks(
                    chunk_start as int,
                    chunk_end as int,
                    b,
                ),
                0 <= n,
                n == subs.len() - 1,
                subs[n] == subscription,
                chunk_owners.len() == chunk_sent.len(),
                owners == chunk_owners + Seq::new((sent.len() - chunk_sent.len()) as nat, |_k: int| n),
                sent.len() >= chunk_sent.len(),
                outcomes.len() == sent.len(),
                forall|k: int|
                    0 <= k < sent.len() ==> 0 <= #[trigger] owners[k] < subs.len() && batch_answered(
                        *service,
                        reqs,
                        sent[k],
                        subs[owners[k]],
                        outcomes[k],
                    ),
                refused@ == all_refused(sent, outcomes),
                forall|k: int| 0 <= k < refused@.len() ==> refused@[k] < batch_start,
                forall|j: int, k: int| 0 <= j < k < refused@.len() ==> refused@[j] < refused@[k],
            decreases chunk_end - batch_start,
        {
            let batch_end = if chunk_end - batch_start <= request_batch_size {
                chunk_end
            } else {
                batch_start + request_batch_size
            };
            let result = match &subscription {
                Ok(subscription_id) => service.create_monitored_items(
                    *subscription_id,
                    &requests.as_slice()[batch_start..batch_end],
                ),
                Err(status) => Err(*status),
            };
            let refused_here = refused_positions(batch_start, batch_end - batch_start, &result);
            proof {
                lemma_positions_in_range(batch_start as int, (batch_end - batch_start) as int);
                match result {
                    Ok(statuses) => lemma_refused_in_range(batch_start as int, (batch_end - batch_start) as int, statuses@),
                    Err(_) => {},
                }
                let bounds = (batch_start as int, batch_end as int);
                assert(batch_answered(*service, reqs, bounds, subs[n], result));
                assert(blocks(batch_start as int, chunk_end as int, b) =~= seq![bounds] + blocks(
                    batch_end as int,
                    chunk_end as int,
                    b,
                ));
                assert(sent.push(bounds) + blocks(batch_end as int, chunk_end as int, b) =~= sent + blocks(
                    batch_start as int,
                    chunk_end as int,
                    b,
                ));
                assert(sent.push(bounds).drop_last() =~= sent);
                assert(outcomes.push(result).drop_last() =~= outcomes);
                let old_sent = sent;
                let old_owners = owners;
                let old_outcomes = outcomes;
                sent = sent.push(bounds);
                owners = owners.push(n);
                outcomes = outcomes.push(result);
                assert(owners =~= chunk_owners + Seq::new((sent.len() - chunk_sent.len()) as nat, |_k: int| n));
                assert forall|k: int| 0 <= k < sent.len() implies 0 <= #[trigger] owners[k] < subs.len()
                    && batch_answered(*service, reqs, sent[k], subs[owners[k]], outcomes[k]) by {
                    if k < old_sent.len() {
                        assert(owners[k] == old_owners[k]);
                        assert(sent[k] == old_sent[k]);
                        assert(outcomes[k] == old_outcomes[k]);
                    } else {
                        assert(k == old_sent.len());
                        assert(owners[k] == n);
                        assert(sent[k] == bounds);
                        assert(outcomes[k] == result);
                    }
                }
            }
            append_positions(&mut refused, &refused_here, batch_start, batch_end);
            batch_start = batch_end;
        }
        proof {
            assert(request_batches(chunk_start as int, total as int, c, b) =~= blocks(
                chunk_start as int,
                chunk_end as int,
                b,
            ) + request_batches(chunk_end as int, total as int, c, b));
            assert(blocks(chunk_end as int, chunk_end as int, b) =~= Seq::<(int, int)>::empty());
            assert(sent =~= chunk_sent + blocks(chunk_start as int, chunk_end as int, b));
            assert(sent + request_batches(chunk_end as int, total as int, c, b) =~= request_batches(
                0,
                total as int,
                c,
                b,
            ));
            assert(batch_chunks(chunk_start as int, total as int, c, b, n) =~= Seq::new(
                blocks(chunk_start as int, chunk_end as int, b).len(),
                |_k: int| n,
            ) + batch_chunks(chunk_end as int, total as int, c, b, n + 1));
            assert(owners + batch_chunks(chunk_end as int, total as int, c, b, subs.len() as int) =~= chunk_owners
                + batch_chunks(chunk_start as int, total as int, c, b, n));
        }
        chunk_start = chunk_end;
    }
    proof {
        assert(request_batches(total as int, total as int, c, b) =~= Seq::<(int, int)>::empty());
        assert(batch_chunks(total as int, total as int, c, b, subs.len() as int) =~= Seq::<int>::empty());
        assert(sent =~= request_batches(0, total as int, c, b));
        assert(owners =~= batch_chunks(0, total as int, c, b, 0));
        assert(subscribe_answers(*service, requests@, c, b, subs, outcomes));
    }
    refused
}

/// Every position in `positions(offset, n)` lies in `[offset, offset + n)`, in order.
proof fn lemma_positions_in_range(offset: int, n: int)
    requires
        0 <= offset,
        0 <= n,
        offset + n <= usize::MAX,
    ensures
        positions(offset, n).len() == n,
        forall|k: int| 0 <= k < n ==> positions(offset, n)[k] == offset + k,
    decreases n,
{
    if n > 0 {
        lemma_positions_in_range(offset, n - 1);
    }
}

/// Every position in `refused_in_batch(offset, n, statuses)` lies in
/// `[offset, offset + n)`, in increasing order.
proof fn lemma_refused_in_range(offset: int, n: int, statuses: Seq<StatusCode>)
    requires
        0 <= offset,
        0 <= n,
        offset + n <= usize::MAX,
    ensures
        forall|k: int|
            0 <= k < refused_in_batch(offset, n, statuses).len() ==> offset <= #[trigger] refused_in_batch(
                offset,
                n,
                statuses,
            )[k] < offset + n && refused_in_batch(offset, n, statuses)[k] < offset + statuses.len(),
        forall|j: int, k: int|
            0 <= j < k < refused_in_batch(offset, n, statuses).len() ==> refused_in_batch(offset, n, statuses)[j]
                < refused_in_batch(offset, n, statuses)[k],
    decreases statuses.len(),
{
    if statuses.len() > 0 {
        lemma_refused_in_range(offset, n, statuses.drop_last());
        let e = refused_in_batch(offset, n, statuses.drop_last());
        let k = statuses.len() - 1;
        let r = refused_in_batch(offset, n, statuses);
        if k < n && statuses[k].spec_bad() {
            assert(r == e.push((offset + k) as usize));
            assert forall|m: int| 0 <= m < r.len() implies offset <= #[trigger] r[m] < offset + n && r[m] < offset
                + statuses.len() by {
                if m < e.len() {
                    assert(r[m] == e[m]);
                }
            }
            assert forall|j: int, m: int| 0 <= j < m < r.len() implies r[j] < r[m] by {
                assert(r[j] == e[j]);
                if m < e.len() {
                    assert(r[m] == e[m]);
                }
            }
        } else {
            assert(r == e);
        }
    }
}

/// Appends positions that lie in `[lo, hi)` and increase, after positions below `lo`.
fn append_positions(out: &mut Vec<usize>, more: &Vec<usize>, lo: usize, hi: usize)
    requires
        lo <= hi,
        forall|k: int| 0 <= k < old(out)@.len() ==> old(out)@[k] < lo,
        forall|j: int, k: int| 0 <= j < k < old(out)@.len() ==> old(out)@[j] < old(out)@[k],
        forall|k: int| 0 <= k < more@.len() ==> lo <= #[trigger] more@[k] < hi,
        forall|j: int, k: int| 0 <= j < k < more@.len() ==> more@[j] < more@[k],
    ensures
        final(out)@ == old(out)@ + more@,
        forall|k: int| 0 <= k < final(out)@.len() ==> final(out)@[k] < hi,
        forall|j: int, k: int| 0 <= j < k < final(out)@.len() ==> final(out)@[j] < final(out)@[k],
{
    let ghost start = out@;
    let mut i: usize = 0;
    while i < more.len()
        invariant
            i <= more.len(),
            out@ == start + more@.take(i as int),
            start == old(out)@,
        decreases more.len() - i,
    {
        out.push(more[i]);
        assert(more@.take(i + 1) =~= more@.take(i as int).push(more@[i as int]));
        i += 1;
    }
    assert(more@.take(more.len() as int) =~= more@);
    assert forall|j: int, k: int| 0 <= j < k < out@.len() implies out@[j] < out@[k] by {
        if k < start.len() {
        } else if j < start.len() {
            assert(out@[k] == more@[k - start.len()]);
        } else {
            assert(out@[j] == more@[j - start.len()]);
            assert(out@[k] == more@[k - start.len()]);
        }
    }
    assert forall|k: int| 0 <= k < out@.len() implies out@[k] < hi by {
        if k >= start.len() {
            assert(out@[k] == more@[k - start.len()]);
        }
    }
}

} // verus!
