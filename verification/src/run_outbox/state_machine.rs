//! The outbox state machine: records guarded by compare-and-swap revisions,
//! and an audit log in which every event carries the hash of the one before.

use vstd::prelude::*;
use vstd::slice::slice_to_vec;
use vstd::utf8::{encode_utf8, encode_utf8_decode_utf8};

use crate::clock::unix_time_millis;
use crate::digest::{
    digest_label, i64_le_bytes, i64_to_le_bytes, lemma_i64_le_bytes_injective, lemma_le_bytes_injective,
    lemma_le_bytes_len, lemma_pow256_8, sha256, sha256_label, sha256_of, u64_le_bytes, u64_to_le_bytes,
};
use crate::run_outbox::model::{
    can_transition, transition_allowed, OutboxError, OutboxRecord, OutboxResult, RecordView,
};
use crate::text::{concat_str, decimal, str_equal, u128_to_decimal};

verus! {

/// One entry of the audit log: a state change of one record.
#[derive(Debug, Clone)]
pub struct OutboxEvent {
    pub event_id: String,
    pub prev_event_hash: String,
    pub request_id: String,
    pub from_state: String,
    pub to_state: String,
    pub revision: i64,
    pub timestamp: String,
    pub event_hash: String,
}

/// An audit event as plain values.
pub struct EventView {
    pub event_id: Seq<char>,
    pub prev_event_hash: Seq<char>,
    pub request_id: Seq<char>,
    pub from_state: Seq<char>,
    pub to_state: Seq<char>,
    pub revision: i64,
    pub timestamp: Seq<char>,
    pub event_hash: Seq<char>,
}

impl View for OutboxEvent {
    type V = EventView;

    open spec fn view(&self) -> EventView {
        EventView {
            event_id: self.event_id@,
            prev_event_hash: self.prev_event_hash@,
            request_id: self.request_id@,
            from_state: self.from_state@,
            to_state: self.to_state@,
            revision: self.revision,
            timestamp: self.timestamp@,
            event_hash: self.event_hash@,
        }
    }
}

/// The hash that the first event of a log links back to.
pub open spec fn genesis_hash() -> Seq<char> {
    "sha256:0000000000000000000000000000000000000000000000000000000000000000"@
}

/// A text field as it enters an event's hash: its UTF-8 byte length (eight
/// bytes, little-endian), then its UTF-8 bytes. The length prefix keeps the
/// boundaries between fields, so no two different events share a preimage.
pub open spec fn length_prefixed(s: Seq<char>) -> Seq<u8> {
    u64_le_bytes(encode_utf8(s).len() as u64) + encode_utf8(s)
}

/// A text field short enough for its byte length to fit the eight-byte prefix.
pub open spec fn field_fits(s: Seq<char>) -> bool {
    encode_utf8(s).len() < 0x1_0000_0000_0000_0000
}

/// The bytes an event's hash covers: the previous hash, the request id, both
/// states and the timestamp (each length-prefixed UTF-8), and the revision
/// (eight bytes, little-endian, before the timestamp). Feeding these parts to
/// SHA-256 in turn hashes exactly their concatenation.
pub open spec fn event_preimage(
    prev: Seq<char>,
    request_id: Seq<char>,
    from: Seq<char>,
    to: Seq<char>,
    revision: i64,
    timestamp: Seq<char>,
) -> Seq<u8> {
    length_prefixed(prev) + (length_prefixed(request_id) + (length_prefixed(from) + (
    length_prefixed(to) + (i64_le_bytes(revision) + length_prefixed(timestamp)))))
}

/// Two length-prefixed fields followed by anything are equal only when the
/// fields are equal and what follows is equal.
pub proof fn lemma_length_prefixed_split(a: Seq<char>, ra: Seq<u8>, b: Seq<char>, rb: Seq<u8>)
    requires
        field_fits(a),
        field_fits(b),
        length_prefixed(a) + ra == length_prefixed(b) + rb,
    ensures
        a == b,
        ra == rb,
{
    let ea = encode_utf8(a);
    let eb = encode_utf8(b);
    let whole = length_prefixed(a) + ra;
    lemma_le_bytes_len(ea.len(), 8);
    lemma_le_bytes_len(eb.len(), 8);
    assert(u64_le_bytes(ea.len() as u64) =~= whole.subrange(0, 8));
    assert(u64_le_bytes(eb.len() as u64) =~= whole.subrange(0, 8));
    lemma_pow256_8();
    lemma_le_bytes_injective(ea.len(), eb.len(), 8);
    assert(ea =~= whole.subrange(8, (8 + ea.len()) as int));
    assert(eb =~= whole.subrange(8, (8 + eb.len()) as int));
    encode_utf8_decode_utf8(a);
    encode_utf8_decode_utf8(b);
    assert(ra =~= whole.subrange((8 + ea.len()) as int, whole.len() as int));
    assert(rb =~= whole.subrange((8 + eb.len()) as int, whole.len() as int));
}

/// An event's preimage determines its fields: events with different fields
/// (whose text fits the length prefix) have different preimages.
pub proof fn lemma_event_preimage_injective(
    p1: Seq<char>,
    i1: Seq<char>,
    f1: Seq<char>,
    t1: Seq<char>,
    r1: i64,
    s1: Seq<char>,
    p2: Seq<char>,
    i2: Seq<char>,
    f2: Seq<char>,
    t2: Seq<char>,
    r2: i64,
    s2: Seq<char>,
)
    requires
        field_fits(p1) && field_fits(i1) && field_fits(f1) && field_fits(t1) && field_fits(s1),
        field_fits(p2) && field_fits(i2) && field_fits(f2) && field_fits(t2) && field_fits(s2),
        event_preimage(p1, i1, f1, t1, r1, s1) == event_preimage(p2, i2, f2, t2, r2, s2),
    ensures
        p1 == p2 && i1 == i2 && f1 == f2 && t1 == t2 && r1 == r2 && s1 == s2,
{
    let tail1 = i64_le_bytes(r1) + length_prefixed(s1);
    let tail2 = i64_le_bytes(r2) + length_prefixed(s2);
    lemma_length_prefixed_split(
        p1,
        length_prefixed(i1) + (length_prefixed(f1) + (length_prefixed(t1) + tail1)),
        p2,
        length_prefixed(i2) + (length_prefixed(f2) + (length_prefixed(t2) + tail2)),
    );
    lemma_length_prefixed_split(
        i1,
        length_prefixed(f1) + (length_prefixed(t1) + tail1),
        i2,
        length_prefixed(f2) + (length_prefixed(t2) + tail2),
    );
    lemma_length_prefixed_split(f1, length_prefixed(t1) + tail1, f2, length_prefixed(t2) + tail2);
    lemma_length_prefixed_split(t1, tail1, t2, tail2);
    lemma_le_bytes_len((r1 as u64) as nat, 8);
    lemma_le_bytes_len((r2 as u64) as nat, 8);
    assert(i64_le_bytes(r1) =~= tail1.subrange(0, 8));
    assert(i64_le_bytes(r2) =~= tail1.subrange(0, 8));
    lemma_i64_le_bytes_injective(r1, r2);
    assert(length_prefixed(s1) =~= tail1.subrange(8, tail1.len() as int));
    assert(length_prefixed(s2) =~= tail1.subrange(8, tail1.len() as int));
    lemma_length_prefixed_split(s1, Seq::empty(), s2, Seq::empty());
}

/// The labelled SHA-256 hash of an event's preimage.
#[verifier::opaque]
pub open spec fn event_hash_of(
    prev: Seq<char>,
    request_id: Seq<char>,
    from: Seq<char>,
    to: Seq<char>,
    revision: i64,
    timestamp: Seq<char>,
) -> Seq<char> {
    sha256_label(sha256_of(event_preimage(prev, request_id, from, to, revision, timestamp)))
}

/// The hash an event's own fields give.
pub open spec fn recomputed_hash(e: EventView) -> Seq<char> {
    event_hash_of(e.prev_event_hash, e.request_id, e.from_state, e.to_state, e.revision, e.timestamp)
}

/// The hash that the next event of a log must link back to.
pub open spec fn chain_head(events: Seq<EventView>) -> Seq<char> {
    if events.len() == 0 {
        genesis_hash()
    } else {
        events.last().event_hash
    }
}

/// The hash that the event at position `i` must link back to.
pub open spec fn expected_prev(events: Seq<EventView>, i: int) -> Seq<char> {
    if i == 0 {
        genesis_hash()
    } else {
        events[i - 1].event_hash
    }
}

/// Every event links to its predecessor (the first to the genesis hash) and
/// carries the hash of its own contents.
pub open spec fn chain_valid(events: Seq<EventView>) -> bool {
    forall|i: int|
        #![trigger events[i]]
        0 <= i < events.len() ==> {
            &&& events[i].prev_event_hash == expected_prev(events, i)
            &&& events[i].event_hash == recomputed_hash(events[i])
        }
}

/// The records of a sequence, keyed by their request ids; a later record
/// takes the place of an earlier one with the same id.
pub open spec fn record_map(rs: Seq<RecordView>) -> Map<Seq<char>, RecordView>
    decreases rs.len(),
{
    if rs.len() == 0 {
        Map::empty()
    } else {
        record_map(rs.drop_last()).insert(rs.last().desktop_request_id, rs.last())
    }
}

/// No two records share a request id.
pub open spec fn ids_unique(rs: Seq<RecordView>) -> bool {
    forall|i: int, j: int|
        0 <= i < rs.len() && 0 <= j < rs.len() && i != j ==> #[trigger] rs[i].desktop_request_id
            != #[trigger] rs[j].desktop_request_id
}

/// The state of an outbox as plain values.
#[verifier::ext_equal]
pub struct MachineView {
    pub records: Map<Seq<char>, RecordView>,
    pub events: Seq<EventView>,
    pub latest_event_hash: Seq<char>,
}

/// A freshly created record.
pub open spec fn new_record(
    id: Seq<char>,
    matter_id: Seq<char>,
    task_hash: Seq<char>,
    now: Seq<char>,
) -> RecordView {
    RecordView {
        desktop_request_id: id,
        matter_id,
        task_hash,
        state: "local_created"@,
        revision: 1,
        cloud_run_id: None,
        result_reference: None,
        result_hash: None,
        created_at: now,
        updated_at: now,
    }
}

/// A record after a successful move to `target` at time `now`.
pub open spec fn advanced_record(rec: RecordView, target: Seq<char>, now: Seq<char>) -> RecordView {
    RecordView {
        desktop_request_id: rec.desktop_request_id,
        matter_id: rec.matter_id,
        task_hash: rec.task_hash,
        state: target,
        revision: (rec.revision + 1) as i64,
        cloud_run_id: rec.cloud_run_id,
        result_reference: rec.result_reference,
        result_hash: rec.result_hash,
        created_at: rec.created_at,
        updated_at: now,
    }
}

/// The audit event that records a move of `rec` to `target` at time `now`,
/// linked to `prev`.
pub open spec fn transition_event(
    prev: Seq<char>,
    rec: RecordView,
    target: Seq<char>,
    now: Seq<char>,
) -> EventView {
    let revision = (rec.revision + 1) as i64;
    let hash = event_hash_of(prev, rec.desktop_request_id, rec.state, target, revision, now);
    EventView {
        event_id: "evt_"@ + hash.subrange(7, 23),
        prev_event_hash: prev,
        request_id: rec.desktop_request_id,
        from_state: rec.state,
        to_state: target,
        revision,
        timestamp: now,
        event_hash: hash,
    }
}

impl MachineView {
    /// The outbox after creating a record.
    pub open spec fn with_record(self, rec: RecordView) -> MachineView {
        MachineView {
            records: self.records.insert(rec.desktop_request_id, rec),
            events: self.events,
            latest_event_hash: self.latest_event_hash,
        }
    }

    /// The outbox after moving record `id` to `target` at time `now`.
    pub open spec fn after_transition(self, id: Seq<char>, target: Seq<char>, now: Seq<char>) -> MachineView {
        let rec = self.records[id];
        let event = transition_event(self.latest_event_hash, rec, target, now);
        MachineView {
            records: self.records.insert(id, advanced_record(rec, target, now)),
            events: self.events.push(event),
            latest_event_hash: event.event_hash,
        }
    }

    /// A move of record `id` at revision `expected` to `target` would succeed.
    pub open spec fn transition_succeeds(self, id: Seq<char>, expected: i64, target: Seq<char>) -> bool {
        &&& self.records.dom().contains(id)
        &&& self.records[id].revision == expected
        &&& transition_allowed(self.records[id].state, target)
    }
}

/// A request to the outbox, as plain values: create a record, or move one.
pub enum OutboxRequest {
    Create { id: Seq<char>, matter_id: Seq<char>, task_hash: Seq<char>, now: Seq<char> },
    Move { id: Seq<char>, expected: i64, target: Seq<char>, now: Seq<char> },
}

/// The outbox after one request: a refused request changes nothing.
pub open spec fn apply_request(m: MachineView, req: OutboxRequest) -> MachineView {
    match req {
        OutboxRequest::Create { id, matter_id, task_hash, now } => {
            if m.records.dom().contains(id) {
                m
            } else {
                m.with_record(new_record(id, matter_id, task_hash, now))
            }
        },
        OutboxRequest::Move { id, expected, target, now } => {
            if m.transition_succeeds(id, expected, target) {
                m.after_transition(id, target, now)
            } else {
                m
            }
        },
    }
}

/// The outbox after a sequence of requests, the first applied first.
pub open spec fn apply_requests(m: MachineView, reqs: Seq<OutboxRequest>) -> MachineView
    decreases reqs.len(),
{
    if reqs.len() == 0 {
        m
    } else {
        apply_request(apply_requests(m, reqs.drop_last()), reqs.last())
    }
}

/// A local outbox of cloud tasks and the audit log of their state changes.
pub struct OutboxStateMachine {
    records: Vec<OutboxRecord>,
    events: Vec<OutboxEvent>,
    latest_event_hash: String,
}

impl Default for OutboxStateMachine {
    fn default() -> (r: Self)
        ensures
            r.wf(),
            r@.records == Map::<Seq<char>, RecordView>::empty(),
            r@.events == Seq::<EventView>::empty(),
            r@.latest_event_hash == genesis_hash(),
    {
        Self::new()
    }
}

impl View for OutboxStateMachine {
    type V = MachineView;

    closed spec fn view(&self) -> MachineView {
        MachineView {
            records: record_map(self.record_views()),
            events: self.events@.map_values(|e: OutboxEvent| e@),
            latest_event_hash: self.latest_event_hash@,
        }
    }
}

/// Adding a record to the end of the sequence adds it to the map.
proof fn lemma_record_map_push(rs: Seq<RecordView>, r: RecordView)
    ensures
        record_map(rs.push(r)) == record_map(rs).insert(r.desktop_request_id, r),
{
    assert(rs.push(r).drop_last() =~= rs);
}

/// With unique ids, the map holds every record of the sequence under its id.
proof fn lemma_record_map_holds(rs: Seq<RecordView>, i: int)
    requires
        ids_unique(rs),
        0 <= i < rs.len(),
    ensures
        record_map(rs).dom().contains(rs[i].desktop_request_id),
        record_map(rs)[rs[i].desktop_request_id] == rs[i],
    decreases rs.len(),
{
    if i < rs.len() - 1 {
        let init = rs.drop_last();
        assert(init[i] == rs[i]);
        assert(ids_unique(init)) by {
            assert forall|a: int, b: int|
                0 <= a < init.len() && 0 <= b < init.len() && a != b implies #[trigger] init[a].desktop_request_id
                != #[trigger] init[b].desktop_request_id by {
                assert(init[a] == rs[a]);
                assert(init[b] == rs[b]);
            }
        }
        lemma_record_map_holds(init, i);
        assert(rs[i].desktop_request_id != rs[rs.len() - 1].desktop_request_id);
    }
}

/// The map holds no key that no record of the sequence carries.
proof fn lemma_record_map_absent(rs: Seq<RecordView>, k: Seq<char>)
    requires
        forall|i: int| 0 <= i < rs.len() ==> #[trigger] rs[i].desktop_request_id != k,
    ensures
        !record_map(rs).dom().contains(k),
    decreases rs.len(),
{
    if rs.len() > 0 {
        let init = rs.drop_last();
        assert forall|i: int| 0 <= i < init.len() implies #[trigger] init[i].desktop_request_id != k by {
            assert(init[i] == rs[i]);
        }
        lemma_record_map_absent(init, k);
        assert(rs[rs.len() - 1].desktop_request_id != k);
    }
}

/// Every key of the map is the id of some record of the sequence.
proof fn lemma_record_map_keys(rs: Seq<RecordView>, k: Seq<char>)
    requires
        record_map(rs).dom().contains(k),
    ensures
        exists|i: int| 0 <= i < rs.len() && #[trigger] rs[i].desktop_request_id == k,
{
    if forall|i: int| 0 <= i < rs.len() ==> #[trigger] rs[i].desktop_request_id != k {
        lemma_record_map_absent(rs, k);
    }
}

/// With unique ids, replacing a record by one with the same id replaces it in
/// the map.
proof fn lemma_record_map_update(rs: Seq<RecordView>, i: int, r: RecordView)
    requires
        ids_unique(rs),
        0 <= i < rs.len(),
        r.desktop_request_id == rs[i].desktop_request_id,
    ensures
        record_map(rs.update(i, r)) =~= record_map(rs).insert(r.desktop_request_id, r),
    decreases rs.len(),
{
    let us = rs.update(i, r);
    let init = rs.drop_last();
    if i == rs.len() - 1 {
        assert(us.drop_last() =~= init);
        assert(!record_map(init).dom().contains(r.desktop_request_id)) by {
            assert forall|j: int| 0 <= j < init.len() implies #[trigger] init[j].desktop_request_id
                != r.desktop_request_id by {
                assert(init[j] == rs[j]);
            }
            lemma_record_map_absent(init, r.desktop_request_id);
        }
    } else {
        assert(us.drop_last() =~= init.update(i, r));
        assert(ids_unique(init)) by {
            assert forall|a: int, b: int|
                0 <= a < init.len() && 0 <= b < init.len() && a != b implies #[trigger] init[a].desktop_request_id
                != #[trigger] init[b].desktop_request_id by {
                assert(init[a] == rs[a]);
                assert(init[b] == rs[b]);
            }
        }
        assert(init[i] == rs[i]);
        lemma_record_map_update(init, i, r);
        assert(rs[i].desktop_request_id != rs[rs.len() - 1].desktop_request_id);
        assert(us.last() == rs.last());
    }
}

/// The hash the first event of a log links back to.
fn genesis_event_hash() -> (r: String)
    ensures
        r@ == genesis_hash(),
{
    String::from_str("sha256:0000000000000000000000000000000000000000000000000000000000000000")
}

/// Appends a text field, length-prefixed, to a hash preimage.
fn push_field(buf: &mut Vec<u8>, s: &str)
    ensures
        final(buf)@ == old(buf)@ + length_prefixed(s@),
{
    let bytes = s.as_bytes();
    let mut part = u64_to_le_bytes(bytes.len() as u64);
    buf.append(&mut part);
    let mut part = slice_to_vec(bytes);
    buf.append(&mut part);
    assert(final(buf)@ =~= old(buf)@ + length_prefixed(s@));
}

/// Computes the labelled hash of an audit event from its parts: the previous
/// hash, the request id, both states, the revision and the timestamp.
pub fn compute_event_hash(
    prev: &str,
    request_id: &str,
    from: &str,
    to: &str,
    revision: i64,
    timestamp: &str,
) -> (r: String)
    ensures
        r@ == event_hash_of(prev@, request_id@, from@, to@, revision, timestamp@),
        r@.len() == 71,
{
    let mut buf: Vec<u8> = Vec::new();
    push_field(&mut buf, prev);
    push_field(&mut buf, request_id);
    push_field(&mut buf, from);
    push_field(&mut buf, to);
    let mut part = i64_to_le_bytes(revision);
    buf.append(&mut part);
    push_field(&mut buf, timestamp);
    assert(buf@ =~= event_preimage(prev@, request_id@, from@, to@, revision, timestamp@));
    let digest = sha256(buf.as_slice());
    let r = digest_label(digest.as_slice());
    proof {
        reveal(event_hash_of);
    }
    r
}

impl OutboxStateMachine {
    /// The records in their stored order, as plain values.
    pub closed spec fn record_views(&self) -> Seq<RecordView> {
        self.records@.map_values(|r: OutboxRecord| r@)
    }

    /// The machine's invariant: request ids are unique, the audit log is a
    /// valid hash chain, and the latest hash is the head of that chain.
    pub closed spec fn wf(&self) -> bool {
        &&& ids_unique(self.record_views())
        &&& chain_valid(self@.events)
        &&& self@.latest_event_hash == chain_head(self@.events)
    }

    /// An empty outbox whose log starts at the genesis hash.
    pub fn new() -> (r: Self)
        ensures
            r.wf(),
            r@.records == Map::<Seq<char>, RecordView>::empty(),
            r@.events == Seq::<EventView>::empty(),
            r@.latest_event_hash == genesis_hash(),
    {
        let r = OutboxStateMachine {
            records: Vec::new(),
            events: Vec::new(),
            latest_event_hash: genesis_event_hash(),
        };
        assert(r.record_views() =~= Seq::<RecordView>::empty());
        assert(r@.events =~= Seq::<EventView>::empty());
        r
    }

    /// The position of the record with request id `id`, if there is one.
    fn find(&self, id: &str) -> (r: Option<usize>)
        requires
            self.wf(),
        ensures
            r matches Some(i) ==> i < self.records@.len() && self.records@[i as int]@.desktop_request_id
                == id@,
            r is Some <==> self@.records.dom().contains(id@),
            r matches Some(i) ==> self@.records[id@] == self.records@[i as int]@,
    {
        let mut i: usize = 0;
        while i < self.records.len()
            invariant
                self.wf(),
                i <= self.records@.len(),
                forall|j: int| 0 <= j < i ==> #[trigger] self.records@[j]@.desktop_request_id != id@,
            decreases self.records@.len() - i,
        {
            if str_equal(self.records[i].desktop_request_id.as_str(), id) {
                proof {
                    assert(self.record_views()[i as int] == self.records@[i as int]@);
                    lemma_record_map_holds(self.record_views(), i as int);
                }
                return Some(i);
            }
            i = i + 1;
        }
        proof {
            let rv = self.record_views();
            assert forall|j: int| 0 <= j < rv.len() implies #[trigger] rv[j].desktop_request_id != id@ by {
                assert(rv[j] == self.records@[j]@);
            }
            lemma_record_map_absent(rv, id@);
        }
        None
    }

    /// Retrieve a record by id.
    pub fn get_record(&self, desktop_request_id: &str) -> (r: OutboxResult<OutboxRecord>)
        requires
            self.wf(),
        ensures
            self@.records.dom().contains(desktop_request_id@) ==> (r matches Ok(rec) && rec@
                == self@.records[desktop_request_id@]),
            !self@.records.dom().contains(desktop_request_id@) ==> (r matches Err(
                OutboxError::NotFound,
            )),
    {
        match self.find(desktop_request_id) {
            Some(i) => Ok(self.records[i].snapshot()),
            None => Err(OutboxError::NotFound),
        }
    }

    /// Enqueue a newly created local task, stamped with `now_ms` (milliseconds
    /// since the Unix epoch).
    pub fn create_record_at(
        &mut self,
        desktop_request_id: &str,
        matter_id: &str,
        task_hash: &str,
        now_ms: u128,
    ) -> (r: OutboxResult<OutboxRecord>)
        requires
            old(self).wf(),
        ensures
            final(self).wf(),
            old(self)@.records.dom().contains(desktop_request_id@) ==> {
                &&& r matches Err(OutboxError::Validation(msg)) && msg@ == "Record with id '"@
                    + desktop_request_id@ + "' already exists"@
                &&& final(self)@ == old(self)@
            },
            !old(self)@.records.dom().contains(desktop_request_id@) ==> {
                let rec = new_record(
                    desktop_request_id@,
                    matter_id@,
                    task_hash@,
                    decimal(now_ms as nat),
                );
                &&& r matches Ok(out) && out@ == rec
                &&& final(self)@ == old(self)@.with_record(rec)
            },            final(self)@ == apply_request(
                old(self)@,
                OutboxRequest::Create {
                    id: desktop_request_id@,
                    matter_id: matter_id@,
                    task_hash: task_hash@,
                    now: decimal(now_ms as nat),
                },
            ),
    {
        if self.find(desktop_request_id).is_some() {
            return Err(OutboxError::Validation(self.duplicate_message(desktop_request_id)));
        }
        let now = u128_to_decimal(now_ms);
        Ok(self.insert_new(desktop_request_id, matter_id, task_hash, now))
    }

    /// Enqueue a newly created local task, stamped with the current time.
    ///
    /// A record whose id is already in use is refused. Should the clock stand
    /// before the Unix epoch, the record is not created and a persistence
    /// error names the clock failure.
    pub fn create_record(&mut self, desktop_request_id: &str, matter_id: &str, task_hash: &str) -> (r:
        OutboxResult<OutboxRecord>)
        requires
            old(self).wf(),
        ensures
            final(self).wf(),
            old(self)@.records.dom().contains(desktop_request_id@) ==> {
                &&& r matches Err(OutboxError::Validation(msg)) && msg@ == "Record with id '"@
                    + desktop_request_id@ + "' already exists"@
                &&& final(self)@ == old(self)@
            },
            !old(self)@.records.dom().contains(desktop_request_id@) ==> {
                ||| {
                    &&& r matches Err(OutboxError::Persistence(_))
                    &&& final(self)@ == old(self)@
                }
                ||| exists|now_ms: u128|
                    {
                        let rec = new_record(
                            desktop_request_id@,
                            matter_id@,
                            task_hash@,
                            #[trigger] decimal(now_ms as nat),
                        );
                        &&& r matches Ok(out) && out@ == rec
                        &&& final(self)@ == old(self)@.with_record(rec)
                    }
            },
    {
        if self.find(desktop_request_id).is_some() {
            return Err(OutboxError::Validation(self.duplicate_message(desktop_request_id)));
        }
        let now_ms = match unix_time_millis() {
            Ok(ms) => ms,
            Err(e) => {
                return Err(OutboxError::Persistence(concat_str("System time error: ", e.as_str())));
            },
        };
        let now = u128_to_decimal(now_ms);
        let out = self.insert_new(desktop_request_id, matter_id, task_hash, now);
        assert(decimal(now_ms as nat) == now@);
        Ok(out)
    }

    fn duplicate_message(&self, desktop_request_id: &str) -> (r: String)
        ensures
            r@ == "Record with id '"@ + desktop_request_id@ + "' already exists"@,
    {
        let mut msg = concat_str("Record with id '", desktop_request_id);
        msg.append("' already exists");
        msg
    }

    fn insert_new(&mut self, desktop_request_id: &str, matter_id: &str, task_hash: &str, now: String) -> (out:
        OutboxRecord)
        requires
            old(self).wf(),
            !old(self)@.records.dom().contains(desktop_request_id@),
        ensures
            final(self).wf(),
            out@ == new_record(desktop_request_id@, matter_id@, task_hash@, now@),
            final(self)@ == old(self)@.with_record(out@),
    {
        let record = OutboxRecord {
            desktop_request_id: String::from_str(desktop_request_id),
            matter_id: String::from_str(matter_id),
            task_hash: String::from_str(task_hash),
            state: String::from_str("local_created"),
            revision: 1,
            cloud_run_id: None,
            result_reference: None,
            result_hash: None,
            created_at: now.clone(),
            updated_at: now,
        };
        let out = record.snapshot();
        let ghost old_views = self.record_views();
        proof {
            assert forall|i: int| 0 <= i < old_views.len() implies #[trigger] old_views[i].desktop_request_id
                != desktop_request_id@ by {
                if old_views[i].desktop_request_id == desktop_request_id@ {
                    lemma_record_map_holds(old_views, i);
                }
            }
        }
        self.records.push(record);
        proof {
            assert(self.record_views() =~= old_views.push(out@));
            lemma_record_map_push(old_views, out@);
            assert(ids_unique(self.record_views())) by {
                let nv = self.record_views();
                assert forall|a: int, b: int|
                    0 <= a < nv.len() && 0 <= b < nv.len() && a != b implies #[trigger] nv[a].desktop_request_id
                    != #[trigger] nv[b].desktop_request_id by {
                    if a < old_views.len() {
                        assert(nv[a] == old_views[a]);
                    }
                    if b < old_views.len() {
                        assert(nv[b] == old_views[b]);
                    }
                }
            }
        }
        out
    }

    /// Checks a move of record `id` at revision `expected_revision` to
    /// `target_state`, and gives the record's position when it may go ahead.
    fn check_transition(&self, id: &str, expected_revision: i64, target_state: &str) -> (r: Result<
        usize,
        OutboxError,
    >)
        requires
            self.wf(),
        ensures
            !self@.records.dom().contains(id@) ==> (r matches Err(OutboxError::NotFound)),
            self@.records.dom().contains(id@) && self@.records[id@].revision != expected_revision
                ==> (r matches Err(OutboxError::RevisionConflict { expected, actual }) && expected
                == expected_revision && actual == self@.records[id@].revision),
            self@.records.dom().contains(id@) && self@.records[id@].revision == expected_revision
                && !transition_allowed(self@.records[id@].state, target_state@) ==> (r matches Err(
                OutboxError::InvalidTransition { from, to },
            ) && from@ == self@.records[id@].state && to@ == target_state@),
            self@.transition_succeeds(id@, expected_revision, target_state@) ==> (r matches Ok(i)
                && i < self.records@.len() && self.records@[i as int]@ == self@.records[id@]
                && self.records@[i as int]@.desktop_request_id == id@),
    {
        let i = match self.find(id) {
            Some(i) => i,
            None => {
                return Err(OutboxError::NotFound);
            },
        };
        let record = &self.records[i];
        if record.revision != expected_revision {
            return Err(
                OutboxError::RevisionConflict { expected: expected_revision, actual: record.revision },
            );
        }
        if !can_transition(record.state.as_str(), target_state) {
            return Err(
                OutboxError::InvalidTransition {
                    from: record.state.clone(),
                    to: String::from_str(target_state),
                },
            );
        }
        Ok(i)
    }

    /// Moves the record at position `i` to `target_state` at time `now`,
    /// appending the event to the log and advancing the chain head.
    fn apply_transition(&mut self, i: usize, target_state: &str, now: String) -> (out: OutboxRecord)
        requires
            old(self).wf(),
            i < old(self).records@.len(),
            old(self).records@[i as int].revision < i64::MAX,
        ensures
            final(self).wf(),
            out@ == advanced_record(old(self).records@[i as int]@, target_state@, now@),
            final(self)@ == old(self)@.after_transition(
                old(self).records@[i as int]@.desktop_request_id,
                target_state@,
                now@,
            ),
    {
        let ghost old_views = self.record_views();
        let ghost old_events = self@.events;
        let ghost rec = self.records@[i as int]@;
        proof {
            assert(old_views[i as int] == rec);
            lemma_record_map_holds(old_views, i as int);
        }
        let record = &self.records[i];
        let next_revision = record.revision + 1;
        let event_hash = compute_event_hash(
            self.latest_event_hash.as_str(),
            record.desktop_request_id.as_str(),
            record.state.as_str(),
            target_state,
            next_revision,
            now.as_str(),
        );
        let event_id = concat_str("evt_", event_hash.as_str().substring_char(7, 23));
        let event = OutboxEvent {
            event_id,
            prev_event_hash: self.latest_event_hash.clone(),
            request_id: record.desktop_request_id.clone(),
            from_state: record.state.clone(),
            to_state: String::from_str(target_state),
            revision: next_revision,
            timestamp: now.clone(),
            event_hash: event_hash.clone(),
        };
        let updated = OutboxRecord {
            desktop_request_id: record.desktop_request_id.clone(),
            matter_id: record.matter_id.clone(),
            task_hash: record.task_hash.clone(),
            state: String::from_str(target_state),
            revision: next_revision,
            cloud_run_id: record.cloud_run_id.clone(),
            result_reference: record.result_reference.clone(),
            result_hash: record.result_hash.clone(),
            created_at: record.created_at.clone(),
            updated_at: now,
        };
        let ghost ev = event@;
        assert(ev == transition_event(old(self)@.latest_event_hash, rec, target_state@, updated@.updated_at));
        self.events.push(event);
        self.latest_event_hash = event_hash;
        let out = updated.snapshot();
        self.records.set(i, updated);
        proof {
            assert(self.record_views() =~= old_views.update(i as int, out@));
            lemma_record_map_update(old_views, i as int, out@);
            assert(self@.events =~= old_events.push(ev));
            assert(ids_unique(self.record_views())) by {
                let nv = self.record_views();
                assert forall|a: int, b: int|
                    0 <= a < nv.len() && 0 <= b < nv.len() && a != b implies #[trigger] nv[a].desktop_request_id
                    != #[trigger] nv[b].desktop_request_id by {
                    if a != i {
                        assert(nv[a] == old_views[a]);
                    }
                    if b != i {
                        assert(nv[b] == old_views[b]);
                    }
                }
            }
            let ne = self@.events;
            assert forall|k: int| #![trigger ne[k]] 0 <= k < ne.len() implies {
                &&& ne[k].prev_event_hash == expected_prev(ne, k)
                &&& ne[k].event_hash == recomputed_hash(ne[k])
            } by {
                if k < old_events.len() {
                    assert(ne[k] == old_events[k]);
                    if k > 0 {
                        assert(ne[k - 1] == old_events[k - 1]);
                    }
                } else {
                    assert(ne[k] == ev);
                    if k > 0 {
                        assert(ne[k - 1] == old_events[k - 1]);
                    }
                }
            }
        }
        out
    }

    /// Transition a record to a target state using compare-and-swap revision
    /// control, stamped with `now_ms` (milliseconds since the Unix epoch).
    ///
    /// The `expected_revision` check refuses a caller acting on stale data:
    /// a delayed background response cannot overwrite a newer user action.
    /// On success the record moves to `target_state`, its revision goes up by
    /// one, and an event linked to the previous chain head joins the log.
    /// A refused request changes nothing.
    pub fn transition_at(
        &mut self,
        desktop_request_id: &str,
        expected_revision: i64,
        target_state: &str,
        now_ms: u128,
    ) -> (r: OutboxResult<OutboxRecord>)
        requires
            old(self).wf(),
            old(self)@.transition_succeeds(desktop_request_id@, expected_revision, target_state@)
                ==> expected_revision < i64::MAX,
        ensures
            final(self).wf(),
            !old(self)@.records.dom().contains(desktop_request_id@) ==> {
                &&& r matches Err(OutboxError::NotFound)
                &&& final(self)@ == old(self)@
            },
            old(self)@.records.dom().contains(desktop_request_id@) && old(self)@.records[desktop_request_id@].revision
                != expected_revision ==> {
                &&& r matches Err(OutboxError::RevisionConflict { expected, actual }) && expected
                    == expected_revision && actual == old(self)@.records[desktop_request_id@].revision
                &&& final(self)@ == old(self)@
            },
            old(self)@.records.dom().contains(desktop_request_id@) && old(self)@.records[desktop_request_id@].revision
                == expected_revision && !transition_allowed(
                old(self)@.records[desktop_request_id@].state,
                target_state@,
            ) ==> {
                &&& r matches Err(OutboxError::InvalidTransition { from, to }) && from@ == old(
                    self,
                )@.records[desktop_request_id@].state && to@ == target_state@
                &&& final(self)@ == old(self)@
            },
            r is Ok ==> final(self)@.events.len() == old(self)@.events.len() + 1
                && final(self)@.events.last().request_id == desktop_request_id@,
            old(self)@.transition_succeeds(desktop_request_id@, expected_revision, target_state@) ==> {
                let now = decimal(now_ms as nat);
                &&& r matches Ok(out) && out@ == advanced_record(
                    old(self)@.records[desktop_request_id@],
                    target_state@,
                    now,
                )
                &&& final(self)@ == old(self)@.after_transition(desktop_request_id@, target_state@, now)
            },            final(self)@ == apply_request(
                old(self)@,
                OutboxRequest::Move {
                    id: desktop_request_id@,
                    expected: expected_revision,
                    target: target_state@,
                    now: decimal(now_ms as nat),
                },
            ),
    {
        let i = match self.check_transition(desktop_request_id, expected_revision, target_state) {
            Ok(i) => i,
            Err(e) => {
                return Err(e);
            },
        };
        let now = u128_to_decimal(now_ms);
        Ok(self.apply_transition(i, target_state, now))
    }

    /// Transition a record to a target state using compare-and-swap revision
    /// control, stamped with the current time.
    ///
    /// Refusals are those of [`Self::transition_at`]. Should the clock stand
    /// before the Unix epoch, nothing changes and a persistence error names the
    /// clock failure.
    pub fn transition(&mut self, desktop_request_id: &str, expected_revision: i64, target_state: &str) -> (r:
        OutboxResult<OutboxRecord>)
        requires
            old(self).wf(),
            old(self)@.transition_succeeds(desktop_request_id@, expected_revision, target_state@)
                ==> expected_revision < i64::MAX,
        ensures
            final(self).wf(),
            !old(self)@.records.dom().contains(desktop_request_id@) ==> {
                &&& r matches Err(OutboxError::NotFound)
                &&& final(self)@ == old(self)@
            },
            old(self)@.records.dom().contains(desktop_request_id@) && old(self)@.records[desktop_request_id@].revision
                != expected_revision ==> {
                &&& r matches Err(OutboxError::RevisionConflict { expected, actual }) && expected
                    == expected_revision && actual == old(self)@.records[desktop_request_id@].revision
                &&& final(self)@ == old(self)@
            },
            old(self)@.records.dom().contains(desktop_request_id@) && old(self)@.records[desktop_request_id@].revision
                == expected_revision && !transition_allowed(
                old(self)@.records[desktop_request_id@].state,
                target_state@,
            ) ==> {
                &&& r matches Err(OutboxError::InvalidTransition { from, to }) && from@ == old(
                    self,
                )@.records[desktop_request_id@].state && to@ == target_state@
                &&& final(self)@ == old(self)@
            },
            r is Ok ==> final(self)@.events.len() == old(self)@.events.len() + 1
                && final(self)@.events.last().request_id == desktop_request_id@,
            old(self)@.transition_succeeds(desktop_request_id@, expected_revision, target_state@) ==> {
                ||| {
                    &&& r matches Err(OutboxError::Persistence(_))
                    &&& final(self)@ == old(self)@
                }
                ||| exists|now_ms: u128|
                    {
                        let now = #[trigger] decimal(now_ms as nat);
                        &&& r matches Ok(out) && out@ == advanced_record(
                            old(self)@.records[desktop_request_id@],
                            target_state@,
                            now,
                        )
                        &&& final(self)@ == old(self)@.after_transition(
                            desktop_request_id@,
                            target_state@,
                            now,
                        )
                    }
            },
    {
        let i = match self.check_transition(desktop_request_id, expected_revision, target_state) {
            Ok(i) => i,
            Err(e) => {
                return Err(e);
            },
        };
        let now_ms = match unix_time_millis() {
            Ok(ms) => ms,
            Err(e) => {
                return Err(OutboxError::Persistence(concat_str("System time error: ", e.as_str())));
            },
        };
        let now = u128_to_decimal(now_ms);
        let out = self.apply_transition(i, target_state, now);
        assert(decimal(now_ms as nat) == now@);
        Ok(out)
    }

    /// Verify the integrity of the audit event chain: every event links to its
    /// predecessor (the first to the genesis hash) and carries the hash of its
    /// own contents.
    pub fn verify_event_chain(&self) -> (r: bool)
        ensures
            r == chain_valid(self@.events),
    {
        verify_chain(&self.events)
    }

    /// The audit log, oldest event first.
    pub fn event_log(&self) -> (r: &Vec<OutboxEvent>)
        ensures
            r@.map_values(|e: OutboxEvent| e@) == self@.events,
    {
        &self.events
    }
}

/// Checks a log of audit events: every event must link to its predecessor
/// (the first to the genesis hash) and carry the hash of its own contents.
pub fn verify_chain(events: &Vec<OutboxEvent>) -> (r: bool)
    ensures
        r == chain_valid(events@.map_values(|e: OutboxEvent| e@)),
{
    let ghost ev = events@.map_values(|e: OutboxEvent| e@);
    let mut expected = genesis_event_hash();
    let n = events.len();
    let mut i: usize = 0;
    while i < n
        invariant
            n == events@.len(),
            ev == events@.map_values(|e: OutboxEvent| e@),
            i <= n,
            expected@ == expected_prev(ev, i as int),
            forall|j: int|
                #![trigger ev[j]]
                0 <= j < i ==> {
                    &&& ev[j].prev_event_hash == expected_prev(ev, j)
                    &&& ev[j].event_hash == recomputed_hash(ev[j])
                },
        decreases n - i,
    {
        let event = &events[i];
        assert(ev[i as int] == event@);
        if !(event.prev_event_hash == expected) {
            return false;
        }
        let computed = compute_event_hash(
            event.prev_event_hash.as_str(),
            event.request_id.as_str(),
            event.from_state.as_str(),
            event.to_state.as_str(),
            event.revision,
            event.timestamp.as_str(),
        );
        assert(computed@ == recomputed_hash(ev[i as int]));
        if !(computed == event.event_hash) {
            return false;
        }
        expected = event.event_hash.clone();
        assert(expected@ == expected_prev(ev, i + 1));
        i = i + 1;
    }
    true
}

/// The audit log of every well-formed outbox (every outbox that `new`,
/// `create_record` and `transition` produce) is a valid hash chain, so
/// `verify_event_chain` reports true on it.
pub proof fn law_outbox_chain_verifies(m: &OutboxStateMachine)
    requires
        m.wf(),
    ensures
        chain_valid(m@.events),
        m@.latest_event_hash == chain_head(m@.events),
{
}

/// Every record of a well-formed outbox is stored under its own request id.
pub proof fn law_records_keyed_by_own_id(m: &OutboxStateMachine)
    requires
        m.wf(),
    ensures
        forall|k: Seq<char>| #[trigger]
            m@.records.dom().contains(k) ==> m@.records[k].desktop_request_id == k,
{
    let rv = m.record_views();
    assert forall|k: Seq<char>| #[trigger] m@.records.dom().contains(k) implies m@.records[k].desktop_request_id
        == k by {
        lemma_record_map_keys(rv, k);
        let i = choose|i: int| 0 <= i < rv.len() && #[trigger] rv[i].desktop_request_id == k;
        lemma_record_map_holds(rv, i);
    }
}

} // verus!
