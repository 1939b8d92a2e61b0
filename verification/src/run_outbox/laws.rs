//! Properties of the outbox protocol that span its operations.

use vstd::prelude::*;

use crate::run_outbox::model::{
    is_escape_target, is_terminal_state, transition_allowed, RecordView,
};
use crate::digest::{lemma_sha256_label_injective, sha256_of};
use crate::run_outbox::state_machine::{
    apply_request, chain_head, chain_valid, event_hash_of, event_preimage, expected_prev, field_fits,
    lemma_event_preimage_injective, recomputed_hash, apply_requests, EventView, MachineView,
    OutboxRequest,
};

verus! {

/// Terminal states are one-way streets: once a record is 'acknowledged',
/// 'failed', 'cancelled' or 'expired', no transition leaves it.
pub proof fn law_terminal_states_are_final(from: Seq<char>, to: Seq<char>)
    requires
        is_terminal_state(from),
    ensures
        !transition_allowed(from, to),
{
}

/// The protocol's states that are not escape targets: the forward path and
/// its side states, ending in 'acknowledged'.
pub open spec fn progress_states() -> Seq<Seq<char>> {
    seq![
        "local_created"@,
        "admission_pending"@,
        "admitted"@,
        "staging"@,
        "submitted"@,
        "cloud_running"@,
        "awaiting_approval"@,
        "paused"@,
        "result_ready"@,
        "downloaded"@,
        "acknowledged"@,
    ]
}

/// The state names are all different from one another.
proof fn lemma_state_names_distinct()
    ensures
        forall|i: int, j: int|
            0 <= i < 11 && 0 <= j < 11 && i != j ==> #[trigger] progress_states()[i]
                != #[trigger] progress_states()[j],
{
    reveal_strlit("local_created");
    reveal_strlit("admission_pending");
    reveal_strlit("admitted");
    reveal_strlit("staging");
    reveal_strlit("submitted");
    reveal_strlit("cloud_running");
    reveal_strlit("awaiting_approval");
    reveal_strlit("paused");
    reveal_strlit("result_ready");
    reveal_strlit("downloaded");
    reveal_strlit("acknowledged");
    reveal_strlit("reconciliation_required");
    reveal_strlit("failed");
    reveal_strlit("cancelled");
    reveal_strlit("expired");
    assert("local_created"@.len() == 13);
    assert("admission_pending"@.len() == 17);
    assert("admitted"@.len() == 8);
    assert("staging"@.len() == 7);
    assert("submitted"@.len() == 9);
    assert("cloud_running"@.len() == 13);
    assert("awaiting_approval"@.len() == 17);
    assert("paused"@.len() == 6);
    assert("result_ready"@.len() == 12);
    assert("downloaded"@.len() == 10);
    assert("acknowledged"@.len() == 12);
    assert("reconciliation_required"@.len() == 23);
    assert("failed"@.len() == 6);
    assert("cancelled"@.len() == 9);
    assert("expired"@.len() == 7);
    assert("local_created"@[0] == 'l');
    assert("admission_pending"@[0] == 'a');
    assert("admitted"@[0] == 'a');
    assert("staging"@[0] == 's');
    assert("submitted"@[0] == 's');
    assert("cloud_running"@[0] == 'c');
    assert("awaiting_approval"@[0] == 'a');
    assert("paused"@[0] == 'p');
    assert("result_ready"@[0] == 'r');
    assert("downloaded"@[0] == 'd');
    assert("acknowledged"@[0] == 'a');
    assert("reconciliation_required"@[0] == 'r');
    assert("failed"@[0] == 'f');
    assert("cancelled"@[0] == 'c');
    assert("expired"@[0] == 'e');
    assert("admission_pending"@[1] == 'd');
    assert("awaiting_approval"@[1] == 'w');
}

/// The transition table: from each named state, the states of the forward
/// path (and its side states) that a record may move to are exactly these.
/// Escape targets ('failed', 'cancelled', 'expired',
/// 'reconciliation_required') are open from every non-terminal state, as
/// `law_live_states_can_escape` states, and terminal states lead nowhere.
pub proof fn law_transition_table()
    ensures
        forall|j: int|
            0 <= j < 11 ==> {
                let to = #[trigger] progress_states()[j];
                transition_allowed("local_created"@, to) <==> (to == "admission_pending"@)
            },
        forall|j: int|
            0 <= j < 11 ==> {
                let to = #[trigger] progress_states()[j];
                transition_allowed("admission_pending"@, to) <==> (to == "admitted"@)
            },
        forall|j: int|
            0 <= j < 11 ==> {
                let to = #[trigger] progress_states()[j];
                transition_allowed("admitted"@, to) <==> (to == "staging"@)
            },
        forall|j: int|
            0 <= j < 11 ==> {
                let to = #[trigger] progress_states()[j];
                transition_allowed("staging"@, to) <==> (to == "submitted"@)
            },
        forall|j: int|
            0 <= j < 11 ==> {
                let to = #[trigger] progress_states()[j];
                transition_allowed("submitted"@, to) <==> (to == "cloud_running"@ || to == "awaiting_approval"@ || to == "paused"@)
            },
        forall|j: int|
            0 <= j < 11 ==> {
                let to = #[trigger] progress_states()[j];
                transition_allowed("cloud_running"@, to) <==> (to == "awaiting_approval"@ || to == "result_ready"@ || to == "paused"@)
            },
        forall|j: int|
            0 <= j < 11 ==> {
                let to = #[trigger] progress_states()[j];
                transition_allowed("awaiting_approval"@, to) <==> (to == "submitted"@ || to == "cloud_running"@ || to == "result_ready"@)
            },
        forall|j: int|
            0 <= j < 11 ==> {
                let to = #[trigger] progress_states()[j];
                transition_allowed("paused"@, to) <==> (to == "submitted"@)
            },
        forall|j: int|
            0 <= j < 11 ==> {
                let to = #[trigger] progress_states()[j];
                transition_allowed("result_ready"@, to) <==> (to == "downloaded"@)
            },
        forall|j: int|
            0 <= j < 11 ==> {
                let to = #[trigger] progress_states()[j];
                transition_allowed("downloaded"@, to) <==> (to == "acknowledged"@)
            },
        forall|j: int|
            0 <= j < 11 ==> {
                let to = #[trigger] progress_states()[j];
                transition_allowed("acknowledged"@, to) <==> (false)
            },
        forall|j: int|
            0 <= j < 11 ==> {
                let to = #[trigger] progress_states()[j];
                transition_allowed("reconciliation_required"@, to) <==> (to == "admission_pending"@ || to == "admitted"@ || to == "staging"@ || to == "submitted"@ || to == "cloud_running"@ || to == "awaiting_approval"@ || to == "result_ready"@ || to == "downloaded"@)
            },
        forall|j: int|
            0 <= j < 11 ==> {
                let to = #[trigger] progress_states()[j];
                transition_allowed("failed"@, to) <==> (false)
            },
        forall|j: int|
            0 <= j < 11 ==> {
                let to = #[trigger] progress_states()[j];
                transition_allowed("cancelled"@, to) <==> (false)
            },
        forall|j: int|
            0 <= j < 11 ==> {
                let to = #[trigger] progress_states()[j];
                transition_allowed("expired"@, to) <==> (false)
            },
{
    reveal_strlit("local_created");
    reveal_strlit("admission_pending");
    reveal_strlit("admitted");
    reveal_strlit("staging");
    reveal_strlit("submitted");
    reveal_strlit("cloud_running");
    reveal_strlit("awaiting_approval");
    reveal_strlit("paused");
    reveal_strlit("result_ready");
    reveal_strlit("downloaded");
    reveal_strlit("acknowledged");
    reveal_strlit("reconciliation_required");
    reveal_strlit("failed");
    reveal_strlit("cancelled");
    reveal_strlit("expired");
    assert("local_created"@.len() == 13);
    assert("admission_pending"@.len() == 17);
    assert("admitted"@.len() == 8);
    assert("staging"@.len() == 7);
    assert("submitted"@.len() == 9);
    assert("cloud_running"@.len() == 13);
    assert("awaiting_approval"@.len() == 17);
    assert("paused"@.len() == 6);
    assert("result_ready"@.len() == 12);
    assert("downloaded"@.len() == 10);
    assert("acknowledged"@.len() == 12);
    assert("reconciliation_required"@.len() == 23);
    assert("failed"@.len() == 6);
    assert("cancelled"@.len() == 9);
    assert("expired"@.len() == 7);
    assert("local_created"@[0] == 'l');
    assert("admission_pending"@[0] == 'a');
    assert("admitted"@[0] == 'a');
    assert("staging"@[0] == 's');
    assert("submitted"@[0] == 's');
    assert("cloud_running"@[0] == 'c');
    assert("awaiting_approval"@[0] == 'a');
    assert("paused"@[0] == 'p');
    assert("result_ready"@[0] == 'r');
    assert("downloaded"@[0] == 'd');
    assert("acknowledged"@[0] == 'a');
    assert("reconciliation_required"@[0] == 'r');
    assert("failed"@[0] == 'f');
    assert("cancelled"@[0] == 'c');
    assert("expired"@[0] == 'e');
    assert("admission_pending"@[1] == 'd');
    assert("awaiting_approval"@[1] == 'w');
    lemma_state_names_distinct();
}

/// Any non-terminal state can fail, be cancelled, expire, or be sent to
/// reconciliation.
pub proof fn law_live_states_can_escape(from: Seq<char>, to: Seq<char>)
    requires
        !is_terminal_state(from),
        is_escape_target(to),
    ensures
        transition_allowed(from, to),
{
}

/// An event whose stored hash differs from the hash of its own contents
/// breaks the chain.
pub proof fn law_altered_event_detected(events: Seq<EventView>, i: int)
    requires
        0 <= i < events.len(),
        events[i].event_hash != recomputed_hash(events[i]),
    ensures
        !chain_valid(events),
{
}

/// An event that does not link to its predecessor's hash (or, first in the
/// log, to the genesis hash) breaks the chain.
pub proof fn law_broken_link_detected(events: Seq<EventView>, i: int)
    requires
        0 <= i < events.len(),
        events[i].prev_event_hash != expected_prev(events, i),
    ensures
        !chain_valid(events),
{
}

/// A successful transition moves the record to the target state, raises its
/// revision by exactly one, and leaves every other record as it was.
pub proof fn law_transition_advances_one_record(
    m: MachineView,
    id: Seq<char>,
    expected: i64,
    target: Seq<char>,
    now: Seq<char>,
    other: Seq<char>,
)
    requires
        m.transition_succeeds(id, expected, target),
        other != id,
    ensures
        m.after_transition(id, target, now).records.dom() == m.records.dom(),
        m.after_transition(id, target, now).records[id].state == target,
        expected < i64::MAX ==> m.after_transition(id, target, now).records[id].revision == expected
            + 1,
        m.after_transition(id, target, now).records[other] == m.records[other],
{
    assert(m.after_transition(id, target, now).records.dom() =~= m.records.dom());
}

/// A successful transition changes only the record's state, revision and
/// update time: its request id, matter, task hash, cloud run, result
/// reference, result hash and creation time stay as they were, and its update
/// time becomes the transition's time.
pub proof fn law_transition_keeps_record_fields(
    m: MachineView,
    id: Seq<char>,
    expected: i64,
    target: Seq<char>,
    now: Seq<char>,
)
    requires
        m.transition_succeeds(id, expected, target),
    ensures
        ({
            let before = m.records[id];
            let after = m.after_transition(id, target, now).records[id];
            &&& after.desktop_request_id == before.desktop_request_id
            &&& after.matter_id == before.matter_id
            &&& after.task_hash == before.task_hash
            &&& after.cloud_run_id == before.cloud_run_id
            &&& after.result_reference == before.result_reference
            &&& after.result_hash == before.result_hash
            &&& after.created_at == before.created_at
            &&& after.updated_at == now
        }),
{
}

/// A created record starts fresh: it holds the given request id, matter and
/// task hash, is in state 'local_created' at revision 1, has no cloud run,
/// result reference or result hash yet, and was created and updated at the
/// request's time. Creating an id that exists changes nothing.
pub proof fn law_created_record_is_fresh(
    m: MachineView,
    id: Seq<char>,
    matter_id: Seq<char>,
    task_hash: Seq<char>,
    now: Seq<char>,
)
    ensures
        ({
            let after = apply_request(
                m,
                OutboxRequest::Create { id, matter_id, task_hash, now },
            );
            &&& after.records.dom().contains(id)
            &&& !m.records.dom().contains(id) ==> {
                let rec = after.records[id];
                &&& rec.desktop_request_id == id
                &&& rec.matter_id == matter_id
                &&& rec.task_hash == task_hash
                &&& rec.state == "local_created"@
                &&& rec.revision == 1
                &&& rec.cloud_run_id is None
                &&& rec.result_reference is None
                &&& rec.result_hash is None
                &&& rec.created_at == now
                &&& rec.updated_at == now
                &&& after.events == m.events
            }
            &&& m.records.dom().contains(id) ==> after == m
        }),
{
}

/// A successful transition appends exactly one event, linked to the previous
/// chain head, and the new chain head is that event's hash.
pub proof fn law_transition_extends_log(
    m: MachineView,
    id: Seq<char>,
    target: Seq<char>,
    now: Seq<char>,
)
    ensures
        m.after_transition(id, target, now).events.len() == m.events.len() + 1,
        m.after_transition(id, target, now).events.subrange(0, m.events.len() as int) == m.events,
        m.after_transition(id, target, now).events.last().prev_event_hash == m.latest_event_hash,
        m.after_transition(id, target, now).latest_event_hash == m.after_transition(
            id,
            target,
            now,
        ).events.last().event_hash,
{
    assert(m.after_transition(id, target, now).events.subrange(0, m.events.len() as int)
        =~= m.events);
}

/// Compare-and-swap: once a transition at revision `expected` has succeeded,
/// every further request made at that same revision is refused as stale.
pub proof fn law_stale_revision_refused(
    m: MachineView,
    id: Seq<char>,
    expected: i64,
    first: Seq<char>,
    second: Seq<char>,
    now: Seq<char>,
)
    requires
        m.transition_succeeds(id, expected, first),
        expected < i64::MAX,
    ensures
        m.after_transition(id, first, now).records[id].revision == expected + 1,
        m.after_transition(id, first, now).records[id].state == first,
        !m.after_transition(id, first, now).transition_succeeds(id, expected, second),
{
}

/// A record stays as it is while other records are created or moved: only a
/// transition of its own id changes it (refused operations change nothing).
pub proof fn law_record_survives_other_operations(
    m: MachineView,
    k: Seq<char>,
    moved: Seq<char>,
    target: Seq<char>,
    now: Seq<char>,
    created: RecordView,
)
    requires
        m.records.dom().contains(k),
        moved != k,
        created.desktop_request_id != k,
    ensures
        m.after_transition(moved, target, now).records.dom().contains(k),
        m.after_transition(moved, target, now).records[k] == m.records[k],
        m.with_record(created).records.dom().contains(k),
        m.with_record(created).records[k] == m.records[k],
{
}

/// The fields of an event that its hash covers.
pub open spec fn hashed_fields(e: EventView) -> (Seq<char>, Seq<char>, Seq<char>, Seq<char>, i64, Seq<char>) {
    (e.prev_event_hash, e.request_id, e.from_state, e.to_state, e.revision, e.timestamp)
}

/// The bytes an event's hash covers.
pub open spec fn preimage_of(e: EventView) -> Seq<u8> {
    event_preimage(e.prev_event_hash, e.request_id, e.from_state, e.to_state, e.revision, e.timestamp)
}

/// Every text field of the event fits the eight-byte length prefix.
pub open spec fn event_fits(e: EventView) -> bool {
    &&& field_fits(e.prev_event_hash)
    &&& field_fits(e.request_id)
    &&& field_fits(e.from_state)
    &&& field_fits(e.to_state)
    &&& field_fits(e.timestamp)
}

/// Tampering is caught: in a valid chain, changing any hashed field of one
/// event (its link, request id, states, revision or timestamp) while leaving
/// the stored hashes alone makes the chain invalid, unless the changed
/// preimage collides with the original under SHA-256.
pub proof fn law_tampered_event_detected(events: Seq<EventView>, i: int, altered: EventView)
    requires
        chain_valid(events),
        0 <= i < events.len(),
        altered.event_hash == events[i].event_hash,
        hashed_fields(altered) != hashed_fields(events[i]),
        event_fits(altered),
        event_fits(events[i]),
        sha256_of(preimage_of(altered)) == sha256_of(preimage_of(events[i])) ==> preimage_of(altered)
            == preimage_of(events[i]),
    ensures
        !chain_valid(events.update(i, altered)),
{
    let tampered = events.update(i, altered);
    if chain_valid(tampered) {
        let e = events[i];
        assert(tampered[i] == altered);
        assert(altered.event_hash == recomputed_hash(altered));
        assert(e.event_hash == recomputed_hash(e));
        reveal(event_hash_of);
        lemma_sha256_label_injective(sha256_of(preimage_of(altered)), sha256_of(preimage_of(e)));
        lemma_event_preimage_injective(
            altered.prev_event_hash,
            altered.request_id,
            altered.from_state,
            altered.to_state,
            altered.revision,
            altered.timestamp,
            e.prev_event_hash,
            e.request_id,
            e.from_state,
            e.to_state,
            e.revision,
            e.timestamp,
        );
        assert(hashed_fields(altered) == hashed_fields(e));
    }
}

/// No request in the sequence moves record `k`.
pub open spec fn no_move_of(reqs: Seq<OutboxRequest>, k: Seq<char>) -> bool {
    forall|i: int| 0 <= i < reqs.len() ==> !(#[trigger] reqs[i] matches OutboxRequest::Move { id, .. } && id == k)
}

/// Read-back across any sequence of requests: once a record exists, it reads
/// back unchanged after any requests that do not move it, whether they create
/// other records, move other records, or are refused.
pub proof fn law_read_back_through_requests(m: MachineView, reqs: Seq<OutboxRequest>, k: Seq<char>)
    requires
        m.records.dom().contains(k),
        no_move_of(reqs, k),
    ensures
        apply_requests(m, reqs).records.dom().contains(k),
        apply_requests(m, reqs).records[k] == m.records[k],
    decreases reqs.len(),
{
    if reqs.len() > 0 {
        let init = reqs.drop_last();
        assert forall|i: int| 0 <= i < init.len() implies !(#[trigger] init[i] matches OutboxRequest::Move {
            id,
            ..
        } && id == k) by {
            assert(init[i] == reqs[i]);
        }
        law_read_back_through_requests(m, init, k);
        assert(!(reqs[reqs.len() - 1] matches OutboxRequest::Move { id, .. } && id == k));
    }
}

/// One request keeps the audit log a valid chain headed by the latest hash.
pub proof fn law_request_keeps_chain(m: MachineView, req: OutboxRequest)
    requires
        chain_valid(m.events),
        m.latest_event_hash == chain_head(m.events),
    ensures
        chain_valid(apply_request(m, req).events),
        apply_request(m, req).latest_event_hash == chain_head(apply_request(m, req).events),
{
    if let OutboxRequest::Move { id, expected, target, now } = req {
        if m.transition_succeeds(id, expected, target) {
            let ne = m.after_transition(id, target, now).events;
            let old = m.events;
            assert forall|k: int| #![trigger ne[k]] 0 <= k < ne.len() implies {
                &&& ne[k].prev_event_hash == expected_prev(ne, k)
                &&& ne[k].event_hash == recomputed_hash(ne[k])
            } by {
                if k < old.len() {
                    assert(ne[k] == old[k]);
                }
                if k > 0 {
                    assert(ne[k - 1] == old[k - 1]);
                }
            }
        }
    }
}

/// Any sequence of requests keeps the audit log a valid chain headed by the
/// latest hash, so `verify_event_chain` keeps reporting true.
pub proof fn law_requests_keep_chain(m: MachineView, reqs: Seq<OutboxRequest>)
    requires
        chain_valid(m.events),
        m.latest_event_hash == chain_head(m.events),
    ensures
        chain_valid(apply_requests(m, reqs).events),
        apply_requests(m, reqs).latest_event_hash == chain_head(apply_requests(m, reqs).events),
    decreases reqs.len(),
{
    if reqs.len() > 0 {
        law_requests_keep_chain(m, reqs.drop_last());
        law_request_keeps_chain(apply_requests(m, reqs.drop_last()), reqs.last());
    }
}

/// A record that was created can be read back as it was created.
pub proof fn law_read_after_create(m: MachineView, rec: RecordView)
    ensures
        m.with_record(rec).records.dom().contains(rec.desktop_request_id),
        m.with_record(rec).records[rec.desktop_request_id] == rec,
{
}

} // verus!
