//! What holds of every sweep, proved over the engine's transition and the
//! store's rules.

use vstd::prelude::*;
use vstd::set_lib::{lemma_int_range, lemma_len_subset, set_int_range};
use crate::messaging::entry_of;
use crate::models::{ids_of, MessageView};
use crate::outbox::{
    before, claimable, has_distinct_ids, is_claim, is_topic_listing, mark_spec, pending_of,
};
use crate::sweeper::{
    idle, one_topic, send_outcome_spec, step_spec, ActionView, EventView, Outcome, Phase, Scope,
    SweepView,
};

verus! {

/// The table after the store has carried out `action` at time `now`: only a
/// mark changes it.
pub open spec fn table_after(rows: Seq<MessageView>, action: ActionView, now: i64) -> Seq<
    MessageView,
> {
    match action {
        ActionView::MarkDispatched { ids } => mark_spec(rows, ids, now),
        _ => rows,
    }
}

/// Where no row is pending, a sweep lists no topic, asks for nothing else,
/// ends with success and leaves the table as it was.
pub proof fn lemma_nothing_pending_is_a_noop(
    rows: Seq<MessageView>,
    topics: Seq<Seq<char>>,
    batch_limit: i32,
    now: i64,
)
    requires
        forall|i: int| 0 <= i < rows.len() ==> !(#[trigger] rows[i]).is_pending(),
        is_topic_listing(rows, topics),
    ensures
        topics.len() == 0,
        step_spec(idle(batch_limit), EventView::Started).1 == ActionView::ListPendingTopics,
        step_spec(
            step_spec(idle(batch_limit), EventView::Started).0,
            EventView::TopicsListed(topics),
        ).1 == (ActionView::Finish { outcome: Outcome::Completed }),
        step_spec(
            step_spec(idle(batch_limit), EventView::Started).0,
            EventView::TopicsListed(topics),
        ).0.phase == Phase::Done,
        table_after(rows, step_spec(idle(batch_limit), EventView::Started).1, now) == rows,
        table_after(
            rows,
            step_spec(
                step_spec(idle(batch_limit), EventView::Started).0,
                EventView::TopicsListed(topics),
            ).1,
            now,
        ) == rows,
{
    if topics.len() > 0 {
        let t = topics[0];
        assert(topics.contains(t));
        let w = choose|w: int| pending_of(rows, w, t);
        assert(rows[w].is_pending());
    }
}

/// Marking is one-way: it keeps the table's length, gives every pending row
/// it names the time of the mark, and leaves every other row as it was. So a
/// delivery time that is set is neither cleared nor changed, and nothing but
/// the delivery time of a row ever changes.
pub proof fn lemma_mark_is_monotonic(rows: Seq<MessageView>, ids: Seq<i64>, now: i64, i: int)
    requires
        0 <= i < rows.len(),
    ensures
        mark_spec(rows, ids, now).len() == rows.len(),
        ids.contains(rows[i].id) && rows[i].is_pending() ==> mark_spec(rows, ids, now)[i].dispatched
            == Some(now),
        !ids.contains(rows[i].id) ==> mark_spec(rows, ids, now)[i] == rows[i],
        !rows[i].is_pending() ==> mark_spec(rows, ids, now)[i] == rows[i],
        mark_spec(rows, ids, now)[i] == (MessageView {
            dispatched: mark_spec(rows, ids, now)[i].dispatched,
            ..rows[i]
        }),
{
}

/// In a table whose rows have distinct identifiers, no identifier occurs
/// twice in a claimed batch.
pub proof fn lemma_claim_ids_are_distinct(
    rows: Seq<MessageView>,
    locked: Seq<i64>,
    topic: Seq<char>,
    limit: int,
    picks: Seq<int>,
    batch: Seq<MessageView>,
)
    requires
        has_distinct_ids(rows),
        is_claim(rows, locked, topic, limit, picks, batch),
    ensures
        ids_of(batch).no_duplicates(),
{
    let ids = ids_of(batch);
    assert forall|k: int, l: int| 0 <= k < ids.len() && 0 <= l < ids.len() && k != l implies ids[k]
        != ids[l] by {
        let a = picks[k];
        let c = picks[l];
        assert(batch[k] == rows[a]);
        assert(batch[l] == rows[c]);
        if k < l {
            assert(before(rows, picks[k], picks[l]));
        } else {
            assert(before(rows, picks[l], picks[k]));
        }
        if a < c {
            assert(rows[a].id != rows[c].id);
        } else {
            assert(rows[c].id != rows[a].id);
        }
    }
}

/// In a table whose rows have distinct identifiers, the mark of a delivered
/// batch changes the rows of the batch and no other: every row that the
/// claim did not take is as it was.
pub proof fn lemma_mark_changes_only_the_batch(
    rows: Seq<MessageView>,
    locked: Seq<i64>,
    topic: Seq<char>,
    limit: int,
    picks: Seq<int>,
    batch: Seq<MessageView>,
    now: i64,
)
    requires
        has_distinct_ids(rows),
        is_claim(rows, locked, topic, limit, picks, batch),
    ensures
        forall|j: int|
            0 <= j < rows.len() && !picks.contains(j) ==> #[trigger] mark_spec(
                rows,
                ids_of(batch),
                now,
            )[j] == rows[j],
        forall|k: int|
            0 <= k < picks.len() ==> mark_spec(rows, ids_of(batch), now)[#[trigger] picks[k]] == (
            MessageView { dispatched: Some(now), ..batch[k] }),
{
    let ids = ids_of(batch);
    assert forall|j: int| 0 <= j < rows.len() && !picks.contains(j) implies #[trigger] mark_spec(
        rows,
        ids,
        now,
    )[j] == rows[j] by {
        if ids.contains(rows[j].id) {
            let k = choose|k: int| 0 <= k < ids.len() && ids[k] == rows[j].id;
            let a = picks[k];
            assert(batch[k] == rows[a]);
            assert(picks.contains(a));
            if a < j {
                assert(rows[a].id != rows[j].id);
            } else {
                assert(rows[j].id != rows[a].id);
            }
        }
    }
    assert forall|k: int| 0 <= k < picks.len() implies mark_spec(rows, ids, now)[#[trigger] picks[k]]
        == (MessageView { dispatched: Some(now), ..batch[k] }) by {
        assert(ids[k] == rows[picks[k]].id);
        assert(batch[k] == rows[picks[k]]);
    }
}

/// A delivered batch is marked whole: once the transport has accepted a
/// claimed batch, the engine asks the store to mark exactly the rows of that
/// batch.
pub proof fn lemma_delivered_batch_is_marked(s: SweepView, messages: Seq<MessageView>)
    requires
        s.phase == Phase::Claiming,
        messages.len() > 0,
    ensures
        step_spec(step_spec(s, EventView::BatchClaimed(messages)).0, EventView::BatchSent).1 == (
        ActionView::MarkDispatched { ids: ids_of(messages) }),
{
}

/// After the mark of a delivered batch every row of the batch is dispatched
/// at the time of the mark, and every row whose identifier is not among the
/// batch's is as it was.
pub proof fn lemma_delivered_rows_become_dispatched(
    rows: Seq<MessageView>,
    locked: Seq<i64>,
    topic: Seq<char>,
    limit: int,
    picks: Seq<int>,
    batch: Seq<MessageView>,
    now: i64,
)
    requires
        is_claim(rows, locked, topic, limit, picks, batch),
    ensures
        forall|k: int|
            0 <= k < picks.len() ==> mark_spec(rows, ids_of(batch), now)[#[trigger] picks[k]].dispatched
                == Some(now),
        forall|j: int|
            0 <= j < rows.len() && !ids_of(batch).contains(rows[j].id) ==> #[trigger] mark_spec(
                rows,
                ids_of(batch),
                now,
            )[j] == rows[j],
{
    assert forall|k: int| 0 <= k < picks.len() implies mark_spec(rows, ids_of(batch), now)[#[trigger] picks[k]].dispatched
        == Some(now) by {
        assert(ids_of(batch)[k] == rows[picks[k]].id);
        assert(claimable(rows[picks[k]], locked, topic));
    }
}

/// The engine asks for a mark only when the transport has just accepted the
/// batch in flight, and then for the rows of that batch.
pub proof fn lemma_mark_only_after_delivery(s: SweepView, e: EventView)
    ensures
        step_spec(s, e).1 is MarkDispatched ==> s.phase == Phase::Sending && e
            == EventView::BatchSent && step_spec(s, e).1 == (ActionView::MarkDispatched {
            ids: s.claimed,
        }),
{
}

/// A batch that the transport rejected stays pending: the engine drops the
/// batch, asks for no mark, and the table is as it was.
pub proof fn lemma_rejected_batch_stays_pending(s: SweepView, rows: Seq<MessageView>, now: i64)
    requires
        s.phase == Phase::Sending,
    ensures
        !(step_spec(s, EventView::SendFailed).1 is MarkDispatched),
        step_spec(s, EventView::SendFailed).0.claimed.len() == 0,
        table_after(rows, step_spec(s, EventView::SendFailed).1, now) == rows,
{
}

/// In a sweep over every topic, a failure within one topic does not end the
/// sweep while topics are left: the engine goes on to claim the next one.
pub proof fn lemma_topic_failure_is_contained(s: SweepView, e: EventView)
    requires
        s.wf(),
        s.scope == Scope::AllTopics,
        s.cursor + 1 < s.topics.len(),
        (s.phase == Phase::Claiming && e == EventView::ClaimFailed) || (s.phase == Phase::Sending
            && e == EventView::SendFailed) || (s.phase == Phase::Marking && e
            == EventView::MarkFailed),
    ensures
        step_spec(s, e).0.phase == Phase::Claiming,
        step_spec(s, e).1 == (ActionView::ClaimBatch {
            topic: s.topics[s.cursor + 1],
            limit: s.batch_limit,
        }),
{
}

/// A sweep for one topic does not hide the store's failure: where the claim
/// fails, the sweep ends with `ClaimFailed`, having asked for no send and no
/// mark, and the table is as it was.
pub proof fn lemma_one_topic_claim_failure_is_reported(
    batch_limit: i32,
    topic: Seq<char>,
    rows: Seq<MessageView>,
    now: i64,
)
    ensures
        one_topic(batch_limit, topic).0.wf(),
        one_topic(batch_limit, topic).1 == (ActionView::ClaimBatch { topic, limit: batch_limit }),
        step_spec(one_topic(batch_limit, topic).0, EventView::ClaimFailed).1 == (
        ActionView::Finish { outcome: Outcome::ClaimFailed }),
        step_spec(one_topic(batch_limit, topic).0, EventView::ClaimFailed).0.phase == Phase::Done,
        table_after(
            rows,
            step_spec(one_topic(batch_limit, topic).0, EventView::ClaimFailed).1,
            now,
        ) == rows,
{
}

/// A sweep ends with `ClaimFailed` only where it was for one topic and the
/// store failed on that topic's claim; a sweep over every topic never does.
pub proof fn lemma_claim_failure_is_reported_only_for_one_topic(s: SweepView, e: EventView)
    ensures
        step_spec(s, e).1 == (ActionView::Finish { outcome: Outcome::ClaimFailed }) ==> s.scope
            == Scope::OneTopic && s.phase == Phase::Claiming && e == EventView::ClaimFailed,
        step_spec(s, e).0.scope == s.scope,
{
}

/// Two claims that are open at once share no row: a claim made while the
/// rows of another are locked takes none of them, whatever the topics and
/// limits of the two.
pub proof fn lemma_concurrent_claims_are_disjoint(
    rows: Seq<MessageView>,
    first_locked: Seq<i64>,
    first_topic: Seq<char>,
    first_limit: int,
    first_picks: Seq<int>,
    first_batch: Seq<MessageView>,
    second_locked: Seq<i64>,
    second_topic: Seq<char>,
    second_limit: int,
    second_picks: Seq<int>,
    second_batch: Seq<MessageView>,
)
    requires
        is_claim(rows, first_locked, first_topic, first_limit, first_picks, first_batch),
        is_claim(rows, second_locked, second_topic, second_limit, second_picks, second_batch),
        forall|k: int|
            0 <= k < first_batch.len() ==> second_locked.contains((#[trigger] first_batch[k]).id),
    ensures
        forall|k: int, l: int|
            0 <= k < first_picks.len() && 0 <= l < second_picks.len() ==> #[trigger] first_picks[k]
                != #[trigger] second_picks[l] && first_batch[k].id != second_batch[l].id,
{
    assert forall|k: int, l: int|
        0 <= k < first_picks.len() && 0 <= l < second_picks.len() implies #[trigger] first_picks[k]
        != #[trigger] second_picks[l] && first_batch[k].id != second_batch[l].id by {
        assert(second_locked.contains(first_batch[k].id));
        assert(claimable(rows[second_picks[l]], second_locked, second_topic));
        assert(first_batch[k] == rows[first_picks[k]]);
        assert(second_batch[l] == rows[second_picks[l]]);
    }
}

/// A claim is oldest first: creation times never decrease along the batch,
/// no claimable row left behind is older than a row taken, and rows are left
/// behind only where the batch is full.
pub proof fn lemma_claim_is_oldest_first(
    rows: Seq<MessageView>,
    locked: Seq<i64>,
    topic: Seq<char>,
    limit: int,
    picks: Seq<int>,
    batch: Seq<MessageView>,
)
    requires
        is_claim(rows, locked, topic, limit, picks, batch),
    ensures
        forall|k: int, l: int|
            0 <= k < l < batch.len() ==> (#[trigger] batch[k]).timestamp <= (#[trigger] batch[l]).timestamp,
        forall|j: int, k: int|
            0 <= j < rows.len() && claimable(#[trigger] rows[j], locked, topic) && !picks.contains(
                j,
            ) && 0 <= k < batch.len() ==> (#[trigger] batch[k]).timestamp <= rows[j].timestamp,
        batch.len() < limit ==> forall|j: int|
            0 <= j < rows.len() && claimable(#[trigger] rows[j], locked, topic) ==> picks.contains(
                j,
            ),
{
    assert forall|k: int, l: int| 0 <= k < l < batch.len() implies (#[trigger] batch[k]).timestamp
        <= (#[trigger] batch[l]).timestamp by {
        assert(before(rows, picks[k], picks[l]));
    }
    assert forall|j: int, k: int|
        0 <= j < rows.len() && claimable(#[trigger] rows[j], locked, topic) && !picks.contains(j)
            && 0 <= k < batch.len() implies (#[trigger] batch[k]).timestamp
        <= rows[j].timestamp by {
        let last = picks.len() - 1;
        assert(before(rows, picks[last], j));
        if k < last {
            assert(before(rows, picks[k], picks[last]));
        }
        assert(batch[k] == rows[picks[k]]);
    }
}

/// No action of the engine touches a dispatched row: whatever the engine
/// asks for, a row that has a delivery time stays as it is, with that time.
pub proof fn lemma_no_action_changes_a_dispatch(
    rows: Seq<MessageView>,
    s: SweepView,
    e: EventView,
    now: i64,
    i: int,
)
    requires
        0 <= i < rows.len(),
        !rows[i].is_pending(),
    ensures
        table_after(rows, step_spec(s, e).1, now).len() == rows.len(),
        table_after(rows, step_spec(s, e).1, now)[i] == rows[i],
{
}

/// No action of the engine removes a row or changes anything of a row but
/// its delivery time.
pub proof fn lemma_no_action_changes_more_than_dispatch(
    rows: Seq<MessageView>,
    s: SweepView,
    e: EventView,
    now: i64,
    i: int,
)
    requires
        0 <= i < rows.len(),
    ensures
        table_after(rows, step_spec(s, e).1, now).len() == rows.len(),
        table_after(rows, step_spec(s, e).1, now)[i] == (MessageView {
            dispatched: table_after(rows, step_spec(s, e).1, now)[i].dispatched,
            ..rows[i]
        }),
{
}

/// A claim leaves no claimable row behind that comes before a row it took:
/// such a row stands in the batch, ahead of that row.
pub proof fn lemma_earlier_claimable_is_taken(
    rows: Seq<MessageView>,
    locked: Seq<i64>,
    topic: Seq<char>,
    limit: int,
    picks: Seq<int>,
    batch: Seq<MessageView>,
    j: int,
    k: int,
) -> (m: int)
    requires
        is_claim(rows, locked, topic, limit, picks, batch),
        0 <= j < rows.len(),
        claimable(rows[j], locked, topic),
        0 <= k < picks.len(),
        before(rows, j, picks[k]),
    ensures
        0 <= m < k,
        picks[m] == j,
{
    let last = picks.len() - 1;
    if !picks.contains(j) {
        assert(before(rows, picks[last], j));
        if k < last {
            assert(before(rows, picks[k], picks[last]));
        }
        assert(false);
    }
    let m = choose|m: int| 0 <= m < picks.len() && picks[m] == j;
    if m > k {
        assert(before(rows, picks[k], picks[m]));
    }
    m
}

/// Two claims on one table, with the same locks, topic and limit, agree on
/// their first `k` rows.
pub proof fn lemma_claims_agree(
    rows: Seq<MessageView>,
    locked: Seq<i64>,
    topic: Seq<char>,
    limit: int,
    first_picks: Seq<int>,
    first_batch: Seq<MessageView>,
    second_picks: Seq<int>,
    second_batch: Seq<MessageView>,
    k: int,
)
    requires
        is_claim(rows, locked, topic, limit, first_picks, first_batch),
        is_claim(rows, locked, topic, limit, second_picks, second_batch),
        0 <= k <= first_picks.len(),
        k <= second_picks.len(),
    ensures
        forall|i: int| 0 <= i < k ==> first_picks[i] == second_picks[i],
    decreases k,
{
    if k > 0 {
        lemma_claims_agree(
            rows,
            locked,
            topic,
            limit,
            first_picks,
            first_batch,
            second_picks,
            second_batch,
            k - 1,
        );
        let a = first_picks[k - 1];
        let c = second_picks[k - 1];
        if a != c {
            if before(rows, a, c) {
                let m = lemma_earlier_claimable_is_taken(
                    rows,
                    locked,
                    topic,
                    limit,
                    second_picks,
                    second_batch,
                    a,
                    k - 1,
                );
                assert(first_picks[m] == second_picks[m]);
                assert(before(rows, first_picks[m], first_picks[k - 1]));
            } else {
                assert(before(rows, c, a));
                let m = lemma_earlier_claimable_is_taken(
                    rows,
                    locked,
                    topic,
                    limit,
                    first_picks,
                    first_batch,
                    c,
                    k - 1,
                );
                assert(first_picks[m] == second_picks[m]);
                assert(before(rows, second_picks[m], second_picks[k - 1]));
            }
            assert(false);
        }
    }
}

/// A claim that is not longer than another on the same table, locks, topic
/// and limit is as long as the other.
pub proof fn lemma_claims_are_as_long(
    rows: Seq<MessageView>,
    locked: Seq<i64>,
    topic: Seq<char>,
    limit: int,
    first_picks: Seq<int>,
    first_batch: Seq<MessageView>,
    second_picks: Seq<int>,
    second_batch: Seq<MessageView>,
)
    requires
        is_claim(rows, locked, topic, limit, first_picks, first_batch),
        is_claim(rows, locked, topic, limit, second_picks, second_batch),
        first_picks.len() <= second_picks.len(),
    ensures
        first_picks.len() == second_picks.len(),
{
    let n = first_picks.len() as int;
    if n < second_picks.len() {
        lemma_claims_agree(
            rows,
            locked,
            topic,
            limit,
            first_picks,
            first_batch,
            second_picks,
            second_batch,
            n,
        );
        let j = second_picks[n];
        if first_picks.contains(j) {
            let m = choose|m: int| 0 <= m < first_picks.len() && first_picks[m] == j;
            assert(first_picks[m] == second_picks[m]);
            assert(before(rows, second_picks[m], second_picks[n]));
        }
        assert(claimable(rows[j], locked, topic));
        assert(false);
    }
}

/// What a claim returns is determined by the table, the locks, the topic and
/// the limit: two claims on the same of each are the same batch, taken from
/// the same positions.
pub proof fn lemma_claim_is_determined(
    rows: Seq<MessageView>,
    locked: Seq<i64>,
    topic: Seq<char>,
    limit: int,
    first_picks: Seq<int>,
    first_batch: Seq<MessageView>,
    second_picks: Seq<int>,
    second_batch: Seq<MessageView>,
)
    requires
        is_claim(rows, locked, topic, limit, first_picks, first_batch),
        is_claim(rows, locked, topic, limit, second_picks, second_batch),
    ensures
        first_picks == second_picks,
        first_batch == second_batch,
{
    if first_picks.len() <= second_picks.len() {
        lemma_claims_are_as_long(
            rows,
            locked,
            topic,
            limit,
            first_picks,
            first_batch,
            second_picks,
            second_batch,
        );
    } else {
        lemma_claims_are_as_long(
            rows,
            locked,
            topic,
            limit,
            second_picks,
            second_batch,
            first_picks,
            first_batch,
        );
    }
    lemma_claims_agree(
        rows,
        locked,
        topic,
        limit,
        first_picks,
        first_batch,
        second_picks,
        second_batch,
        first_picks.len() as int,
    );
    assert(first_picks =~= second_picks);
    assert forall|k: int| 0 <= k < first_batch.len() implies first_batch[k] == second_batch[k] by {
        assert(first_batch[k] == rows[first_picks[k]]);
        assert(second_batch[k] == rows[second_picks[k]]);
    }
    assert(first_batch =~= second_batch);
}

/// The steps that an invocation has at most before it ends, counted from the
/// claim of the current topic on: three for each topic left, less those
/// taken on the current one.
pub open spec fn work_left(s: SweepView) -> int {
    match s.phase {
        Phase::Claiming => 3 * (s.topics.len() - s.cursor),
        Phase::Sending => 3 * (s.topics.len() - s.cursor) - 1,
        Phase::Marking => 3 * (s.topics.len() - s.cursor) - 2,
        _ => 0,
    }
}

/// Within an invocation no topic is tried twice: every event that the engine
/// accepts while it works on the topics brings the end nearer, keeps the
/// list of topics, and never moves the cursor back.
pub proof fn lemma_sweep_makes_progress(s: SweepView, e: EventView)
    requires
        s.wf(),
        s.phase == Phase::Claiming || s.phase == Phase::Sending || s.phase == Phase::Marking,
        step_spec(s, e).1 != ActionView::Ignore,
    ensures
        0 <= work_left(step_spec(s, e).0) < work_left(s),
        step_spec(s, e).0.topics == s.topics,
        step_spec(s, e).0.cursor >= s.cursor,
        step_spec(s, e).0.batch_limit == s.batch_limit,
{
}

/// What goes to the transport is the claimed batch and nothing else: one
/// entry for each claimed row, in the order of the claim, keyed by the row's
/// `message_id` and carrying its `body`, and no more entries than the limit.
pub proof fn lemma_sent_batch_is_the_claim(
    s: SweepView,
    rows: Seq<MessageView>,
    locked: Seq<i64>,
    topic: Seq<char>,
    limit: int,
    picks: Seq<int>,
    batch: Seq<MessageView>,
)
    requires
        s.phase == Phase::Claiming,
        is_claim(rows, locked, topic, limit, picks, batch),
        batch.len() > 0,
    ensures
        step_spec(s, EventView::BatchClaimed(batch)).1 is SendBatch,
        step_spec(s, EventView::BatchClaimed(batch)).1->entries.len() == batch.len(),
        step_spec(s, EventView::BatchClaimed(batch)).1->entries.len() <= limit,
        forall|k: int|
            0 <= k < batch.len() ==> (#[trigger] step_spec(
                s,
                EventView::BatchClaimed(batch),
            ).1->entries[k]) == entry_of(rows[picks[k]]),
{
}

/// A batch of which the service refused any entry is treated as a batch that
/// failed: nothing of it is marked, and the table is as it was.
pub proof fn lemma_partial_rejection_marks_nothing(
    s: SweepView,
    rows: Seq<MessageView>,
    call_succeeded: bool,
    refused_entries: usize,
    now: i64,
)
    requires
        s.phase == Phase::Sending,
        !call_succeeded || refused_entries > 0,
    ensures
        !(step_spec(s, send_outcome_spec(call_succeeded, refused_entries)).1 is MarkDispatched),
        table_after(
            rows,
            step_spec(s, send_outcome_spec(call_succeeded, refused_entries)).1,
            now,
        ) == rows,
{
}

/// The engine and the table after a run of events, each answered by the
/// engine and each action carried out by the store at time `now`.
pub open spec fn sweep_along(
    s: SweepView,
    rows: Seq<MessageView>,
    events: Seq<EventView>,
    now: i64,
) -> (SweepView, Seq<MessageView>)
    decreases events.len(),
{
    if events.len() == 0 {
        (s, rows)
    } else {
        let next = step_spec(s, events[0]);
        sweep_along(next.0, table_after(rows, next.1, now), events.drop_first(), now)
    }
}

/// Dispatch is permanent: from any state of the engine and through any run
/// of events, the table keeps its length and a row that has a delivery time
/// stays as it is: its time is neither cleared nor changed.
pub proof fn lemma_dispatch_is_permanent(
    s: SweepView,
    rows: Seq<MessageView>,
    events: Seq<EventView>,
    now: i64,
    i: int,
)
    requires
        0 <= i < rows.len(),
        !rows[i].is_pending(),
    ensures
        sweep_along(s, rows, events, now).1.len() == rows.len(),
        sweep_along(s, rows, events, now).1[i] == rows[i],
    decreases events.len(),
{
    if events.len() > 0 {
        let next = step_spec(s, events[0]);
        lemma_no_action_changes_a_dispatch(rows, s, events[0], now, i);
        lemma_dispatch_is_permanent(
            next.0,
            table_after(rows, next.1, now),
            events.drop_first(),
            now,
            i,
        );
    }
}

/// No row is lost: from any state of the engine and through any run of
/// events, the table keeps its length and every row keeps its identifier
/// and everything else but its delivery time.
pub proof fn lemma_rows_are_kept(
    s: SweepView,
    rows: Seq<MessageView>,
    events: Seq<EventView>,
    now: i64,
    i: int,
)
    requires
        0 <= i < rows.len(),
    ensures
        sweep_along(s, rows, events, now).1.len() == rows.len(),
        sweep_along(s, rows, events, now).1[i] == (MessageView {
            dispatched: sweep_along(s, rows, events, now).1[i].dispatched,
            ..rows[i]
        }),
    decreases events.len(),
{
    if events.len() > 0 {
        let next = step_spec(s, events[0]);
        lemma_no_action_changes_more_than_dispatch(rows, s, events[0], now, i);
        lemma_rows_are_kept(next.0, table_after(rows, next.1, now), events.drop_first(), now, i);
    }
}

/// Rows change only upon delivery: through a run of events in which no
/// transport accepts a batch, the table stays as it was, whatever else
/// happens.
pub proof fn lemma_nothing_changes_without_delivery(
    s: SweepView,
    rows: Seq<MessageView>,
    events: Seq<EventView>,
    now: i64,
)
    requires
        forall|k: int| 0 <= k < events.len() ==> #[trigger] events[k] != EventView::BatchSent,
    ensures
        sweep_along(s, rows, events, now).1 == rows,
    decreases events.len(),
{
    if events.len() > 0 {
        let next = step_spec(s, events[0]);
        lemma_mark_only_after_delivery(s, events[0]);
        assert(table_after(rows, next.1, now) == rows);
        let rest = events.drop_first();
        assert forall|k: int| 0 <= k < rest.len() implies #[trigger] rest[k]
            != EventView::BatchSent by {
            assert(rest[k] == events[k + 1]);
        }
        lemma_nothing_changes_without_delivery(next.0, rows, rest, now);
    }
}

/// The positions of the rows that a claim for `topic` may take: pending, of
/// that topic, and not held by an open claim.
pub open spec fn claimable_rows(rows: Seq<MessageView>, locked: Seq<i64>, topic: Seq<char>) -> Set<
    int,
> {
    Set::new(|j: int| 0 <= j < rows.len() && claimable(rows[j], locked, topic))
}

/// A claim returns as many rows as the limit allows and the table has to
/// give: the smaller of the limit and the number of rows of the topic that
/// are pending and not held. Held rows are passed over, not counted and not
/// waited for.
pub proof fn lemma_claim_length(
    rows: Seq<MessageView>,
    locked: Seq<i64>,
    topic: Seq<char>,
    limit: int,
    picks: Seq<int>,
    batch: Seq<MessageView>,
)
    requires
        is_claim(rows, locked, topic, limit, picks, batch),
    ensures
        claimable_rows(rows, locked, topic).finite(),
        batch.len() == if limit <= claimable_rows(rows, locked, topic).len() {
            limit
        } else {
            claimable_rows(rows, locked, topic).len() as int
        },
{
    let open_rows = claimable_rows(rows, locked, topic);
    let all = set_int_range(0, rows.len() as int);
    lemma_int_range(0, rows.len() as int);
    assert(open_rows.subset_of(all));
    lemma_len_subset(open_rows, all);
    assert forall|k: int, l: int| 0 <= k < picks.len() && 0 <= l < picks.len() && k != l implies picks[k]
        != picks[l] by {
        if k < l {
            assert(before(rows, picks[k], picks[l]));
        } else {
            assert(before(rows, picks[l], picks[k]));
        }
    }
    picks.unique_seq_to_set();
    let taken = picks.to_set();
    assert forall|j: int| taken.contains(j) implies open_rows.contains(j) by {
        let k = choose|k: int| 0 <= k < picks.len() && picks[k] == j;
        assert(claimable(rows[picks[k]], locked, topic));
    }
    assert(taken.subset_of(open_rows));
    lemma_len_subset(taken, open_rows);
    if picks.len() < limit {
        assert forall|j: int| open_rows.contains(j) implies taken.contains(j) by {
            assert(claimable(rows[j], locked, topic));
            if !picks.contains(j) {
                assert(picks.len() == limit);
            }
        }
        assert(taken =~= open_rows);
    }
}

/// A claim with room for a row finds one where one can be claimed: with a
/// limit of at least one and a row of the topic that is pending and not
/// held, the batch is not empty.
pub proof fn lemma_claim_finds_a_claimable_row(
    rows: Seq<MessageView>,
    locked: Seq<i64>,
    topic: Seq<char>,
    limit: int,
    picks: Seq<int>,
    batch: Seq<MessageView>,
    j: int,
)
    requires
        is_claim(rows, locked, topic, limit, picks, batch),
        limit >= 1,
        0 <= j < rows.len(),
        claimable(rows[j], locked, topic),
    ensures
        batch.len() >= 1,
{
    if picks.len() == 0 {
        assert(!picks.contains(j));
    }
}

} // verus!
