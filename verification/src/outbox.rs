//! The outbox store's rules, over a table held in memory: which topics are
//! pending, which rows a claim returns, and what marking does. A store backed
//! by a database is expected to answer as these functions do.

use vstd::prelude::*;
use crate::models::{ids_of, message_ids, messages_view, strings_view, MessageView, OutboxMessage};

verus! {

/// Row `i` is pending and of topic `t`.
pub open spec fn pending_of(rows: Seq<MessageView>, i: int, t: Seq<char>) -> bool {
    0 <= i < rows.len() && rows[i].is_pending() && rows[i].message_type == t
}

/// Some row is pending and of topic `t`.
pub open spec fn has_pending(rows: Seq<MessageView>, t: Seq<char>) -> bool {
    exists|i: int| pending_of(rows, i, t)
}

/// `topics` lists, once each, exactly the topics that have a pending row.
pub open spec fn is_topic_listing(rows: Seq<MessageView>, topics: Seq<Seq<char>>) -> bool {
    &&& topics.no_duplicates()
    &&& forall|t: Seq<char>| #[trigger] topics.contains(t) <==> has_pending(rows, t)
}

/// A row can be claimed for `topic` while it is pending, of that topic, and
/// not locked by a claim that is still open.
pub open spec fn claimable(row: MessageView, locked: Seq<i64>, topic: Seq<char>) -> bool {
    row.is_pending() && row.message_type == topic && !locked.contains(row.id)
}

/// The order of dequeue: by creation time, and by position in the table among
/// rows of one time.
pub open spec fn before(rows: Seq<MessageView>, i: int, j: int) -> bool {
    rows[i].timestamp < rows[j].timestamp || (rows[i].timestamp == rows[j].timestamp && i < j)
}

/// The number of rows that a claim with this limit may return.
pub open spec fn cap(limit: i32) -> int {
    if limit < 0 {
        0
    } else {
        limit as int
    }
}

/// `batch` is the claim of up to `limit` rows for `topic`, taken from the
/// table at the positions `picks`: claimable rows only, in dequeue order, and
/// none left behind that comes before one taken or while there is room.
pub open spec fn is_claim(
    rows: Seq<MessageView>,
    locked: Seq<i64>,
    topic: Seq<char>,
    limit: int,
    picks: Seq<int>,
    batch: Seq<MessageView>,
) -> bool {
    &&& picks.len() == batch.len()
    &&& batch.len() <= limit
    &&& forall|k: int|
        0 <= k < picks.len() ==> 0 <= #[trigger] picks[k] < rows.len() && batch[k] == rows[picks[k]]
            && claimable(rows[picks[k]], locked, topic)
    &&& forall|k: int, l: int|
        0 <= k < l < picks.len() ==> before(rows, #[trigger] picks[k], #[trigger] picks[l])
    &&& forall|j: int|
        0 <= j < rows.len() && claimable(#[trigger] rows[j], locked, topic) && !picks.contains(j)
            ==> picks.len() == limit && (picks.len() > 0 ==> before(
            rows,
            picks[picks.len() - 1],
            j,
        ))
}

/// No two rows of the table share an identifier: the identifier is the
/// table's key.
pub open spec fn has_distinct_ids(rows: Seq<MessageView>) -> bool {
    forall|i: int, j: int|
        0 <= i < j < rows.len() ==> (#[trigger] rows[i]).id != (#[trigger] rows[j]).id
}

/// The table after the rows named by `ids` were marked dispatched at `now`:
/// the named rows that were pending carry `now`, every other row is as it
/// was. A delivery time that is set is never written again.
pub open spec fn mark_spec(rows: Seq<MessageView>, ids: Seq<i64>, now: i64) -> Seq<MessageView> {
    Seq::new(
        rows.len(),
        |i: int|
            if ids.contains(rows[i].id) && rows[i].is_pending() {
                MessageView { dispatched: Some(now), ..rows[i] }
            } else {
                rows[i]
            },
    )
}

/// Marking keeps the table's key: where no two rows share an identifier
/// before a mark, none do after it.
pub proof fn lemma_mark_keeps_distinct_ids(rows: Seq<MessageView>, ids: Seq<i64>, now: i64)
    requires
        has_distinct_ids(rows),
    ensures
        has_distinct_ids(mark_spec(rows, ids, now)),
{
    let marked = mark_spec(rows, ids, now);
    assert forall|i: int, j: int| 0 <= i < j < marked.len() implies (#[trigger] marked[i]).id != (
    #[trigger] marked[j]).id by {
        assert(rows[i].id != rows[j].id);
    }
}

/// Whether `id` is among `ids`.
pub fn contains_id(ids: &Vec<i64>, id: i64) -> (found: bool)
    ensures
        found == ids@.contains(id),
{
    let mut i: usize = 0;
    while i < ids.len()
        invariant
            i <= ids.len(),
            forall|j: int| 0 <= j < i ==> ids@[j] != id,
        decreases ids.len() - i,
    {
        if ids[i] == id {
            return true;
        }
        i += 1;
    }
    false
}

/// Whether `topic` is among `topics`.
pub fn contains_topic(topics: &Vec<String>, topic: &String) -> (found: bool)
    ensures
        found == strings_view(topics@).contains(topic@),
{
    let mut i: usize = 0;
    while i < topics.len()
        invariant
            i <= topics.len(),
            forall|j: int| 0 <= j < i ==> strings_view(topics@)[j] != topic@,
        decreases topics.len() - i,
    {
        if topics[i] == *topic {
            assert(strings_view(topics@)[i as int] == topic@);
            return true;
        }
        i += 1;
    }
    false
}

/// The distinct topics among the pending rows. Empty where nothing is
/// pending.
pub fn get_distinct_pending_topics(rows: &Vec<OutboxMessage>) -> (topics: Vec<String>)
    ensures
        is_topic_listing(messages_view(rows@), strings_view(topics@)),
{
    let ghost table = messages_view(rows@);
    let mut topics: Vec<String> = Vec::new();
    let mut i: usize = 0;
    while i < rows.len()
        invariant
            i <= rows.len(),
            table == messages_view(rows@),
            strings_view(topics@).no_duplicates(),
            forall|t: Seq<char>| #[trigger]
                strings_view(topics@).contains(t) <==> has_pending(table.take(i as int), t),
        decreases rows.len() - i,
    {
        let ghost before_topics = strings_view(topics@);
        let ghost t_i = rows[i as int].message_type@;
        let fresh = rows[i].is_pending() && !contains_topic(&topics, &rows[i].message_type);
        if fresh {
            topics.push(rows[i].message_type.clone());
            assert(strings_view(topics@) =~= before_topics.push(t_i));
        }
        proof {
            let after_topics = strings_view(topics@);
            let shorter = table.take(i as int);
            let longer = table.take(i + 1);
            assert forall|t: Seq<char>| #[trigger] after_topics.contains(t) <==> has_pending(
                longer,
                t,
            ) by {
                if after_topics.contains(t) {
                    if before_topics.contains(t) {
                        let w = choose|w: int| pending_of(shorter, w, t);
                        assert(pending_of(longer, w, t));
                    } else {
                        assert(fresh);
                        let k = choose|k: int| 0 <= k < after_topics.len() && after_topics[k] == t;
                        assert(k == before_topics.len());
                        assert(pending_of(longer, i as int, t));
                    }
                }
                if has_pending(longer, t) {
                    let w = choose|w: int| pending_of(longer, w, t);
                    if w < i {
                        assert(pending_of(shorter, w, t));
                        assert(before_topics.contains(t));
                        let k = choose|k: int|
                            0 <= k < before_topics.len() && before_topics[k] == t;
                        assert(after_topics[k] == t);
                    } else {
                        assert(t == t_i);
                        if fresh {
                            assert(after_topics[before_topics.len() as int] == t);
                        } else {
                            assert(before_topics.contains(t));
                        }
                    }
                }
            }
        }
        i += 1;
    }
    assert(table.take(i as int) =~= table);
    topics
}

/// The number of rows that a claim with this limit may return: none where
/// the limit is not positive.
pub fn claim_limit(batch_size: i32) -> (limit: i64)
    ensures
        limit == cap(batch_size),
{
    if batch_size < 0 {
        0
    } else {
        batch_size.into()
    }
}

/// Whether row `j` may be taken next: claimable, and after the last row taken.
pub open spec fn is_candidate(
    rows: Seq<MessageView>,
    locked: Seq<i64>,
    topic: Seq<char>,
    last: Option<usize>,
    j: int,
) -> bool {
    &&& 0 <= j < rows.len()
    &&& claimable(rows[j], locked, topic)
    &&& match last {
        Some(l) => before(rows, l as int, j),
        None => true,
    }
}

/// The first row in dequeue order that is claimable for `topic` and comes
/// after the row at `last`, if there is one.
fn next_candidate(
    rows: &Vec<OutboxMessage>,
    locked: &Vec<i64>,
    topic: &String,
    last: Option<usize>,
) -> (best: Option<usize>)
    requires
        match last {
            Some(l) => l < rows.len(),
            None => true,
        },
    ensures
        match best {
            Some(b) => {
                &&& is_candidate(messages_view(rows@), locked@, topic@, last, b as int)
                &&& forall|j: int| #[trigger]
                    is_candidate(messages_view(rows@), locked@, topic@, last, j) && j != b
                        ==> before(messages_view(rows@), b as int, j)
            },
            None => forall|j: int| !#[trigger] is_candidate(
                messages_view(rows@),
                locked@,
                topic@,
                last,
                j,
            ),
        },
{
    let ghost table = messages_view(rows@);
    let mut best: Option<usize> = None;
    let mut j: usize = 0;
    while j < rows.len()
        invariant
            j <= rows.len(),
            table == messages_view(rows@),
            match last {
                Some(l) => l < rows.len(),
                None => true,
            },
            match best {
                Some(b) => {
                    &&& b < j
                    &&& is_candidate(table, locked@, topic@, last, b as int)
                    &&& forall|i: int| #[trigger]
                        is_candidate(table, locked@, topic@, last, i) && i < j && i != b
                            ==> before(table, b as int, i)
                },
                None => forall|i: int| i < j ==> !#[trigger] is_candidate(
                    table,
                    locked@,
                    topic@,
                    last,
                    i,
                ),
            },
        decreases rows.len() - j,
    {
        let row = &rows[j];
        let after_last = match last {
            Some(l) => rows[l].timestamp < row.timestamp || (rows[l].timestamp == row.timestamp
                && l < j),
            None => true,
        };
        if after_last && row.is_pending() && row.message_type == *topic && !contains_id(
            locked,
            row.id,
        ) {
            assert(is_candidate(table, locked@, topic@, last, j as int));
            match best {
                Some(b) => {
                    if row.timestamp < rows[b].timestamp {
                        best = Some(j);
                    }
                },
                None => {
                    best = Some(j);
                },
            }
        } else {
            assert(!is_candidate(table, locked@, topic@, last, j as int));
        }
        j += 1;
    }
    best
}

/// Claims up to `batch_size` pending rows of `topic`, oldest first, passing
/// over the rows whose identifiers are in `locked`: those are held by claims
/// that are still open. Returns every claimable row where there are fewer,
/// and none where there is none or the limit is not positive.
pub fn get_pending_messages(
    rows: &Vec<OutboxMessage>,
    locked: &Vec<i64>,
    topic: &String,
    batch_size: i32,
) -> (batch: Vec<OutboxMessage>)
    ensures
        exists|picks: Seq<int>|
            is_claim(
                messages_view(rows@),
                locked@,
                topic@,
                cap(batch_size),
                picks,
                messages_view(batch@),
            ),
{
    let ghost table = messages_view(rows@);
    let ghost mut picks: Seq<int> = Seq::empty();
    let mut batch: Vec<OutboxMessage> = Vec::new();
    let mut last: Option<usize> = None;
    let mut taken: i32 = 0;
    let mut exhausted = false;
    while taken < batch_size && !exhausted
        invariant
            table == messages_view(rows@),
            0 <= taken,
            taken <= cap(batch_size),
            picks.len() == taken,
            batch@.len() == taken,
            match last {
                Some(l) => l < rows.len() && picks.len() > 0 && picks[picks.len() - 1] == l,
                None => picks.len() == 0,
            },
            forall|k: int|
                0 <= k < picks.len() ==> 0 <= #[trigger] picks[k] < table.len() && batch@[k]@
                    == table[picks[k]] && claimable(table[picks[k]], locked@, topic@),
            forall|k: int, l: int|
                0 <= k < l < picks.len() ==> before(table, #[trigger] picks[k], #[trigger] picks[l]),
            forall|j: int|
                0 <= j < table.len() && claimable(#[trigger] table[j], locked@, topic@)
                    && !picks.contains(j) ==> !exhausted && is_candidate(
                    table,
                    locked@,
                    topic@,
                    last,
                    j,
                ),
        decreases batch_size - taken + (if exhausted { 0int } else { 1int }),
    {
        match next_candidate(rows, locked, topic, last) {
            Some(b) => {
                let ghost old_picks = picks;
                batch.push(rows[b].duplicate());
                proof {
                    picks = old_picks.push(b as int);
                    assert forall|k: int, l: int| 0 <= k < l < picks.len() implies before(
                        table,
                        #[trigger] picks[k],
                        #[trigger] picks[l],
                    ) by {
                        if l == old_picks.len() && k < old_picks.len() - 1 {
                            assert(before(table, old_picks[k], old_picks[old_picks.len() - 1]));
                        }
                    }
                    assert forall|j: int|
                        0 <= j < table.len() && claimable(#[trigger] table[j], locked@, topic@)
                            && !picks.contains(j) implies is_candidate(
                        table,
                        locked@,
                        topic@,
                        Some(b),
                        j,
                    ) by {
                        assert(picks[old_picks.len() as int] == b);
                        if old_picks.contains(j) {
                            let w = choose|w: int| 0 <= w < old_picks.len() && old_picks[w] == j;
                            assert(picks[w] == j);
                        }
                        assert(is_candidate(table, locked@, topic@, last, j));
                    }
                }
                last = Some(b);
                taken = taken + 1;
            },
            None => {
                exhausted = true;
            },
        }
    }
    proof {
        assert(is_claim(table, locked@, topic@, cap(batch_size), picks, messages_view(batch@)));
    }
    batch
}

/// Sets `dispatched` to `now` on exactly the pending rows named by `ids`: the
/// rows of a batch that was claimed and delivered. A row that already has a
/// delivery time keeps it.
pub fn mark_messages_as_sent(rows: &mut Vec<OutboxMessage>, ids: &Vec<i64>, now: i64)
    ensures
        messages_view(final(rows)@) == mark_spec(messages_view(old(rows)@), ids@, now),
{
    let ghost before_rows = messages_view(rows@);
    let mut i: usize = 0;
    while i < rows.len()
        invariant
            i <= rows.len(),
            rows@.len() == before_rows.len(),
            forall|j: int| 0 <= j < i ==> (#[trigger] rows@[j])@ == mark_spec(before_rows, ids@, now)[j],
            forall|j: int| i <= j < rows@.len() ==> (#[trigger] rows@[j])@ == before_rows[j],
        decreases rows.len() - i,
    {
        if rows[i].is_pending() && contains_id(ids, rows[i].id) {
            let mut row = rows[i].duplicate();
            row.dispatched = Some(now);
            rows.set(i, row);
        }
        i += 1;
    }
    assert(messages_view(rows@) =~= mark_spec(before_rows, ids@, now));
}

/// The locks that stay once those on the rows named by `ids` are given up.
pub open spec fn without(locked: Seq<i64>, ids: Seq<i64>) -> Seq<i64>
    decreases locked.len(),
{
    if locked.len() == 0 {
        Seq::empty()
    } else if ids.contains(locked.last()) {
        without(locked.drop_last(), ids)
    } else {
        without(locked.drop_last(), ids).push(locked.last())
    }
}

/// A lock stays exactly where it was held and is not given up.
pub proof fn lemma_without_contains(locked: Seq<i64>, ids: Seq<i64>, id: i64)
    ensures
        without(locked, ids).contains(id) <==> locked.contains(id) && !ids.contains(id),
    decreases locked.len(),
{
    if locked.len() > 0 {
        let rest = locked.drop_last();
        lemma_without_contains(rest, ids, id);
        if locked.contains(id) {
            let w = choose|w: int| 0 <= w < locked.len() && locked[w] == id;
            if w < rest.len() {
                assert(rest[w] == id);
            }
        }
        if rest.contains(id) {
            let w = choose|w: int| 0 <= w < rest.len() && rest[w] == id;
            assert(locked[w] == id);
        }
        let kept = without(rest, ids);
        if !ids.contains(locked.last()) {
            if kept.push(locked.last()).contains(id) {
                let w = choose|w: int|
                    0 <= w < kept.push(locked.last()).len() && kept.push(locked.last())[w] == id;
                if w < kept.len() {
                    assert(kept[w] == id);
                }
            }
            if kept.contains(id) {
                let w = choose|w: int| 0 <= w < kept.len() && kept[w] == id;
                assert(kept.push(locked.last())[w] == id);
            }
            if id == locked.last() {
                assert(kept.push(locked.last())[kept.len() as int] == id);
                assert(locked[locked.len() - 1] == id);
            }
        }
    }
}

/// The outbox table with the row locks of the claims that are still open.
#[derive(Clone, Debug, PartialEq, Eq)]
pub struct OutboxTable {
    /// The rows, in the order in which they were inserted.
    pub rows: Vec<OutboxMessage>,
    /// Identifiers of the rows that open claims hold.
    pub locked: Vec<i64>,
}

impl OutboxTable {
    /// The table's key holds: no two rows share an identifier.
    pub open spec fn wf(&self) -> bool {
        has_distinct_ids(messages_view(self.rows@))
    }

    /// An empty table.
    pub fn new() -> (table: OutboxTable)
        ensures
            table.rows@.len() == 0,
            table.locked@.len() == 0,
            table.wf(),
    {
        OutboxTable { rows: Vec::new(), locked: Vec::new() }
    }

    /// The distinct topics among the pending rows, locked or not.
    pub fn list_pending_topics(&self) -> (topics: Vec<String>)
        ensures
            is_topic_listing(messages_view(self.rows@), strings_view(topics@)),
    {
        get_distinct_pending_topics(&self.rows)
    }

    /// Claims up to `limit` pending rows of `topic`, oldest first, and locks
    /// each row it returns. Rows that are already locked are passed over, not
    /// waited for.
    pub fn claim_batch(&mut self, topic: &String, limit: i32) -> (batch: Vec<OutboxMessage>)
        ensures
            final(self).rows == old(self).rows,
            exists|picks: Seq<int>|
                is_claim(
                    messages_view(old(self).rows@),
                    old(self).locked@,
                    topic@,
                    cap(limit),
                    picks,
                    messages_view(batch@),
                ),
            final(self).locked@ == old(self).locked@ + ids_of(messages_view(batch@)),
            old(self).wf() ==> final(self).wf(),
    {
        let batch = get_pending_messages(&self.rows, &self.locked, topic, limit);
        let mut ids = message_ids(&batch);
        self.locked.append(&mut ids);
        batch
    }

    /// Gives up the locks on the rows named by `ids`, as the end of a
    /// transaction that did not mark them does. The rows stay as they are.
    pub fn release(&mut self, ids: &Vec<i64>)
        ensures
            final(self).rows == old(self).rows,
            final(self).locked@ == without(old(self).locked@, ids@),
            old(self).wf() ==> final(self).wf(),
    {
        let mut kept: Vec<i64> = Vec::new();
        let mut i: usize = 0;
        while i < self.locked.len()
            invariant
                i <= self.locked.len(),
                self.locked == old(self).locked,
                self.rows == old(self).rows,
                kept@ == without(self.locked@.take(i as int), ids@),
            decreases self.locked.len() - i,
        {
            let id: i64 = self.locked[i];
            assert(self.locked@.take(i + 1).drop_last() =~= self.locked@.take(i as int));
            if !contains_id(ids, id) {
                kept.push(id);
            }
            i += 1;
        }
        assert(self.locked@.take(i as int) =~= self.locked@);
        self.locked = kept;
    }

    /// Sets `dispatched` to `now` on exactly the pending rows named by `ids`
    /// and gives up the locks on the rows named, as the commit of the
    /// claiming transaction does.
    pub fn mark_dispatched(&mut self, ids: &Vec<i64>, now: i64)
        ensures
            messages_view(final(self).rows@) == mark_spec(
                messages_view(old(self).rows@),
                ids@,
                now,
            ),
            final(self).locked@ == without(old(self).locked@, ids@),
            old(self).wf() ==> final(self).wf(),
    {
        proof {
            if self.wf() {
                lemma_mark_keeps_distinct_ids(messages_view(self.rows@), ids@, now);
            }
        }
        mark_messages_as_sent(&mut self.rows, ids, now);
        self.release(ids);
    }
}

} // verus!
