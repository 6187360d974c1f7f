//! The unit of work: one row of the outbox table.

use vstd::prelude::*;

verus! {

/// One row of the outbox table. Times are microseconds since the Unix epoch.
#[derive(Clone, Debug, PartialEq, Eq)]
pub struct OutboxMessage {
    /// Row identifier: the key by which a row is locked and marked.
    pub id: i64,
    /// Idempotency key chosen by the producer; consumers deduplicate on it.
    pub message_id: String,
    /// The topic: rows of one topic are claimed together.
    pub message_type: String,
    /// Destination descriptor: transport selection and physical address.
    pub channel_address: String,
    /// `None` while pending; the time of delivery once dispatched.
    pub dispatched: Option<i64>,
    /// Creation time; rows of a topic are claimed oldest first.
    pub timestamp: i64,
    /// Payload, forwarded verbatim.
    pub body: String,
    /// Trace correlation token, carried and never interpreted.
    pub trace_parent: Option<String>,
}

/// What an [`OutboxMessage`] holds, as mathematical values.
pub struct MessageView {
    pub id: i64,
    pub message_id: Seq<char>,
    pub message_type: Seq<char>,
    pub channel_address: Seq<char>,
    pub dispatched: Option<i64>,
    pub timestamp: i64,
    pub body: Seq<char>,
    pub trace_parent: Option<Seq<char>>,
}

impl MessageView {
    /// A row is pending until its delivery time is set.
    pub open spec fn is_pending(self) -> bool {
        self.dispatched is None
    }
}

impl View for OutboxMessage {
    type V = MessageView;

    open spec fn view(&self) -> MessageView {
        MessageView {
            id: self.id,
            message_id: self.message_id@,
            message_type: self.message_type@,
            channel_address: self.channel_address@,
            dispatched: self.dispatched,
            timestamp: self.timestamp,
            body: self.body@,
            trace_parent: match self.trace_parent {
                Some(t) => Some(t@),
                None => None,
            },
        }
    }
}

/// The rows of a batch, each by its view.
pub open spec fn messages_view(messages: Seq<OutboxMessage>) -> Seq<MessageView> {
    Seq::new(messages.len(), |i: int| messages[i]@)
}

/// The topics of a list, each by its view.
pub open spec fn strings_view(strings: Seq<String>) -> Seq<Seq<char>> {
    Seq::new(strings.len(), |i: int| strings[i]@)
}

/// The row identifiers of a batch, in the batch's order.
pub open spec fn ids_of(messages: Seq<MessageView>) -> Seq<i64> {
    Seq::new(messages.len(), |i: int| messages[i].id)
}

impl OutboxMessage {
    /// Whether the row still awaits delivery.
    pub fn is_pending(&self) -> (pending: bool)
        ensures
            pending == self@.is_pending(),
    {
        self.dispatched.is_none()
    }

    /// A copy of the row, field by field.
    pub fn duplicate(&self) -> (copy: OutboxMessage)
        ensures
            copy@ == self@,
    {
        OutboxMessage {
            id: self.id,
            message_id: self.message_id.clone(),
            message_type: self.message_type.clone(),
            channel_address: self.channel_address.clone(),
            dispatched: self.dispatched,
            timestamp: self.timestamp,
            body: self.body.clone(),
            trace_parent: match &self.trace_parent {
                Some(t) => Some(t.clone()),
                None => None,
            },
        }
    }
}

/// The row identifiers of a batch, in the batch's order: the rows to mark once
/// the batch is delivered.
pub fn message_ids(messages: &Vec<OutboxMessage>) -> (ids: Vec<i64>)
    ensures
        ids@ == ids_of(messages_view(messages@)),
{
    let mut ids: Vec<i64> = Vec::new();
    let mut i: usize = 0;
    while i < messages.len()
        invariant
            i <= messages.len(),
            ids@ == ids_of(messages_view(messages@.subrange(0, i as int))),
        decreases messages.len() - i,
    {
        ids.push(messages[i].id);
        i += 1;
        assert(ids@ =~= ids_of(messages_view(messages@.subrange(0, i as int))));
    }
    assert(messages@.subrange(0, i as int) =~= messages@);
    ids
}

} // verus!
