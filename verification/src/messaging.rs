//! What a transport is handed: one entry per message of a batch.

use vstd::prelude::*;
use crate::models::{messages_view, MessageView, OutboxMessage};

verus! {

/// One entry of an outgoing batch.
#[derive(Clone, Debug, PartialEq, Eq)]
pub struct BatchEntry {
    /// The entry's key: the message's idempotency key.
    pub id: String,
    /// The payload, as the producer wrote it.
    pub body: String,
}

/// What a [`BatchEntry`] holds, as mathematical values.
pub struct EntryView {
    pub id: Seq<char>,
    pub body: Seq<char>,
}

impl View for BatchEntry {
    type V = EntryView;

    open spec fn view(&self) -> EntryView {
        EntryView { id: self.id@, body: self.body@ }
    }
}

/// The entries of a batch, each by its view.
pub open spec fn entries_view(entries: Seq<BatchEntry>) -> Seq<EntryView> {
    Seq::new(entries.len(), |i: int| entries[i]@)
}

/// The entry that carries a message: keyed by its idempotency key, with its
/// body untouched.
pub open spec fn entry_of(message: MessageView) -> EntryView {
    EntryView { id: message.message_id, body: message.body }
}

/// One entry per message, in the batch's order.
pub open spec fn entries_of(messages: Seq<MessageView>) -> Seq<EntryView> {
    Seq::new(messages.len(), |i: int| entry_of(messages[i]))
}

/// Builds the entries that a transport submits for a batch: one per message,
/// in order, keyed by `message_id` and carrying `body`.
pub fn batch_entries(messages: &Vec<OutboxMessage>) -> (entries: Vec<BatchEntry>)
    ensures
        entries_view(entries@) == entries_of(messages_view(messages@)),
{
    let mut entries: Vec<BatchEntry> = Vec::new();
    let mut i: usize = 0;
    while i < messages.len()
        invariant
            i <= messages.len(),
            entries@.len() == i,
            forall|j: int| 0 <= j < i ==> (#[trigger] entries@[j])@ == entry_of(messages@[j]@),
        decreases messages.len() - i,
    {
        let entry = BatchEntry {
            id: messages[i].message_id.clone(),
            body: messages[i].body.clone(),
        };
        entries.push(entry);
        i += 1;
    }
    assert(entries_view(entries@) =~= entries_of(messages_view(messages@)));
    entries
}

} // verus!
