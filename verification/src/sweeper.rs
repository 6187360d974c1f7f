//! The sweep engine: one invocation over all pending topics, as a state
//! machine. The caller performs each action against the store or a transport
//! and hands back what happened as the next event.

use vstd::prelude::*;
use vstd::string::*;
use crate::messaging::{batch_entries, entries_of, entries_view, BatchEntry, EntryView};
use crate::models::{ids_of, message_ids, messages_view, strings_view, MessageView, OutboxMessage};
use crate::router::{route, route_spec, TransportKind};

verus! {

/// Where an invocation stands.
#[derive(Clone, Copy, Debug, PartialEq, Eq, Structural)]
pub enum Phase {
    /// Not started.
    Idle,
    /// Waiting for the pending topics.
    Discovering,
    /// Waiting for the batch of the current topic.
    Claiming,
    /// Waiting for the transport's verdict on the current batch.
    Sending,
    /// Waiting for the store to mark the delivered batch.
    Marking,
    /// Over.
    Done,
}

/// What an invocation covers.
#[derive(Clone, Copy, Debug, PartialEq, Eq, Structural)]
pub enum Scope {
    /// Every topic that has pending rows.
    AllTopics,
    /// The one topic that the caller named.
    OneTopic,
}

/// How an invocation ended.
#[derive(Clone, Copy, Debug, PartialEq, Eq, Structural)]
pub enum Outcome {
    /// Every topic was attempted; what failed within a topic stays pending
    /// for the next sweep.
    Completed,
    /// The pending topics could not be read: nothing was attempted.
    DiscoveryFailed,
    /// The store failed on the claim of the one topic that the sweep was
    /// for: nothing was sent or marked.
    ClaimFailed,
}

/// What the outside world reports to the engine.
#[derive(Clone, Debug, PartialEq, Eq)]
pub enum Event {
    /// The timer fired.
    Started,
    /// The distinct topics that have pending rows.
    TopicsListed(Vec<String>),
    /// The store failed while the topics were read.
    DiscoveryFailed,
    /// The rows claimed and locked for the current topic, oldest first.
    BatchClaimed(Vec<OutboxMessage>),
    /// The store failed while the batch was claimed.
    ClaimFailed,
    /// The transport accepted the whole batch.
    BatchSent,
    /// The transport rejected the batch, or any entry of it.
    SendFailed,
    /// The store marked the batch dispatched.
    BatchMarked,
    /// The store failed while marking a delivered batch: its rows stay
    /// pending and will be delivered again.
    MarkFailed,
}

/// What the engine asks of the outside world.
#[derive(Clone, Debug, PartialEq, Eq)]
pub enum Action {
    /// Read the distinct topics that have pending rows.
    ListPendingTopics,
    /// Give up what is held for the topic before, then claim up to `limit`
    /// pending rows of `topic`, oldest first, skipping locked rows.
    ClaimBatch { topic: String, limit: i32 },
    /// Submit the entries to the transport of this kind at this address.
    SendBatch { kind: TransportKind, address: String, entries: Vec<BatchEntry> },
    /// Mark exactly these rows dispatched.
    MarkDispatched { ids: Vec<i64> },
    /// Release what is held; the invocation is over.
    Finish { outcome: Outcome },
    /// The event does not belong to the current phase: nothing to do.
    Ignore,
}

/// One sweep invocation.
#[derive(Clone, Debug, PartialEq, Eq)]
pub struct Sweep {
    pub phase: Phase,
    /// Whether the invocation covers every pending topic or a single one.
    pub scope: Scope,
    /// Upper bound on the rows claimed per topic.
    pub batch_limit: i32,
    /// The topics discovered by this invocation.
    pub topics: Vec<String>,
    /// Position of the current topic in `topics`.
    pub cursor: usize,
    /// Row identifiers of the batch in flight.
    pub claimed: Vec<i64>,
}

/// An [`Event`] as mathematical values.
pub enum EventView {
    Started,
    TopicsListed(Seq<Seq<char>>),
    DiscoveryFailed,
    BatchClaimed(Seq<MessageView>),
    ClaimFailed,
    BatchSent,
    SendFailed,
    BatchMarked,
    MarkFailed,
}

/// An [`Action`] as mathematical values.
pub enum ActionView {
    ListPendingTopics,
    ClaimBatch { topic: Seq<char>, limit: i32 },
    SendBatch { kind: TransportKind, address: Seq<char>, entries: Seq<EntryView> },
    MarkDispatched { ids: Seq<i64> },
    Finish { outcome: Outcome },
    Ignore,
}

/// A [`Sweep`] as mathematical values.
pub struct SweepView {
    pub phase: Phase,
    pub scope: Scope,
    pub batch_limit: i32,
    pub topics: Seq<Seq<char>>,
    pub cursor: int,
    pub claimed: Seq<i64>,
}

impl View for Event {
    type V = EventView;

    open spec fn view(&self) -> EventView {
        match *self {
            Event::Started => EventView::Started,
            Event::TopicsListed(topics) => EventView::TopicsListed(strings_view(topics@)),
            Event::DiscoveryFailed => EventView::DiscoveryFailed,
            Event::BatchClaimed(messages) => EventView::BatchClaimed(messages_view(messages@)),
            Event::ClaimFailed => EventView::ClaimFailed,
            Event::BatchSent => EventView::BatchSent,
            Event::SendFailed => EventView::SendFailed,
            Event::BatchMarked => EventView::BatchMarked,
            Event::MarkFailed => EventView::MarkFailed,
        }
    }
}

impl View for Action {
    type V = ActionView;

    open spec fn view(&self) -> ActionView {
        match *self {
            Action::ListPendingTopics => ActionView::ListPendingTopics,
            Action::ClaimBatch { topic, limit } => ActionView::ClaimBatch { topic: topic@, limit },
            Action::SendBatch { kind, address, entries } => ActionView::SendBatch {
                kind,
                address: address@,
                entries: entries_view(entries@),
            },
            Action::MarkDispatched { ids } => ActionView::MarkDispatched { ids: ids@ },
            Action::Finish { outcome } => ActionView::Finish { outcome },
            Action::Ignore => ActionView::Ignore,
        }
    }
}

impl View for Sweep {
    type V = SweepView;

    open spec fn view(&self) -> SweepView {
        SweepView {
            phase: self.phase,
            scope: self.scope,
            batch_limit: self.batch_limit,
            topics: strings_view(self.topics@),
            cursor: self.cursor as int,
            claimed: self.claimed@,
        }
    }
}

impl SweepView {
    /// The invariant of an invocation: while a topic is worked on, the cursor
    /// stands on it; a batch is in flight exactly between claim and release.
    pub open spec fn wf(self) -> bool {
        &&& 0 <= self.cursor <= self.topics.len()
        &&& (self.phase == Phase::Claiming || self.phase == Phase::Sending || self.phase
            == Phase::Marking) ==> self.cursor < self.topics.len()
        &&& (self.phase == Phase::Sending || self.phase == Phase::Marking) <==> self.claimed.len()
            > 0
    }
}

/// A fresh invocation over every pending topic, before the timer fired.
pub open spec fn idle(batch_limit: i32) -> SweepView {
    SweepView {
        phase: Phase::Idle,
        scope: Scope::AllTopics,
        batch_limit,
        topics: Seq::empty(),
        cursor: 0,
        claimed: Seq::empty(),
    }
}

/// Leaves the current topic, whatever became of it: on to the next topic, or
/// to the end once every topic was attempted.
pub open spec fn advance(s: SweepView) -> (SweepView, ActionView) {
    if 0 <= s.cursor && s.cursor + 1 < s.topics.len() {
        (
            SweepView { phase: Phase::Claiming, cursor: s.cursor + 1, claimed: Seq::empty(), ..s },
            ActionView::ClaimBatch { topic: s.topics[s.cursor + 1], limit: s.batch_limit },
        )
    } else {
        (
            SweepView {
                phase: Phase::Done,
                cursor: s.topics.len() as int,
                claimed: Seq::empty(),
                ..s
            },
            ActionView::Finish { outcome: Outcome::Completed },
        )
    }
}

/// An invocation for the one topic `topic`, and its first request: that
/// topic's batch.
pub open spec fn one_topic(batch_limit: i32, topic: Seq<char>) -> (SweepView, ActionView) {
    (
        SweepView {
            phase: Phase::Claiming,
            scope: Scope::OneTopic,
            batch_limit,
            topics: seq![topic],
            cursor: 0,
            claimed: Seq::empty(),
        },
        ActionView::ClaimBatch { topic, limit: batch_limit },
    )
}

/// What follows a claim on which the store failed. A sweep over every topic
/// leaves the topic and goes on; a sweep for one topic ends and reports the
/// failure.
pub open spec fn after_claim_failure(s: SweepView) -> (SweepView, ActionView) {
    if s.scope == Scope::OneTopic {
        (
            SweepView {
                phase: Phase::Done,
                cursor: s.topics.len() as int,
                claimed: Seq::empty(),
                ..s
            },
            ActionView::Finish { outcome: Outcome::ClaimFailed },
        )
    } else {
        advance(s)
    }
}

/// What follows the list of pending topics: the first topic's claim, or the
/// end where nothing is pending.
pub open spec fn after_discovery(s: SweepView, topics: Seq<Seq<char>>) -> (SweepView, ActionView) {
    if topics.len() == 0 {
        (
            SweepView { phase: Phase::Done, topics, cursor: 0, claimed: Seq::empty(), ..s },
            ActionView::Finish { outcome: Outcome::Completed },
        )
    } else {
        (
            SweepView { phase: Phase::Claiming, topics, cursor: 0, claimed: Seq::empty(), ..s },
            ActionView::ClaimBatch { topic: topics[0], limit: s.batch_limit },
        )
    }
}

/// What follows a claim: an empty batch ends the topic; otherwise the whole
/// batch goes where its first message's address routes it.
pub open spec fn after_claim(s: SweepView, messages: Seq<MessageView>) -> (SweepView, ActionView) {
    if messages.len() == 0 {
        advance(s)
    } else {
        let r = route_spec(messages[0].channel_address);
        (
            SweepView { phase: Phase::Sending, claimed: ids_of(messages), ..s },
            ActionView::SendBatch {
                kind: r.kind,
                address: r.address,
                entries: entries_of(messages),
            },
        )
    }
}

/// The engine's transition: from a state and an event to the next state and
/// the action to perform.
pub open spec fn step_spec(s: SweepView, e: EventView) -> (SweepView, ActionView) {
    match (s.phase, e) {
        (Phase::Idle, EventView::Started) => (
            SweepView { phase: Phase::Discovering, ..s },
            ActionView::ListPendingTopics,
        ),
        (Phase::Discovering, EventView::DiscoveryFailed) => (
            SweepView { phase: Phase::Done, ..s },
            ActionView::Finish { outcome: Outcome::DiscoveryFailed },
        ),
        (Phase::Discovering, EventView::TopicsListed(topics)) => after_discovery(s, topics),
        (Phase::Claiming, EventView::ClaimFailed) => after_claim_failure(s),
        (Phase::Claiming, EventView::BatchClaimed(messages)) => after_claim(s, messages),
        (Phase::Sending, EventView::BatchSent) => (
            SweepView { phase: Phase::Marking, ..s },
            ActionView::MarkDispatched { ids: s.claimed },
        ),
        (Phase::Sending, EventView::SendFailed) => advance(s),
        (Phase::Marking, EventView::BatchMarked) => advance(s),
        (Phase::Marking, EventView::MarkFailed) => advance(s),
        _ => (s, ActionView::Ignore),
    }
}

impl Sweep {
    /// A fresh invocation with the given per-topic batch limit.
    pub fn new(batch_limit: i32) -> (sweep: Sweep)
        ensures
            sweep@ == idle(batch_limit),
            sweep@.wf(),
    {
        let sweep = Sweep {
            phase: Phase::Idle,
            scope: Scope::AllTopics,
            batch_limit,
            topics: Vec::new(),
            cursor: 0,
            claimed: Vec::new(),
        };
        assert(sweep@.topics =~= Seq::<Seq<char>>::empty());
        sweep
    }

    /// Whether the invocation is over.
    pub fn is_done(&self) -> (done: bool)
        ensures
            done == (self@.phase == Phase::Done),
    {
        match self.phase {
            Phase::Done => true,
            _ => false,
        }
    }

    /// Leaves the current topic and names what to do next.
    fn advance(&mut self) -> (action: Action)
        ensures
            (final(self)@, action@) == advance(old(self)@),
    {
        let n: usize = self.topics.len();
        self.claimed = Vec::new();
        if n > 0 && self.cursor < n - 1 {
            self.cursor = self.cursor + 1;
            self.phase = Phase::Claiming;
            let topic = self.topics[self.cursor].clone();
            Action::ClaimBatch { topic, limit: self.batch_limit }
        } else {
            self.cursor = n;
            self.phase = Phase::Done;
            Action::Finish { outcome: Outcome::Completed }
        }
    }

    /// Takes the store's failure on a claim and names what to do next.
    fn after_claim_failure(&mut self) -> (action: Action)
        ensures
            (final(self)@, action@) == after_claim_failure(old(self)@),
    {
        match self.scope {
            Scope::OneTopic => {
                self.cursor = self.topics.len();
                self.claimed = Vec::new();
                self.phase = Phase::Done;
                Action::Finish { outcome: Outcome::ClaimFailed }
            },
            Scope::AllTopics => self.advance(),
        }
    }

    /// Takes the list of pending topics and names what to do next.
    fn after_discovery(&mut self, topics: Vec<String>) -> (action: Action)
        ensures
            (final(self)@, action@) == after_discovery(old(self)@, strings_view(topics@)),
    {
        self.topics = topics;
        self.cursor = 0;
        self.claimed = Vec::new();
        if self.topics.len() == 0 {
            self.phase = Phase::Done;
            Action::Finish { outcome: Outcome::Completed }
        } else {
            self.phase = Phase::Claiming;
            let topic = self.topics[0].clone();
            Action::ClaimBatch { topic, limit: self.batch_limit }
        }
    }

    /// Takes the claimed batch and names what to do next.
    fn after_claim(&mut self, messages: Vec<OutboxMessage>) -> (action: Action)
        ensures
            (final(self)@, action@) == after_claim(old(self)@, messages_view(messages@)),
    {
        if messages.len() == 0 {
            self.advance()
        } else {
            let r = route(messages[0].channel_address.as_str());
            let entries = batch_entries(&messages);
            self.claimed = message_ids(&messages);
            self.phase = Phase::Sending;
            Action::SendBatch { kind: r.kind, address: r.address, entries }
        }
    }

    /// Takes what happened and names what to do next. An event that does not
    /// belong to the current phase changes nothing and is answered with
    /// `Ignore`.
    pub fn step(&mut self, event: Event) -> (action: Action)
        ensures
            (final(self)@, action@) == step_spec(old(self)@, event@),
            old(self)@.wf() ==> final(self)@.wf(),
    {
        proof {
            if self@.wf() {
                lemma_step_keeps_wf(self@, event@);
            }
        }
        match self.phase {
            Phase::Idle => match event {
                Event::Started => {
                    self.phase = Phase::Discovering;
                    Action::ListPendingTopics
                },
                _ => Action::Ignore,
            },
            Phase::Discovering => match event {
                Event::DiscoveryFailed => {
                    self.phase = Phase::Done;
                    Action::Finish { outcome: Outcome::DiscoveryFailed }
                },
                Event::TopicsListed(topics) => self.after_discovery(topics),
                _ => Action::Ignore,
            },
            Phase::Claiming => match event {
                Event::ClaimFailed => self.after_claim_failure(),
                Event::BatchClaimed(messages) => self.after_claim(messages),
                _ => Action::Ignore,
            },
            Phase::Sending => match event {
                Event::BatchSent => {
                    self.phase = Phase::Marking;
                    Action::MarkDispatched { ids: self.claimed.clone() }
                },
                Event::SendFailed => self.advance(),
                _ => Action::Ignore,
            },
            Phase::Marking => match event {
                Event::BatchMarked => self.advance(),
                Event::MarkFailed => self.advance(),
                _ => Action::Ignore,
            },
            Phase::Done => Action::Ignore,
        }
    }
}

/// Every transition keeps the invariant of an invocation.
pub proof fn lemma_step_keeps_wf(s: SweepView, e: EventView)
    requires
        s.wf(),
    ensures
        step_spec(s, e).0.wf(),
{
}

/// Begins a sweep over every pending topic: the engine, and its first
/// request, for the list of pending topics.
pub fn sweep_outbox_and_send(batch_size: &i32) -> (begun: (Sweep, Action))
    ensures
        (begun.0@, begun.1@) == step_spec(idle(*batch_size), EventView::Started),
        begun.0@.wf(),
{
    let mut sweep = Sweep::new(*batch_size);
    let action = sweep.step(Event::Started);
    (sweep, action)
}

/// Begins a sweep of the one topic `channel_name`: the engine, and its first
/// request, for that topic's batch. Such a sweep reports a claim on which the
/// store failed as its outcome.
pub fn sweep_channel(batch_size: &i32, channel_name: &str) -> (begun: (Sweep, Action))
    ensures
        (begun.0@, begun.1@) == one_topic(*batch_size, channel_name@),
        begun.0@.wf(),
{
    let mut topics: Vec<String> = Vec::new();
    topics.push(String::from_str(channel_name));
    assert(strings_view(topics@) =~= seq![channel_name@]);
    let sweep = Sweep {
        phase: Phase::Claiming,
        scope: Scope::OneTopic,
        batch_limit: *batch_size,
        topics,
        cursor: 0,
        claimed: Vec::new(),
    };
    let action = Action::ClaimBatch {
        topic: String::from_str(channel_name),
        limit: *batch_size,
    };
    (sweep, action)
}

/// The event that a transport's answer amounts to. A batch is all or
/// nothing: it counts as sent only where the call succeeded and the service
/// refused none of its entries.
pub open spec fn send_outcome_spec(call_succeeded: bool, refused_entries: usize) -> EventView {
    if call_succeeded && refused_entries == 0 {
        EventView::BatchSent
    } else {
        EventView::SendFailed
    }
}

/// The event that a transport's answer amounts to: `BatchSent` where the
/// call succeeded and no entry was refused, `SendFailed` otherwise.
pub fn send_outcome(call_succeeded: bool, refused_entries: usize) -> (event: Event)
    ensures
        event@ == send_outcome_spec(call_succeeded, refused_entries),
{
    if call_succeeded && refused_entries == 0 {
        Event::BatchSent
    } else {
        Event::SendFailed
    }
}

} // verus!
