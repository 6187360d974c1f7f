//! The channel router: from a destination descriptor to a transport and a
//! physical address.

use vstd::prelude::*;
use vstd::string::*;

verus! {

/// The transports a batch can leave by.
#[derive(Clone, Copy, Debug, PartialEq, Eq, Structural)]
pub enum TransportKind {
    /// Point-to-point queue: the default.
    Queue,
    /// Fan-out topic.
    Topic,
}

/// Where a batch goes.
#[derive(Clone, Debug, PartialEq, Eq)]
pub struct Route {
    pub kind: TransportKind,
    /// The prefix before the separator, where the descriptor has one.
    pub channel_type: Option<String>,
    /// The physical address handed to the transport.
    pub address: String,
}

/// What a [`Route`] holds, as mathematical values.
pub struct RouteView {
    pub kind: TransportKind,
    pub channel_type: Option<Seq<char>>,
    pub address: Seq<char>,
}

impl View for Route {
    type V = RouteView;

    open spec fn view(&self) -> RouteView {
        RouteView {
            kind: self.kind,
            channel_type: match self.channel_type {
                Some(t) => Some(t@),
                None => None,
            },
            address: self.address@,
        }
    }
}

/// Whether the separator `::` stands at position `i` of `s`.
pub open spec fn separator_at(s: Seq<char>, i: int) -> bool {
    0 <= i && i + 1 < s.len() && s[i] == ':' && s[i + 1] == ':'
}

/// The position of the first separator of `s` at or after `from`, or the
/// length of `s` where there is none.
pub open spec fn first_separator(s: Seq<char>, from: int) -> int
    decreases s.len() - from,
{
    if from < 0 || from + 1 >= s.len() {
        s.len() as int
    } else if separator_at(s, from) {
        from
    } else {
        first_separator(s, from + 1)
    }
}

/// The route of a destination descriptor: with a separator, the fan-out
/// transport, the prefix before the first separator and the rest after it;
/// without one, the queue transport and the whole descriptor.
pub open spec fn route_spec(s: Seq<char>) -> RouteView {
    let at = first_separator(s, 0);
    if at < s.len() {
        RouteView {
            kind: TransportKind::Topic,
            channel_type: Some(s.subrange(0, at)),
            address: s.subrange(at + 2, s.len() as int),
        }
    } else {
        RouteView { kind: TransportKind::Queue, channel_type: None, address: s }
    }
}

/// `first_separator` finds a separator exactly where one exists, and then the
/// first one.
pub proof fn lemma_first_separator(s: Seq<char>, from: int)
    requires
        0 <= from,
    ensures
        from <= first_separator(s, from) || first_separator(s, from) == s.len(),
        first_separator(s, from) <= s.len(),
        first_separator(s, from) < s.len() ==> separator_at(s, first_separator(s, from)),
        forall|j: int| from <= j < first_separator(s, from) ==> !separator_at(s, j),
    decreases s.len() - from,
{
    if from + 1 < s.len() && !separator_at(s, from) {
        lemma_first_separator(s, from + 1);
    }
}

/// Decides which transport handles a destination and at which address. Every
/// string is accepted.
pub fn route(channel_address: &str) -> (r: Route)
    ensures
        r@ == route_spec(channel_address@),
{
    let n: usize = channel_address.unicode_len();
    if n >= 2 {
        let mut i: usize = 0;
        while i < n - 1
            invariant
                n == channel_address@.len(),
                n >= 2,
                i <= n - 1,
                first_separator(channel_address@, 0) == first_separator(channel_address@, i as int),
            decreases n - i,
        {
            if channel_address.get_char(i) == ':' && channel_address.get_char(i + 1) == ':' {
                let prefix = channel_address.substring_char(0, i);
                let rest = channel_address.substring_char(i + 2, n);
                return Route {
                    kind: TransportKind::Topic,
                    channel_type: Some(String::from_str(prefix)),
                    address: String::from_str(rest),
                };
            }
            i += 1;
        }
    }
    Route {
        kind: TransportKind::Queue,
        channel_type: None,
        address: String::from_str(channel_address),
    }
}

} // verus!
