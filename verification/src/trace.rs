//! What holds of every run of a client: the moves that its channels can
//! make, the events that go with them, and the laws that follow for whole
//! histories.

use vstd::prelude::*;
use crate::channel::Phase;
use crate::event::EventView;

verus! {

/// The phases of all channels of a client.
pub struct ChannelsView {
    /// The phase of the channel to the server, if its state is present.
    pub server: Option<Phase>,
    /// The phase of the channel of each peer that has one.
    pub peers: Map<Seq<u8>, Phase>,
}

impl ChannelsView {
    /// Whether the channel to the server is in its transport phase.
    pub open spec fn server_ready(self) -> bool {
        self.server == Some(Phase::Transport)
    }

    /// Whether the channel to a peer is in its transport phase.
    pub open spec fn peer_ready(self, peer_key: Seq<u8>) -> bool {
        self.peers.dom().contains(peer_key) && self.peers[peer_key] == Phase::Transport
    }

    /// The channels of a client that was just made: a handshake with the
    /// server is open, and no peer has a channel.
    pub open spec fn initial(self) -> bool {
        self.server == Some(Phase::Handshake) && self.peers == Map::<Seq<u8>, Phase>::empty()
    }
}

/// Whether every channel that is in its transport phase in `pre` is so in
/// `post`.
pub open spec fn keeps_transport(pre: ChannelsView, post: ChannelsView) -> bool {
    &&& pre.server_ready() ==> post.server_ready()
    &&& forall|peer_key: Seq<u8>| #[trigger]
        pre.peer_ready(peer_key) ==> post.peer_ready(peer_key)
}

/// Whether an event is allowed where the channels go from `pre` to `post`.
pub open spec fn event_fits(pre: ChannelsView, post: ChannelsView, event: EventView) -> bool {
    match event {
        EventView::ServerConnected { .. } => !pre.server_ready() && post.server_ready(),
        EventView::PeerConnected { peer_key } => !pre.peer_ready(peer_key) && post.peer_ready(
            peer_key,
        ),
        EventView::BinaryMessage { peer_key, .. } => pre.peer_ready(peer_key),
        EventView::JsonMessage { peer_key, .. } => pre.peer_ready(peer_key),
        EventView::SessionCreated(_) => pre.server_ready(),
        EventView::SessionReady(_) => pre.server_ready(),
        EventView::SessionActive(_) => pre.server_ready(),
        EventView::SessionFinished(_) => pre.server_ready(),
    }
}

/// Whether a move yielded the event of the connection of the server.
pub open spec fn is_server_connected(event: Option<EventView>) -> bool {
    event is Some && event->Some_0 is ServerConnected
}

/// One move of a client: what every operation of this crate does to the
/// channels, together with the event that it yields, if any.
///
/// A channel in its transport phase stays there. A channel reaches its
/// transport phase only in a move that yields the event of its connection.
/// A message of a peer is yielded only where the channel of the peer is in
/// its transport phase, and a session event only where the channel to the
/// server is.
pub open spec fn step(pre: ChannelsView, post: ChannelsView, event: Option<EventView>) -> bool {
    &&& keeps_transport(pre, post)
    &&& !pre.server_ready() && post.server_ready() ==> is_server_connected(event)
    &&& forall|peer_key: Seq<u8>|
        !pre.peer_ready(peer_key) && #[trigger] post.peer_ready(peer_key) ==> event == Some(
            EventView::PeerConnected { peer_key },
        )
    &&& match event {
        Some(event) => event_fits(pre, post, event),
        None => true,
    }
}

/// A history of a client: the channels before each move and after the
/// last, and what each move yielded.
pub open spec fn history(states: Seq<ChannelsView>, events: Seq<Option<EventView>>) -> bool {
    &&& states.len() == events.len() + 1
    &&& states[0].initial()
    &&& forall|i: int| 0 <= i < events.len() ==> #[trigger] step(states[i], states[i + 1], events[i])
}

/// Once a channel is in its transport phase, it is so at every later time.
pub proof fn law_transport_is_kept(
    states: Seq<ChannelsView>,
    events: Seq<Option<EventView>>,
    i: int,
    j: int,
)
    requires
        history(states, events),
        0 <= i <= j < states.len(),
    ensures
        keeps_transport(states[i], states[j]),
    decreases j - i,
{
    if i < j {
        law_transport_is_kept(states, events, i, j - 1);
        assert(step(states[j - 1], states[j - 1 + 1], events[j - 1]));
        assert forall|peer_key: Seq<u8>| #[trigger]
            states[i].peer_ready(peer_key) implies states[j].peer_ready(peer_key) by {
            assert(states[j - 1].peer_ready(peer_key));
        }
    }
}

/// Where the channel to a peer is in its transport phase, an earlier move
/// has yielded the event of its connection.
pub proof fn lemma_peer_ready_was_connected(
    states: Seq<ChannelsView>,
    events: Seq<Option<EventView>>,
    j: int,
    peer_key: Seq<u8>,
) -> (i: int)
    requires
        history(states, events),
        0 <= j < states.len(),
        states[j].peer_ready(peer_key),
    ensures
        0 <= i < j,
        events[i] == Some(EventView::PeerConnected { peer_key }),
    decreases j,
{
    if j == 0 {
        assert(!states[0].peers.dom().contains(peer_key));
        0
    } else {
        assert(step(states[j - 1], states[j - 1 + 1], events[j - 1]));
        if states[j - 1].peer_ready(peer_key) {
            lemma_peer_ready_was_connected(states, events, j - 1, peer_key)
        } else {
            j - 1
        }
    }
}

/// Where the channel to the server is in its transport phase, an earlier
/// move has yielded the event of its connection.
pub proof fn lemma_server_ready_was_connected(
    states: Seq<ChannelsView>,
    events: Seq<Option<EventView>>,
    j: int,
) -> (i: int)
    requires
        history(states, events),
        0 <= j < states.len(),
        states[j].server_ready(),
    ensures
        0 <= i < j,
        is_server_connected(events[i]),
    decreases j,
{
    if j == 0 {
        0
    } else {
        assert(step(states[j - 1], states[j - 1 + 1], events[j - 1]));
        if states[j - 1].server_ready() {
            lemma_server_ready_was_connected(states, events, j - 1)
        } else {
            j - 1
        }
    }
}

/// The peer that a message event came from, if the event is one.
pub open spec fn message_sender(event: EventView) -> Option<Seq<u8>> {
    match event {
        EventView::BinaryMessage { peer_key, .. } => Some(peer_key),
        EventView::JsonMessage { peer_key, .. } => Some(peer_key),
        _ => None,
    }
}

/// A message of a peer is yielded only after the event of the connection
/// of that peer.
pub proof fn law_message_after_peer_connected(
    states: Seq<ChannelsView>,
    events: Seq<Option<EventView>>,
    j: int,
) -> (i: int)
    requires
        history(states, events),
        0 <= j < events.len(),
        events[j] is Some,
        message_sender(events[j]->Some_0) is Some,
    ensures
        0 <= i < j,
        events[i] == Some(
            EventView::PeerConnected { peer_key: message_sender(events[j]->Some_0)->Some_0 },
        ),
{
    assert(step(states[j], states[j + 1], events[j]));
    let peer_key = message_sender(events[j]->Some_0)->Some_0;
    lemma_peer_ready_was_connected(states, events, j, peer_key)
}

/// Whether an event tells of a session.
pub open spec fn is_session_event(event: EventView) -> bool {
    event is SessionCreated || event is SessionReady || event is SessionActive
        || event is SessionFinished
}

/// A session event is yielded only after the event of the connection of
/// the server.
pub proof fn law_session_after_server_connected(
    states: Seq<ChannelsView>,
    events: Seq<Option<EventView>>,
    j: int,
) -> (i: int)
    requires
        history(states, events),
        0 <= j < events.len(),
        events[j] is Some,
        is_session_event(events[j]->Some_0),
    ensures
        0 <= i < j,
        is_server_connected(events[i]),
{
    assert(step(states[j], states[j + 1], events[j]));
    lemma_server_ready_was_connected(states, events, j)
}

} // verus!
