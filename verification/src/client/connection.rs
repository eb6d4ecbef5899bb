//! The connection state machine. Once per tick the foreground hands it
//! the events the background transport produced; it converts them into
//! state transitions, never blocking and never failing to its caller:
//! every failure becomes the `Disconnected` state.

use vstd::prelude::*;

use crate::client::connected::{spec_game_name, ConnectedClient, ConnectedClientView};
use crate::protocol::{
    assoc_str, DataPackage, DataPackageView, RoomInfo, RoomInfoView, ServerMessage,
    ServerMessageView, TransportEvent, TransportEventView,
};

verus! {

/// The disconnect reason used when the channel reports the worker gone
/// without a terminal message.
pub open spec fn spec_worker_exited() -> Seq<char> {
    "Archipelago client worker thread exited unexpectedly"@
}

/// The disconnect reason used when a steady-state message arrives before
/// the handshake has completed, which signals a protocol-sequencing
/// violation by the server.
pub open spec fn spec_unexpected_message() -> Seq<char> {
    "Unexpected message received while connecting"@
}

/// The refusal reasons joined with a comma, in order.
pub open spec fn join_reasons(errors: Seq<Seq<char>>) -> Seq<char>
    decreases errors.len(),
{
    if errors.len() == 0 {
        Seq::empty()
    } else if errors.len() == 1 {
        errors[0]
    } else {
        join_reasons(errors.drop_last()) + ", "@ + errors.last()
    }
}

/// Joins refusal reasons with a comma, in order.
fn join_errors(errors: &Vec<String>) -> (r: String)
    ensures
        r@ == join_reasons(errors.deep_view()),
{
    let ghost all = errors.deep_view();
    let mut s = String::new();
    let mut i: usize = 0;
    while i < errors.len()
        invariant
            i <= all.len(),
            all == errors.deep_view(),
            s@ == join_reasons(all.take(i as int)),
        decreases all.len() - i,
    {
        if i > 0 {
            s.append(", ");
        }
        s.append(errors[i].as_str());
        proof {
            assert(all.take(i + 1).drop_last() =~= all.take(i as int));
            assert(all.take(i + 1).last() == all[i as int]);
            if i == 0 {
                assert(s@ =~= join_reasons(all.take(1)));
            }
        }
        i += 1;
    }
    proof {
        assert(all.take(i as int) =~= all);
    }
    s
}

/// The state of the connection as of the last processed event.
pub enum ClientConnectionState {
    /// The client is in the process of establishing a connection and
    /// downloading the initial data.
    Connecting,
    /// The client has successfully connected. This holds the data that
    /// is always available with a successful connection.
    Connected(ConnectedClient),
    /// The client is not connected, either because the initial
    /// connection failed or because an established connection was later
    /// closed. The string describes the reason.
    Disconnected(String),
}

/// The mathematical value of a `ClientConnectionState`.
#[verifier::ext_equal]
pub enum ClientConnectionStateView {
    Connecting,
    Connected(ConnectedClientView),
    Disconnected(Seq<char>),
}

impl View for ClientConnectionState {
    type V = ClientConnectionStateView;

    open spec fn view(&self) -> ClientConnectionStateView {
        match self {
            ClientConnectionState::Connecting => ClientConnectionStateView::Connecting,
            ClientConnectionState::Connected(c) => ClientConnectionStateView::Connected(c@),
            ClientConnectionState::Disconnected(reason) => ClientConnectionStateView::Disconnected(
                reason@,
            ),
        }
    }
}

impl ClientConnectionState {
    /// A short name for the state, for surfacing to the user.
    pub fn name(&self) -> (r: &'static str)
        ensures
            self is Connecting ==> r@ == "Connecting"@,
            self is Connected ==> r@ == "Connected"@,
            self is Disconnected ==> r@ == "Disconnected"@,
    {
        match self {
            ClientConnectionState::Connecting => "Connecting",
            ClientConnectionState::Connected(_) => "Connected",
            ClientConnectionState::Disconnected(_) => "Disconnected",
        }
    }
}

/// A connection to the multiworld server, managed in a pull-based
/// manner: all communication happens on the transport worker, and this
/// state changes only when `update` is called with what the worker
/// produced.
pub struct ClientConnection {
    /// The current state of the connection.
    pub state: ClientConnectionState,

    /// The room info cached during the handshake. Ownership passes to
    /// the `ConnectedClient` when the handshake completes.
    pub room_info: Option<RoomInfo>,

    /// The data package cached during the handshake. Ownership passes to
    /// the `ConnectedClient` when the handshake completes.
    pub data_package: Option<DataPackage>,
}

/// The mathematical value of a `ClientConnection`.
#[verifier::ext_equal]
pub struct ClientConnectionView {
    pub state: ClientConnectionStateView,
    pub room_info: Option<RoomInfoView>,
    pub data_package: Option<DataPackageView>,
}

impl View for ClientConnection {
    type V = ClientConnectionView;

    open spec fn view(&self) -> ClientConnectionView {
        ClientConnectionView {
            state: self.state@,
            room_info: self.room_info.deep_view(),
            data_package: self.data_package.deep_view(),
        }
    }
}

impl ClientConnectionView {
    /// The invariant: a connected session client is well formed.
    pub open spec fn wf(self) -> bool {
        match self.state {
            ClientConnectionStateView::Connected(c) => c.wf(),
            _ => true,
        }
    }

    /// What processing one event demands of the server: a handshake
    /// completion only after room info and the catalog for this game
    /// have arrived, and every delivered reward resolvable. Both are
    /// protocol guarantees; a violation is a server or compatibility
    /// fault with no recovery path, so callers must rule it out.
    pub open spec fn event_ok(self, e: TransportEventView) -> bool {
        if self.state is Disconnected {
            true
        } else {
            match e {
                TransportEventView::Message(ServerMessageView::Connected(_)) => {
                    &&& self.state is Connecting
                    &&& self.room_info is Some
                    &&& self.data_package is Some
                    &&& assoc_str(self.data_package->Some_0.games, spec_game_name()) is Some
                },
                TransportEventView::Message(m) => match self.state {
                    ClientConnectionStateView::Connected(c) => match m {
                        ServerMessageView::RoomInfo(_) => true,
                        ServerMessageView::DataPackage(_) => true,
                        ServerMessageView::ConnectionRefused { .. } => true,
                        _ => c.message_ok(m),
                    },
                    _ => true,
                },
                _ => true,
            }
        }
    }

    /// The state after one event: terminal events and refusals become
    /// `Disconnected`, handshake data is cached, a handshake completion
    /// constructs the session client, and steady-state messages are
    /// absorbed by it — or end the epoch if the handshake has not
    /// completed yet.
    pub open spec fn step(self, e: TransportEventView) -> ClientConnectionView {
        if self.state is Disconnected {
            self
        } else {
            match e {
                TransportEventView::Closed => ClientConnectionView {
                    state: ClientConnectionStateView::Disconnected(spec_worker_exited()),
                    ..self
                },
                TransportEventView::Error(err) => ClientConnectionView {
                    state: ClientConnectionStateView::Disconnected(err.describe_view()),
                    ..self
                },
                TransportEventView::Message(m) => match m {
                    ServerMessageView::ConnectionRefused { errors } => ClientConnectionView {
                        state: ClientConnectionStateView::Disconnected(join_reasons(errors)),
                        ..self
                    },
                    ServerMessageView::RoomInfo(ri) => ClientConnectionView {
                        room_info: Some(ri),
                        ..self
                    },
                    ServerMessageView::DataPackage(dp) => ClientConnectionView {
                        data_package: Some(dp),
                        ..self
                    },
                    ServerMessageView::Connected(c) => ClientConnectionView {
                        state: ClientConnectionStateView::Connected(
                            ConnectedClientView::from_handshake(
                                c,
                                self.room_info->Some_0,
                                self.data_package->Some_0,
                            ),
                        ),
                        room_info: None,
                        data_package: None,
                    },
                    _ => match self.state {
                        ClientConnectionStateView::Connected(client) => ClientConnectionView {
                            state: ClientConnectionStateView::Connected(client.absorb_message(m)),
                            ..self
                        },
                        _ => ClientConnectionView {
                            state: ClientConnectionStateView::Disconnected(
                                spec_unexpected_message(),
                            ),
                            ..self
                        },
                    },
                },
            }
        }
    }

    /// The state after a whole tick's worth of events, in order.
    pub open spec fn run(self, events: Seq<TransportEventView>) -> ClientConnectionView
        decreases events.len(),
    {
        if events.len() == 0 {
            self
        } else {
            self.step(events[0]).run(events.drop_first())
        }
    }

    /// Whether every event in the sequence meets `event_ok` in the state
    /// it will be processed in.
    pub open spec fn events_ok(self, events: Seq<TransportEventView>) -> bool
        decreases events.len(),
    {
        events.len() == 0 || (self.event_ok(events[0]) && self.step(events[0]).events_ok(
            events.drop_first(),
        ))
    }
}

/// One step preserves the invariant.
proof fn lemma_step_wf(c: ClientConnectionView, e: TransportEventView)
    requires
        c.wf(),
        c.event_ok(e),
    ensures
        c.step(e).wf(),
{
    if !(c.state is Disconnected) {
        match e {
            TransportEventView::Message(m) => match m {
                ServerMessageView::Connected(_) => {},
                ServerMessageView::RoomInfo(_) => {},
                ServerMessageView::DataPackage(_) => {},
                ServerMessageView::ConnectionRefused { .. } => {},
                _ => match c.state {
                    ClientConnectionStateView::Connected(client) => {
                        lemma_absorb_wf(client, m);
                    },
                    _ => {},
                },
            },
            _ => {},
        }
    }
}

/// Absorbing a message preserves the session client's invariant.
proof fn lemma_absorb_wf(c: ConnectedClientView, m: ServerMessageView)
    requires
        c.wf(),
        c.message_ok(m),
    ensures
        c.absorb_message(m).wf(),
{
    crate::client::connected::lemma_item_indices_monotone(c, m);
}

/// A disconnected connection ignores every event.
proof fn lemma_run_disconnected(c: ClientConnectionView, events: Seq<TransportEventView>)
    requires
        c.state is Disconnected,
    ensures
        c.run(events) == c,
    decreases events.len(),
{
    if events.len() > 0 {
        lemma_run_disconnected(c, events.drop_first());
    }
}

impl ClientConnection {
    /// A fresh connection epoch, waiting for the transport worker's
    /// first report.
    pub fn new() -> (r: ClientConnection)
        ensures
            r@.state is Connecting,
            r@.room_info is None,
            r@.data_package is None,
            r@.wf(),
    {
        ClientConnection {
            state: ClientConnectionState::Connecting,
            room_info: None,
            data_package: None,
        }
    }

    /// The current state of the connection.
    pub fn state(&self) -> (r: &ClientConnectionState)
        ensures
            r == &self.state,
    {
        &self.state
    }

    /// The current state of the connection, mutably. The caller may
    /// drive the session client through it but must not replace the
    /// state itself, as `update` alone owns the transitions.
    pub fn state_mut(&mut self) -> (r: &mut ClientConnectionState)
        ensures
            *r == old(self).state,
            final(self).state == *final(r),
            final(self).room_info == old(self).room_info,
            final(self).data_package == old(self).data_package,
    {
        &mut self.state
    }

    /// A reference to the session client, if the handshake has
    /// completed.
    pub fn client(&self) -> (r: Option<&ConnectedClient>)
        ensures
            match r {
                Some(c) => self.state matches ClientConnectionState::Connected(cc) && c == &cc,
                None => !(self.state is Connected),
            },
    {
        match &self.state {
            ClientConnectionState::Connected(client) => Some(client),
            _ => None,
        }
    }

    /// Processes the events the transport worker produced since the last
    /// tick, in order, and updates the state as `run` describes. Has no
    /// effect if the connection is already disconnected.
    pub fn update(&mut self, events: Vec<TransportEvent>)
        requires
            old(self)@.wf(),
            old(self)@.events_ok(events.deep_view()),
        ensures
            final(self)@ == old(self)@.run(events.deep_view()),
            final(self)@.wf(),
    {
        let ghost all = events.deep_view();
        let mut events = events;
        while events.len() > 0
            invariant
                self@.wf(),
                self@.events_ok(events.deep_view()),
                old(self)@.run(all) == self@.run(events.deep_view()),
            decreases events.len(),
        {
            let ghost pre = self@;
            let ghost remaining = events.deep_view();
            let e = events.remove(0);
            proof {
                assert(events.deep_view() =~= remaining.drop_first());
                assert(remaining[0] == e@);
                lemma_step_wf(pre, e@);
            }
            match &self.state {
                ClientConnectionState::Disconnected(_) => {
                    proof {
                        assert(pre.step(e@) == pre);
                    }
                },
                _ => {
                    match e {
                        TransportEvent::Closed => {
                            self.state = ClientConnectionState::Disconnected(
                                "Archipelago client worker thread exited unexpectedly".to_owned(),
                            );
                        },
                        TransportEvent::Error(err) => {
                            let reason = err.describe();
                            self.state = ClientConnectionState::Disconnected(reason);
                        },
                        TransportEvent::Message(msg) => match msg {
                            ServerMessage::ConnectionRefused { errors } => {
                                let reason = join_errors(&errors);
                                self.state = ClientConnectionState::Disconnected(reason);
                            },
                            ServerMessage::RoomInfo(ri) => {
                                self.room_info = Some(ri);
                            },
                            ServerMessage::DataPackage(dp) => {
                                self.data_package = Some(dp);
                            },
                            ServerMessage::Connected(c) => {
                                let mut ri: Option<RoomInfo> = None;
                                core::mem::swap(&mut ri, &mut self.room_info);
                                let mut dp: Option<DataPackage> = None;
                                core::mem::swap(&mut dp, &mut self.data_package);
                                let ri = match ri {
                                    Some(r) => r,
                                    None => unreached(),
                                };
                                let dp = match dp {
                                    Some(d) => d,
                                    None => unreached(),
                                };
                                let client = ConnectedClient::new(c, ri, dp);
                                self.state = ClientConnectionState::Connected(client);
                            },
                            other => {
                                let ghost m = other@;
                                match &mut self.state {
                                    ClientConnectionState::Connected(client) => {
                                        client.absorb(other);
                                    },
                                    _ => {
                                        self.state = ClientConnectionState::Disconnected(
                                            "Unexpected message received while connecting"
                                                .to_owned(),
                                        );
                                    },
                                }
                            },
                        },
                    }
                    proof {
                        assert(self@ == pre.step(remaining[0]));
                    }
                },
            }
        }
        proof {
            assert(events.deep_view() =~= Seq::<TransportEventView>::empty());
        }
    }
}

/// Before any handshake completion arrives, no session client exists: a
/// connection that has not seen a `Connected` message is never in the
/// `Connected` state.
pub proof fn lemma_no_handshake_no_session(
    c: ClientConnectionView,
    events: Seq<TransportEventView>,
)
    requires
        !(c.state is Connected),
        forall|k: int|
            0 <= k < events.len() ==> !(#[trigger] events[k] matches TransportEventView::Message(
                ServerMessageView::Connected(_),
            )),
    ensures
        !(c.run(events).state is Connected),
    decreases events.len(),
{
    if events.len() > 0 {
        assert(events[0] == events.first());
        let next = c.step(events[0]);
        assert(!(next.state is Connected));
        assert(forall|k: int|
            0 <= k < events.drop_first().len() ==> events.drop_first()[k] == events[k + 1]);
        lemma_no_handshake_no_session(next, events.drop_first());
    }
}

/// While only handshake data arrives — room info and the catalog — the
/// state remains `Connecting`.
pub proof fn lemma_handshake_data_keeps_connecting(
    c: ClientConnectionView,
    events: Seq<TransportEventView>,
)
    requires
        c.state is Connecting,
        forall|k: int|
            0 <= k < events.len() ==> (#[trigger] events[k] matches TransportEventView::Message(
                ServerMessageView::RoomInfo(_),
            ) || events[k] matches TransportEventView::Message(ServerMessageView::DataPackage(_))),
    ensures
        c.run(events).state is Connecting,
    decreases events.len(),
{
    if events.len() > 0 {
        assert(events[0] == events.first());
        let next = c.step(events[0]);
        assert(next.state is Connecting);
        assert(forall|k: int|
            0 <= k < events.drop_first().len() ==> events.drop_first()[k] == events[k + 1]);
        lemma_handshake_data_keeps_connecting(next, events.drop_first());
    }
}

} // verus!
