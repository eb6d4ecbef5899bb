//! The session client: the only mutable surface reachable once a
//! connection is established. It buffers inbound items, prints and death
//! signals for pull-based consumption, and queues outbound messages for
//! the transport worker to drain.

use vstd::prelude::*;

use crate::client::game_data_wrapper::{GameDataWrapper, GameDataWrapperView};
use crate::client::item::{Item, ItemView};
use crate::protocol::{
    assoc, assoc_str, BounceData, BounceDataView, ClientMessage, ClientMessageView, Connected,
    ConnectedView, DataPackage, DataPackageView, DeathLink, DeathLinkView, NetworkItem, RichPrint,
    RichPrintView, RichMessagePart, RichMessagePartView, RoomInfo, RoomInfoView, ServerMessage,
    ServerMessageView,
};
use crate::slot_data::assoc_i64;

verus! {

/// The name this game registers with the multiworld under. It must match
/// the server's world name exactly.
pub fn game_name() -> (r: &'static str)
    ensures
        r@ == spec_game_name(),
{
    "Dark Souls III"
}

/// The view of `game_name`.
pub open spec fn spec_game_name() -> Seq<char> {
    "Dark Souls III"@
}

/// The mathematical value of a `ConnectedClient`.
#[verifier::ext_equal]
pub struct ConnectedClientView {
    pub connected: ConnectedView,
    pub room_info: RoomInfoView,
    pub game_data: GameDataWrapperView,
    pub items: Seq<ItemView>,
    pub prints: Seq<RichPrintView>,
    pub death_link: Option<DeathLinkView>,
    pub outbound: Seq<ClientMessageView>,
}

impl ConnectedClientView {
    /// Delivery indices are exactly the buffer positions: contiguous
    /// from zero, in server delivery order.
    pub open spec fn wf(self) -> bool {
        forall|k: int| 0 <= k < self.items.len() ==> #[trigger] self.items[k].index == k
    }

    /// The client constructed from a completed handshake: the catalog
    /// for this game inverted, every buffer empty.
    pub open spec fn from_handshake(
        connected: ConnectedView,
        room_info: RoomInfoView,
        data_package: DataPackageView,
    ) -> ConnectedClientView {
        ConnectedClientView {
            connected,
            room_info,
            game_data: GameDataWrapperView::of_game_data(
                assoc_str(data_package.games, spec_game_name())->Some_0,
            ),
            items: Seq::empty(),
            prints: Seq::empty(),
            death_link: None,
            outbound: Seq::empty(),
        }
    }

    /// The alias this player goes by in the room: the players entry for
    /// the connected slot, or the empty name if the server listed none.
    /// Used as the originating-player identifier on broadcast death
    /// signals.
    pub open spec fn self_alias(self) -> Seq<char> {
        match assoc(self.connected.players, self.connected.slot) {
            Some(name) => name,
            None => Seq::empty(),
        }
    }

    /// Whether one reward entry can be resolved against this client's
    /// cached catalog and slot data. The server guarantees both for
    /// every reward it delivers, so the session requires it rather than
    /// handling absence.
    pub open spec fn item_resolvable(self, it: NetworkItem) -> bool {
        &&& assoc(self.game_data.id_to_item_name, it.item) is Some
        &&& assoc_i64(self.connected.slot_data.ap_ids_to_item_ids, it.item) is Some
    }

    /// The reward entry `it`, resolved, standing at buffer position
    /// `idx`.
    pub open spec fn resolve_item(self, it: NetworkItem, idx: int) -> ItemView {
        ItemView {
            ap: it,
            ap_name: assoc(self.game_data.id_to_item_name, it.item)->Some_0,
            location_name: assoc(self.game_data.id_to_location_name, it.location),
            ds3_id: assoc_i64(self.connected.slot_data.ap_ids_to_item_ids, it.item)->Some_0,
            quantity: match assoc_i64(self.connected.slot_data.item_counts, it.item) {
                Some(n) => n,
                None => 1u32,
            },
            index: idx as u64,
        }
    }

    /// How many leading entries of a delivery starting at absolute index
    /// `index` are already buffered and so are skipped.
    pub open spec fn skip_count(self, index: int, count: int) -> int {
        if index >= self.items.len() {
            0
        } else if self.items.len() - index <= count {
            self.items.len() - index
        } else {
            count
        }
    }

    /// The items a `ReceivedItems` delivery appends: the entries not yet
    /// buffered, resolved, at the positions they will occupy.
    pub open spec fn received_suffix(self, index: int, items: Seq<NetworkItem>) -> Seq<ItemView> {
        let skip = self.skip_count(index, items.len() as int);
        Seq::new(
            (items.len() - skip) as nat,
            |j: int| self.resolve_item(items[skip + j], self.items.len() + j),
        )
    }

    /// One part of a rich message with its id placeholders resolved
    /// against the players list and the catalog; parts that cannot be
    /// resolved are kept as they came.
    pub open spec fn resolve_part(self, p: RichMessagePartView) -> RichMessagePartView {
        match p {
            RichMessagePartView::PlayerId(id) => match assoc(self.connected.players, id) {
                Some(n) => RichMessagePartView::PlayerName(n),
                None => p,
            },
            RichMessagePartView::ItemId { id, flags } => match assoc(
                self.game_data.id_to_item_name,
                id,
            ) {
                Some(n) => RichMessagePartView::ItemName { name: n, flags },
                None => p,
            },
            RichMessagePartView::LocationId(id) => match assoc(
                self.game_data.id_to_location_name,
                id,
            ) {
                Some(n) => RichMessagePartView::LocationName(n),
                None => p,
            },
            _ => p,
        }
    }

    /// A rich message with every part resolved.
    pub open spec fn resolve_print(self, rp: RichPrintView) -> RichPrintView {
        RichPrintView { parts: rp.parts.map_values(|p| self.resolve_part(p)) }
    }

    /// Whether the session can absorb `m` without hitting an id the
    /// catalog does not define.
    pub open spec fn message_ok(self, m: ServerMessageView) -> bool {
        match m {
            ServerMessageView::ReceivedItems { index, items } => {
                let skip = self.skip_count(index as int, items.len() as int);
                &&& self.items.len() + items.len() <= u64::MAX
                &&& forall|j: int|
                    skip <= j < items.len() ==> self.item_resolvable(#[trigger] items[j])
            },
            _ => true,
        }
    }

    /// The session state after absorbing one forwarded message: rewards
    /// are appended in delivery order, prints are appended, a death
    /// signal overwrites the pending slot (last write wins), and
    /// messages of any other kind change nothing.
    pub open spec fn absorb_message(self, m: ServerMessageView) -> ConnectedClientView {
        match m {
            ServerMessageView::ReceivedItems { index, items } => ConnectedClientView {
                items: self.items + self.received_suffix(index as int, items),
                ..self
            },
            ServerMessageView::Print { text } => ConnectedClientView {
                prints: self.prints.push(RichPrintView::message_view(text)),
                ..self
            },
            ServerMessageView::RichPrint(rp) => ConnectedClientView {
                prints: self.prints.push(self.resolve_print(rp)),
                ..self
            },
            ServerMessageView::Bounced { data: BounceDataView::DeathLink(dl) } => {
                ConnectedClientView { death_link: Some(dl), ..self }
            },
            _ => self,
        }
    }
}

/// A pull-based client representing an established, active session. All
/// of the actual communication is done by the transport worker; this
/// state only changes when the connection's `update` runs.
pub struct ConnectedClient {
    /// The information provided upon the initial connection.
    pub connected: Connected,

    /// The room info for the current connection.
    pub room_info: RoomInfo,

    /// This game's catalog, keyed by id.
    pub game_data: GameDataWrapper,

    /// Buffered received items. Never consumed, only appended: consumers
    /// walk it by delivery index.
    pub items: Vec<Item>,

    /// Buffered prints waiting to be consumed by the caller.
    pub prints: Vec<RichPrint>,

    /// The most recent death signal that has not yet been consumed.
    pub death_link: Option<DeathLink>,

    /// Outbound messages waiting for the transport worker to drain.
    pub outbound: Vec<ClientMessage>,
}

impl View for ConnectedClient {
    type V = ConnectedClientView;

    open spec fn view(&self) -> ConnectedClientView {
        ConnectedClientView {
            connected: self.connected@,
            room_info: self.room_info@,
            game_data: self.game_data@,
            items: self.items.deep_view(),
            prints: self.prints.deep_view(),
            death_link: self.death_link.deep_view(),
            outbound: self.outbound.deep_view(),
        }
    }
}

impl DeepView for ConnectedClient {
    type V = ConnectedClientView;

    open spec fn deep_view(&self) -> ConnectedClientView {
        self@
    }
}

impl ConnectedClient {
    /// Builds the session client from the data accumulated during the
    /// handshake. The data package must hold a catalog for this game;
    /// the server guarantees it, and the state machine requires it.
    pub fn new(connected: Connected, room_info: RoomInfo, data_package: DataPackage) -> (r:
        ConnectedClient)
        requires
            assoc_str(data_package@.games, spec_game_name()) is Some,
        ensures
            r@ == ConnectedClientView::from_handshake(connected@, room_info@, data_package@),
            r@.wf(),
    {
        let ghost games = data_package@.games;
        let game = game_name().to_owned();
        let mut i: usize = 0;
        proof {
            assert(games.skip(0) =~= games);
        }
        while i < data_package.games.len()
            invariant
                i <= data_package.games@.len(),
                games == data_package@.games,
                assoc_str(games, spec_game_name()) is Some,
                game@ == spec_game_name(),
                assoc_str(games, spec_game_name()) == assoc_str(
                    games.skip(i as int),
                    spec_game_name(),
                ),
            decreases data_package.games@.len() - i,
        {
            proof {
                assert(games.skip(i as int)[0] == games[i as int]);
                assert(games.skip(i as int).drop_first() =~= games.skip(i + 1));
            }
            if data_package.games[i].0.eq(&game) {
                let game_data = GameDataWrapper::new(&data_package.games[i].1);
                let r = ConnectedClient {
                    connected,
                    room_info,
                    game_data,
                    items: Vec::new(),
                    prints: Vec::new(),
                    death_link: None,
                    outbound: Vec::new(),
                };
                proof {
                    assert(r@.items =~~= Seq::<ItemView>::empty());
                    assert(r@.prints =~~= Seq::<RichPrintView>::empty());
                    assert(r@.outbound =~~= Seq::<ClientMessageView>::empty());
                }
                return r;
            }
            i += 1;
        }
        proof {
            assert(false);
        }
        unreached()
    }

    /// The information provided upon the initial connection.
    pub fn connected(&self) -> (r: &Connected)
        ensures
            r == &self.connected,
    {
        &self.connected
    }

    /// The room information for the current session.
    pub fn room_info(&self) -> (r: &RoomInfo)
        ensures
            r == &self.room_info,
    {
        &self.room_info
    }

    /// Every reward received by this player over the entire session, in
    /// delivery order. Consumers walk this by delivery index, not by
    /// length, because deliveries may be replayed from index zero.
    pub fn items(&self) -> (r: &Vec<Item>)
        ensures
            r == &self.items,
    {
        &self.items
    }

    /// Takes and returns every print received since the last call, in
    /// arrival order. A second call with no arrivals in between returns
    /// nothing: no print is returned twice or dropped.
    pub fn prints(&mut self) -> (r: Vec<RichPrint>)
        ensures
            r.deep_view() == old(self)@.prints,
            final(self)@ == (ConnectedClientView { prints: Seq::empty(), ..old(self)@ }),
    {
        let mut r: Vec<RichPrint> = Vec::new();
        core::mem::swap(&mut r, &mut self.prints);
        proof {
            assert(self.prints.deep_view() =~~= Seq::<RichPrintView>::empty());
        }
        r
    }

    /// Takes and returns the most recent death signal received since the
    /// last call, if any. Earlier, superseded signals are silently
    /// discarded: last write wins.
    pub fn death_link(&mut self) -> (r: Option<DeathLink>)
        ensures
            r.deep_view() == old(self)@.death_link,
            final(self)@ == (ConnectedClientView { death_link: None, ..old(self)@ }),
    {
        let mut r: Option<DeathLink> = None;
        core::mem::swap(&mut r, &mut self.death_link);
        r
    }

    /// Queues a chat message for the server and the other players.
    pub fn say(&mut self, text: String)
        ensures
            final(self)@ == (ConnectedClientView {
                outbound: old(self)@.outbound.push(ClientMessageView::Say { text: text@ }),
                ..old(self)@
            }),
    {
        self.outbound.push(ClientMessage::Say { text });
        proof {
            assert(self.outbound.deep_view() =~~= old(self).outbound.deep_view().push(
                ClientMessageView::Say { text: text@ },
            ));
        }
    }

    /// Queues a report that the given locations have been checked.
    pub fn location_checks(&mut self, locations: Vec<i64>)
        ensures
            final(self)@ == (ConnectedClientView {
                outbound: old(self)@.outbound.push(
                    ClientMessageView::LocationChecks { locations: locations@ },
                ),
                ..old(self)@
            }),
    {
        self.outbound.push(ClientMessage::LocationChecks { locations });
        proof {
            assert(self.outbound.deep_view() =~~= old(self).outbound.deep_view().push(
                ClientMessageView::LocationChecks { locations: locations@ },
            ));
        }
    }

    /// Queues a broadcast death signal, stamped with the current time
    /// and this player's alias as the originating-player identifier.
    pub fn send_death_link(&mut self, now_ms: u64)
        ensures
            final(self)@ == (ConnectedClientView {
                outbound: old(self)@.outbound.push(
                    ClientMessageView::BounceDeathLink(
                        DeathLinkView {
                            time_ms: now_ms,
                            source: old(self)@.self_alias(),
                            cause: None,
                        },
                    ),
                ),
                ..old(self)@
            }),
    {
        let source = match lookup_player(&self.connected.players, self.connected.slot) {
            Some(name) => name,
            None => String::new(),
        };
        self.outbound.push(
            ClientMessage::BounceDeathLink(DeathLink { time_ms: now_ms, source, cause: None }),
        );
        proof {
            assert(self.outbound.deep_view() =~~= old(self).outbound.deep_view().push(
                ClientMessageView::BounceDeathLink(
                    DeathLinkView {
                        time_ms: now_ms,
                        source: old(self)@.self_alias(),
                        cause: None,
                    },
                ),
            ));
        }
    }

    /// Queues a report that this player has reached their goal.
    pub fn send_goal(&mut self)
        ensures
            final(self)@ == (ConnectedClientView {
                outbound: old(self)@.outbound.push(ClientMessageView::StatusGoal),
                ..old(self)@
            }),
    {
        self.outbound.push(ClientMessage::StatusGoal);
        proof {
            assert(self.outbound.deep_view() =~~= old(self).outbound.deep_view().push(
                ClientMessageView::StatusGoal,
            ));
        }
    }

    /// Takes and returns every queued outbound message, in queue order.
    /// The transport worker calls this once per tick and forwards each
    /// message to the socket.
    pub fn take_outbound(&mut self) -> (r: Vec<ClientMessage>)
        ensures
            r.deep_view() == old(self)@.outbound,
            final(self)@ == (ConnectedClientView { outbound: Seq::empty(), ..old(self)@ }),
    {
        let mut r: Vec<ClientMessage> = Vec::new();
        core::mem::swap(&mut r, &mut self.outbound);
        proof {
            assert(self.outbound.deep_view() =~~= Seq::<ClientMessageView>::empty());
        }
        r
    }

    /// Resolves the parts of a rich message against the players list and
    /// the catalog, in place.
    fn resolve_rich_print(&self, rp: RichPrint) -> (r: RichPrint)
        ensures
            r@ == self@.resolve_print(rp@),
    {
        let mut parts: Vec<RichMessagePart> = Vec::new();
        let mut rest = rp.parts;
        let ghost all = rest.deep_view();
        let mut i: usize = 0;
        proof {
            assert(self@.resolve_print(RichPrintView { parts: all }).parts.len() == all.len());
        }
        while i < rest.len()
            invariant
                i <= rest.deep_view().len(),
                rest.deep_view() == all,
                parts.deep_view() =~~= all.take(i as int).map_values(
                    |p: RichMessagePartView| self@.resolve_part(p),
                ),
            decreases rest.deep_view().len() - i,
        {
            let part = &rest[i];
            let resolved = match part {
                RichMessagePart::PlayerId(id) => {
                    match lookup_player(&self.connected.players, *id) {
                        Some(n) => RichMessagePart::PlayerName(n),
                        None => RichMessagePart::PlayerId(*id),
                    }
                },
                RichMessagePart::ItemId { id, flags } => {
                    match self.game_data.item_name_opt(*id) {
                        Some(n) => RichMessagePart::ItemName { name: n, flags: *flags },
                        None => RichMessagePart::ItemId { id: *id, flags: *flags },
                    }
                },
                RichMessagePart::LocationId(id) => {
                    match self.game_data.location_name(*id) {
                        Some(n) => RichMessagePart::LocationName(n),
                        None => RichMessagePart::LocationId(*id),
                    }
                },
                RichMessagePart::Text(t) => RichMessagePart::Text(t.clone()),
                RichMessagePart::PlayerName(n) => RichMessagePart::PlayerName(n.clone()),
                RichMessagePart::ItemName { name, flags } => RichMessagePart::ItemName {
                    name: name.clone(),
                    flags: *flags,
                },
                RichMessagePart::LocationName(n) => RichMessagePart::LocationName(n.clone()),
                RichMessagePart::EntranceName(n) => RichMessagePart::EntranceName(n.clone()),
                RichMessagePart::Color { color, text } => RichMessagePart::Color {
                    color: *color,
                    text: text.clone(),
                },
            };
            let ghost prev = parts.deep_view();
            let ghost rv = resolved@;
            proof {
                assert(rv == self@.resolve_part(all[i as int]));
            }
            parts.push(resolved);
            proof {
                let new_dv = parts.deep_view();
                let target = all.take(i + 1).map_values(
                    |p: RichMessagePartView| self@.resolve_part(p),
                );
                assert(parts@.len() == prev.len() + 1);
                assert(new_dv.len() == parts@.len());
                assert(prev.len() == i);
                assert(target.len() == i + 1);
                assert forall|k: int| 0 <= k < new_dv.len() implies new_dv[k] == target[k] by {
                    assert(all.take(i + 1)[k] == all[k]);
                    if k < i {
                        assert(new_dv[k] == prev[k]);
                        assert(prev[k] == all.take(i as int).map_values(
                            |p: RichMessagePartView| self@.resolve_part(p),
                        )[k]);
                        assert(all.take(i as int)[k] == all[k]);
                    } else {
                        assert(new_dv[k] == rv);
                    }
                }
                assert(new_dv =~~= target);
            }
            i += 1;
        }
        proof {
            assert(all.take(i as int) =~~= all);
        }
        RichPrint { parts }
    }

    /// Absorbs one message forwarded by the connection state machine,
    /// updating the buffers as `absorb_message` describes. Invoked only
    /// by the state machine.
    pub fn absorb(&mut self, message: ServerMessage)
        requires
            old(self)@.wf(),
            old(self)@.message_ok(message@),
        ensures
            final(self)@ == old(self)@.absorb_message(message@),
            final(self)@.wf(),
    {
        let ghost pre = self@;
        match message {
            ServerMessage::ReceivedItems { index, items } => {
                let skip: usize = if index >= self.items.len() {
                    0
                } else if self.items.len() - index <= items.len() {
                    self.items.len() - index
                } else {
                    items.len()
                };
                proof {
                    assert(skip == pre.skip_count(index as int, items@.len() as int));
                }
                let mut j: usize = skip;
                while j < items.len()
                    invariant
                        pre == old(self)@,
                        skip <= j <= items@.len(),
                        skip == pre.skip_count(index as int, items@.len() as int),
                        pre.wf(),
                        pre.items.len() + items@.len() <= u64::MAX,
                        forall|k: int|
                            skip <= k < items@.len() ==> pre.item_resolvable(#[trigger] items@[k]),
                        self.connected == old(self).connected,
                        self.room_info == old(self).room_info,
                        self.game_data == old(self).game_data,
                        self.prints == old(self).prints,
                        self.death_link == old(self).death_link,
                        self.outbound == old(self).outbound,
                        self@.items =~~= pre.items + Seq::new(
                            (j - skip) as nat,
                            |q: int| pre.resolve_item(items@[skip + q], pre.items.len() + q),
                        ),
                    decreases items@.len() - j,
                {
                    let it = items[j];
                    proof {
                        assert(pre.item_resolvable(items@[j as int]));
                        assert(self.game_data@ == pre.game_data);
                        assert(self.connected@ == pre.connected);
                    }
                    let ap_name = self.game_data.item_name(it.item);
                    let location_name = self.game_data.location_name(it.location);
                    let ds3_id = match self.connected.slot_data.item_id_for(it.item) {
                        Some(d) => d,
                        None => unreached(),
                    };
                    let quantity = self.connected.slot_data.count_for(it.item);
                    let idx = self.items.len() as u64;
                    let ghost prev = self.items.deep_view();
                    let ghost pushed = ItemView {
                        ap: it,
                        ap_name: ap_name@,
                        location_name: location_name.deep_view(),
                        ds3_id: ds3_id,
                        quantity: quantity,
                        index: idx,
                    };
                    proof {
                        assert(pushed == pre.resolve_item(items@[j as int], pre.items.len() + (j - skip)));
                    }
                    self.items.push(
                        Item { ap: it, ap_name, location_name, ds3_id, quantity, index: idx },
                    );
                    proof {
                        let new_dv = self.items.deep_view();
                        let target = pre.items + Seq::new(
                            (j + 1 - skip) as nat,
                            |q: int| pre.resolve_item(items@[skip + q], pre.items.len() + q),
                        );
                        assert(self.items@.len() == prev.len() + 1);
                        assert(new_dv.len() == self.items@.len());
                        assert(prev.len() == pre.items.len() + (j - skip));
                        assert(target.len() == new_dv.len());
                        assert forall|k: int| 0 <= k < new_dv.len() implies new_dv[k]
                            == target[k] by {
                            if k < prev.len() {
                                assert(new_dv[k] == prev[k]);
                                assert(prev[k] == (pre.items + Seq::new(
                                    (j - skip) as nat,
                                    |q: int| pre.resolve_item(items@[skip + q], pre.items.len() + q),
                                ))[k]);
                            } else {
                                assert(new_dv[k] == pushed);
                                assert(target[k] == pre.resolve_item(
                                    items@[skip + (k - pre.items.len())],
                                    pre.items.len() + (k - pre.items.len()),
                                ));
                            }
                        }
                        assert(new_dv =~~= target);
                    }
                    j += 1;
                }
                proof {
                    assert(self@ =~~= pre.absorb_message(
                        ServerMessageView::ReceivedItems { index, items: items@ },
                    ));
                    assert forall|k: int| 0 <= k < self@.items.len() implies #[trigger] self@.items[k].index
                        == k by {
                        if k >= pre.items.len() {
                            assert(self@.items[k] == pre.resolve_item(
                                items@[skip + (k - pre.items.len())],
                                k,
                            ));
                        }
                    }
                }
            },
            ServerMessage::Print { text } => {
                self.prints.push(RichPrint::message(text));
                proof {
                    assert(self.prints.deep_view() =~~= pre.prints.push(
                        RichPrintView::message_view(text@),
                    ));
                }
            },
            ServerMessage::RichPrint(rp) => {
                let resolved = self.resolve_rich_print(rp);
                self.prints.push(resolved);
                proof {
                    assert(self.prints.deep_view() =~~= pre.prints.push(pre.resolve_print(rp@)));
                }
            },
            ServerMessage::Bounced { data } => {
                match data {
                    BounceData::DeathLink(dl) => {
                        self.death_link = Some(dl);
                    },
                    BounceData::Other => {},
                }
            },
            _ => {},
        }
    }
}

/// Looks up a player's alias by slot id.
fn lookup_player(players: &Vec<(i64, String)>, id: i64) -> (r: Option<String>)
    ensures
        match r {
            Some(n) => assoc(players.deep_view(), id) == Some(n@),
            None => assoc(players.deep_view(), id) is None,
        },
{
    let ghost pairs = players.deep_view();
    let mut i: usize = 0;
    proof {
        assert(pairs.skip(0) =~= pairs);
    }
    while i < players.len()
        invariant
            i <= pairs.len(),
            pairs == players.deep_view(),
            assoc(pairs, id) == assoc(pairs.skip(i as int), id),
        decreases pairs.len() - i,
    {
        proof {
            assert(pairs.skip(i as int)[0] == pairs[i as int]);
            assert(pairs.skip(i as int).drop_first() =~= pairs.skip(i + 1));
        }
        if players[i].0 == id {
            return Some(players[i].1.clone());
        }
        i += 1;
    }
    None
}


/// The session after a run of plain prints arrives, in order.
pub open spec fn absorb_prints(c: ConnectedClientView, texts: Seq<Seq<char>>) -> ConnectedClientView
    decreases texts.len(),
{
    if texts.len() == 0 {
        c
    } else {
        absorb_prints(c, texts.drop_last()).absorb_message(
            ServerMessageView::Print { text: texts.last() },
        )
    }
}

/// Prints are delivered exactly once: after a run of arrivals, the
/// pending buffer holds what was pending before plus exactly the new
/// arrivals in arrival order — nothing twice, nothing dropped — and a
/// buffer that has been taken holds nothing, so a second take with no
/// arrivals in between returns the empty sequence.
pub proof fn lemma_prints_taken_exactly_once(c: ConnectedClientView, texts: Seq<Seq<char>>)
    ensures
        absorb_prints(c, texts).prints =~= c.prints + texts.map_values(
            |t: Seq<char>| RichPrintView::message_view(t),
        ),
        (ConnectedClientView { prints: Seq::empty(), ..absorb_prints(c, texts) }).prints.len()
            == 0,
    decreases texts.len(),
{
    if texts.len() > 0 {
        lemma_prints_taken_exactly_once(c, texts.drop_last());
        assert(texts.drop_last().map_values(|t: Seq<char>| RichPrintView::message_view(t))
            =~= texts.map_values(|t: Seq<char>| RichPrintView::message_view(t)).drop_last());
        assert(absorb_prints(c, texts).prints =~= absorb_prints(c, texts.drop_last()).prints.push(
            RichPrintView::message_view(texts.last()),
        ));
    }
}

/// Death signals overwrite rather than queue: after two signals arrive
/// in order, only the newer is pending, one take returns it, and a
/// further take with no arrivals in between returns nothing.
pub proof fn lemma_death_link_last_write_wins(
    c: ConnectedClientView,
    first: DeathLinkView,
    second: DeathLinkView,
)
    ensures
        ({
            let c2 = c.absorb_message(
                ServerMessageView::Bounced { data: BounceDataView::DeathLink(first) },
            ).absorb_message(
                ServerMessageView::Bounced { data: BounceDataView::DeathLink(second) },
            );
            &&& c2.death_link == Some(second)
            &&& (ConnectedClientView { death_link: None, ..c2 }).death_link is None
        }),
{
}

/// Delivery indices, once observed, never change and never decrease:
/// absorbing any message only appends to the reward buffer, every
/// already-buffered reward keeps its place, and the indices across the
/// buffer are strictly increasing over the whole life of the session.
pub proof fn lemma_item_indices_monotone(c: ConnectedClientView, m: ServerMessageView)
    requires
        c.wf(),
        c.message_ok(m),
    ensures
        c.absorb_message(m).wf(),
        c.absorb_message(m).items.len() >= c.items.len(),
        forall|k: int|
            0 <= k < c.items.len() ==> #[trigger] c.absorb_message(m).items[k] == c.items[k],
        forall|i: int, j: int|
            0 <= i < j < c.absorb_message(m).items.len() ==> c.absorb_message(m).items[i].index
                < c.absorb_message(m).items[j].index,
{
    let next = c.absorb_message(m);
    match m {
        ServerMessageView::ReceivedItems { index, items } => {
            assert forall|k: int| 0 <= k < next.items.len() implies #[trigger] next.items[k].index
                == k by {
                if k >= c.items.len() {
                    let skip = c.skip_count(index as int, items.len() as int);
                    assert(next.items[k] == c.resolve_item(
                        items[skip + (k - c.items.len())],
                        k,
                    ));
                }
            }
        },
        _ => {},
    }
}

} // verus!
