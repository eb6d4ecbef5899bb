//! Typed models of the wire messages exchanged with the multiworld server
//! and of the events the background transport forwards to the foreground.
//!
//! The transport worker owns the real socket; it translates raw wire
//! messages into these plain values before handing them over, so that the
//! state machine and the session client operate on data Verus can reason
//! about. Each type carries a mathematical view (`View`/`DeepView`) in
//! which strings become character sequences; the contracts of the state
//! machine are stated over those views.

use vstd::prelude::*;

use crate::slot_data::{I64Key, Options, SlotData};
use crate::item::CategorizedItemID;

verus! {

/// Flag bit marking an item that can unlock logical advancement.
pub const FLAG_PROGRESSION: u32 = 1;

/// Flag bit marking an item that is especially useful.
pub const FLAG_USEFUL: u32 = 2;

/// Flag bit marking an item that is a trap.
pub const FLAG_TRAP: u32 = 4;

/// The first value associated with `key` in an association list.
pub open spec fn assoc<T>(pairs: Seq<(i64, T)>, key: i64) -> Option<T>
    decreases pairs.len(),
{
    if pairs.len() == 0 {
        None
    } else if pairs[0].0 == key {
        Some(pairs[0].1)
    } else {
        assoc(pairs.drop_first(), key)
    }
}

/// The first value associated with the string `key`.
pub open spec fn assoc_str<T>(pairs: Seq<(Seq<char>, T)>, key: Seq<char>) -> Option<T>
    decreases pairs.len(),
{
    if pairs.len() == 0 {
        None
    } else if pairs[0].0 == key {
        Some(pairs[0].1)
    } else {
        assoc_str(pairs.drop_first(), key)
    }
}

/// One reward entry as the server reports it: remote ids plus the flag
/// bits above.
#[derive(Clone, Copy, PartialEq, Eq, Structural, Debug)]
pub struct NetworkItem {
    /// The server's id for the item itself.
    pub item: i64,
    /// The server's id for the location the item was found at.
    pub location: i64,
    /// The flag bits describing the item's importance.
    pub flags: u32,
}

/// The room metadata sent at the start of the handshake.
pub struct RoomInfo {
    /// The unique identifier of the remote session. Used to detect a save
    /// file being reused against a different room.
    pub seed_name: String,
}

/// The mathematical value of a `RoomInfo`.
#[verifier::ext_equal]
pub struct RoomInfoView {
    pub seed_name: Seq<char>,
}

impl View for RoomInfo {
    type V = RoomInfoView;

    open spec fn view(&self) -> RoomInfoView {
        RoomInfoView { seed_name: self.seed_name@ }
    }
}

impl DeepView for RoomInfo {
    type V = RoomInfoView;

    open spec fn deep_view(&self) -> RoomInfoView {
        self@
    }
}

/// The name catalog for a single game: mappings from display names to
/// numeric ids, as the server delivers them.
pub struct GameData {
    /// Item display name to item id.
    pub item_name_to_id: Vec<(String, i64)>,
    /// Location display name to location id.
    pub location_name_to_id: Vec<(String, i64)>,
}

/// The mathematical value of a `GameData`.
#[verifier::ext_equal]
pub struct GameDataView {
    pub item_name_to_id: Seq<(Seq<char>, i64)>,
    pub location_name_to_id: Seq<(Seq<char>, i64)>,
}

impl View for GameData {
    type V = GameDataView;

    open spec fn view(&self) -> GameDataView {
        GameDataView {
            item_name_to_id: self.item_name_to_id.deep_view(),
            location_name_to_id: self.location_name_to_id.deep_view(),
        }
    }
}

impl DeepView for GameData {
    type V = GameDataView;

    open spec fn deep_view(&self) -> GameDataView {
        self@
    }
}

/// The server-delivered data package: one name catalog per game.
pub struct DataPackage {
    /// Game name to that game's catalog.
    pub games: Vec<(String, GameData)>,
}

/// The mathematical value of a `DataPackage`.
#[verifier::ext_equal]
pub struct DataPackageView {
    pub games: Seq<(Seq<char>, GameDataView)>,
}

impl View for DataPackage {
    type V = DataPackageView;

    open spec fn view(&self) -> DataPackageView {
        DataPackageView { games: self.games.deep_view() }
    }
}

impl DeepView for DataPackage {
    type V = DataPackageView;

    open spec fn deep_view(&self) -> DataPackageView {
        self@
    }
}

/// The mathematical value of a `SlotData`.
#[verifier::ext_equal]
pub struct SlotDataView {
    pub ap_ids_to_item_ids: Seq<(I64Key, CategorizedItemID)>,
    pub item_counts: Seq<(I64Key, u32)>,
    pub options: Options,
}

impl View for SlotData {
    type V = SlotDataView;

    open spec fn view(&self) -> SlotDataView {
        SlotDataView {
            ap_ids_to_item_ids: self.ap_ids_to_item_ids@,
            item_counts: self.item_counts@,
            options: self.options,
        }
    }
}

impl DeepView for SlotData {
    type V = SlotDataView;

    open spec fn deep_view(&self) -> SlotDataView {
        self@
    }
}

/// The payload of a successful handshake.
pub struct Connected {
    /// The slot id this player occupies.
    pub slot: i64,
    /// Slot id to player alias, for every player in the room.
    pub players: Vec<(i64, String)>,
    /// The per-slot configuration the generator stored for this player.
    pub slot_data: SlotData,
}

/// The mathematical value of a `Connected`.
#[verifier::ext_equal]
pub struct ConnectedView {
    pub slot: i64,
    pub players: Seq<(i64, Seq<char>)>,
    pub slot_data: SlotDataView,
}

impl View for Connected {
    type V = ConnectedView;

    open spec fn view(&self) -> ConnectedView {
        ConnectedView {
            slot: self.slot,
            players: self.players.deep_view(),
            slot_data: self.slot_data@,
        }
    }
}

impl DeepView for Connected {
    type V = ConnectedView;

    open spec fn deep_view(&self) -> ConnectedView {
        self@
    }
}

/// A cross-player death signal.
pub struct DeathLink {
    /// When the death happened, in milliseconds.
    pub time_ms: u64,
    /// The player or session that originated the signal.
    pub source: String,
    /// A human-readable cause, if one was supplied.
    pub cause: Option<String>,
}

/// The mathematical value of a `DeathLink`.
#[verifier::ext_equal]
pub struct DeathLinkView {
    pub time_ms: u64,
    pub source: Seq<char>,
    pub cause: Option<Seq<char>>,
}

impl View for DeathLink {
    type V = DeathLinkView;

    open spec fn view(&self) -> DeathLinkView {
        DeathLinkView {
            time_ms: self.time_ms,
            source: self.source@,
            cause: self.cause.deep_view(),
        }
    }
}

impl DeepView for DeathLink {
    type V = DeathLinkView;

    open spec fn deep_view(&self) -> DeathLinkView {
        self@
    }
}

/// The payload of a bounced broadcast packet.
pub enum BounceData {
    /// A cross-player death signal.
    DeathLink(DeathLink),
    /// A bounce payload this client does not interpret.
    Other,
}

/// The mathematical value of a `BounceData`.
#[verifier::ext_equal]
pub enum BounceDataView {
    DeathLink(DeathLinkView),
    Other,
}

impl View for BounceData {
    type V = BounceDataView;

    open spec fn view(&self) -> BounceDataView {
        match self {
            BounceData::DeathLink(dl) => BounceDataView::DeathLink(dl@),
            BounceData::Other => BounceDataView::Other,
        }
    }
}

impl DeepView for BounceData {
    type V = BounceDataView;

    open spec fn deep_view(&self) -> BounceDataView {
        self@
    }
}

/// The colors a rich message part may request.
#[derive(Clone, Copy, PartialEq, Eq, Structural, Debug)]
pub enum RichMessageColor {
    Black,
    Red,
    Green,
    Yellow,
    Blue,
    Magenta,
    Cyan,
    White,
}

/// One fragment of a rich server message. Id fragments are placeholders
/// that are resolved to name fragments against the cached catalog before
/// the message is surfaced.
pub enum RichMessagePart {
    /// Plain text.
    Text(String),
    /// A reference to a player by slot id, not yet resolved.
    PlayerId(i64),
    /// A player's display name.
    PlayerName(String),
    /// A reference to an item by id, not yet resolved.
    ItemId { id: i64, flags: u32 },
    /// An item's display name.
    ItemName { name: String, flags: u32 },
    /// A reference to a location by id, not yet resolved.
    LocationId(i64),
    /// A location's display name.
    LocationName(String),
    /// An entrance's display name.
    EntranceName(String),
    /// Text with an explicit color.
    Color { color: RichMessageColor, text: String },
}

/// The mathematical value of a `RichMessagePart`.
#[verifier::ext_equal]
pub enum RichMessagePartView {
    Text(Seq<char>),
    PlayerId(i64),
    PlayerName(Seq<char>),
    ItemId { id: i64, flags: u32 },
    ItemName { name: Seq<char>, flags: u32 },
    LocationId(i64),
    LocationName(Seq<char>),
    EntranceName(Seq<char>),
    Color { color: RichMessageColor, text: Seq<char> },
}

impl View for RichMessagePart {
    type V = RichMessagePartView;

    open spec fn view(&self) -> RichMessagePartView {
        match self {
            RichMessagePart::Text(t) => RichMessagePartView::Text(t@),
            RichMessagePart::PlayerId(id) => RichMessagePartView::PlayerId(*id),
            RichMessagePart::PlayerName(n) => RichMessagePartView::PlayerName(n@),
            RichMessagePart::ItemId { id, flags } => RichMessagePartView::ItemId {
                id: *id,
                flags: *flags,
            },
            RichMessagePart::ItemName { name, flags } => RichMessagePartView::ItemName {
                name: name@,
                flags: *flags,
            },
            RichMessagePart::LocationId(id) => RichMessagePartView::LocationId(*id),
            RichMessagePart::LocationName(n) => RichMessagePartView::LocationName(n@),
            RichMessagePart::EntranceName(n) => RichMessagePartView::EntranceName(n@),
            RichMessagePart::Color { color, text } => RichMessagePartView::Color {
                color: *color,
                text: text@,
            },
        }
    }
}

impl DeepView for RichMessagePart {
    type V = RichMessagePartView;

    open spec fn deep_view(&self) -> RichMessagePartView {
        self@
    }
}

/// A formatted server message, surfaced to the user via the log.
pub struct RichPrint {
    /// The fragments making up the message, in display order.
    pub parts: Vec<RichMessagePart>,
}

/// The mathematical value of a `RichPrint`.
#[verifier::ext_equal]
pub struct RichPrintView {
    pub parts: Seq<RichMessagePartView>,
}

impl View for RichPrint {
    type V = RichPrintView;

    open spec fn view(&self) -> RichPrintView {
        RichPrintView { parts: self.parts.deep_view() }
    }
}

impl DeepView for RichPrint {
    type V = RichPrintView;

    open spec fn deep_view(&self) -> RichPrintView {
        self@
    }
}

impl RichPrintView {
    /// The view of a plain-text message.
    pub open spec fn message_view(text: Seq<char>) -> RichPrintView {
        RichPrintView { parts: seq![RichMessagePartView::Text(text)] }
    }
}

impl RichPrint {
    /// Wraps plain text in a single-fragment message.
    pub fn message(text: String) -> (r: RichPrint)
        ensures
            r@ == RichPrintView::message_view(text@),
    {
        let r = RichPrint { parts: vec![RichMessagePart::Text(text)] };
        proof {
            assert(r@.parts =~= seq![r.parts@[0]@]);
        }
        r
    }
}

/// A message from the server, after the transport has typed it.
pub enum ServerMessage {
    /// Room metadata; arrives once, early in the handshake.
    RoomInfo(RoomInfo),
    /// The name catalog; arrives once the client requests it.
    DataPackage(DataPackage),
    /// The handshake has succeeded.
    Connected(Connected),
    /// The handshake was rejected; the strings describe why.
    ConnectionRefused { errors: Vec<String> },
    /// Rewards delivered to this player. `index` is the absolute delivery
    /// index of the first entry.
    ReceivedItems { index: usize, items: Vec<NetworkItem> },
    /// A plain-text server message.
    Print { text: String },
    /// A formatted server message.
    RichPrint(RichPrint),
    /// A broadcast packet bounced back by the server.
    Bounced { data: BounceData },
    /// A message kind this client does not interpret.
    Other,
}

/// The mathematical value of a `ServerMessage`.
#[verifier::ext_equal]
pub enum ServerMessageView {
    RoomInfo(RoomInfoView),
    DataPackage(DataPackageView),
    Connected(ConnectedView),
    ConnectionRefused { errors: Seq<Seq<char>> },
    ReceivedItems { index: usize, items: Seq<NetworkItem> },
    Print { text: Seq<char> },
    RichPrint(RichPrintView),
    Bounced { data: BounceDataView },
    Other,
}

impl View for ServerMessage {
    type V = ServerMessageView;

    open spec fn view(&self) -> ServerMessageView {
        match self {
            ServerMessage::RoomInfo(ri) => ServerMessageView::RoomInfo(ri@),
            ServerMessage::DataPackage(dp) => ServerMessageView::DataPackage(dp@),
            ServerMessage::Connected(c) => ServerMessageView::Connected(c@),
            ServerMessage::ConnectionRefused { errors } => ServerMessageView::ConnectionRefused {
                errors: errors.deep_view(),
            },
            ServerMessage::ReceivedItems { index, items } => ServerMessageView::ReceivedItems {
                index: *index,
                items: items@,
            },
            ServerMessage::Print { text } => ServerMessageView::Print { text: text@ },
            ServerMessage::RichPrint(rp) => ServerMessageView::RichPrint(rp@),
            ServerMessage::Bounced { data } => ServerMessageView::Bounced { data: data@ },
            ServerMessage::Other => ServerMessageView::Other,
        }
    }
}

impl DeepView for ServerMessage {
    type V = ServerMessageView;

    open spec fn deep_view(&self) -> ServerMessageView {
        self@
    }
}

/// A message to the server, queued by the session client and drained by
/// the transport worker.
pub enum ClientMessage {
    /// A chat line.
    Say { text: String },
    /// The ids of every location this player has checked so far.
    LocationChecks { locations: Vec<i64> },
    /// A broadcast death signal.
    BounceDeathLink(DeathLink),
    /// This player has reached their goal.
    StatusGoal,
    /// A request for the name catalog, sent during the handshake.
    GetDataPackage,
}

/// The mathematical value of a `ClientMessage`.
#[verifier::ext_equal]
pub enum ClientMessageView {
    Say { text: Seq<char> },
    LocationChecks { locations: Seq<i64> },
    BounceDeathLink(DeathLinkView),
    StatusGoal,
    GetDataPackage,
}

impl View for ClientMessage {
    type V = ClientMessageView;

    open spec fn view(&self) -> ClientMessageView {
        match self {
            ClientMessage::Say { text } => ClientMessageView::Say { text: text@ },
            ClientMessage::LocationChecks { locations } => ClientMessageView::LocationChecks {
                locations: locations@,
            },
            ClientMessage::BounceDeathLink(dl) => ClientMessageView::BounceDeathLink(dl@),
            ClientMessage::StatusGoal => ClientMessageView::StatusGoal,
            ClientMessage::GetDataPackage => ClientMessageView::GetDataPackage,
        }
    }
}

impl DeepView for ClientMessage {
    type V = ClientMessageView;

    open spec fn deep_view(&self) -> ClientMessageView {
        self@
    }
}

/// A terminal transport failure, reported as a typed value so that the
/// foreground can turn it into a disconnect reason.
pub enum TransportError {
    /// The server answered a handshake step with the wrong message kind.
    IllegalResponse { expected: String, received: String },
    /// The underlying connection closed.
    ConnectionClosed,
    /// A lower-level network failure, already rendered to text.
    Network(String),
    /// Any other failure, already rendered to text.
    Other(String),
}

/// The mathematical value of a `TransportError`.
#[verifier::ext_equal]
pub enum TransportErrorView {
    IllegalResponse { expected: Seq<char>, received: Seq<char> },
    ConnectionClosed,
    Network(Seq<char>),
    Other(Seq<char>),
}

impl View for TransportError {
    type V = TransportErrorView;

    open spec fn view(&self) -> TransportErrorView {
        match self {
            TransportError::IllegalResponse { expected, received } => {
                TransportErrorView::IllegalResponse { expected: expected@, received: received@ }
            },
            TransportError::ConnectionClosed => TransportErrorView::ConnectionClosed,
            TransportError::Network(text) => TransportErrorView::Network(text@),
            TransportError::Other(text) => TransportErrorView::Other(text@),
        }
    }
}

impl DeepView for TransportError {
    type V = TransportErrorView;

    open spec fn deep_view(&self) -> TransportErrorView {
        self@
    }
}

impl TransportErrorView {
    /// The disconnect reason `TransportError::describe` renders.
    pub open spec fn describe_view(&self) -> Seq<char> {
        match self {
            TransportErrorView::IllegalResponse { expected, received } => "expected "@ + *expected
                + ", received "@ + *received,
            TransportErrorView::ConnectionClosed => "connection closed"@,
            TransportErrorView::Network(text) => *text,
            TransportErrorView::Other(text) => *text,
        }
    }
}

impl TransportError {
    /// Renders the failure for the disconnect reason surfaced to the user.
    pub fn describe(&self) -> (r: String)
        ensures
            r@ == self@.describe_view(),
    {
        match self {
            TransportError::IllegalResponse { expected, received } => {
                let mut s = "expected ".to_owned();
                s.append(expected.as_str());
                s.append(", received ");
                s.append(received.as_str());
                s
            },
            TransportError::ConnectionClosed => "connection closed".to_owned(),
            TransportError::Network(text) => text.as_str().to_owned(),
            TransportError::Other(text) => text.as_str().to_owned(),
        }
    }
}

/// One event handed from the transport worker to the foreground: either a
/// typed message, a typed failure, or the observation that the worker is
/// gone.
pub enum TransportEvent {
    /// A message forwarded from the server.
    Message(ServerMessage),
    /// A terminal failure; the worker sends at most one, then exits.
    Error(TransportError),
    /// The channel reported the worker gone without a terminal message.
    Closed,
}

/// The mathematical value of a `TransportEvent`.
#[verifier::ext_equal]
pub enum TransportEventView {
    Message(ServerMessageView),
    Error(TransportErrorView),
    Closed,
}

impl View for TransportEvent {
    type V = TransportEventView;

    open spec fn view(&self) -> TransportEventView {
        match self {
            TransportEvent::Message(m) => TransportEventView::Message(m@),
            TransportEvent::Error(e) => TransportEventView::Error(e@),
            TransportEvent::Closed => TransportEventView::Closed,
        }
    }
}

impl DeepView for TransportEvent {
    type V = TransportEventView;

    open spec fn deep_view(&self) -> TransportEventView {
        self@
    }
}

} // verus!
