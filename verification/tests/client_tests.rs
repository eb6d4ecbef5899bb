//! Tests for the connection state machine and the session client.

use apclient::client::connected::ConnectedClient;
use apclient::client::connection::{ClientConnection, ClientConnectionState};
use apclient::item::{CategorizedItemID, ItemCategory};
use apclient::protocol::{
    BounceData, ClientMessage, Connected, DataPackage, DeathLink, GameData, NetworkItem, RichPrint,
    RoomInfo, ServerMessage, TransportError, TransportEvent,
};
use apclient::slot_data::{I64Key, Options, SlotData};

fn goods(value: u32) -> CategorizedItemID {
    CategorizedItemID { category: ItemCategory::Goods, value }
}

fn sample_game_data() -> GameData {
    GameData {
        item_name_to_id: vec![
            ("Estus Shard".to_string(), 1001),
            ("Coiled Sword".to_string(), 1002),
            ("Undead Bone Shard".to_string(), 1003),
        ],
        location_name_to_id: vec![
            ("HWL: Estus Shard".to_string(), 2001),
            ("FS: Coiled Sword".to_string(), 2002),
        ],
    }
}

fn sample_data_package() -> DataPackage {
    DataPackage { games: vec![("Dark Souls III".to_string(), sample_game_data())] }
}

fn sample_slot_data(death_link: bool) -> SlotData {
    SlotData {
        ap_ids_to_item_ids: vec![
            (I64Key(1001), goods(100)),
            (I64Key(1002), goods(200)),
            (I64Key(1003), goods(300)),
        ],
        item_counts: vec![(I64Key(1002), 3)],
        options: Options { death_link, enable_dlc: false },
    }
}

fn sample_connected(death_link: bool) -> Connected {
    Connected {
        slot: 4,
        players: vec![(1, "alice".to_string()), (4, "bob".to_string())],
        slot_data: sample_slot_data(death_link),
    }
}

fn handshake_events(death_link: bool) -> Vec<TransportEvent> {
    vec![
        TransportEvent::Message(ServerMessage::RoomInfo(RoomInfo {
            seed_name: "seed-1".to_string(),
        })),
        TransportEvent::Message(ServerMessage::DataPackage(sample_data_package())),
        TransportEvent::Message(ServerMessage::Connected(sample_connected(death_link))),
    ]
}

fn connected_client(conn: &mut ClientConnection) -> &mut ConnectedClient {
    match &mut conn.state {
        ClientConnectionState::Connected(client) => client,
        _ => panic!("expected a connected state"),
    }
}

fn network_item(item: i64) -> NetworkItem {
    NetworkItem { item, location: 2001, flags: 1 }
}

#[test]
fn new_connection_is_connecting() {
    let conn = ClientConnection::new();
    assert!(matches!(conn.state, ClientConnectionState::Connecting));
}

#[test]
fn handshake_data_alone_keeps_connecting() {
    let mut conn = ClientConnection::new();
    conn.update(vec![
        TransportEvent::Message(ServerMessage::RoomInfo(RoomInfo {
            seed_name: "seed-1".to_string(),
        })),
        TransportEvent::Message(ServerMessage::DataPackage(sample_data_package())),
    ]);
    assert!(matches!(conn.state, ClientConnectionState::Connecting));
}

#[test]
fn no_session_client_before_connected_message() {
    let mut conn = ClientConnection::new();
    conn.update(vec![
        TransportEvent::Message(ServerMessage::RoomInfo(RoomInfo {
            seed_name: "seed-1".to_string(),
        })),
        TransportEvent::Message(ServerMessage::DataPackage(sample_data_package())),
        TransportEvent::Message(ServerMessage::Print { text: "too early".to_string() }),
    ]);
    // A steady-state message before the handshake completes is a
    // protocol-sequencing violation: the epoch ends, and no session
    // client was ever constructed.
    match &conn.state {
        ClientConnectionState::Disconnected(reason) => {
            assert_eq!(reason, "Unexpected message received while connecting");
        },
        _ => panic!("expected a disconnect"),
    }
}

#[test]
fn completed_handshake_connects() {
    let mut conn = ClientConnection::new();
    conn.update(handshake_events(false));
    let client = connected_client(&mut conn);
    assert_eq!(client.connected().slot, 4);
    assert_eq!(client.room_info().seed_name, "seed-1");
    assert!(client.items().is_empty());
}

#[test]
fn worker_exit_disconnects() {
    let mut conn = ClientConnection::new();
    conn.update(vec![TransportEvent::Closed]);
    match &conn.state {
        ClientConnectionState::Disconnected(reason) => {
            assert_eq!(reason, "Archipelago client worker thread exited unexpectedly");
        },
        _ => panic!("expected a disconnect"),
    }
}

#[test]
fn refusal_reasons_are_joined() {
    let mut conn = ClientConnection::new();
    conn.update(vec![TransportEvent::Message(ServerMessage::ConnectionRefused {
        errors: vec!["InvalidSlot".to_string(), "InvalidPassword".to_string()],
    })]);
    match &conn.state {
        ClientConnectionState::Disconnected(reason) => {
            assert_eq!(reason, "InvalidSlot, InvalidPassword");
        },
        _ => panic!("expected a disconnect"),
    }
}

#[test]
fn transport_error_becomes_reason() {
    let mut conn = ClientConnection::new();
    conn.update(vec![TransportEvent::Error(TransportError::IllegalResponse {
        expected: "DataPackage".to_string(),
        received: "Retrieved".to_string(),
    })]);
    match &conn.state {
        ClientConnectionState::Disconnected(reason) => {
            assert_eq!(reason, "expected DataPackage, received Retrieved");
        },
        _ => panic!("expected a disconnect"),
    }
}

#[test]
fn disconnected_ignores_later_events() {
    let mut conn = ClientConnection::new();
    conn.update(vec![TransportEvent::Closed]);
    conn.update(handshake_events(false));
    assert!(matches!(conn.state, ClientConnectionState::Disconnected(_)));
}

#[test]
fn prints_returned_once_in_order() {
    let mut conn = ClientConnection::new();
    conn.update(handshake_events(false));
    conn.update(vec![
        TransportEvent::Message(ServerMessage::Print { text: "first".to_string() }),
        TransportEvent::Message(ServerMessage::Print { text: "second".to_string() }),
        TransportEvent::Message(ServerMessage::Print { text: "third".to_string() }),
    ]);
    let client = connected_client(&mut conn);
    let taken = client.prints();
    assert_eq!(taken.len(), 3);
    let texts: Vec<String> = taken
        .iter()
        .map(|p| match &p.parts[0] {
            apclient::protocol::RichMessagePart::Text(t) => t.clone(),
            _ => panic!("expected plain text"),
        })
        .collect();
    assert_eq!(texts, vec!["first", "second", "third"]);
    // A second take with no arrivals in between returns nothing.
    assert!(client.prints().is_empty());
}

#[test]
fn death_link_last_write_wins() {
    let mut conn = ClientConnection::new();
    conn.update(handshake_events(true));
    let older = DeathLink { time_ms: 100, source: "alice".to_string(), cause: None };
    let newer = DeathLink {
        time_ms: 200,
        source: "carol".to_string(),
        cause: Some("fell".to_string()),
    };
    conn.update(vec![
        TransportEvent::Message(ServerMessage::Bounced {
            data: BounceData::DeathLink(older),
        }),
        TransportEvent::Message(ServerMessage::Bounced {
            data: BounceData::DeathLink(newer),
        }),
    ]);
    let client = connected_client(&mut conn);
    let taken = client.death_link().expect("expected the newer signal");
    assert_eq!(taken.time_ms, 200);
    assert_eq!(taken.source, "carol");
    assert_eq!(taken.cause.as_deref(), Some("fell"));
    // A third take returns nothing.
    assert!(client.death_link().is_none());
}

#[test]
fn items_resolved_and_indexed_in_order() {
    let mut conn = ClientConnection::new();
    conn.update(handshake_events(false));
    conn.update(vec![TransportEvent::Message(ServerMessage::ReceivedItems {
        index: 0,
        items: vec![network_item(1001), network_item(1002)],
    })]);
    let client = connected_client(&mut conn);
    assert_eq!(client.items().len(), 2);
    assert_eq!(client.items()[0].index(), 0);
    assert_eq!(client.items()[1].index(), 1);
    assert_eq!(client.items()[0].ap_name(), "Estus Shard");
    assert_eq!(client.items()[0].ds3_id(), goods(100));
    assert_eq!(client.items()[0].quantity(), 1);
    assert_eq!(client.items()[1].quantity(), 3);
    assert_eq!(client.items()[0].location_name(), Some("HWL: Estus Shard"));
    assert!(client.items()[0].is_progression());
    assert!(!client.items()[0].is_trap());
}

#[test]
fn replayed_delivery_is_not_duplicated() {
    let mut conn = ClientConnection::new();
    conn.update(handshake_events(false));
    conn.update(vec![TransportEvent::Message(ServerMessage::ReceivedItems {
        index: 0,
        items: vec![network_item(1001), network_item(1002)],
    })]);
    // The server replays the whole list from index zero with one new
    // entry appended; only the new entry is buffered.
    conn.update(vec![TransportEvent::Message(ServerMessage::ReceivedItems {
        index: 0,
        items: vec![network_item(1001), network_item(1002), network_item(1003)],
    })]);
    let client = connected_client(&mut conn);
    assert_eq!(client.items().len(), 3);
    for (k, item) in client.items().iter().enumerate() {
        assert_eq!(item.index(), k as u64);
    }
    assert_eq!(client.items()[2].ap_name(), "Undead Bone Shard");
}

#[test]
fn outbound_messages_queue_in_order() {
    let mut conn = ClientConnection::new();
    conn.update(handshake_events(false));
    let client = connected_client(&mut conn);
    client.say("hello".to_string());
    client.location_checks(vec![2001, 2002]);
    client.send_death_link(12345);
    client.send_goal();
    let queued = client.take_outbound();
    assert_eq!(queued.len(), 4);
    match &queued[0] {
        ClientMessage::Say { text } => assert_eq!(text, "hello"),
        _ => panic!("expected a chat message"),
    }
    match &queued[1] {
        ClientMessage::LocationChecks { locations } => assert_eq!(locations, &vec![2001, 2002]),
        _ => panic!("expected a location report"),
    }
    match &queued[2] {
        ClientMessage::BounceDeathLink(dl) => {
            assert_eq!(dl.time_ms, 12345);
            // The signal names the originating player, not the room.
            assert_eq!(dl.source, "bob");
            assert!(dl.cause.is_none());
        },
        _ => panic!("expected a death signal"),
    }
    assert!(matches!(queued[3], ClientMessage::StatusGoal));
    assert!(connected_client(&mut conn).take_outbound().is_empty());
}

#[test]
fn death_link_source_falls_back_when_unlisted() {
    let mut conn = ClientConnection::new();
    let mut events = handshake_events(true);
    // A server that lists no entry for this slot yields an empty
    // originating-player name rather than failing.
    if let TransportEvent::Message(ServerMessage::Connected(c)) = &mut events[2] {
        c.players = vec![(1, "alice".to_string())];
    }
    conn.update(events);
    let client = connected_client(&mut conn);
    client.send_death_link(7);
    match &client.take_outbound()[0] {
        ClientMessage::BounceDeathLink(dl) => assert_eq!(dl.source, ""),
        _ => panic!("expected a death signal"),
    }
}

#[test]
fn rich_print_ids_resolved_against_catalog() {
    let mut conn = ClientConnection::new();
    conn.update(handshake_events(false));
    conn.update(vec![TransportEvent::Message(ServerMessage::RichPrint(RichPrint {
        parts: vec![
            apclient::protocol::RichMessagePart::PlayerId(1),
            apclient::protocol::RichMessagePart::ItemId { id: 1002, flags: 1 },
            apclient::protocol::RichMessagePart::LocationId(2002),
            apclient::protocol::RichMessagePart::PlayerId(99),
        ],
    }))]);
    let client = connected_client(&mut conn);
    let taken = client.prints();
    assert_eq!(taken.len(), 1);
    let parts = &taken[0].parts;
    match &parts[0] {
        apclient::protocol::RichMessagePart::PlayerName(n) => assert_eq!(n, "alice"),
        _ => panic!("expected a resolved player name"),
    }
    match &parts[1] {
        apclient::protocol::RichMessagePart::ItemName { name, flags } => {
            assert_eq!(name, "Coiled Sword");
            assert_eq!(*flags, 1);
        },
        _ => panic!("expected a resolved item name"),
    }
    match &parts[2] {
        apclient::protocol::RichMessagePart::LocationName(n) => assert_eq!(n, "FS: Coiled Sword"),
        _ => panic!("expected a resolved location name"),
    }
    // An unknown player id stays unresolved rather than failing.
    assert!(matches!(parts[3], apclient::protocol::RichMessagePart::PlayerId(99)));
}

#[test]
fn state_names() {
    assert_eq!(ClientConnectionState::Connecting.name(), "Connecting");
    assert_eq!(
        ClientConnectionState::Disconnected("x".to_string()).name(),
        "Disconnected"
    );
}
