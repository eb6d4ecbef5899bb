//! Tests for the per-tick reconciliation logic.

use apclient::client::connection::ClientConnectionState;
use apclient::codec::encode_save_data;
use apclient::config::Config;
use apclient::item::{CategorizedItemID, EquipParamRow, ItemCategory};
use apclient::protocol::{
    BounceData, ClientMessage, Connected, DataPackage, DeathLink, GameData, NetworkItem, RoomInfo,
    ServerMessage, TransportEvent,
};
use apclient::reconcile::{
    Core, FatalError, HostAction, SeedConflictKind, SimpleConnectionState,
};
use apclient::save_data::SaveData;
use apclient::slot_data::{I64Key, Options, SlotData};

fn goods(value: u32) -> CategorizedItemID {
    CategorizedItemID { category: ItemCategory::Goods, value }
}

fn sample_config() -> Config {
    Config::new(
        "wss://multiworld.example:38281".to_string(),
        "bob".to_string(),
        "seed-1".to_string(),
        "3.0.0".to_string(),
        None,
    )
}

fn sample_data_package() -> DataPackage {
    DataPackage {
        games: vec![(
            "Dark Souls III".to_string(),
            GameData {
                item_name_to_id: vec![
                    ("Estus Shard".to_string(), 1001),
                    ("Coiled Sword".to_string(), 1002),
                    ("Undead Bone Shard".to_string(), 1003),
                ],
                location_name_to_id: vec![("HWL: Estus Shard".to_string(), 2001)],
            },
        )],
    }
}

fn sample_connected(death_link: bool) -> Connected {
    Connected {
        slot: 4,
        players: vec![(4, "bob".to_string())],
        slot_data: SlotData {
            ap_ids_to_item_ids: vec![
                (I64Key(1001), goods(100)),
                (I64Key(1002), goods(200)),
                (I64Key(1003), goods(300)),
            ],
            item_counts: vec![],
            options: Options { death_link, enable_dlc: false },
        },
    }
}

fn handshake_events(death_link: bool) -> Vec<TransportEvent> {
    vec![
        TransportEvent::Message(ServerMessage::RoomInfo(RoomInfo {
            seed_name: "seed-1".to_string(),
        })),
        TransportEvent::Message(ServerMessage::DataPackage(sample_data_package())),
        TransportEvent::Message(ServerMessage::Connected(sample_connected(death_link))),
    ]
}

fn network_item(item: i64) -> NetworkItem {
    NetworkItem { item, location: 2001, flags: 0 }
}

fn idle_host() -> apclient::reconcile::HostView {
    apclient::reconcile::HostView {
        game_loaded: false,
        player_loaded: false,
        player_present: false,
        player_hp: 100,
        dlc_available: false,
        dlc1_installed: false,
        dlc2_installed: false,
        goal_available: false,
        goal_flag: false,
        inventory_available: false,
        inventory: Vec::new(),
        rows: Vec::new(),
    }
}

fn ingame_host() -> apclient::reconcile::HostView {
    apclient::reconcile::HostView {
        game_loaded: true,
        player_loaded: true,
        player_present: true,
        player_hp: 100,
        dlc_available: false,
        dlc1_installed: false,
        dlc2_installed: false,
        goal_available: false,
        goal_flag: false,
        inventory_available: false,
        inventory: Vec::new(),
        rows: Vec::new(),
    }
}

/// A core with a completed handshake and three undelivered rewards.
fn connected_core(death_link: bool) -> Core {
    let mut core = Core::new(sample_config(), "3.0.0".to_string(), 0);
    let mut events = handshake_events(death_link);
    events.push(TransportEvent::Message(ServerMessage::ReceivedItems {
        index: 0,
        items: vec![network_item(1001), network_item(1002), network_item(1003)],
    }));
    core.tick(events, 0, false, &idle_host()).expect("the handshake tick must succeed");
    core
}

fn count_grants(actions: &[HostAction]) -> usize {
    actions
        .iter()
        .filter(|a| {
            matches!(a, HostAction::GrantItem { .. } | HostAction::GrantGesture { .. })
        })
        .count()
}

#[test]
fn connection_state_simplifies() {
    let core = Core::new(sample_config(), "3.0.0".to_string(), 0);
    assert_eq!(core.simple_connection_state(), SimpleConnectionState::Connecting);
    let connected = connected_core(false);
    assert_eq!(connected.simple_connection_state(), SimpleConnectionState::Connected);
}

#[test]
fn update_url_starts_new_epoch() {
    let mut core = connected_core(false);
    core.update_url("wss://other.example".to_string());
    assert_eq!(core.config().url(), "wss://other.example");
    assert_eq!(core.simple_connection_state(), SimpleConnectionState::Connecting);
}

#[test]
fn grace_period_blocks_grants() {
    let mut core = connected_core(false);
    // The game loads at t=1000; within the grace period nothing happens.
    let actions = core.tick(Vec::new(), 1000, false, &ingame_host()).unwrap();
    assert!(actions.is_empty());
    let actions = core.tick(Vec::new(), 9000, false, &ingame_host()).unwrap();
    assert!(actions.is_empty());
    assert_eq!(core.save_data.granted_count(), 0);
}

#[test]
fn grants_one_item_per_tick_until_caught_up() {
    let mut core = connected_core(false);
    // Load in at t=1000; the grace period ends at t=11000.
    core.tick(Vec::new(), 1000, false, &ingame_host()).unwrap();

    let first = core.tick(Vec::new(), 12000, false, &ingame_host()).unwrap();
    assert_eq!(count_grants(&first), 1);
    assert_eq!(
        first,
        vec![HostAction::GrantItem { id: goods(100), quantity: 1, durability: -1 }]
    );
    assert_eq!(core.save_data.granted_count(), 1);

    // Within the one-second spacing nothing more is granted.
    let blocked = core.tick(Vec::new(), 12500, false, &ingame_host()).unwrap();
    assert!(blocked.is_empty());

    let second = core.tick(Vec::new(), 13600, false, &ingame_host()).unwrap();
    assert_eq!(count_grants(&second), 1);
    let third = core.tick(Vec::new(), 15000, false, &ingame_host()).unwrap();
    assert_eq!(count_grants(&third), 1);
    assert_eq!(core.save_data.granted_count(), 3);

    // Everything is delivered; further ticks grant nothing.
    let done = core.tick(Vec::new(), 17000, false, &ingame_host()).unwrap();
    assert!(done.is_empty());
    assert_eq!(core.save_data.granted_count(), 3);
}

#[test]
fn redelivered_index_is_not_granted_twice() {
    let mut core = connected_core(false);
    core.tick(Vec::new(), 1000, false, &ingame_host()).unwrap();
    core.tick(Vec::new(), 12000, false, &ingame_host()).unwrap();
    assert_eq!(core.save_data.granted_count(), 1);
    // The server replays the same delivery from index zero.
    let replay = vec![TransportEvent::Message(ServerMessage::ReceivedItems {
        index: 0,
        items: vec![network_item(1001), network_item(1002), network_item(1003)],
    })];
    let actions = core.tick(replay, 13500, false, &ingame_host()).unwrap();
    // The next grant is index 1, not a second copy of index 0.
    assert_eq!(
        actions,
        vec![HostAction::GrantItem { id: goods(200), quantity: 1, durability: -1 }]
    );
    assert_eq!(core.save_data.granted_count(), 2);
    assert!(core.save_data.is_granted(0));
    assert!(core.save_data.is_granted(1));
}

#[test]
fn store_ahead_of_session_resets_with_warning() {
    let mut core = connected_core(false);
    for index in 0..5 {
        core.save_data.mark_granted(index);
    }
    let logs_before = core.logs().len();
    let action = core.process_incoming_items(60000, &ingame_host());
    assert!(action.is_none());
    assert_eq!(core.save_data.granted_count(), 0);
    assert_eq!(core.logs().len(), logs_before + 1);
}

#[test]
fn dragon_gesture_granted_as_gesture() {
    let mut core = Core::new(sample_config(), "3.0.0".to_string(), 0);
    let mut events = handshake_events(false);
    // Remap the first reward to the dragon gesture's placeholder id.
    if let TransportEvent::Message(ServerMessage::Connected(c)) = &mut events[2] {
        c.slot_data.ap_ids_to_item_ids[0] = (I64Key(1001), goods(9030));
    }
    events.push(TransportEvent::Message(ServerMessage::ReceivedItems {
        index: 0,
        items: vec![network_item(1001)],
    }));
    core.tick(events, 0, false, &idle_host()).unwrap();
    core.tick(Vec::new(), 1000, false, &ingame_host()).unwrap();
    let actions = core.tick(Vec::new(), 12000, false, &ingame_host()).unwrap();
    assert_eq!(actions, vec![HostAction::GrantGesture { gesture: 29, id: goods(9030) }]);
}

#[test]
fn seed_conflict_halts_tick_without_grants() {
    let mut core = connected_core(false);
    core.save_data.seed = Some("another-room".to_string());
    core.tick(Vec::new(), 1000, false, &ingame_host()).unwrap();
    let result = core.tick(Vec::new(), 20000, false, &ingame_host());
    match result {
        Err(FatalError::SeedConflict { kind, left, right }) => {
            assert_eq!(kind, SeedConflictKind::RoomVsSave);
            assert_eq!(left, "seed-1");
            assert_eq!(right, "another-room");
        },
        _ => panic!("expected a seed conflict"),
    }
    // The conflicting tick performs zero grants and zero reports.
    assert_eq!(core.save_data.granted_count(), 0);
    assert_eq!(core.save_data.seed.as_deref(), Some("another-room"));
    match &mut core.connection.state {
        ClientConnectionState::Connected(client) => {
            assert!(client.take_outbound().is_empty());
        },
        _ => panic!("expected a connected state"),
    }
}

#[test]
fn missing_seed_adopted_from_config() {
    let mut core = connected_core(false);
    assert!(core.save_data.seed.is_none());
    core.tick(Vec::new(), 1000, false, &ingame_host()).unwrap();
    core.tick(Vec::new(), 20000, false, &ingame_host()).unwrap();
    assert_eq!(core.save_data.seed.as_deref(), Some("seed-1"));
}

#[test]
fn version_conflict_reported() {
    let mut core = Core::new(sample_config(), "3.1.0".to_string(), 0);
    let result = core.tick(Vec::new(), 0, false, &idle_host());
    match result {
        Err(FatalError::VersionConflict { config_version, mod_version }) => {
            assert_eq!(config_version, "3.0.0");
            assert_eq!(mod_version, "3.1.0");
        },
        _ => panic!("expected a version conflict"),
    }
}

#[test]
fn missing_dlc_reported() {
    let mut core = Core::new(sample_config(), "3.0.0".to_string(), 0);
    let mut events = handshake_events(false);
    if let TransportEvent::Message(ServerMessage::Connected(c)) = &mut events[2] {
        c.slot_data.options.enable_dlc = true;
    }
    core.tick(events, 0, false, &idle_host()).unwrap();
    core.tick(Vec::new(), 1000, false, &ingame_host()).unwrap();
    let mut host = ingame_host();
    host.dlc_available = true;
    host.dlc1_installed = true;
    host.dlc2_installed = false;
    let result = core.tick(Vec::new(), 20000, false, &host);
    match result {
        Err(FatalError::DlcMissing { dlc1, dlc2 }) => {
            assert!(dlc1);
            assert!(!dlc2);
        },
        _ => panic!("expected a missing-expansion error"),
    }
}

#[test]
fn fatal_error_messages() {
    let message = FatalError::DlcMissing { dlc1: false, dlc2: false }.message();
    assert_eq!(
        message,
        "DLC is enabled for this seed but your game is missing both expansions."
    );
}

#[test]
fn new_locations_reported_in_one_call() {
    let mut core = connected_core(false);
    // Two locations were already checked and reported earlier.
    core.save_data.record_location(11);
    core.save_data.record_location(12);
    core.locations_sent = 2;

    // Three placeholders sit in the inventory, encoding locations 13,
    // 14 and 15.
    let ids = [goods(3780001), goods(3780002), goods(3780003)];
    let mut host = ingame_host();
    host.inventory_available = true;
    host.inventory = ids.to_vec();
    host.rows = ids
        .iter()
        .enumerate()
        .map(|(k, id)| {
            (
                *id,
                EquipParamRow {
                    basic_price: ((4u32 << 28) | 500) as i32,
                    sell_value: 1,
                    vagrant_item_lot_id: 13 + k as i32,
                    vagrant_bonus_ene_drop_item_lot_id: 0,
                    is_goods: true,
                    icon_id: 40,
                },
            )
        })
        .collect();

    let actions = core.process_inventory_items(&host);
    // Each placeholder converts to the real item and is removed.
    assert_eq!(actions.len(), 6);
    assert_eq!(core.save_data.locations, vec![11, 12, 13, 14, 15]);
    assert_eq!(core.locations_sent, 5);

    // Exactly one outbound report, carrying the full set.
    match &mut core.connection.state {
        ClientConnectionState::Connected(client) => {
            let queued = client.take_outbound();
            assert_eq!(queued.len(), 1);
            match &queued[0] {
                ClientMessage::LocationChecks { locations } => {
                    assert_eq!(locations, &vec![11, 12, 13, 14, 15]);
                },
                _ => panic!("expected a location report"),
            }
        },
        _ => panic!("expected a connected state"),
    }
}

#[test]
fn dragon_gesture_placeholder_converts_silently() {
    let mut core = connected_core(false);
    let id = goods(3780009);
    let mut host = ingame_host();
    host.inventory_available = true;
    host.inventory = vec![id];
    host.rows = vec![(
        id,
        EquipParamRow {
            basic_price: 0,
            sell_value: 0,
            vagrant_item_lot_id: 77,
            vagrant_bonus_ene_drop_item_lot_id: 0,
            is_goods: true,
            icon_id: 7039,
        },
    )];
    let actions = core.process_inventory_items(&host);
    assert_eq!(
        actions,
        vec![
            HostAction::SetGestureAcquired { gesture: 29 },
            HostAction::RemoveItem { id, count: 1 },
        ]
    );
    assert_eq!(core.save_data.locations, vec![77]);
}

#[test]
fn received_death_signal_kills_player_once() {
    let mut core = connected_core(true);
    let signal = TransportEvent::Message(ServerMessage::Bounced {
        data: BounceData::DeathLink(DeathLink {
            time_ms: 5,
            source: "alice".to_string(),
            cause: None,
        }),
    });
    core.tick(vec![signal], 1000, false, &ingame_host()).unwrap();
    let action = core.handle_death_link(40000, &ingame_host());
    assert_eq!(action, Some(HostAction::KillPlayer));
    // The debounce window blocks an immediate second exchange.
    let action = core.handle_death_link(41000, &ingame_host());
    assert!(action.is_none());
}

#[test]
fn own_death_broadcasts_signal() {
    let mut core = connected_core(true);
    let mut host = ingame_host();
    host.player_hp = 0;
    let action = core.handle_death_link(40000, &host);
    assert!(action.is_none());
    match &mut core.connection.state {
        ClientConnectionState::Connected(client) => {
            let queued = client.take_outbound();
            assert_eq!(queued.len(), 1);
            match &queued[0] {
                ClientMessage::BounceDeathLink(dl) => {
                    assert_eq!(dl.time_ms, 40000);
                    // The signal names the originating player, not the room.
                    assert_eq!(dl.source, "bob");
                },
                _ => panic!("expected a death signal"),
            }
        },
        _ => panic!("expected a connected state"),
    }
}

#[test]
fn death_signals_disabled_by_option() {
    let mut core = connected_core(false);
    let mut host = ingame_host();
    host.player_hp = 0;
    let action = core.handle_death_link(40000, &host);
    assert!(action.is_none());
    match &mut core.connection.state {
        ClientConnectionState::Connected(client) => {
            assert!(client.take_outbound().is_empty());
        },
        _ => panic!("expected a connected state"),
    }
}

#[test]
fn goal_reported_exactly_once() {
    let mut core = connected_core(false);
    let mut host = ingame_host();
    host.goal_available = true;
    host.goal_flag = true;
    core.handle_goal(&host);
    core.handle_goal(&host);
    assert!(core.sent_goal);
    match &mut core.connection.state {
        ClientConnectionState::Connected(client) => {
            let queued = client.take_outbound();
            assert_eq!(queued.len(), 1);
            assert!(matches!(queued[0], ClientMessage::StatusGoal));
        },
        _ => panic!("expected a connected state"),
    }
}

#[test]
fn save_lifecycle_round_trips_through_core() {
    let mut core = connected_core(false);
    core.save_data.mark_granted(0);
    core.save_data.record_location(42);
    core.save_data.seed = Some("seed-1".to_string());
    let bytes = core.save_bytes(true).expect("an active session must save");
    assert!(core.save_bytes(false).is_none());

    let mut other = Core::new(sample_config(), "3.0.0".to_string(), 0);
    other.load_save(Some(bytes));
    assert_eq!(other.save_data.granted_count(), 1);
    assert_eq!(other.save_data.locations, vec![42]);
    assert_eq!(other.save_data.seed.as_deref(), Some("seed-1"));

    // A truncated buffer resets the store to empty instead of failing.
    let mut truncated = encode_save_data(&other.save_data);
    truncated.pop();
    other.load_save(Some(truncated));
    assert_eq!(other.save_data.granted_count(), 0);
    assert!(other.save_data.seed.is_none());

    other.load_save(None);
    assert_eq!(other.save_data.granted_count(), 0);
}

#[test]
fn disconnect_reason_logged() {
    let mut core = connected_core(false);
    let logs_before = core.logs().len();
    core.tick(vec![TransportEvent::Closed], 1000, false, &idle_host()).unwrap();
    assert_eq!(core.simple_connection_state(), SimpleConnectionState::Disconnected);
    assert_eq!(core.logs().len(), logs_before + 1);
    assert!(core.slot().is_none());
}

#[test]
fn refused_handshake_logs_friendly_message() {
    let mut core = Core::new(sample_config(), "3.0.0".to_string(), 0);
    let events = vec![TransportEvent::Error(
        apclient::protocol::TransportError::IllegalResponse {
            expected: "Connected".to_string(),
            received: "ConnectionRefused".to_string(),
        },
    )];
    core.tick(events, 0, false, &idle_host()).unwrap();
    assert_eq!(core.simple_connection_state(), SimpleConnectionState::Disconnected);
    let last = core.logs().last().expect("a log entry");
    match &last.parts[0] {
        apclient::protocol::RichMessagePart::Text(text) => {
            assert_eq!(
                text,
                "Connection refused. Make sure the server session is running and the URL is up-to-date."
            );
        },
        _ => panic!("expected plain text"),
    }
}

#[test]
fn slot_reported_while_connected() {
    let core = connected_core(false);
    assert_eq!(core.slot(), Some(4));
}

#[test]
fn error_flag_freezes_reconciliation() {
    let mut core = connected_core(false);
    core.tick(Vec::new(), 1000, false, &ingame_host()).unwrap();
    let actions = core.tick(Vec::new(), 20000, true, &ingame_host()).unwrap();
    assert!(actions.is_empty());
    assert_eq!(core.save_data.granted_count(), 0);
}

#[test]
fn empty_save_round_trip_is_canonical() {
    let data = SaveData::empty();
    let bytes = encode_save_data(&data);
    let again = encode_save_data(&data);
    assert_eq!(bytes, again);
}
