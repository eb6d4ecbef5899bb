//! The per-tick reconciliation logic: it drives the connection state
//! machine, cross-checks the three seed identities, drains newly arrived
//! rewards into host grant actions, converts placeholder inventory
//! entries, and exchanges death signals — all gated on the host reporting
//! a live game session.
//!
//! The host's own state is handed in as a plain [`HostView`] each tick,
//! and every side effect the host must perform comes back as a
//! [`HostAction`], so the whole tick is a function from values to values.

use vstd::prelude::*;

use crate::client::connected::ConnectedClientView;
use crate::client::connection::{
    ClientConnection, ClientConnectionState, ClientConnectionStateView, ClientConnectionView,
};
use crate::client::item::ItemView;
use crate::config::Config;
use crate::item::{find_row, row_for, CategorizedItemID, EquipParamRow, DRAGON_GESTURE_GOODS_ID,
    DRAGON_GESTURE_ICON_ID, DRAGON_GESTURE_ID, ItemCategory};
use crate::protocol::{ClientMessageView, DeathLinkView, RichPrint, RichPrintView, ServerMessageView,
    TransportError, TransportErrorView, TransportEvent, TransportEventView};
use crate::save_data::SaveData;

verus! {

/// The dwell time after the host loads a game before the first action is
/// taken, in milliseconds.
pub const GRACE_PERIOD_MS: u64 = 10000;

/// The minimum spacing between two successive item grants, in
/// milliseconds, so grant pop-ups do not overlap.
pub const ITEM_SPACING_MS: u64 = 1000;

/// The dwell time after sending or receiving a death signal during which
/// no further one is sent or received, in milliseconds.
pub const DEATH_LINK_GRACE_PERIOD_MS: u64 = 30000;

/// Milliseconds from `t` to `now`, and zero when `t` lies in the future.
pub open spec fn elapsed(now: u64, t: u64) -> int {
    if now >= t {
        now - t
    } else {
        0
    }
}

/// Milliseconds from `t` to `now`, clamped at zero.
pub fn elapsed_ms(now: u64, t: u64) -> (r: u64)
    ensures
        r == elapsed(now, t),
{
    if now >= t {
        now - t
    } else {
        0
    }
}

/// A simplification of the connection state that carries no payload.
#[derive(Clone, Copy, PartialEq, Eq, Structural, Debug)]
pub enum SimpleConnectionState {
    Disconnected,
    Connecting,
    Connected,
}

/// Everything the reconciliation logic reads from the host in one tick,
/// as plain values.
pub struct HostView {
    /// Whether a game is loaded. The progress store and every in-game
    /// action are available only while this holds.
    pub game_loaded: bool,
    /// Whether the player's own game data is reachable, needed to grant.
    pub player_loaded: bool,
    /// Whether the player's character exists, needed for death signals.
    pub player_present: bool,
    /// The player's current hit points.
    pub player_hp: u32,
    /// Whether the host can report expansion installation yet.
    pub dlc_available: bool,
    /// Whether the first expansion is installed.
    pub dlc1_installed: bool,
    /// Whether the second expansion is installed.
    pub dlc2_installed: bool,
    /// Whether the host can report event flags yet.
    pub goal_available: bool,
    /// Whether the goal's event flag is set.
    pub goal_flag: bool,
    /// Whether the host's inventory and parameter tables are reachable.
    pub inventory_available: bool,
    /// The item ids currently in the player's inventory.
    pub inventory: Vec<CategorizedItemID>,
    /// The host's parameter rows for the placeholder ids in the
    /// inventory.
    pub rows: Vec<(CategorizedItemID, EquipParamRow)>,
}

/// One side effect for the host to perform, in order.
#[derive(Clone, Copy, PartialEq, Eq, Structural, Debug)]
pub enum HostAction {
    /// Grant an item through the host's pop-up path.
    GrantItem { id: CategorizedItemID, quantity: u32, durability: i32 },
    /// Grant a gesture in place of its placeholder consumable.
    GrantGesture { gesture: u32, id: CategorizedItemID },
    /// Mark a gesture acquired without a pop-up.
    SetGestureAcquired { gesture: u32 },
    /// Put an item directly into the inventory, without a pop-up.
    GiveItemDirectly { id: CategorizedItemID, count: i32 },
    /// Remove `count` instances of an item from the inventory.
    RemoveItem { id: CategorizedItemID, count: i32 },
    /// Kill the player's character.
    KillPlayer,
}

/// Which two seed identities disagree.
#[derive(Clone, Copy, PartialEq, Eq, Structural, Debug)]
pub enum SeedConflictKind {
    /// The connected room's seed differs from the configured seed.
    RoomVsConfig,
    /// The connected room's seed differs from the save file's seed.
    RoomVsSave,
    /// The configured seed differs from the save file's seed.
    ConfigVsSave,
}

/// A condition that halts reconciliation until the user resolves it or
/// restarts the connection.
#[derive(Debug)]
pub enum FatalError {
    /// The configuration was generated by a different version of this
    /// client.
    VersionConflict { config_version: String, mod_version: String },
    /// Two of the three seed identities disagree; acting would corrupt
    /// the save.
    SeedConflict { kind: SeedConflictKind, left: String, right: String },
    /// The room expects expansions the host does not have.
    DlcMissing { dlc1: bool, dlc2: bool },
}

/// The mathematical value of a `FatalError`.
#[verifier::ext_equal]
pub enum FatalErrorView {
    VersionConflict { config_version: Seq<char>, mod_version: Seq<char> },
    SeedConflict { kind: SeedConflictKind, left: Seq<char>, right: Seq<char> },
    DlcMissing { dlc1: bool, dlc2: bool },
}

impl View for FatalError {
    type V = FatalErrorView;

    open spec fn view(&self) -> FatalErrorView {
        match self {
            FatalError::VersionConflict { config_version, mod_version } => {
                FatalErrorView::VersionConflict {
                    config_version: config_version@,
                    mod_version: mod_version@,
                }
            },
            FatalError::SeedConflict { kind, left, right } => FatalErrorView::SeedConflict {
                kind: *kind,
                left: left@,
                right: right@,
            },
            FatalError::DlcMissing { dlc1, dlc2 } => FatalErrorView::DlcMissing {
                dlc1: *dlc1,
                dlc2: *dlc2,
            },
        }
    }
}

impl FatalError {
    /// Renders the error for the user-facing fatal dialog.
    pub fn message(&self) -> (r: String)
        ensures
            r@ == self@.message_view(),
    {
        match self {
            FatalError::VersionConflict { config_version, mod_version } => {
                let mut s = "Your configuration was generated by client version ".to_owned();
                s.append(config_version.as_str());
                s.append(", but this client is version ");
                s.append(mod_version.as_str());
                s.append(". Re-run the randomizer with the current version.");
                s
            },
            FatalError::SeedConflict { kind, left, right } => {
                let mut s = match kind {
                    SeedConflictKind::RoomVsConfig => {
                        "You've connected to a different multiworld than the one the randomizer was run for. Connected room seed: "
                            .to_owned()
                    },
                    SeedConflictKind::RoomVsSave => {
                        "You've connected to a different multiworld than the one this save file was used with. Connected room seed: "
                            .to_owned()
                    },
                    SeedConflictKind::ConfigVsSave => {
                        "The randomizer was last run for a different multiworld than the one this save file was used with. Configured seed: "
                            .to_owned()
                    },
                };
                s.append(left.as_str());
                s.append(match kind {
                    SeedConflictKind::RoomVsConfig => ". Configured seed: ",
                    SeedConflictKind::RoomVsSave => ". Save file seed: ",
                    SeedConflictKind::ConfigVsSave => ". Save file seed: ",
                });
                s.append(right.as_str());
                s
            },
            FatalError::DlcMissing { dlc1, dlc2 } => {
                if *dlc1 && !*dlc2 {
                    "DLC is enabled for this seed but your game is missing the second expansion."
                        .to_owned()
                } else if !*dlc1 && *dlc2 {
                    "DLC is enabled for this seed but your game is missing the first expansion."
                        .to_owned()
                } else {
                    "DLC is enabled for this seed but your game is missing both expansions.".to_owned()
                }
            },
        }
    }
}

impl FatalErrorView {
    /// What `message` renders for each error.
    pub open spec fn message_view(&self) -> Seq<char> {
        match self {
            FatalErrorView::VersionConflict { config_version, mod_version } => {
                "Your configuration was generated by client version "@ + *config_version
                    + ", but this client is version "@ + *mod_version
                    + ". Re-run the randomizer with the current version."@
            },
            FatalErrorView::SeedConflict { kind, left, right } => {
                (match kind {
                    SeedConflictKind::RoomVsConfig => {
                        "You've connected to a different multiworld than the one the randomizer was run for. Connected room seed: "@
                    },
                    SeedConflictKind::RoomVsSave => {
                        "You've connected to a different multiworld than the one this save file was used with. Connected room seed: "@
                    },
                    SeedConflictKind::ConfigVsSave => {
                        "The randomizer was last run for a different multiworld than the one this save file was used with. Configured seed: "@
                    },
                }) + *left + (match kind {
                    SeedConflictKind::RoomVsConfig => ". Configured seed: "@,
                    SeedConflictKind::RoomVsSave => ". Save file seed: "@,
                    SeedConflictKind::ConfigVsSave => ". Save file seed: "@,
                }) + *right
            },
            FatalErrorView::DlcMissing { dlc1, dlc2 } => {
                if *dlc1 && !*dlc2 {
                    "DLC is enabled for this seed but your game is missing the second expansion."@
                } else if !*dlc1 && *dlc2 {
                    "DLC is enabled for this seed but your game is missing the first expansion."@
                } else {
                    "DLC is enabled for this seed but your game is missing both expansions."@
                }
            },
        }
    }
}

/// The core of the synchronization client: everything the
/// reconciliation logic owns between ticks.
pub struct Core {
    /// The configuration for the current connection. Not guaranteed to
    /// be complete or accurate; the tick checks it against the live
    /// session before acting on it.
    pub config: Config,

    /// The version of this client, checked against the version the
    /// configuration was generated by.
    pub mod_version: String,

    /// The log of prints surfaced to the user.
    pub log_buffer: Vec<RichPrint>,

    /// The connection state machine.
    pub connection: ClientConnection,

    /// The progress record persisted with the player's save file.
    pub save_data: SaveData,

    /// When the last item was granted, in milliseconds. Used to grant at
    /// most one item per spacing interval.
    pub last_item_time: u64,

    /// When the host was observed loading into a game, in milliseconds;
    /// `None` while no game is loaded. Gates the initial grace period.
    pub load_time: Option<u64>,

    /// How many checked locations have been reported to the server this
    /// session. Starts at zero every session so missed reports are
    /// re-sent.
    pub locations_sent: usize,

    /// When a death signal was last sent or received (or the session
    /// started), in milliseconds.
    pub last_death_link: u64,

    /// Whether the goal has been reported this session. Kept out of the
    /// save file so the report is re-sent each session.
    pub sent_goal: bool,
}

impl Core {
    /// The invariant every constructed core satisfies.
    pub open spec fn wf(self) -> bool {
        &&& self.connection@.wf()
        &&& self.save_data.wf()
    }

    /// A fresh core: a new connection epoch, an empty store, and both
    /// timers starting now.
    pub fn new(config: Config, mod_version: String, now_ms: u64) -> (r: Core)
        ensures
            r.wf(),
            r.config == config,
            r.mod_version@ == mod_version@,
            r.log_buffer@.len() == 0,
            r.connection@.state is Connecting,
            r.save_data.items_granted@.len() == 0,
            r.save_data.locations@.len() == 0,
            r.save_data.seed is None,
            r.last_item_time == now_ms,
            r.load_time is None,
            r.locations_sent == 0,
            r.last_death_link == now_ms,
            r.sent_goal == false,
    {
        Core {
            config,
            mod_version,
            log_buffer: Vec::new(),
            connection: ClientConnection::new(),
            save_data: SaveData::empty(),
            last_item_time: now_ms,
            load_time: None,
            locations_sent: 0,
            last_death_link: now_ms,
            sent_goal: false,
        }
    }

    /// The simplified connection state.
    pub fn simple_connection_state(&self) -> (r: SimpleConnectionState)
        ensures
            r == (match self.connection@.state {
                ClientConnectionStateView::Connecting => SimpleConnectionState::Connecting,
                ClientConnectionStateView::Connected(_) => SimpleConnectionState::Connected,
                ClientConnectionStateView::Disconnected(_) => SimpleConnectionState::Disconnected,
            }),
    {
        match &self.connection.state {
            ClientConnectionState::Connecting => SimpleConnectionState::Connecting,
            ClientConnectionState::Connected(_) => SimpleConnectionState::Connected,
            ClientConnectionState::Disconnected(_) => SimpleConnectionState::Disconnected,
        }
    }

    /// The current user configuration.
    pub fn config(&self) -> (r: &Config)
        ensures
            r == &self.config,
    {
        &self.config
    }

    /// Changes the server URL and starts a new connection epoch. The
    /// caller persists the configuration and restarts the transport
    /// worker.
    pub fn update_url(&mut self, url: String)
        requires
            old(self).wf(),
        ensures
            final(self).config.url@ == url@,
            final(self).config.slot == old(self).config.slot,
            final(self).config.seed == old(self).config.seed,
            final(self).config.client_version == old(self).config.client_version,
            final(self).config.password == old(self).config.password,
            final(self).connection@.state is Connecting,
            final(self).connection@.room_info is None,
            final(self).connection@.data_package is None,
            final(self).wf(),
            final(self).save_data == old(self).save_data,
            final(self).log_buffer == old(self).log_buffer,
            final(self).sent_goal == old(self).sent_goal,
            final(self).locations_sent == old(self).locations_sent,
    {
        self.config.set_url(url);
        self.connection = ClientConnection::new();
    }

    /// A reference to the session client, if connected.
    pub fn client(&self) -> (r: Option<&crate::client::connected::ConnectedClient>)
        ensures
            match r {
                Some(c) => self.connection.state matches ClientConnectionState::Connected(cc)
                    && c == &cc,
                None => !(self.connection@.state is Connected),
            },
    {
        self.connection.client()
    }

    /// Every print surfaced to the user this session, in order.
    pub fn logs(&self) -> (r: &Vec<RichPrint>)
        ensures
            r == &self.log_buffer,
    {
        &self.log_buffer
    }

    /// The player's slot id, if connected.
    pub fn slot(&self) -> (r: Option<i64>)
        ensures
            match self.connection@.state {
                ClientConnectionStateView::Connected(c) => r == Some(c.connected.slot),
                _ => r is None,
            },
    {
        match &self.connection.state {
            ClientConnectionState::Connected(client) => Some(client.connected.slot),
            _ => None,
        }
    }

    /// Appends a message to the user-facing log.
    fn log(&mut self, message: String)
        ensures
            *final(self) == (Core { log_buffer: final(self).log_buffer, ..*old(self) }),
            final(self).log_buffer@.len() == old(self).log_buffer@.len() + 1,
            final(self).log_buffer.deep_view() == old(self).log_buffer.deep_view().push(
                RichPrintView::message_view(message@),
            ),
    {
        self.log_buffer.push(RichPrint::message(message));
        proof {
            assert(self.log_buffer.deep_view() =~~= old(self).log_buffer.deep_view().push(
                RichPrintView::message_view(message@),
            ));
        }
    }
}


/// Which pair of seed identities, if any, disagree: the connected
/// room's seed against the configured seed, then against the save
/// file's seed, then the configured seed against the save file's seed.
/// The first disagreement wins.
pub open spec fn seed_conflict(
    client_seed: Option<Seq<char>>,
    save_seed: Option<Seq<char>>,
    config_seed: Seq<char>,
) -> Option<(SeedConflictKind, Seq<char>, Seq<char>)> {
    if client_seed is Some && client_seed->Some_0 != config_seed {
        Some((SeedConflictKind::RoomVsConfig, client_seed->Some_0, config_seed))
    } else if client_seed is Some && save_seed is Some && client_seed->Some_0 != save_seed->Some_0 {
        Some((SeedConflictKind::RoomVsSave, client_seed->Some_0, save_seed->Some_0))
    } else if save_seed is Some && config_seed != save_seed->Some_0 {
        Some((SeedConflictKind::ConfigVsSave, config_seed, save_seed->Some_0))
    } else {
        None
    }
}

impl Core {
    /// The connected room's seed, if a session is established.
    pub open spec fn client_seed_view(self) -> Option<Seq<char>> {
        match self.connection@.state {
            ClientConnectionStateView::Connected(c) => Some(c.room_info.seed_name),
            _ => None,
        }
    }

    /// The save file's recorded seed, available only while a game is
    /// loaded.
    pub open spec fn save_seed_view(self, game_loaded: bool) -> Option<Seq<char>> {
        if game_loaded {
            match self.save_data.seed {
                Some(s) => Some(s@),
                None => None,
            }
        } else {
            None
        }
    }

    /// Fails when the configuration was generated by a different client
    /// version than this one.
    pub fn check_version_conflict(&self) -> (r: Result<(), FatalError>)
        ensures
            match r {
                Ok(_) => self.config.client_version@ == self.mod_version@,
                Err(e) => self.config.client_version@ != self.mod_version@ && e@
                    == (FatalErrorView::VersionConflict {
                    config_version: self.config.client_version@,
                    mod_version: self.mod_version@,
                }),
            },
    {
        if self.config.client_version.eq(&self.mod_version) {
            Ok(())
        } else {
            Err(
                FatalError::VersionConflict {
                    config_version: self.config.client_version.clone(),
                    mod_version: self.mod_version.clone(),
                },
            )
        }
    }

    /// Fails when two of the three seed identities — connected room,
    /// save file, configuration — disagree. Acting on a mismatched
    /// session would corrupt the save, so the tick halts on this error
    /// and performs no grant and no report.
    pub fn check_seed_conflict(&self, game_loaded: bool) -> (r: Result<(), FatalError>)
        ensures
            match r {
                Ok(_) => seed_conflict(
                    self.client_seed_view(),
                    self.save_seed_view(game_loaded),
                    self.config.seed@,
                ) is None,
                Err(e) => {
                    &&& seed_conflict(
                        self.client_seed_view(),
                        self.save_seed_view(game_loaded),
                        self.config.seed@,
                    ) matches Some((kind, left, right))
                    &&& e@ == (FatalErrorView::SeedConflict { kind, left, right })
                },
            },
    {
        let client_seed: Option<&String> = match &self.connection.state {
            ClientConnectionState::Connected(client) => Some(&client.room_info.seed_name),
            _ => None,
        };
        let save_seed: Option<&String> = if game_loaded {
            self.save_data.seed.as_ref()
        } else {
            None
        };

        if let Some(cs) = client_seed {
            if !cs.eq(&self.config.seed) {
                return Err(
                    FatalError::SeedConflict {
                        kind: SeedConflictKind::RoomVsConfig,
                        left: cs.clone(),
                        right: self.config.seed.clone(),
                    },
                );
            }
            if let Some(ss) = save_seed {
                if !cs.eq(ss) {
                    return Err(
                        FatalError::SeedConflict {
                            kind: SeedConflictKind::RoomVsSave,
                            left: cs.clone(),
                            right: ss.clone(),
                        },
                    );
                }
            }
        }
        if let Some(ss) = save_seed {
            if !self.config.seed.eq(ss) {
                return Err(
                    FatalError::SeedConflict {
                        kind: SeedConflictKind::ConfigVsSave,
                        left: self.config.seed.clone(),
                        right: ss.clone(),
                    },
                );
            }
        }
        Ok(())
    }

    /// Whether the room expects expansions the host does not have. Only
    /// checked once a game is loaded, because the host reports all
    /// expansions as missing until then.
    pub open spec fn dlc_error_cond(self, host: HostView) -> bool {
        &&& self.connection@.state matches ClientConnectionStateView::Connected(c)
        &&& host.dlc_available
        &&& host.game_loaded
        &&& c.connected.slot_data.options.enable_dlc
        &&& !(host.dlc1_installed && host.dlc2_installed)
    }

    /// Fails when the room was generated with expansions enabled and
    /// the host is missing one of them.
    pub fn check_dlc_error(&self, host: &HostView) -> (r: Result<(), FatalError>)
        ensures
            match r {
                Ok(_) => !self.dlc_error_cond(*host),
                Err(e) => self.dlc_error_cond(*host) && e@ == (FatalErrorView::DlcMissing {
                    dlc1: host.dlc1_installed,
                    dlc2: host.dlc2_installed,
                }),
            },
    {
        let enable_dlc = match &self.connection.state {
            ClientConnectionState::Connected(client) => client.connected.slot_data.options.enable_dlc,
            _ => false,
        };
        if enable_dlc && host.dlc_available && host.game_loaded && !(host.dlc1_installed
            && host.dlc2_installed) {
            Err(FatalError::DlcMissing { dlc1: host.dlc1_installed, dlc2: host.dlc2_installed })
        } else {
            Ok(())
        }
    }

    /// Moves every newly arrived print into the user-facing log, in
    /// arrival order.
    pub fn process_new_prints(&mut self)
        ensures
            match old(self).connection@.state {
                ClientConnectionStateView::Connected(c) => {
                    &&& final(self).log_buffer.deep_view() == old(self).log_buffer.deep_view()
                        + c.prints
                    &&& final(self).connection@ == (ClientConnectionView {
                        state: ClientConnectionStateView::Connected(
                            ConnectedClientView { prints: Seq::empty(), ..c },
                        ),
                        ..old(self).connection@
                    })
                },
                _ => {
                    &&& final(self).log_buffer == old(self).log_buffer
                    &&& final(self).connection == old(self).connection
                },
            },
            final(self).config == old(self).config,
            final(self).mod_version == old(self).mod_version,
            final(self).save_data == old(self).save_data,
            final(self).last_item_time == old(self).last_item_time,
            final(self).load_time == old(self).load_time,
            final(self).locations_sent == old(self).locations_sent,
            final(self).last_death_link == old(self).last_death_link,
            final(self).sent_goal == old(self).sent_goal,
            old(self).wf() ==> final(self).wf(),
    {
        let ghost pre_log = self.log_buffer.deep_view();
        match &mut self.connection.state {
            ClientConnectionState::Connected(client) => {
                let ghost c = client@;
                let mut new_prints = client.prints();
                let ghost taken = new_prints.deep_view();
                self.log_buffer.append(&mut new_prints);
                proof {
                    assert(taken == c.prints);
                    assert(self.log_buffer.deep_view() =~~= pre_log + c.prints);
                }
            },
            _ => {},
        }
    }
}


/// The warning surfaced when a save buffer does not decode.
pub open spec fn spec_save_corrupt_warning() -> Seq<char> {
    "Failed to load save data; starting with an empty progress record"@
}

/// The warning surfaced when the store is found ahead of the session.
pub open spec fn spec_store_reset_warning() -> Seq<char> {
    "Save file records more granted items than the server has delivered; resetting progress for re-delivery"@
}

/// The first buffered reward whose delivery index has not been granted
/// yet, scanning in delivery order.
pub open spec fn find_ungranted(items: Seq<ItemView>, granted: Seq<u64>) -> Option<ItemView>
    decreases items.len(),
{
    if items.len() == 0 {
        None
    } else if !granted.contains(items[0].index) {
        Some(items[0])
    } else {
        find_ungranted(items.drop_first(), granted)
    }
}

/// The host action that grants one reward: the dragon gesture's
/// placeholder becomes a gesture grant, everything else an item grant
/// with full durability.
pub open spec fn grant_action(iv: ItemView) -> HostAction {
    if iv.ds3_id.category is Goods && iv.ds3_id.value == DRAGON_GESTURE_GOODS_ID {
        HostAction::GrantGesture { gesture: DRAGON_GESTURE_ID, id: iv.ds3_id }
    } else {
        HostAction::GrantItem { id: iv.ds3_id, quantity: iv.quantity, durability: -1i32 }
    }
}

/// What the host's parameter table must provide for the tick to run:
/// every placeholder id in the inventory has a row, and the generator's
/// encodings in it are well formed. The generator writes all of these.
pub open spec fn host_rows_ok(host: HostView) -> bool {
    forall|i: int|
        0 <= i < host.inventory@.len() && (#[trigger] host.inventory@[i]).is_archipelago_spec()
            ==> (row_for(host.rows@, host.inventory@[i]) matches Some(row) && row.item_encoding_ok()
            && row.location_encoding_ok() && (row.basic_price != 0 ==> row.sell_value >= 0))
}

/// The remote location id encoded in the row for `id`, if a row
/// exists.
pub open spec fn row_location(
    rows: Seq<(CategorizedItemID, EquipParamRow)>,
    id: CategorizedItemID,
) -> Option<int> {
    match row_for(rows, id) {
        Some(row) => Some(row.location_id_spec()),
        None => None,
    }
}


/// Whether one of the first `upto` inventory entries is a placeholder
/// whose row encodes the remote location `l`.
pub open spec fn inventory_records(host: HostView, upto: int, l: i64) -> bool {
    exists|k: int|
        0 <= k < upto && (#[trigger] host.inventory@[k]).is_archipelago_spec() && row_location(
            host.rows@,
            host.inventory@[k],
        ) == Some(l as int)
}

/// A location recorded among the first `a` entries is recorded among
/// the first `b` entries, for `a <= b`.
proof fn lemma_inventory_records_widen(host: HostView, a: int, b: int, l: i64)
    requires
        inventory_records(host, a, l),
        a <= b,
    ensures
        inventory_records(host, b, l),
{
    let k = choose|k: int|
        0 <= k < a && (#[trigger] host.inventory@[k]).is_archipelago_spec() && row_location(
            host.rows@,
            host.inventory@[k],
        ) == Some(l as int);
    assert(0 <= k < b && host.inventory@[k].is_archipelago_spec() && row_location(
        host.rows@,
        host.inventory@[k],
    ) == Some(l as int));
}

/// The actions that converting one inventory entry produces: nothing
/// for vanilla items; for the dragon gesture's placeholder a silent
/// gesture unlock plus removal; for other placeholders the real item
/// plus removal; and for placeholder rows without item metadata nothing
/// (the location is still recorded).
pub open spec fn placeholder_actions(
    id: CategorizedItemID,
    rows: Seq<(CategorizedItemID, EquipParamRow)>,
) -> Seq<HostAction> {
    if !id.is_archipelago_spec() {
        Seq::empty()
    } else {
        let row = row_for(rows, id)->Some_0;
        if row.is_goods && row.icon_id == DRAGON_GESTURE_ICON_ID {
            seq![
                HostAction::SetGestureAcquired { gesture: DRAGON_GESTURE_ID },
                HostAction::RemoveItem { id, count: 1i32 },
            ]
        } else if row.basic_price != 0 {
            seq![
                HostAction::GiveItemDirectly {
                    id: row.item_spec()->Some_0.0,
                    count: row.sell_value,
                },
                HostAction::RemoveItem { id, count: 1i32 },
            ]
        } else {
            Seq::empty()
        }
    }
}

/// The actions a whole inventory scan produces, in inventory order.
pub open spec fn inventory_actions(
    inv: Seq<CategorizedItemID>,
    rows: Seq<(CategorizedItemID, EquipParamRow)>,
) -> Seq<HostAction>
    decreases inv.len(),
{
    if inv.len() == 0 {
        Seq::empty()
    } else {
        inventory_actions(inv.drop_last(), rows) + placeholder_actions(inv.last(), rows)
    }
}

/// Copies a list of location ids.
fn copy_locations(v: &Vec<i64>) -> (r: Vec<i64>)
    ensures
        r@ == v@,
{
    let mut r: Vec<i64> = Vec::new();
    let mut i: usize = 0;
    while i < v.len()
        invariant
            i <= v@.len(),
            r@ == v@.take(i as int),
        decreases v@.len() - i,
    {
        r.push(v[i]);
        proof {
            assert(r@ =~= v@.take(i + 1));
        }
        i += 1;
    }
    proof {
        assert(v@.take(i as int) =~= v@);
    }
    r
}

impl Core {
    /// Whether the grant phase may run at all: an established session,
    /// a loaded game, and the player's data reachable.
    pub open spec fn grant_gate_open(self, host: HostView) -> bool {
        &&& self.connection@.state is Connected
        &&& host.game_loaded
        &&& host.player_loaded
    }

    /// Whether enough time has passed to grant: the spacing interval
    /// since the last grant, and the grace period since the game
    /// loaded.
    pub open spec fn grant_timing_ok(self, now_ms: u64) -> bool {
        &&& elapsed(now_ms, self.last_item_time) >= ITEM_SPACING_MS
        &&& self.load_time is Some
        &&& elapsed(now_ms, self.load_time->Some_0) >= GRACE_PERIOD_MS
    }

    /// Whether the store claims more grants than the session has
    /// delivered, which signals save corruption.
    pub open spec fn store_corrupt(self) -> bool {
        match self.connection@.state {
            ClientConnectionStateView::Connected(c) => self.save_data.items_granted@.len()
                > c.items.len(),
            _ => false,
        }
    }

    /// Grants at most one newly arrived reward per tick, in delivery
    /// order, keyed by delivery index so that re-delivery and replay
    /// never grant twice. A store found ahead of the session is reset
    /// to empty (full re-delivery) with a warning rather than trusted.
    ///
    /// The index is recorded in the same tick that hands the grant
    /// action to the host, and only reaches the save file at the host's
    /// next save, so an ill-timed crash re-grants a reward rather than
    /// silently skipping it: delivery is at-least-once by design.
    pub fn process_incoming_items(&mut self, now_ms: u64, host: &HostView) -> (r: Option<
        HostAction,
    >)
        requires
            old(self).wf(),
        ensures
            final(self).wf(),
            final(self).config == old(self).config,
            final(self).mod_version == old(self).mod_version,
            final(self).connection == old(self).connection,
            final(self).load_time == old(self).load_time,
            final(self).locations_sent == old(self).locations_sent,
            final(self).last_death_link == old(self).last_death_link,
            final(self).sent_goal == old(self).sent_goal,
            final(self).save_data.locations == old(self).save_data.locations,
            final(self).save_data.seed == old(self).save_data.seed,
            !old(self).grant_gate_open(*host) ==> r is None && final(self).save_data == old(self).save_data && final(self).last_item_time == old(self).last_item_time && final(self).log_buffer == old(self).log_buffer,
            old(self).grant_gate_open(*host) && old(self).store_corrupt() ==> r is None && final(self).save_data.items_granted@.len() == 0 && final(self).last_item_time == old(self).last_item_time && final(self).log_buffer.deep_view() == old(self).log_buffer.deep_view().push(RichPrintView::message_view(spec_store_reset_warning())),
            old(self).grant_gate_open(*host) && !old(self).store_corrupt() && !old(self).grant_timing_ok(now_ms) ==> r is None && final(self).save_data == old(self).save_data
                && final(self).last_item_time == old(self).last_item_time && final(self).log_buffer
                == old(self).log_buffer,
            (old(self).grant_gate_open(*host) && !old(self).store_corrupt() && old(self).grant_timing_ok(now_ms)) ==> (final(self).log_buffer == old(self).log_buffer && match
                old(self).connection@.state {
                ClientConnectionStateView::Connected(c) => match find_ungranted(
                    c.items,
                    old(self).save_data.items_granted@,
                ) {
                    None => r is None && final(self).save_data == old(self).save_data && final(self).last_item_time == old(self).last_item_time,
                    Some(iv) => {
                        &&& r == Some(grant_action(iv))
                        &&& final(self).last_item_time == now_ms
                        &&& (final(self).save_data.items_granted@.len() == old(self).save_data.items_granted@.len()
                            || final(self).save_data.items_granted@.len() == old(self).save_data.items_granted@.len() + 1)
                        &&& (!old(self).save_data.items_granted@.contains(iv.index) ==> final(self).save_data.items_granted@.len() == old(self).save_data.items_granted@.len() + 1)
                        &&& forall|e: u64|
                            final(self).save_data.items_granted@.contains(e) <==> (old(self).save_data.items_granted@.contains(e) || e == iv.index)
                    },
                },
                _ => false,
            }),
    {
        if !(host.game_loaded && host.player_loaded) {
            return None;
        }
        let items_len: usize = match &self.connection.state {
            ClientConnectionState::Connected(client) => client.items.len(),
            _ => { return None },
        };
        if self.save_data.granted_count() > items_len {
            self.save_data.clear_granted();
            self.log(
                "Save file records more granted items than the server has delivered; resetting progress for re-delivery"
                    .to_owned(),
            );
            return None;
        }
        if elapsed_ms(now_ms, self.last_item_time) < ITEM_SPACING_MS {
            return None;
        }
        match self.load_time {
            Some(t) => {
                if elapsed_ms(now_ms, t) < GRACE_PERIOD_MS {
                    return None;
                }
            },
            None => { return None },
        }

        let ghost granted = self.save_data.items_granted@;
        let mut chosen: Option<(CategorizedItemID, u32, u64)> = None;
        match &self.connection.state {
            ClientConnectionState::Connected(client) => {
                let ghost all = client@.items;
                let mut i: usize = 0;
                proof {
                    assert(all.skip(0) =~= all);
                }
                while chosen.is_none() && i < client.items.len()
                    invariant
                        i <= all.len(),
                        all == client@.items,
                        granted == self.save_data.items_granted@,
                        chosen is None ==> find_ungranted(all, granted) == find_ungranted(
                            all.skip(i as int),
                            granted,
                        ),
                        chosen matches Some((id, qty, idx)) ==> (find_ungranted(all, granted)
                            matches Some(iv) && iv.ds3_id == id && iv.quantity == qty && iv.index
                            == idx),
                    decreases all.len() - i,
                {
                    proof {
                        assert(all.skip(i as int)[0] == all[i as int]);
                        assert(all.skip(i as int).drop_first() =~= all.skip(i + 1));
                    }
                    let idx = client.items[i].index;
                    if !self.save_data.is_granted(idx) {
                        chosen = Some((client.items[i].ds3_id, client.items[i].quantity, idx));
                    }
                    i += 1;
                }
            },
            _ => { return None },
        }

        match chosen {
            None => None,
            Some((id, quantity, index)) => {
                self.save_data.mark_granted(index);
                self.last_item_time = now_ms;
                if matches!(id.category, ItemCategory::Goods) && id.value
                    == DRAGON_GESTURE_GOODS_ID {
                    Some(HostAction::GrantGesture { gesture: DRAGON_GESTURE_ID, id })
                } else {
                    Some(HostAction::GrantItem { id, quantity, durability: -1 })
                }
            },
        }
    }

    /// Converts placeholder items found in the host's inventory to
    /// their real equivalents, records each one's remote location, and —
    /// when new locations exist and a session is established — reports
    /// the full set of checked locations in exactly one outbound call.
    #[verifier::rlimit(100)]
    pub fn process_inventory_items(&mut self, host: &HostView) -> (r: Vec<HostAction>)
        requires
            old(self).wf(),
            host_rows_ok(*host),
        ensures
            final(self).wf(),
            final(self).config == old(self).config,
            final(self).mod_version == old(self).mod_version,
            final(self).log_buffer == old(self).log_buffer,
            final(self).save_data.items_granted == old(self).save_data.items_granted,
            final(self).save_data.seed == old(self).save_data.seed,
            final(self).last_item_time == old(self).last_item_time,
            final(self).load_time == old(self).load_time,
            final(self).last_death_link == old(self).last_death_link,
            final(self).sent_goal == old(self).sent_goal,
            !(host.game_loaded && host.inventory_available) ==> r@.len() == 0 && final(self).save_data == old(self).save_data && final(self).connection == old(self).connection
                && final(self).locations_sent == old(self).locations_sent,
            (host.game_loaded && host.inventory_available) ==> {
                &&& r@ == inventory_actions(host.inventory@, host.rows@)
                &&& forall|l: i64|
                    final(self).save_data.locations@.contains(l) <==> (old(self).save_data.locations@.contains(l) || inventory_records(
                        *host,
                        host.inventory@.len() as int,
                        l,
                    ))
                &&& if old(self).connection@.state is Connected && final(self).save_data.locations@.len() > old(self).locations_sent {
                    &&& final(self).locations_sent == final(self).save_data.locations@.len()
                    &&& old(self).connection@.state matches ClientConnectionStateView::Connected(c)
                        && final(self).connection@ == (ClientConnectionView {
                        state: ClientConnectionStateView::Connected(
                            ConnectedClientView {
                                outbound: c.outbound.push(
                                    ClientMessageView::LocationChecks {
                                        locations: final(self).save_data.locations@,
                                    },
                                ),
                                ..c
                            },
                        ),
                        ..old(self).connection@
                    })
                } else {
                    &&& final(self).locations_sent == old(self).locations_sent
                    &&& final(self).connection == old(self).connection
                }
            },
    {
        if !(host.game_loaded && host.inventory_available) {
            return Vec::new();
        }
        let ghost orig_locs = self.save_data.locations@;
        let mut actions: Vec<HostAction> = Vec::new();
        let mut i: usize = 0;
        while i < host.inventory.len()
            invariant
                i <= host.inventory@.len(),
                host_rows_ok(*host),
                self.save_data.wf(),
                self.config == old(self).config,
                self.mod_version == old(self).mod_version,
                self.log_buffer == old(self).log_buffer,
                self.connection == old(self).connection,
                self.locations_sent == old(self).locations_sent,
                self.save_data.items_granted == old(self).save_data.items_granted,
                self.save_data.seed == old(self).save_data.seed,
                self.last_item_time == old(self).last_item_time,
                self.load_time == old(self).load_time,
                self.last_death_link == old(self).last_death_link,
                self.sent_goal == old(self).sent_goal,
                old(self).connection@.wf(),
                orig_locs == old(self).save_data.locations@,
                actions@ == inventory_actions(host.inventory@.take(i as int), host.rows@),
                forall|l: i64| #![trigger self.save_data.locations@.contains(l)]
                    self.save_data.locations@.contains(l) <==> (orig_locs.contains(l)
                        || inventory_records(*host, i as int, l)),
            decreases host.inventory@.len() - i,
        {
            let ghost pre_locs = self.save_data.locations@;
            let ghost pre_actions = actions@;
            let id = host.inventory[i];
            if id.is_archipelago() {
                let row = match find_row(&host.rows, id) {
                    Some(r) => r,
                    None => unreached(),
                };
                let loc = row.archipelago_location_id();
                self.save_data.record_location(loc);
                proof {
                    assert(row_location(host.rows@, host.inventory@[i as int]) == Some(
                        loc as int,
                    ));
                    assert forall|l: i64| #![trigger orig_locs.contains(l)]
                        self.save_data.locations@.contains(l) <==> (orig_locs.contains(l)
                            || inventory_records(*host, i + 1, l)) by {
                        if self.save_data.locations@.contains(l) && !orig_locs.contains(l) {
                            if pre_locs.contains(l) {
                                assert(inventory_records(*host, i as int, l));
                                lemma_inventory_records_widen(*host, i as int, i + 1, l);
                            } else {
                                assert(l == loc);
                                assert(0 <= i < i + 1 && host.inventory@[i as int].is_archipelago_spec()
                                    && row_location(host.rows@, host.inventory@[i as int]) == Some(
                                    l as int,
                                ));
                                assert(inventory_records(*host, i + 1, l));
                            }
                        }
                        if orig_locs.contains(l) {
                            assert(pre_locs.contains(l));
                            assert(self.save_data.locations@.contains(l));
                        }
                        if inventory_records(*host, i + 1, l) {
                            let k = choose|k: int|
                                0 <= k < i + 1 && (#[trigger] host.inventory@[k]).is_archipelago_spec()
                                    && row_location(host.rows@, host.inventory@[k]) == Some(
                                    l as int,
                                );
                            if k < i {
                                assert(inventory_records(*host, i as int, l));
                                assert(pre_locs.contains(l));
                                assert(self.save_data.locations@.contains(l));
                            } else {
                                assert(l == loc);
                                assert(self.save_data.locations@.contains(l));
                            }
                        }
                    }
                }
                if row.is_goods && row.icon_id == DRAGON_GESTURE_ICON_ID {
                    actions.push(HostAction::SetGestureAcquired { gesture: DRAGON_GESTURE_ID });
                    actions.push(HostAction::RemoveItem { id, count: 1 });
                } else {
                    match row.archipelago_item() {
                        Some((real_id, _quantity)) => {
                            actions.push(
                                HostAction::GiveItemDirectly { id: real_id, count: row.sell_value },
                            );
                            actions.push(HostAction::RemoveItem { id, count: 1 });
                        },
                        None => {},
                    }
                }
            } else {
                proof {
                    assert forall|l: i64| #![trigger orig_locs.contains(l)]
                        self.save_data.locations@.contains(l) <==> (orig_locs.contains(l)
                            || inventory_records(*host, i + 1, l)) by {
                        if self.save_data.locations@.contains(l) && !orig_locs.contains(l) {
                            assert(inventory_records(*host, i as int, l));
                            lemma_inventory_records_widen(*host, i as int, i + 1, l);
                        }
                        if inventory_records(*host, i + 1, l) {
                            let k = choose|k: int|
                                0 <= k < i + 1 && (#[trigger] host.inventory@[k]).is_archipelago_spec()
                                    && row_location(host.rows@, host.inventory@[k]) == Some(
                                    l as int,
                                );
                            assert(k < i);
                            assert(inventory_records(*host, i as int, l));
                            if orig_locs.contains(l) {
                                assert(self.save_data.locations@.contains(l));
                            } else {
                                assert(self.save_data.locations@.contains(l));
                            }
                        }
                    }
                }
            }
            proof {
                assert(host.inventory@.take(i + 1).drop_last() =~= host.inventory@.take(i as int));
                assert(host.inventory@.take(i + 1).last() == host.inventory@[i as int]);
                assert(actions@ =~= inventory_actions(host.inventory@.take(i + 1), host.rows@));
                assert(forall|l: i64| #![trigger self.save_data.locations@.contains(l)]
                    self.save_data.locations@.contains(l) <==> (orig_locs.contains(l)
                        || inventory_records(*host, i + 1, l)));
            }
            i += 1;
        }
        proof {
            assert(host.inventory@.take(i as int) =~= host.inventory@);
        }

        let should_report: bool = match &self.connection.state {
            ClientConnectionState::Connected(_) => self.save_data.locations_count()
                > self.locations_sent,
            _ => false,
        };
        if should_report {
            let locs = copy_locations(&self.save_data.locations);
            let count = self.save_data.locations_count();
            match &mut self.connection.state {
                ClientConnectionState::Connected(client) => {
                    client.location_checks(locs);
                },
                _ => {},
            }
            self.locations_sent = count;
        }
        actions
    }

    /// Whether the room was generated with death signals enabled.
    pub open spec fn death_link_enabled(self) -> bool {
        match self.connection@.state {
            ClientConnectionStateView::Connected(c) => c.connected.slot_data.options.death_link,
            _ => false,
        }
    }

    /// Kills the player when a remote death signal is pending, or
    /// broadcasts one when the player's own death is observed —
    /// whichever comes first once the debounce period has passed, and
    /// only when the room was generated with death signals enabled.
    #[verifier::rlimit(100)]
    pub fn handle_death_link(&mut self, now_ms: u64, host: &HostView) -> (r: Option<HostAction>)
        requires
            old(self).wf(),
        ensures
            final(self).wf(),
            final(self).config == old(self).config,
            final(self).mod_version == old(self).mod_version,
            final(self).log_buffer == old(self).log_buffer,
            final(self).save_data == old(self).save_data,
            final(self).last_item_time == old(self).last_item_time,
            final(self).load_time == old(self).load_time,
            final(self).locations_sent == old(self).locations_sent,
            final(self).sent_goal == old(self).sent_goal,
            ({
                let gate = elapsed(now_ms, old(self).last_death_link)
                    >= DEATH_LINK_GRACE_PERIOD_MS && old(self).connection@.state is Connected
                    && host.player_present && old(self).death_link_enabled();
                if !gate {
                    &&& r is None
                    &&& final(self).connection == old(self).connection
                    &&& final(self).last_death_link == old(self).last_death_link
                } else {
                    match old(self).connection@.state {
                        ClientConnectionStateView::Connected(c) => {
                            if c.death_link is Some {
                                &&& r == Some(HostAction::KillPlayer)
                                &&& final(self).last_death_link == now_ms
                                &&& final(self).connection@ == (ClientConnectionView {
                                    state: ClientConnectionStateView::Connected(
                                        ConnectedClientView { death_link: None, ..c },
                                    ),
                                    ..old(self).connection@
                                })
                            } else if host.player_hp == 0 {
                                &&& r is None
                                &&& final(self).last_death_link == now_ms
                                &&& final(self).connection@ == (ClientConnectionView {
                                    state: ClientConnectionStateView::Connected(
                                        ConnectedClientView {
                                            outbound: c.outbound.push(
                                                ClientMessageView::BounceDeathLink(
                                                    DeathLinkView {
                                                        time_ms: now_ms,
                                                        source: c.self_alias(),
                                                        cause: None,
                                                    },
                                                ),
                                            ),
                                            ..c
                                        },
                                    ),
                                    ..old(self).connection@
                                })
                            } else {
                                &&& r is None
                                &&& final(self).connection@ == old(self).connection@
                                &&& final(self).last_death_link == old(self).last_death_link
                            }
                        },
                        _ => false,
                    }
                }
            }),
    {
        if elapsed_ms(now_ms, self.last_death_link) < DEATH_LINK_GRACE_PERIOD_MS {
            return None;
        }
        if !host.player_present {
            return None;
        }
        let mut result: Option<HostAction> = None;
        let mut fired: bool = false;
        match &mut self.connection.state {
            ClientConnectionState::Connected(client) => {
                if !client.connected.slot_data.options.death_link {
                    return None;
                }
                let pending = client.death_link();
                if pending.is_some() {
                    result = Some(HostAction::KillPlayer);
                    fired = true;
                } else if host.player_hp == 0 {
                    client.send_death_link(now_ms);
                    fired = true;
                }
            },
            _ => { return None },
        }
        if fired {
            self.last_death_link = now_ms;
        }
        result
    }

    /// Reports the goal exactly once per session, as soon as the host's
    /// goal flag is observed set while connected.
    pub fn handle_goal(&mut self, host: &HostView)
        requires
            old(self).wf(),
        ensures
            final(self).wf(),
            final(self).config == old(self).config,
            final(self).mod_version == old(self).mod_version,
            final(self).log_buffer == old(self).log_buffer,
            final(self).save_data == old(self).save_data,
            final(self).last_item_time == old(self).last_item_time,
            final(self).load_time == old(self).load_time,
            final(self).locations_sent == old(self).locations_sent,
            final(self).last_death_link == old(self).last_death_link,
            ({
                let fire = host.goal_available && host.goal_flag && !old(self).sent_goal && old(self).connection@.state is Connected;
                if fire {
                    &&& final(self).sent_goal == true
                    &&& old(self).connection@.state matches ClientConnectionStateView::Connected(c)
                        && final(self).connection@ == (ClientConnectionView {
                        state: ClientConnectionStateView::Connected(
                            ConnectedClientView {
                                outbound: c.outbound.push(ClientMessageView::StatusGoal),
                                ..c
                            },
                        ),
                        ..old(self).connection@
                    })
                } else {
                    &&& final(self).sent_goal == old(self).sent_goal
                    &&& final(self).connection == old(self).connection
                }
            }),
    {
        if !(host.goal_available && host.goal_flag) || self.sent_goal {
            return ;
        }
        match &mut self.connection.state {
            ClientConnectionState::Connected(client) => {
                client.send_goal();
                self.sent_goal = true;
            },
            _ => {},
        }
    }
}


/// The friendly message shown when the server refuses the connection.
pub open spec fn spec_refused_message() -> Seq<char> {
    "Connection refused. Make sure the server session is running and the URL is up-to-date."@
}

/// Whether the transport reported the handshake answered with a
/// connection refusal.
pub open spec fn has_refused_error(events: Seq<TransportEventView>) -> bool {
    exists|k: int|
        0 <= k < events.len() && ((#[trigger] events[k]) matches TransportEventView::Error(
            TransportErrorView::IllegalResponse { expected, received },
        ) && received == "ConnectionRefused"@)
}

/// Scans a tick's events for a handshake refusal report.
fn events_have_refusal(events: &Vec<TransportEvent>) -> (r: bool)
    ensures
        r == has_refused_error(events.deep_view()),
{
    let refused = "ConnectionRefused".to_owned();
    let mut i: usize = 0;
    while i < events.len()
        invariant
            i <= events.deep_view().len(),
            refused@ == "ConnectionRefused"@,
            forall|k: int|
                0 <= k < i ==> !((#[trigger] events.deep_view()[k])
                    matches TransportEventView::Error(
                    TransportErrorView::IllegalResponse { expected, received },
                ) && received == "ConnectionRefused"@),
        decreases events.deep_view().len() - i,
    {
        match &events[i] {
            TransportEvent::Error(TransportError::IllegalResponse { expected: _, received }) => {
                if received.eq(&refused) {
                    proof {
                        assert(events.deep_view()[i as int] matches TransportEventView::Error(
                            TransportErrorView::IllegalResponse { expected, received },
                        ) && received == "ConnectionRefused"@);
                    }
                    return true;
                }
            },
            _ => {},
        }
        i += 1;
    }
    false
}

/// A connection with its session client's print buffer drained.
pub open spec fn consume_prints_view(conn: ClientConnectionView) -> ClientConnectionView {
    match conn.state {
        ClientConnectionStateView::Connected(c) => ClientConnectionView {
            state: ClientConnectionStateView::Connected(
                ConnectedClientView { prints: Seq::empty(), ..c },
            ),
            ..conn
        },
        _ => conn,
    }
}

/// How many of the actions grant a reward.
pub open spec fn count_grants(s: Seq<HostAction>) -> int
    decreases s.len(),
{
    if s.len() == 0 {
        0
    } else {
        count_grants(s.drop_last()) + (match s.last() {
            HostAction::GrantItem { .. } => 1int,
            HostAction::GrantGesture { .. } => 1int,
            _ => 0int,
        })
    }
}

/// What one successful tick does once the identity checks have
/// passed: which reward is granted, which host actions come back, how
/// the timers move, and which signals fire. Computed from the pre-tick
/// core and the post-drain connection, so `tick`'s contract can fix
/// its whole success path against it.
#[verifier::ext_equal]
pub struct TickPlan {
    /// The reward granted this tick, if any.
    pub grant: Option<ItemView>,
    /// Whether the store was found ahead of the session and reset.
    pub store_reset: bool,
    /// The host actions of this tick, in order.
    pub actions: Seq<HostAction>,
    /// The grant-spacing timer after the tick.
    pub last_item_time: u64,
    /// The death-signal debounce timer after the tick.
    pub last_death_link: u64,
    /// Whether the pending death-signal slot was consumed.
    pub death_consumed: bool,
    /// Whether this player's own death was broadcast.
    pub death_sent: bool,
    /// Whether the goal has been reported, as of the end of the tick.
    pub sent_goal: bool,
}

impl Core {
    /// What the log holds after the tick's connection-and-prints phase:
    /// a disconnect observed this tick is reported — with the friendly
    /// refusal text when the handshake was refused — and every newly
    /// arrived print is appended in arrival order.
    pub open spec fn tick_log_view(self, events: Seq<TransportEventView>) -> Seq<RichPrintView> {
        let conn1 = self.connection@.run(events);
        let base = if conn1.state is Disconnected && !(self.connection@.state is Disconnected) {
            let reason = conn1.state->Disconnected_0;
            let msg = if self.connection@.state is Connecting {
                if has_refused_error(events) {
                    spec_refused_message()
                } else {
                    "Connection failed: "@ + reason
                }
            } else {
                "Disconnected: "@ + reason
            };
            self.log_buffer.deep_view().push(RichPrintView::message_view(msg))
        } else {
            self.log_buffer.deep_view()
        };
        match conn1.state {
            ClientConnectionStateView::Connected(c) => base + c.prints,
            _ => base,
        }
    }

    /// The load timer after one tick's observation of the host: cleared
    /// when no game is loaded, started when a load is first observed.
    pub open spec fn next_load_time(self, now_ms: u64, host: HostView) -> Option<u64> {
        if !host.game_loaded {
            None
        } else if self.load_time is None {
            Some(now_ms)
        } else {
            self.load_time
        }
    }

    /// Whether the tick stops before any check because the game loaded
    /// too recently.
    pub open spec fn grace_blocks(self, now_ms: u64, host: HostView) -> bool {
        self.next_load_time(now_ms, host) matches Some(t) && elapsed(now_ms, t) < GRACE_PERIOD_MS
    }

    /// The plan of a successful tick: the phases' combined effect on
    /// `self` (the pre-tick core) once the connection has drained to
    /// `conn2` and every identity check has passed.
    pub open spec fn tick_plan(self, conn2: ClientConnectionView, now_ms: u64, host: HostView)
        -> TickPlan {
        let connected = conn2.state is Connected;
        let c = conn2.state->Connected_0;
        let gate = connected && host.game_loaded && host.player_loaded;
        let corrupt = gate && self.save_data.items_granted@.len() > c.items.len();
        let next_load = self.next_load_time(now_ms, host);
        let timing = elapsed(now_ms, self.last_item_time) >= ITEM_SPACING_MS && next_load is Some
            && elapsed(now_ms, next_load->Some_0) >= GRACE_PERIOD_MS;
        let found = find_ungranted(c.items, self.save_data.items_granted@);
        let grant = if gate && !corrupt && timing && found is Some {
            found
        } else {
            None
        };
        let inventory = if host.game_loaded && host.inventory_available {
            inventory_actions(host.inventory@, host.rows@)
        } else {
            Seq::empty()
        };
        let dl_gate = connected && elapsed(now_ms, self.last_death_link)
            >= DEATH_LINK_GRACE_PERIOD_MS && host.player_present
            && c.connected.slot_data.options.death_link;
        let pending = c.death_link is Some;
        let kill = dl_gate && pending;
        let death_sent = dl_gate && !pending && host.player_hp == 0;
        let goal_fire = connected && host.goal_available && host.goal_flag && !self.sent_goal;
        TickPlan {
            grant,
            store_reset: corrupt,
            actions: (match grant {
                Some(iv) => seq![grant_action(iv)],
                None => Seq::empty(),
            }) + inventory + (if kill {
                seq![HostAction::KillPlayer]
            } else {
                Seq::empty()
            }),
            last_item_time: if grant is Some {
                now_ms
            } else {
                self.last_item_time
            },
            last_death_link: if kill || death_sent {
                now_ms
            } else {
                self.last_death_link
            },
            death_consumed: dl_gate,
            death_sent,
            sent_goal: self.sent_goal || goal_fire,
        }
    }

    /// Runs one reconciliation tick: drives the state machine with the
    /// transport's events, surfaces connection changes to the log,
    /// drains new prints, and — once the grace period has passed and the
    /// version, seed and expansion identities agree — grants rewards,
    /// converts placeholders, reports checked locations, and exchanges
    /// death and goal signals. Fatal identity conflicts come back as
    /// `Err` and leave the store untouched; on success the returned
    /// actions, the timers, the store, and every outbound message are
    /// exactly what `tick_plan` prescribes.
    #[verifier::rlimit(100)]
    pub fn tick(&mut self, events: Vec<TransportEvent>, now_ms: u64, error: bool, host: &HostView)
        -> (r: Result<Vec<HostAction>, FatalError>)
        requires
            old(self).wf(),
            old(self).connection@.events_ok(events.deep_view()),
            host_rows_ok(*host),
        ensures
            final(self).wf(),
            final(self).config == old(self).config,
            final(self).mod_version == old(self).mod_version,
            old(self).log_buffer.deep_view().is_prefix_of(final(self).log_buffer.deep_view()),
            old(self).sent_goal ==> final(self).sent_goal,
            r is Err || error || old(self).grace_blocks(now_ms, *host) ==> final(self).log_buffer.deep_view() == old(self).tick_log_view(events.deep_view()),
            r is Ok ==> (final(self).log_buffer.deep_view() == old(self).tick_log_view(events.deep_view())
                || final(self).log_buffer.deep_view() == old(self).tick_log_view(events.deep_view()).push(
                RichPrintView::message_view(spec_store_reset_warning()))),
            ({
                let conn1 = old(self).connection@.run(events.deep_view());
                let conn2 = consume_prints_view(conn1);
                &&& (error ==> (r matches Ok(a) && a@.len() == 0 && final(self).connection@ == conn2
                    && final(self).save_data == old(self).save_data && final(self).locations_sent
                    == old(self).locations_sent && final(self).sent_goal == old(self).sent_goal
                    && final(self).last_item_time == old(self).last_item_time && final(self).last_death_link == old(self).last_death_link && final(self).load_time == old(self).load_time))
                &&& (!error ==> final(self).load_time == old(self).next_load_time(now_ms, *host))
                &&& (!error && old(self).grace_blocks(now_ms, *host) ==> (r matches Ok(a) && a@.len()
                    == 0 && final(self).connection@ == conn2 && final(self).save_data == old(self).save_data && final(self).locations_sent == old(self).locations_sent && final(self).sent_goal == old(self).sent_goal))
                &&& (!error && !old(self).grace_blocks(now_ms, *host) ==> {
                    let version_bad = old(self).config.client_version@ != old(self).mod_version@;
                    let client_seed = match conn2.state {
                        ClientConnectionStateView::Connected(c) => Some(c.room_info.seed_name),
                        _ => None,
                    };
                    let conflict = seed_conflict(
                        client_seed,
                        old(self).save_seed_view(host.game_loaded),
                        old(self).config.seed@,
                    );
                    &&& (version_bad ==> (r matches Err(e) && e@ == (FatalErrorView::VersionConflict {
                        config_version: old(self).config.client_version@,
                        mod_version: old(self).mod_version@,
                    }) && final(self).connection@ == conn2 && final(self).save_data == old(self).save_data && final(self).locations_sent == old(self).locations_sent))
                    &&& ((!version_bad && conflict is Some) ==> (r matches Err(e) && e@ == (
                    FatalErrorView::SeedConflict {
                        kind: conflict->Some_0.0,
                        left: conflict->Some_0.1,
                        right: conflict->Some_0.2,
                    }) && final(self).connection@ == conn2 && final(self).save_data == old(self).save_data && final(self).locations_sent == old(self).locations_sent && final(self).sent_goal == old(self).sent_goal))
                    &&& (conflict is Some ==> (r is Err && final(self).save_data == old(self).save_data && final(self).locations_sent == old(self).locations_sent && final(self).connection@ == conn2 && final(self).sent_goal == old(self).sent_goal))
                    &&& (!version_bad && conflict is None ==> {
                        let enable_dlc = match conn2.state {
                            ClientConnectionStateView::Connected(c) => c.connected.slot_data.options.enable_dlc,
                            _ => false,
                        };
                        let dlc_bad = enable_dlc && host.dlc_available && host.game_loaded && !(
                        host.dlc1_installed && host.dlc2_installed);
                        let plan = old(self).tick_plan(conn2, now_ms, *host);
                        &&& (r is Err <==> dlc_bad)
                        &&& (host.game_loaded && old(self).save_data.seed is None
                            ==> (final(self).save_data.seed matches Some(sd) && sd@ == old(self).config.seed@))
                        &&& (!(host.game_loaded && old(self).save_data.seed is None) ==> final(self).save_data.seed == old(self).save_data.seed)
                        &&& (r matches Err(e) ==> (e@ == (FatalErrorView::DlcMissing {
                            dlc1: host.dlc1_installed,
                            dlc2: host.dlc2_installed,
                        }) && final(self).connection@ == conn2 && final(self).save_data.items_granted == old(self).save_data.items_granted && final(self).save_data.locations == old(self).save_data.locations && final(self).locations_sent == old(self).locations_sent))
                        &&& (r matches Ok(acts) ==> {
                            let report = host.game_loaded && host.inventory_available
                                && conn2.state is Connected
                                && final(self).save_data.locations@.len() > old(self).locations_sent;
                            &&& acts@ == plan.actions
                            &&& count_grants(acts@) <= 1
                            &&& final(self).last_item_time == plan.last_item_time
                            &&& final(self).last_death_link == plan.last_death_link
                            &&& final(self).sent_goal == plan.sent_goal
                            &&& (plan.store_reset ==> final(self).save_data.items_granted@
                                == Seq::<u64>::empty())
                            &&& (plan.grant matches Some(iv) ==> ((forall|e: u64|
                                final(self).save_data.items_granted@.contains(e) <==> (old(self).save_data.items_granted@.contains(e) || e == iv.index))
                                && final(self).save_data.items_granted@.len() == old(self).save_data.items_granted@.len() + 1))
                            &&& (!plan.store_reset && plan.grant is None ==> final(self).save_data.items_granted@ == old(self).save_data.items_granted@)
                            &&& final(self).log_buffer.deep_view() == (if plan.store_reset {
                                old(self).tick_log_view(events.deep_view()).push(
                                    RichPrintView::message_view(spec_store_reset_warning()),
                                )
                            } else {
                                old(self).tick_log_view(events.deep_view())
                            })
                            &&& (host.game_loaded && host.inventory_available
                                ==> forall|l: i64| #![trigger final(self).save_data.locations@.contains(l)]
                                    final(self).save_data.locations@.contains(l) <==> (old(self).save_data.locations@.contains(l) || inventory_records(
                                        *host,
                                        host.inventory@.len() as int,
                                        l,
                                    )))
                            &&& (!(host.game_loaded && host.inventory_available)
                                ==> final(self).save_data.locations == old(self).save_data.locations)
                            &&& (report ==> final(self).locations_sent == final(self).save_data.locations@.len())
                            &&& (!report ==> final(self).locations_sent == old(self).locations_sent)
                            &&& (conn2.state matches ClientConnectionStateView::Connected(c)
                                ==> final(self).connection@ == (ClientConnectionView {
                                state: ClientConnectionStateView::Connected(
                                    ConnectedClientView {
                                        death_link: if plan.death_consumed {
                                            None
                                        } else {
                                            c.death_link
                                        },
                                        outbound: c.outbound + (if report {
                                            seq![
                                                ClientMessageView::LocationChecks {
                                                    locations: final(self).save_data.locations@,
                                                },
                                            ]
                                        } else {
                                            Seq::empty()
                                        }) + (if plan.death_sent {
                                            seq![
                                                ClientMessageView::BounceDeathLink(
                                                    DeathLinkView {
                                                        time_ms: now_ms,
                                                        source: c.self_alias(),
                                                        cause: None,
                                                    },
                                                ),
                                            ]
                                        } else {
                                            Seq::empty()
                                        }) + (if plan.sent_goal && !old(self).sent_goal {
                                            seq![ClientMessageView::StatusGoal]
                                        } else {
                                            Seq::empty()
                                        }),
                                        ..c
                                    },
                                ),
                                ..conn2
                            }))
                            &&& (!(conn2.state is Connected) ==> final(self).connection@ == conn2)
                        })
                    })
                })
            }),
    {
        let refused = events_have_refusal(&events);
        let old_state = self.simple_connection_state();
        self.connection.update(events);

        let reason: Option<String> = match &self.connection.state {
            ClientConnectionState::Disconnected(text) => Some(text.clone()),
            _ => None,
        };
        match reason {
            Some(text) => {
                match old_state {
                    SimpleConnectionState::Connecting => {
                        if refused {
                            self.log(
                                "Connection refused. Make sure the server session is running and the URL is up-to-date."
                                    .to_owned(),
                            );
                        } else {
                            let mut msg = "Connection failed: ".to_owned();
                            msg.append(text.as_str());
                            self.log(msg);
                        }
                    },
                    SimpleConnectionState::Connected => {
                        let mut msg = "Disconnected: ".to_owned();
                        msg.append(text.as_str());
                        self.log(msg);
                    },
                    SimpleConnectionState::Disconnected => {},
                }
            },
            None => {},
        }

        self.process_new_prints();

        if error {
            return Ok(Vec::new());
        }

        if !host.game_loaded {
            self.load_time = None;
        } else if self.load_time.is_none() {
            self.load_time = Some(now_ms);
        }
        match self.load_time {
            Some(t) => {
                if elapsed_ms(now_ms, t) < GRACE_PERIOD_MS {
                    return Ok(Vec::new());
                }
            },
            None => {},
        }

        match self.check_version_conflict() {
            Ok(_) => {},
            Err(e) => { return Err(e) },
        }
        match self.check_seed_conflict(host.game_loaded) {
            Ok(_) => {},
            Err(e) => { return Err(e) },
        }
        if host.game_loaded && self.save_data.seed.is_none() {
            self.save_data.seed = Some(self.config.seed.clone());
        }
        match self.check_dlc_error(host) {
            Ok(_) => {},
            Err(e) => { return Err(e) },
        }

        let mut actions: Vec<HostAction> = Vec::new();
        proof {
            match self.connection@.state {
                ClientConnectionStateView::Connected(c) => {
                    lemma_no_regrant(c.items, self.save_data.items_granted@);
                },
                _ => {},
            }
        }
        match self.process_incoming_items(now_ms, host) {
            Some(action) => {
                actions.push(action);
            },
            None => {},
        }
        let ghost after_grant = actions@;
        let mut inventory = self.process_inventory_items(host);
        let ghost inventory_view = inventory@;
        actions.append(&mut inventory);
        let ghost before_death = actions@;
        let death_action = self.handle_death_link(now_ms, host);
        match death_action {
            Some(action) => {
                actions.push(action);
            },
            None => {},
        }
        self.handle_goal(host);
        proof {
            lemma_count_grants_le_len(after_grant);
            if host.game_loaded && host.inventory_available {
                lemma_inventory_actions_no_grants(host.inventory@, host.rows@);
            }
            lemma_count_grants_none(inventory_view);
            lemma_count_grants_append(after_grant, inventory_view);
            assert(before_death =~= after_grant + inventory_view);
            match death_action {
                Some(action) => {
                    assert(actions@.drop_last() =~= before_death);
                    assert(count_grants(actions@) == count_grants(before_death));
                },
                None => {
                    assert(actions@ == before_death);
                },
            }
        }
        Ok(actions)
    }
}

/// Grant counting distributes over concatenation.
proof fn lemma_count_grants_append(a: Seq<HostAction>, b: Seq<HostAction>)
    ensures
        count_grants(a + b) == count_grants(a) + count_grants(b),
    decreases b.len(),
{
    if b.len() == 0 {
        assert(a + b =~= a);
    } else {
        assert((a + b).drop_last() =~= a + b.drop_last());
        assert((a + b).last() == b.last());
        lemma_count_grants_append(a, b.drop_last());
    }
}

/// A sequence without grant actions counts zero grants.
proof fn lemma_count_grants_none(s: Seq<HostAction>)
    requires
        forall|k: int|
            0 <= k < s.len() ==> !((#[trigger] s[k]) matches HostAction::GrantItem { .. }) && !(
            s[k] matches HostAction::GrantGesture { .. }),
    ensures
        count_grants(s) == 0,
    decreases s.len(),
{
    if s.len() > 0 {
        assert(forall|k: int| 0 <= k < s.drop_last().len() ==> s.drop_last()[k] == s[k]);
        lemma_count_grants_none(s.drop_last());
    }
}

/// Each action counts at most one grant.
proof fn lemma_count_grants_le_len(s: Seq<HostAction>)
    ensures
        count_grants(s) <= s.len(),
    decreases s.len(),
{
    if s.len() > 0 {
        lemma_count_grants_le_len(s.drop_last());
    }
}

/// Converting one inventory entry never grants a reward.
proof fn lemma_placeholder_actions_no_grants(
    id: CategorizedItemID,
    rows: Seq<(CategorizedItemID, EquipParamRow)>,
)
    ensures
        forall|k: int|
            0 <= k < placeholder_actions(id, rows).len() ==> !((#[trigger] placeholder_actions(
                id,
                rows,
            )[k]) matches HostAction::GrantItem { .. }) && !(placeholder_actions(id, rows)[k]
                matches HostAction::GrantGesture { .. }),
{
}

/// An inventory scan never grants a reward.
proof fn lemma_inventory_actions_no_grants(
    inv: Seq<CategorizedItemID>,
    rows: Seq<(CategorizedItemID, EquipParamRow)>,
)
    ensures
        forall|k: int|
            0 <= k < inventory_actions(inv, rows).len() ==> !((#[trigger] inventory_actions(
                inv,
                rows,
            )[k]) matches HostAction::GrantItem { .. }) && !(inventory_actions(inv, rows)[k]
                matches HostAction::GrantGesture { .. }),
    decreases inv.len(),
{
    if inv.len() > 0 {
        lemma_inventory_actions_no_grants(inv.drop_last(), rows);
        lemma_placeholder_actions_no_grants(inv.last(), rows);
        assert forall|k: int| 0 <= k < inventory_actions(inv, rows).len() implies !((
        #[trigger] inventory_actions(inv, rows)[k]) matches HostAction::GrantItem { .. }) && !(
        inventory_actions(inv, rows)[k] matches HostAction::GrantGesture { .. }) by {
            let head = inventory_actions(inv.drop_last(), rows);
            let tail = placeholder_actions(inv.last(), rows);
            if k < head.len() {
                assert(inventory_actions(inv, rows)[k] == head[k]);
            } else {
                assert(inventory_actions(inv, rows)[k] == tail[k - head.len()]);
            }
        }
    }
}

impl Core {
    /// Restores the store from the host's save file: `None` clears the
    /// store, and a buffer that is not the canonical encoding of a
    /// well-formed record resets it to empty with a logged warning, so
    /// a corrupt save never interrupts the host's load cycle.
    pub fn load_save(&mut self, data: Option<Vec<u8>>)
        ensures
            final(self).config == old(self).config,
            final(self).mod_version == old(self).mod_version,
            ({
                let failed = data matches Some(bytes) && (forall|v: crate::save_data::SaveDataView|
                    v.wf() ==> bytes@ != crate::codec::encode_bytes(v));
                if failed {
                    final(self).log_buffer.deep_view() == old(self).log_buffer.deep_view().push(
                        RichPrintView::message_view(spec_save_corrupt_warning()),
                    )
                } else {
                    final(self).log_buffer == old(self).log_buffer
                }
            }),
            final(self).connection == old(self).connection,
            final(self).last_item_time == old(self).last_item_time,
            final(self).load_time == old(self).load_time,
            final(self).locations_sent == old(self).locations_sent,
            final(self).last_death_link == old(self).last_death_link,
            final(self).sent_goal == old(self).sent_goal,
            final(self).save_data.wf(),
            match data {
                Some(bytes) => {
                    &&& (forall|v: crate::save_data::SaveDataView|
                        v.wf() && bytes@ == crate::codec::encode_bytes(v) ==> final(self).save_data@ == v)
                    &&& ((forall|v: crate::save_data::SaveDataView|
                        v.wf() ==> bytes@ != crate::codec::encode_bytes(v)) ==> final(self).save_data@ == SaveData::empty_view())
                },
                None => final(self).save_data@ == SaveData::empty_view(),
            },
    {
        match data {
            Some(bytes) => {
                let byte_count = bytes.len();
                proof {
                    assert(bytes@.len() == byte_count);
                }
                match crate::codec::decode_save_data(&bytes) {
                    Some(decoded) => {
                        proof {
                            assert(bytes@.len() < 0x1_0000_0000_0000_0000);
                            assert forall|v: crate::save_data::SaveDataView|
                                v.wf() && bytes@ == crate::codec::encode_bytes(v) implies decoded@
                                == v by {
                                crate::codec::lemma_encode_injective(decoded@, v);
                            }
                        }
                        self.save_data = decoded;
                    },
                    None => {
                        self.save_data = SaveData::empty();
                        self.log(
                            "Failed to load save data; starting with an empty progress record"
                                .to_owned(),
                        );
                        proof {
                            assert(self.save_data@ =~~= SaveData::empty_view());
                        }
                    },
                }
            },
            None => {
                self.save_data = SaveData::empty();
                proof {
                    assert(self.save_data@ =~~= SaveData::empty_view());
                }
            },
        }
    }

    /// Produces the bytes to persist with the host's save file: the
    /// canonical encoding of the store, and only while a game session
    /// is active.
    pub fn save_bytes(&self, game_loaded: bool) -> (r: Option<Vec<u8>>)
        ensures
            match r {
                Some(b) => game_loaded && b@ == crate::codec::encode_bytes(self.save_data@),
                None => !game_loaded,
            },
    {
        if game_loaded {
            Some(crate::codec::encode_save_data(&self.save_data))
        } else {
            None
        }
    }
}


/// Re-delivery never re-grants: the reward the grant phase picks always
/// carries a delivery index that is not yet recorded in the store.
pub proof fn lemma_no_regrant(items: Seq<ItemView>, granted: Seq<u64>)
    ensures
        find_ungranted(items, granted) matches Some(iv) ==> !granted.contains(iv.index),
    decreases items.len(),
{
    if items.len() > 0 && granted.contains(items[0].index) {
        lemma_no_regrant(items.drop_first(), granted);
    }
}

} // verus!
