//! Rooms: who is in, who is told what, and when a player or a room has
//! been idle for too long. Times are milliseconds on the host's
//! monotonic clock.

use crate::input::Bits32;
use crate::messages::{id_text, id_to_string, ServerMessage, ServerMessageView};
use crate::queries::entity_index;
use crate::simulation::{new_ship_record, BodyLink, GameSimulation, SimulationView};
use crate::store::{Entity, EntityRecord};
use std::collections::HashMap;
use vstd::prelude::*;

verus! {

/// Number of characters of a room code.
pub const ROOM_CODE_LENGTH: usize = 8;

/// Number of symbols that a room code is drawn from: ten digits and
/// twenty-six letters.
pub const ROOM_CODE_SYMBOLS: u8 = 36;

/// Most players that a room takes.
pub const MAX_PLAYERS_PER_ROOM: usize = 10;

/// Milliseconds of silence after which a player is removed.
pub const PLAYER_IDLE_TIMEOUT_MS: u64 = 120_000;

/// Milliseconds for which a room may stand empty.
pub const EMPTY_ROOM_TIMEOUT_MS: u64 = 300_000;

/// Number of places on the spawn circle.
pub const SPAWN_SLOTS: usize = 8;

/// `String::push`: the string with one more character at its end.
pub assume_specification[ String::push ](text: &mut String, symbol: char)
    ensures
        final(text)@ == old(text)@.push(symbol),
;

/// The symbol with number `pick` in the alphabet of room codes: the
/// digits, then the upper-case letters. Numbers from thirty-six on start
/// over.
pub open spec fn code_symbol(pick: u8) -> char {
    if pick % ROOM_CODE_SYMBOLS < 10 {
        ((48 + pick % ROOM_CODE_SYMBOLS) as u8) as char
    } else {
        ((55 + pick % ROOM_CODE_SYMBOLS) as u8) as char
    }
}

/// A digit or an upper-case letter of ASCII.
pub open spec fn is_code_symbol(symbol: char) -> bool {
    ('0' <= symbol && symbol <= '9') || ('A' <= symbol && symbol <= 'Z')
}

/// The code that the picks `picks` spell.
pub open spec fn code_of(picks: Seq<u8>) -> Seq<char> {
    picks.map_values(|pick: u8| code_symbol(pick))
}

/// `rand::random_range` on `0..bound`: some number below `bound`, each
/// with the same chance. The call is left out for a `bound` of zero.
#[verifier::external_body]
pub(crate) fn random_below(bound: u8) -> (pick: u8)
    requires
        bound > 0,
    ensures
        pick < bound,
{
    rand::random_range(0..bound)
}

/// The symbol with number `pick` in the alphabet of room codes.
pub fn symbol_for(pick: u8) -> (symbol: char)
    ensures
        symbol == code_symbol(pick),
        is_code_symbol(symbol),
{
    let place = pick % ROOM_CODE_SYMBOLS;
    if place < 10 {
        (48 + place) as char
    } else {
        (55 + place) as char
    }
}

/// The short code by which players find a room.
#[derive(Debug, Clone)]
pub struct RoomCode(String);

impl View for RoomCode {
    type V = Seq<char>;

    closed spec fn view(&self) -> Seq<char> {
        self.0@
    }
}

impl RoomCode {
    /// The code that `picks` spell, one symbol for each.
    pub fn from_picks(picks: &Vec<u8>) -> (code: RoomCode)
        ensures
            code@ == code_of(picks@),
    {
        let mut text = String::new();
        let mut i: usize = 0;
        while i < picks.len()
            invariant
                i <= picks.len(),
                text@ == code_of(picks@.take(i as int)),
            decreases picks.len() - i,
        {
            text.push(symbol_for(picks[i]));
            assert(text@ =~= code_of(picks@.take(i + 1)));
            i += 1;
        }
        assert(picks@.take(picks@.len() as int) == picks@);
        RoomCode(text)
    }

    /// A fresh code of eight symbols, each drawn evenly from the digits
    /// and the upper-case letters.
    pub fn generate() -> (code: RoomCode)
        ensures
            code@.len() == ROOM_CODE_LENGTH,
            forall|i: int| 0 <= i < code@.len() ==> is_code_symbol(code@[i]),
    {
        let mut picks: Vec<u8> = Vec::new();
        while picks.len() < ROOM_CODE_LENGTH
            invariant
                picks.len() <= ROOM_CODE_LENGTH,
            decreases ROOM_CODE_LENGTH - picks.len(),
        {
            picks.push(random_below(ROOM_CODE_SYMBOLS));
        }
        RoomCode::from_picks(&picks)
    }

    pub fn as_str(&self) -> (text: &str)
        ensures
            text@ == self@,
    {
        self.0.as_str()
    }
}

/// A player in a room.
#[derive(Debug, Clone)]
pub struct Player {
    pub id: u128,
    pub name: String,
    /// When the player was last heard of.
    pub last_seen: u64,
}

/// A room `Player` as plain values.
pub struct RoomPlayerView {
    pub id: u128,
    pub name: Seq<char>,
    pub last_seen: u64,
}

impl View for Player {
    type V = RoomPlayerView;

    open spec fn view(&self) -> RoomPlayerView {
        RoomPlayerView { id: self.id, name: self.name@, last_seen: self.last_seen }
    }
}

/// A room: its players and its simulation.
pub struct Room {
    pub code: RoomCode,
    pub players: HashMap<u128, Player>,
    pub created_at: u64,
    /// When a player last joined or left.
    pub last_activity: u64,
    pub simulation: GameSimulation,
    /// From a player to the ship it flies.
    pub player_entities: HashMap<u128, Entity>,
}

/// A `Room` as plain values.
pub struct RoomView {
    pub code: Seq<char>,
    pub players: Map<u128, RoomPlayerView>,
    pub created_at: u64,
    pub last_activity: u64,
    pub simulation: SimulationView,
    pub player_entities: Map<u128, Entity>,
}

impl View for Room {
    type V = RoomView;

    open spec fn view(&self) -> RoomView {
        RoomView {
            code: self.code@,
            players: self.players@.map_values(|player: Player| player@),
            created_at: self.created_at,
            last_activity: self.last_activity,
            simulation: self.simulation@,
            player_entities: self.player_entities@,
        }
    }
}

/// What the host does after a player has joined.
#[derive(Debug)]
pub struct JoinNotice {
    /// The ship of the new player.
    pub entity: Entity,
    /// What the players who were in the room before are told.
    pub message: ServerMessage,
    /// The players who are told.
    pub recipients: Vec<u128>,
}

/// What the host does after a player has left.
#[derive(Debug)]
pub struct LeaveNotice {
    pub player_id: u128,
    /// The physics body of the player's ship, to be removed.
    pub body: Option<u64>,
    /// What the players who stay are told.
    pub message: ServerMessage,
    /// The players who are told.
    pub recipients: Vec<u128>,
}

/// A `LeaveNotice` as plain values, but for the order of its recipients.
pub struct LeaveNoticeView {
    pub player_id: u128,
    pub body: Option<u64>,
    pub message: ServerMessageView,
    pub recipients: Set<u128>,
}

impl View for LeaveNotice {
    type V = LeaveNoticeView;

    open spec fn view(&self) -> LeaveNoticeView {
        LeaveNoticeView {
            player_id: self.player_id,
            body: self.body,
            message: self.message@,
            recipients: self.recipients@.to_set(),
        }
    }
}

/// The players that `notices` tell of, in the order of the notices.
pub open spec fn leaving_of(notices: Seq<LeaveNotice>) -> Seq<u128> {
    notices.map_values(|notice: LeaveNotice| notice.player_id)
}

/// A player last heard of at `last_seen` has been silent for more than
/// the idle timeout at `now`.
pub open spec fn is_idle(last_seen: u64, now: u64) -> bool {
    last_seen + PLAYER_IDLE_TIMEOUT_MS < now
}

impl RoomView {
    /// The room takes no more players.
    pub open spec fn is_full(self) -> bool {
        self.players.len() >= MAX_PLAYERS_PER_ROOM
    }

    /// The players who have been silent for too long at `now`.
    pub open spec fn idle_players(self, now: u64) -> Set<u128> {
        Set::new(
            |id: u128| self.players.contains_key(id) && is_idle(self.players[id].last_seen, now),
        )
    }

    /// The room after `player` has joined at `now` and got the ship
    /// `entity` with the components `record` on the physics body `body`.
    pub open spec fn joined(
        self,
        player: RoomPlayerView,
        entity: Entity,
        record: EntityRecord,
        body: u64,
        now: u64,
    ) -> RoomView {
        RoomView {
            players: self.players.insert(player.id, player),
            player_entities: self.player_entities.insert(player.id, entity),
            simulation: self.simulation.spawned(entity, record, body),
            last_activity: now,
            ..self
        }
    }

    /// The room after the player `player_id`, who was in it, has left at
    /// `now`: the player is gone, and so is the ship that the player flew.
    pub open spec fn left(self, player_id: u128, now: u64) -> RoomView {
        RoomView {
            players: self.players.remove(player_id),
            player_entities: self.player_entities.remove(player_id),
            simulation: if self.player_entities.contains_key(player_id) {
                self.simulation.despawned(self.player_entities[player_id])
            } else {
                self.simulation
            },
            last_activity: now,
            ..self
        }
    }

    /// What is noted when the player `player_id` leaves this room.
    pub open spec fn leave_notice(self, player_id: u128) -> LeaveNoticeView {
        LeaveNoticeView {
            player_id,
            body: if self.player_entities.contains_key(player_id) {
                self.simulation.body_of(self.player_entities[player_id])
            } else {
                None
            },
            message: ServerMessageView::PlayerLeft { player_id: id_text(player_id) },
            recipients: self.players.dom().remove(player_id),
        }
    }

    /// The room after the players `leaving` have left one after the
    /// other at `now`.
    pub open spec fn left_all(self, leaving: Seq<u128>, now: u64) -> RoomView
        decreases leaving.len(),
    {
        if leaving.len() == 0 {
            self
        } else {
            self.left_all(leaving.drop_last(), now).left(leaving.last(), now)
        }
    }
}

impl Room {
    /// An empty room with a fresh code, made at `now`.
    pub fn new(now: u64) -> (room: Room)
        ensures
            room@.players == Map::<u128, RoomPlayerView>::empty(),
            room@.player_entities == Map::<u128, Entity>::empty(),
            room@.simulation == SimulationView::initial(),
            room@.created_at == now,
            room@.last_activity == now,
            room@.code.len() == ROOM_CODE_LENGTH,
            forall|i: int| 0 <= i < room@.code.len() ==> is_code_symbol(room@.code[i]),
    {
        let room = Room {
            code: RoomCode::generate(),
            players: HashMap::new(),
            created_at: now,
            last_activity: now,
            simulation: GameSimulation::new(),
            player_entities: HashMap::new(),
        };
        assert(room@.players =~= Map::<u128, RoomPlayerView>::empty());
        room
    }

    /// The ids of the players in the room, each once.
    pub fn roster(&self) -> (ids: Vec<u128>)
        ensures
            ids@.no_duplicates(),
            ids@.to_set() == self@.players.dom(),
    {
        broadcast use vstd::std_specs::hash::group_hash_axioms;

        let mut ids: Vec<u128> = Vec::new();
        for id in iter: self.players.keys()
            invariant
                ids@ == iter.seq().take(iter.index() as int).unref(),
                iter.seq().unref().to_set() == self.players@.dom(),
                iter.seq().unref().no_duplicates(),
                iter.index() == iter.seq().len() ==> ids@ =~= iter.seq().unref(),
        {
            ids.push(*id);
            assert(ids@ =~= iter.seq().take(iter.index() + 1).unref());
        }
        assert(self@.players.dom() =~= self.players@.dom());
        ids
    }

    /// Whether nobody is in the room.
    pub fn is_empty(&self) -> (empty: bool)
        ensures
            empty == (self@.players.len() == 0),
    {
        broadcast use vstd::std_specs::hash::group_hash_axioms;

        proof {
            lemma_players_len(self);
        }
        self.players.len() == 0
    }

    /// The place on the spawn circle for the next player to join: the
    /// number of players in the room, counted round the circle. Refused
    /// where the room is full.
    pub fn spawn_slot(&self) -> (slot: Result<usize, String>)
        ensures
            match slot {
                Ok(place) => !self@.is_full() && place == self@.players.len() % (
                SPAWN_SLOTS as nat),
                Err(message) => self@.is_full() && message@ == "Room is full"@,
            },
    {
        broadcast use vstd::std_specs::hash::group_hash_axioms;

        proof {
            lemma_players_len(self);
        }
        if self.players.len() >= MAX_PLAYERS_PER_ROOM {
            Err(String::from_str("Room is full"))
        } else {
            Ok(self.players.len() % SPAWN_SLOTS)
        }
    }

    /// Takes `player` into the room at `now`, unless the room is full.
    /// The player gets a ship at `spawn_position` on the physics body
    /// `link` of mass `mass`, which the host has made for it. Tells who
    /// is to hear of the new player, and what.
    pub fn add_player(
        &mut self,
        player: Player,
        spawn_position: [Bits32; 2],
        mass: Bits32,
        link: BodyLink,
        now: u64,
    ) -> (joined: Result<JoinNotice, String>)
        requires
            old(self)@.simulation.records.len() < u32::MAX,
        ensures
            match joined {
                Ok(notice) => {
                    &&& !old(self)@.is_full()
                    &&& !old(self)@.simulation.records.contains_key(notice.entity)
                    &&& final(self)@ == old(self)@.joined(
                        player@,
                        notice.entity,
                        new_ship_record(player.id, player.name@, spawn_position, mass, link),
                        link.body,
                        now,
                    )
                    &&& notice.message@ == (ServerMessageView::PlayerJoined {
                        player_id: id_text(player.id),
                        player_name: player.name@,
                    })
                    &&& notice.recipients@.no_duplicates()
                    &&& notice.recipients@.to_set() == old(self)@.players.dom()
                    &&& final(self)@.players.len() <= MAX_PLAYERS_PER_ROOM
                    &&& old(self)@.simulation.links_agree()
                        && !old(self)@.simulation.body_to_entity.contains_key(link.body)
                        ==> final(self)@.simulation.links_agree()
                },
                Err(message) => {
                    &&& old(self)@.is_full()
                    &&& message@ == "Room is full"@
                    &&& final(self)@ == old(self)@
                },
            },
    {
        broadcast use vstd::std_specs::hash::group_hash_axioms;

        proof {
            lemma_players_len(self);
        }
        if self.players.len() >= MAX_PLAYERS_PER_ROOM {
            return Err(String::from_str("Room is full"));
        }
        let entity = self.simulation.spawn_player_ship(
            player.id,
            player.name.clone(),
            spawn_position,
            mass,
            link,
        );
        self.player_entities.insert(player.id, entity);
        let message = ServerMessage::PlayerJoined {
            player_id: id_to_string(player.id),
            player_name: player.name.clone(),
        };
        let recipients = self.roster();
        let ghost joining = player@;
        self.players.insert(player.id, player);
        self.last_activity = now;
        proof {
            assert(final(self)@.players =~= old(self)@.players.insert(joining.id, joining));
            lemma_players_len(self);
        }
        Ok(JoinNotice { entity, message, recipients })
    }

    /// Lets the player `player_id` leave at `now`, with the ship that the
    /// player flew. Tells who is to hear of it, and what, and which
    /// physics body the host has to remove. A player who is not in the
    /// room is passed over.
    pub fn remove_player(&mut self, player_id: u128, now: u64) -> (left: Option<LeaveNotice>)
        ensures
            match left {
                Some(notice) => {
                    &&& old(self)@.players.contains_key(player_id)
                    &&& final(self)@ == old(self)@.left(player_id, now)
                    &&& notice@ == old(self)@.leave_notice(player_id)
                    &&& notice.recipients@.no_duplicates()
                    &&& old(self)@.simulation.links_agree()
                        ==> final(self)@.simulation.links_agree()
                },
                None => {
                    &&& !old(self)@.players.contains_key(player_id)
                    &&& final(self)@ == old(self)@
                },
            },
    {
        broadcast use vstd::std_specs::hash::group_hash_axioms;

        match self.players.remove(&player_id) {
            Some(_) => {
                let body = match self.player_entities.remove(&player_id) {
                    Some(entity) => self.simulation.despawn_entity(entity),
                    None => None,
                };
                let message = ServerMessage::PlayerLeft { player_id: id_to_string(player_id) };
                let recipients = self.roster();
                self.last_activity = now;
                proof {
                    assert(final(self)@.players =~= old(self)@.players.remove(player_id));
                    assert(recipients@.to_set() =~= old(self)@.players.dom().remove(player_id));
                }
                Some(LeaveNotice { player_id, body, message, recipients })
            },
            None => {
                proof {
                    assert(final(self)@.players =~= old(self)@.players);
                }
                None
            },
        }
    }

    /// Notes at `now` that the player `player_id` is alive, and tells
    /// whether the player is in the room.
    pub fn update_player_activity(&mut self, player_id: u128, now: u64) -> (known: bool)
        ensures
            known == old(self)@.players.contains_key(player_id),
            final(self)@ == if known {
                RoomView {
                    players: old(self)@.players.insert(
                        player_id,
                        RoomPlayerView { last_seen: now, ..old(self)@.players[player_id] },
                    ),
                    ..old(self)@
                }
            } else {
                old(self)@
            },
    {
        broadcast use vstd::std_specs::hash::group_hash_axioms;

        match self.players.remove(&player_id) {
            Some(player) => {
                let ghost seen = RoomPlayerView { last_seen: now, ..player@ };
                self.players.insert(player_id, Player { id: player.id, name: player.name, last_seen: now });
                proof {
                    assert(final(self)@.players =~= old(self)@.players.insert(player_id, seen));
                }
                true
            },
            None => {
                proof {
                    assert(final(self)@.players =~= old(self)@.players);
                }
                false
            },
        }
    }

    /// Removes at `now` every player who has been silent for too long,
    /// one after the other, each as `remove_player` does. Tells for each
    /// of them what the host has to do.
    pub fn cleanup_inactive_players(&mut self, now: u64) -> (notices: Vec<LeaveNotice>)
        ensures
            leaving_of(notices@).no_duplicates(),
            leaving_of(notices@).to_set() == old(self)@.idle_players(now),
            final(self)@ == old(self)@.left_all(leaving_of(notices@), now),
            forall|k: int|
                0 <= k < notices@.len() ==> (#[trigger] notices@[k])@ == old(self)@.left_all(
                    leaving_of(notices@).take(k),
                    now,
                ).leave_notice(notices@[k].player_id),
            old(self)@.simulation.links_agree() ==> final(self)@.simulation.links_agree(),
    {
        broadcast use vstd::std_specs::hash::group_hash_axioms;

        let ids = self.roster();
        let ghost before = self@;
        let mut notices: Vec<LeaveNotice> = Vec::new();
        let mut i: usize = 0;
        proof {
            assert(leaving_of(notices@) =~= Seq::<u128>::empty());
        }
        while i < ids.len()
            invariant
                i <= ids.len(),
                before == old(self)@,
                ids@.no_duplicates(),
                ids@.to_set() == before.players.dom(),
                leaving_of(notices@).no_duplicates(),
                forall|id: u128|
                    leaving_of(notices@).contains(id) <==> before.idle_players(now).contains(id)
                        && exists|j: int| 0 <= j < i && ids@[j] == id,
                self@ == before.left_all(leaving_of(notices@), now),
                before.simulation.links_agree() ==> self@.simulation.links_agree(),
                forall|id: u128|
                    self@.players.contains_key(id) <==> before.players.contains_key(id)
                        && !leaving_of(notices@).contains(id),
                forall|id: u128|
                    self@.players.contains_key(id) ==> self@.players[id] == before.players[id],
                forall|k: int|
                    0 <= k < notices@.len() ==> (#[trigger] notices@[k])@ == before.left_all(
                        leaving_of(notices@).take(k),
                        now,
                    ).leave_notice(notices@[k].player_id),
            decreases ids.len() - i,
        {
            let id = ids[i];
            let ghost held = notices@;
            let ghost gone = leaving_of(held);
            let ghost room_now = self@;
            proof {
                assert(ids@.to_set().contains(id));
                assert(before.players.contains_key(id));
                if gone.contains(id) {
                    let j = choose|j: int| 0 <= j < i && ids@[j] == id;
                    assert(false);
                }
                assert(self.players@.contains_key(id));
            }
            let idle = match self.players.get(&id) {
                Some(player) => now >= PLAYER_IDLE_TIMEOUT_MS && player.last_seen < now
                    - PLAYER_IDLE_TIMEOUT_MS,
                None => false,
            };
            assert(idle == before.idle_players(now).contains(id));
            if idle {
                match self.remove_player(id, now) {
                    Some(notice) => {
                        notices.push(notice);
                        proof {
                            let leaving = leaving_of(notices@);
                            assert(leaving =~= gone.push(id));
                            assert(leaving.drop_last() =~= gone);
                            assert(self@ == before.left_all(leaving, now));
                            assert forall|k: int| 0 <= k < notices@.len() implies (
                            #[trigger] notices@[k])@ == before.left_all(leaving.take(k), now).leave_notice(
                                notices@[k].player_id,
                            ) by {
                                if k < held.len() {
                                    assert(notices@[k] == held[k]);
                                    assert(leaving.take(k) =~= gone.take(k));
                                } else {
                                    assert(leaving.take(k) =~= gone);
                                }
                            }
                        }
                    },
                    None => {
                        assert(false);
                    },
                }
            }
            proof {
                let leaving = leaving_of(notices@);
                assert forall|other: u128|
                    leaving.contains(other) <==> before.idle_players(now).contains(other)
                        && exists|j: int| 0 <= j < i + 1 && ids@[j] == other by {
                    if leaving.contains(other) {
                        if other == id {
                            assert(ids@[i as int] == other);
                        } else {
                            let at = choose|at: int| 0 <= at < leaving.len() && leaving[at] == other;
                            assert(gone[at] == other);
                            assert(gone.contains(other));
                            let j = choose|j: int| 0 <= j < i && ids@[j] == other;
                            assert(0 <= j < i + 1 && ids@[j] == other);
                        }
                    }
                    if before.idle_players(now).contains(other) && exists|j: int|
                        0 <= j < i + 1 && ids@[j] == other {
                        let j = choose|j: int| 0 <= j < i + 1 && ids@[j] == other;
                        if j < i {
                            assert(gone.contains(other));
                            let at = choose|at: int| 0 <= at < gone.len() && gone[at] == other;
                            assert(leaving[at] == other);
                        } else {
                            assert(other == id);
                            assert(leaving[leaving.len() - 1] == id);
                        }
                    }
                }
            }
            i += 1;
        }
        proof {
            let leaving = leaving_of(notices@);
            assert forall|id: u128| leaving.to_set().contains(id) <==> before.idle_players(
                now,
            ).contains(id) by {
                if before.idle_players(now).contains(id) {
                    assert(ids@.to_set().contains(id));
                    let j = choose|j: int| 0 <= j < ids@.len() && ids@[j] == id;
                    assert(0 <= j < i && ids@[j] == id);
                }
            }
            assert(leaving.to_set() =~= before.idle_players(now));
        }
        notices
    }

    /// Whether the room has stood empty for longer than a room may.
    pub fn is_expired(&self, now: u64) -> (expired: bool)
        ensures
            expired == (self@.players.len() == 0 && now - self.last_activity
                > EMPTY_ROOM_TIMEOUT_MS),
    {
        self.is_empty() && now > self.last_activity && now - self.last_activity
            > EMPTY_ROOM_TIMEOUT_MS
    }

    /// What the player `player_id` is told on joining: the room, the
    /// player's id as text, and the index of the player's ship, or zero
    /// if the player has none.
    pub fn room_joined_message(&self, player_id: u128) -> (message: ServerMessage)
        ensures
            message@ == (ServerMessageView::RoomJoined {
                room_code: self@.code,
                player_id: id_text(player_id),
                entity_id: if self@.player_entities.contains_key(player_id) {
                    entity_index(self@.player_entities[player_id])
                } else {
                    0
                },
            }),
    {
        broadcast use vstd::std_specs::hash::group_hash_axioms;

        let entity_id = match self.player_entities.get(&player_id) {
            Some(entity) => *entity & 0xffff_ffff,
            None => 0,
        };
        ServerMessage::RoomJoined {
            room_code: self.code.0.clone(),
            player_id: id_to_string(player_id),
            entity_id,
        }
    }
}

/// The deep view of the players has as many entries as the map itself.
pub proof fn lemma_players_len(room: &Room)
    ensures
        room@.players.len() == room.players@.len(),
        room@.players.dom() == room.players@.dom(),
{
    assert(room@.players.dom() =~= room.players@.dom());
}

} // verus!
