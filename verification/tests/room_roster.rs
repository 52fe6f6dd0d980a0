use cosmic_crunchers::messages::{ClientMessage, ConnectionAction, ServerMessage};
use cosmic_crunchers::room::{
    symbol_for, Player, Room, RoomCode, EMPTY_ROOM_TIMEOUT_MS, MAX_PLAYERS_PER_ROOM,
    PLAYER_IDLE_TIMEOUT_MS,
};
use cosmic_crunchers::simulation::BodyLink;

const ALICE: u128 = 0xa1a2a3a4_b1b2_c1c2_d1d2_d3d4d5d6d7d8;
const ALICE_TEXT: &str = "a1a2a3a4-b1b2-c1c2-d1d2-d3d4d5d6d7d8";

fn player(id: u128, name: &str, last_seen: u64) -> Player {
    Player { id, name: name.to_string(), last_seen }
}

fn join(room: &mut Room, id: u128, name: &str, now: u64) -> Result<u64, String> {
    let body = id as u64;
    room.add_player(
        player(id, name, now),
        [0.0f32.to_bits(), 0.0f32.to_bits()],
        1.0f32.to_bits(),
        BodyLink { body, collider: body + 1000 },
        now,
    )
    .map(|notice| notice.entity)
}

fn sorted(mut ids: Vec<u128>) -> Vec<u128> {
    ids.sort();
    ids
}

#[test]
fn room_code_has_eight_symbols() {
    for _ in 0..200 {
        let code = RoomCode::generate();
        assert_eq!(code.as_str().len(), 8);
        assert!(code.as_str().chars().all(|c| c.is_ascii_digit() || c.is_ascii_uppercase()));
    }
}

#[test]
fn room_codes_differ() {
    let codes: std::collections::HashSet<String> =
        (0..50).map(|_| RoomCode::generate().as_str().to_string()).collect();
    assert!(codes.len() > 1);
}

#[test]
fn room_code_spells_its_picks() {
    let code = RoomCode::from_picks(&vec![0, 9, 10, 35, 36, 45, 46, 71]);
    assert_eq!(code.as_str(), "09AZ09AZ");
    assert_eq!(RoomCode::from_picks(&vec![]).as_str(), "");
}

#[test]
fn symbols_are_digits_then_letters() {
    let alphabet: String = (0..36).map(symbol_for).collect();
    assert_eq!(alphabet, "0123456789ABCDEFGHIJKLMNOPQRSTUVWXYZ");
    assert_eq!(symbol_for(255), symbol_for(255 % 36));
}

#[test]
fn new_room_is_empty() {
    let room = Room::new(5);
    assert!(room.is_empty());
    assert_eq!(room.created_at, 5);
    assert_eq!(room.last_activity, 5);
    assert_eq!(room.code.as_str().len(), 8);
    assert_eq!(room.simulation.tick, 0);
    assert!(room.player_entities.is_empty());
    assert_eq!(room.roster(), vec![]);
    assert_eq!(room.spawn_slot(), Ok(0));
}

#[test]
fn add_player_spawns_a_ship_and_tells_the_others() {
    let mut room = Room::new(0);
    let first = room
        .add_player(
            player(ALICE, "alice", 10),
            [100.0f32.to_bits(), 0.0f32.to_bits()],
            1.0f32.to_bits(),
            BodyLink { body: 1, collider: 2 },
            10,
        )
        .unwrap();
    assert!(first.recipients.is_empty());
    assert_eq!(
        first.message,
        ServerMessage::PlayerJoined {
            player_id: ALICE_TEXT.to_string(),
            player_name: "alice".to_string(),
        }
    );
    assert_eq!(room.player_entities.get(&ALICE), Some(&first.entity));
    assert_eq!(room.simulation.entity_to_body.get(&first.entity), Some(&1));
    assert_eq!(room.last_activity, 10);
    assert!(!room.is_empty());
    let second = room
        .add_player(
            player(2, "bob", 20),
            [0.0f32.to_bits(), 100.0f32.to_bits()],
            1.0f32.to_bits(),
            BodyLink { body: 3, collider: 4 },
            20,
        )
        .unwrap();
    assert_eq!(second.recipients, vec![ALICE]);
    assert_eq!(
        second.message,
        ServerMessage::PlayerJoined {
            player_id: "00000000-0000-0000-0000-000000000002".to_string(),
            player_name: "bob".to_string(),
        }
    );
    assert_ne!(first.entity, second.entity);
    assert_eq!(sorted(room.roster()), vec![2, ALICE]);
    assert_eq!(room.simulation.world.len(), 2);
    assert_eq!(room.last_activity, 20);
}

#[test]
fn room_takes_ten_players_and_no_more() {
    let mut room = Room::new(0);
    for id in 1..=10u128 {
        assert_eq!(room.spawn_slot(), Ok((id as usize - 1) % 8));
        assert!(join(&mut room, id, "p", id as u64).is_ok());
    }
    assert_eq!(MAX_PLAYERS_PER_ROOM, 10);
    assert_eq!(room.spawn_slot(), Err("Room is full".to_string()));
    let refused = join(&mut room, 11, "late", 99);
    assert_eq!(refused, Err("Room is full".to_string()));
    assert_eq!(room.players.len(), 10);
    assert_eq!(room.player_entities.len(), 10);
    assert_eq!(room.simulation.world.len(), 10);
    assert_eq!(room.last_activity, 10);
    assert!(!room.players.contains_key(&11));
}

#[test]
fn remove_player_takes_the_ship_along() {
    let mut room = Room::new(0);
    let ship = join(&mut room, ALICE, "alice", 1).unwrap();
    join(&mut room, 2, "bob", 2).unwrap();
    join(&mut room, 3, "carol", 3).unwrap();
    let notice = room.remove_player(ALICE, 50).unwrap();
    assert_eq!(notice.player_id, ALICE);
    assert_eq!(notice.body, Some(ALICE as u64));
    assert_eq!(notice.message, ServerMessage::PlayerLeft { player_id: ALICE_TEXT.to_string() });
    assert_eq!(sorted(notice.recipients), vec![2, 3]);
    assert!(!room.players.contains_key(&ALICE));
    assert!(!room.player_entities.contains_key(&ALICE));
    assert!(!room.simulation.world.contains(hecs::Entity::from_bits(ship).unwrap()));
    assert_eq!(room.simulation.world.len(), 2);
    assert_eq!(room.last_activity, 50);
}

#[test]
fn remove_player_who_is_not_in_the_room_changes_nothing() {
    let mut room = Room::new(0);
    join(&mut room, 2, "bob", 2).unwrap();
    assert!(room.remove_player(ALICE, 50).is_none());
    assert_eq!(room.players.len(), 1);
    assert_eq!(room.simulation.world.len(), 1);
    assert_eq!(room.last_activity, 2);
    assert!(room.remove_player(2, 60).is_some());
    assert!(room.remove_player(2, 70).is_none());
    assert_eq!(room.last_activity, 60);
    assert!(room.is_empty());
}

#[test]
fn update_player_activity_notes_the_time() {
    let mut room = Room::new(0);
    join(&mut room, 2, "bob", 2).unwrap();
    assert!(room.update_player_activity(2, 77));
    assert_eq!(room.players.get(&2).unwrap().last_seen, 77);
    assert_eq!(room.players.get(&2).unwrap().name, "bob");
    assert!(!room.update_player_activity(3, 78));
    assert_eq!(room.players.len(), 1);
    assert_eq!(room.last_activity, 2);
}

#[test]
fn cleanup_removes_players_silent_for_more_than_two_minutes() {
    assert_eq!(PLAYER_IDLE_TIMEOUT_MS, 120_000);
    let mut room = Room::new(0);
    join(&mut room, 1, "old", 1_000).unwrap();
    join(&mut room, 2, "edge", 10_000).unwrap();
    join(&mut room, 3, "fresh", 100_000).unwrap();
    let now = 130_000;
    let notices = room.cleanup_inactive_players(now);
    assert_eq!(notices.len(), 1);
    assert_eq!(notices[0].player_id, 1);
    assert_eq!(notices[0].body, Some(1));
    assert_eq!(
        notices[0].message,
        ServerMessage::PlayerLeft { player_id: "00000000-0000-0000-0000-000000000001".to_string() }
    );
    assert_eq!(sorted(notices[0].recipients.clone()), vec![2, 3]);
    assert_eq!(sorted(room.roster()), vec![2, 3]);
    assert_eq!(room.simulation.world.len(), 2);
    assert_eq!(room.last_activity, now);
    assert!(room.cleanup_inactive_players(now).is_empty());
    assert_eq!(room.last_activity, now);
}

#[test]
fn cleanup_before_two_minutes_have_passed_removes_nobody() {
    let mut room = Room::new(0);
    join(&mut room, 1, "one", 0).unwrap();
    assert!(room.cleanup_inactive_players(119_999).is_empty());
    assert!(room.cleanup_inactive_players(120_000).is_empty());
    assert_eq!(room.players.len(), 1);
    assert_eq!(room.cleanup_inactive_players(120_001).len(), 1);
    assert!(room.is_empty());
}

#[test]
fn cleanup_removes_every_idle_player() {
    let mut room = Room::new(0);
    for id in 1..=5u128 {
        join(&mut room, id, "p", id as u64).unwrap();
    }
    room.update_player_activity(4, 500_000);
    let notices = room.cleanup_inactive_players(500_000);
    assert_eq!(sorted(notices.iter().map(|n| n.player_id).collect()), vec![1, 2, 3, 5]);
    for notice in &notices {
        assert!(!notice.recipients.contains(&notice.player_id));
        assert!(notice.recipients.contains(&4));
    }
    assert_eq!(room.roster(), vec![4]);
    assert_eq!(room.simulation.world.len(), 1);
    assert_eq!(room.simulation.entity_to_body.len(), 1);
}

#[test]
fn room_expires_after_five_empty_minutes() {
    assert_eq!(EMPTY_ROOM_TIMEOUT_MS, 300_000);
    let mut room = Room::new(1_000);
    assert!(!room.is_expired(1_000));
    assert!(!room.is_expired(301_000));
    assert!(room.is_expired(301_001));
    assert!(!room.is_expired(0));
    join(&mut room, 1, "one", 2_000).unwrap();
    assert!(!room.is_expired(900_000));
    room.remove_player(1, 3_000);
    assert!(!room.is_expired(303_000));
    assert!(room.is_expired(303_001));
}

#[test]
fn room_joined_message_names_room_player_and_ship() {
    let mut room = Room::new(0);
    let ship = join(&mut room, ALICE, "alice", 1).unwrap();
    assert_eq!(
        room.room_joined_message(ALICE),
        ServerMessage::RoomJoined {
            room_code: room.code.as_str().to_string(),
            player_id: ALICE_TEXT.to_string(),
            entity_id: hecs::Entity::from_bits(ship).unwrap().id() as u64,
        }
    );
    assert_eq!(
        room.room_joined_message(u128::MAX),
        ServerMessage::RoomJoined {
            room_code: room.code.as_str().to_string(),
            player_id: "ffffffff-ffff-ffff-ffff-ffffffffffff".to_string(),
            entity_id: 0,
        }
    );
}

#[test]
fn player_ids_are_written_as_uuid_does() {
    let room = Room::new(0);
    for id in [0u128, 1, ALICE, u128::MAX, 0x0123456789abcdef_fedcba9876543210] {
        let expected = uuid::Uuid::from_u128(id).hyphenated().to_string();
        match room.room_joined_message(id) {
            ServerMessage::RoomJoined { player_id, .. } => assert_eq!(player_id, expected),
            other => panic!("unexpected message {:?}", other),
        }
    }
}

#[test]
fn connection_actions() {
    let join = ClientMessage::Join { room_code: "ABCD1234".to_string(), player_name: "a".to_string() };
    let input = ClientMessage::Input { sequence: 1, timestamp: 2, data: vec![1, 2, 3] };
    let ping = ClientMessage::Ping { timestamp: 3 };
    let debug = ClientMessage::RequestDebugRender { timestamp: 4 };
    let leave = ClientMessage::Leave;
    assert_eq!(join.action(false), ConnectionAction::Join);
    assert_eq!(join.action(true), ConnectionAction::Join);
    assert_eq!(input.action(false), ConnectionAction::Ignore);
    assert_eq!(input.action(true), ConnectionAction::ForwardInput);
    assert_eq!(ping.action(false), ConnectionAction::Pong { touch: false });
    assert_eq!(ping.action(true), ConnectionAction::Pong { touch: true });
    assert_eq!(debug.action(false), ConnectionAction::Ignore);
    assert_eq!(debug.action(true), ConnectionAction::SendDebugRender);
    assert_eq!(leave.action(false), ConnectionAction::Close { leave: false });
    assert_eq!(leave.action(true), ConnectionAction::Close { leave: true });
}
