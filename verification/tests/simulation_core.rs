use cosmic_crunchers::components::{
    Collider, Health, Lifetime, Player, Projectile, RigidBody, Ship, Transform, Velocity, Weapon,
};
use cosmic_crunchers::input::{InputBuffer, InputData};
use cosmic_crunchers::simulation::{BodyLink, GameSimulation, RecordedInput, SIM_TICK_RATE};
use cosmic_crunchers::snapshot::EntityType;
use cosmic_crunchers::systems::DiscardReport;

const ALICE: u128 = 0xa1a2a3a4_b1b2_c1c2_d1d2_d3d4d5d6d7d8;
const BOB: u128 = 0x0000_0000_0000_0000_0000_0000_0000_0b0b;

fn bits(x: f32, y: f32) -> [u32; 2] {
    [x.to_bits(), y.to_bits()]
}

fn frame(sequence: u32, thrust: f32) -> InputData {
    InputData {
        sequence,
        timestamp: 0,
        thrust: thrust.to_bits(),
        turn: 0.0f32.to_bits(),
        primary_fire: false,
        secondary_fire: false,
    }
}

fn spawn(sim: &mut GameSimulation, id: u128, name: &str, body: u64) -> u64 {
    sim.spawn_player_ship(
        id,
        name.to_string(),
        bits(100.0, 0.0),
        2.5f32.to_bits(),
        BodyLink { body, collider: body + 1000 },
    )
}

fn handle(entity: u64) -> hecs::Entity {
    hecs::Entity::from_bits(entity).unwrap()
}

fn queue_of(sim: &GameSimulation, entity: u64) -> InputBuffer {
    (*sim.world.get::<&InputBuffer>(handle(entity)).unwrap()).clone()
}

#[test]
fn new_simulation_is_empty() {
    let sim = GameSimulation::new();
    assert_eq!(sim.tick, 0);
    assert_eq!(sim.snapshot_sequence, 0);
    assert_eq!(sim.world.len(), 0);
    assert!(sim.entity_to_body.is_empty());
    assert!(sim.body_to_entity.is_empty());
    assert!(sim.input_recorder.is_none());
    assert_eq!(SIM_TICK_RATE, 15);
}

#[test]
fn spawn_player_ship_sets_every_component() {
    let mut sim = GameSimulation::new();
    let entity = spawn(&mut sim, ALICE, "alice", 7);
    let e = handle(entity);
    assert!(sim.world.contains(e));
    assert_eq!(sim.world.len(), 1);
    assert_eq!(
        *sim.world.get::<&Transform>(e).unwrap(),
        Transform { position: bits(100.0, 0.0), rotation: 0.0f32.to_bits() }
    );
    assert_eq!(*sim.world.get::<&Velocity>(e).unwrap(), Velocity::default());
    assert_eq!(*sim.world.get::<&Health>(e).unwrap(), Health::default());
    assert_eq!(
        *sim.world.get::<&Player>(e).unwrap(),
        Player { id: ALICE, name: "alice".to_string(), score: 0, kills: 0, deaths: 0, credits: 0 }
    );
    let queue = queue_of(&sim, entity);
    assert!(queue.buffer.is_empty());
    assert_eq!(queue.last_processed_sequence, 0);
    assert_eq!(queue.max_buffer_size, 60);
    assert_eq!(
        *sim.world.get::<&Ship>(e).unwrap(),
        Ship { mass: 2.5f32.to_bits(), size: 8.0f32.to_bits(), ..Ship::default() }
    );
    assert_eq!(*sim.world.get::<&Weapon>(e).unwrap(), Weapon::new_starting());
    assert_eq!(*sim.world.get::<&RigidBody>(e).unwrap(), RigidBody { handle: 7 });
    assert_eq!(*sim.world.get::<&Collider>(e).unwrap(), Collider { handle: 1007 });
    assert!(sim.world.get::<&Projectile>(e).is_err());
    assert!(sim.world.get::<&Lifetime>(e).is_err());
}

#[test]
fn links_pair_entities_and_bodies() {
    let mut sim = GameSimulation::new();
    let first = spawn(&mut sim, ALICE, "alice", 7);
    let second = spawn(&mut sim, BOB, "bob", 8);
    assert_ne!(first, second);
    assert_eq!(sim.entity_to_body.len(), 2);
    assert_eq!(sim.body_to_entity.len(), 2);
    for (entity, body) in sim.entity_to_body.iter() {
        assert_eq!(sim.body_to_entity.get(body), Some(entity));
        assert_eq!(sim.world.get::<&RigidBody>(handle(*entity)).unwrap().handle, *body);
    }
    assert_eq!(sim.entity_to_body.get(&first), Some(&7));
    assert_eq!(sim.body_to_entity.get(&8), Some(&second));
    assert_eq!(sim.despawn_entity(first), Some(7));
    assert_eq!(sim.entity_to_body.len(), 1);
    assert_eq!(sim.body_to_entity.len(), 1);
    assert_eq!(sim.entity_to_body.get(&second), Some(&8));
    assert_eq!(sim.body_to_entity.get(&7), None);
}

#[test]
fn despawn_is_idempotent() {
    let mut sim = GameSimulation::new();
    let first = spawn(&mut sim, ALICE, "alice", 7);
    let second = spawn(&mut sim, BOB, "bob", 8);
    assert_eq!(sim.despawn_entity(first), Some(7));
    assert!(!sim.world.contains(handle(first)));
    assert_eq!(sim.world.len(), 1);
    assert_eq!(sim.despawn_entity(first), None);
    assert_eq!(sim.world.len(), 1);
    assert!(sim.world.contains(handle(second)));
    assert_eq!(sim.entity_to_body.len(), 1);
    assert_eq!(sim.body_to_entity.len(), 1);
    assert_eq!(sim.tick, 0);
}

#[test]
fn despawn_of_an_unknown_entity_changes_nothing() {
    let mut sim = GameSimulation::new();
    let entity = spawn(&mut sim, ALICE, "alice", 7);
    assert_eq!(sim.despawn_entity(0), None);
    assert_eq!(sim.despawn_entity(entity ^ (1 << 40)), None);
    assert_eq!(sim.world.len(), 1);
    assert_eq!(sim.entity_to_body.get(&entity), Some(&7));
}

#[test]
fn add_player_input_reaches_the_players_queue() {
    let mut sim = GameSimulation::new();
    let alice = spawn(&mut sim, ALICE, "alice", 7);
    let bob = spawn(&mut sim, BOB, "bob", 8);
    assert!(sim.add_player_input(BOB, frame(2, 0.5)));
    assert!(sim.add_player_input(BOB, frame(1, 0.25)));
    let queue = queue_of(&sim, bob);
    assert_eq!(queue.buffer.iter().map(|i| i.sequence).collect::<Vec<u32>>(), vec![1, 2]);
    assert!(queue_of(&sim, alice).buffer.is_empty());
}

#[test]
fn add_player_input_for_an_unknown_player_is_dropped() {
    let mut sim = GameSimulation::new();
    let alice = spawn(&mut sim, ALICE, "alice", 7);
    assert!(!sim.add_player_input(BOB, frame(1, 0.5)));
    assert!(queue_of(&sim, alice).buffer.is_empty());
    assert_eq!(sim.world.len(), 1);
}

#[test]
fn input_queue_never_exceeds_capacity() {
    let mut sim = GameSimulation::new();
    let alice = spawn(&mut sim, ALICE, "alice", 7);
    for sequence in 1..=200 {
        assert!(sim.add_player_input(ALICE, frame(sequence, 0.0)));
        assert!(queue_of(&sim, alice).buffer.len() <= 60);
    }
    let queue = queue_of(&sim, alice);
    assert_eq!(queue.buffer.len(), 60);
    assert_eq!(queue.buffer.front().unwrap().sequence, 141);
}

#[test]
fn recording_collects_inputs_with_their_tick() {
    let mut sim = GameSimulation::new();
    spawn(&mut sim, ALICE, "alice", 7);
    assert_eq!(sim.disable_recording(), None);
    sim.add_player_input(ALICE, frame(1, 0.1));
    sim.enable_recording();
    sim.add_player_input(ALICE, frame(2, 0.2));
    sim.complete_step(0);
    sim.add_player_input(BOB, frame(9, 0.9));
    let recorded = sim.disable_recording().unwrap();
    assert_eq!(
        recorded,
        vec![
            RecordedInput { tick: 0, player_id: ALICE, input: frame(2, 0.2) },
            RecordedInput { tick: 1, player_id: BOB, input: frame(9, 0.9) },
        ]
    );
    assert!(sim.input_recorder.is_none());
    assert_eq!(sim.disable_recording(), None);
}

#[test]
fn recording_that_is_switched_off_collects_nothing() {
    let mut sim = GameSimulation::new();
    spawn(&mut sim, ALICE, "alice", 7);
    sim.enable_recording();
    sim.input_recorder.as_mut().unwrap().is_recording = false;
    sim.add_player_input(ALICE, frame(1, 0.1));
    assert_eq!(sim.disable_recording(), Some(vec![]));
}

#[test]
fn latest_wins_input() {
    let mut sim = GameSimulation::new();
    let alice = spawn(&mut sim, ALICE, "alice", 7);
    sim.world.get::<&mut InputBuffer>(handle(alice)).unwrap().last_processed_sequence = 4;
    sim.add_player_input(ALICE, frame(5, 0.2));
    sim.add_player_input(ALICE, frame(6, 0.5));
    sim.add_player_input(ALICE, frame(7, 1.0));
    let reports = sim.prepare_inputs();
    assert_eq!(reports, vec![DiscardReport { entity: alice, player_id: ALICE, discarded: 2 }]);
    let mut queue = queue_of(&sim, alice);
    assert_eq!(queue.last_processed_sequence, 7);
    assert_eq!(queue.buffer.len(), 1);
    let pending = queue.take_pending().unwrap();
    assert_eq!(pending.sequence, 7);
    assert_eq!(f32::from_bits(pending.thrust), 1.0);
}

#[test]
fn prepare_inputs_treats_every_ship_on_its_own() {
    let mut sim = GameSimulation::new();
    let alice = spawn(&mut sim, ALICE, "alice", 7);
    let bob = spawn(&mut sim, BOB, "bob", 8);
    sim.add_player_input(ALICE, frame(1, 0.1));
    sim.add_player_input(ALICE, frame(2, 0.2));
    sim.add_player_input(BOB, frame(3, 0.3));
    let mut reports = sim.prepare_inputs();
    reports.sort_by_key(|report| report.player_id);
    assert_eq!(
        reports,
        vec![
            DiscardReport { entity: bob, player_id: BOB, discarded: 0 },
            DiscardReport { entity: alice, player_id: ALICE, discarded: 1 },
        ]
    );
    assert_eq!(queue_of(&sim, alice).buffer.len(), 1);
    assert_eq!(queue_of(&sim, alice).last_processed_sequence, 2);
    assert_eq!(queue_of(&sim, bob).buffer.len(), 1);
    assert_eq!(queue_of(&sim, bob).last_processed_sequence, 0);
}

#[test]
fn prepare_inputs_passes_over_a_seat_without_a_ship() {
    let mut sim = GameSimulation::new();
    let alice = spawn(&mut sim, ALICE, "alice", 7);
    sim.world.remove_one::<Ship>(handle(alice)).unwrap();
    sim.add_player_input(ALICE, frame(1, 0.1));
    sim.add_player_input(ALICE, frame(2, 0.2));
    assert_eq!(sim.prepare_inputs(), vec![]);
    assert_eq!(queue_of(&sim, alice).buffer.len(), 2);
    assert_eq!(queue_of(&sim, alice).last_processed_sequence, 0);
}

#[test]
fn spawn_and_idle() {
    let mut sim = GameSimulation::new();
    let alice = spawn(&mut sim, ALICE, "alice", 7);
    let mut last_sequence = 0;
    let mut last_tick = 0;
    for step in 1..=15u64 {
        assert_eq!(sim.prepare_inputs().len(), 1);
        let result = sim.complete_step(1_700_000_000_000 + step);
        assert_eq!(result.tick, step);
        assert_eq!(result.entity_count, 1);
        let snapshot = result.snapshot.unwrap();
        assert!(snapshot.sequence > last_sequence);
        assert!(snapshot.tick > last_tick);
        assert_eq!(snapshot.timestamp, 1_700_000_000_000 + step);
        last_sequence = snapshot.sequence;
        last_tick = snapshot.tick;
        assert_eq!(snapshot.entities.len(), 1);
    }
    assert_eq!(sim.tick, 15);
    assert_eq!(sim.snapshot_sequence, 15);
    let snapshot = sim.generate_snapshot(0);
    let shown = &snapshot.entities[0];
    assert_eq!(shown.entity_id, handle(alice).id() as u64);
    assert!((f32::from_bits(shown.transform.position[0]) - 100.0).abs() < 1e-3);
    assert!(f32::from_bits(shown.transform.position[1]).abs() < 1e-3);
    assert_eq!(f32::from_bits(shown.velocity.linear[0]), 0.0);
    assert_eq!(f32::from_bits(shown.velocity.linear[1]), 0.0);
    assert_eq!(f32::from_bits(shown.health.shield), 50.0);
}

#[test]
fn snapshot_shows_players_then_projectiles() {
    let mut sim = GameSimulation::new();
    let alice = spawn(&mut sim, ALICE, "alice", 7);
    let shot = sim.spawn_projectile(
        Transform { position: bits(115.0, 0.0), rotation: 0.0f32.to_bits() },
        bits(300.0, 0.0),
        300.0f32.to_bits(),
        25.0f32.to_bits(),
        ALICE,
        BodyLink { body: 9, collider: 1009 },
    );
    sim.world.spawn((Velocity::default(), Health::default()));
    let snapshot = sim.generate_snapshot(42);
    assert_eq!(snapshot.sequence, 0);
    assert_eq!(snapshot.tick, 0);
    assert_eq!(snapshot.timestamp, 42);
    assert_eq!(snapshot.entities.len(), 2);
    let ship = &snapshot.entities[0];
    assert_eq!(ship.entity_id, handle(alice).id() as u64);
    assert_eq!(
        ship.entity_type,
        EntityType::Player(Player {
            id: ALICE,
            name: "alice".to_string(),
            score: 0,
            kills: 0,
            deaths: 0,
            credits: 0,
        })
    );
    assert_eq!(ship.health, Health::default());
    assert_eq!(ship.ship, Some(Ship { mass: 2.5f32.to_bits(), ..Ship::default() }));
    let projectile = &snapshot.entities[1];
    assert_eq!(projectile.entity_id, handle(shot).id() as u64);
    assert_eq!(
        projectile.entity_type,
        EntityType::Projectile(Projectile {
            damage: 25.0f32.to_bits(),
            lifetime: 3.0f32.to_bits(),
            speed: 300.0f32.to_bits(),
            owner_id: ALICE,
        })
    );
    assert_eq!(projectile.transform.position, bits(115.0, 0.0));
    assert_eq!(projectile.velocity, Velocity { linear: bits(300.0, 0.0), angular: 0 });
    assert_eq!(projectile.health, Health::default());
    assert_eq!(projectile.ship, None);
}

#[test]
fn snapshot_fills_in_what_a_player_does_not_carry() {
    let mut sim = GameSimulation::new();
    let bare = sim.world.spawn((
        Transform::default(),
        Player { id: BOB, name: "bob".to_string(), score: 1, kills: 2, deaths: 3, credits: 4 },
    ));
    let snapshot = sim.generate_snapshot(0);
    assert_eq!(snapshot.entities.len(), 1);
    let shown = &snapshot.entities[0];
    assert_eq!(shown.entity_id, bare.id() as u64);
    assert_eq!(shown.velocity, Velocity::default());
    assert_eq!(shown.health, Health::default());
    assert_eq!(shown.ship, None);
}

#[test]
fn projectile_spawn_sets_lifetime_and_link() {
    let mut sim = GameSimulation::new();
    let shot = sim.spawn_projectile(
        Transform { position: bits(15.0, 0.0), rotation: 0.0f32.to_bits() },
        bits(300.0, 0.0),
        300.0f32.to_bits(),
        25.0f32.to_bits(),
        ALICE,
        BodyLink { body: 9, collider: 1009 },
    );
    let e = handle(shot);
    assert_eq!(f32::from_bits(sim.world.get::<&Lifetime>(e).unwrap().remaining), 3.0);
    assert_eq!(f32::from_bits(sim.world.get::<&Projectile>(e).unwrap().lifetime), 3.0);
    assert_eq!(*sim.world.get::<&RigidBody>(e).unwrap(), RigidBody { handle: 9 });
    assert_eq!(*sim.world.get::<&Collider>(e).unwrap(), Collider { handle: 1009 });
    assert_eq!(sim.entity_to_body.get(&shot), Some(&9));
    assert_eq!(sim.body_to_entity.get(&9), Some(&shot));
    assert!(sim.world.get::<&Player>(e).is_err());
    assert!(sim.world.get::<&InputBuffer>(e).is_err());
}

#[test]
fn projectile_expiry() {
    let mut sim = GameSimulation::new();
    spawn(&mut sim, ALICE, "alice", 7);
    let shot = sim.spawn_projectile(
        Transform { position: bits(15.0, 0.0), rotation: 0.0f32.to_bits() },
        bits(300.0, 0.0),
        300.0f32.to_bits(),
        25.0f32.to_bits(),
        ALICE,
        BodyLink { body: 9, collider: 1009 },
    );
    let shot_id = handle(shot).id() as u64;
    let dt = 1.0f32 / 15.0;
    let mut removed_body = None;
    let mut ticks = 0;
    while removed_body.is_none() {
        ticks += 1;
        assert!(ticks <= 46);
        let mut expired = Vec::new();
        for (entity, lifetime) in sim.world.query_mut::<(hecs::Entity, &mut Lifetime)>() {
            let remaining = f32::from_bits(lifetime.remaining) - dt;
            lifetime.remaining = remaining.to_bits();
            if remaining <= 0.0 {
                expired.push(entity.to_bits().get());
            }
        }
        for entity in expired {
            removed_body = sim.despawn_entity(entity);
        }
        let snapshot = sim.complete_step(0).snapshot.unwrap();
        let shown = snapshot.entities.iter().any(|e| e.entity_id == shot_id
            && matches!(e.entity_type, EntityType::Projectile(_)));
        assert_eq!(shown, removed_body.is_none());
    }
    assert!(ticks >= 45);
    assert_eq!(removed_body, Some(9));
    assert!(!sim.world.contains(handle(shot)));
    assert_eq!(sim.body_to_entity.get(&9), None);
    for _ in 0..5 {
        let snapshot = sim.complete_step(0).snapshot.unwrap();
        assert_eq!(snapshot.entities.len(), 1);
        assert!(matches!(snapshot.entities[0].entity_type, EntityType::Player(_)));
    }
}

#[test]
fn complete_step_counts_ticks_and_snapshots() {
    let mut sim = GameSimulation::new();
    sim.tick = 41;
    sim.snapshot_sequence = 7;
    let result = sim.complete_step(99);
    assert_eq!(result.tick, 42);
    assert_eq!(result.entity_count, 0);
    let snapshot = result.snapshot.unwrap();
    assert_eq!(snapshot.sequence, 8);
    assert_eq!(snapshot.tick, 42);
    assert_eq!(snapshot.timestamp, 99);
    assert!(snapshot.entities.is_empty());
    assert_eq!(sim.tick, 42);
    assert_eq!(sim.snapshot_sequence, 8);
}

#[test]
fn despawn_entities_frees_each_body_once() {
    let mut sim = GameSimulation::new();
    let first = spawn(&mut sim, ALICE, "alice", 7);
    let second = spawn(&mut sim, BOB, "bob", 8);
    let loose = sim.world.spawn((Transform::default(),)).to_bits().get();
    let bodies = sim.despawn_entities(&vec![second, loose, second, 0, first]);
    assert_eq!(bodies, vec![8, 7]);
    assert_eq!(sim.world.len(), 0);
    assert!(sim.entity_to_body.is_empty());
    assert!(sim.body_to_entity.is_empty());
    assert_eq!(sim.despawn_entities(&vec![]), vec![]);
}
