//! One room's simulation: the entity store, its links to physics bodies,
//! the tick and snapshot counters and the input recorder.
//!
//! A tick is driven from outside. The host has the inputs prepared, lets
//! weapons and engines act on the pending frames, advances the physics
//! world, has it mirrored into the components, runs the lifetime, health
//! and boundary systems, and then has the tick completed, which counts it
//! and yields the snapshot.

use crate::components::{
    Collider, Health, Lifetime, Player, PlayerView, Projectile, RigidBody, Ship, Transform,
    Velocity, Weapon, PROJECTILE_LIFETIME, SHIP_MAX_SPEED, SHIP_SIZE, SHIP_THRUST_POWER,
    SHIP_TURN_RATE, ZERO,
};
use crate::input::{Bits32, InputBuffer, InputBufferView, InputData, INPUT_BUFFER_CAPACITY};
use crate::queries::{world_body_link, world_spawn_projectile, world_spawn_ship};
use crate::snapshot::{snapshot_entities, GameSnapshot, GameSnapshotView};
use crate::store::{world_despawn, world_order, world_records, Entity, EntityRecord};
use crate::wire_format::{drawn_world, BodyProbe, ColliderProbe, DebugRenderData, JointProbe};
use std::collections::HashMap;
use vstd::prelude::*;

verus! {

/// Ticks per second. A snapshot is produced on every tick.
pub const SIM_TICK_RATE: u32 = 15;

/// One input as it arrived, for replay.
#[derive(Debug, Clone, Copy, PartialEq, Eq)]
pub struct RecordedInput {
    pub tick: u64,
    pub player_id: u128,
    pub input: InputData,
}

/// The inputs recorded so far, and whether recording goes on.
#[derive(Debug)]
pub struct InputRecorder {
    pub recorded_inputs: Vec<RecordedInput>,
    pub is_recording: bool,
}

/// An `InputRecorder` as plain values.
pub struct InputRecorderView {
    pub recorded_inputs: Seq<RecordedInput>,
    pub is_recording: bool,
}

impl View for InputRecorder {
    type V = InputRecorderView;

    open spec fn view(&self) -> InputRecorderView {
        InputRecorderView {
            recorded_inputs: self.recorded_inputs@,
            is_recording: self.is_recording,
        }
    }
}

/// The physics body that the host has made for a new entity.
#[derive(Debug, Clone, Copy, PartialEq, Eq)]
pub struct BodyLink {
    pub body: u64,
    pub collider: u64,
}

/// State of one room's simulation.
pub struct GameSimulation {
    /// Every entity and its components.
    pub world: hecs::World,
    /// From an entity to its physics body.
    pub entity_to_body: HashMap<Entity, u64>,
    /// From a physics body to its entity.
    pub body_to_entity: HashMap<u64, Entity>,
    /// Number of completed ticks.
    pub tick: u64,
    /// Number of the last snapshot.
    pub snapshot_sequence: u32,
    pub input_recorder: Option<InputRecorder>,
}

/// A `GameSimulation` as plain values.
pub struct SimulationView {
    pub records: Map<Entity, EntityRecord>,
    pub entity_to_body: Map<Entity, u64>,
    pub body_to_entity: Map<u64, Entity>,
    pub tick: u64,
    pub snapshot_sequence: u32,
    pub input_recorder: Option<InputRecorderView>,
}

impl View for GameSimulation {
    type V = SimulationView;

    open spec fn view(&self) -> SimulationView {
        SimulationView {
            records: world_records(self.world),
            entity_to_body: self.entity_to_body@,
            body_to_entity: self.body_to_entity@,
            tick: self.tick,
            snapshot_sequence: self.snapshot_sequence,
            input_recorder: match self.input_recorder {
                Some(recorder) => Some(recorder@),
                None => None,
            },
        }
    }
}

impl SimulationView {
    /// A simulation before its first tick, without entities.
    pub open spec fn initial() -> SimulationView {
        SimulationView {
            records: Map::empty(),
            entity_to_body: Map::empty(),
            body_to_entity: Map::empty(),
            tick: 0,
            snapshot_sequence: 0,
            input_recorder: None,
        }
    }

    /// The two link maps are each other's inverse, and an entity is
    /// linked exactly if it is live and carries a `RigidBody`, to the
    /// body that this component names.
    pub open spec fn links_agree(self) -> bool {
        &&& forall|e: Entity| #[trigger]
            self.entity_to_body.contains_key(e) ==> self.body_to_entity.contains_key(
                self.entity_to_body[e],
            ) && self.body_to_entity[self.entity_to_body[e]] == e
        &&& forall|b: u64| #[trigger]
            self.body_to_entity.contains_key(b) ==> self.entity_to_body.contains_key(
                self.body_to_entity[b],
            ) && self.entity_to_body[self.body_to_entity[b]] == b
        &&& forall|e: Entity| #[trigger]
            self.entity_to_body.contains_key(e) <==> self.records.contains_key(e)
                && self.records[e].rigid_body.is_some()
        &&& forall|e: Entity| #[trigger]
            self.entity_to_body.contains_key(e) ==> self.records[e].rigid_body == Some(
                RigidBody { handle: self.entity_to_body[e] },
            )
    }

    /// The body that `entity` is linked to by its `RigidBody` component.
    pub open spec fn body_of(self, entity: Entity) -> Option<u64> {
        if self.records.contains_key(entity) && self.records[entity].rigid_body.is_some() {
            Some(self.records[entity].rigid_body.unwrap().handle)
        } else {
            None
        }
    }

    /// The simulation with a new entity and its link.
    pub open spec fn spawned(self, entity: Entity, record: EntityRecord, body: u64) -> SimulationView {
        SimulationView {
            records: self.records.insert(entity, record),
            entity_to_body: self.entity_to_body.insert(entity, body),
            body_to_entity: self.body_to_entity.insert(body, entity),
            ..self
        }
    }

    /// The simulation without `entity`: its record is gone, and so is its
    /// link if it had a `RigidBody`.
    pub open spec fn despawned(self, entity: Entity) -> SimulationView {
        match self.body_of(entity) {
            Some(body) => SimulationView {
                records: self.records.remove(entity),
                entity_to_body: self.entity_to_body.remove(entity),
                body_to_entity: self.body_to_entity.remove(body),
                ..self
            },
            None => SimulationView { records: self.records.remove(entity), ..self },
        }
    }

    /// The simulation without the entities `entities`, removed one after
    /// the other.
    pub open spec fn despawned_all(self, entities: Seq<Entity>) -> SimulationView
        decreases entities.len(),
    {
        if entities.len() == 0 {
            self
        } else {
            self.despawned_all(entities.drop_last()).despawned(entities.last())
        }
    }

    /// The physics bodies that removing `entities` one after the other
    /// sets free, in that order.
    pub open spec fn bodies_freed(self, entities: Seq<Entity>) -> Seq<u64>
        decreases entities.len(),
    {
        if entities.len() == 0 {
            Seq::empty()
        } else {
            let freed = self.bodies_freed(entities.drop_last());
            match self.despawned_all(entities.drop_last()).body_of(entities.last()) {
                Some(body) => freed.push(body),
                None => freed,
            }
        }
    }
}

/// The record of a player's ship at its spawn.
pub open spec fn new_ship_record(
    player_id: u128,
    name: Seq<char>,
    spawn_position: [Bits32; 2],
    mass: Bits32,
    link: BodyLink,
) -> EntityRecord {
    EntityRecord::ship(
        Transform { position: spawn_position, rotation: ZERO },
        Velocity { linear: [ZERO, ZERO], angular: ZERO },
        Health::fresh(),
        PlayerView::joining(player_id, name),
        InputBufferView {
            frames: Seq::empty(),
            last_processed_sequence: 0,
            max_buffer_size: INPUT_BUFFER_CAPACITY,
        },
        Ship::stock(mass, SHIP_SIZE),
        Weapon::starting(),
        RigidBody { handle: link.body },
        Collider { handle: link.collider },
    )
}

/// The record of a projectile at its spawn.
pub open spec fn new_projectile_record(
    transform: Transform,
    linear_velocity: [Bits32; 2],
    speed: Bits32,
    damage: Bits32,
    owner_id: u128,
    link: BodyLink,
) -> EntityRecord {
    EntityRecord::projectile(
        transform,
        Velocity { linear: linear_velocity, angular: ZERO },
        Projectile { damage, lifetime: PROJECTILE_LIFETIME, speed, owner_id },
        Lifetime { remaining: PROJECTILE_LIFETIME },
        RigidBody { handle: link.body },
        Collider { handle: link.collider },
    )
}

/// Removing an entity twice leaves what removing it once leaves.
pub proof fn lemma_despawn_idempotent(state: SimulationView, entity: Entity)
    ensures
        state.despawned(entity).despawned(entity) == state.despawned(entity),
{
    let once = state.despawned(entity);
    assert(!once.records.contains_key(entity));
    assert(once.records.remove(entity) == once.records);
}

/// Removing an entity keeps the links in agreement with the store.
pub proof fn lemma_despawn_keeps_links(state: SimulationView, entity: Entity)
    requires
        state.links_agree(),
    ensures
        state.despawned(entity).links_agree(),
{
    let after = state.despawned(entity);
    match state.body_of(entity) {
        Some(body) => {
            assert(state.entity_to_body.contains_key(entity));
            assert(state.entity_to_body[entity] == body);
            assert forall|e: Entity| #[trigger]
                after.entity_to_body.contains_key(e) implies after.body_to_entity.contains_key(
                after.entity_to_body[e],
            ) && after.body_to_entity[after.entity_to_body[e]] == e by {
                assert(state.entity_to_body.contains_key(e));
                if state.entity_to_body[e] == body {
                    assert(state.body_to_entity[body] == entity);
                }
            }
            assert forall|b: u64| #[trigger]
                after.body_to_entity.contains_key(b) implies after.entity_to_body.contains_key(
                after.body_to_entity[b],
            ) && after.entity_to_body[after.body_to_entity[b]] == b by {
                assert(state.body_to_entity.contains_key(b));
                if state.body_to_entity[b] == entity {
                    assert(state.entity_to_body[entity] == b);
                }
            }
        },
        None => {
            assert(!state.entity_to_body.contains_key(entity));
            assert forall|b: u64| #[trigger]
                after.body_to_entity.contains_key(b) implies after.entity_to_body.contains_key(
                after.body_to_entity[b],
            ) && after.entity_to_body[after.body_to_entity[b]] == b by {
                assert(state.body_to_entity.contains_key(b));
            }
        },
    }
}

/// Spawning an entity that was not live, on a body that was not linked,
/// keeps the links in agreement with the store.
pub proof fn lemma_spawn_keeps_links(
    state: SimulationView,
    entity: Entity,
    record: EntityRecord,
    body: u64,
)
    requires
        state.links_agree(),
        !state.records.contains_key(entity),
        !state.body_to_entity.contains_key(body),
        record.rigid_body == Some(RigidBody { handle: body }),
    ensures
        state.spawned(entity, record, body).links_agree(),
{
    let after = state.spawned(entity, record, body);
    assert(!state.entity_to_body.contains_key(entity));
    assert forall|e: Entity| #[trigger]
        after.entity_to_body.contains_key(e) implies after.body_to_entity.contains_key(
        after.entity_to_body[e],
    ) && after.body_to_entity[after.entity_to_body[e]] == e by {
        if e != entity {
            assert(state.entity_to_body.contains_key(e));
            assert(state.body_to_entity.contains_key(state.entity_to_body[e]));
        }
    }
    assert forall|b: u64| #[trigger]
        after.body_to_entity.contains_key(b) implies after.entity_to_body.contains_key(
        after.body_to_entity[b],
    ) && after.entity_to_body[after.body_to_entity[b]] == b by {
        if b != body {
            assert(state.body_to_entity.contains_key(b));
            assert(state.entity_to_body.contains_key(state.body_to_entity[b]));
        }
    }
}

/// What a completed tick hands to the host.
#[derive(Debug)]
pub struct SimulationStepResult {
    /// Number of ticks completed, this one included.
    pub tick: u64,
    /// Number of live entities.
    pub entity_count: u32,
    pub snapshot: Option<GameSnapshot>,
}

impl SimulationView {
    /// The simulation after one more tick has been counted.
    pub open spec fn tick_counted(self) -> SimulationView {
        SimulationView {
            tick: (self.tick + 1) as u64,
            snapshot_sequence: (self.snapshot_sequence + 1) as u32,
            ..self
        }
    }
}

/// A change that adds no entity, removes none and touches no link leaves
/// the links in agreement with the store.
pub proof fn lemma_queues_leave_links(before: SimulationView, after: SimulationView)
    requires
        after.entity_to_body == before.entity_to_body,
        after.body_to_entity == before.body_to_entity,
        after.records.dom() == before.records.dom(),
        forall|e: Entity| #[trigger]
            before.records.contains_key(e) ==> after.records[e].rigid_body
                == before.records[e].rigid_body,
    ensures
        before.links_agree() ==> after.links_agree(),
{
    if before.links_agree() {
        assert forall|e: Entity| #[trigger]
            after.entity_to_body.contains_key(e) <==> after.records.contains_key(e)
                && after.records[e].rigid_body.is_some() by {
            assert(before.entity_to_body.contains_key(e) <==> before.records.contains_key(e)
                && before.records[e].rigid_body.is_some());
        }
        assert forall|e: Entity| #[trigger]
            after.entity_to_body.contains_key(e) implies after.records[e].rigid_body == Some(
            RigidBody { handle: after.entity_to_body[e] },
        ) by {
            assert(before.entity_to_body.contains_key(e));
        }
    }
}

/// Counting a tick raises both the tick and the snapshot number, unless
/// one of them has reached the end of its range.
pub proof fn lemma_tick_counts_up(state: SimulationView)
    requires
        state.tick < u64::MAX,
        state.snapshot_sequence < u32::MAX,
    ensures
        state.tick_counted().tick > state.tick,
        state.tick_counted().snapshot_sequence > state.snapshot_sequence,
{
}

impl Default for GameSimulation {
    fn default() -> (sim: Self)
        ensures
            sim@ == SimulationView::initial(),
    {
        GameSimulation::new()
    }
}

impl GameSimulation {
    /// A simulation before its first tick, without entities.
    pub fn new() -> (sim: Self)
        ensures
            sim@ == SimulationView::initial(),
            sim@.links_agree(),
            world_order(sim.world) == Seq::<Entity>::empty(),
    {
        GameSimulation {
            world: hecs::World::new(),
            entity_to_body: HashMap::new(),
            body_to_entity: HashMap::new(),
            tick: 0,
            snapshot_sequence: 0,
            input_recorder: None,
        }
    }

    /// Starts a fresh recording of the inputs that arrive.
    pub fn enable_recording(&mut self)
        ensures
            final(self)@ == (SimulationView {
                input_recorder: Some(
                    InputRecorderView { recorded_inputs: Seq::empty(), is_recording: true },
                ),
                ..old(self)@
            }),
            world_order(final(self).world) == world_order(old(self).world),
            old(self)@.links_agree() ==> final(self)@.links_agree(),
    {
        self.input_recorder = Some(InputRecorder { recorded_inputs: Vec::new(), is_recording: true });
    }

    /// Ends the recording and hands out what was recorded, if a
    /// recording was under way.
    pub fn disable_recording(&mut self) -> (recorded: Option<Vec<RecordedInput>>)
        ensures
            final(self)@ == (SimulationView { input_recorder: None, ..old(self)@ }),
            world_order(final(self).world) == world_order(old(self).world),
            old(self)@.links_agree() ==> final(self)@.links_agree(),
            match recorded {
                Some(inputs) => old(self)@.input_recorder.is_some() && inputs@ == old(
                    self,
                )@.input_recorder.unwrap().recorded_inputs,
                None => old(self)@.input_recorder.is_none(),
            },
    {
        match self.input_recorder.take() {
            Some(recorder) => Some(recorder.recorded_inputs),
            None => None,
        }
    }

    /// Puts a player's ship into the store and links it to the physics
    /// body that the host has made for it at `spawn_position`. The ship
    /// starts at rest with heading zero, full health, an empty input
    /// queue and the starting weapon; `mass` is the mass that the body
    /// reports.
    pub fn spawn_player_ship(
        &mut self,
        player_id: u128,
        name: String,
        spawn_position: [Bits32; 2],
        mass: Bits32,
        link: BodyLink,
    ) -> (entity: Entity)
        requires
            old(self)@.records.len() < u32::MAX,
        ensures
            !old(self)@.records.contains_key(entity),
            final(self)@ == old(self)@.spawned(
                entity,
                new_ship_record(player_id, name@, spawn_position, mass, link),
                link.body,
            ),
            old(self)@.links_agree() && !old(self)@.body_to_entity.contains_key(link.body)
                ==> final(self)@.links_agree(),
            exists|at: int|
                0 <= at <= world_order(old(self).world).len() && world_order(final(self).world)
                    == world_order(old(self).world).insert(at, entity),
    {
        broadcast use vstd::std_specs::hash::group_hash_axioms;

        let player = Player { id: player_id, name, score: 0, kills: 0, deaths: 0, credits: 0 };
        let entity = world_spawn_ship(
            &mut self.world,
            Transform::from_vector(spawn_position, ZERO),
            Velocity::default(),
            Health::default(),
            player,
            InputBuffer::default(),
            Ship {
                thrust_power: SHIP_THRUST_POWER,
                turn_rate: SHIP_TURN_RATE,
                max_speed: SHIP_MAX_SPEED,
                mass,
                size: SHIP_SIZE,
            },
            Weapon::new_starting(),
            RigidBody { handle: link.body },
            Collider { handle: link.collider },
        );
        self.entity_to_body.insert(entity, link.body);
        self.body_to_entity.insert(link.body, entity);
        proof {
            if old(self)@.links_agree() && !old(self)@.body_to_entity.contains_key(link.body) {
                lemma_spawn_keeps_links(
                    old(self)@,
                    entity,
                    new_ship_record(player_id, name@, spawn_position, mass, link),
                    link.body,
                );
            }
        }
        entity
    }

    /// Puts a projectile into the store and links it to the physics body
    /// that the host has made for it. `transform` holds where it starts
    /// and the direction of `linear_velocity`; `speed` is the length of
    /// that velocity. The projectile gets its full lifetime.
    pub fn spawn_projectile(
        &mut self,
        transform: Transform,
        linear_velocity: [Bits32; 2],
        speed: Bits32,
        damage: Bits32,
        owner_id: u128,
        link: BodyLink,
    ) -> (entity: Entity)
        requires
            old(self)@.records.len() < u32::MAX,
        ensures
            !old(self)@.records.contains_key(entity),
            final(self)@ == old(self)@.spawned(
                entity,
                new_projectile_record(transform, linear_velocity, speed, damage, owner_id, link),
                link.body,
            ),
            old(self)@.links_agree() && !old(self)@.body_to_entity.contains_key(link.body)
                ==> final(self)@.links_agree(),
            exists|at: int|
                0 <= at <= world_order(old(self).world).len() && world_order(final(self).world)
                    == world_order(old(self).world).insert(at, entity),
    {
        broadcast use vstd::std_specs::hash::group_hash_axioms;

        let entity = world_spawn_projectile(
            &mut self.world,
            transform,
            Velocity::from_vector(linear_velocity, ZERO),
            Projectile { damage, lifetime: PROJECTILE_LIFETIME, speed, owner_id },
            Lifetime { remaining: PROJECTILE_LIFETIME },
            RigidBody { handle: link.body },
            Collider { handle: link.collider },
        );
        self.entity_to_body.insert(entity, link.body);
        self.body_to_entity.insert(link.body, entity);
        proof {
            if old(self)@.links_agree() && !old(self)@.body_to_entity.contains_key(link.body) {
                lemma_spawn_keeps_links(
                    old(self)@,
                    entity,
                    new_projectile_record(transform, linear_velocity, speed, damage, owner_id, link),
                    link.body,
                );
            }
        }
        entity
    }

    /// Removes an entity and its link, and names the physics body that
    /// the host has to remove with it. An entity that is not live is
    /// passed over: nothing changes and no body is named.
    pub fn despawn_entity(&mut self, entity: Entity) -> (body: Option<u64>)
        ensures
            body == old(self)@.body_of(entity),
            final(self)@ == old(self)@.despawned(entity),
            old(self)@.links_agree() ==> final(self)@.links_agree(),
            world_order(final(self).world).to_set() == world_order(old(self).world).to_set().remove(
                entity,
            ),
    {
        broadcast use vstd::std_specs::hash::group_hash_axioms;

        let body = match world_body_link(&self.world, entity) {
            Some(link) => {
                self.entity_to_body.remove(&entity);
                self.body_to_entity.remove(&link.handle);
                Some(link.handle)
            },
            None => None,
        };
        world_despawn(&mut self.world, entity);
        proof {
            if old(self)@.links_agree() {
                lemma_despawn_keeps_links(old(self)@, entity);
            }
        }
        body
    }

    /// Removes the entities `entities` one after the other, as
    /// `despawn_entity` does, and names the physics bodies that the host
    /// has to remove with them.
    pub fn despawn_entities(&mut self, entities: &Vec<Entity>) -> (bodies: Vec<u64>)
        ensures
            final(self)@ == old(self)@.despawned_all(entities@),
            bodies@ == old(self)@.bodies_freed(entities@),
            old(self)@.links_agree() ==> final(self)@.links_agree(),
    {
        let mut bodies: Vec<u64> = Vec::new();
        let mut i: usize = 0;
        while i < entities.len()
            invariant
                i <= entities.len(),
                self@ == old(self)@.despawned_all(entities@.take(i as int)),
                bodies@ == old(self)@.bodies_freed(entities@.take(i as int)),
                old(self)@.links_agree() ==> self@.links_agree(),
            decreases entities.len() - i,
        {
            proof {
                assert(entities@.take(i + 1).drop_last() == entities@.take(i as int));
            }
            match self.despawn_entity(entities[i]) {
                Some(body) => {
                    bodies.push(body);
                },
                None => {},
            }
            i += 1;
        }
        proof {
            assert(entities@.take(entities@.len() as int) == entities@);
        }
        bodies
    }

    /// The physics world as a client draws it, from what the host has
    /// read off it; numbered like the last snapshot.
    pub fn generate_debug_render_data(
        &self,
        bodies: &Vec<BodyProbe>,
        colliders: &Vec<ColliderProbe>,
        joints: &Vec<JointProbe>,
    ) -> (data: DebugRenderData)
        ensures
            data@ == drawn_world(
                self.snapshot_sequence,
                bodies@,
                colliders@.map_values(|probe: ColliderProbe| probe@),
                joints@,
            ),
    {
        DebugRenderData::assemble(self.snapshot_sequence, bodies, colliders, joints)
    }

    /// Completes a tick: counts it, numbers the snapshot and takes it,
    /// stamped with `timestamp`. Every tick yields a snapshot.
    pub fn complete_step(&mut self, timestamp: u64) -> (result: SimulationStepResult)
        requires
            old(self).tick < u64::MAX,
            old(self).snapshot_sequence < u32::MAX,
        ensures
            final(self)@ == old(self)@.tick_counted(),
            final(self).tick == old(self).tick + 1,
            final(self).snapshot_sequence == old(self).snapshot_sequence + 1,
            world_order(final(self).world) == world_order(old(self).world),
            old(self)@.links_agree() ==> final(self)@.links_agree(),
            result.tick == final(self).tick,
            result.entity_count == final(self)@.records.len(),
            result.snapshot.is_some(),
            result.snapshot.unwrap()@ == (GameSnapshotView {
                sequence: final(self).snapshot_sequence,
                tick: final(self).tick,
                timestamp,
                entities: snapshot_entities(
                    world_records(old(self).world),
                    world_order(old(self).world),
                ),
            }),
    {
        self.tick += 1;
        self.snapshot_sequence += 1;
        let snapshot = self.generate_snapshot(timestamp);
        SimulationStepResult {
            tick: self.tick,
            entity_count: self.world.len(),
            snapshot: Some(snapshot),
        }
    }
}

} // verus!
