//! The systems of a tick that work on the entity store alone: taking in
//! inputs, preparing them, handing the engines and the weapons their
//! orders, and mirroring the physics world into the components.

use crate::components::{Transform, Velocity, Weapon, ZERO};
use crate::input::{lemma_ready_run, ready_run, Bits32, InputBufferView, InputData};
use crate::simulation::{
    lemma_queues_leave_links, GameSimulation, InputRecorderView, RecordedInput, SimulationView,
};
use crate::queries::{
    gunner_of, gunners_of, helm_of, helms_of, movers_of, seat_of, seats_of, world_gunners,
    world_helms, world_input_buffer, world_movers, world_seats, world_set_input_buffer,
    world_set_motion, Gunner, Helm, Seat,
};
use crate::store::{world_order, world_records, Entity, EntityRecord};
use crate::wire_format::{find_body, probe_of, BodyProbe};
use vstd::prelude::*;

verus! {

/// What preparing the inputs did to one ship.
#[derive(Debug, Clone, Copy, PartialEq, Eq)]
pub struct DiscardReport {
    pub entity: Entity,
    pub player_id: u128,
    /// Number of readable frames that were passed over for a newer one.
    pub discarded: usize,
}

/// The first seat in `seats` that `player_id` steers.
pub open spec fn first_seat(seats: Seq<Seat>, player_id: u128) -> Option<Seat>
    decreases seats.len(),
{
    if seats.len() == 0 {
        None
    } else if seats[0].player_id == player_id {
        Some(seats[0])
    } else {
        first_seat(seats.skip(1), player_id)
    }
}

/// `first_seat` is the seat at the lowest index that `player_id` steers.
pub proof fn lemma_first_seat(seats: Seq<Seat>, player_id: u128, upto: int)
    requires
        0 <= upto <= seats.len(),
        forall|j: int| 0 <= j < upto ==> seats[j].player_id != player_id,
    ensures
        upto < seats.len() && seats[upto].player_id == player_id ==> first_seat(seats, player_id)
            == Some(seats[upto]),
        upto == seats.len() ==> first_seat(seats, player_id).is_none(),
    decreases seats.len(),
{
    if seats.len() > 0 && upto > 0 {
        let rest = seats.skip(1);
        assert forall|j: int| 0 <= j < upto - 1 implies rest[j].player_id != player_id by {
            assert(rest[j] == seats[j + 1]);
        }
        lemma_first_seat(rest, player_id, upto - 1);
        if upto < seats.len() {
            assert(rest[upto - 1] == seats[upto]);
        }
    }
}

/// Every seat of a store is a live entity with a player and an input
/// queue, and says of it what its record says.
pub proof fn lemma_seats(records: Map<Entity, EntityRecord>, order: Seq<Entity>, i: int)
    requires
        0 <= i < seats_of(records, order).len(),
    ensures
        records.contains_key(seats_of(records, order)[i].entity),
        records[seats_of(records, order)[i].entity].is_seat(),
        seats_of(records, order)[i] == seat_of(
            seats_of(records, order)[i].entity,
            records[seats_of(records, order)[i].entity],
        ),
{
    let live = |e: Entity| records.contains_key(e) && records[e].is_seat();
    order.lemma_filter_pred(live, i);
}

/// What preparing the inputs makes of one record: a ship's queue keeps
/// the newest readable frame only; every other record stays as it is.
pub open spec fn prepared_record(record: EntityRecord) -> EntityRecord {
    if record.is_seat() && record.ship.is_some() {
        EntityRecord {
            input_buffer: Some(record.input_buffer.unwrap().latest_kept()),
            ..record
        }
    } else {
        record
    }
}

/// Number of readable frames that `latest_kept` passes over.
pub open spec fn discarded_by(buffer: InputBufferView) -> int {
    let run = ready_run(buffer.frames, buffer.last_processed_sequence as int);
    if run == 0 {
        0
    } else {
        run - 1
    }
}

/// The report on one ship's seat.
pub open spec fn report_of(records: Map<Entity, EntityRecord>, seat: Seat) -> DiscardReport {
    DiscardReport {
        entity: seat.entity,
        player_id: seat.player_id,
        discarded: discarded_by(records[seat.entity].input_buffer.unwrap()) as usize,
    }
}

/// The reports on the ships among `seats`, in their order.
pub open spec fn reports_of(records: Map<Entity, EntityRecord>, seats: Seq<Seat>) -> Seq<
    DiscardReport,
> {
    seats.filter(|seat: Seat| seat.has_ship).map_values(|seat: Seat| report_of(records, seat))
}

impl SimulationView {
    /// The recorder after `input` has arrived at tick `self.tick`.
    pub open spec fn recorder_after(self, player_id: u128, input: InputData) -> Option<
        InputRecorderView,
    > {
        match self.input_recorder {
            Some(recorder) => if recorder.is_recording {
                Some(
                    InputRecorderView {
                        recorded_inputs: recorder.recorded_inputs.push(
                            RecordedInput { tick: self.tick, player_id, input },
                        ),
                        ..recorder
                    },
                )
            } else {
                Some(recorder)
            },
            None => None,
        }
    }

    /// The simulation after `input` has arrived for `player_id`: it is
    /// recorded if a recording goes on, and enters the queue of the
    /// player's first seat, if the player has one.
    pub open spec fn with_player_input(
        self,
        seats: Seq<Seat>,
        player_id: u128,
        input: InputData,
    ) -> SimulationView {
        SimulationView {
            records: match first_seat(seats, player_id) {
                Some(seat) => self.records.insert(
                    seat.entity,
                    EntityRecord {
                        input_buffer: Some(
                            self.records[seat.entity].input_buffer.unwrap().with_input(input),
                        ),
                        ..self.records[seat.entity]
                    },
                ),
                None => self.records,
            },
            input_recorder: self.recorder_after(player_id, input),
            ..self
        }
    }

    /// The simulation after the inputs of every ship have been prepared.
    pub open spec fn inputs_prepared(self) -> SimulationView {
        SimulationView {
            records: self.records.map_values(|record: EntityRecord| prepared_record(record)),
            ..self
        }
    }
}

/// What an engine is to do with one ship on this tick.
#[derive(Debug, Clone, Copy, PartialEq, Eq)]
pub struct MovementOrder {
    pub entity: Entity,
    /// The physics body that the forces act on.
    pub body: u64,
    /// The ship's heading.
    pub rotation: Bits32,
    pub thrust_power: Bits32,
    pub turn_rate: Bits32,
    pub mass: Bits32,
    /// Thrust asked for by the pending frame; zero without one.
    pub thrust: Bits32,
    /// Turn asked for by the pending frame; zero without one.
    pub turn: Bits32,
}

/// A ship whose pending frame is to be checked for fire.
#[derive(Debug, Clone, Copy, PartialEq, Eq)]
pub struct FireRequest {
    pub entity: Entity,
    pub player_id: u128,
    pub transform: Transform,
    pub weapon: Weapon,
    pub primary_fire: bool,
    pub secondary_fire: bool,
}

/// The transform that mirrors the body `probe`.
pub open spec fn mirrored_transform(probe: BodyProbe) -> Transform {
    Transform { position: probe.position, rotation: probe.rotation }
}

/// The velocity that mirrors the body `probe`.
pub open spec fn mirrored_velocity(probe: BodyProbe) -> Velocity {
    Velocity { linear: probe.linear_velocity, angular: probe.angular_velocity }
}

/// What mirroring the physics world makes of one record: a mover whose
/// body was read gets that body's transform and velocity; every other
/// record stays as it is.
pub open spec fn synced_record(record: EntityRecord, probe: Option<BodyProbe>) -> EntityRecord {
    match probe {
        Some(body) => if record.is_mover() {
            EntityRecord {
                transform: Some(mirrored_transform(body)),
                velocity: Some(mirrored_velocity(body)),
                ..record
            }
        } else {
            record
        },
        None => record,
    }
}

/// The order for the ship at `helm` on the body `body`, with the frame
/// `pending` if there is one.
pub open spec fn order_of(helm: Helm, body: u64, pending: Option<InputData>) -> MovementOrder {
    MovementOrder {
        entity: helm.entity,
        body,
        rotation: helm.rotation,
        thrust_power: helm.ship.thrust_power,
        turn_rate: helm.ship.turn_rate,
        mass: helm.ship.mass,
        thrust: match pending {
            Some(frame) => frame.thrust,
            None => ZERO,
        },
        turn: match pending {
            Some(frame) => frame.turn,
            None => ZERO,
        },
    }
}

/// The record with its input queue emptied.
pub open spec fn steered_record(record: EntityRecord) -> EntityRecord {
    EntityRecord {
        input_buffer: Some(
            InputBufferView { frames: Seq::empty(), ..record.input_buffer.unwrap() },
        ),
        ..record
    }
}

/// The request that the frame `frame` makes of `gunner`.
pub open spec fn request_of(gunner: Gunner, frame: InputData) -> FireRequest {
    FireRequest {
        entity: gunner.entity,
        player_id: gunner.player_id,
        transform: gunner.transform,
        weapon: gunner.weapon,
        primary_fire: frame.primary_fire,
        secondary_fire: frame.secondary_fire,
    }
}

/// The requests of the gunners that have a pending frame, in their order.
pub open spec fn fire_requests_of(records: Map<Entity, EntityRecord>, gunners: Seq<Gunner>) -> Seq<
    FireRequest,
> {
    gunners.filter(
        |gunner: Gunner| records[gunner.entity].input_buffer.unwrap().frames.len() > 0,
    ).map_values(
        |gunner: Gunner|
            request_of(gunner, records[gunner.entity].input_buffer.unwrap().frames.last()),
    )
}

impl SimulationView {
    /// What was read off the body that `entity` is linked to, if the
    /// entity is linked and its body is among `bodies`.
    pub open spec fn body_probe(self, bodies: Seq<BodyProbe>, entity: Entity) -> Option<
        BodyProbe,
    > {
        if self.entity_to_body.contains_key(entity) {
            probe_of(bodies, self.entity_to_body[entity])
        } else {
            None
        }
    }

    /// The simulation after the physics world, as read in `bodies`, has
    /// been mirrored into the components.
    pub open spec fn synced(self, bodies: Seq<BodyProbe>) -> SimulationView {
        SimulationView {
            records: Map::new(
                |e: Entity| self.records.contains_key(e),
                |e: Entity| synced_record(self.records[e], self.body_probe(bodies, e)),
            ),
            ..self
        }
    }

    /// The orders for the linked ships among `helms`, in their order.
    pub open spec fn movement_orders(self, helms: Seq<Helm>) -> Seq<MovementOrder> {
        helms.filter(|helm: Helm| self.entity_to_body.contains_key(helm.entity)).map_values(
            |helm: Helm|
                order_of(
                    helm,
                    self.entity_to_body[helm.entity],
                    self.records[helm.entity].input_buffer.unwrap().pending(),
                ),
        )
    }

    /// The simulation after the orders have been taken: the queue of
    /// every linked ship is empty, so that no frame is acted on twice.
    pub open spec fn movement_taken(self) -> SimulationView {
        SimulationView {
            records: Map::new(
                |e: Entity| self.records.contains_key(e),
                |e: Entity|
                    if self.records[e].is_helm() && self.entity_to_body.contains_key(e) {
                        steered_record(self.records[e])
                    } else {
                        self.records[e]
                    },
            ),
            ..self
        }
    }
}

/// Every mover of a store is a live entity with a transform and a
/// velocity.
pub proof fn lemma_movers(records: Map<Entity, EntityRecord>, order: Seq<Entity>, i: int)
    requires
        0 <= i < movers_of(records, order).len(),
    ensures
        records.contains_key(movers_of(records, order)[i]),
        records[movers_of(records, order)[i]].is_mover(),
{
    let live = |e: Entity| records.contains_key(e) && records[e].is_mover();
    order.lemma_filter_pred(live, i);
}

/// Every helm of a store is a live entity with a transform, a ship and
/// an input queue, and says of it what its record says.
pub proof fn lemma_helms(records: Map<Entity, EntityRecord>, order: Seq<Entity>, i: int)
    requires
        0 <= i < helms_of(records, order).len(),
    ensures
        records.contains_key(helms_of(records, order)[i].entity),
        records[helms_of(records, order)[i].entity].is_helm(),
        helms_of(records, order)[i] == helm_of(
            helms_of(records, order)[i].entity,
            records[helms_of(records, order)[i].entity],
        ),
{
    let live = |e: Entity| records.contains_key(e) && records[e].is_helm();
    order.lemma_filter_pred(live, i);
}

/// Every gunner of a store is a live entity with a transform, a player,
/// an input queue and a weapon, and says of it what its record says.
pub proof fn lemma_gunners(records: Map<Entity, EntityRecord>, order: Seq<Entity>, i: int)
    requires
        0 <= i < gunners_of(records, order).len(),
    ensures
        records.contains_key(gunners_of(records, order)[i].entity),
        records[gunners_of(records, order)[i].entity].is_gunner(),
        gunners_of(records, order)[i] == gunner_of(
            gunners_of(records, order)[i].entity,
            records[gunners_of(records, order)[i].entity],
        ),
{
    let live = |e: Entity| records.contains_key(e) && records[e].is_gunner();
    order.lemma_filter_pred(live, i);
}

/// Preparing the inputs keeps every queue within its capacity and never
/// turns a queue's last processed number back.
pub proof fn lemma_prepare_keeps_queues(state: SimulationView, entity: Entity)
    requires
        state.records.contains_key(entity),
        state.records[entity].input_buffer.is_some(),
    ensures
        state.inputs_prepared().records.contains_key(entity),
        state.inputs_prepared().records[entity].input_buffer.is_some(),
        state.records[entity].input_buffer.unwrap().within_capacity()
            ==> state.inputs_prepared().records[entity].input_buffer.unwrap().within_capacity(),
        state.inputs_prepared().records[entity].input_buffer.unwrap().last_processed_sequence
            >= state.records[entity].input_buffer.unwrap().last_processed_sequence,
{
    let queue = state.records[entity].input_buffer.unwrap();
    lemma_ready_run(queue.frames, queue.last_processed_sequence as int);
}

/// Taking in an input keeps every queue within its capacity, given that
/// it was so before, and leaves every queue's last processed number as
/// it is.
pub proof fn lemma_input_keeps_queues(
    state: SimulationView,
    seats: Seq<Seat>,
    player_id: u128,
    input: InputData,
    entity: Entity,
)
    requires
        state.records.contains_key(entity),
        state.records[entity].input_buffer.is_some(),
    ensures
        ({
            let after = state.with_player_input(seats, player_id, input);
            &&& after.records.contains_key(entity)
            &&& after.records[entity].input_buffer.is_some()
            &&& state.records[entity].input_buffer.unwrap().within_capacity()
                ==> after.records[entity].input_buffer.unwrap().within_capacity()
            &&& after.records[entity].input_buffer.unwrap().last_processed_sequence
                == state.records[entity].input_buffer.unwrap().last_processed_sequence
        }),
{
}

/// Taking the movement orders keeps every queue within its capacity and
/// leaves every queue's last processed number as it is.
pub proof fn lemma_movement_keeps_queues(state: SimulationView, entity: Entity)
    requires
        state.records.contains_key(entity),
        state.records[entity].input_buffer.is_some(),
    ensures
        state.movement_taken().records.contains_key(entity),
        state.movement_taken().records[entity].input_buffer.is_some(),
        state.records[entity].input_buffer.unwrap().within_capacity()
            ==> state.movement_taken().records[entity].input_buffer.unwrap().within_capacity(),
        state.movement_taken().records[entity].input_buffer.unwrap().last_processed_sequence
            == state.records[entity].input_buffer.unwrap().last_processed_sequence,
{
}

/// Mirroring the physics world leaves every input queue as it is.
pub proof fn lemma_sync_leaves_queues(
    state: SimulationView,
    bodies: Seq<BodyProbe>,
    entity: Entity,
)
    requires
        state.records.contains_key(entity),
    ensures
        state.synced(bodies).records.contains_key(entity),
        state.synced(bodies).records[entity].input_buffer == state.records[entity].input_buffer,
{
}

/// No system of the simulation touches the health of an entity: what an
/// entity has of hull and shield stays as it is through taking in an
/// input, preparing the inputs, taking the movement orders, mirroring
/// the physics world and counting a tick.
pub proof fn lemma_systems_leave_health(
    state: SimulationView,
    seats: Seq<Seat>,
    player_id: u128,
    input: InputData,
    bodies: Seq<BodyProbe>,
    entity: Entity,
)
    requires
        state.records.contains_key(entity),
    ensures
        state.with_player_input(seats, player_id, input).records[entity].health
            == state.records[entity].health,
        state.inputs_prepared().records[entity].health == state.records[entity].health,
        state.movement_taken().records[entity].health == state.records[entity].health,
        state.synced(bodies).records[entity].health == state.records[entity].health,
        state.tick_counted().records[entity].health == state.records[entity].health,
{
}

impl GameSimulation {
    /// The seats of the store, in walk order.
    pub open spec fn seats(&self) -> Seq<Seat> {
        seats_of(world_records(self.world), world_order(self.world))
    }

    /// Takes in one input frame for `player_id` and tells whether the
    /// player has a seat. The frame is recorded if a recording goes on,
    /// and enters the queue of the player's first seat.
    pub fn add_player_input(&mut self, player_id: u128, input: InputData) -> (found: bool)
        ensures
            found == first_seat(old(self).seats(), player_id).is_some(),
            final(self)@ == old(self)@.with_player_input(old(self).seats(), player_id, input),
            world_order(final(self).world) == world_order(old(self).world),
            old(self)@.links_agree() ==> final(self)@.links_agree(),
    {
        let tick = self.tick;
        match &mut self.input_recorder {
            Some(recorder) => {
                if recorder.is_recording {
                    recorder.recorded_inputs.push(RecordedInput { tick, player_id, input });
                }
            },
            None => {},
        }
        let seats = world_seats(&self.world);
        let ghost records = world_records(self.world);
        let mut i: usize = 0;
        while i < seats.len()
            invariant
                i <= seats.len(),
                seats@ == old(self).seats(),
                records == world_records(old(self).world),
                self.world == old(self).world,
                self.entity_to_body == old(self).entity_to_body,
                self.body_to_entity == old(self).body_to_entity,
                self.tick == old(self).tick,
                self.snapshot_sequence == old(self).snapshot_sequence,
                self@.input_recorder == old(self)@.recorder_after(player_id, input),
                forall|j: int| 0 <= j < i ==> seats@[j].player_id != player_id,
            decreases seats.len() - i,
        {
            let seat = seats[i];
            if seat.player_id == player_id {
                proof {
                    lemma_first_seat(seats@, player_id, i as int);
                    lemma_seats(records, world_order(old(self).world), i as int);
                }
                match world_input_buffer(&self.world, seat.entity) {
                    Some(queue) => {
                        let mut queue = queue;
                        queue.add_input(input);
                        world_set_input_buffer(&mut self.world, seat.entity, queue);
                    },
                    None => {},
                }
                proof {
                    assert(self@.records.dom() =~= old(self)@.records.dom());
                    lemma_queues_leave_links(old(self)@, self@);
                }
                return true;
            }
            i += 1;
        }
        proof {
            lemma_first_seat(seats@, player_id, seats@.len() as int);
            lemma_queues_leave_links(old(self)@, self@);
        }
        false
    }

    /// Prepares the pending input of every ship: of the frames that can
    /// be read in order, only the newest stays in the queue. Reports, for
    /// each ship in walk order, how many frames were passed over.
    pub fn prepare_inputs(&mut self) -> (reports: Vec<DiscardReport>)
        ensures
            final(self)@ == old(self)@.inputs_prepared(),
            reports@ == reports_of(old(self)@.records, old(self).seats()),
            world_order(final(self).world) == world_order(old(self).world),
            old(self)@.links_agree() ==> final(self)@.links_agree(),
    {
        let seats = world_seats(&self.world);
        let ghost before = world_records(self.world);
        let ghost order = world_order(self.world);
        let ghost ships = |seat: Seat| seat.has_ship;
        let ghost entities = seats@.map_values(|seat: Seat| seat.entity);
        let mut reports: Vec<DiscardReport> = Vec::new();
        let mut i: usize = 0;
        proof {
            assert(seats@.take(0) == Seq::<Seat>::empty());
            reveal(Seq::filter);
            assert(seats@.take(0).filter(ships) == Seq::<Seat>::empty());
        }
        while i < seats.len()
            invariant
                i <= seats.len(),
                seats@ == seats_of(before, order),
                entities == seats@.map_values(|seat: Seat| seat.entity),
                entities.no_duplicates(),
                before == world_records(old(self).world),
                order == world_order(old(self).world),
                world_order(self.world) == order,
                ships == |seat: Seat| seat.has_ship,
                self.entity_to_body == old(self).entity_to_body,
                self.body_to_entity == old(self).body_to_entity,
                self.tick == old(self).tick,
                self.snapshot_sequence == old(self).snapshot_sequence,
                self.input_recorder == old(self).input_recorder,
                world_records(self.world).dom() == before.dom(),
                forall|e: Entity| #[trigger]
                    before.contains_key(e) ==> world_records(self.world)[e] == if exists|j: int|
                        0 <= j < i && seats@[j].entity == e {
                        prepared_record(before[e])
                    } else {
                        before[e]
                    },
                reports@ == seats@.take(i as int).filter(ships).map_values(
                    |seat: Seat| report_of(before, seat),
                ),
            decreases seats.len() - i,
        {
            let seat = seats[i];
            let ghost now = world_records(self.world);
            proof {
                lemma_seats(before, order, i as int);
                assert(entities[i as int] == seat.entity);
                assert forall|j: int| 0 <= j < i implies seats@[j].entity != seat.entity by {
                    assert(entities[j] == seats@[j].entity);
                }
                assert(now[seat.entity] == before[seat.entity]);
                assert(seats@.take(i + 1) == seats@.take(i as int).push(seat));
                seats@.take(i as int).lemma_filter_push(seat, ships);
            }
            if seat.has_ship {
                match world_input_buffer(&self.world, seat.entity) {
                    Some(queue) => {
                        let mut queue = queue;
                        let discarded = queue.keep_latest();
                        world_set_input_buffer(&mut self.world, seat.entity, queue);
                        reports.push(
                            DiscardReport {
                                entity: seat.entity,
                                player_id: seat.player_id,
                                discarded,
                            },
                        );
                    },
                    None => {
                        assert(false);
                    },
                }
            }
            proof {
                let after = world_records(self.world);
                assert(after.dom() =~= before.dom());
                assert forall|e: Entity| #[trigger] before.contains_key(e) implies after[e]
                    == if exists|j: int| 0 <= j < i + 1 && seats@[j].entity == e {
                    prepared_record(before[e])
                } else {
                    before[e]
                } by {
                    if e == seat.entity {
                        assert(seats@[i as int].entity == e);
                    } else {
                        assert(after[e] == now[e]);
                        if exists|j: int| 0 <= j < i + 1 && seats@[j].entity == e {
                            let j = choose|j: int| 0 <= j < i + 1 && seats@[j].entity == e;
                            assert(0 <= j < i && seats@[j].entity == e);
                        }
                    }
                }
                assert(reports@ =~= seats@.take(i + 1).filter(ships).map_values(
                    |seat: Seat| report_of(before, seat),
                ));
            }
            i += 1;
        }
        proof {
            assert(seats@.take(seats@.len() as int) == seats@);
            let after = world_records(self.world);
            let goal = before.map_values(|record: EntityRecord| prepared_record(record));
            assert forall|e: Entity| #[trigger] before.contains_key(e) implies after[e] == goal[e] by {
                if exists|j: int| 0 <= j < seats@.len() && seats@[j].entity == e {
                    let j = choose|j: int| 0 <= j < seats@.len() && seats@[j].entity == e;
                    lemma_seats(before, order, j);
                } else {
                    if before[e].is_seat() {
                        assert(entities.contains(e));
                        let j = choose|j: int| 0 <= j < entities.len() && entities[j] == e;
                        assert(seats@[j].entity == e);
                    }
                }
            }
            assert(after =~= goal);
            lemma_queues_leave_links(old(self)@, self@);
        }
        reports
    }

    /// The helms of the store, in walk order.
    pub open spec fn helms(&self) -> Seq<Helm> {
        helms_of(world_records(self.world), world_order(self.world))
    }

    /// The gunners of the store, in walk order.
    pub open spec fn gunners(&self) -> Seq<Gunner> {
        gunners_of(world_records(self.world), world_order(self.world))
    }

    /// Mirrors the physics world, as the host has read it in `bodies`,
    /// into the components: every entity with a transform and a velocity
    /// that is linked to one of these bodies gets that body's position,
    /// heading and velocities.
    pub fn sync_physics_to_ecs(&mut self, bodies: &Vec<BodyProbe>)
        ensures
            final(self)@ == old(self)@.synced(bodies@),
            world_order(final(self).world) == world_order(old(self).world),
            old(self)@.links_agree() ==> final(self)@.links_agree(),
    {
        broadcast use vstd::std_specs::hash::group_hash_axioms;

        let movers = world_movers(&self.world);
        let ghost start = self@;
        let ghost before = world_records(self.world);
        let ghost order = world_order(self.world);
        let mut i: usize = 0;
        while i < movers.len()
            invariant
                i <= movers.len(),
                movers@ == movers_of(before, order),
                movers@.no_duplicates(),
                start == old(self)@,
                before == start.records,
                order == world_order(old(self).world),
                world_order(self.world) == order,
                self.entity_to_body == old(self).entity_to_body,
                self.body_to_entity == old(self).body_to_entity,
                self.tick == old(self).tick,
                self.snapshot_sequence == old(self).snapshot_sequence,
                self.input_recorder == old(self).input_recorder,
                world_records(self.world).dom() == before.dom(),
                forall|e: Entity| #[trigger]
                    before.contains_key(e) ==> world_records(self.world)[e] == if exists|j: int|
                        0 <= j < i && movers@[j] == e {
                        synced_record(before[e], start.body_probe(bodies@, e))
                    } else {
                        before[e]
                    },
            decreases movers.len() - i,
        {
            let entity = movers[i];
            let ghost now = world_records(self.world);
            proof {
                lemma_movers(before, order, i as int);
                assert(now[entity] == before[entity]);
            }
            let probe = match self.entity_to_body.get(&entity) {
                Some(body) => find_body(bodies, *body),
                None => None,
            };
            assert(probe == start.body_probe(bodies@, entity));
            match probe {
                Some(body) => {
                    world_set_motion(
                        &mut self.world,
                        entity,
                        Transform::from_vector(body.position, body.rotation),
                        Velocity::from_vector(body.linear_velocity, body.angular_velocity),
                    );
                },
                None => {},
            }
            proof {
                let after = world_records(self.world);
                assert(after.dom() =~= before.dom());
                assert forall|e: Entity| #[trigger] before.contains_key(e) implies after[e]
                    == if exists|j: int| 0 <= j < i + 1 && movers@[j] == e {
                    synced_record(before[e], start.body_probe(bodies@, e))
                } else {
                    before[e]
                } by {
                    if e == entity {
                        assert(movers@[i as int] == e);
                    } else {
                        assert(after[e] == now[e]);
                        if exists|j: int| 0 <= j < i + 1 && movers@[j] == e {
                            let j = choose|j: int| 0 <= j < i + 1 && movers@[j] == e;
                            assert(0 <= j < i && movers@[j] == e);
                        }
                    }
                }
            }
            i += 1;
        }
        proof {
            let after = world_records(self.world);
            let goal = start.synced(bodies@).records;
            assert forall|e: Entity| #[trigger] before.contains_key(e) implies after[e] == goal[e] by {
                if exists|j: int| 0 <= j < movers@.len() && movers@[j] == e {
                } else {
                    if before[e].is_mover() {
                        assert(movers@.contains(e));
                    }
                }
            }
            assert(after =~= goal);
            lemma_queues_leave_links(old(self)@, self@);
        }
    }

    /// Takes the orders for the engines: for each ship that is linked to
    /// a physics body, in walk order, its pending frame with what the
    /// engine needs to act on it. The queue of each such ship is emptied.
    pub fn take_movement_orders(&mut self) -> (orders: Vec<MovementOrder>)
        ensures
            orders@ == old(self)@.movement_orders(old(self).helms()),
            final(self)@ == old(self)@.movement_taken(),
            world_order(final(self).world) == world_order(old(self).world),
            old(self)@.links_agree() ==> final(self)@.links_agree(),
    {
        broadcast use vstd::std_specs::hash::group_hash_axioms;

        let helms = world_helms(&self.world);
        let ghost start = self@;
        let ghost before = world_records(self.world);
        let ghost order = world_order(self.world);
        let ghost linked = |helm: Helm| start.entity_to_body.contains_key(helm.entity);
        let ghost entities = helms@.map_values(|helm: Helm| helm.entity);
        let ghost ordered = |helm: Helm|
            order_of(
                helm,
                start.entity_to_body[helm.entity],
                start.records[helm.entity].input_buffer.unwrap().pending(),
            );
        let mut orders: Vec<MovementOrder> = Vec::new();
        let mut i: usize = 0;
        proof {
            reveal(Seq::filter);
            assert(helms@.take(0).filter(linked) == Seq::<Helm>::empty());
        }
        while i < helms.len()
            invariant
                i <= helms.len(),
                helms@ == helms_of(before, order),
                entities == helms@.map_values(|helm: Helm| helm.entity),
                entities.no_duplicates(),
                start == old(self)@,
                before == start.records,
                order == world_order(old(self).world),
                world_order(self.world) == order,
                linked == |helm: Helm| start.entity_to_body.contains_key(helm.entity),
                ordered == |helm: Helm|
                    order_of(
                        helm,
                        start.entity_to_body[helm.entity],
                        start.records[helm.entity].input_buffer.unwrap().pending(),
                    ),
                self.entity_to_body == old(self).entity_to_body,
                self.body_to_entity == old(self).body_to_entity,
                self.tick == old(self).tick,
                self.snapshot_sequence == old(self).snapshot_sequence,
                self.input_recorder == old(self).input_recorder,
                world_records(self.world).dom() == before.dom(),
                forall|e: Entity| #[trigger]
                    before.contains_key(e) ==> world_records(self.world)[e] == if (exists|j: int|
                        0 <= j < i && helms@[j].entity == e) && start.entity_to_body.contains_key(
                        e,
                    ) {
                        steered_record(before[e])
                    } else {
                        before[e]
                    },
                orders@ == helms@.take(i as int).filter(linked).map_values(ordered),
            decreases helms.len() - i,
        {
            let helm = helms[i];
            let ghost now = world_records(self.world);
            proof {
                lemma_helms(before, order, i as int);
                assert(entities[i as int] == helm.entity);
                assert forall|j: int| 0 <= j < i implies helms@[j].entity != helm.entity by {
                    assert(entities[j] == helms@[j].entity);
                }
                assert(now[helm.entity] == before[helm.entity]);
                assert(helms@.take(i + 1) == helms@.take(i as int).push(helm));
                helms@.take(i as int).lemma_filter_push(helm, linked);
            }
            match self.entity_to_body.get(&helm.entity) {
                Some(body) => {
                    let body = *body;
                    match world_input_buffer(&self.world, helm.entity) {
                        Some(queue) => {
                            let mut queue = queue;
                            let pending = queue.take_pending();
                            assert(queue@ == steered_record(before[helm.entity]).input_buffer.unwrap());
                            world_set_input_buffer(&mut self.world, helm.entity, queue);
                            orders.push(
                                MovementOrder {
                                    entity: helm.entity,
                                    body,
                                    rotation: helm.rotation,
                                    thrust_power: helm.ship.thrust_power,
                                    turn_rate: helm.ship.turn_rate,
                                    mass: helm.ship.mass,
                                    thrust: match pending {
                                        Some(frame) => frame.thrust,
                                        None => ZERO,
                                    },
                                    turn: match pending {
                                        Some(frame) => frame.turn,
                                        None => ZERO,
                                    },
                                },
                            );
                        },
                        None => {
                            assert(false);
                        },
                    }
                },
                None => {},
            }
            proof {
                let after = world_records(self.world);
                assert(after.dom() =~= before.dom());
                assert forall|e: Entity| #[trigger] before.contains_key(e) implies after[e] == if (
                exists|j: int| 0 <= j < i + 1 && helms@[j].entity == e)
                    && start.entity_to_body.contains_key(e) {
                    steered_record(before[e])
                } else {
                    before[e]
                } by {
                    if e == helm.entity {
                        assert(helms@[i as int].entity == e);
                    } else {
                        assert(after[e] == now[e]);
                        if exists|j: int| 0 <= j < i + 1 && helms@[j].entity == e {
                            let j = choose|j: int| 0 <= j < i + 1 && helms@[j].entity == e;
                            assert(0 <= j < i && helms@[j].entity == e);
                        }
                    }
                }
                assert(orders@ =~= helms@.take(i + 1).filter(linked).map_values(ordered));
            }
            i += 1;
        }
        proof {
            assert(helms@.take(helms@.len() as int) == helms@);
            let after = world_records(self.world);
            let goal = start.movement_taken().records;
            assert forall|e: Entity| #[trigger] before.contains_key(e) implies after[e] == goal[e] by {
                if exists|j: int| 0 <= j < helms@.len() && helms@[j].entity == e {
                    let j = choose|j: int| 0 <= j < helms@.len() && helms@[j].entity == e;
                    lemma_helms(before, order, j);
                } else {
                    if before[e].is_helm() {
                        assert(entities.contains(e));
                        let j = choose|j: int| 0 <= j < entities.len() && entities[j] == e;
                        assert(helms@[j].entity == e);
                    }
                }
            }
            assert(after =~= goal);
            lemma_queues_leave_links(old(self)@, self@);
        }
        orders
    }

    /// The ships whose pending frame is to be checked for fire: every
    /// gunner with a pending frame, in walk order, with that frame's
    /// triggers. Nothing changes; the simulation is taken exclusively so
    /// that no component is on loan while the store is read.
    pub fn fire_requests(&mut self) -> (requests: Vec<FireRequest>)
        ensures
            *final(self) == *old(self),
            requests@ == fire_requests_of(old(self)@.records, old(self).gunners()),
    {
        let gunners = world_gunners(&self.world);
        let ghost records = world_records(self.world);
        let ghost order = world_order(self.world);
        let ghost armed = |gunner: Gunner|
            records[gunner.entity].input_buffer.unwrap().frames.len() > 0;
        let ghost asked = |gunner: Gunner|
            request_of(gunner, records[gunner.entity].input_buffer.unwrap().frames.last());
        let mut requests: Vec<FireRequest> = Vec::new();
        let mut i: usize = 0;
        proof {
            reveal(Seq::filter);
            assert(gunners@.take(0).filter(armed) == Seq::<Gunner>::empty());
        }
        while i < gunners.len()
            invariant
                i <= gunners.len(),
                records == world_records(self.world),
                order == world_order(self.world),
                gunners@ == gunners_of(records, order),
                armed == |gunner: Gunner|
                    records[gunner.entity].input_buffer.unwrap().frames.len() > 0,
                asked == |gunner: Gunner|
                    request_of(gunner, records[gunner.entity].input_buffer.unwrap().frames.last()),
                requests@ == gunners@.take(i as int).filter(armed).map_values(asked),
            decreases gunners.len() - i,
        {
            let gunner = gunners[i];
            proof {
                lemma_gunners(records, order, i as int);
                assert(gunners@.take(i + 1) == gunners@.take(i as int).push(gunner));
                gunners@.take(i as int).lemma_filter_push(gunner, armed);
            }
            match world_input_buffer(&self.world, gunner.entity) {
                Some(queue) => {
                    match queue.pending() {
                        Some(frame) => {
                            requests.push(
                                FireRequest {
                                    entity: gunner.entity,
                                    player_id: gunner.player_id,
                                    transform: gunner.transform,
                                    weapon: gunner.weapon,
                                    primary_fire: frame.primary_fire,
                                    secondary_fire: frame.secondary_fire,
                                },
                            );
                        },
                        None => {},
                    }
                },
                None => {
                    assert(false);
                },
            }
            proof {
                assert(requests@ =~= gunners@.take(i + 1).filter(armed).map_values(asked));
            }
            i += 1;
        }
        proof {
            assert(gunners@.take(gunners@.len() as int) == gunners@);
        }
        requests
    }
}

} // verus!
