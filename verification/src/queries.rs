//! What the simulation asks of the entity store: the entities that take
//! input, that move, that steer, that fire and that are shown to
//! clients, each list in the store's walk order; and single components
//! read and written by entity.

use crate::components::{
    Collider, Health, Lifetime, Player, PlayerView, Projectile, RigidBody, Ship, Transform,
    Velocity, Weapon,
};
use crate::input::{Bits32, InputBuffer, InputBufferView};
use crate::store::{
    builder_add, world_carriers, world_get, world_order, world_records, world_set, world_spawn,
    Entity, EntityRecord, Part,
};
use vstd::prelude::*;

verus! {

/// The lower half of a handle: a number that no two live entities share.
pub open spec fn entity_index(entity: Entity) -> u64 {
    entity & 0xffff_ffff
}

impl EntityRecord {
    /// The record of a ship that has just been spawned.
    pub open spec fn ship(
        transform: Transform,
        velocity: Velocity,
        health: Health,
        player: PlayerView,
        input_buffer: InputBufferView,
        ship: Ship,
        weapon: Weapon,
        rigid_body: RigidBody,
        collider: Collider,
    ) -> EntityRecord {
        EntityRecord {
            transform: Some(transform),
            velocity: Some(velocity),
            health: Some(health),
            player: Some(player),
            input_buffer: Some(input_buffer),
            ship: Some(ship),
            weapon: Some(weapon),
            projectile: None,
            lifetime: None,
            rigid_body: Some(rigid_body),
            collider: Some(collider),
        }
    }

    /// The record of a projectile that has just been spawned.
    pub open spec fn projectile(
        transform: Transform,
        velocity: Velocity,
        projectile: Projectile,
        lifetime: Lifetime,
        rigid_body: RigidBody,
        collider: Collider,
    ) -> EntityRecord {
        EntityRecord {
            transform: Some(transform),
            velocity: Some(velocity),
            health: None,
            player: None,
            input_buffer: None,
            ship: None,
            weapon: None,
            projectile: Some(projectile),
            lifetime: Some(lifetime),
            rigid_body: Some(rigid_body),
            collider: Some(collider),
        }
    }

    /// The entity takes input: it has a player and an input queue.
    pub open spec fn is_seat(self) -> bool {
        self.player.is_some() && self.input_buffer.is_some()
    }

    /// The entity is shown to clients as a player.
    pub open spec fn shows_player(self) -> bool {
        self.transform.is_some() && self.player.is_some()
    }

    /// The entity is shown to clients as a projectile.
    pub open spec fn shows_projectile(self) -> bool {
        self.transform.is_some() && self.projectile.is_some()
    }

    /// The entity mirrors a physics body: it has a transform and a
    /// velocity.
    pub open spec fn is_mover(self) -> bool {
        self.transform.is_some() && self.velocity.is_some()
    }

    /// The entity is moved by an engine: it has a transform, a ship and
    /// an input queue.
    pub open spec fn is_helm(self) -> bool {
        self.transform.is_some() && self.ship.is_some() && self.input_buffer.is_some()
    }

    /// The entity can fire: it has a transform, a player, an input queue
    /// and a weapon.
    pub open spec fn is_gunner(self) -> bool {
        self.transform.is_some() && self.player.is_some() && self.input_buffer.is_some()
            && self.weapon.is_some()
    }
}

/// An entity that takes input, with the player that steers it.
#[derive(Debug, Clone, Copy, PartialEq, Eq)]
pub struct Seat {
    pub entity: Entity,
    pub player_id: u128,
    /// Whether the entity also carries a `Ship`.
    pub has_ship: bool,
}

/// What a snapshot shows of a player's entity.
#[derive(Debug, Clone, PartialEq, Eq)]
pub struct PlayerEntry {
    pub entity: Entity,
    pub transform: Transform,
    pub player: Player,
    pub velocity: Option<Velocity>,
    pub health: Option<Health>,
    pub ship: Option<Ship>,
}

/// A `PlayerEntry` as plain values.
pub struct PlayerEntryView {
    pub entity: Entity,
    pub transform: Transform,
    pub player: PlayerView,
    pub velocity: Option<Velocity>,
    pub health: Option<Health>,
    pub ship: Option<Ship>,
}

impl View for PlayerEntry {
    type V = PlayerEntryView;

    open spec fn view(&self) -> PlayerEntryView {
        PlayerEntryView {
            entity: self.entity,
            transform: self.transform,
            player: self.player@,
            velocity: self.velocity,
            health: self.health,
            ship: self.ship,
        }
    }
}

/// What a snapshot shows of a projectile.
#[derive(Debug, Clone, Copy, PartialEq, Eq)]
pub struct ProjectileEntry {
    pub entity: Entity,
    pub transform: Transform,
    pub projectile: Projectile,
    pub velocity: Option<Velocity>,
}

/// An entity that an engine moves: its heading and what its ship can do.
#[derive(Debug, Clone, Copy, PartialEq, Eq)]
pub struct Helm {
    pub entity: Entity,
    pub rotation: Bits32,
    pub ship: Ship,
}

/// An entity that can fire: where it is, whose it is, and its weapon.
#[derive(Debug, Clone, Copy, PartialEq, Eq)]
pub struct Gunner {
    pub entity: Entity,
    pub transform: Transform,
    pub player_id: u128,
    pub weapon: Weapon,
}

/// The seat that `record` makes of `entity`.
pub open spec fn seat_of(entity: Entity, record: EntityRecord) -> Seat {
    Seat { entity, player_id: record.player.unwrap().id, has_ship: record.ship.is_some() }
}

/// The player entry that `record` makes of `entity`.
pub open spec fn player_entry_of(entity: Entity, record: EntityRecord) -> PlayerEntryView {
    PlayerEntryView {
        entity,
        transform: record.transform.unwrap(),
        player: record.player.unwrap(),
        velocity: record.velocity,
        health: record.health,
        ship: record.ship,
    }
}

/// The projectile entry that `record` makes of `entity`.
pub open spec fn projectile_entry_of(entity: Entity, record: EntityRecord) -> ProjectileEntry {
    ProjectileEntry {
        entity,
        transform: record.transform.unwrap(),
        projectile: record.projectile.unwrap(),
        velocity: record.velocity,
    }
}

/// The helm that `record` makes of `entity`.
pub open spec fn helm_of(entity: Entity, record: EntityRecord) -> Helm {
    Helm { entity, rotation: record.transform.unwrap().rotation, ship: record.ship.unwrap() }
}

/// The gunner that `record` makes of `entity`.
pub open spec fn gunner_of(entity: Entity, record: EntityRecord) -> Gunner {
    Gunner {
        entity,
        transform: record.transform.unwrap(),
        player_id: record.player.unwrap().id,
        weapon: record.weapon.unwrap(),
    }
}

/// The seats of a store, in walk order.
pub open spec fn seats_of(records: Map<Entity, EntityRecord>, order: Seq<Entity>) -> Seq<Seat> {
    order.filter(|e: Entity| records.contains_key(e) && records[e].is_seat()).map_values(
        |e: Entity| seat_of(e, records[e]),
    )
}

/// The player entries of a store, in walk order.
pub open spec fn player_entries_of(
    records: Map<Entity, EntityRecord>,
    order: Seq<Entity>,
) -> Seq<PlayerEntryView> {
    order.filter(|e: Entity| records.contains_key(e) && records[e].shows_player()).map_values(
        |e: Entity| player_entry_of(e, records[e]),
    )
}

/// The projectile entries of a store, in walk order.
pub open spec fn projectile_entries_of(
    records: Map<Entity, EntityRecord>,
    order: Seq<Entity>,
) -> Seq<ProjectileEntry> {
    order.filter(|e: Entity| records.contains_key(e) && records[e].shows_projectile()).map_values(
        |e: Entity| projectile_entry_of(e, records[e]),
    )
}

/// The movers of a store, in walk order.
pub open spec fn movers_of(records: Map<Entity, EntityRecord>, order: Seq<Entity>) -> Seq<Entity> {
    order.filter(|e: Entity| records.contains_key(e) && records[e].is_mover())
}

/// The helms of a store, in walk order.
pub open spec fn helms_of(records: Map<Entity, EntityRecord>, order: Seq<Entity>) -> Seq<Helm> {
    order.filter(|e: Entity| records.contains_key(e) && records[e].is_helm()).map_values(
        |e: Entity| helm_of(e, records[e]),
    )
}

/// The gunners of a store, in walk order.
pub open spec fn gunners_of(records: Map<Entity, EntityRecord>, order: Seq<Entity>) -> Seq<
    Gunner,
> {
    order.filter(|e: Entity| records.contains_key(e) && records[e].is_gunner()).map_values(
        |e: Entity| gunner_of(e, records[e]),
    )
}

/// Keeping what passes `first` and of that what passes `second` keeps
/// what passes both.
pub proof fn lemma_filter_twice<A>(
    s: Seq<A>,
    first: spec_fn(A) -> bool,
    second: spec_fn(A) -> bool,
    both: spec_fn(A) -> bool,
)
    requires
        forall|x: A| #[trigger] both(x) <==> first(x) && second(x),
    ensures
        s.filter(first).filter(second) == s.filter(both),
    decreases s.len(),
{
    reveal(Seq::filter);
    if s.len() > 0 {
        let front = s.drop_last();
        lemma_filter_twice(front, first, second, both);
        assert(s =~= front.push(s.last()));
        front.lemma_filter_push(s.last(), first);
        front.lemma_filter_push(s.last(), both);
        front.filter(first).lemma_filter_push(s.last(), second);
    } else {
        assert(s.filter(first) =~= Seq::<A>::empty());
    }
}

/// What is kept of a sequence without repetitions has none either.
pub proof fn lemma_filter_keeps_distinct<A>(s: Seq<A>, keep: spec_fn(A) -> bool)
    requires
        s.no_duplicates(),
    ensures
        s.filter(keep).no_duplicates(),
    decreases s.len(),
{
    reveal(Seq::filter);
    if s.len() > 0 {
        let front = s.drop_last();
        lemma_filter_keeps_distinct(front, keep);
        let kept = front.filter(keep);
        if keep(s.last()) && kept.contains(s.last()) {
            front.lemma_filter_contains_rev(keep, s.last());
            let j = choose|j: int| 0 <= j < front.len() && front[j] == s.last();
            assert(s[j] == s[s.len() - 1]);
        }
    }
}

/// A list made of the carriers of one component by keeping those that
/// pass `second` is the list of the entities of the walk that pass
/// `both`; it names no entity twice and leaves none out.
pub proof fn lemma_listing<A>(
    order: Seq<Entity>,
    carriers: Seq<Entity>,
    first: spec_fn(Entity) -> bool,
    second: spec_fn(Entity) -> bool,
    both: spec_fn(Entity) -> bool,
    item: spec_fn(Entity) -> A,
    key: spec_fn(A) -> Entity,
)
    requires
        carriers == order.filter(first),
        carriers.no_duplicates(),
        forall|e: Entity| first(e) ==> carriers.contains(e),
        forall|e: Entity| #[trigger] both(e) <==> first(e) && second(e),
        forall|e: Entity| key(#[trigger] item(e)) == e,
    ensures
        carriers.filter(second).map_values(item) == order.filter(both).map_values(item),
        carriers.filter(second).map_values(item).map_values(key).no_duplicates(),
        forall|e: Entity|
            both(e) ==> carriers.filter(second).map_values(item).map_values(key).contains(e),
{
    let kept = carriers.filter(second);
    lemma_filter_twice(order, first, second, both);
    lemma_filter_keeps_distinct(carriers, second);
    assert(kept.map_values(item).map_values(key) =~= kept);
    assert forall|e: Entity| both(e) implies kept.contains(e) by {
        assert(carriers.contains(e));
        let i = choose|i: int| 0 <= i < carriers.len() && carriers[i] == e;
        carriers.lemma_filter_contains(second, i);
    }
}

/// Spawns an entity with the nine components of a ship. The new entity
/// was not live before and enters the walk at some place without moving
/// the others.
pub(crate) fn world_spawn_ship(
    world: &mut hecs::World,
    transform: Transform,
    velocity: Velocity,
    health: Health,
    player: Player,
    input_buffer: InputBuffer,
    ship: Ship,
    weapon: Weapon,
    rigid_body: RigidBody,
    collider: Collider,
) -> (entity: Entity)
    requires
        world_records(*old(world)).len() < u32::MAX,
    ensures
        !world_records(*old(world)).contains_key(entity),
        world_records(*final(world)) == world_records(*old(world)).insert(
            entity,
            EntityRecord::ship(
                transform,
                velocity,
                health,
                player@,
                input_buffer@,
                ship,
                weapon,
                rigid_body,
                collider,
            ),
        ),
        exists|at: int|
            0 <= at <= world_order(*old(world)).len() && world_order(*final(world)) == world_order(
                *old(world),
            ).insert(at, entity),
{
    let mut builder = hecs::EntityBuilder::new();
    builder_add(&mut builder, transform);
    builder_add(&mut builder, velocity);
    builder_add(&mut builder, health);
    builder_add(&mut builder, player);
    builder_add(&mut builder, input_buffer);
    builder_add(&mut builder, ship);
    builder_add(&mut builder, weapon);
    builder_add(&mut builder, rigid_body);
    builder_add(&mut builder, collider);
    world_spawn(world, builder)
}

/// Spawns an entity with the six components of a projectile; as for a
/// ship.
pub(crate) fn world_spawn_projectile(
    world: &mut hecs::World,
    transform: Transform,
    velocity: Velocity,
    projectile: Projectile,
    lifetime: Lifetime,
    rigid_body: RigidBody,
    collider: Collider,
) -> (entity: Entity)
    requires
        world_records(*old(world)).len() < u32::MAX,
    ensures
        !world_records(*old(world)).contains_key(entity),
        world_records(*final(world)) == world_records(*old(world)).insert(
            entity,
            EntityRecord::projectile(transform, velocity, projectile, lifetime, rigid_body, collider),
        ),
        exists|at: int|
            0 <= at <= world_order(*old(world)).len() && world_order(*final(world)) == world_order(
                *old(world),
            ).insert(at, entity),
{
    let mut builder = hecs::EntityBuilder::new();
    builder_add(&mut builder, transform);
    builder_add(&mut builder, velocity);
    builder_add(&mut builder, projectile);
    builder_add(&mut builder, lifetime);
    builder_add(&mut builder, rigid_body);
    builder_add(&mut builder, collider);
    world_spawn(world, builder)
}

/// The link of an entity to its physics body, if the entity is live and
/// carries one.
pub(crate) fn world_body_link(world: &hecs::World, entity: Entity) -> (link: Option<RigidBody>)
    ensures
        link == if world_records(*world).contains_key(entity) {
            world_records(*world)[entity].rigid_body
        } else {
            None
        },
{
    world_get::<RigidBody>(world, entity)
}

/// A copy of the input queue of an entity, if the entity is live and
/// carries one.
pub(crate) fn world_input_buffer(world: &hecs::World, entity: Entity) -> (buffer: Option<
    InputBuffer,
>)
    ensures
        match buffer {
            Some(queue) => world_records(*world).contains_key(entity) && world_records(
                *world,
            )[entity].input_buffer == Some(queue@),
            None => !world_records(*world).contains_key(entity) || world_records(
                *world,
            )[entity].input_buffer.is_none(),
        },
{
    world_get::<InputBuffer>(world, entity)
}

/// Replaces the input queue of an entity. Where the entity is not live
/// or carries no queue, nothing changes.
pub(crate) fn world_set_input_buffer(
    world: &mut hecs::World,
    entity: Entity,
    buffer: InputBuffer,
) -> (stored: bool)
    ensures
        stored == (world_records(*old(world)).contains_key(entity) && world_records(
            *old(world),
        )[entity].input_buffer.is_some()),
        world_records(*final(world)) == if stored {
            world_records(*old(world)).insert(
                entity,
                EntityRecord {
                    input_buffer: Some(buffer@),
                    ..world_records(*old(world))[entity]
                },
            )
        } else {
            world_records(*old(world))
        },
        world_order(*final(world)) == world_order(*old(world)),
{
    world_set::<InputBuffer>(world, entity, buffer)
}

/// Replaces the transform and the velocity of an entity. Where the
/// entity is not live or lacks one of the two, nothing changes.
pub(crate) fn world_set_motion(
    world: &mut hecs::World,
    entity: Entity,
    transform: Transform,
    velocity: Velocity,
) -> (stored: bool)
    ensures
        stored == (world_records(*old(world)).contains_key(entity) && world_records(
            *old(world),
        )[entity].is_mover()),
        world_records(*final(world)) == if stored {
            world_records(*old(world)).insert(
                entity,
                EntityRecord {
                    transform: Some(transform),
                    velocity: Some(velocity),
                    ..world_records(*old(world))[entity]
                },
            )
        } else {
            world_records(*old(world))
        },
        world_order(*final(world)) == world_order(*old(world)),
{
    if world_get::<Transform>(world, entity).is_some() && world_get::<Velocity>(
        world,
        entity,
    ).is_some() {
        world_set::<Transform>(world, entity, transform);
        world_set::<Velocity>(world, entity, velocity);
        proof {
            let before = world_records(*old(world));
            assert(world_records(*world) =~= before.insert(
                entity,
                EntityRecord {
                    transform: Some(transform),
                    velocity: Some(velocity),
                    ..before[entity]
                },
            ));
        }
        true
    } else {
        false
    }
}

/// The seats of the store in walk order, each entity once and none left
/// out.
pub(crate) fn world_seats(world: &hecs::World) -> (seats: Vec<Seat>)
    ensures
        seats@ == seats_of(world_records(*world), world_order(*world)),
        seats@.map_values(|seat: Seat| seat.entity).no_duplicates(),
        forall|e: Entity|
            world_records(*world).contains_key(e) && world_records(*world)[e].is_seat()
                ==> seats@.map_values(|seat: Seat| seat.entity).contains(e),
{
    let carriers = world_carriers::<Player>(world);
    let ghost records = world_records(*world);
    let ghost order = world_order(*world);
    let ghost first = |e: Entity| records.contains_key(e) && Player::part_of(records[e]).is_some();
    let ghost second = |e: Entity| records[e].input_buffer.is_some();
    let ghost both = |e: Entity| records.contains_key(e) && records[e].is_seat();
    let ghost item = |e: Entity| seat_of(e, records[e]);
    let mut seats: Vec<Seat> = Vec::new();
    let mut i: usize = 0;
    proof {
        reveal(Seq::filter);
        assert(carriers@.take(0).filter(second) == Seq::<Entity>::empty());
    }
    while i < carriers.len()
        invariant
            i <= carriers.len(),
            records == world_records(*world),
            carriers@ == order.filter(first),
            first == |e: Entity| records.contains_key(e) && Player::part_of(records[e]).is_some(),
            second == |e: Entity| records[e].input_buffer.is_some(),
            item == |e: Entity| seat_of(e, records[e]),
            seats@ == carriers@.take(i as int).filter(second).map_values(item),
        decreases carriers.len() - i,
    {
        let entity = carriers[i];
        proof {
            order.lemma_filter_pred(first, i as int);
            assert(carriers@.take(i + 1) == carriers@.take(i as int).push(entity));
            carriers@.take(i as int).lemma_filter_push(entity, second);
        }
        match world_get::<Player>(world, entity) {
            Some(player) => {
                if world_get::<InputBuffer>(world, entity).is_some() {
                    let has_ship = world_get::<Ship>(world, entity).is_some();
                    seats.push(Seat { entity, player_id: player.id, has_ship });
                }
            },
            None => {
                assert(false);
            },
        }
        proof {
            assert(seats@ =~= carriers@.take(i + 1).filter(second).map_values(item));
        }
        i += 1;
    }
    proof {
        assert(carriers@.take(carriers@.len() as int) == carriers@);
        lemma_listing(order, carriers@, first, second, both, item, |seat: Seat| seat.entity);
    }
    seats
}

/// The movers of the store in walk order, each once and none left out.
pub(crate) fn world_movers(world: &hecs::World) -> (movers: Vec<Entity>)
    ensures
        movers@ == movers_of(world_records(*world), world_order(*world)),
        movers@.no_duplicates(),
        forall|e: Entity|
            world_records(*world).contains_key(e) && world_records(*world)[e].is_mover()
                ==> movers@.contains(e),
{
    let carriers = world_carriers::<Transform>(world);
    let ghost records = world_records(*world);
    let ghost order = world_order(*world);
    let ghost first = |e: Entity|
        records.contains_key(e) && Transform::part_of(records[e]).is_some();
    let ghost second = |e: Entity| records[e].velocity.is_some();
    let ghost both = |e: Entity| records.contains_key(e) && records[e].is_mover();
    let ghost item = |e: Entity| e;
    let mut movers: Vec<Entity> = Vec::new();
    let mut i: usize = 0;
    proof {
        reveal(Seq::filter);
        assert(carriers@.take(0).filter(second) == Seq::<Entity>::empty());
    }
    while i < carriers.len()
        invariant
            i <= carriers.len(),
            records == world_records(*world),
            carriers@ == order.filter(first),
            first == |e: Entity|
                records.contains_key(e) && Transform::part_of(records[e]).is_some(),
            second == |e: Entity| records[e].velocity.is_some(),
            movers@ == carriers@.take(i as int).filter(second),
        decreases carriers.len() - i,
    {
        let entity = carriers[i];
        proof {
            order.lemma_filter_pred(first, i as int);
            assert(carriers@.take(i + 1) == carriers@.take(i as int).push(entity));
            carriers@.take(i as int).lemma_filter_push(entity, second);
        }
        if world_get::<Velocity>(world, entity).is_some() {
            movers.push(entity);
        }
        i += 1;
    }
    proof {
        assert(carriers@.take(carriers@.len() as int) == carriers@);
        lemma_listing(order, carriers@, first, second, both, item, |e: Entity| e);
        assert(carriers@.filter(second).map_values(item) =~= carriers@.filter(second));
        assert(order.filter(both).map_values(item) =~= order.filter(both));
        assert(carriers@.filter(second).map_values(item).map_values(|e: Entity| e)
            =~= carriers@.filter(second));
    }
    movers
}

/// The helms of the store in walk order, each entity once and none left
/// out.
pub(crate) fn world_helms(world: &hecs::World) -> (helms: Vec<Helm>)
    ensures
        helms@ == helms_of(world_records(*world), world_order(*world)),
        helms@.map_values(|helm: Helm| helm.entity).no_duplicates(),
        forall|e: Entity|
            world_records(*world).contains_key(e) && world_records(*world)[e].is_helm()
                ==> helms@.map_values(|helm: Helm| helm.entity).contains(e),
{
    let carriers = world_carriers::<Ship>(world);
    let ghost records = world_records(*world);
    let ghost order = world_order(*world);
    let ghost first = |e: Entity| records.contains_key(e) && Ship::part_of(records[e]).is_some();
    let ghost second = |e: Entity|
        records[e].transform.is_some() && records[e].input_buffer.is_some();
    let ghost both = |e: Entity| records.contains_key(e) && records[e].is_helm();
    let ghost item = |e: Entity| helm_of(e, records[e]);
    let mut helms: Vec<Helm> = Vec::new();
    let mut i: usize = 0;
    proof {
        reveal(Seq::filter);
        assert(carriers@.take(0).filter(second) == Seq::<Entity>::empty());
    }
    while i < carriers.len()
        invariant
            i <= carriers.len(),
            records == world_records(*world),
            carriers@ == order.filter(first),
            first == |e: Entity| records.contains_key(e) && Ship::part_of(records[e]).is_some(),
            second == |e: Entity|
                records[e].transform.is_some() && records[e].input_buffer.is_some(),
            item == |e: Entity| helm_of(e, records[e]),
            helms@ == carriers@.take(i as int).filter(second).map_values(item),
        decreases carriers.len() - i,
    {
        let entity = carriers[i];
        proof {
            order.lemma_filter_pred(first, i as int);
            assert(carriers@.take(i + 1) == carriers@.take(i as int).push(entity));
            carriers@.take(i as int).lemma_filter_push(entity, second);
        }
        match (world_get::<Ship>(world, entity), world_get::<Transform>(world, entity)) {
            (Some(ship), Some(transform)) => {
                if world_get::<InputBuffer>(world, entity).is_some() {
                    helms.push(Helm { entity, rotation: transform.rotation, ship });
                }
            },
            _ => {},
        }
        proof {
            assert(helms@ =~= carriers@.take(i + 1).filter(second).map_values(item));
        }
        i += 1;
    }
    proof {
        assert(carriers@.take(carriers@.len() as int) == carriers@);
        lemma_listing(order, carriers@, first, second, both, item, |helm: Helm| helm.entity);
    }
    helms
}

/// The gunners of the store in walk order, each entity once and none
/// left out.
pub(crate) fn world_gunners(world: &hecs::World) -> (gunners: Vec<Gunner>)
    ensures
        gunners@ == gunners_of(world_records(*world), world_order(*world)),
        gunners@.map_values(|gunner: Gunner| gunner.entity).no_duplicates(),
        forall|e: Entity|
            world_records(*world).contains_key(e) && world_records(*world)[e].is_gunner()
                ==> gunners@.map_values(|gunner: Gunner| gunner.entity).contains(e),
{
    let carriers = world_carriers::<Weapon>(world);
    let ghost records = world_records(*world);
    let ghost order = world_order(*world);
    let ghost first = |e: Entity| records.contains_key(e) && Weapon::part_of(records[e]).is_some();
    let ghost second = |e: Entity|
        records[e].transform.is_some() && records[e].player.is_some()
            && records[e].input_buffer.is_some();
    let ghost both = |e: Entity| records.contains_key(e) && records[e].is_gunner();
    let ghost item = |e: Entity| gunner_of(e, records[e]);
    let mut gunners: Vec<Gunner> = Vec::new();
    let mut i: usize = 0;
    proof {
        reveal(Seq::filter);
        assert(carriers@.take(0).filter(second) == Seq::<Entity>::empty());
    }
    while i < carriers.len()
        invariant
            i <= carriers.len(),
            records == world_records(*world),
            carriers@ == order.filter(first),
            first == |e: Entity| records.contains_key(e) && Weapon::part_of(records[e]).is_some(),
            second == |e: Entity|
                records[e].transform.is_some() && records[e].player.is_some()
                    && records[e].input_buffer.is_some(),
            item == |e: Entity| gunner_of(e, records[e]),
            gunners@ == carriers@.take(i as int).filter(second).map_values(item),
        decreases carriers.len() - i,
    {
        let entity = carriers[i];
        proof {
            order.lemma_filter_pred(first, i as int);
            assert(carriers@.take(i + 1) == carriers@.take(i as int).push(entity));
            carriers@.take(i as int).lemma_filter_push(entity, second);
        }
        match (
            world_get::<Weapon>(world, entity),
            world_get::<Transform>(world, entity),
            world_get::<Player>(world, entity),
        ) {
            (Some(weapon), Some(transform), Some(player)) => {
                if world_get::<InputBuffer>(world, entity).is_some() {
                    gunners.push(Gunner { entity, transform, player_id: player.id, weapon });
                }
            },
            _ => {},
        }
        proof {
            assert(gunners@ =~= carriers@.take(i + 1).filter(second).map_values(item));
        }
        i += 1;
    }
    proof {
        assert(carriers@.take(carriers@.len() as int) == carriers@);
        lemma_listing(
            order,
            carriers@,
            first,
            second,
            both,
            item,
            |gunner: Gunner| gunner.entity,
        );
    }
    gunners
}

/// What a snapshot shows of each entity with a transform and a player,
/// in walk order, none left out.
pub(crate) fn world_player_entries(world: &hecs::World) -> (entries: Vec<PlayerEntry>)
    ensures
        entries@.map_values(|entry: PlayerEntry| entry@) == player_entries_of(
            world_records(*world),
            world_order(*world),
        ),
        forall|e: Entity|
            world_records(*world).contains_key(e) && world_records(*world)[e].shows_player()
                ==> entries@.map_values(|entry: PlayerEntry| entry.entity).contains(e),
{
    let carriers = world_carriers::<Player>(world);
    let ghost records = world_records(*world);
    let ghost order = world_order(*world);
    let ghost first = |e: Entity| records.contains_key(e) && Player::part_of(records[e]).is_some();
    let ghost second = |e: Entity| records[e].transform.is_some();
    let ghost both = |e: Entity| records.contains_key(e) && records[e].shows_player();
    let ghost item = |e: Entity| player_entry_of(e, records[e]);
    let mut entries: Vec<PlayerEntry> = Vec::new();
    let mut i: usize = 0;
    proof {
        reveal(Seq::filter);
        assert(carriers@.take(0).filter(second) == Seq::<Entity>::empty());
        assert(entries@.map_values(|entry: PlayerEntry| entry@) =~= carriers@.take(0).filter(
            second,
        ).map_values(item));
    }
    while i < carriers.len()
        invariant
            i <= carriers.len(),
            records == world_records(*world),
            carriers@ == order.filter(first),
            first == |e: Entity| records.contains_key(e) && Player::part_of(records[e]).is_some(),
            second == |e: Entity| records[e].transform.is_some(),
            item == |e: Entity| player_entry_of(e, records[e]),
            entries@.map_values(|entry: PlayerEntry| entry@) == carriers@.take(i as int).filter(
                second,
            ).map_values(item),
        decreases carriers.len() - i,
    {
        let entity = carriers[i];
        let ghost held = entries@.map_values(|entry: PlayerEntry| entry@);
        proof {
            order.lemma_filter_pred(first, i as int);
            assert(carriers@.take(i + 1) == carriers@.take(i as int).push(entity));
            carriers@.take(i as int).lemma_filter_push(entity, second);
        }
        match (world_get::<Player>(world, entity), world_get::<Transform>(world, entity)) {
            (Some(player), Some(transform)) => {
                let entry = PlayerEntry {
                    entity,
                    transform,
                    player,
                    velocity: world_get::<Velocity>(world, entity),
                    health: world_get::<Health>(world, entity),
                    ship: world_get::<Ship>(world, entity),
                };
                assert(entry@ == item(entity));
                entries.push(entry);
                assert(entries@.map_values(|entry: PlayerEntry| entry@) =~= held.push(
                    item(entity),
                ));
            },
            _ => {},
        }
        proof {
            assert(entries@.map_values(|entry: PlayerEntry| entry@) =~= carriers@.take(
                i + 1,
            ).filter(second).map_values(item));
        }
        i += 1;
    }
    proof {
        assert(carriers@.take(carriers@.len() as int) == carriers@);
        lemma_listing(
            order,
            carriers@,
            first,
            second,
            both,
            item,
            |entry: PlayerEntryView| entry.entity,
        );
        let views = entries@.map_values(|entry: PlayerEntry| entry@);
        assert(entries@.map_values(|entry: PlayerEntry| entry.entity) =~= views.map_values(
            |entry: PlayerEntryView| entry.entity,
        ));
    }
    entries
}

/// What a snapshot shows of each entity with a transform and a
/// projectile, in walk order, none left out.
pub(crate) fn world_projectile_entries(world: &hecs::World) -> (entries: Vec<ProjectileEntry>)
    ensures
        entries@ == projectile_entries_of(world_records(*world), world_order(*world)),
        forall|e: Entity|
            world_records(*world).contains_key(e) && world_records(*world)[e].shows_projectile()
                ==> entries@.map_values(|entry: ProjectileEntry| entry.entity).contains(e),
{
    let carriers = world_carriers::<Projectile>(world);
    let ghost records = world_records(*world);
    let ghost order = world_order(*world);
    let ghost first = |e: Entity|
        records.contains_key(e) && Projectile::part_of(records[e]).is_some();
    let ghost second = |e: Entity| records[e].transform.is_some();
    let ghost both = |e: Entity| records.contains_key(e) && records[e].shows_projectile();
    let ghost item = |e: Entity| projectile_entry_of(e, records[e]);
    let mut entries: Vec<ProjectileEntry> = Vec::new();
    let mut i: usize = 0;
    proof {
        reveal(Seq::filter);
        assert(carriers@.take(0).filter(second) == Seq::<Entity>::empty());
    }
    while i < carriers.len()
        invariant
            i <= carriers.len(),
            records == world_records(*world),
            carriers@ == order.filter(first),
            first == |e: Entity|
                records.contains_key(e) && Projectile::part_of(records[e]).is_some(),
            second == |e: Entity| records[e].transform.is_some(),
            item == |e: Entity| projectile_entry_of(e, records[e]),
            entries@ == carriers@.take(i as int).filter(second).map_values(item),
        decreases carriers.len() - i,
    {
        let entity = carriers[i];
        proof {
            order.lemma_filter_pred(first, i as int);
            assert(carriers@.take(i + 1) == carriers@.take(i as int).push(entity));
            carriers@.take(i as int).lemma_filter_push(entity, second);
        }
        match (world_get::<Projectile>(world, entity), world_get::<Transform>(world, entity)) {
            (Some(projectile), Some(transform)) => {
                entries.push(
                    ProjectileEntry {
                        entity,
                        transform,
                        projectile,
                        velocity: world_get::<Velocity>(world, entity),
                    },
                );
            },
            _ => {},
        }
        proof {
            assert(entries@ =~= carriers@.take(i + 1).filter(second).map_values(item));
        }
        i += 1;
    }
    proof {
        assert(carriers@.take(carriers@.len() as int) == carriers@);
        lemma_listing(
            order,
            carriers@,
            first,
            second,
            both,
            item,
            |entry: ProjectileEntry| entry.entity,
        );
    }
    entries
}

} // verus!
