//! The entity store: which entities are live and which components each
//! carries. The store itself is a `hecs::World`; this module says what it
//! holds in terms of plain values and states what the few operations
//! that the simulation needs do to it. Nothing in this module is proved:
//! it is the boundary to the store.

use crate::components::{
    Collider, Health, Lifetime, Player, PlayerView, Projectile, RigidBody, Ship, Transform,
    Velocity, Weapon,
};
use crate::input::{InputBuffer, InputBufferView};
use vstd::prelude::*;

verus! {

/// Handle of an entity: the bits of a `hecs::Entity`.
pub type Entity = u64;

#[verifier::external_type_specification]
#[verifier::external_body]
pub struct ExWorld(hecs::World);

#[verifier::external_type_specification]
#[verifier::external_body]
pub struct ExEntityBuilder(hecs::EntityBuilder);

/// The components of one entity, as plain values. A component that the
/// entity does not carry is `None`.
pub struct EntityRecord {
    pub transform: Option<Transform>,
    pub velocity: Option<Velocity>,
    pub health: Option<Health>,
    pub player: Option<PlayerView>,
    pub input_buffer: Option<InputBufferView>,
    pub ship: Option<Ship>,
    pub weapon: Option<Weapon>,
    pub projectile: Option<Projectile>,
    pub lifetime: Option<Lifetime>,
    pub rigid_body: Option<RigidBody>,
    pub collider: Option<Collider>,
}

/// The live entities of a store, each with its components.
pub uninterp spec fn world_records(world: hecs::World) -> Map<Entity, EntityRecord>;

/// The live entities of a store in the order in which a walk over the
/// store meets them. Every query visits its matches in this order.
pub uninterp spec fn world_order(world: hecs::World) -> Seq<Entity>;

/// The components that a builder has been given.
pub uninterp spec fn builder_record(builder: hecs::EntityBuilder) -> EntityRecord;

/// The records of a store without entities.
pub open spec fn no_records() -> Map<Entity, EntityRecord> {
    Map::empty()
}

impl EntityRecord {
    /// The record of an entity without components.
    pub open spec fn bare() -> EntityRecord {
        EntityRecord {
            transform: None,
            velocity: None,
            health: None,
            player: None,
            input_buffer: None,
            ship: None,
            weapon: None,
            projectile: None,
            lifetime: None,
            rigid_body: None,
            collider: None,
        }
    }
}

/// A kind of component: which place of a record it fills.
pub trait Part: Sized {
    /// The component as plain values.
    type Model;

    /// This component as plain values.
    spec fn model(&self) -> Self::Model;

    /// The component of this kind in `record`, if it has one.
    spec fn part_of(record: EntityRecord) -> Option<Self::Model>;

    /// `record` with `part` as its component of this kind.
    spec fn with_part(record: EntityRecord, part: Self::Model) -> EntityRecord;
}

impl Part for Transform {
    type Model = Transform;

    open spec fn model(&self) -> Transform {
        *self
    }

    open spec fn part_of(record: EntityRecord) -> Option<Transform> {
        record.transform
    }

    open spec fn with_part(record: EntityRecord, part: Transform) -> EntityRecord {
        EntityRecord { transform: Some(part), ..record }
    }
}

impl Part for Velocity {
    type Model = Velocity;

    open spec fn model(&self) -> Velocity {
        *self
    }

    open spec fn part_of(record: EntityRecord) -> Option<Velocity> {
        record.velocity
    }

    open spec fn with_part(record: EntityRecord, part: Velocity) -> EntityRecord {
        EntityRecord { velocity: Some(part), ..record }
    }
}

impl Part for Health {
    type Model = Health;

    open spec fn model(&self) -> Health {
        *self
    }

    open spec fn part_of(record: EntityRecord) -> Option<Health> {
        record.health
    }

    open spec fn with_part(record: EntityRecord, part: Health) -> EntityRecord {
        EntityRecord { health: Some(part), ..record }
    }
}

impl Part for Player {
    type Model = PlayerView;

    open spec fn model(&self) -> PlayerView {
        self@
    }

    open spec fn part_of(record: EntityRecord) -> Option<PlayerView> {
        record.player
    }

    open spec fn with_part(record: EntityRecord, part: PlayerView) -> EntityRecord {
        EntityRecord { player: Some(part), ..record }
    }
}

impl Part for InputBuffer {
    type Model = InputBufferView;

    open spec fn model(&self) -> InputBufferView {
        self@
    }

    open spec fn part_of(record: EntityRecord) -> Option<InputBufferView> {
        record.input_buffer
    }

    open spec fn with_part(record: EntityRecord, part: InputBufferView) -> EntityRecord {
        EntityRecord { input_buffer: Some(part), ..record }
    }
}

impl Part for Ship {
    type Model = Ship;

    open spec fn model(&self) -> Ship {
        *self
    }

    open spec fn part_of(record: EntityRecord) -> Option<Ship> {
        record.ship
    }

    open spec fn with_part(record: EntityRecord, part: Ship) -> EntityRecord {
        EntityRecord { ship: Some(part), ..record }
    }
}

impl Part for Weapon {
    type Model = Weapon;

    open spec fn model(&self) -> Weapon {
        *self
    }

    open spec fn part_of(record: EntityRecord) -> Option<Weapon> {
        record.weapon
    }

    open spec fn with_part(record: EntityRecord, part: Weapon) -> EntityRecord {
        EntityRecord { weapon: Some(part), ..record }
    }
}

impl Part for Projectile {
    type Model = Projectile;

    open spec fn model(&self) -> Projectile {
        *self
    }

    open spec fn part_of(record: EntityRecord) -> Option<Projectile> {
        record.projectile
    }

    open spec fn with_part(record: EntityRecord, part: Projectile) -> EntityRecord {
        EntityRecord { projectile: Some(part), ..record }
    }
}

impl Part for Lifetime {
    type Model = Lifetime;

    open spec fn model(&self) -> Lifetime {
        *self
    }

    open spec fn part_of(record: EntityRecord) -> Option<Lifetime> {
        record.lifetime
    }

    open spec fn with_part(record: EntityRecord, part: Lifetime) -> EntityRecord {
        EntityRecord { lifetime: Some(part), ..record }
    }
}

impl Part for RigidBody {
    type Model = RigidBody;

    open spec fn model(&self) -> RigidBody {
        *self
    }

    open spec fn part_of(record: EntityRecord) -> Option<RigidBody> {
        record.rigid_body
    }

    open spec fn with_part(record: EntityRecord, part: RigidBody) -> EntityRecord {
        EntityRecord { rigid_body: Some(part), ..record }
    }
}

impl Part for Collider {
    type Model = Collider;

    open spec fn model(&self) -> Collider {
        *self
    }

    open spec fn part_of(record: EntityRecord) -> Option<Collider> {
        record.collider
    }

    open spec fn with_part(record: EntityRecord, part: Collider) -> EntityRecord {
        EntityRecord { collider: Some(part), ..record }
    }
}

/// The entities of a store that carry a component of kind `T`, in walk
/// order.
pub open spec fn carriers_of<T: Part>(
    records: Map<Entity, EntityRecord>,
    order: Seq<Entity>,
) -> Seq<Entity> {
    order.filter(|e: Entity| records.contains_key(e) && T::part_of(records[e]).is_some())
}

/// `hecs::World::new`: a store without entities.
pub assume_specification[ hecs::World::new ]() -> (fresh: hecs::World)
    ensures
        world_records(fresh) == no_records(),
        world_order(fresh) == Seq::<Entity>::empty(),
;

/// `hecs::World::len`: the number of live entities.
pub assume_specification[ hecs::World::len ](world: &hecs::World) -> (count: u32)
    ensures
        count == world_records(*world).len(),
;

/// `hecs::EntityBuilder::new`: a builder that has been given nothing.
pub assume_specification[ hecs::EntityBuilder::new ]() -> (fresh: hecs::EntityBuilder)
    ensures
        builder_record(fresh) == EntityRecord::bare(),
;

/// `hecs::EntityBuilder::add`: the builder holds `part` as its component
/// of kind `T`, in place of an earlier one of that kind, and what else
/// it held.
#[verifier::external_body]
pub(crate) fn builder_add<T: Part + Send + Sync + 'static>(
    builder: &mut hecs::EntityBuilder,
    part: T,
)
    ensures
        builder_record(*final(builder)) == T::with_part(builder_record(*old(builder)), part.model()),
{
    builder.add(part);
}

/// `hecs::World::spawn` with what `hecs::EntityBuilder::build` hands
/// over. The new entity was not live before, gets exactly the components
/// that the builder was given, and enters the walk at some place without
/// moving the others. The call is left out where the store is full.
#[verifier::external_body]
pub(crate) fn world_spawn(world: &mut hecs::World, builder: hecs::EntityBuilder) -> (entity:
    Entity)
    requires
        world_records(*old(world)).len() < u32::MAX,
    ensures
        !world_records(*old(world)).contains_key(entity),
        world_records(*final(world)) == world_records(*old(world)).insert(
            entity,
            builder_record(builder),
        ),
        exists|at: int|
            0 <= at <= world_order(*old(world)).len() && world_order(*final(world)) == world_order(
                *old(world),
            ).insert(at, entity),
{
    let mut builder = builder;
    world.spawn(builder.build()).to_bits().get()
}

/// `hecs::World::despawn`: tells whether the entity was live, and leaves
/// the store without it. The walk may meet the others in a new order.
#[verifier::external_body]
pub(crate) fn world_despawn(world: &mut hecs::World, entity: Entity) -> (removed: bool)
    ensures
        removed == world_records(*old(world)).contains_key(entity),
        world_records(*final(world)) == world_records(*old(world)).remove(entity),
        world_order(*final(world)).to_set() == world_order(*old(world)).to_set().remove(entity),
        world_order(*final(world)).no_duplicates(),
{
    match hecs::Entity::from_bits(entity) {
        Some(handle) => world.despawn(handle).is_ok(),
        None => false,
    }
}

/// `hecs::World::get`: a copy of the entity's component of kind `T`, if
/// the entity is live and carries one. The store is read while no
/// component is on loan: every caller holds the simulation exclusively.
#[verifier::external_body]
pub(crate) fn world_get<T: Part + Clone + Send + Sync + 'static>(
    world: &hecs::World,
    entity: Entity,
) -> (part: Option<T>)
    ensures
        match part {
            Some(found) => world_records(*world).contains_key(entity) && T::part_of(
                world_records(*world)[entity],
            ) == Some(found.model()),
            None => !world_records(*world).contains_key(entity) || T::part_of(
                world_records(*world)[entity],
            ).is_none(),
        },
{
    let handle = hecs::Entity::from_bits(entity)?;
    world.get::<&T>(handle).ok().map(|part| (*part).clone())
}

/// `hecs::World::query_one_mut` for the component of kind `T`, and an
/// assignment through it: where the entity is live and carries such a
/// component, it is replaced by `part` and nothing else changes;
/// otherwise nothing changes at all.
#[verifier::external_body]
pub(crate) fn world_set<T: Part + Send + Sync + 'static>(
    world: &mut hecs::World,
    entity: Entity,
    part: T,
) -> (stored: bool)
    ensures
        stored == (world_records(*old(world)).contains_key(entity) && T::part_of(
            world_records(*old(world))[entity],
        ).is_some()),
        world_records(*final(world)) == if stored {
            world_records(*old(world)).insert(
                entity,
                T::with_part(world_records(*old(world))[entity], part.model()),
            )
        } else {
            world_records(*old(world))
        },
        world_order(*final(world)) == world_order(*old(world)),
{
    let slot = hecs::Entity::from_bits(entity).and_then(
        |handle| world.query_one_mut::<&mut T>(handle).ok(),
    );
    match slot {
        Some(held) => {
            *held = part;
            true
        },
        None => false,
    }
}

/// `hecs::World::query` for one kind of component: the entities that
/// carry it, in walk order, each once and none left out. The store is
/// read while no component is on loan: every caller holds the simulation
/// exclusively.
#[verifier::external_body]
pub(crate) fn world_carriers<T: Part + Send + Sync + 'static>(world: &hecs::World) -> (carriers:
    Vec<Entity>)
    ensures
        carriers@ == carriers_of::<T>(world_records(*world), world_order(*world)),
        carriers@.no_duplicates(),
        forall|e: Entity|
            world_records(*world).contains_key(e) && T::part_of(world_records(*world)[e]).is_some()
                ==> carriers@.contains(e),
{
    let mut query = world.query::<(hecs::Entity, &T)>();
    query.iter().map(|(entity, _)| entity.to_bits().get()).collect()
}

} // verus!
