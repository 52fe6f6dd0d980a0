//! The world as clients see it after a tick: every player's entity and
//! every projectile, numbered and stamped.

use crate::components::{Health, Player, PlayerView, Projectile, Ship, Transform, Velocity, ZERO};
use crate::simulation::GameSimulation;
use crate::queries::{
    entity_index, player_entries_of, projectile_entries_of, world_player_entries,
    world_projectile_entries, PlayerEntry, PlayerEntryView, ProjectileEntry,
};
use crate::store::{world_order, world_records, Entity, EntityRecord};
use vstd::prelude::*;

verus! {

/// What a snapshot entry stands for.
#[derive(Debug, Clone, PartialEq, Eq)]
pub enum EntityType {
    Player(Player),
    Projectile(Projectile),
    /// Reserved for computer-steered opponents.
    Enemy,
}

/// An `EntityType` as plain values.
pub enum EntityTypeView {
    Player(PlayerView),
    Projectile(Projectile),
    Enemy,
}

impl View for EntityType {
    type V = EntityTypeView;

    open spec fn view(&self) -> EntityTypeView {
        match self {
            EntityType::Player(player) => EntityTypeView::Player(player@),
            EntityType::Projectile(projectile) => EntityTypeView::Projectile(*projectile),
            EntityType::Enemy => EntityTypeView::Enemy,
        }
    }
}

/// One entity as clients see it.
#[derive(Debug, Clone, PartialEq, Eq)]
pub struct EntitySnapshot {
    pub entity_id: u64,
    pub entity_type: EntityType,
    pub transform: Transform,
    pub velocity: Velocity,
    pub health: Health,
    /// The ship's configuration; only players have one.
    pub ship: Option<Ship>,
}

/// An `EntitySnapshot` as plain values.
pub struct EntitySnapshotView {
    pub entity_id: u64,
    pub entity_type: EntityTypeView,
    pub transform: Transform,
    pub velocity: Velocity,
    pub health: Health,
    pub ship: Option<Ship>,
}

impl View for EntitySnapshot {
    type V = EntitySnapshotView;

    open spec fn view(&self) -> EntitySnapshotView {
        EntitySnapshotView {
            entity_id: self.entity_id,
            entity_type: self.entity_type@,
            transform: self.transform,
            velocity: self.velocity,
            health: self.health,
            ship: self.ship,
        }
    }
}

/// The world as clients see it after a tick.
#[derive(Debug, Clone, PartialEq, Eq)]
pub struct GameSnapshot {
    pub sequence: u32,
    pub tick: u64,
    /// Wall-clock milliseconds since the Unix epoch.
    pub timestamp: u64,
    pub entities: Vec<EntitySnapshot>,
}

/// A `GameSnapshot` as plain values.
pub struct GameSnapshotView {
    pub sequence: u32,
    pub tick: u64,
    pub timestamp: u64,
    pub entities: Seq<EntitySnapshotView>,
}

impl View for GameSnapshot {
    type V = GameSnapshotView;

    open spec fn view(&self) -> GameSnapshotView {
        GameSnapshotView {
            sequence: self.sequence,
            tick: self.tick,
            timestamp: self.timestamp,
            entities: entity_views(self.entities@),
        }
    }
}

/// The snapshot entries of `entities` as plain values.
pub open spec fn entity_views(entities: Seq<EntitySnapshot>) -> Seq<EntitySnapshotView> {
    entities.map_values(|entity: EntitySnapshot| entity@)
}

/// How a snapshot shows a player's entity. Velocity and health that the
/// entity does not carry are shown at their defaults.
pub open spec fn player_snapshot(entry: PlayerEntryView) -> EntitySnapshotView {
    EntitySnapshotView {
        entity_id: entity_index(entry.entity),
        entity_type: EntityTypeView::Player(entry.player),
        transform: entry.transform,
        velocity: match entry.velocity {
            Some(velocity) => velocity,
            None => Velocity { linear: [ZERO, ZERO], angular: ZERO },
        },
        health: match entry.health {
            Some(health) => health,
            None => Health::fresh(),
        },
        ship: entry.ship,
    }
}

/// How a snapshot shows a projectile. It has no health of its own and
/// is shown with the default.
pub open spec fn projectile_snapshot(entry: ProjectileEntry) -> EntitySnapshotView {
    EntitySnapshotView {
        entity_id: entity_index(entry.entity),
        entity_type: EntityTypeView::Projectile(entry.projectile),
        transform: entry.transform,
        velocity: match entry.velocity {
            Some(velocity) => velocity,
            None => Velocity { linear: [ZERO, ZERO], angular: ZERO },
        },
        health: Health::fresh(),
        ship: None,
    }
}

/// The entries of a snapshot: first every entity with a transform and a
/// player, then every entity with a transform and a projectile.
pub open spec fn snapshot_entities(
    records: Map<Entity, EntityRecord>,
    order: Seq<Entity>,
) -> Seq<EntitySnapshotView> {
    player_entries_of(records, order).map_values(|entry: PlayerEntryView| player_snapshot(entry))
        + projectile_entries_of(records, order).map_values(
        |entry: ProjectileEntry| projectile_snapshot(entry),
    )
}

/// A snapshot leaves out no entity that carries a transform and a player
/// or a transform and a projectile, provided the walk of the store meets
/// every live entity.
pub proof fn lemma_snapshot_membership(
    records: Map<Entity, EntityRecord>,
    order: Seq<Entity>,
    entity: Entity,
)
    requires
        order.contains(entity),
        records.contains_key(entity),
        records[entity].shows_player() || records[entity].shows_projectile(),
    ensures
        exists|i: int|
            0 <= i < snapshot_entities(records, order).len() && snapshot_entities(
                records,
                order,
            )[i].entity_id == entity_index(entity),
{
    let players = |e: Entity| records.contains_key(e) && records[e].shows_player();
    let projectiles = |e: Entity| records.contains_key(e) && records[e].shows_projectile();
    let shown_players = player_entries_of(records, order).map_values(
        |entry: PlayerEntryView| player_snapshot(entry),
    );
    let shown_projectiles = projectile_entries_of(records, order).map_values(
        |entry: ProjectileEntry| projectile_snapshot(entry),
    );
    let at = choose|at: int| 0 <= at < order.len() && order[at] == entity;
    if records[entity].shows_player() {
        order.lemma_filter_contains(players, at);
        let kept = order.filter(players);
        let i = choose|i: int| 0 <= i < kept.len() && kept[i] == entity;
        assert(shown_players[i].entity_id == entity_index(entity));
        assert(snapshot_entities(records, order)[i] == shown_players[i]);
    } else {
        order.lemma_filter_contains(projectiles, at);
        let kept = order.filter(projectiles);
        let i = choose|i: int| 0 <= i < kept.len() && kept[i] == entity;
        assert(shown_projectiles[i].entity_id == entity_index(entity));
        assert(snapshot_entities(records, order)[shown_players.len() + i]
            == shown_projectiles[i]);
    }
}

impl GameSimulation {
    /// The world as clients see it now, stamped with `timestamp`: every
    /// entity with a transform and a player, then every entity with a
    /// transform and a projectile. Nothing changes; the simulation is
    /// taken exclusively so that no component is on loan while the store
    /// is read.
    pub fn generate_snapshot(&mut self, timestamp: u64) -> (snapshot: GameSnapshot)
        ensures
            *final(self) == *old(self),
            snapshot@ == (GameSnapshotView {
                sequence: old(self).snapshot_sequence,
                tick: old(self).tick,
                timestamp,
                entities: snapshot_entities(
                    world_records(old(self).world),
                    world_order(old(self).world),
                ),
            }),
    {
        let players = world_player_entries(&self.world);
        let projectiles = world_projectile_entries(&self.world);
        let ghost player_views = players@.map_values(|entry: PlayerEntry| entry@);
        let ghost shown_players = player_views.map_values(
            |entry: PlayerEntryView| player_snapshot(entry),
        );
        let ghost shown_projectiles = projectiles@.map_values(
            |entry: ProjectileEntry| projectile_snapshot(entry),
        );
        let mut entities: Vec<EntitySnapshot> = Vec::new();
        let mut i: usize = 0;
        while i < players.len()
            invariant
                i <= players.len(),
                player_views == players@.map_values(|entry: PlayerEntry| entry@),
                shown_players == player_views.map_values(
                    |entry: PlayerEntryView| player_snapshot(entry),
                ),
                entity_views(entities@) == shown_players.take(i as int),
            decreases players.len() - i,
        {
            let entry = &players[i];
            let velocity = match entry.velocity {
                Some(velocity) => velocity,
                None => Velocity::default(),
            };
            let health = match entry.health {
                Some(health) => health,
                None => Health::default(),
            };
            let player = Player {
                id: entry.player.id,
                name: entry.player.name.clone(),
                score: entry.player.score,
                kills: entry.player.kills,
                deaths: entry.player.deaths,
                credits: entry.player.credits,
            };
            let shown = EntitySnapshot {
                entity_id: entry.entity & 0xffff_ffff,
                entity_type: EntityType::Player(player),
                transform: entry.transform,
                velocity,
                health,
                ship: entry.ship,
            };
            proof {
                assert(shown@ == shown_players[i as int]);
                assert(entity_views(entities@.push(shown)) =~= entity_views(entities@).push(
                    shown@,
                ));
                assert(shown_players.take(i + 1) =~= shown_players.take(i as int).push(
                    shown_players[i as int],
                ));
            }
            entities.push(shown);
            i += 1;
        }
        proof {
            assert(shown_players.take(players@.len() as int) == shown_players);
        }
        let mut k: usize = 0;
        while k < projectiles.len()
            invariant
                k <= projectiles.len(),
                shown_projectiles == projectiles@.map_values(
                    |entry: ProjectileEntry| projectile_snapshot(entry),
                ),
                entity_views(entities@) == shown_players + shown_projectiles.take(k as int),
            decreases projectiles.len() - k,
        {
            let entry = projectiles[k];
            let velocity = match entry.velocity {
                Some(velocity) => velocity,
                None => Velocity::default(),
            };
            let shown = EntitySnapshot {
                entity_id: entry.entity & 0xffff_ffff,
                entity_type: EntityType::Projectile(entry.projectile),
                transform: entry.transform,
                velocity,
                health: Health::default(),
                ship: None,
            };
            proof {
                assert(shown@ == shown_projectiles[k as int]);
                assert(entity_views(entities@.push(shown)) =~= entity_views(entities@).push(
                    shown@,
                ));
                assert(shown_projectiles.take(k + 1) =~= shown_projectiles.take(k as int).push(
                    shown_projectiles[k as int],
                ));
                assert((shown_players + shown_projectiles.take(k as int)).push(shown@)
                    =~= shown_players + shown_projectiles.take(k + 1));
            }
            entities.push(shown);
            k += 1;
        }
        proof {
            assert(shown_projectiles.take(projectiles@.len() as int) == shown_projectiles);
        }
        GameSnapshot {
            sequence: self.snapshot_sequence,
            tick: self.tick,
            timestamp,
            entities,
        }
    }
}

} // verus!
