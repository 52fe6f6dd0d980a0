use cosmic_crunchers::input::InputData;
use cosmic_crunchers::simulation::{BodyLink, GameSimulation};
use cosmic_crunchers::snapshot::{EntitySnapshot, EntityType};
use cosmic_crunchers::wire_format::{BodyKind, BodyProbe};
use rapier2d::prelude::{
    CCDSolver, ColliderBuilder, ColliderSet, DefaultBroadPhase, ImpulseJointSet,
    IntegrationParameters, IslandManager, MultibodyJointSet, NarrowPhase, PhysicsPipeline,
    RigidBodyBuilder, RigidBodyHandle, RigidBodySet, RigidBodyType, SoftBodySet, Vector,
};

const PILOT: u128 = 0x1234;
const DT: f32 = 1.0 / 15.0;

struct Host {
    sim: GameSimulation,
    bodies: RigidBodySet,
    colliders: ColliderSet,
    parameters: IntegrationParameters,
    pipeline: PhysicsPipeline,
    islands: IslandManager,
    broad_phase: DefaultBroadPhase,
    narrow_phase: NarrowPhase,
    impulse_joints: ImpulseJointSet,
    multibody_joints: MultibodyJointSet,
    soft_bodies: SoftBodySet,
    ccd: CCDSolver,
}

fn pack(handle: RigidBodyHandle) -> u64 {
    let (index, generation) = handle.into_raw_parts();
    ((generation as u64) << 32) | index as u64
}

fn unpack(handle: u64) -> RigidBodyHandle {
    RigidBodyHandle::from_raw_parts(handle as u32, (handle >> 32) as u32)
}

impl Host {
    fn new() -> Host {
        Host {
            sim: GameSimulation::new(),
            bodies: RigidBodySet::new(),
            colliders: ColliderSet::new(),
            parameters: IntegrationParameters::default(),
            pipeline: PhysicsPipeline::new(),
            islands: IslandManager::new(),
            broad_phase: DefaultBroadPhase::default(),
            narrow_phase: NarrowPhase::new(),
            impulse_joints: ImpulseJointSet::new(),
            multibody_joints: MultibodyJointSet::new(),
            soft_bodies: SoftBodySet::new(),
            ccd: CCDSolver::new(),
        }
    }

    fn spawn_ship(&mut self, x: f32, y: f32) -> u64 {
        let body = RigidBodyBuilder::dynamic()
            .translation(Vector::new(x, y))
            .linear_damping(0.4)
            .angular_damping(1.0)
            .build();
        let body = self.bodies.insert(body);
        let collider = ColliderBuilder::ball(8.0).density(1.0).friction(0.0).restitution(0.8).build();
        let collider = self.colliders.insert_with_parent(collider, body, &mut self.bodies);
        let mass = self.bodies[body].mass();
        let (index, generation) = collider.into_raw_parts();
        self.sim.spawn_player_ship(
            PILOT,
            "pilot".to_string(),
            [x.to_bits(), y.to_bits()],
            mass.to_bits(),
            BodyLink { body: pack(body), collider: ((generation as u64) << 32) | index as u64 },
        )
    }

    fn read_bodies(&self) -> Vec<BodyProbe> {
        self.bodies
            .iter()
            .map(|(handle, body)| BodyProbe {
                handle: pack(handle),
                position: [body.translation().x.to_bits(), body.translation().y.to_bits()],
                rotation: body.rotation().angle().to_bits(),
                kind: match body.body_type() {
                    RigidBodyType::Dynamic => BodyKind::Dynamic,
                    RigidBodyType::KinematicVelocityBased => BodyKind::KinematicVelocityBased,
                    RigidBodyType::KinematicPositionBased => BodyKind::KinematicPositionBased,
                    RigidBodyType::Fixed => BodyKind::Fixed,
                    RigidBodyType::SoftFrame => BodyKind::SoftFrame,
                },
                mass: body.mass().to_bits(),
                linear_damping: body.linear_damping().to_bits(),
                angular_damping: body.angular_damping().to_bits(),
                linear_velocity: [body.linvel().x.to_bits(), body.linvel().y.to_bits()],
                angular_velocity: body.angvel().to_bits(),
                moving: body.linvel().length() > 0.01 || body.angvel().abs() > 0.01,
            })
            .collect()
    }

    fn step(&mut self) -> EntitySnapshot {
        self.sim.prepare_inputs();
        for order in self.sim.take_movement_orders() {
            let body = self.bodies.get_mut(unpack(order.body)).unwrap();
            let thrust = f32::from_bits(order.thrust);
            let turn = f32::from_bits(order.turn);
            let heading = f32::from_bits(order.rotation);
            body.reset_forces(true);
            body.reset_torques(true);
            if thrust != 0.0 {
                let push = f32::from_bits(order.thrust_power) * thrust;
                body.add_force(Vector::new(heading.cos() * push, heading.sin() * push), true);
            }
            if turn != 0.0 {
                let torque =
                    -turn * f32::from_bits(order.turn_rate) * f32::from_bits(order.mass) * 100.0;
                body.add_torque(torque, true);
            }
        }
        self.parameters.dt = DT;
        self.pipeline.step(
            Vector::new(0.0, 0.0),
            &self.parameters,
            &mut self.islands,
            &mut self.broad_phase,
            &mut self.narrow_phase,
            &mut self.bodies,
            &mut self.colliders,
            &mut self.impulse_joints,
            &mut self.multibody_joints,
            &mut self.soft_bodies,
            &mut self.ccd,
            &(),
            &(),
        );
        let bodies = self.read_bodies();
        self.sim.sync_physics_to_ecs(&bodies);
        let snapshot = self.sim.complete_step(0).snapshot.unwrap();
        snapshot
            .entities
            .into_iter()
            .find(|shown| matches!(shown.entity_type, EntityType::Player(_)))
            .unwrap()
    }
}

fn input(sequence: u32, thrust: f32) -> InputData {
    InputData {
        sequence,
        timestamp: 0,
        thrust: thrust.to_bits(),
        turn: 0.0f32.to_bits(),
        primary_fire: false,
        secondary_fire: false,
    }
}

fn speed(shown: &EntitySnapshot) -> f32 {
    let vx = f32::from_bits(shown.velocity.linear[0]);
    let vy = f32::from_bits(shown.velocity.linear[1]);
    (vx * vx + vy * vy).sqrt()
}

#[test]
fn idle_ship_stays_where_it_spawned() {
    let mut host = Host::new();
    host.spawn_ship(100.0, 0.0);
    let mut shown = None;
    for tick in 1..=15 {
        let entry = host.step();
        assert_eq!(host.sim.tick, tick);
        shown = Some(entry);
    }
    let shown = shown.unwrap();
    assert!((f32::from_bits(shown.transform.position[0]) - 100.0).abs() < 1e-3);
    assert!(f32::from_bits(shown.transform.position[1]).abs() < 1e-3);
    assert!(speed(&shown) < 1e-3);
    assert_eq!(f32::from_bits(shown.health.shield), 50.0);
    assert_eq!(host.sim.tick, 15);
}

#[test]
fn full_thrust_moves_the_ship_forward() {
    let mut host = Host::new();
    host.spawn_ship(0.0, 0.0);
    let mut last_x = 0.0f32;
    let mut fastest = 0.0f32;
    for tick in 1..=15u32 {
        assert!(host.sim.add_player_input(PILOT, input(tick, 1.0)));
        let shown = host.step();
        let x = f32::from_bits(shown.transform.position[0]);
        let y = f32::from_bits(shown.transform.position[1]);
        assert!(x > last_x);
        assert!(y.abs() < 1e-3);
        last_x = x;
        fastest = fastest.max(speed(&shown));
    }
    let mass = f32::from_bits(host.sim.generate_snapshot(0).entities[0].ship.unwrap().mass);
    assert!(fastest > 0.0);
    assert!(fastest <= 500.0 / (mass * 0.4) + 1e-3);
}

#[test]
fn latest_input_alone_moves_the_ship() {
    let mut thrice = Host::new();
    thrice.spawn_ship(0.0, 0.0);
    let mut once = Host::new();
    once.spawn_ship(0.0, 0.0);
    for sequence in 1..=4 {
        thrice.sim.add_player_input(PILOT, input(sequence, 0.0));
        once.sim.add_player_input(PILOT, input(sequence, 0.0));
    }
    thrice.step();
    once.step();
    thrice.sim.add_player_input(PILOT, input(5, 0.2));
    thrice.sim.add_player_input(PILOT, input(6, 0.5));
    thrice.sim.add_player_input(PILOT, input(7, 1.0));
    once.sim.add_player_input(PILOT, input(5, 1.0));
    let a = thrice.step();
    let b = once.step();
    assert!(speed(&a) > 0.0);
    assert_eq!(a.velocity, b.velocity);
    assert_eq!(a.transform, b.transform);
}

#[test]
fn a_ship_without_input_slows_down() {
    let mut host = Host::new();
    host.spawn_ship(0.0, 0.0);
    for tick in 1..=5u32 {
        host.sim.add_player_input(PILOT, input(tick, 1.0));
        host.step();
    }
    let mut last = speed(&host.step());
    assert!(last > 0.1);
    let mut ticks = 0;
    while last >= 0.01 {
        let now = speed(&host.step());
        assert!(now <= last);
        last = now;
        ticks += 1;
        assert!(ticks < 2_000);
    }
}
