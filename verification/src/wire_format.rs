//! Messages as they travel between server and clients, and the view of
//! the physics world that is sent to a client on request.

use crate::components::ZERO;
use crate::input::{Bits32, InputData};
use crate::snapshot::GameSnapshot;
use vstd::prelude::*;

verus! {

/// Version of the protocol that this server speaks.
pub const PROTOCOL_VERSION: u32 = 1;

/// Largest message in bytes: one mebibyte.
pub const MAX_MESSAGE_SIZE: usize = 1048576;

/// A message with its number and the time it was made.
#[derive(Debug, Clone)]
pub struct BinaryMessage {
    pub message_type: MessageType,
    pub sequence: u32,
    /// Wall-clock milliseconds since the Unix epoch.
    pub timestamp: u64,
}

/// What a message carries.
#[derive(Debug, Clone)]
pub enum MessageType {
    /// A controller input from a client.
    Input(InputData),
    /// The state of the world.
    Snapshot(GameSnapshot),
    Ping { timestamp: u64 },
    Pong { timestamp: u64 },
    Join { room_code: String, player_name: String },
    Leave,
    Ack { sequence: u32 },
    Error { message: String },
    /// The physics world, for a client that draws it.
    DebugRender(DebugRenderData),
}

/// How urgent a message is when bandwidth is short.
#[derive(Debug, Clone, Copy, PartialEq, Eq, Structural)]
pub enum MessagePriority {
    /// Connection handling and errors.
    Critical,
    /// Inputs and acknowledgements.
    High,
    /// Snapshots.
    Normal,
    /// What a client can do without.
    Low,
}

impl MessageType {
    /// The priority of each kind of message.
    pub open spec fn priority_of(self) -> MessagePriority {
        match self {
            MessageType::Join { .. } | MessageType::Leave | MessageType::Error { .. } => {
                MessagePriority::Critical
            },
            MessageType::Input(_) | MessageType::Ack { .. } => MessagePriority::High,
            MessageType::Snapshot(_) => MessagePriority::Normal,
            MessageType::Ping { .. } | MessageType::Pong { .. } | MessageType::DebugRender(_) => {
                MessagePriority::Low
            },
        }
    }

    pub fn priority(&self) -> (priority: MessagePriority)
        ensures
            priority == self.priority_of(),
    {
        match self {
            MessageType::Join { .. } | MessageType::Leave | MessageType::Error { .. } => {
                MessagePriority::Critical
            },
            MessageType::Input(_) | MessageType::Ack { .. } => MessagePriority::High,
            MessageType::Snapshot(_) => MessagePriority::Normal,
            MessageType::Ping { .. } | MessageType::Pong { .. } => MessagePriority::Low,
            MessageType::DebugRender(_) => MessagePriority::Low,
        }
    }
}

impl BinaryMessage {
    /// A message made at `timestamp`.
    pub fn new(message_type: MessageType, sequence: u32, timestamp: u64) -> (message: Self)
        ensures
            message.message_type == message_type,
            message.sequence == sequence,
            message.timestamp == timestamp,
    {
        BinaryMessage { message_type, sequence, timestamp }
    }
}

/// Kind of a physics body, as a client draws it.
#[derive(Debug, Clone, Copy, PartialEq, Eq, Structural)]
pub enum DebugBodyType {
    Dynamic,
    Kinematic,
    Static,
}

/// Kind of a joint, as a client draws it.
#[derive(Debug, Clone, Copy, PartialEq, Eq, Structural)]
pub enum DebugJointType {
    Fixed,
    Revolute,
    Prismatic,
    Distance,
    Spring,
}

/// A physics body, as a client draws it.
#[derive(Debug, Clone, Copy, PartialEq, Eq)]
pub struct DebugRigidBody {
    pub handle: u32,
    pub position: [Bits32; 2],
    pub rotation: Bits32,
    pub body_type: DebugBodyType,
    pub mass: Bits32,
    pub linear_damping: Bits32,
    pub angular_damping: Bits32,
}

/// Shape of a collider, as a client draws it.
#[derive(Debug, Clone, PartialEq, Eq)]
#[allow(inconsistent_fields)]
pub enum DebugShape {
    Ball { radius: Bits32 },
    Cuboid { half_extents: [Bits32; 2] },
    Triangle { vertices: [[Bits32; 2]; 3] },
    Polygon { vertices: Vec<[Bits32; 2]> },
}

/// A `DebugShape` as plain values.
#[allow(inconsistent_fields)]
pub enum DebugShapeView {
    Ball { radius: Bits32 },
    Cuboid { half_extents: [Bits32; 2] },
    Triangle { vertices: [[Bits32; 2]; 3] },
    Polygon { vertices: Seq<[Bits32; 2]> },
}

impl View for DebugShape {
    type V = DebugShapeView;

    open spec fn view(&self) -> DebugShapeView {
        match self {
            DebugShape::Ball { radius } => DebugShapeView::Ball { radius: *radius },
            DebugShape::Cuboid { half_extents } => DebugShapeView::Cuboid {
                half_extents: *half_extents,
            },
            DebugShape::Triangle { vertices } => DebugShapeView::Triangle { vertices: *vertices },
            DebugShape::Polygon { vertices } => DebugShapeView::Polygon { vertices: vertices@ },
        }
    }
}

impl DebugShape {
    /// A second shape that holds what this one holds.
    pub fn duplicate(&self) -> (copy: DebugShape)
        ensures
            copy@ == self@,
    {
        match self {
            DebugShape::Ball { radius } => DebugShape::Ball { radius: *radius },
            DebugShape::Cuboid { half_extents } => DebugShape::Cuboid {
                half_extents: *half_extents,
            },
            DebugShape::Triangle { vertices } => DebugShape::Triangle { vertices: *vertices },
            DebugShape::Polygon { vertices } => {
                let mut copied: Vec<[Bits32; 2]> = Vec::new();
                let mut i: usize = 0;
                while i < vertices.len()
                    invariant
                        i <= vertices.len(),
                        copied@ == vertices@.take(i as int),
                    decreases vertices.len() - i,
                {
                    copied.push(vertices[i]);
                    assert(copied@ == vertices@.take(i + 1));
                    i += 1;
                }
                assert(vertices@.take(vertices@.len() as int) == vertices@);
                DebugShape::Polygon { vertices: copied }
            },
        }
    }
}

/// A collider, as a client draws it.
#[derive(Debug, Clone, PartialEq, Eq)]
pub struct DebugCollider {
    pub handle: u32,
    pub parent_body: u32,
    pub shape: DebugShape,
    /// Where the collider sits on its body.
    pub position: [Bits32; 2],
    pub rotation: Bits32,
}

/// A `DebugCollider` as plain values.
pub struct DebugColliderView {
    pub handle: u32,
    pub parent_body: u32,
    pub shape: DebugShapeView,
    pub position: [Bits32; 2],
    pub rotation: Bits32,
}

impl View for DebugCollider {
    type V = DebugColliderView;

    open spec fn view(&self) -> DebugColliderView {
        DebugColliderView {
            handle: self.handle,
            parent_body: self.parent_body,
            shape: self.shape@,
            position: self.position,
            rotation: self.rotation,
        }
    }
}

/// A force on a body, as a client draws it.
#[derive(Debug, Clone, Copy, PartialEq, Eq)]
pub struct DebugForce {
    pub body_handle: u32,
    pub force: [Bits32; 2],
    pub torque: Bits32,
    pub application_point: [Bits32; 2],
}

/// The velocity of a body, as a client draws it.
#[derive(Debug, Clone, Copy, PartialEq, Eq)]
pub struct DebugVelocity {
    pub body_handle: u32,
    pub linear_velocity: [Bits32; 2],
    pub angular_velocity: Bits32,
}

/// A joint between two bodies, as a client draws it.
#[derive(Debug, Clone, Copy, PartialEq, Eq)]
pub struct DebugJoint {
    pub handle: u32,
    pub body1: u32,
    pub body2: u32,
    pub anchor1: [Bits32; 2],
    pub anchor2: [Bits32; 2],
    pub joint_type: DebugJointType,
}

/// The physics world, as a client draws it.
#[derive(Debug, Clone, PartialEq, Eq)]
pub struct DebugRenderData {
    pub sequence: u32,
    pub rigid_bodies: Vec<DebugRigidBody>,
    pub colliders: Vec<DebugCollider>,
    pub forces: Vec<DebugForce>,
    pub velocities: Vec<DebugVelocity>,
    pub joints: Vec<DebugJoint>,
}

/// A `DebugRenderData` as plain values.
pub struct DebugRenderDataView {
    pub sequence: u32,
    pub rigid_bodies: Seq<DebugRigidBody>,
    pub colliders: Seq<DebugColliderView>,
    pub forces: Seq<DebugForce>,
    pub velocities: Seq<DebugVelocity>,
    pub joints: Seq<DebugJoint>,
}

impl View for DebugRenderData {
    type V = DebugRenderDataView;

    open spec fn view(&self) -> DebugRenderDataView {
        DebugRenderDataView {
            sequence: self.sequence,
            rigid_bodies: self.rigid_bodies@,
            colliders: self.colliders@.map_values(|collider: DebugCollider| collider@),
            forces: self.forces@,
            velocities: self.velocities@,
            joints: self.joints@,
        }
    }
}

/// Kind of a body in the physics world.
#[derive(Debug, Clone, Copy, PartialEq, Eq, Structural)]
pub enum BodyKind {
    Dynamic,
    KinematicVelocityBased,
    KinematicPositionBased,
    Fixed,
    /// The frame of a soft body, moved by the simulation like a dynamic
    /// body.
    SoftFrame,
}

impl BodyKind {
    /// How a client draws a body of this kind.
    pub open spec fn drawn_as(self) -> DebugBodyType {
        match self {
            BodyKind::Dynamic | BodyKind::SoftFrame => DebugBodyType::Dynamic,
            BodyKind::KinematicVelocityBased | BodyKind::KinematicPositionBased => {
                DebugBodyType::Kinematic
            },
            BodyKind::Fixed => DebugBodyType::Static,
        }
    }

    pub fn debug_type(self) -> (drawn: DebugBodyType)
        ensures
            drawn == self.drawn_as(),
    {
        match self {
            BodyKind::Dynamic => DebugBodyType::Dynamic,
            BodyKind::KinematicVelocityBased => DebugBodyType::Kinematic,
            BodyKind::KinematicPositionBased => DebugBodyType::Kinematic,
            BodyKind::Fixed => DebugBodyType::Static,
            BodyKind::SoftFrame => DebugBodyType::Dynamic,
        }
    }
}

/// What the host reads off one body of the physics world.
#[derive(Debug, Clone, Copy, PartialEq, Eq)]
pub struct BodyProbe {
    /// The body's handle: its index in the lower half, its generation in
    /// the upper half.
    pub handle: u64,
    pub position: [Bits32; 2],
    pub rotation: Bits32,
    pub kind: BodyKind,
    pub mass: Bits32,
    pub linear_damping: Bits32,
    pub angular_damping: Bits32,
    pub linear_velocity: [Bits32; 2],
    pub angular_velocity: Bits32,
    /// Whether the body's speed or its spin is above one hundredth.
    pub moving: bool,
}

/// Where a collider sits on its body.
#[derive(Debug, Clone, Copy, PartialEq, Eq)]
pub struct Placement {
    pub position: [Bits32; 2],
    pub rotation: Bits32,
}

/// What the host reads off one collider of the physics world.
#[derive(Debug, Clone, PartialEq, Eq)]
pub struct ColliderProbe {
    pub handle: u64,
    /// The body that the collider is attached to, if any.
    pub parent_body: Option<u64>,
    /// The collider's shape; `None` for a shape that clients cannot draw.
    pub shape: Option<DebugShape>,
    /// `None` for a collider without a body.
    pub placement: Option<Placement>,
}

/// A `ColliderProbe` as plain values.
pub struct ColliderProbeView {
    pub handle: u64,
    pub parent_body: Option<u64>,
    pub shape: Option<DebugShapeView>,
    pub placement: Option<Placement>,
}

impl View for ColliderProbe {
    type V = ColliderProbeView;

    open spec fn view(&self) -> ColliderProbeView {
        ColliderProbeView {
            handle: self.handle,
            parent_body: self.parent_body,
            shape: match self.shape {
                Some(shape) => Some(shape@),
                None => None,
            },
            placement: self.placement,
        }
    }
}

/// What the host reads off one joint of the physics world.
#[derive(Debug, Clone, Copy, PartialEq, Eq)]
pub struct JointProbe {
    pub handle: u64,
    pub body1: u64,
    pub body2: u64,
}

/// The index that a handle of the physics world is sent as.
pub open spec fn handle_index(handle: u64) -> u32 {
    (handle & 0xffff_ffff) as u32
}

/// How a client draws a body.
pub open spec fn drawn_body(probe: BodyProbe) -> DebugRigidBody {
    DebugRigidBody {
        handle: handle_index(probe.handle),
        position: probe.position,
        rotation: probe.rotation,
        body_type: probe.kind.drawn_as(),
        mass: probe.mass,
        linear_damping: probe.linear_damping,
        angular_damping: probe.angular_damping,
    }
}

/// How a client draws the velocity of a body.
pub open spec fn drawn_velocity(probe: BodyProbe) -> DebugVelocity {
    DebugVelocity {
        body_handle: handle_index(probe.handle),
        linear_velocity: probe.linear_velocity,
        angular_velocity: probe.angular_velocity,
    }
}

/// How a client draws a collider whose shape it can draw. A collider
/// without a body is drawn on body zero, unmoved.
pub open spec fn drawn_collider(probe: ColliderProbeView) -> DebugColliderView {
    DebugColliderView {
        handle: handle_index(probe.handle),
        parent_body: match probe.parent_body {
            Some(body) => handle_index(body),
            None => 0,
        },
        shape: probe.shape.unwrap(),
        position: match probe.placement {
            Some(placement) => placement.position,
            None => [ZERO, ZERO],
        },
        rotation: match probe.placement {
            Some(placement) => placement.rotation,
            None => ZERO,
        },
    }
}

/// The first of `bodies` with the handle `handle`, if there is one.
pub open spec fn probe_of(bodies: Seq<BodyProbe>, handle: u64) -> Option<BodyProbe>
    decreases bodies.len(),
{
    if bodies.len() == 0 {
        None
    } else if bodies[0].handle == handle {
        Some(bodies[0])
    } else {
        probe_of(bodies.skip(1), handle)
    }
}

/// Where a joint is anchored on the body `handle`: at the position of
/// the first body with that handle, or at the origin if there is none.
pub open spec fn anchor_on(bodies: Seq<BodyProbe>, handle: u64) -> [Bits32; 2] {
    match probe_of(bodies, handle) {
        Some(probe) => probe.position,
        None => [ZERO, ZERO],
    }
}

/// How a client draws a joint: as a fixed joint between the positions of
/// its two bodies.
pub open spec fn drawn_joint(bodies: Seq<BodyProbe>, probe: JointProbe) -> DebugJoint {
    DebugJoint {
        handle: handle_index(probe.handle),
        body1: handle_index(probe.body1),
        body2: handle_index(probe.body2),
        anchor1: anchor_on(bodies, probe.body1),
        anchor2: anchor_on(bodies, probe.body2),
        joint_type: DebugJointType::Fixed,
    }
}

/// The physics world as a client draws it: every body; the velocity of
/// each body that moves; every collider whose shape can be drawn; every
/// joint. Forces are not shown.
pub open spec fn drawn_world(
    sequence: u32,
    bodies: Seq<BodyProbe>,
    colliders: Seq<ColliderProbeView>,
    joints: Seq<JointProbe>,
) -> DebugRenderDataView {
    DebugRenderDataView {
        sequence,
        rigid_bodies: bodies.map_values(|probe: BodyProbe| drawn_body(probe)),
        colliders: colliders.filter(|probe: ColliderProbeView| probe.shape.is_some()).map_values(
            |probe: ColliderProbeView| drawn_collider(probe),
        ),
        forces: Seq::empty(),
        velocities: bodies.filter(|probe: BodyProbe| probe.moving).map_values(
            |probe: BodyProbe| drawn_velocity(probe),
        ),
        joints: joints.map_values(|probe: JointProbe| drawn_joint(bodies, probe)),
    }
}

/// The lower half of a handle.
pub fn index_of_handle(handle: u64) -> (index: u32)
    ensures
        index == handle_index(handle),
{
    let low: u64 = handle & 0xffff_ffff;
    assert(low <= 0xffff_ffff) by (bit_vector)
        requires
            low == handle & 0xffff_ffff,
    ;
    low as u32
}

/// The first of `bodies` with the handle `handle`, if there is one.
pub fn find_body(bodies: &Vec<BodyProbe>, handle: u64) -> (found: Option<BodyProbe>)
    ensures
        found == probe_of(bodies@, handle),
{
    let mut i: usize = 0;
    assert(bodies@.skip(0) == bodies@);
    while i < bodies.len()
        invariant
            i <= bodies.len(),
            probe_of(bodies@, handle) == probe_of(bodies@.skip(i as int), handle),
        decreases bodies.len() - i,
    {
        if bodies[i].handle == handle {
            assert(bodies@.skip(i as int)[0] == bodies@[i as int]);
            return Some(bodies[i]);
        }
        assert(bodies@.skip(i as int)[0] == bodies@[i as int]);
        assert(bodies@.skip(i as int).skip(1) == bodies@.skip(i + 1));
        i += 1;
    }
    None
}

/// The position of the first of `bodies` with the handle `handle`, or
/// the origin if there is none.
pub fn find_anchor(bodies: &Vec<BodyProbe>, handle: u64) -> (anchor: [Bits32; 2])
    ensures
        anchor == anchor_on(bodies@, handle),
{
    match find_body(bodies, handle) {
        Some(probe) => probe.position,
        None => [ZERO, ZERO],
    }
}

impl DebugRenderData {
    /// Puts together what a client draws of the physics world from what
    /// the host has read off it.
    pub fn assemble(
        sequence: u32,
        bodies: &Vec<BodyProbe>,
        colliders: &Vec<ColliderProbe>,
        joints: &Vec<JointProbe>,
    ) -> (data: DebugRenderData)
        ensures
            data@ == drawn_world(
                sequence,
                bodies@,
                colliders@.map_values(|probe: ColliderProbe| probe@),
                joints@,
            ),
    {
        let ghost moves = |probe: BodyProbe| probe.moving;
        let ghost drawable = |probe: ColliderProbeView| probe.shape.is_some();
        let ghost collider_views = colliders@.map_values(|probe: ColliderProbe| probe@);
        let mut rigid_bodies: Vec<DebugRigidBody> = Vec::new();
        let mut velocities: Vec<DebugVelocity> = Vec::new();
        let mut i: usize = 0;
        proof {
            reveal(Seq::filter);
            assert(bodies@.take(0).filter(moves) == Seq::<BodyProbe>::empty());
            assert(collider_views.take(0).filter(drawable) == Seq::<ColliderProbeView>::empty());
        }
        while i < bodies.len()
            invariant
                i <= bodies.len(),
                moves == |probe: BodyProbe| probe.moving,
                rigid_bodies@ == bodies@.take(i as int).map_values(
                    |probe: BodyProbe| drawn_body(probe),
                ),
                velocities@ == bodies@.take(i as int).filter(moves).map_values(
                    |probe: BodyProbe| drawn_velocity(probe),
                ),
            decreases bodies.len() - i,
        {
            let probe = bodies[i];
            let handle = index_of_handle(probe.handle);
            proof {
                assert(bodies@.take(i + 1) == bodies@.take(i as int).push(probe));
                bodies@.take(i as int).lemma_filter_push(probe, moves);
            }
            rigid_bodies.push(
                DebugRigidBody {
                    handle,
                    position: probe.position,
                    rotation: probe.rotation,
                    body_type: probe.kind.debug_type(),
                    mass: probe.mass,
                    linear_damping: probe.linear_damping,
                    angular_damping: probe.angular_damping,
                },
            );
            if probe.moving {
                velocities.push(
                    DebugVelocity {
                        body_handle: handle,
                        linear_velocity: probe.linear_velocity,
                        angular_velocity: probe.angular_velocity,
                    },
                );
            }
            proof {
                assert(rigid_bodies@ =~= bodies@.take(i + 1).map_values(
                    |probe: BodyProbe| drawn_body(probe),
                ));
                assert(velocities@ =~= bodies@.take(i + 1).filter(moves).map_values(
                    |probe: BodyProbe| drawn_velocity(probe),
                ));
            }
            i += 1;
        }
        let mut drawn_colliders: Vec<DebugCollider> = Vec::new();
        let mut c: usize = 0;
        while c < colliders.len()
            invariant
                c <= colliders.len(),
                drawable == |probe: ColliderProbeView| probe.shape.is_some(),
                collider_views == colliders@.map_values(|probe: ColliderProbe| probe@),
                drawn_colliders@.map_values(|collider: DebugCollider| collider@)
                    == collider_views.take(c as int).filter(drawable).map_values(
                    |probe: ColliderProbeView| drawn_collider(probe),
                ),
            decreases colliders.len() - c,
        {
            let probe = &colliders[c];
            let ghost before = drawn_colliders@.map_values(|collider: DebugCollider| collider@);
            proof {
                assert(collider_views.take(c + 1) == collider_views.take(c as int).push(probe@));
                collider_views.take(c as int).lemma_filter_push(probe@, drawable);
            }
            match &probe.shape {
                Some(shape) => {
                    let drawn = DebugCollider {
                        handle: index_of_handle(probe.handle),
                        parent_body: match probe.parent_body {
                            Some(body) => index_of_handle(body),
                            None => 0,
                        },
                        shape: shape.duplicate(),
                        position: match probe.placement {
                            Some(placement) => placement.position,
                            None => [ZERO, ZERO],
                        },
                        rotation: match probe.placement {
                            Some(placement) => placement.rotation,
                            None => ZERO,
                        },
                    };
                    assert(drawn@ == drawn_collider(probe@));
                    drawn_colliders.push(drawn);
                    assert(drawn_colliders@.map_values(|collider: DebugCollider| collider@)
                        =~= before.push(drawn@));
                },
                None => {},
            }
            proof {
                assert(drawn_colliders@.map_values(|collider: DebugCollider| collider@)
                    =~= collider_views.take(c + 1).filter(drawable).map_values(
                    |probe: ColliderProbeView| drawn_collider(probe),
                ));
            }
            c += 1;
        }
        let mut drawn_joints: Vec<DebugJoint> = Vec::new();
        let mut j: usize = 0;
        while j < joints.len()
            invariant
                j <= joints.len(),
                drawn_joints@ == joints@.take(j as int).map_values(
                    |probe: JointProbe| drawn_joint(bodies@, probe),
                ),
            decreases joints.len() - j,
        {
            let probe = joints[j];
            drawn_joints.push(
                DebugJoint {
                    handle: index_of_handle(probe.handle),
                    body1: index_of_handle(probe.body1),
                    body2: index_of_handle(probe.body2),
                    anchor1: find_anchor(bodies, probe.body1),
                    anchor2: find_anchor(bodies, probe.body2),
                    joint_type: DebugJointType::Fixed,
                },
            );
            assert(drawn_joints@ =~= joints@.take(j + 1).map_values(
                |probe: JointProbe| drawn_joint(bodies@, probe),
            ));
            j += 1;
        }
        proof {
            assert(bodies@.take(bodies@.len() as int) == bodies@);
            assert(collider_views.take(collider_views.len() as int) == collider_views);
            assert(joints@.take(joints@.len() as int) == joints@);
        }
        DebugRenderData {
            sequence,
            rigid_bodies,
            colliders: drawn_colliders,
            forces: Vec::new(),
            velocities,
            joints: drawn_joints,
        }
    }
}

} // verus!
