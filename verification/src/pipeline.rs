//! The staged simulation pipeline.
//!
//! One tick advances the world through a fixed phase order: force
//! application, velocity integration, broad phase, narrow phase,
//! collision resolution, position integration. All state is carried in
//! an explicit [`QPhysicsWorld`] value threaded through the phases; the
//! collision-pair set is rebuilt every tick and the previous tick's
//! surviving set is kept as the snapshot the narrow phase diffs against.
//! Every phase is specified exactly by a spec function over the world's
//! mathematical model.

use vstd::prelude::*;
use std::collections::HashMap;
use vstd::multiset::Multiset;
use crate::q64::{div_trunc, div_trunc_signed, fx_add, fx_div, fx_mul, fx_neg, Q64, FX_ONE_RAW};
use crate::qvec2::{
    v2_add, v2_dot, v2_len, v2_neg, v2_normalize, v2_scale, v2_sub, QVec2, V2i,
};
use crate::qdir::dir_rotated_by;
use crate::shape::boxes_overlap;
use crate::collision::polys_collide;
use crate::algorithm::spec_separation;
use crate::physics::{
    clone_shape, masks_allow, shape_bbox, shape_polygon, spec_apply_to, spec_inverse_mass,
    avg_restitution, QCollisionFlag, QCollisionShape, QMotion, QObject, QPhysicsBody, QTransform,
    ShapeModel, Xform2i,
};
use crate::messages::{QCollisionEvent, QTriggerEvent};

verus! {

broadcast use vstd::std_specs::hash::group_hash_axioms, vstd::seq_lib::group_to_multiset_ensures, vstd::multiset::group_multiset_axioms;

/// Physics world configuration.
#[derive(Clone, Copy, Debug, PartialEq, Eq, Structural)]
pub struct QPhysicsConfig {
    /// Gravity vector in units per second squared.
    pub gravity: QVec2,
    /// Fixed time step of the simulation.
    pub time_step: Q64,
    /// Velocity iterations reserved for an iterative solver; the current
    /// resolution step does not consume them.
    pub velocity_iterations: i32,
    /// Position iterations reserved for an iterative solver; the current
    /// resolution step does not consume them.
    pub position_iterations: i32,
}

impl Default for QPhysicsConfig {
    /// Standard gravity pointing down, a tenth-of-a-second time step,
    /// and the reserved iteration counts.
    fn default() -> (r: QPhysicsConfig)
        ensures
            r.gravity@ == (V2i { x: 0, y: -42949672960 }),
            r.time_step@ == 429496729,
            r.velocity_iterations == 8,
            r.position_iterations == 3,
    {
        QPhysicsConfig {
            gravity: QVec2::new(Q64::zero(), Q64::from_int(-10)),
            time_step: Q64::from_ratio(1, 10),
            velocity_iterations: 8,
            position_iterations: 3,
        }
    }
}

/// The per-layer collision mask table.
#[derive(Debug)]
pub struct QCollisionMatrix {
    /// Map from a layer to the mask of layers it collides with.
    pub layer_masks: HashMap<u32, u32>,
}

impl Default for QCollisionMatrix {
    /// By default, layer one collides with itself.
    fn default() -> (r: QCollisionMatrix)
        ensures
            r.layer_masks@ == Map::<u32, u32>::empty().insert(1u32, 1u32),
    {
        let mut layer_masks: HashMap<u32, u32> = HashMap::new();
        layer_masks.insert(1, 1);
        QCollisionMatrix { layer_masks }
    }
}

/// Debug visualization switches; the pipeline itself never reads them.
#[derive(Clone, Copy, Debug, PartialEq, Eq, Structural)]
pub struct QPhysicsDebugConfig {
    /// Whether to show collider outlines.
    pub show_colliders: bool,
    /// Whether to show velocity vectors.
    pub show_velocity: bool,
    /// Whether to show contact points.
    pub show_contacts: bool,
}

impl Default for QPhysicsDebugConfig {
    /// All visualization off.
    fn default() -> (r: QPhysicsDebugConfig)
        ensures
            r == (QPhysicsDebugConfig {
                show_colliders: false,
                show_velocity: false,
                show_contacts: false,
            }),
    {
        QPhysicsDebugConfig { show_colliders: false, show_velocity: false, show_contacts: false }
    }
}

/// One simulated object: identity plus its physics components.
#[derive(Clone, Debug)]
pub struct QObjectState {
    /// Stable identity across phases and ticks.
    pub object: QObject,
    /// Mass, restitution and friction.
    pub body: QPhysicsBody,
    /// Velocity, angular velocity and acceleration.
    pub motion: QMotion,
    /// The collision shape, in local space.
    pub shape: QCollisionShape,
    /// Trigger marking and layer gating.
    pub flag: QCollisionFlag,
    /// Position, rotation and scale.
    pub transform: QTransform,
}

/// The mathematical model of one simulated object.
pub ghost struct ObjState {
    pub object: QObject,
    pub mass: int,
    pub restitution: int,
    pub friction: int,
    pub velocity: V2i,
    pub angular_velocity: int,
    pub acceleration: V2i,
    pub shape: ShapeModel,
    pub is_trigger: bool,
    pub layer: u32,
    pub mask: u32,
    pub position: V2i,
    pub rotation: V2i,
    pub scale: V2i,
}

impl View for QObjectState {
    type V = ObjState;

    open spec fn view(&self) -> ObjState {
        ObjState {
            object: self.object,
            mass: self.body.mass@,
            restitution: self.body.restitution@,
            friction: self.body.friction@,
            velocity: self.motion.velocity@,
            angular_velocity: self.motion.angular_velocity@,
            acceleration: self.motion.acceleration@,
            shape: self.shape@,
            is_trigger: self.flag.is_trigger,
            layer: self.flag.collision_layer,
            mask: self.flag.collision_mask,
            position: self.transform.position@,
            rotation: self.transform.rotation@,
            scale: self.transform.scale@,
        }
    }
}

/// The model of an object sequence.
pub open spec fn objs_view(s: Seq<QObjectState>) -> Seq<ObjState> {
    s.map_values(|o: QObjectState| o@)
}

/// The transform model of an object model.
pub open spec fn obj_xform(o: ObjState) -> Xform2i {
    Xform2i { pos: o.position, rot: o.rotation, scale: o.scale }
}

/// The world-space collision polygon of an object model.
pub open spec fn world_polygon(o: ObjState) -> Seq<V2i> {
    shape_polygon(spec_apply_to(obj_xform(o), o.shape))
}

/// The simulation state threaded through the pipeline: configuration,
/// the simulated objects, the current collision-pair set and the
/// previous tick's surviving set.
#[derive(Debug)]
pub struct QPhysicsWorld {
    /// World configuration.
    pub config: QPhysicsConfig,
    /// All simulated objects.
    pub objects: Vec<QObjectState>,
    /// The collision pairs of the current tick.
    pub collision_pairs: Vec<(QObject, QObject)>,
    /// The surviving collision pairs of the previous tick.
    pub collision_pairs_last_frame: Vec<(QObject, QObject)>,
}

impl QPhysicsWorld {
    /// An empty world under a configuration.
    pub fn new(config: QPhysicsConfig) -> (r: QPhysicsWorld)
        ensures
            r.config == config,
            r.objects@.len() == 0,
            r.collision_pairs@.len() == 0,
            r.collision_pairs_last_frame@.len() == 0,
    {
        QPhysicsWorld {
            config,
            objects: Vec::new(),
            collision_pairs: Vec::new(),
            collision_pairs_last_frame: Vec::new(),
        }
    }

    /// Add a simulated object.
    pub fn add_object(&mut self, obj: QObjectState)
        ensures
            final(self).objects@ == old(self).objects@.push(obj),
            final(self).config == old(self).config,
            final(self).collision_pairs == old(self).collision_pairs,
            final(self).collision_pairs_last_frame == old(self).collision_pairs_last_frame,
    {
        self.objects.push(obj);
    }
}

/// Copy one object state, preserving its model.
fn clone_object_state(o: &QObjectState) -> (r: QObjectState)
    ensures
        r@ == o@,
{
    QObjectState {
        object: o.object,
        body: o.body,
        motion: o.motion,
        shape: clone_shape(&o.shape),
        flag: o.flag,
        transform: o.transform,
    }
}

/// Force application on one object model: a non-static body's
/// acceleration becomes the world gravity; a static body is untouched.
pub open spec fn spec_apply_forces_obj(o: ObjState, g: V2i) -> ObjState {
    if o.mass <= 0 {
        o
    } else {
        ObjState { acceleration: g, ..o }
    }
}

/// Force application across the world.
pub open spec fn spec_apply_forces(s: Seq<ObjState>, g: V2i) -> Seq<ObjState> {
    s.map_values(|o: ObjState| spec_apply_forces_obj(o, g))
}

/// Velocity integration on one object model: `velocity += acceleration *
/// dt`, for every object.
pub open spec fn spec_integrate_velocities_obj(o: ObjState, dt: int) -> ObjState {
    ObjState { velocity: v2_add(o.velocity, v2_scale(o.acceleration, dt)), ..o }
}

/// Velocity integration across the world.
pub open spec fn spec_integrate_velocities(s: Seq<ObjState>, dt: int) -> Seq<ObjState> {
    s.map_values(|o: ObjState| spec_integrate_velocities_obj(o, dt))
}

/// Position integration on one object model: `position += velocity *
/// dt`, and the rotation advances by `angular_velocity * dt`.
pub open spec fn spec_integrate_positions_obj(o: ObjState, dt: int) -> ObjState {
    ObjState {
        position: v2_add(o.position, v2_scale(o.velocity, dt)),
        rotation: dir_rotated_by(o.rotation, fx_mul(o.angular_velocity, dt)),
        ..o
    }
}

/// Position integration across the world.
pub open spec fn spec_integrate_positions(s: Seq<ObjState>, dt: int) -> Seq<ObjState> {
    s.map_values(|o: ObjState| spec_integrate_positions_obj(o, dt))
}

/// Force application: every non-static body's acceleration is reset to
/// the world gravity.
pub fn apply_forces_qsystem(world: &mut QPhysicsWorld)
    ensures
        objs_view(final(world).objects@) == spec_apply_forces(
            objs_view(old(world).objects@),
            old(world).config.gravity@,
        ),
        final(world).config == old(world).config,
        final(world).collision_pairs == old(world).collision_pairs,
        final(world).collision_pairs_last_frame == old(world).collision_pairs_last_frame,
{
    let n = world.objects.len();
    let mut updated: Vec<QObjectState> = Vec::new();
    let mut i: usize = 0;
    while i < n
        invariant
            i <= n,
            n == world.objects@.len(),
            *world == *old(world),
            updated@.len() == i,
            forall|j: int|
                0 <= j < i ==> updated@[j]@ == spec_apply_forces_obj(
                    #[trigger] world.objects@[j]@,
                    world.config.gravity@,
                ),
        decreases n - i,
    {
        let o = &world.objects[i];
        let motion = if o.body.mass.raw <= 0 {
            o.motion
        } else {
            QMotion {
                velocity: o.motion.velocity,
                angular_velocity: o.motion.angular_velocity,
                acceleration: world.config.gravity,
            }
        };
        updated.push(
            QObjectState {
                object: o.object,
                body: o.body,
                motion,
                shape: clone_shape(&o.shape),
                flag: o.flag,
                transform: o.transform,
            },
        );
        i = i + 1;
    }
    world.objects = updated;
    proof {
        assert(objs_view(world.objects@) =~= spec_apply_forces(
            objs_view(old(world).objects@),
            old(world).config.gravity@,
        ));
    }
}

/// Velocity integration: `velocity += acceleration * dt` for every
/// object with motion, static bodies included.
pub fn integrate_velocities_qsystem(world: &mut QPhysicsWorld)
    ensures
        objs_view(final(world).objects@) == spec_integrate_velocities(
            objs_view(old(world).objects@),
            old(world).config.time_step@,
        ),
        final(world).config == old(world).config,
        final(world).collision_pairs == old(world).collision_pairs,
        final(world).collision_pairs_last_frame == old(world).collision_pairs_last_frame,
{
    let n = world.objects.len();
    let mut updated: Vec<QObjectState> = Vec::new();
    let mut i: usize = 0;
    while i < n
        invariant
            i <= n,
            n == world.objects@.len(),
            *world == *old(world),
            updated@.len() == i,
            forall|j: int|
                0 <= j < i ==> updated@[j]@ == spec_integrate_velocities_obj(
                    #[trigger] world.objects@[j]@,
                    world.config.time_step@,
                ),
        decreases n - i,
    {
        let o = &world.objects[i];
        let delta = o.motion.acceleration.saturating_mul_num(world.config.time_step);
        let motion = QMotion {
            velocity: o.motion.velocity.saturating_add(delta),
            angular_velocity: o.motion.angular_velocity,
            acceleration: o.motion.acceleration,
        };
        updated.push(
            QObjectState {
                object: o.object,
                body: o.body,
                motion,
                shape: clone_shape(&o.shape),
                flag: o.flag,
                transform: o.transform,
            },
        );
        i = i + 1;
    }
    world.objects = updated;
    proof {
        assert(objs_view(world.objects@) =~= spec_integrate_velocities(
            objs_view(old(world).objects@),
            old(world).config.time_step@,
        ));
    }
}

/// Position integration: `position += velocity * dt` and the rotation
/// advances by the angular velocity times the time step.
pub fn integrate_positions_qsystem(world: &mut QPhysicsWorld)
    ensures
        objs_view(final(world).objects@) == spec_integrate_positions(
            objs_view(old(world).objects@),
            old(world).config.time_step@,
        ),
        final(world).config == old(world).config,
        final(world).collision_pairs == old(world).collision_pairs,
        final(world).collision_pairs_last_frame == old(world).collision_pairs_last_frame,
{
    let n = world.objects.len();
    let mut updated: Vec<QObjectState> = Vec::new();
    let mut i: usize = 0;
    while i < n
        invariant
            i <= n,
            n == world.objects@.len(),
            *world == *old(world),
            updated@.len() == i,
            forall|j: int|
                0 <= j < i ==> updated@[j]@ == spec_integrate_positions_obj(
                    #[trigger] world.objects@[j]@,
                    world.config.time_step@,
                ),
        decreases n - i,
    {
        let o = &world.objects[i];
        let displacement = o.motion.velocity.saturating_mul_num(world.config.time_step);
        let mut rotation = o.transform.rotation;
        rotation.rotate(o.motion.angular_velocity.saturating_mul(world.config.time_step));
        let transform = QTransform {
            position: o.transform.position.saturating_add(displacement),
            rotation,
            scale: o.transform.scale,
        };
        updated.push(
            QObjectState {
                object: o.object,
                body: o.body,
                motion: o.motion,
                shape: clone_shape(&o.shape),
                flag: o.flag,
                transform,
            },
        );
        i = i + 1;
    }
    world.objects = updated;
    proof {
        assert(objs_view(world.objects@) =~= spec_integrate_positions(
            objs_view(old(world).objects@),
            old(world).config.time_step@,
        ));
    }
}

/// Whether two object models pass the broad phase: their flags permit a
/// collision and their world-space bounding boxes overlap.
pub open spec fn broad_cond(a: ObjState, b: ObjState) -> bool {
    masks_allow(a.layer, a.mask, b.layer, b.mask) && boxes_overlap(
        shape_bbox(spec_apply_to(obj_xform(a), a.shape)),
        shape_bbox(spec_apply_to(obj_xform(b), b.shape)),
    )
}

/// The broad-phase candidate pairs of object `i` against objects
/// `j, j+1, ...`.
pub open spec fn broad_row(s: Seq<ObjState>, i: int, j: int) -> Seq<(QObject, QObject)>
    decreases s.len() - j,
{
    if j < 0 || j >= s.len() || !(0 <= i < s.len()) {
        Seq::empty()
    } else {
        let head: Seq<(QObject, QObject)> = if broad_cond(s[i], s[j]) {
            seq![(s[i].object, s[j].object)]
        } else {
            Seq::empty()
        };
        head + broad_row(s, i, j + 1)
    }
}

/// The broad-phase candidate pairs of objects `i, i+1, ...`, each
/// against the objects after it.
pub open spec fn broad_from(s: Seq<ObjState>, i: int) -> Seq<(QObject, QObject)>
    decreases s.len() - i,
{
    if i < 0 || i >= s.len() {
        Seq::empty()
    } else {
        broad_row(s, i, i + 1) + broad_from(s, i + 1)
    }
}

/// The broad-phase candidate set: every unordered object pair whose
/// flags permit a collision and whose world-space bounding boxes
/// overlap.
pub open spec fn spec_broad_pairs(s: Seq<ObjState>) -> Seq<(QObject, QObject)> {
    broad_from(s, 0)
}

/// Copy a pair list.
fn clone_pairs(v: &Vec<(QObject, QObject)>) -> (r: Vec<(QObject, QObject)>)
    ensures
        r@ == v@,
{
    let mut out: Vec<(QObject, QObject)> = Vec::new();
    let mut i: usize = 0;
    while i < v.len()
        invariant
            i <= v@.len(),
            out@ == v@.take(i as int),
        decreases v@.len() - i,
    {
        out.push(v[i]);
        proof {
            assert(out@ =~= v@.take(i + 1));
        }
        i = i + 1;
    }
    proof {
        assert(v@.take(v@.len() as int) =~= v@);
    }
    out
}

/// Broad phase: the previous tick's surviving pairs become the
/// last-frame snapshot, and the candidate set is rebuilt by an all-pairs
/// scan gated by the collision flags and world-space bounding-box
/// overlap.
pub fn broad_phase_qsystem(world: &mut QPhysicsWorld)
    ensures
        final(world).collision_pairs@ == spec_broad_pairs(objs_view(old(world).objects@)),
        final(world).collision_pairs_last_frame@ == old(world).collision_pairs@,
        final(world).objects == old(world).objects,
        final(world).config == old(world).config,
{
    let snapshot = clone_pairs(&world.collision_pairs);
    world.collision_pairs_last_frame = snapshot;
    let n = world.objects.len();
    let ghost v = objs_view(world.objects@);
    let mut cand: Vec<(QObject, QObject)> = Vec::new();
    let mut i: usize = 0;
    while i < n
        invariant
            i <= n,
            n == world.objects@.len(),
            world.objects == old(world).objects,
            world.config == old(world).config,
            v == objs_view(world.objects@),
            cand@ + broad_from(v, i as int) == broad_from(v, 0),
        decreases n - i,
    {
        let mut j: usize = i + 1;
        proof {
            assert(cand@ + (broad_row(v, i as int, i + 1) + broad_from(v, i + 1)) =~= (cand@
                + broad_row(v, i as int, i + 1)) + broad_from(v, i + 1));
        }
        while j < n
            invariant
                i < n,
                i < j <= n,
                n == world.objects@.len(),
                world.objects == old(world).objects,
                world.config == old(world).config,
                v == objs_view(world.objects@),
                (cand@ + broad_row(v, i as int, j as int)) + broad_from(v, i + 1) == broad_from(
                    v,
                    0,
                ),
            decreases n - j,
        {
            let oa = &world.objects[i];
            let ob = &world.objects[j];
            let ghost pre = cand@;
            if oa.flag.can_collide_with(&ob.flag) {
                let bbox_a = oa.transform.apply_to(&oa.shape).get_bbox();
                let bbox_b = ob.transform.apply_to(&ob.shape).get_bbox();
                if bbox_a.is_collide(&bbox_b) {
                    cand.push((oa.object, ob.object));
                }
            }
            proof {
                let head: Seq<(QObject, QObject)> = if broad_cond(v[i as int], v[j as int]) {
                    seq![(v[i as int].object, v[j as int].object)]
                } else {
                    Seq::empty()
                };
                assert(cand@ =~= pre + head);
                assert(broad_row(v, i as int, j as int) == head + broad_row(v, i as int, j + 1));
                assert((cand@ + broad_row(v, i as int, j + 1)) + broad_from(v, i + 1) =~= (pre
                    + broad_row(v, i as int, j as int)) + broad_from(v, i + 1));
            }
            j = j + 1;
        }
        proof {
            assert(broad_row(v, i as int, n as int) =~= Seq::<(QObject, QObject)>::empty());
            assert(cand@ + broad_row(v, i as int, n as int) =~= cand@);
            assert(cand@ + broad_from(v, i + 1) =~= (cand@ + broad_row(v, i as int, n as int))
                + broad_from(v, i + 1));
        }
        i = i + 1;
    }
    proof {
        assert(broad_from(v, n as int) =~= Seq::<(QObject, QObject)>::empty());
        assert(cand@ =~= cand@ + broad_from(v, n as int));
    }
    world.collision_pairs = cand;
}

/// The index of the object with an identity, or `-1` when absent; the
/// first match wins.
pub open spec fn find_index(s: Seq<ObjState>, id: QObject) -> int
    decreases s.len(),
{
    if s.len() == 0 {
        -1
    } else if s[0].object == id {
        0
    } else {
        let r = find_index(s.drop_first(), id);
        if r < 0 {
            -1
        } else {
            r + 1
        }
    }
}

/// What the first-match index satisfies.
pub proof fn lemma_find_index(s: Seq<ObjState>, id: QObject)
    ensures
        -1 <= find_index(s, id) < s.len(),
        find_index(s, id) >= 0 ==> s[find_index(s, id)].object == id,
        find_index(s, id) >= 0 ==> forall|t: int|
            0 <= t < find_index(s, id) ==> s[t].object != id,
        find_index(s, id) == -1 ==> forall|t: int| 0 <= t < s.len() ==> s[t].object != id,
    decreases s.len(),
{
    if s.len() > 0 && s[0].object != id {
        lemma_find_index(s.drop_first(), id);
        let r = find_index(s.drop_first(), id);
        if r >= 0 {
            assert(s[r + 1] == s.drop_first()[r]);
            assert forall|t: int| 0 <= t < r + 1 implies s[t].object != id by {
                if t > 0 {
                    assert(s[t] == s.drop_first()[t - 1]);
                }
            }
        } else {
            assert forall|t: int| 0 <= t < s.len() implies s[t].object != id by {
                if t > 0 {
                    assert(s[t] == s.drop_first()[t - 1]);
                }
            }
        }
    }
}

/// Find the index of the object with an identity.
fn find_object_index(objects: &Vec<QObjectState>, id: QObject) -> (r: Option<usize>)
    ensures
        match r {
            Option::Some(k) => k < objects@.len() && find_index(objs_view(objects@), id)
                == k as int,
            Option::None => find_index(objs_view(objects@), id) == -1,
        },
{
    let ghost v = objs_view(objects@);
    let n = objects.len();
    let mut k: usize = 0;
    while k < n
        invariant
            k <= n,
            n == objects@.len(),
            v == objs_view(objects@),
            forall|t: int| 0 <= t < k ==> v[t].object != id,
        decreases n - k,
    {
        if objects[k].object.uuid == id.uuid {
            proof {
                assert(v[k as int] == objects@[k as int]@);
                assert(v[k as int].object == id);
                lemma_find_index(v, id);
                let f = find_index(v, id);
                if f < k as int {
                    assert(v[f].object == id);
                }
                if f > k as int {
                    assert(v[k as int].object != id);
                }
            }
            return Option::Some(k);
        }
        k = k + 1;
    }
    proof {
        lemma_find_index(v, id);
    }
    Option::None
}

/// Whether a pair list contains a pair.
fn pairs_contains(v: &Vec<(QObject, QObject)>, p: (QObject, QObject)) -> (r: bool)
    ensures
        r == v@.contains(p),
{
    let n = v.len();
    let mut k: usize = 0;
    while k < n
        invariant
            k <= n,
            n == v@.len(),
            forall|t: int| 0 <= t < k ==> v@[t] != p,
        decreases n - k,
    {
        let q = v[k];
        if q.0.uuid == p.0.uuid && q.1.uuid == p.1.uuid {
            return true;
        }
        k = k + 1;
    }
    false
}

/// Whether both members of a pair are present in the world.
pub open spec fn pair_found(s: Seq<ObjState>, p: (QObject, QObject)) -> bool {
    find_index(s, p.0) >= 0 && find_index(s, p.1) >= 0
}

/// Whether a found pair's world-space shapes collide exactly.
pub open spec fn pair_collides(s: Seq<ObjState>, p: (QObject, QObject)) -> bool {
    if !pair_found(s, p) {
        false
    } else {
        polys_collide(world_polygon(s[find_index(s, p.0)]), world_polygon(s[find_index(s, p.1)]))
    }
}

/// Whether either member of a found pair is flagged as a trigger.
pub open spec fn pair_is_trigger(s: Seq<ObjState>, p: (QObject, QObject)) -> bool {
    s[find_index(s, p.0)].is_trigger || s[find_index(s, p.1)].is_trigger
}

/// The broad-phase candidates that still collide under the exact test,
/// in order; a pair whose lookups fail is dropped.
pub open spec fn spec_narrow_filter(
    s: Seq<ObjState>,
    pairs: Seq<(QObject, QObject)>,
) -> Seq<(QObject, QObject)>
    decreases pairs.len(),
{
    if pairs.len() == 0 {
        Seq::empty()
    } else {
        let rest = spec_narrow_filter(s, pairs.drop_last());
        if pair_collides(s, pairs.last()) {
            rest.push(pairs.last())
        } else {
            rest
        }
    }
}

/// The collision-stream events for the surviving pairs: started when
/// absent from the last-frame snapshot, ongoing when present in it;
/// trigger pairs go to the other stream.
pub open spec fn spec_collision_events(
    s: Seq<ObjState>,
    current: Seq<(QObject, QObject)>,
    last: Seq<(QObject, QObject)>,
) -> Seq<QCollisionEvent>
    decreases current.len(),
{
    if current.len() == 0 {
        Seq::empty()
    } else {
        let rest = spec_collision_events(s, current.drop_last(), last);
        let p = current.last();
        if pair_found(s, p) && !pair_is_trigger(s, p) {
            if last.contains(p) {
                rest.push(QCollisionEvent::Ongoing(p.0, p.1))
            } else {
                rest.push(QCollisionEvent::Started(p.0, p.1))
            }
        } else {
            rest
        }
    }
}

/// The trigger-stream events for the surviving pairs.
pub open spec fn spec_trigger_events(
    s: Seq<ObjState>,
    current: Seq<(QObject, QObject)>,
    last: Seq<(QObject, QObject)>,
) -> Seq<QTriggerEvent>
    decreases current.len(),
{
    if current.len() == 0 {
        Seq::empty()
    } else {
        let rest = spec_trigger_events(s, current.drop_last(), last);
        let p = current.last();
        if pair_found(s, p) && pair_is_trigger(s, p) {
            if last.contains(p) {
                rest.push(QTriggerEvent::Stay(p.0, p.1))
            } else {
                rest.push(QTriggerEvent::Enter(p.0, p.1))
            }
        } else {
            rest
        }
    }
}

/// The collision-stream ended events: one for each last-frame pair no
/// longer in the surviving set.
pub open spec fn spec_collision_exits(
    s: Seq<ObjState>,
    current: Seq<(QObject, QObject)>,
    last: Seq<(QObject, QObject)>,
) -> Seq<QCollisionEvent>
    decreases last.len(),
{
    if last.len() == 0 {
        Seq::empty()
    } else {
        let rest = spec_collision_exits(s, current, last.drop_last());
        let p = last.last();
        if !current.contains(p) && pair_found(s, p) && !pair_is_trigger(s, p) {
            rest.push(QCollisionEvent::Ended(p.0, p.1))
        } else {
            rest
        }
    }
}

/// The trigger-stream exit events: one for each last-frame pair no
/// longer in the surviving set.
pub open spec fn spec_trigger_exits(
    s: Seq<ObjState>,
    current: Seq<(QObject, QObject)>,
    last: Seq<(QObject, QObject)>,
) -> Seq<QTriggerEvent>
    decreases last.len(),
{
    if last.len() == 0 {
        Seq::empty()
    } else {
        let rest = spec_trigger_exits(s, current, last.drop_last());
        let p = last.last();
        if !current.contains(p) && pair_found(s, p) && pair_is_trigger(s, p) {
            rest.push(QTriggerEvent::Exit(p.0, p.1))
        } else {
            rest
        }
    }
}

/// Narrow phase: re-test every broad-phase candidate with the exact
/// collision predicate, keep the survivors as the current pair set, and
/// classify each transition against the last-frame snapshot into the
/// collision or trigger event stream.
pub fn narrow_phase_qsystem(world: &mut QPhysicsWorld) -> (r: (
    Vec<QCollisionEvent>,
    Vec<QTriggerEvent>,
))
    ensures
        ({
            let s = objs_view(old(world).objects@);
            let filtered = spec_narrow_filter(s, old(world).collision_pairs@);
            let last = old(world).collision_pairs_last_frame@;
            &&& final(world).collision_pairs@ == filtered
            &&& final(world).objects == old(world).objects
            &&& final(world).config == old(world).config
            &&& final(world).collision_pairs_last_frame == old(
                world,
            ).collision_pairs_last_frame
            &&& r.0@ == spec_collision_events(s, filtered, last) + spec_collision_exits(
                s,
                filtered,
                last,
            )
            &&& r.1@ == spec_trigger_events(s, filtered, last) + spec_trigger_exits(
                s,
                filtered,
                last,
            )
        }),
{
    let ghost s = objs_view(world.objects@);
    let m = world.collision_pairs.len();
    let mut retained: Vec<(QObject, QObject)> = Vec::new();
    let mut k: usize = 0;
    while k < m
        invariant
            k <= m,
            m == world.collision_pairs@.len(),
            *world == *old(world),
            s == objs_view(world.objects@),
            retained@ == spec_narrow_filter(s, world.collision_pairs@.take(k as int)),
        decreases m - k,
    {
        let p = world.collision_pairs[k];
        proof {
            assert(world.collision_pairs@.take(k + 1).drop_last() =~= world.collision_pairs@.take(
                k as int,
            ));
            assert(world.collision_pairs@.take(k + 1).last() == p);
        }
        let ia = find_object_index(&world.objects, p.0);
        let ib = find_object_index(&world.objects, p.1);
        if let (Option::Some(ka), Option::Some(kb)) = (ia, ib) {
            let oa = &world.objects[ka];
            let ob = &world.objects[kb];
            let sa = oa.transform.apply_to(&oa.shape);
            let sb = ob.transform.apply_to(&ob.shape);
            if sa.is_collide(&sb) {
                retained.push(p);
            }
        }
        k = k + 1;
    }
    proof {
        assert(world.collision_pairs@.take(m as int) =~= world.collision_pairs@);
    }
    let ghost filtered = retained@;
    let ghost last = world.collision_pairs_last_frame@;

    let mut collision_events: Vec<QCollisionEvent> = Vec::new();
    let mut trigger_events: Vec<QTriggerEvent> = Vec::new();
    let rl = retained.len();
    let mut k2: usize = 0;
    while k2 < rl
        invariant
            k2 <= rl,
            rl == retained@.len(),
            retained@ == filtered,
            *world == *old(world),
            s == objs_view(world.objects@),
            last == world.collision_pairs_last_frame@,
            collision_events@ == spec_collision_events(s, filtered.take(k2 as int), last),
            trigger_events@ == spec_trigger_events(s, filtered.take(k2 as int), last),
        decreases rl - k2,
    {
        let p = retained[k2];
        proof {
            assert(filtered.take(k2 + 1).drop_last() =~= filtered.take(k2 as int));
            assert(filtered.take(k2 + 1).last() == p);
        }
        let ia = find_object_index(&world.objects, p.0);
        let ib = find_object_index(&world.objects, p.1);
        if let (Option::Some(ka), Option::Some(kb)) = (ia, ib) {
            let is_trigger = world.objects[ka].flag.is_trigger || world.objects[kb].flag.is_trigger;
            let in_last = pairs_contains(&world.collision_pairs_last_frame, p);
            if is_trigger {
                if in_last {
                    trigger_events.push(QTriggerEvent::Stay(p.0, p.1));
                } else {
                    trigger_events.push(QTriggerEvent::Enter(p.0, p.1));
                }
            } else {
                if in_last {
                    collision_events.push(QCollisionEvent::Ongoing(p.0, p.1));
                } else {
                    collision_events.push(QCollisionEvent::Started(p.0, p.1));
                }
            }
        }
        k2 = k2 + 1;
    }
    proof {
        assert(filtered.take(rl as int) =~= filtered);
    }

    let ll = world.collision_pairs_last_frame.len();
    let mut k3: usize = 0;
    while k3 < ll
        invariant
            k3 <= ll,
            ll == world.collision_pairs_last_frame@.len(),
            retained@ == filtered,
            *world == *old(world),
            s == objs_view(world.objects@),
            last == world.collision_pairs_last_frame@,
            collision_events@ == spec_collision_events(s, filtered, last) + spec_collision_exits(
                s,
                filtered,
                last.take(k3 as int),
            ),
            trigger_events@ == spec_trigger_events(s, filtered, last) + spec_trigger_exits(
                s,
                filtered,
                last.take(k3 as int),
            ),
        decreases ll - k3,
    {
        let p = world.collision_pairs_last_frame[k3];
        proof {
            assert(last.take(k3 + 1).drop_last() =~= last.take(k3 as int));
            assert(last.take(k3 + 1).last() == p);
        }
        if !pairs_contains(&retained, p) {
            let ia = find_object_index(&world.objects, p.0);
            let ib = find_object_index(&world.objects, p.1);
            if let (Option::Some(ka), Option::Some(kb)) = (ia, ib) {
                let is_trigger = world.objects[ka].flag.is_trigger
                    || world.objects[kb].flag.is_trigger;
                if is_trigger {
                    trigger_events.push(QTriggerEvent::Exit(p.0, p.1));
                } else {
                    collision_events.push(QCollisionEvent::Ended(p.0, p.1));
                }
            }
        }
        k3 = k3 + 1;
    }
    proof {
        assert(last.take(ll as int) =~= last);
    }
    world.collision_pairs = retained;
    (collision_events, trigger_events)
}

/// The post-impulse velocities of a colliding pair. The impulse is
/// skipped — velocities unchanged — when the separation vector has zero
/// magnitude, when the bodies are already separating along its
/// direction, or when the inverse-mass sum is zero.
pub open spec fn spec_impulse(a: ObjState, b: ObjState, v: V2i) -> (V2i, V2i) {
    let relvel = v2_sub(a.velocity, b.velocity);
    let mag = v2_len(v);
    if mag == 0 {
        (a.velocity, b.velocity)
    } else {
        let dir = v2_normalize(v);
        let van = v2_dot(relvel, dir);
        if van < 0 {
            (a.velocity, b.velocity)
        } else {
            let rest = avg_restitution(a.restitution, b.restitution);
            let inva = spec_inverse_mass(a.mass);
            let invb = spec_inverse_mass(b.mass);
            let invsum = fx_add(inva, invb);
            if invsum == 0 {
                (a.velocity, b.velocity)
            } else {
                let sepv = fx_neg(fx_mul(fx_add(rest, FX_ONE_RAW as int), van));
                let imp = fx_div(sepv, invsum);
                let impv = v2_scale(dir, imp);
                (
                    v2_add(a.velocity, v2_scale(impv, inva)),
                    v2_sub(b.velocity, v2_scale(impv, invb)),
                )
            }
        }
    }
}

/// Resolution of one pair: when the world-space shapes overlap, the
/// separation vector is split between the two positions in proportion
/// to the other body's share of the mass — computed by inverse-mass
/// weights, so a heavier body moves less and a static body, with
/// inverse mass zero, never moves — and an impulse from the averaged
/// restitution updates the velocities. The split is skipped entirely
/// when the inverse-mass sum is zero, that is when both bodies are
/// static. A trigger pair is detect-only and leaves the state
/// unchanged, as does a pair whose lookups fail or that does not
/// overlap.
pub open spec fn spec_resolve_pair(s: Seq<ObjState>, p: (QObject, QObject)) -> Seq<ObjState> {
    let ia = find_index(s, p.0);
    let ib = find_index(s, p.1);
    if ia < 0 || ib < 0 || ia == ib {
        s
    } else {
        let a = s[ia];
        let b = s[ib];
        if a.is_trigger || b.is_trigger {
            s
        } else {
            match spec_separation(world_polygon(a), world_polygon(b)) {
                Option::None => s,
                Option::Some(v) => {
                    let inva = spec_inverse_mass(a.mass);
                    let invb = spec_inverse_mass(b.mass);
                    let invsum = fx_add(inva, invb);
                    let pa = if invsum != 0 {
                        v2_add(a.position, v2_neg(v2_scale(v, fx_div(inva, invsum))))
                    } else {
                        a.position
                    };
                    let pb = if invsum != 0 {
                        v2_add(b.position, v2_scale(v, fx_div(invb, invsum)))
                    } else {
                        b.position
                    };
                    let vels = spec_impulse(a, b, v);
                    s.update(ia, ObjState { position: pa, velocity: vels.0, ..a }).update(
                        ib,
                        ObjState { position: pb, velocity: vels.1, ..b },
                    )
                },
            }
        }
    }
}

/// Resolution of all pairs, in order, each against the state the
/// previous pairs left behind.
pub open spec fn spec_resolve_all(
    s: Seq<ObjState>,
    pairs: Seq<(QObject, QObject)>,
) -> Seq<ObjState>
    decreases pairs.len(),
{
    if pairs.len() == 0 {
        s
    } else {
        spec_resolve_pair(spec_resolve_all(s, pairs.drop_last()), pairs.last())
    }
}

/// Replace two distinct elements of an object list.
fn update_two(
    objects: &Vec<QObjectState>,
    ia: usize,
    a: QObjectState,
    ib: usize,
    b: QObjectState,
) -> (r: Vec<QObjectState>)
    requires
        ia < objects@.len(),
        ib < objects@.len(),
        ia != ib,
    ensures
        objs_view(r@) == objs_view(objects@).update(ia as int, a@).update(ib as int, b@),
{
    let n = objects.len();
    let mut out: Vec<QObjectState> = Vec::new();
    let mut t: usize = 0;
    while t < n
        invariant
            t <= n,
            n == objects@.len(),
            ia < n,
            ib < n,
            ia != ib,
            out@.len() == t,
            forall|j: int|
                0 <= j < t ==> out@[j]@ == (if j == ia {
                    a@
                } else if j == ib {
                    b@
                } else {
                    objects@[j]@
                }),
        decreases n - t,
    {
        if t == ia {
            out.push(clone_object_state(&a));
        } else if t == ib {
            out.push(clone_object_state(&b));
        } else {
            out.push(clone_object_state(&objects[t]));
        }
        t = t + 1;
    }
    proof {
        assert(objs_view(out@) =~= objs_view(objects@).update(ia as int, a@).update(
            ib as int,
            b@,
        ));
    }
    out
}

/// Collision resolution: for each surviving non-trigger pair, split the
/// separation vector between the two positions by inverse-mass weights
/// — each body takes the other body's share of the mass, so a heavier
/// body moves less — and apply an impulse from the averaged restitution
/// to the velocities. A static body, with zero inverse mass, is never
/// displaced and never accelerated; a trigger pair is detect-only and
/// left untouched.
pub fn collision_resolution_qsystem(world: &mut QPhysicsWorld)
    ensures
        objs_view(final(world).objects@) == spec_resolve_all(
            objs_view(old(world).objects@),
            old(world).collision_pairs@,
        ),
        final(world).config == old(world).config,
        final(world).collision_pairs == old(world).collision_pairs,
        final(world).collision_pairs_last_frame == old(world).collision_pairs_last_frame,
{
    let m = world.collision_pairs.len();
    let mut k: usize = 0;
    while k < m
        invariant
            k <= m,
            m == world.collision_pairs@.len(),
            world.collision_pairs == old(world).collision_pairs,
            world.collision_pairs_last_frame == old(world).collision_pairs_last_frame,
            world.config == old(world).config,
            objs_view(world.objects@) == spec_resolve_all(
                objs_view(old(world).objects@),
                old(world).collision_pairs@.take(k as int),
            ),
        decreases m - k,
    {
        let p = world.collision_pairs[k];
        proof {
            assert(old(world).collision_pairs@.take(k + 1).drop_last() =~= old(
                world,
            ).collision_pairs@.take(k as int));
            assert(old(world).collision_pairs@.take(k + 1).last() == p);
        }
        let ghost s = objs_view(world.objects@);
        let ia_opt = find_object_index(&world.objects, p.0);
        let ib_opt = find_object_index(&world.objects, p.1);
        if let (Option::Some(ia), Option::Some(ib)) = (ia_opt, ib_opt) {
            if ia != ib && !world.objects[ia].flag.is_trigger && !world.objects[ib].flag.is_trigger {
                let sa = world.objects[ia].transform.apply_to(&world.objects[ia].shape);
                let sb = world.objects[ib].transform.apply_to(&world.objects[ib].shape);
                if let Option::Some(v) = sa.try_get_separation_vector(&sb) {
                    let body_a = world.objects[ia].body;
                    let body_b = world.objects[ib].body;
                    let motion_a = world.objects[ia].motion;
                    let motion_b = world.objects[ib].motion;
                    let transform_a = world.objects[ia].transform;
                    let transform_b = world.objects[ib].transform;

                    let inv_a = body_a.inverse_mass();
                    let inv_b = body_b.inverse_mass();
                    let inv_sum = inv_a.saturating_add(inv_b);
                    let (pos_a, pos_b) = if !inv_sum.is_zero() {
                        (
                            transform_a.position.saturating_add(
                                v.saturating_mul_num(inv_a.saturating_div(inv_sum)).neg(),
                            ),
                            transform_b.position.saturating_add(
                                v.saturating_mul_num(inv_b.saturating_div(inv_sum)),
                            ),
                        )
                    } else {
                        (transform_a.position, transform_b.position)
                    };

                    let relvel = motion_a.velocity.saturating_sub(motion_b.velocity);
                    let mag = v.length();
                    let (vel_a, vel_b) = if mag.is_zero() {
                        (motion_a.velocity, motion_b.velocity)
                    } else {
                        let dir = crate::qdir::QDir::new_from_vec(v);
                        let van = dir.projection_of(relvel);
                        if van.raw < 0 {
                            (motion_a.velocity, motion_b.velocity)
                        } else {
                            let rest = body_a.restitution.saturating_add(
                                body_b.restitution,
                            ).half();
                            let inva = body_a.inverse_mass();
                            let invb = body_b.inverse_mass();
                            let invsum = inva.saturating_add(invb);
                            if invsum.is_zero() {
                                (motion_a.velocity, motion_b.velocity)
                            } else {
                                let sepv = rest.saturating_add(Q64::one()).saturating_mul(
                                    van,
                                ).neg();
                                let imp = sepv.saturating_div(invsum);
                                let impv = dir.to_vec().saturating_mul_num(imp);
                                (
                                    motion_a.velocity.saturating_add(
                                        impv.saturating_mul_num(inva),
                                    ),
                                    motion_b.velocity.saturating_sub(
                                        impv.saturating_mul_num(invb),
                                    ),
                                )
                            }
                        }
                    };

                    let new_a = QObjectState {
                        object: world.objects[ia].object,
                        body: body_a,
                        motion: QMotion {
                            velocity: vel_a,
                            angular_velocity: motion_a.angular_velocity,
                            acceleration: motion_a.acceleration,
                        },
                        shape: clone_shape(&world.objects[ia].shape),
                        flag: world.objects[ia].flag,
                        transform: QTransform {
                            position: pos_a,
                            rotation: transform_a.rotation,
                            scale: transform_a.scale,
                        },
                    };
                    let new_b = QObjectState {
                        object: world.objects[ib].object,
                        body: body_b,
                        motion: QMotion {
                            velocity: vel_b,
                            angular_velocity: motion_b.angular_velocity,
                            acceleration: motion_b.acceleration,
                        },
                        shape: clone_shape(&world.objects[ib].shape),
                        flag: world.objects[ib].flag,
                        transform: QTransform {
                            position: pos_b,
                            rotation: transform_b.rotation,
                            scale: transform_b.scale,
                        },
                    };
                    let updated = update_two(&world.objects, ia, new_a, ib, new_b);
                    world.objects = updated;
                    proof {
                        assert(objs_view(world.objects@) =~= spec_resolve_pair(s, p));
                    }
                } else {
                    proof {
                        assert(objs_view(world.objects@) == spec_resolve_pair(s, p));
                    }
                }
            } else {
                proof {
                    assert(objs_view(world.objects@) == spec_resolve_pair(s, p));
                }
            }
        } else {
            proof {
                assert(objs_view(world.objects@) == spec_resolve_pair(s, p));
            }
        }
        k = k + 1;
    }
    proof {
        assert(old(world).collision_pairs@.take(m as int) =~= old(world).collision_pairs@);
    }
}

/// One tick of the simulation: force application, velocity integration,
/// broad phase, narrow phase, collision resolution and position
/// integration, strictly in that order, returning the tick's collision
/// and trigger event streams.
pub fn step(world: &mut QPhysicsWorld) -> (r: (Vec<QCollisionEvent>, Vec<QTriggerEvent>))
    ensures
        ({
            let g = old(world).config.gravity@;
            let dt = old(world).config.time_step@;
            let s0 = objs_view(old(world).objects@);
            let s1 = spec_apply_forces(s0, g);
            let s2 = spec_integrate_velocities(s1, dt);
            let cand = spec_broad_pairs(s2);
            let filtered = spec_narrow_filter(s2, cand);
            let last = old(world).collision_pairs@;
            let s3 = spec_resolve_all(s2, filtered);
            let s4 = spec_integrate_positions(s3, dt);
            &&& objs_view(final(world).objects@) == s4
            &&& final(world).collision_pairs@ == filtered
            &&& final(world).collision_pairs_last_frame@ == last
            &&& final(world).config == old(world).config
            &&& r.0@ == spec_collision_events(s2, filtered, last) + spec_collision_exits(
                s2,
                filtered,
                last,
            )
            &&& r.1@ == spec_trigger_events(s2, filtered, last) + spec_trigger_exits(
                s2,
                filtered,
                last,
            )
        }),
{
    apply_forces_qsystem(world);
    integrate_velocities_qsystem(world);
    broad_phase_qsystem(world);
    let events = narrow_phase_qsystem(world);
    collision_resolution_qsystem(world);
    integrate_positions_qsystem(world);
    events
}

/// Multiplying by a positive divisor and truncating back divides
/// exactly.
pub proof fn lemma_div_trunc_exact(x: int, d: int)
    requires
        d > 0,
    ensures
        crate::q64::div_trunc(x * d, d) == x,
{
    vstd::arithmetic::div_mod::lemma_div_multiples_vanish(x, d);
    assert(x * d == d * x) by (nonlinear_arith);
    if x * d < 0 {
        assert(-(x * d) == d * (-x)) by (nonlinear_arith);
        vstd::arithmetic::div_mod::lemma_div_multiples_vanish(-x, d);
    }
}

/// Multiplying an in-range scalar by one is exact.
pub proof fn lemma_fx_mul_one(x: int)
    requires
        i64::MIN <= x <= i64::MAX,
    ensures
        fx_mul(x, FX_ONE_RAW as int) == x,
        fx_mul(FX_ONE_RAW as int, x) == x,
{
    lemma_div_trunc_exact(x, FX_ONE_RAW as int);
    assert(x * (FX_ONE_RAW as int) == (FX_ONE_RAW as int) * x) by (nonlinear_arith);
}

/// For two dynamic bodies of unit mass meeting head-on along the x axis
/// with restitution one, the impulse swaps the two velocities exactly:
/// the elastic-collision identity, free of rounding here because every
/// intermediate value is exact in the fixed-point representation.
pub proof fn lemma_equal_mass_elastic_swap(a: ObjState, b: ObjState, v: V2i)
    requires
        a.mass == FX_ONE_RAW as int,
        b.mass == FX_ONE_RAW as int,
        a.restitution == FX_ONE_RAW as int,
        b.restitution == FX_ONE_RAW as int,
        a.velocity.y == 0,
        b.velocity.y == 0,
        -1152921504606846976 <= a.velocity.x <= 1152921504606846976,
        -1152921504606846976 <= b.velocity.x <= 1152921504606846976,
        a.velocity.x >= b.velocity.x,
        v2_len(v) != 0,
        v2_normalize(v) == (V2i { x: FX_ONE_RAW as int, y: 0 }),
    ensures
        spec_impulse(a, b, v) == (b.velocity, a.velocity),
{
    let one = FX_ONE_RAW as int;
    let ax = a.velocity.x;
    let bx = b.velocity.x;
    let van = ax - bx;
    let dir = v2_normalize(v);
    let relvel = v2_sub(a.velocity, b.velocity);
    assert(relvel == (V2i { x: van, y: 0 }));
    lemma_fx_mul_one(van);
    assert(fx_mul(0, 0) == 0);
    assert(v2_dot(relvel, dir) == van);
    assert(spec_inverse_mass(one) == one) by {
        lemma_div_trunc_exact(one, one);
    }
    let invsum = fx_add(one, one);
    assert(invsum == 2 * one);
    assert(avg_restitution(one, one) == one);
    let sepv = fx_neg(fx_mul(fx_add(one, one), van));
    assert(fx_mul(2 * one, van) == 2 * van) by {
        lemma_div_trunc_exact(2 * van, one);
        assert((2 * one) * van == (2 * van) * one) by (nonlinear_arith);
    }
    assert(sepv == -2 * van);
    let imp = fx_div(sepv, invsum);
    assert(imp == -van) by {
        lemma_div_trunc_exact(-van, 2 * one);
        assert((-2 * van) * one == (-van) * (2 * one)) by (nonlinear_arith);
    }
    lemma_fx_mul_one(imp);
    assert(fx_mul(0, imp) == 0) by {
        assert(0 * imp == 0) by (nonlinear_arith);
    }
    let impv = v2_scale(dir, imp);
    assert(impv == (V2i { x: imp, y: 0 }));
    assert(v2_scale(impv, one) == (V2i { x: imp, y: 0 }));
    assert(v2_add(a.velocity, v2_scale(impv, one)) == b.velocity);
    assert(v2_sub(b.velocity, v2_scale(impv, one)) == a.velocity);
}

/// For two dynamic bodies of equal mass meeting head-on along the x
/// axis with restitution one, the impulse swaps the two speeds up to a
/// small fixed-point tolerance: each post-impulse velocity lies within
/// `inv / 2^32 + 1` raw steps of the other body's old velocity, where
/// `inv` is the shared inverse mass — for masses of one and above, at
/// most two smallest representable steps.
pub proof fn lemma_equal_mass_swap_within_tolerance(a: ObjState, b: ObjState, v: V2i)
    requires
        a.mass == b.mass,
        65536 <= a.mass <= 281474976710656,
        a.restitution == FX_ONE_RAW as int,
        b.restitution == FX_ONE_RAW as int,
        a.velocity.y == 0,
        b.velocity.y == 0,
        -1099511627776 <= a.velocity.x <= 1099511627776,
        -1099511627776 <= b.velocity.x <= 1099511627776,
        a.velocity.x >= b.velocity.x,
        v2_len(v) != 0,
        v2_normalize(v) == (V2i { x: FX_ONE_RAW as int, y: 0 }),
    ensures
        ({
            let tol = spec_inverse_mass(a.mass) / (FX_ONE_RAW as int) + 1;
            let r = spec_impulse(a, b, v);
            &&& r.0.y == 0
            &&& r.1.y == 0
            &&& b.velocity.x <= r.0.x <= b.velocity.x + tol
            &&& a.velocity.x - tol <= r.1.x <= a.velocity.x
        }),
{
    let one = FX_ONE_RAW as int;
    let m = a.mass;
    let ax = a.velocity.x;
    let bx = b.velocity.x;
    let van = ax - bx;
    let dir = v2_normalize(v);
    let relvel = v2_sub(a.velocity, b.velocity);
    assert(relvel == (V2i { x: van, y: 0 }));
    lemma_fx_mul_one(van);
    assert(fx_mul(0, 0) == 0);
    assert(v2_dot(relvel, dir) == van);

    // the shared inverse mass is exactly 2^64 / m, between 2^16 and 2^48
    let q = 18446744073709551616int / m;
    vstd::arithmetic::div_mod::lemma_fundamental_div_mod(18446744073709551616int, m);
    vstd::arithmetic::div_mod::lemma_mod_bound(18446744073709551616int, m);
    assert(65536 <= q <= 281474976710656) by (nonlinear_arith)
        requires
            m * q + (18446744073709551616int % m) == 18446744073709551616int,
            0 <= 18446744073709551616int % m < m,
            65536 <= m <= 281474976710656,
    ;
    let u = spec_inverse_mass(m);
    assert(u == q) by {
        assert(one * one == 18446744073709551616int);
        assert(div_trunc_signed(one * one, m) == q);
    }
    let invsum = fx_add(u, u);
    assert(invsum == 2 * u);
    assert(avg_restitution(one, one) == one);

    // the separating velocity is exactly -2 * van
    let sepv = fx_neg(fx_mul(fx_add(one, one), van));
    assert(fx_mul(2 * one, van) == 2 * van) by {
        lemma_div_trunc_exact(2 * van, one);
        assert((2 * one) * van == (2 * van) * one) by (nonlinear_arith);
    }
    assert(sepv == -2 * van);

    // the impulse scalar is exactly -(van * 2^32) / u
    let w = (van * one) / u;
    vstd::arithmetic::div_mod::lemma_div_pos_is_pos(van * one, u);
    assert(van * one >= 0) by (nonlinear_arith)
        requires
            van >= 0,
            one > 0,
    ;
    vstd::arithmetic::div_mod::lemma_fundamental_div_mod(van * one, u);
    vstd::arithmetic::div_mod::lemma_mod_bound(van * one, u);
    let r1 = (van * one) % u;
    assert(w <= 144115188075855872) by (nonlinear_arith)
        requires
            u * w + r1 == van * one,
            r1 >= 0,
            u >= 65536,
            w >= 0,
            0 <= van <= 2199023255552,
            one == 4294967296,
    ;
    let imp = fx_div(sepv, invsum);
    assert(imp == -w) by {
        assert(sepv * one == -(2 * (van * one))) by (nonlinear_arith)
            requires
                sepv == -2 * van,
                one > 0,
        ;
        if van == 0 {
            assert((0int) / u == 0) by {
                vstd::arithmetic::div_mod::lemma_div_pos_is_pos(0, u);
                vstd::arithmetic::div_mod::lemma_div_is_ordered(0, 0, u);
                assert(0int / u <= 0int) by (nonlinear_arith)
                    requires
                        u * (0int / u) + (0int % u) == 0,
                        0 <= 0int % u < u,
                        u > 0,
                ;
            }
            assert(w == 0);
            assert(div_trunc_signed(sepv * one, invsum) == 0) by {
                assert(sepv * one == 0) by (nonlinear_arith)
                    requires
                        sepv == 0,
                ;
                vstd::arithmetic::div_mod::lemma_fundamental_div_mod(0, invsum);
                vstd::arithmetic::div_mod::lemma_mod_bound(0, invsum);
                assert((0int) / (2 * u) == 0) by (nonlinear_arith)
                    requires
                        (2 * u) * ((0int) / (2 * u)) + ((0int) % (2 * u)) == 0,
                        0 <= (0int) % (2 * u) < 2 * u,
                        u > 0,
                ;
            }
        } else {
            vstd::arithmetic::div_mod::lemma_div_multiples_vanish_quotient(2, van * one, u);
            assert((2 * (van * one)) / (2 * u) == w);
            assert(div_trunc(2 * (van * one), 2 * u) == w);
            assert(div_trunc_signed(sepv * one, invsum) == -w);
        }
    }

    // the applied velocity change is exactly -d with d = (w * u) / 2^32
    lemma_fx_mul_one(-w);
    assert(fx_mul(0, imp) == 0) by {
        assert(0 * imp == 0) by (nonlinear_arith);
    }
    let impv = v2_scale(dir, imp);
    assert(impv == (V2i { x: -w, y: 0 }));

    let d = (w * u) / one;
    vstd::arithmetic::div_mod::lemma_div_pos_is_pos(w * u, one);
    assert(w * u >= 0) by (nonlinear_arith)
        requires
            w >= 0,
            u > 0,
    ;
    vstd::arithmetic::div_mod::lemma_fundamental_div_mod(w * u, one);
    vstd::arithmetic::div_mod::lemma_mod_bound(w * u, one);
    let r2 = (w * u) % one;
    assert((van - d) * one == r1 + r2) by (nonlinear_arith)
        requires
            u * w + r1 == van * one,
            one * d + r2 == w * u,
            one > 0,
    ;
    assert(0 <= van - d) by (nonlinear_arith)
        requires
            (van - d) * one == r1 + r2,
            r1 >= 0,
            r2 >= 0,
            one > 0,
    ;
    let tol = u / one + 1;
    vstd::arithmetic::div_mod::lemma_fundamental_div_mod(u, one);
    vstd::arithmetic::div_mod::lemma_mod_bound(u, one);
    assert(van - d <= tol) by (nonlinear_arith)
        requires
            (van - d) * one == r1 + r2,
            r1 < u,
            r2 < one,
            one * (u / one) + (u % one) == u,
            0 <= u % one < one,
            one > 0,
            tol == u / one + 1,
    ;

    assert(fx_mul(-w, u) == -d) by {
        assert((-w) * u == -(w * u)) by (nonlinear_arith);
        assert(div_trunc_signed((-w) * u, one) == -d);
        assert(d <= van);
    }
    assert(fx_mul(0, u) == 0) by {
        assert(0 * u == 0) by (nonlinear_arith);
    }
    assert(v2_scale(impv, u) == (V2i { x: -d, y: 0 }));
    assert(v2_add(a.velocity, V2i { x: -d, y: 0 }) == (V2i { x: ax - d, y: 0 }));
    assert(v2_sub(b.velocity, V2i { x: -d, y: 0 }) == (V2i { x: bx + d, y: 0 }));
}

/// Whether both components of a vector model lie in the representable
/// scalar range, as every model read off an executable vector does.
pub open spec fn v2_in_range(v: V2i) -> bool {
    i64::MIN <= v.x <= i64::MAX && i64::MIN <= v.y <= i64::MAX
}

/// One resolution step never moves or accelerates a static body: its
/// inverse mass is zero, so its share of the positional correction and
/// of the impulse are both zero.
pub proof fn lemma_resolve_pair_static(s: Seq<ObjState>, p: (QObject, QObject), i: int)
    requires
        0 <= i < s.len(),
        s[i].mass <= 0,
        v2_in_range(s[i].position),
        v2_in_range(s[i].velocity),
    ensures
        spec_resolve_pair(s, p).len() == s.len(),
        spec_resolve_pair(s, p)[i] == s[i],
{
    lemma_find_index(s, p.0);
    lemma_find_index(s, p.1);
    let ia = find_index(s, p.0);
    let ib = find_index(s, p.1);
    if !(ia < 0 || ib < 0 || ia == ib) {
        let a = s[ia];
        let b = s[ib];
        if !(a.is_trigger || b.is_trigger) {
        match spec_separation(world_polygon(a), world_polygon(b)) {
            Option::None => {},
            Option::Some(v) => {
                if i == ia {
                    assert(spec_inverse_mass(a.mass) == 0);
                    let invsum = fx_add(spec_inverse_mass(a.mass), spec_inverse_mass(b.mass));
                    if invsum != 0 {
                        assert(fx_div(0, invsum) == 0);
                        assert(v2_neg(v2_scale(v, 0)) == (V2i { x: 0, y: 0 }));
                        assert(v2_add(a.position, V2i { x: 0, y: 0 }) == a.position);
                    }
                    assert(spec_impulse(a, b, v).0 == a.velocity) by {
                        let relvel = v2_sub(a.velocity, b.velocity);
                        if v2_len(v) != 0 {
                            let dir = v2_normalize(v);
                            if v2_dot(relvel, dir) >= 0 {
                                let inva = spec_inverse_mass(a.mass);
                                let invb = spec_inverse_mass(b.mass);
                                if fx_add(inva, invb) != 0 {
                                    let imp = fx_div(
                                        fx_neg(
                                            fx_mul(
                                                fx_add(
                                                    avg_restitution(a.restitution, b.restitution),
                                                    FX_ONE_RAW as int,
                                                ),
                                                v2_dot(relvel, dir),
                                            ),
                                        ),
                                        fx_add(inva, invb),
                                    );
                                    assert(v2_scale(v2_scale(dir, imp), 0) == (V2i {
                                        x: 0,
                                        y: 0,
                                    }));
                                    assert(v2_add(a.velocity, V2i { x: 0, y: 0 }) == a.velocity);
                                }
                            }
                        }
                    }
                } else if i == ib {
                    assert(spec_inverse_mass(b.mass) == 0);
                    let invsum = fx_add(spec_inverse_mass(a.mass), spec_inverse_mass(b.mass));
                    if invsum != 0 {
                        assert(fx_div(0, invsum) == 0);
                        assert(v2_scale(v, 0) == (V2i { x: 0, y: 0 }));
                        assert(v2_add(b.position, V2i { x: 0, y: 0 }) == b.position);
                    }
                    assert(spec_impulse(a, b, v).1 == b.velocity) by {
                        let relvel = v2_sub(a.velocity, b.velocity);
                        if v2_len(v) != 0 {
                            let dir = v2_normalize(v);
                            if v2_dot(relvel, dir) >= 0 {
                                let inva = spec_inverse_mass(a.mass);
                                let invb = spec_inverse_mass(b.mass);
                                if fx_add(inva, invb) != 0 {
                                    let imp = fx_div(
                                        fx_neg(
                                            fx_mul(
                                                fx_add(
                                                    avg_restitution(a.restitution, b.restitution),
                                                    FX_ONE_RAW as int,
                                                ),
                                                v2_dot(relvel, dir),
                                            ),
                                        ),
                                        fx_add(inva, invb),
                                    );
                                    assert(v2_scale(v2_scale(dir, imp), 0) == (V2i {
                                        x: 0,
                                        y: 0,
                                    }));
                                    assert(v2_sub(b.velocity, V2i { x: 0, y: 0 }) == b.velocity);
                                }
                            }
                        }
                    }
                }
            },
        }
        }
    }
}

/// After any number of resolution steps, a body with nonpositive mass
/// keeps its position and velocity (and every other component): static
/// bodies are immovable.
pub proof fn lemma_static_body_invariance(
    s: Seq<ObjState>,
    pairs: Seq<(QObject, QObject)>,
    i: int,
)
    requires
        0 <= i < s.len(),
        s[i].mass <= 0,
        v2_in_range(s[i].position),
        v2_in_range(s[i].velocity),
    ensures
        spec_resolve_all(s, pairs).len() == s.len(),
        spec_resolve_all(s, pairs)[i] == s[i],
    decreases pairs.len(),
{
    if pairs.len() > 0 {
        lemma_static_body_invariance(s, pairs.drop_last(), i);
        lemma_resolve_pair_static(spec_resolve_all(s, pairs.drop_last()), pairs.last(), i);
    }
}

/// Whether all object identities in the world are distinct.
pub open spec fn distinct_ids(s: Seq<ObjState>) -> bool {
    forall|i: int, j: int| 0 <= i < j < s.len() ==> s[i].object != s[j].object
}

/// No row of the broad scan emits a pair whose masks forbid a collision.
proof fn lemma_broad_row_masked(s: Seq<ObjState>, i: int, j: int, ia: int, ib: int)
    requires
        distinct_ids(s),
        0 <= ia < s.len(),
        0 <= ib < s.len(),
        !masks_allow(s[ia].layer, s[ia].mask, s[ib].layer, s[ib].mask),
    ensures
        !broad_row(s, i, j).contains((s[ia].object, s[ib].object)),
    decreases s.len() - j,
{
    let target = (s[ia].object, s[ib].object);
    if j < 0 || j >= s.len() || !(0 <= i < s.len()) {
    } else {
        lemma_broad_row_masked(s, i, j + 1, ia, ib);
        let head: Seq<(QObject, QObject)> = if broad_cond(s[i], s[j]) {
            seq![(s[i].object, s[j].object)]
        } else {
            Seq::empty()
        };
        let rest = broad_row(s, i, j + 1);
        if broad_cond(s[i], s[j]) {
            assert(s[i].object == s[ia].object ==> i == ia);
            assert(s[j].object == s[ib].object ==> j == ib);
            assert(head[0] != target);
        }
        assert forall|k: int| 0 <= k < broad_row(s, i, j).len() implies broad_row(s, i, j)[k]
            != target by {
            if k < head.len() {
                assert(broad_row(s, i, j)[k] == head[k]);
            } else {
                assert(broad_row(s, i, j)[k] == rest[k - head.len()]);
                assert(rest.contains(rest[k - head.len()])) by {
                    assert(0 <= k - head.len() < rest.len());
                }
            }
        }
    }
}

/// No part of the broad scan emits a pair whose masks forbid a collision.
proof fn lemma_broad_from_masked(s: Seq<ObjState>, i: int, ia: int, ib: int)
    requires
        distinct_ids(s),
        0 <= ia < s.len(),
        0 <= ib < s.len(),
        !masks_allow(s[ia].layer, s[ia].mask, s[ib].layer, s[ib].mask),
    ensures
        !broad_from(s, i).contains((s[ia].object, s[ib].object)),
    decreases s.len() - i,
{
    let target = (s[ia].object, s[ib].object);
    if i < 0 || i >= s.len() {
    } else {
        lemma_broad_row_masked(s, i, i + 1, ia, ib);
        lemma_broad_from_masked(s, i + 1, ia, ib);
        let row = broad_row(s, i, i + 1);
        let rest = broad_from(s, i + 1);
        assert forall|k: int| 0 <= k < broad_from(s, i).len() implies broad_from(s, i)[k]
            != target by {
            if k < row.len() {
                assert(broad_from(s, i)[k] == row[k]);
                assert(row.contains(row[k])) by {
                    assert(0 <= k < row.len());
                }
            } else {
                assert(broad_from(s, i)[k] == rest[k - row.len()]);
                assert(rest.contains(rest[k - row.len()])) by {
                    assert(0 <= k - row.len() < rest.len());
                }
            }
        }
    }
}

/// Two objects whose masks fail the symmetric gate never appear in the
/// broad-phase candidate set, whatever their geometry.
pub proof fn lemma_layer_masking(s: Seq<ObjState>, ia: int, ib: int)
    requires
        distinct_ids(s),
        0 <= ia < s.len(),
        0 <= ib < s.len(),
        !masks_allow(s[ia].layer, s[ia].mask, s[ib].layer, s[ib].mask),
    ensures
        !spec_broad_pairs(s).contains((s[ia].object, s[ib].object)),
        !spec_broad_pairs(s).contains((s[ib].object, s[ia].object)),
{
    lemma_broad_from_masked(s, 0, ia, ib);
    crate::physics::lemma_masks_allow_symmetric(
        s[ia].layer,
        s[ia].mask,
        s[ib].layer,
        s[ib].mask,
    );
    lemma_broad_from_masked(s, 0, ib, ia);
}

/// A sequence that does not contain an element does not contain it in
/// any prefix.
proof fn lemma_not_contains_drop_last<A>(s: Seq<A>, x: A)
    requires
        s.len() > 0,
        !s.contains(x),
    ensures
        !s.drop_last().contains(x),
{
    if s.drop_last().contains(x) {
        let k = choose|k: int| 0 <= k < s.drop_last().len() && s.drop_last()[k] == x;
        assert(s[k] == x);
        assert(s.contains(x));
    }
}

/// The per-pair streams emit no started or ongoing event for a pair
/// outside the surviving set, and never an ended event.
proof fn lemma_collision_events_absent(
    s: Seq<ObjState>,
    cur: Seq<(QObject, QObject)>,
    last: Seq<(QObject, QObject)>,
    p: (QObject, QObject),
)
    requires
        !cur.contains(p),
    ensures
        spec_collision_events(s, cur, last).to_multiset().count(
            QCollisionEvent::Started(p.0, p.1),
        ) == 0,
        spec_collision_events(s, cur, last).to_multiset().count(
            QCollisionEvent::Ongoing(p.0, p.1),
        ) == 0,
        spec_collision_events(s, cur, last).to_multiset().count(QCollisionEvent::Ended(p.0, p.1))
            == 0,
    decreases cur.len(),
{
    if cur.len() > 0 {
        lemma_not_contains_drop_last(cur, p);
        lemma_collision_events_absent(s, cur.drop_last(), last, p);
        let q = cur.last();
        assert(cur.contains(q)) by {
            assert(cur[cur.len() - 1] == q);
        }
        assert(q != p);
    }
}

/// The exit stream emits exactly as many ended events for a pair as the
/// snapshot holds copies of it, and no started or ongoing events at
/// all.
proof fn lemma_collision_exits_count(
    s: Seq<ObjState>,
    cur: Seq<(QObject, QObject)>,
    last: Seq<(QObject, QObject)>,
    p: (QObject, QObject),
)
    requires
        !cur.contains(p),
        pair_found(s, p),
        !pair_is_trigger(s, p),
    ensures
        spec_collision_exits(s, cur, last).to_multiset().count(QCollisionEvent::Ended(p.0, p.1))
            == last.to_multiset().count(p),
        spec_collision_exits(s, cur, last).to_multiset().count(
            QCollisionEvent::Started(p.0, p.1),
        ) == 0,
        spec_collision_exits(s, cur, last).to_multiset().count(
            QCollisionEvent::Ongoing(p.0, p.1),
        ) == 0,
    decreases last.len(),
{
    if last.len() == 0 {
        assert(last.to_multiset() =~= Multiset::<(QObject, QObject)>::empty());
    } else {
        lemma_collision_exits_count(s, cur, last.drop_last(), p);
        let q = last.last();
        assert(last =~= last.drop_last().push(q));
        assert(last.to_multiset() == last.drop_last().to_multiset().insert(q));
        if q == p {
            assert(!cur.contains(q) && pair_found(s, q) && !pair_is_trigger(s, q));
        } else {
            assert(QCollisionEvent::Ended(q.0, q.1) != QCollisionEvent::Ended(p.0, p.1));
        }
    }
}

/// For a pair that was colliding in the previous frame and is not in
/// this frame's surviving set, the collision stream carries exactly one
/// ended event for it, and no started or ongoing event; a stay can only
/// reappear after a new started event, because the pair is absent from
/// the next snapshot as well.
pub proof fn lemma_event_transition_completeness(
    s: Seq<ObjState>,
    cur: Seq<(QObject, QObject)>,
    last: Seq<(QObject, QObject)>,
    p: (QObject, QObject),
)
    requires
        last.to_multiset().count(p) == 1,
        !cur.contains(p),
        pair_found(s, p),
        !pair_is_trigger(s, p),
    ensures
        ({
            let events = spec_collision_events(s, cur, last) + spec_collision_exits(s, cur, last);
            &&& events.to_multiset().count(QCollisionEvent::Ended(p.0, p.1)) == 1
            &&& events.to_multiset().count(QCollisionEvent::Ongoing(p.0, p.1)) == 0
            &&& events.to_multiset().count(QCollisionEvent::Started(p.0, p.1)) == 0
        }),
{
    lemma_collision_events_absent(s, cur, last, p);
    lemma_collision_exits_count(s, cur, last, p);
    vstd::seq_lib::lemma_multiset_commutative(
        spec_collision_events(s, cur, last),
        spec_collision_exits(s, cur, last),
    );
}

/// A pair absent from the last-frame snapshot can only re-enter the
/// collision stream with a started event: it gets exactly one started
/// event and no ongoing event while it is absent from the snapshot.
pub proof fn lemma_started_before_ongoing(
    s: Seq<ObjState>,
    cur: Seq<(QObject, QObject)>,
    last: Seq<(QObject, QObject)>,
    p: (QObject, QObject),
)
    requires
        cur.to_multiset().count(p) == 1,
        !last.contains(p),
        pair_found(s, p),
        !pair_is_trigger(s, p),
    ensures
        spec_collision_events(s, cur, last).to_multiset().count(
            QCollisionEvent::Started(p.0, p.1),
        ) == 1,
        spec_collision_events(s, cur, last).to_multiset().count(
            QCollisionEvent::Ongoing(p.0, p.1),
        ) == 0,
    decreases cur.len(),
{
    lemma_started_ongoing_counts(s, cur, last, p);
}

/// Counting helper: started events for a pair not in the snapshot match
/// the pair's multiplicity in the surviving set, and ongoing events for
/// it never occur.
proof fn lemma_started_ongoing_counts(
    s: Seq<ObjState>,
    cur: Seq<(QObject, QObject)>,
    last: Seq<(QObject, QObject)>,
    p: (QObject, QObject),
)
    requires
        !last.contains(p),
        pair_found(s, p),
        !pair_is_trigger(s, p),
    ensures
        spec_collision_events(s, cur, last).to_multiset().count(
            QCollisionEvent::Started(p.0, p.1),
        ) == cur.to_multiset().count(p),
        spec_collision_events(s, cur, last).to_multiset().count(
            QCollisionEvent::Ongoing(p.0, p.1),
        ) == 0,
    decreases cur.len(),
{
    if cur.len() == 0 {
        assert(cur.to_multiset() =~= Multiset::<(QObject, QObject)>::empty());
    } else {
        lemma_started_ongoing_counts(s, cur.drop_last(), last, p);
        let q = cur.last();
        assert(cur =~= cur.drop_last().push(q));
        assert(cur.to_multiset() == cur.drop_last().to_multiset().insert(q));
        if q != p {
            assert(QCollisionEvent::Started(q.0, q.1) != QCollisionEvent::Started(p.0, p.1));
            assert(QCollisionEvent::Ongoing(q.0, q.1) != QCollisionEvent::Ongoing(p.0, p.1));
        }
    }
}

/// The per-pair trigger stream emits no enter or stay event for a pair
/// outside the surviving set, and never an exit event.
proof fn lemma_trigger_events_absent(
    s: Seq<ObjState>,
    cur: Seq<(QObject, QObject)>,
    last: Seq<(QObject, QObject)>,
    p: (QObject, QObject),
)
    requires
        !cur.contains(p),
    ensures
        spec_trigger_events(s, cur, last).to_multiset().count(QTriggerEvent::Enter(p.0, p.1))
            == 0,
        spec_trigger_events(s, cur, last).to_multiset().count(QTriggerEvent::Stay(p.0, p.1)) == 0,
        spec_trigger_events(s, cur, last).to_multiset().count(QTriggerEvent::Exit(p.0, p.1)) == 0,
    decreases cur.len(),
{
    if cur.len() > 0 {
        lemma_not_contains_drop_last(cur, p);
        lemma_trigger_events_absent(s, cur.drop_last(), last, p);
        let q = cur.last();
        assert(cur.contains(q)) by {
            assert(cur[cur.len() - 1] == q);
        }
        assert(q != p);
    }
}

/// The trigger exit stream emits exactly as many exit events for a pair
/// as the snapshot holds copies of it, and no enter or stay events at
/// all.
proof fn lemma_trigger_exits_count(
    s: Seq<ObjState>,
    cur: Seq<(QObject, QObject)>,
    last: Seq<(QObject, QObject)>,
    p: (QObject, QObject),
)
    requires
        !cur.contains(p),
        pair_found(s, p),
        pair_is_trigger(s, p),
    ensures
        spec_trigger_exits(s, cur, last).to_multiset().count(QTriggerEvent::Exit(p.0, p.1))
            == last.to_multiset().count(p),
        spec_trigger_exits(s, cur, last).to_multiset().count(QTriggerEvent::Enter(p.0, p.1))
            == 0,
        spec_trigger_exits(s, cur, last).to_multiset().count(QTriggerEvent::Stay(p.0, p.1)) == 0,
    decreases last.len(),
{
    if last.len() == 0 {
        assert(last.to_multiset() =~= Multiset::<(QObject, QObject)>::empty());
    } else {
        lemma_trigger_exits_count(s, cur, last.drop_last(), p);
        let q = last.last();
        assert(last =~= last.drop_last().push(q));
        assert(last.to_multiset() == last.drop_last().to_multiset().insert(q));
        if q == p {
            assert(!cur.contains(q) && pair_found(s, q) && pair_is_trigger(s, q));
        } else {
            assert(QTriggerEvent::Exit(q.0, q.1) != QTriggerEvent::Exit(p.0, p.1));
        }
    }
}

/// For a trigger pair that was colliding in the previous frame and is
/// not in this frame's surviving set, the trigger stream carries
/// exactly one exit event for it, and no enter or stay event.
pub proof fn lemma_trigger_transition_completeness(
    s: Seq<ObjState>,
    cur: Seq<(QObject, QObject)>,
    last: Seq<(QObject, QObject)>,
    p: (QObject, QObject),
)
    requires
        last.to_multiset().count(p) == 1,
        !cur.contains(p),
        pair_found(s, p),
        pair_is_trigger(s, p),
    ensures
        ({
            let events = spec_trigger_events(s, cur, last) + spec_trigger_exits(s, cur, last);
            &&& events.to_multiset().count(QTriggerEvent::Exit(p.0, p.1)) == 1
            &&& events.to_multiset().count(QTriggerEvent::Stay(p.0, p.1)) == 0
            &&& events.to_multiset().count(QTriggerEvent::Enter(p.0, p.1)) == 0
        }),
{
    lemma_trigger_events_absent(s, cur, last, p);
    lemma_trigger_exits_count(s, cur, last, p);
    vstd::seq_lib::lemma_multiset_commutative(
        spec_trigger_events(s, cur, last),
        spec_trigger_exits(s, cur, last),
    );
}

} // verus!
