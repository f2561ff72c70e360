//! Velocity limits, position integration, edge avoidance and facing.

use vstd::prelude::*;
use vstd::math::abs;
use crate::fixed::{div_toward_zero, lemma_product_bound, lemma_square_monotone, quotient, scale, UNIT};
use crate::vec2::{lemma_len2_zero, Offset, Vec2, Wide};

verus! {

/// The least speed of a duck that moves on its own.
pub const MIN_VELOCITY: i32 = 50_000;

/// The greatest speed of a duck.
pub const MAX_VELOCITY: i32 = 150_000;

/// How close to the border of the arena an agent starts to turn back.
pub const EDGE_MARGIN: i32 = 100_000;

/// Acceleration back into the arena.
pub const TURN_FACTOR: u32 = 130_000;

/// Horizontal speed above which an agent turns to face where it goes.
pub const FLIP_VELOCITY_THRESHOLD: i32 = 50_000;

/// How fast and in which direction an agent moves, per second.
#[derive(Clone, Copy, Debug)]
pub struct Velocity(pub Vec2);

impl Default for Velocity {
    /// An agent at rest.
    fn default() -> (velocity: Velocity)
        ensures
            velocity.0 == Vec2::zero_vector(),
    {
        Velocity(Vec2 { x: 0, y: 0 })
    }
}

/// The least and the greatest speed of an agent.
#[derive(Clone, Copy, Debug)]
pub struct VelocityLimits {
    pub min: i32,
    pub max: i32,
}

impl VelocityLimits {
    /// Limits are in order when the least speed is not negative and not above
    /// the greatest.
    pub open spec fn wf(self) -> bool {
        0 <= self.min <= self.max
    }
}

impl Default for VelocityLimits {
    fn default() -> (limits: VelocityLimits)
        ensures
            limits.min == MIN_VELOCITY,
            limits.max == MAX_VELOCITY,
            limits.wf(),
    {
        VelocityLimits { min: MIN_VELOCITY, max: MAX_VELOCITY }
    }
}

/// The speed change that `factor` per second makes over `dt` seconds.
pub open spec fn speed_change(factor: u32, dt: u32) -> int {
    scale(factor as int, dt as int)
}

/// The speed change that `factor` per second makes over `dt` seconds.
pub fn compute_speed_change(factor: u32, dt: u32) -> (change: i128)
    ensures
        change == speed_change(factor, dt),
        0 <= change <= 0x4000_0000_0000_0000,
{
    proof {
        lemma_product_bound(factor as int, dt as int, 0x1_0000_0000, 0x1_0000_0000);
        assert(factor as int * dt as int >= 0) by (nonlinear_arith)
            requires
                factor >= 0,
                dt >= 0,
        ;
    }
    quotient((factor as i128) * (dt as i128), UNIT as i128)
}

/// An agent that moves.
#[derive(Clone, Copy, Debug)]
pub struct Body {
    pub position: Vec2,
    pub velocity: Velocity,
}

/// The way an agent covers in `dt` seconds at `velocity`.
pub open spec fn travel(velocity: Velocity, dt: u32) -> Offset {
    velocity.0.exact().scaled(dt as int)
}

/// Moves every agent along its velocity for `dt` seconds.
pub fn system_movement(dt: u32, bodies: &mut Vec<Body>)
    ensures
        final(bodies)@.len() == old(bodies)@.len(),
        forall|i: int|
            0 <= i < old(bodies)@.len() ==> ({
                &&& (#[trigger] final(bodies)@[i]).velocity == old(bodies)@[i].velocity
                &&& final(bodies)@[i].position == old(bodies)@[i].position.moved_by(
                    travel(old(bodies)@[i].velocity, dt),
                )
            }),
{
    let n = bodies.len();
    let mut i: usize = 0;
    while i < n
        invariant
            i <= n,
            n == bodies@.len(),
            n == old(bodies)@.len(),
            forall|k: int| i <= k < n ==> #[trigger] bodies@[k] == old(bodies)@[k],
            forall|k: int|
                0 <= k < i ==> ({
                    &&& (#[trigger] bodies@[k]).velocity == old(bodies)@[k].velocity
                    &&& bodies@[k].position == old(bodies)@[k].position.moved_by(
                        travel(old(bodies)@[k].velocity, dt),
                    )
                }),
        decreases n - i,
    {
        let body = bodies[i];
        let way = Wide {
            x: step(body.velocity.0.x, dt),
            y: step(body.velocity.0.y, dt),
        };
        bodies[i].position = body.position.shifted(&way);
        i += 1;
    }
}

/// The way covered along one axis in `dt` seconds at speed `speed`.
fn step(speed: i32, dt: u32) -> (way: i128)
    ensures
        way == scale(speed as int, dt as int),
        -0x8000_0000_0000_0000 <= way <= 0x8000_0000_0000_0000,
{
    proof {
        lemma_product_bound(speed as int, dt as int, 0x8000_0000, 0x1_0000_0000);
        crate::fixed::lemma_div_toward_zero_bounds(speed * dt, UNIT as int);
    }
    quotient((speed as i128) * (dt as i128), UNIT as i128)
}

/// The vector of length `speed` along the axis on which `v` is longer, on the
/// side of `v`.
pub open spec fn along_main_axis(v: Vec2, speed: i32) -> Vec2 {
    if abs(v.x as int) >= abs(v.y as int) {
        Vec2 { x: if v.x >= 0 { speed } else { (-speed) as i32 }, y: 0 }
    } else {
        Vec2 { x: 0, y: if v.y >= 0 { speed } else { (-speed) as i32 } }
    }
}

/// Whether the speed of `v` is within the limits.
pub open spec fn within_limits(v: Vec2, limits: VelocityLimits) -> bool {
    limits.min * limits.min <= v.exact().len2() <= limits.max * limits.max
}

/// `candidate` if its speed is within the limits, else the vector of length
/// `speed` along the main axis of `v`.
pub open spec fn settled(v: Vec2, candidate: Vec2, speed: i32, limits: VelocityLimits) -> Vec2 {
    if within_limits(candidate, limits) {
        candidate
    } else {
        along_main_axis(v, speed)
    }
}

/// `v` with its speed brought within the limits. The zero vector has no
/// direction and stays zero. A vector that is too slow is stretched to the
/// least speed, one that is too fast is shrunk to the greatest; where rounding
/// leaves the result outside the limits, the vector of that speed along the
/// main axis of `v` takes its place.
pub open spec fn clamped(v: Vec2, limits: VelocityLimits) -> Vec2 {
    if v.exact().len2() == 0 {
        v
    } else if v.exact().len2() < limits.min * limits.min {
        settled(
            v,
            Vec2::zero_vector().moved_by(v.exact().stretched_to(limits.min as int)),
            limits.min,
            limits,
        )
    } else if v.exact().len2() > limits.max * limits.max {
        settled(
            v,
            Vec2::zero_vector().moved_by(v.exact().shrunk_to(limits.max as int)),
            limits.max,
            limits,
        )
    } else {
        v
    }
}

/// After clamping, the speed of every vector but the zero vector is within
/// the limits.
pub proof fn lemma_clamped_within_limits(v: Vec2, limits: VelocityLimits)
    requires
        limits.wf(),
        v != Vec2::zero_vector(),
    ensures
        within_limits(clamped(v, limits), limits),
{
    lemma_len2_zero(v.exact());
    lemma_square_monotone(limits.min as int, limits.max as int);
    lemma_axis_length(v, limits.min);
    lemma_axis_length(v, limits.max);
}

/// Clamping leaves the zero vector, and every vector whose speed is within
/// the limits, as it is.
pub proof fn lemma_clamped_keeps(v: Vec2, limits: VelocityLimits)
    requires
        v == Vec2::zero_vector() || within_limits(v, limits),
    ensures
        clamped(v, limits) == v,
{
}

/// The vector along the main axis has exactly the length asked for.
proof fn lemma_axis_length(v: Vec2, speed: i32)
    requires
        speed >= 0,
    ensures
        along_main_axis(v, speed).exact().len2() == speed * speed,
{
    assert((-speed) * (-speed) == speed * speed) by (nonlinear_arith);
    assert(0 * 0 == 0);
}

/// An agent whose speed has limits.
#[derive(Clone, Copy, Debug)]
pub struct Mover {
    pub velocity: Velocity,
    pub limits: VelocityLimits,
}

/// Brings the speed of `v` within the limits.
pub fn clamp_length(v: Vec2, limits: &VelocityLimits) -> (r: Vec2)
    requires
        limits.wf(),
    ensures
        r == clamped(v, *limits),
{
    let n = v.length_squared();
    if n == 0 {
        return v;
    }
    proof {
        lemma_product_bound(limits.min as int, limits.min as int, 0x8000_0000, 0x8000_0000);
        lemma_product_bound(limits.max as int, limits.max as int, 0x8000_0000, 0x8000_0000);
    }
    let min_2 = (limits.min as i128) * (limits.min as i128);
    let max_2 = (limits.max as i128) * (limits.max as i128);
    if n < min_2 {
        let wide = v.widen().stretched_to(limits.min as i128);
        settle(v, Vec2::zero().shifted(&wide), limits.min, limits)
    } else if n > max_2 {
        let wide = v.widen().shrunk_to(limits.max as i128);
        settle(v, Vec2::zero().shifted(&wide), limits.max, limits)
    } else {
        v
    }
}

/// Keeps `candidate` if its speed is within the limits, else takes the vector
/// of length `speed` along the main axis of `v`.
fn settle(v: Vec2, candidate: Vec2, speed: i32, limits: &VelocityLimits) -> (r: Vec2)
    requires
        limits.wf(),
        speed >= 0,
    ensures
        r == settled(v, candidate, speed, *limits),
{
    proof {
        lemma_product_bound(limits.min as int, limits.min as int, 0x8000_0000, 0x8000_0000);
        lemma_product_bound(limits.max as int, limits.max as int, 0x8000_0000, 0x8000_0000);
    }
    let min_2 = (limits.min as i128) * (limits.min as i128);
    let max_2 = (limits.max as i128) * (limits.max as i128);
    let n = candidate.length_squared();
    if min_2 <= n && n <= max_2 {
        candidate
    } else {
        let x = v.x as i64;
        let y = v.y as i64;
        let ax = if x >= 0 { x } else { -x };
        let ay = if y >= 0 { y } else { -y };
        if ax >= ay {
            Vec2 { x: if v.x >= 0 { speed } else { -speed }, y: 0 }
        } else {
            Vec2 { x: 0, y: if v.y >= 0 { speed } else { -speed } }
        }
    }
}

/// Brings the speed of every agent within its limits; an agent at rest stays
/// at rest.
pub fn system_clamp_velocity(movers: &mut Vec<Mover>)
    requires
        forall|i: int| 0 <= i < old(movers)@.len() ==> (#[trigger] old(movers)@[i]).limits.wf(),
    ensures
        final(movers)@.len() == old(movers)@.len(),
        forall|i: int|
            0 <= i < old(movers)@.len() ==> ({
                &&& (#[trigger] final(movers)@[i]).limits == old(movers)@[i].limits
                &&& final(movers)@[i].velocity.0 == clamped(
                    old(movers)@[i].velocity.0,
                    old(movers)@[i].limits,
                )
            }),
{
    let n = movers.len();
    let mut i: usize = 0;
    while i < n
        invariant
            i <= n,
            n == movers@.len(),
            n == old(movers)@.len(),
            forall|k: int| 0 <= k < n ==> (#[trigger] old(movers)@[k]).limits.wf(),
            forall|k: int| i <= k < n ==> #[trigger] movers@[k] == old(movers)@[k],
            forall|k: int|
                0 <= k < i ==> ({
                    &&& (#[trigger] movers@[k]).limits == old(movers)@[k].limits
                    &&& movers@[k].velocity.0 == clamped(
                        old(movers)@[k].velocity.0,
                        old(movers)@[k].limits,
                    )
                }),
        decreases n - i,
    {
        let mover = movers[i];
        assert(old(movers)@[i as int].limits.wf());
        movers[i].velocity = Velocity(clamp_length(mover.velocity.0, &mover.limits));
        i += 1;
    }
}

/// The arena: the size of the window, centred on the origin.
#[derive(Clone, Copy, Debug)]
pub struct Window {
    pub width: i32,
    pub height: i32,
}

/// Whether a coordinate is closer than `margin` to the lower end of an extent
/// centred on zero, or beyond it.
pub open spec fn near_lower_edge(coordinate: i32, extent: i32, margin: i32) -> bool {
    coordinate < -div_toward_zero(extent as int, 2) + margin
}

/// Whether a coordinate is closer than `margin` to the upper end of an extent
/// centred on zero, or beyond it.
pub open spec fn near_upper_edge(coordinate: i32, extent: i32, margin: i32) -> bool {
    coordinate > div_toward_zero(extent as int, 2) - margin
}

/// Whether an agent at `position` is within the margin of a border of the
/// arena, and so is turning back.
pub open spec fn avoiding_edge(position: Vec2, window: Window, margin: i32) -> bool {
    ||| near_lower_edge(position.x, window.width, margin)
    ||| near_upper_edge(position.x, window.width, margin)
    ||| near_lower_edge(position.y, window.height, margin)
    ||| near_upper_edge(position.y, window.height, margin)
}

/// The speed change along one axis that keeps an agent off the ends of an
/// extent: inward near either end, and the lower end first.
pub open spec fn edge_push_along(coordinate: i32, extent: i32, margin: i32, speed: int) -> int {
    if near_lower_edge(coordinate, extent, margin) {
        speed
    } else if near_upper_edge(coordinate, extent, margin) {
        -speed
    } else {
        0
    }
}

/// The velocity change that keeps an agent at `position` off the borders.
pub open spec fn edge_push(position: Vec2, window: Window, dt: u32, config: EdgeConfig) -> Offset {
    Offset {
        x: edge_push_along(
            position.x,
            window.width,
            config.edge_margin,
            speed_change(config.turn_factor, dt),
        ),
        y: edge_push_along(
            position.y,
            window.height,
            config.edge_margin,
            speed_change(config.turn_factor, dt),
        ),
    }
}

/// The tunables of edge avoidance.
#[derive(Clone, Copy, Debug)]
pub struct EdgeConfig {
    pub edge_margin: i32,
    pub turn_factor: u32,
}

impl Default for EdgeConfig {
    fn default() -> (config: EdgeConfig)
        ensures
            config.edge_margin == EDGE_MARGIN,
            config.turn_factor == TURN_FACTOR,
    {
        EdgeConfig { edge_margin: EDGE_MARGIN, turn_factor: TURN_FACTOR }
    }
}

/// The coordinate below which an agent is near the lower end of an extent.
fn lower_bound(extent: i32, margin: i32) -> (b: i64)
    ensures
        b == -div_toward_zero(extent as int, 2) + margin,
{
    -((extent / 2) as i64) + margin as i64
}

/// The coordinate above which an agent is near the upper end of an extent.
fn upper_bound(extent: i32, margin: i32) -> (b: i64)
    ensures
        b == div_toward_zero(extent as int, 2) - margin,
{
    (extent / 2) as i64 - margin as i64
}

/// Whether an agent at `position` is within the margin of a border of the
/// arena.
pub fn is_avoiding_edge(position: Vec2, window: &Window, margin: i32) -> (avoiding: bool)
    ensures
        avoiding == avoiding_edge(position, *window, margin),
{
    (position.x as i64) < lower_bound(window.width, margin) || (position.x as i64) > upper_bound(
        window.width,
        margin,
    ) || (position.y as i64) < lower_bound(window.height, margin) || (position.y as i64)
        > upper_bound(window.height, margin)
}

/// Computes the speed change along one axis that keeps an agent off the ends.
fn compute_edge_push_along(coordinate: i32, extent: i32, margin: i32, speed: i128) -> (push: i128)
    requires
        0 <= speed <= 0x4000_0000_0000_0000,
    ensures
        push == edge_push_along(coordinate, extent, margin, speed as int),
        -0x4000_0000_0000_0000 <= push <= 0x4000_0000_0000_0000,
{
    if (coordinate as i64) < lower_bound(extent, margin) {
        speed
    } else if (coordinate as i64) > upper_bound(extent, margin) {
        -speed
    } else {
        0
    }
}

/// Turns every agent within the margin of a border back toward the arena.
/// Without a window there is no arena, and nothing changes.
pub fn system_avoid_edges(
    dt: u32,
    bodies: &mut Vec<Body>,
    window: Option<Window>,
    config: &EdgeConfig,
)
    ensures
        final(bodies)@.len() == old(bodies)@.len(),
        window is None ==> final(bodies)@ == old(bodies)@,
        window matches Some(w) ==> forall|i: int|
            0 <= i < old(bodies)@.len() ==> ({
                &&& (#[trigger] final(bodies)@[i]).position == old(bodies)@[i].position
                &&& final(bodies)@[i].velocity.0 == old(bodies)@[i].velocity.0.moved_by(
                    edge_push(old(bodies)@[i].position, w, dt, *config),
                )
            }),
{
    let w = match window {
        Some(w) => w,
        None => {
            return ;
        },
    };
    let speed = compute_speed_change(config.turn_factor, dt);
    let n = bodies.len();
    let mut i: usize = 0;
    while i < n
        invariant
            i <= n,
            n == bodies@.len(),
            n == old(bodies)@.len(),
            speed == speed_change(config.turn_factor, dt),
            0 <= speed <= 0x4000_0000_0000_0000,
            forall|k: int| i <= k < n ==> #[trigger] bodies@[k] == old(bodies)@[k],
            forall|k: int|
                0 <= k < i ==> ({
                    &&& (#[trigger] bodies@[k]).position == old(bodies)@[k].position
                    &&& bodies@[k].velocity.0 == old(bodies)@[k].velocity.0.moved_by(
                        edge_push(old(bodies)@[k].position, w, dt, *config),
                    )
                }),
        decreases n - i,
    {
        let body = bodies[i];
        let push = Wide {
            x: compute_edge_push_along(body.position.x, w.width, config.edge_margin, speed),
            y: compute_edge_push_along(body.position.y, w.height, config.edge_margin, speed),
        };
        bodies[i].velocity = Velocity(body.velocity.0.shifted(&push));
        i += 1;
    }
}

/// The side an agent faces.
#[derive(Clone, Copy, PartialEq, Eq, Structural, Debug)]
pub enum Facing {
    Right,
    Left,
}

/// An agent that faces where it goes.
#[derive(Clone, Copy, Debug)]
pub struct Heading {
    pub velocity: Velocity,
    pub facing: Facing,
}

/// The side an agent faces after a look at its velocity: it turns only when
/// its horizontal speed is above the threshold.
pub open spec fn facing_after(heading: Heading, threshold: i32) -> Facing {
    if heading.velocity.0.x > threshold {
        Facing::Right
    } else if heading.velocity.0.x < -threshold {
        Facing::Left
    } else {
        heading.facing
    }
}

/// Turns every agent to face where it goes, once its horizontal speed is
/// above the threshold.
pub fn system_flip_based_on_velocity(headings: &mut Vec<Heading>, threshold: i32)
    ensures
        final(headings)@.len() == old(headings)@.len(),
        forall|i: int|
            0 <= i < old(headings)@.len() ==> ({
                &&& (#[trigger] final(headings)@[i]).velocity == old(headings)@[i].velocity
                &&& final(headings)@[i].facing == facing_after(old(headings)@[i], threshold)
            }),
{
    let n = headings.len();
    let mut i: usize = 0;
    while i < n
        invariant
            i <= n,
            n == headings@.len(),
            n == old(headings)@.len(),
            forall|k: int| i <= k < n ==> #[trigger] headings@[k] == old(headings)@[k],
            forall|k: int|
                0 <= k < i ==> ({
                    &&& (#[trigger] headings@[k]).velocity == old(headings)@[k].velocity
                    &&& headings@[k].facing == facing_after(old(headings)@[k], threshold)
                }),
        decreases n - i,
    {
        let heading = headings[i];
        let x = heading.velocity.0.x as i64;
        if x > threshold as i64 {
            headings[i].facing = Facing::Right;
        } else if x < -(threshold as i64) {
            headings[i].facing = Facing::Left;
        }
        i += 1;
    }
}

} // verus!
