//! A ball on the ground: the first bounces, then rolling with friction.
//! Lengths are in feet, speeds in feet per second or miles per hour.

use vstd::prelude::*;
use crate::constants::{
    GRAVITY, GROUND_BALL_AIR_RESISTANCE, GROUND_BALL_COR_DIRT, GROUND_BALL_COR_GRASS,
    GROUND_BALL_SPIN_EFFECT, METERS_TO_FEET, ROLLING_FRICTION_DIRT, ROLLING_FRICTION_GRASS,
};
use crate::arith::{lemma_div_monotone, lemma_div_unique, lemma_mul_monotone};
use crate::fixed::{
    lemma_over_monotone, lemma_over_not_negative, lemma_times_monotone, lemma_times_not_negative,
    Fixed,
};
use crate::force::{HALF, NEGLIGIBLE};
use crate::vector::Vec2;

verus! {

/// Feet in a mile.
pub const FEET_PER_MILE: i64 = 52_800_000_000_000;

/// Seconds in an hour.
pub const SECONDS_PER_HOUR: i64 = 36_000_000_000_000;

/// The vertical speed, 1 ft/s, at or below which the ball stops bouncing.
pub const BOUNCE_CUTOFF_FPS: i64 = 10_000_000_000;

/// The most bounces that are simulated.
pub const MAX_BOUNCES: u8 = 3;

/// One tenth: the share of the rolling friction that a bounce takes from the
/// horizontal speed, and the weight of the spin in the curve of the path.
pub const TENTH: i64 = 1_000_000_000;

/// What the ball lands on.
#[derive(Clone, Copy, Debug, PartialEq, Eq, Structural)]
pub enum Surface {
    Grass,
    Dirt,
}

impl Surface {
    /// Share of the vertical speed that the ball keeps in a bounce.
    pub open spec fn spec_restitution(self) -> Fixed {
        match self {
            Surface::Grass => Fixed::from_raw(GROUND_BALL_COR_GRASS),
            Surface::Dirt => Fixed::from_raw(GROUND_BALL_COR_DIRT),
        }
    }

    /// Share of the vertical speed that the ball keeps in a bounce.
    #[verifier::when_used_as_spec(spec_restitution)]
    pub fn restitution(self) -> (r: Fixed)
        ensures
            r == self.spec_restitution(),
    {
        match self {
            Surface::Grass => Fixed::from_raw(GROUND_BALL_COR_GRASS),
            Surface::Dirt => Fixed::from_raw(GROUND_BALL_COR_DIRT),
        }
    }

    /// Rolling friction coefficient.
    pub open spec fn spec_rolling_friction(self) -> Fixed {
        match self {
            Surface::Grass => Fixed::from_raw(ROLLING_FRICTION_GRASS),
            Surface::Dirt => Fixed::from_raw(ROLLING_FRICTION_DIRT),
        }
    }

    /// Rolling friction coefficient.
    #[verifier::when_used_as_spec(spec_rolling_friction)]
    pub fn rolling_friction(self) -> (r: Fixed)
        ensures
            r == self.spec_rolling_friction(),
    {
        match self {
            Surface::Grass => Fixed::from_raw(ROLLING_FRICTION_GRASS),
            Surface::Dirt => Fixed::from_raw(ROLLING_FRICTION_DIRT),
        }
    }
}

/// A speed in miles per hour as feet per second.
pub open spec fn spec_mph_to_fps(mph: Fixed) -> Fixed {
    mph.times(Fixed::from_raw(FEET_PER_MILE)).over(Fixed::from_raw(SECONDS_PER_HOUR))
}

/// Converts miles per hour to feet per second.
#[verifier::when_used_as_spec(spec_mph_to_fps)]
pub fn mph_to_fps(mph: Fixed) -> (r: Fixed)
    ensures
        r == spec_mph_to_fps(mph),
{
    mph.times(Fixed::from_raw(FEET_PER_MILE)).over(Fixed::from_raw(SECONDS_PER_HOUR))
}

/// A speed in feet per second as miles per hour.
pub open spec fn spec_fps_to_mph(fps: Fixed) -> Fixed {
    fps.times(Fixed::from_raw(SECONDS_PER_HOUR)).over(Fixed::from_raw(FEET_PER_MILE))
}

/// Converts feet per second to miles per hour.
#[verifier::when_used_as_spec(spec_fps_to_mph)]
pub fn fps_to_mph(fps: Fixed) -> (r: Fixed)
    ensures
        r == spec_fps_to_mph(fps),
{
    fps.times(Fixed::from_raw(SECONDS_PER_HOUR)).over(Fixed::from_raw(FEET_PER_MILE))
}

/// Gravitational acceleration in feet per second squared.
pub open spec fn spec_gravity_fps2() -> Fixed {
    Fixed::from_raw(GRAVITY).times(Fixed::from_raw(METERS_TO_FEET))
}

/// Gravitational acceleration in feet per second squared.
#[verifier::when_used_as_spec(spec_gravity_fps2)]
pub fn gravity_fps2() -> (r: Fixed)
    ensures
        r == spec_gravity_fps2(),
{
    Fixed::from_raw(GRAVITY).times(Fixed::from_raw(METERS_TO_FEET))
}

/// The ball at the moment it starts to roll.
#[derive(Clone, Copy, Debug, PartialEq, Eq, Structural)]
pub struct GroundBallResult {
    /// Where the ball starts to roll, in feet.
    pub landing_position: Vec2,
    /// Speed at that moment, in miles per hour.
    pub landing_velocity_mph: Fixed,
    /// Direction of travel.
    pub direction: Vec2,
    /// Seconds from contact until the ball rolls.
    pub landing_time: Fixed,
    /// Rolling friction coefficient of the surface.
    pub friction: Fixed,
    /// How strongly spin curves the path.
    pub spin_effect: Fixed,
}

impl GroundBallResult {
    /// The ball does not roll backwards and friction does not speed it up.
    pub open spec fn wf(&self) -> bool {
        &&& self.landing_velocity_mph.raw >= 0
        &&& self.friction.raw >= 0
    }
}

/// The ball between two bounces.
#[derive(Clone, Copy, Debug, PartialEq, Eq, Structural)]
pub struct BounceState {
    pub position: Vec2,
    /// Vertical speed in feet per second, upwards.
    pub vz: Fixed,
    /// Horizontal speed in feet per second.
    pub vh: Fixed,
    /// Seconds since contact.
    pub time: Fixed,
}

/// The ball after one bounce. A rising ball flies a hop of `2 vz / g`
/// seconds along `direction`, then keeps the share `cor` of its vertical
/// speed and loses a tenth of the friction coefficient from its horizontal
/// speed. A ball that comes down is reflected with the share `cor` and moves
/// on at once.
pub open spec fn spec_bounce(
    state: BounceState,
    direction: Vec2,
    cor: Fixed,
    friction: Fixed,
) -> BounceState {
    if state.vz.raw > 0 {
        let t_up = state.vz.over(gravity_fps2());
        let t_air = t_up.plus(t_up);
        let distance = state.vh.times(t_air);
        BounceState {
            position: Vec2 {
                x: state.position.x.plus(distance.times(direction.x)),
                y: state.position.y.plus(distance.times(direction.y)),
            },
            vz: state.vz.times(cor),
            vh: state.vh.times(Fixed::from_int(1).minus(friction.times(Fixed::from_raw(TENTH)))),
            time: state.time.plus(t_air),
        }
    } else {
        BounceState {
            position: state.position,
            vz: state.vz.neg().times(cor),
            vh: state.vh,
            time: state.time,
        }
    }
}

/// Simulates one bounce.
#[verifier::when_used_as_spec(spec_bounce)]
pub fn bounce(state: BounceState, direction: Vec2, cor: Fixed, friction: Fixed) -> (r: BounceState)
    ensures
        r == spec_bounce(state, direction, cor, friction),
{
    if state.vz.raw > 0 {
        let t_up = state.vz.over(gravity_fps2());
        let t_air = t_up.plus(t_up);
        let distance = state.vh.times(t_air);
        BounceState {
            position: Vec2 {
                x: state.position.x.plus(distance.times(direction.x)),
                y: state.position.y.plus(distance.times(direction.y)),
            },
            vz: state.vz.times(cor),
            vh: state.vh.times(Fixed::from_int(1).minus(friction.times(Fixed::from_raw(TENTH)))),
            time: state.time.plus(t_air),
        }
    } else {
        BounceState {
            position: state.position,
            vz: state.vz.neg().times(cor),
            vh: state.vh,
            time: state.time,
        }
    }
}

/// The ball after it has bounced until its vertical speed is at most 1 ft/s
/// or `bounces_left` bounces are used up.
pub open spec fn spec_settle(
    state: BounceState,
    direction: Vec2,
    cor: Fixed,
    friction: Fixed,
    bounces_left: nat,
) -> BounceState
    decreases bounces_left,
{
    if bounces_left > 0 && state.vz.abs().raw > BOUNCE_CUTOFF_FPS {
        spec_settle(
            bounce(state, direction, cor, friction),
            direction,
            cor,
            friction,
            (bounces_left - 1) as nat,
        )
    } else {
        state
    }
}

/// A bounce does not turn the ball round: a horizontal speed that is not
/// negative stays so.
pub proof fn lemma_bounce_keeps_heading(
    state: BounceState,
    direction: Vec2,
    cor: Fixed,
    surface: Surface,
)
    requires
        0 <= state.vh.raw,
    ensures
        0 <= spec_bounce(state, direction, cor, surface.rolling_friction()).vh.raw,
{
    let friction = surface.rolling_friction();
    let kept = Fixed::from_int(1).minus(friction.times(Fixed::from_raw(TENTH)));
    assert(kept.raw >= 0) by {
        assert(ROLLING_FRICTION_GRASS * TENTH == 3_000_000_000_000_000_000) by (nonlinear_arith)
            requires
                ROLLING_FRICTION_GRASS == 3_000_000_000,
                TENTH == 1_000_000_000,
        ;
        assert(ROLLING_FRICTION_DIRT * TENTH == 2_500_000_000_000_000_000) by (nonlinear_arith)
            requires
                ROLLING_FRICTION_DIRT == 2_500_000_000,
                TENTH == 1_000_000_000,
        ;
    }
    lemma_times_not_negative(state.vh, kept);
}

/// The direction of a horizontal velocity: the velocity over its length, or
/// the velocity itself where it is shorter than `10^-6` ft/s.
pub open spec fn spec_travel_direction(vx_fps: Fixed, vy_fps: Fixed) -> Vec2 {
    let vh_fps = Vec2::new(vx_fps, vy_fps).norm();
    let dir_mag = if vh_fps.raw > NEGLIGIBLE {
        vh_fps
    } else {
        Fixed::from_int(1)
    };
    Vec2 { x: vx_fps.over(dir_mag), y: vy_fps.over(dir_mag) }
}

/// Computes the direction of travel.
#[verifier::when_used_as_spec(spec_travel_direction)]
pub fn travel_direction(vx_fps: Fixed, vy_fps: Fixed) -> (r: Vec2)
    ensures
        r == spec_travel_direction(vx_fps, vy_fps),
{
    let vh_fps = Vec2::new(vx_fps, vy_fps).norm();
    let dir_mag = if vh_fps.raw > NEGLIGIBLE {
        vh_fps
    } else {
        Fixed::from_int(1)
    };
    Vec2 { x: vx_fps.over(dir_mag), y: vy_fps.over(dir_mag) }
}

/// The curve coefficient of a spin rate: 0.08 per 1000 rpm.
pub open spec fn spec_spin_effect(spin_rpm: Fixed) -> Fixed {
    spin_rpm.over(Fixed::from_int(1000)).times(Fixed::from_raw(GROUND_BALL_SPIN_EFFECT))
}

/// The ball that starts to roll after a contact at `(x0, y0)` with the given
/// velocity in miles per hour.
pub open spec fn spec_simulate_ground_ball_initial(
    x0: Fixed,
    y0: Fixed,
    vx_mph: Fixed,
    vy_mph: Fixed,
    vz_mph: Fixed,
    spin_rpm: Fixed,
    surface: Surface,
) -> GroundBallResult {
    let vx_fps = mph_to_fps(vx_mph);
    let vy_fps = mph_to_fps(vy_mph);
    let direction = travel_direction(vx_fps, vy_fps);
    let settled = spec_settle(
        BounceState {
            position: Vec2 { x: x0, y: y0 },
            vz: mph_to_fps(vz_mph),
            vh: Vec2::new(vx_fps, vy_fps).norm(),
            time: Fixed::zero(),
        },
        direction,
        surface.restitution(),
        surface.rolling_friction(),
        MAX_BOUNCES as nat,
    );
    GroundBallResult {
        landing_position: settled.position,
        landing_velocity_mph: fps_to_mph(settled.vh),
        direction,
        landing_time: settled.time,
        friction: surface.rolling_friction(),
        spin_effect: spec_spin_effect(spin_rpm),
    }
}

/// Simulates the contact of a batted ball with the ground: up to three
/// bounces, ended early once the vertical speed is at most 1 ft/s, and then
/// the state in which the ball starts to roll.
pub fn simulate_ground_ball_initial(
    x0: Fixed,
    y0: Fixed,
    vx_mph: Fixed,
    vy_mph: Fixed,
    vz_mph: Fixed,
    spin_rpm: Fixed,
    surface: Surface,
) -> (r: GroundBallResult)
    ensures
        r == spec_simulate_ground_ball_initial(x0, y0, vx_mph, vy_mph, vz_mph, spin_rpm, surface),
        r.wf(),
        r.friction == surface.rolling_friction(),
        r.direction == travel_direction(mph_to_fps(vx_mph), mph_to_fps(vy_mph)),
        r.spin_effect == spec_spin_effect(spin_rpm),
{
    let cor = surface.restitution();
    let friction = surface.rolling_friction();
    let vx_fps = mph_to_fps(vx_mph);
    let vy_fps = mph_to_fps(vy_mph);
    let spin_effect = spin_rpm.over(Fixed::from_int(1000)).times(
        Fixed::from_raw(GROUND_BALL_SPIN_EFFECT),
    );
    let direction = travel_direction(vx_fps, vy_fps);
    let mut state = BounceState {
        position: Vec2 { x: x0, y: y0 },
        vz: mph_to_fps(vz_mph),
        vh: Vec2::new(vx_fps, vy_fps).norm(),
        time: Fixed::zero(),
    };
    let ghost start = state;
    let mut bounces: u8 = 0;
    while bounces < MAX_BOUNCES && state.vz.abs().raw > BOUNCE_CUTOFF_FPS
        invariant
            bounces <= MAX_BOUNCES,
            friction == surface.rolling_friction(),
            0 <= state.vh.raw,
            spec_settle(start, direction, cor, friction, MAX_BOUNCES as nat) == spec_settle(
                state,
                direction,
                cor,
                friction,
                (MAX_BOUNCES - bounces) as nat,
            ),
        decreases MAX_BOUNCES - bounces,
    {
        proof {
            lemma_bounce_keeps_heading(state, direction, cor, surface);
        }
        state = bounce(state, direction, cor, friction);
        bounces = bounces + 1;
    }
    proof {
        lemma_times_not_negative(state.vh, Fixed::from_raw(SECONDS_PER_HOUR));
        lemma_over_not_negative(
            state.vh.times(Fixed::from_raw(SECONDS_PER_HOUR)),
            Fixed::from_raw(FEET_PER_MILE),
        );
    }
    GroundBallResult {
        landing_position: state.position,
        landing_velocity_mph: fps_to_mph(state.vh),
        direction,
        landing_time: state.time,
        friction,
        spin_effect,
    }
}

/// What slows a rolling ball, in feet per second squared: gravity times the
/// friction coefficient, and air resistance.
pub open spec fn spec_rolling_deceleration(friction: Fixed) -> Fixed {
    gravity_fps2().times(friction).plus(Fixed::from_raw(GROUND_BALL_AIR_RESISTANCE))
}

/// Computes the deceleration of a rolling ball.
#[verifier::when_used_as_spec(spec_rolling_deceleration)]
pub fn rolling_deceleration(friction: Fixed) -> (r: Fixed)
    ensures
        r == spec_rolling_deceleration(friction),
{
    gravity_fps2().times(friction).plus(Fixed::from_raw(GROUND_BALL_AIR_RESISTANCE))
}

/// The time the ball has been slowing down at `time_after_landing`: that
/// time, but no more than the time it takes the ball to stop.
pub open spec fn spec_effective_time(result: GroundBallResult, time_after_landing: Fixed) -> Fixed {
    time_after_landing.min(
        mph_to_fps(result.landing_velocity_mph).over(rolling_deceleration(result.friction)),
    )
}

/// Computes the time that the ball has been slowing down.
#[verifier::when_used_as_spec(spec_effective_time)]
pub fn effective_time(result: GroundBallResult, time_after_landing: Fixed) -> (r: Fixed)
    ensures
        r == spec_effective_time(result, time_after_landing),
{
    time_after_landing.min(
        mph_to_fps(result.landing_velocity_mph).over(rolling_deceleration(result.friction)),
    )
}

/// Speed of the ball in miles per hour at `time_after_landing`:
/// `max(0, v0 - a t)`. Up to the moment of landing it is the landing speed.
pub open spec fn spec_rolling_speed(result: GroundBallResult, time_after_landing: Fixed) -> Fixed {
    if time_after_landing.raw <= 0 {
        result.landing_velocity_mph
    } else {
        fps_to_mph(
            mph_to_fps(result.landing_velocity_mph).minus(
                rolling_deceleration(result.friction).times(time_after_landing),
            ).max(Fixed::zero()),
        )
    }
}

/// Computes the speed of the rolling ball.
#[verifier::when_used_as_spec(spec_rolling_speed)]
pub fn rolling_speed(result: GroundBallResult, time_after_landing: Fixed) -> (r: Fixed)
    ensures
        r == spec_rolling_speed(result, time_after_landing),
{
    if time_after_landing.raw <= 0 {
        result.landing_velocity_mph
    } else {
        fps_to_mph(
            mph_to_fps(result.landing_velocity_mph).minus(
                rolling_deceleration(result.friction).times(time_after_landing),
            ).max(Fixed::zero()),
        )
    }
}

/// The direction of travel after `t` seconds of rolling: the landing
/// direction turned by the spin in proportion to `t`, and brought back to
/// unit length.
pub open spec fn spec_curved_direction(result: GroundBallResult, t: Fixed) -> Vec2 {
    let curve_factor = result.spin_effect.times(t).times(Fixed::from_raw(TENTH));
    let curved = Vec2 {
        x: result.direction.x.minus(curve_factor.times(result.direction.y)),
        y: result.direction.y.plus(curve_factor.times(result.direction.x)),
    };
    let dir_mag = curved.norm();
    if dir_mag.raw > NEGLIGIBLE {
        Vec2 { x: curved.x.over(dir_mag), y: curved.y.over(dir_mag) }
    } else {
        result.direction
    }
}

/// Computes the direction of travel of the rolling ball.
#[verifier::when_used_as_spec(spec_curved_direction)]
pub fn curved_direction(result: GroundBallResult, t: Fixed) -> (r: Vec2)
    ensures
        r == spec_curved_direction(result, t),
{
    let curve_factor = result.spin_effect.times(t).times(Fixed::from_raw(TENTH));
    let curved = Vec2 {
        x: result.direction.x.minus(curve_factor.times(result.direction.y)),
        y: result.direction.y.plus(curve_factor.times(result.direction.x)),
    };
    let dir_mag = curved.norm();
    if dir_mag.raw > NEGLIGIBLE {
        Vec2 { x: curved.x.over(dir_mag), y: curved.y.over(dir_mag) }
    } else {
        result.direction
    }
}

/// Position of the ball in feet at `time_after_landing`: the landing point
/// moved by `v0 t - a t^2 / 2` along the curved direction, where `t` is the
/// time that the ball has been slowing down.
pub open spec fn spec_rolling_position(
    result: GroundBallResult,
    time_after_landing: Fixed,
) -> Vec2 {
    if time_after_landing.raw <= 0 {
        result.landing_position
    } else {
        let t = effective_time(result, time_after_landing);
        let v0_fps = mph_to_fps(result.landing_velocity_mph);
        let decel = rolling_deceleration(result.friction);
        let distance = v0_fps.times(t).minus(Fixed::from_raw(HALF).times(decel).times(t).times(t));
        let direction = curved_direction(result, t);
        Vec2 {
            x: result.landing_position.x.plus(distance.times(direction.x)),
            y: result.landing_position.y.plus(distance.times(direction.y)),
        }
    }
}

/// Computes the position of the rolling ball.
#[verifier::when_used_as_spec(spec_rolling_position)]
pub fn rolling_position(result: GroundBallResult, time_after_landing: Fixed) -> (r: Vec2)
    ensures
        r == spec_rolling_position(result, time_after_landing),
{
    if time_after_landing.raw <= 0 {
        result.landing_position
    } else {
        let t = effective_time(result, time_after_landing);
        let v0_fps = mph_to_fps(result.landing_velocity_mph);
        let decel = rolling_deceleration(result.friction);
        let distance = v0_fps.times(t).minus(Fixed::from_raw(HALF).times(decel).times(t).times(t));
        let direction = curved_direction(result, t);
        Vec2 {
            x: result.landing_position.x.plus(distance.times(direction.x)),
            y: result.landing_position.y.plus(distance.times(direction.y)),
        }
    }
}

/// Position in feet and speed in miles per hour of the rolling ball at
/// `time_after_landing` seconds after it started to roll.
pub fn ball_position_at_time(result: &GroundBallResult, time_after_landing: Fixed) -> (r: (
    Vec2,
    Fixed,
))
    ensures
        r.0 == spec_rolling_position(*result, time_after_landing),
        r.1 == spec_rolling_speed(*result, time_after_landing),
        time_after_landing.raw <= 0 ==> r == (result.landing_position, result.landing_velocity_mph),
{
    (rolling_position(*result, time_after_landing), rolling_speed(*result, time_after_landing))
}

/// The time at which the rolling ball has covered `distance` feet: the
/// smaller root of `v0 t - a t^2 / 2 = distance`, zero for a distance that
/// is not positive, and nothing where the ball stops short of it.
pub open spec fn spec_time_to_distance(result: GroundBallResult, distance: Fixed) -> Option<Fixed> {
    let decel = rolling_deceleration(result.friction);
    let v0_fps = mph_to_fps(result.landing_velocity_mph);
    let max_distance = v0_fps.times(v0_fps).over(Fixed::from_int(2).times(decel));
    let discriminant = v0_fps.times(v0_fps).minus(Fixed::from_int(2).times(decel).times(distance));
    if distance.raw <= 0 {
        Some(Fixed::zero())
    } else if distance.raw > max_distance.raw || discriminant.raw < 0 {
        None
    } else {
        Some(v0_fps.minus(discriminant.sqrt()).over(decel).max(Fixed::zero()))
    }
}

/// Solves for the time at which the rolling ball reaches a distance from
/// its landing point.
pub fn time_to_distance(result: &GroundBallResult, distance: Fixed) -> (r: Option<Fixed>)
    ensures
        r == spec_time_to_distance(*result, distance),
        distance.raw <= 0 ==> r == Some(Fixed::zero()),
{
    if distance.raw <= 0 {
        return Some(Fixed::zero());
    }
    let decel = rolling_deceleration(result.friction);
    let v0_fps = mph_to_fps(result.landing_velocity_mph);
    let max_distance = v0_fps.times(v0_fps).over(Fixed::from_int(2).times(decel));
    if distance.raw > max_distance.raw {
        return None;
    }
    let discriminant = v0_fps.times(v0_fps).minus(Fixed::from_int(2).times(decel).times(distance));
    if discriminant.raw < 0 {
        return None;
    }
    Some(v0_fps.minus(discriminant.sqrt()).over(decel).max(Fixed::zero()))
}

/// The rolling ball has come to rest by `time_after_landing`: the time is at
/// or after the landing speed over the deceleration.
pub open spec fn at_rest_by(result: GroundBallResult, time_after_landing: Fixed) -> bool {
    &&& time_after_landing.raw > 0
    &&& rolling_deceleration(result.friction).raw * time_after_landing.raw >= mph_to_fps(
        result.landing_velocity_mph,
    ).raw * 10_000_000_000
}

/// Friction that is not negative slows the ball by at least the air
/// resistance.
pub proof fn lemma_deceleration_positive(friction: Fixed)
    requires
        0 <= friction.raw,
    ensures
        rolling_deceleration(friction).raw >= GROUND_BALL_AIR_RESISTANCE,
{
    assert(GRAVITY * METERS_TO_FEET == 3_218_504_040_000_000_000_000) by (nonlinear_arith)
        requires
            GRAVITY == 98_100_000_000,
            METERS_TO_FEET == 32_808_400_000,
    ;
    lemma_times_not_negative(gravity_fps2(), friction);
}

/// A speed changed to feet per second and back is not above the speed it
/// started from, and not negative.
pub proof fn lemma_fps_round_trip(mph: Fixed)
    requires
        0 <= mph.raw,
    ensures
        0 <= mph_to_fps(mph).raw,
        0 <= fps_to_mph(mph_to_fps(mph)).raw <= mph.raw,
{
    let mile = Fixed::from_raw(FEET_PER_MILE);
    let hour = Fixed::from_raw(SECONDS_PER_HOUR);
    lemma_times_not_negative(mph, mile);
    lemma_over_not_negative(mph.times(mile), hour);
    let fps = mph_to_fps(mph);
    lemma_times_not_negative(fps, hour);
    lemma_over_not_negative(fps.times(hour), mile);
    // fps <= mph * 5280 / 3600, so fps * 3600 <= mph * 5280
    let a = mph.times(mile).raw as int;
    assert(a <= mph.raw * 5280) by {
        lemma_div_unique(mph.raw * 5280 * 10_000_000_000, 10_000_000_000, mph.raw * 5280);
        assert(mph.raw * FEET_PER_MILE == mph.raw * 5280 * 10_000_000_000) by (nonlinear_arith)
            requires
                FEET_PER_MILE == 5280 * 10_000_000_000,
        ;
    }
    assert(fps.raw * 3600 <= a) by {
        crate::arith::lemma_div_bounds(a * 10_000_000_000, SECONDS_PER_HOUR as int);
        let q = (a * 10_000_000_000) / (SECONDS_PER_HOUR as int);
        assert(SECONDS_PER_HOUR * q == q * 3600 * 10_000_000_000) by (nonlinear_arith)
            requires
                SECONDS_PER_HOUR == 3600 * 10_000_000_000,
        ;
    }
    let b = fps.times(hour).raw as int;
    assert(b <= fps.raw * 3600) by {
        lemma_div_unique(fps.raw * 3600 * 10_000_000_000, 10_000_000_000, fps.raw * 3600);
        assert(fps.raw * SECONDS_PER_HOUR == fps.raw * 3600 * 10_000_000_000) by (nonlinear_arith)
            requires
                SECONDS_PER_HOUR == 3600 * 10_000_000_000,
        ;
    }
    assert(fps_to_mph(fps).raw <= mph.raw) by {
        // b <= mph * 5280, so b / 5280 <= mph
        lemma_div_monotone(
            b * 10_000_000_000,
            mph.raw * FEET_PER_MILE,
            FEET_PER_MILE as int,
        );
        lemma_div_unique(mph.raw * FEET_PER_MILE, FEET_PER_MILE as int, mph.raw as int);
        assert(FEET_PER_MILE * mph.raw == mph.raw * FEET_PER_MILE) by (nonlinear_arith);
        assert(b * 10_000_000_000 <= mph.raw * FEET_PER_MILE) by (nonlinear_arith)
            requires
                b <= mph.raw * 5280,
                FEET_PER_MILE == 5280 * 10_000_000_000,
        ;
    }
}

/// The speed in feet per second from which the reported speed is taken is
/// monotone in the reported speed.
proof fn lemma_fps_to_mph_monotone(a: Fixed, b: Fixed)
    requires
        a.raw <= b.raw,
    ensures
        fps_to_mph(a).raw <= fps_to_mph(b).raw,
{
    lemma_times_monotone(a, b, Fixed::from_raw(SECONDS_PER_HOUR));
    lemma_over_monotone(
        a.times(Fixed::from_raw(SECONDS_PER_HOUR)),
        b.times(Fixed::from_raw(SECONDS_PER_HOUR)),
        Fixed::from_raw(FEET_PER_MILE),
    );
}

/// A rolling ball never gains speed: of two times, the later one has the
/// speed that is not larger. The speed is never negative, and it is exactly
/// zero from the moment on at which the ball has come to rest.
pub proof fn lemma_rolling_speed_never_rises(result: GroundBallResult, earlier: Fixed, later: Fixed)
    requires
        result.wf(),
        earlier.raw <= later.raw,
    ensures
        0 <= spec_rolling_speed(result, later).raw <= spec_rolling_speed(result, earlier).raw,
        at_rest_by(result, later) ==> spec_rolling_speed(result, later) == Fixed::zero(),
{
    let v0 = mph_to_fps(result.landing_velocity_mph);
    let decel = rolling_deceleration(result.friction);
    lemma_deceleration_positive(result.friction);
    lemma_fps_round_trip(result.landing_velocity_mph);
    if later.raw > 0 {
        let lost_later = decel.times(later);
        let left_later = v0.minus(lost_later).max(Fixed::zero());
        lemma_times_not_negative(decel, later);
        lemma_fps_to_mph_monotone(Fixed::zero(), left_later);
        assert(fps_to_mph(Fixed::zero()).raw == 0) by {
            assert(0 * SECONDS_PER_HOUR == 0);
            lemma_div_unique(0, 10_000_000_000, 0);
            lemma_div_unique(0, FEET_PER_MILE as int, 0);
        }
        if earlier.raw > 0 {
            let lost_earlier = decel.times(earlier);
            let left_earlier = v0.minus(lost_earlier).max(Fixed::zero());
            lemma_times_monotone(earlier, later, decel);
            lemma_fps_to_mph_monotone(left_later, left_earlier);
        } else {
            lemma_fps_to_mph_monotone(left_later, v0);
        }
        if at_rest_by(result, later) {
            lemma_div_monotone(
                v0.raw * 10_000_000_000,
                decel.raw * later.raw,
                10_000_000_000,
            );
            lemma_div_unique(v0.raw * 10_000_000_000, 10_000_000_000, v0.raw as int);
            assert(left_later == Fixed::zero());
        }
    }
}

} // verus!
