//! Fielders and the search for the point at which one of them can take a
//! rolling ball. Lengths are in feet, speeds in feet per second.

use vstd::prelude::*;
use crate::constants::{CHARGE_BONUS_MAX, FIELDER_ACCELERATION, FIELDER_MAX_SPEED};
use crate::arith::{lemma_div_bounds, lemma_div_monotone, lemma_div_unique, lemma_mul_monotone};
use crate::fixed::{
    lemma_over_monotone, lemma_over_not_negative, lemma_sqrt_monotone, lemma_times_monotone,
    lemma_times_not_negative, Fixed,
};
use crate::ground::{
    rolling_position, rolling_speed, spec_rolling_position, spec_rolling_speed, GroundBallResult,
};
use crate::vector::Vec2;

verus! {

/// Seconds between two points of the ball's path that the search examines.
pub const SEARCH_STEP: i64 = 500_000_000;

/// The last point examined lies `SEARCH_LAST * SEARCH_STEP`, six seconds,
/// after the landing.
pub const SEARCH_LAST: u32 = 120;

/// A ball slower than this, 0.1 mph, has stopped.
pub const STOPPED_MPH: i64 = 1_000_000_000;

/// The time of arrival of a fielder who never arrives: the largest value.
pub const NEVER: i64 = 9_223_372_036_854_775_807;

/// A fielder.
#[derive(Clone, Copy, Debug, PartialEq, Eq, Structural)]
pub struct FielderProfile {
    /// Where the fielder stands, in feet.
    pub position: Vec2,
    /// Top speed in feet per second.
    pub sprint_speed_fps: Fixed,
    /// Seconds before the fielder starts to move.
    pub reaction_time: Fixed,
    /// Acceleration in feet per second squared.
    pub acceleration: Fixed,
}

impl FielderProfile {
    pub open spec fn spec_new(
        position: Vec2,
        sprint_speed_fps: Fixed,
        reaction_time: Fixed,
    ) -> FielderProfile {
        FielderProfile {
            position,
            sprint_speed_fps,
            reaction_time,
            acceleration: Fixed::from_raw(FIELDER_ACCELERATION),
        }
    }

    /// A fielder with the usual acceleration of 28 ft/s^2.
    #[verifier::when_used_as_spec(spec_new)]
    pub fn new(position: Vec2, sprint_speed_fps: Fixed, reaction_time: Fixed) -> (r: FielderProfile)
        ensures
            r == FielderProfile::spec_new(position, sprint_speed_fps, reaction_time),
    {
        FielderProfile {
            position,
            sprint_speed_fps,
            reaction_time,
            acceleration: Fixed::from_raw(FIELDER_ACCELERATION),
        }
    }
}

/// Why a list of fielders was refused.
#[derive(Clone, Copy, Debug, PartialEq, Eq, Structural)]
pub enum FielderError {
    /// There are not as many speeds, or reaction times, as positions.
    LengthMismatch,
}

/// Builds the fielders whose positions, sprint speeds and reaction times
/// come as three lists, each with the usual acceleration, and refuses lists
/// of unequal length.
pub fn fielders_from_columns(
    positions: &Vec<Vec2>,
    sprint_speeds_fps: &Vec<Fixed>,
    reaction_times: &Vec<Fixed>,
) -> (r: Result<Vec<FielderProfile>, FielderError>)
    ensures
        positions@.len() != sprint_speeds_fps@.len() || positions@.len() != reaction_times@.len()
            <==> r == Err::<Vec<FielderProfile>, FielderError>(FielderError::LengthMismatch),
        positions@.len() == sprint_speeds_fps@.len() && positions@.len() == reaction_times@.len()
            <==> r is Ok,
        r matches Ok(fielders) ==> {
            &&& fielders@.len() == positions@.len()
            &&& forall|i: int|
                0 <= i < fielders@.len() ==> #[trigger] fielders@[i] == FielderProfile::new(
                    positions@[i],
                    sprint_speeds_fps@[i],
                    reaction_times@[i],
                )
        },
{
    if positions.len() != sprint_speeds_fps.len() || positions.len() != reaction_times.len() {
        return Err(FielderError::LengthMismatch);
    }
    let mut fielders: Vec<FielderProfile> = Vec::new();
    let mut i: usize = 0;
    while i < positions.len()
        invariant
            positions@.len() == sprint_speeds_fps@.len(),
            positions@.len() == reaction_times@.len(),
            i <= positions@.len(),
            fielders@.len() == i,
            forall|j: int|
                0 <= j < i ==> #[trigger] fielders@[j] == FielderProfile::new(
                    positions@[j],
                    sprint_speeds_fps@[j],
                    reaction_times@[j],
                ),
        decreases positions@.len() - i,
    {
        fielders.push(FielderProfile::new(positions[i], sprint_speeds_fps[i], reaction_times[i]));
        i = i + 1;
    }
    Ok(fielders)
}

/// Seconds a fielder needs for `distance_ft`: the reaction time, then
/// constant acceleration up to the smaller of the sprint speed and 30 ft/s,
/// then that speed. A distance that is not positive takes the reaction time
/// alone.
pub open spec fn spec_fielder_travel_time(
    distance_ft: Fixed,
    sprint_speed_fps: Fixed,
    reaction_time: Fixed,
    acceleration: Fixed,
) -> Fixed {
    let max_speed = sprint_speed_fps.min(Fixed::from_raw(FIELDER_MAX_SPEED));
    let accel_distance = max_speed.times(max_speed).over(Fixed::from_int(2).times(acceleration));
    if distance_ft.raw <= 0 {
        reaction_time
    } else if distance_ft.raw <= accel_distance.raw {
        reaction_time.plus(Fixed::from_int(2).times(distance_ft).over(acceleration).sqrt())
    } else {
        reaction_time.plus(
            max_speed.over(acceleration).plus(distance_ft.minus(accel_distance).over(max_speed)),
        )
    }
}

/// Computes the time a fielder needs to cover a distance.
#[verifier::when_used_as_spec(spec_fielder_travel_time)]
pub fn fielder_travel_time(
    distance_ft: Fixed,
    sprint_speed_fps: Fixed,
    reaction_time: Fixed,
    acceleration: Fixed,
) -> (r: Fixed)
    ensures
        r == spec_fielder_travel_time(distance_ft, sprint_speed_fps, reaction_time, acceleration),
        distance_ft.raw <= 0 ==> r == reaction_time,
        sprint_speed_fps.raw > 0 && acceleration.raw > 0 ==> r.raw >= reaction_time.raw,
{
    proof {
        if sprint_speed_fps.raw > 0 && acceleration.raw > 0 && distance_ft.raw > 0 {
            let max_speed = sprint_speed_fps.min(Fixed::from_raw(FIELDER_MAX_SPEED));
            let accel_distance = max_speed.times(max_speed).over(
                Fixed::from_int(2).times(acceleration),
            );
            lemma_over_not_negative(max_speed, acceleration);
            if distance_ft.raw > accel_distance.raw {
                lemma_over_not_negative(distance_ft.minus(accel_distance), max_speed);
            }
        }
    }
    if distance_ft.raw <= 0 {
        return reaction_time;
    }
    let max_speed = sprint_speed_fps.min(Fixed::from_raw(FIELDER_MAX_SPEED));
    let accel_distance = max_speed.times(max_speed).over(Fixed::from_int(2).times(acceleration));
    let travel_time = if distance_ft.raw <= accel_distance.raw {
        Fixed::from_int(2).times(distance_ft).over(acceleration).sqrt()
    } else {
        max_speed.over(acceleration).plus(distance_ft.minus(accel_distance).over(max_speed))
    };
    reaction_time.plus(travel_time)
}

/// The distance in feet that a fielder is credited with for moving in while
/// the ball is in the air: at most 20 ft, less for a harder hit ball, for a
/// landing close by and for a slower fielder.
pub open spec fn spec_calculate_charge_bonus(
    exit_velocity_mph: Fixed,
    distance_to_landing: Fixed,
    sprint_speed_fps: Fixed,
) -> Fixed {
    let velocity_factor = Fixed::from_int(1).minus(
        exit_velocity_mph.minus(Fixed::from_int(60)).over(Fixed::from_int(60)),
    ).clamp(Fixed::from_raw(2_000_000_000), Fixed::from_int(1));
    let distance_factor = distance_to_landing.over(Fixed::from_int(150)).clamp(
        Fixed::from_raw(3_000_000_000),
        Fixed::from_int(1),
    );
    let speed_factor = sprint_speed_fps.over(Fixed::from_int(27));
    Fixed::from_raw(CHARGE_BONUS_MAX).times(velocity_factor).times(distance_factor).times(
        speed_factor,
    ).min(Fixed::from_raw(CHARGE_BONUS_MAX))
}

/// Computes the charge bonus.
#[verifier::when_used_as_spec(spec_calculate_charge_bonus)]
pub fn calculate_charge_bonus(
    exit_velocity_mph: Fixed,
    distance_to_landing: Fixed,
    sprint_speed_fps: Fixed,
) -> (r: Fixed)
    ensures
        r == spec_calculate_charge_bonus(exit_velocity_mph, distance_to_landing, sprint_speed_fps),
        r.raw <= CHARGE_BONUS_MAX,
        sprint_speed_fps.raw >= 0 ==> r.raw >= 0,
{
    proof {
        if sprint_speed_fps.raw >= 0 {
            let velocity_factor = Fixed::from_int(1).minus(
                exit_velocity_mph.minus(Fixed::from_int(60)).over(Fixed::from_int(60)),
            ).clamp(Fixed::from_raw(2_000_000_000), Fixed::from_int(1));
            let distance_factor = distance_to_landing.over(Fixed::from_int(150)).clamp(
                Fixed::from_raw(3_000_000_000),
                Fixed::from_int(1),
            );
            let speed_factor = sprint_speed_fps.over(Fixed::from_int(27));
            let top = Fixed::from_raw(CHARGE_BONUS_MAX);
            lemma_over_not_negative(sprint_speed_fps, Fixed::from_int(27));
            lemma_times_not_negative(top, velocity_factor);
            lemma_times_not_negative(top.times(velocity_factor), distance_factor);
            lemma_times_not_negative(
                top.times(velocity_factor).times(distance_factor),
                speed_factor,
            );
        }
    }
    let velocity_factor = Fixed::from_int(1).minus(
        exit_velocity_mph.minus(Fixed::from_int(60)).over(Fixed::from_int(60)),
    ).clamp(Fixed::from_raw(2_000_000_000), Fixed::from_int(1));
    let distance_factor = distance_to_landing.over(Fixed::from_int(150)).clamp(
        Fixed::from_raw(3_000_000_000),
        Fixed::from_int(1),
    );
    let speed_factor = sprint_speed_fps.over(Fixed::from_int(27));
    Fixed::from_raw(CHARGE_BONUS_MAX).times(velocity_factor).times(distance_factor).times(
        speed_factor,
    ).min(Fixed::from_raw(CHARGE_BONUS_MAX))
}

/// Where and when a fielder can take the ball.
#[derive(Clone, Copy, Debug, PartialEq, Eq, Structural)]
pub struct InterceptionResult {
    /// The fielder is at the point no later than the ball.
    pub can_intercept: bool,
    /// The point, in feet.
    pub interception_point: Vec2,
    /// Seconds until the fielder is there.
    pub fielder_time: Fixed,
    /// Seconds until the ball is there.
    pub ball_time: Fixed,
    /// `ball_time - fielder_time`: not negative where the fielder is first.
    pub margin: Fixed,
    /// Speed of the ball at the point, in miles per hour.
    pub ball_velocity_mph: Fixed,
}

impl InterceptionResult {
    /// The margin is the ball's time less the fielder's, and the fielder can
    /// take the ball where it is not negative.
    pub open spec fn wf(&self) -> bool {
        &&& self.margin == self.ball_time.minus(self.fielder_time)
        &&& self.can_intercept == (self.margin.raw >= 0)
    }

    /// The outcome for a ball that lands at `landing_time` where no point of
    /// its path gives the fielder a chance: the ball is there when it lands,
    /// the fielder never, and the margin is the difference of the two.
    pub open spec fn spec_unreachable(landing_time: Fixed) -> InterceptionResult {
        InterceptionResult {
            can_intercept: landing_time.minus(Fixed::from_raw(NEVER)).raw >= 0,
            interception_point: Vec2 { x: Fixed::zero(), y: Fixed::zero() },
            fielder_time: Fixed::from_raw(NEVER),
            ball_time: landing_time,
            margin: landing_time.minus(Fixed::from_raw(NEVER)),
            ball_velocity_mph: Fixed::zero(),
        }
    }

    /// The outcome of a fielder who never arrives at a ball that lands at
    /// `landing_time`.
    #[verifier::when_used_as_spec(spec_unreachable)]
    pub fn unreachable(landing_time: Fixed) -> (r: InterceptionResult)
        ensures
            r == InterceptionResult::spec_unreachable(landing_time),
            r.wf(),
            r.ball_time == landing_time,
    {
        let margin = landing_time.minus(Fixed::from_raw(NEVER));
        InterceptionResult {
            can_intercept: margin.raw >= 0,
            interception_point: Vec2 { x: Fixed::zero(), y: Fixed::zero() },
            fielder_time: Fixed::from_raw(NEVER),
            ball_time: landing_time,
            margin,
            ball_velocity_mph: Fixed::zero(),
        }
    }
}

/// The time after landing of point `k` of the search.
pub open spec fn spec_sample_time(k: int) -> Fixed {
    Fixed::from_raw((k * SEARCH_STEP) as i64)
}

/// The ball still rolls at point `k`.
pub open spec fn rolls_at(ground_ball: GroundBallResult, k: int) -> bool {
    rolling_speed(ground_ball, spec_sample_time(k)).raw >= STOPPED_MPH
}

/// The ball still rolls at every point up to and including `k`.
pub open spec fn rolls_through(ground_ball: GroundBallResult, k: int) -> bool
    decreases k + 1,
{
    if k < 0 {
        true
    } else {
        rolls_at(ground_ball, k) && rolls_through(ground_ball, k - 1)
    }
}

/// The outcome if the fielder goes for point `k` of the ball's path. The
/// fielder runs the straight distance to it less the charge bonus.
pub open spec fn spec_candidate(
    ground_ball: GroundBallResult,
    fielder: FielderProfile,
    charge_bonus: Fixed,
    k: int,
) -> InterceptionResult {
    let t = spec_sample_time(k);
    let ball_pos = rolling_position(ground_ball, t);
    let distance = Vec2 {
        x: ball_pos.x.minus(fielder.position.x),
        y: ball_pos.y.minus(fielder.position.y),
    }.norm();
    let fielder_time = fielder_travel_time(
        distance.minus(charge_bonus).max(Fixed::zero()),
        fielder.sprint_speed_fps,
        fielder.reaction_time,
        fielder.acceleration,
    );
    let ball_time = ground_ball.landing_time.plus(t);
    let margin = ball_time.minus(fielder_time);
    InterceptionResult {
        can_intercept: margin.raw >= 0,
        interception_point: ball_pos,
        fielder_time,
        ball_time,
        margin,
        ball_velocity_mph: rolling_speed(ground_ball, t),
    }
}

/// Computes the outcome for one point of the path.
fn candidate(
    ground_ball: &GroundBallResult,
    fielder: &FielderProfile,
    charge_bonus: Fixed,
    k: u32,
) -> (r: InterceptionResult)
    requires
        k <= SEARCH_LAST,
    ensures
        r == spec_candidate(*ground_ball, *fielder, charge_bonus, k as int),
        r.wf(),
        r.ball_time.raw >= ground_ball.landing_time.raw,
{
    let t = Fixed::from_raw((k as i64) * SEARCH_STEP);
    let ball_pos = rolling_position(*ground_ball, t);
    let distance = Vec2 {
        x: ball_pos.x.minus(fielder.position.x),
        y: ball_pos.y.minus(fielder.position.y),
    }.norm();
    let fielder_time = fielder_travel_time(
        distance.minus(charge_bonus).max(Fixed::zero()),
        fielder.sprint_speed_fps,
        fielder.reaction_time,
        fielder.acceleration,
    );
    let ball_time = ground_ball.landing_time.plus(t);
    let margin = ball_time.minus(fielder_time);
    InterceptionResult {
        can_intercept: margin.raw >= 0,
        interception_point: ball_pos,
        fielder_time,
        ball_time,
        margin,
        ball_velocity_mph: rolling_speed(*ground_ball, t),
    }
}

/// The best outcome among `best` and the points from `k` on: points are
/// examined in order until the ball has stopped or six seconds are over, and
/// a point replaces the best one so far where its margin is larger.
pub open spec fn spec_search_from(
    ground_ball: GroundBallResult,
    fielder: FielderProfile,
    charge_bonus: Fixed,
    best: InterceptionResult,
    k: int,
) -> InterceptionResult
    decreases SEARCH_LAST + 1 - k,
{
    if 0 <= k <= SEARCH_LAST && rolls_at(ground_ball, k) {
        let next = spec_candidate(ground_ball, fielder, charge_bonus, k);
        spec_search_from(
            ground_ball,
            fielder,
            charge_bonus,
            if next.margin.raw > best.margin.raw {
                next
            } else {
                best
            },
            k + 1,
        )
    } else {
        best
    }
}

/// The outcome of the search for one fielder.
pub open spec fn spec_find_fielder_interception(
    ground_ball: GroundBallResult,
    fielder: FielderProfile,
    charge_bonus: Fixed,
) -> InterceptionResult {
    spec_search_from(
        ground_ball,
        fielder,
        charge_bonus,
        InterceptionResult::unreachable(ground_ball.landing_time),
        0,
    )
}

/// `r` is the outcome of the earliest point with the largest margin among
/// the points at which the ball still rolls, or the unreachable outcome
/// where no point has a margin above that of a fielder who never arrives.
pub open spec fn is_best_point(
    ground_ball: GroundBallResult,
    fielder: FielderProfile,
    charge_bonus: Fixed,
    r: InterceptionResult,
) -> bool {
    &&& forall|j: int|
        0 <= j <= SEARCH_LAST && rolls_through(ground_ball, j) ==> (#[trigger] spec_candidate(
            ground_ball,
            fielder,
            charge_bonus,
            j,
        )).margin.raw <= r.margin.raw
    &&& r.margin.raw >= InterceptionResult::unreachable(ground_ball.landing_time).margin.raw
    &&& r == InterceptionResult::unreachable(ground_ball.landing_time) || exists|k: int|
        {
            &&& 0 <= k <= SEARCH_LAST
            &&& rolls_through(ground_ball, k)
            &&& r == #[trigger] spec_candidate(ground_ball, fielder, charge_bonus, k)
            &&& forall|j: int|
                0 <= j < k ==> (#[trigger] spec_candidate(
                    ground_ball,
                    fielder,
                    charge_bonus,
                    j,
                )).margin.raw < r.margin.raw
        }
}

/// Searches the ball's path for the point that leaves the fielder the most
/// time. The path is examined every 50 ms from the landing for six seconds,
/// or until the ball is slower than 0.1 mph.
pub fn find_fielder_interception(
    ground_ball: &GroundBallResult,
    fielder: &FielderProfile,
    charge_bonus: Fixed,
) -> (r: InterceptionResult)
    ensures
        r == spec_find_fielder_interception(*ground_ball, *fielder, charge_bonus),
        r.wf(),
        is_best_point(*ground_ball, *fielder, charge_bonus, r),
        r.ball_time.raw >= ground_ball.landing_time.raw,
{
    let ghost start = InterceptionResult::unreachable(ground_ball.landing_time);
    let mut best = InterceptionResult::unreachable(ground_ball.landing_time);
    let mut k: u32 = 0;
    let mut rolling = true;
    let ghost mut witness: int = -1;
    while rolling && k <= SEARCH_LAST
        invariant
            k <= SEARCH_LAST + 1,
            best.wf(),
            rolling ==> rolls_through(*ground_ball, k - 1),
            rolling ==> spec_find_fielder_interception(*ground_ball, *fielder, charge_bonus)
                == spec_search_from(*ground_ball, *fielder, charge_bonus, best, k as int),
            !rolling ==> spec_find_fielder_interception(*ground_ball, *fielder, charge_bonus)
                == best,
            !rolling ==> k <= SEARCH_LAST && !rolls_at(*ground_ball, k as int) && rolls_through(
                *ground_ball,
                k - 1,
            ),
            forall|j: int|
                0 <= j < k ==> (#[trigger] spec_candidate(
                    *ground_ball,
                    *fielder,
                    charge_bonus,
                    j,
                )).margin.raw <= best.margin.raw,
            best.margin.raw >= start.margin.raw,
            witness == -1 ==> best == start,
            witness != -1 ==> {
                &&& 0 <= witness < k
                &&& best == spec_candidate(*ground_ball, *fielder, charge_bonus, witness)
                &&& forall|j: int|
                    0 <= j < witness ==> (#[trigger] spec_candidate(
                        *ground_ball,
                        *fielder,
                        charge_bonus,
                        j,
                    )).margin.raw < best.margin.raw
            },
            best.ball_time.raw >= ground_ball.landing_time.raw,
        decreases
            if rolling {
                SEARCH_LAST + 2 - k
            } else {
                0
            },
    {
        let t = Fixed::from_raw((k as i64) * SEARCH_STEP);
        if rolling_speed(*ground_ball, t).raw < STOPPED_MPH {
            rolling = false;
        } else {
            let next = candidate(ground_ball, fielder, charge_bonus, k);
            if next.margin.raw > best.margin.raw {
                best = next;
                proof {
                    witness = k as int;
                }
            }
            k = k + 1;
        }
    }
    proof {
        assert forall|j: int|
            0 <= j <= SEARCH_LAST && rolls_through(*ground_ball, j) implies (
        #[trigger] spec_candidate(*ground_ball, *fielder, charge_bonus, j)).margin.raw
            <= best.margin.raw by {
            if j >= k {
                lemma_rolls_through_earlier(*ground_ball, j, k as int);
            }
        }
        if witness != -1 {
            lemma_rolls_through_earlier(*ground_ball, k - 1, witness);
        }
    }
    best
}

/// A ball that rolls at every point up to `k` rolls at every point up to an
/// earlier one, and at that one.
pub proof fn lemma_rolls_through_earlier(ground_ball: GroundBallResult, k: int, j: int)
    requires
        rolls_through(ground_ball, k),
        0 <= j <= k,
    ensures
        rolls_through(ground_ball, j),
        rolls_at(ground_ball, j),
    decreases k - j,
{
    if j < k {
        lemma_rolls_through_earlier(ground_ball, k - 1, j);
    }
}

/// The outcome for a fielder who is credited with the charge bonus that the
/// exit velocity, the distance to the landing point and the sprint speed
/// give.
pub open spec fn spec_find_interception_point(
    ground_ball: GroundBallResult,
    fielder: FielderProfile,
    exit_velocity_mph: Fixed,
) -> InterceptionResult {
    let distance_to_landing = Vec2 {
        x: ground_ball.landing_position.x.minus(fielder.position.x),
        y: ground_ball.landing_position.y.minus(fielder.position.y),
    }.norm();
    spec_find_fielder_interception(
        ground_ball,
        fielder,
        calculate_charge_bonus(exit_velocity_mph, distance_to_landing, fielder.sprint_speed_fps),
    )
}

/// Finds the point at which one fielder can best take the ball.
pub fn find_interception_point(
    ground_ball: &GroundBallResult,
    fielder: &FielderProfile,
    exit_velocity_mph: Fixed,
) -> (r: InterceptionResult)
    ensures
        r == spec_find_interception_point(*ground_ball, *fielder, exit_velocity_mph),
        r.wf(),
        r.ball_time.raw >= ground_ball.landing_time.raw,
{
    let distance_to_landing = Vec2 {
        x: ground_ball.landing_position.x.minus(fielder.position.x),
        y: ground_ball.landing_position.y.minus(fielder.position.y),
    }.norm();
    let charge_bonus = calculate_charge_bonus(
        exit_velocity_mph,
        distance_to_landing,
        fielder.sprint_speed_fps,
    );
    find_fielder_interception(ground_ball, fielder, charge_bonus)
}

/// `choice` names the first of `results` with the largest margin and
/// `best` is that outcome, given that its margin is above that of `start`;
/// otherwise `choice` is empty and `best` is `start`.
pub open spec fn is_best_interception(
    results: Seq<InterceptionResult>,
    start: InterceptionResult,
    choice: Option<usize>,
    best: InterceptionResult,
) -> bool {
    match choice {
        Some(i) => {
            &&& i < results.len()
            &&& best == results[i as int]
            &&& best.margin.raw > start.margin.raw
            &&& forall|j: int|
                0 <= j < results.len() ==> (#[trigger] results[j]).margin.raw <= best.margin.raw
            &&& forall|j: int| 0 <= j < i ==> (#[trigger] results[j]).margin.raw < best.margin.raw
        },
        None => {
            &&& best == start
            &&& forall|j: int|
                0 <= j < results.len() ==> (#[trigger] results[j]).margin.raw <= start.margin.raw
        },
    }
}

/// Picks the outcome with the largest margin; of equal ones, the first. An
/// outcome counts only where its margin is above that of `start`, the
/// outcome with which nobody is named.
pub fn select_best_interception(results: &Vec<InterceptionResult>, start: InterceptionResult) -> (r:
    (Option<usize>, InterceptionResult))
    ensures
        is_best_interception(results@, start, r.0, r.1),
{
    let mut choice: Option<usize> = None;
    let mut best = start;
    let mut i: usize = 0;
    while i < results.len()
        invariant
            i <= results.len(),
            is_best_interception(results@.take(i as int), start, choice, best),
        decreases results.len() - i,
    {
        let ghost before = results@.take(i as int);
        let ghost after = results@.take(i + 1);
        proof {
            assert forall|j: int| 0 <= j < i implies #[trigger] after[j] == before[j] by {}
            assert(after[i as int] == results@[i as int]);
        }
        if results[i].margin.raw > best.margin.raw {
            best = results[i];
            choice = Some(i);
        }
        i = i + 1;
    }
    proof {
        assert(results@.take(i as int) =~= results@);
    }
    (choice, best)
}

/// The outcomes of the fielders, each searched for alone.
pub open spec fn spec_interceptions(
    ground_ball: GroundBallResult,
    fielders: Seq<FielderProfile>,
    exit_velocity_mph: Fixed,
) -> Seq<InterceptionResult> {
    Seq::new(
        fielders.len(),
        |i: int| spec_find_interception_point(ground_ball, fielders[i], exit_velocity_mph),
    )
}

/// Finds the fielder who can take the ball with the most time to spare, and
/// the point at which to take it. With no fielder, or none with a point on
/// the path that beats a fielder who never arrives, nobody is named and the
/// outcome is the unreachable one.
pub fn find_best_interception(
    ground_ball: &GroundBallResult,
    fielders: &Vec<FielderProfile>,
    exit_velocity_mph: Fixed,
) -> (r: (Option<usize>, InterceptionResult))
    ensures
        is_best_interception(
            spec_interceptions(*ground_ball, fielders@, exit_velocity_mph),
            InterceptionResult::unreachable(ground_ball.landing_time),
            r.0,
            r.1,
        ),
        r.1.wf(),
        r.1.ball_time.raw >= ground_ball.landing_time.raw,
{
    let mut results: Vec<InterceptionResult> = Vec::new();
    let mut i: usize = 0;
    while i < fielders.len()
        invariant
            i <= fielders.len(),
            results@.len() == i,
            forall|j: int|
                0 <= j < i ==> {
                    &&& #[trigger] results@[j] == spec_find_interception_point(
                        *ground_ball,
                        fielders@[j],
                        exit_velocity_mph,
                    )
                    &&& results@[j].wf()
                    &&& results@[j].ball_time.raw >= ground_ball.landing_time.raw
                },
        decreases fielders.len() - i,
    {
        results.push(find_interception_point(ground_ball, &fielders[i], exit_velocity_mph));
        i = i + 1;
    }
    proof {
        assert(results@ =~= spec_interceptions(*ground_ball, fielders@, exit_velocity_mph));
    }
    select_best_interception(&results, InterceptionResult::unreachable(ground_ball.landing_time))
}

/// A search that starts from an outcome whose ball time is not before the
/// landing ends with such an outcome.
proof fn lemma_search_keeps_ball_time(
    ground_ball: GroundBallResult,
    fielder: FielderProfile,
    charge_bonus: Fixed,
    best: InterceptionResult,
    k: int,
)
    requires
        0 <= k,
        best.ball_time.raw >= ground_ball.landing_time.raw,
    ensures
        spec_search_from(ground_ball, fielder, charge_bonus, best, k).ball_time.raw
            >= ground_ball.landing_time.raw,
    decreases SEARCH_LAST + 1 - k,
{
    if k <= SEARCH_LAST && rolls_at(ground_ball, k) {
        let next = spec_candidate(ground_ball, fielder, charge_bonus, k);
        assert(k * SEARCH_STEP >= 0) by (nonlinear_arith)
            requires
                k >= 0,
                SEARCH_STEP == 500_000_000,
        ;
        assert(k * SEARCH_STEP <= 60_000_000_000) by (nonlinear_arith)
            requires
                k <= 120,
                SEARCH_STEP == 500_000_000,
        ;
        lemma_search_keeps_ball_time(
            ground_ball,
            fielder,
            charge_bonus,
            if next.margin.raw > best.margin.raw {
                next
            } else {
                best
            },
            k + 1,
        );
    }
}

/// The ball is never reported at the interception point before it has
/// landed.
pub proof fn lemma_ball_time_not_before_landing(
    ground_ball: GroundBallResult,
    fielder: FielderProfile,
    exit_velocity_mph: Fixed,
)
    ensures
        spec_find_interception_point(ground_ball, fielder, exit_velocity_mph).ball_time.raw
            >= ground_ball.landing_time.raw,
{
    let distance_to_landing = Vec2 {
        x: ground_ball.landing_position.x.minus(fielder.position.x),
        y: ground_ball.landing_position.y.minus(fielder.position.y),
    }.norm();
    let charge_bonus = calculate_charge_bonus(
        exit_velocity_mph,
        distance_to_landing,
        fielder.sprint_speed_fps,
    );
    lemma_search_keeps_ball_time(
        ground_ball,
        fielder,
        charge_bonus,
        InterceptionResult::unreachable(ground_ball.landing_time),
        0,
    );
}

/// The time a fielder needs to run up to top speed over the distance that
/// the run-up takes is at most top speed over acceleration: where the two
/// phases of the run meet, the second does not start before the first ends.
proof fn lemma_run_up_within_top_speed(sprint_speed_fps: Fixed, acceleration: Fixed)
    requires
        0 < sprint_speed_fps.raw,
        0 < acceleration.raw,
    ensures
        ({
            let max_speed = sprint_speed_fps.min(Fixed::from_raw(FIELDER_MAX_SPEED));
            let accel_distance = max_speed.times(max_speed).over(
                Fixed::from_int(2).times(acceleration),
            );
            &&& 0 <= accel_distance.raw
            &&& 0 <= max_speed.over(acceleration).raw
            &&& Fixed::from_int(2).times(accel_distance).over(acceleration).sqrt().raw
                <= max_speed.over(acceleration).raw
        }),
{
    let max_speed = sprint_speed_fps.min(Fixed::from_raw(FIELDER_MAX_SPEED));
    let two = Fixed::from_int(2);
    let two_a = two.times(acceleration);
    let p = max_speed.times(max_speed);
    let accel_distance = p.over(two_a);
    let top = max_speed.over(acceleration);
    let a = acceleration.raw as int;
    let x = max_speed.raw as int;
    let scale = 10_000_000_000int;
    assert(0 < x <= 300_000_000_000);
    // the square of the top speed
    assert(0 <= x * x <= 90_000_000_000_000_000_000_000) by (nonlinear_arith)
        requires
            0 < x <= 300_000_000_000,
    ;
    lemma_div_bounds(x * x, 10_000_000_000);
    lemma_div_unique(0, 10_000_000_000, 0);
    lemma_div_unique(90_000_000_000_000_000_000_000, 10_000_000_000, 9_000_000_000_000);
    lemma_div_monotone(0, x * x, 10_000_000_000);
    lemma_div_monotone(x * x, 90_000_000_000_000_000_000_000, 10_000_000_000);
    let pr = (x * x) / 10_000_000_000;
    assert(p.raw == pr);
    assert(0 <= pr <= 9_000_000_000_000);
    // twice the acceleration
    assert(two.raw == 20_000_000_000);
    lemma_div_unique(20_000_000_000 * a, 10_000_000_000, 2 * a);
    assert(two_a.raw == crate::fixed::sat(2 * a));
    let ta = two_a.raw as int;
    assert(0 < ta);
    // the distance of the run-up
    lemma_div_bounds(pr * 10_000_000_000, ta);
    lemma_div_unique(0, ta, 0);
    lemma_div_monotone(0, pr * 10_000_000_000, ta);
    let e = (pr * 10_000_000_000) / ta;
    let adr = accel_distance.raw as int;
    assert(0 <= adr <= e);
    lemma_over_not_negative(max_speed, acceleration);
    // the time of the run-up
    let u = two.times(accel_distance).raw as int;
    lemma_div_unique(20_000_000_000 * adr, 10_000_000_000, 2 * adr);
    assert(u == crate::fixed::sat(2 * adr));
    assert(0 <= u <= 2 * adr);
    lemma_div_bounds(u * 10_000_000_000, a);
    lemma_div_unique(0, a, 0);
    lemma_div_monotone(0, u * 10_000_000_000, a);
    let w = (u * 10_000_000_000) / a;
    let q = two.times(accel_distance).over(acceleration);
    let qr = q.raw as int;
    assert(0 <= qr <= w);
    crate::fixed::lemma_sqrt_in_range(q);
    let r = q.sqrt().raw as int;
    assert(r == crate::arith::floor_sqrt(qr * 10_000_000_000));
    if qr > 0 {
        crate::arith::lemma_floor_sqrt(qr * 10_000_000_000);
        assert(crate::arith::is_floor_sqrt(qr * 10_000_000_000, r));
    } else {
        assert(r == 0);
        assert(r * r == 0) by (nonlinear_arith)
            requires
                r == 0,
        ;
    }
    assert(0 <= r);
    assert(r * r <= qr * 10_000_000_000);
    if 2 * a <= i64::MAX {
        assert(ta == 2 * a);
        // a * qr <= 2 * adr * 10_000_000_000 and 2 * a * adr <= pr * 10_000_000_000 <= x * x
        assert(a * r * (a * r) <= x * scale * (x * scale)) by (nonlinear_arith)
            requires
                0 < a,
                0 <= r,
                0 <= qr <= w,
                r * r <= qr * scale,
                a * w <= u * scale,
                0 <= u <= 2 * adr,
                0 <= adr <= e,
                (2 * a) * e <= pr * scale,
                scale * pr <= x * x,
                scale == 10_000_000_000,
                0 <= pr,
        {
            assert(a * qr <= a * w);
            assert(u * scale <= 2 * adr * scale);
            assert(a * qr <= 2 * adr * scale);
            assert((2 * a) * adr <= (2 * a) * e);
            assert(a * (a * qr) <= a * (2 * adr * scale));
            assert(a * (2 * adr * scale) == ((2 * a) * adr) * scale);
            assert(((2 * a) * adr) * scale <= (pr * scale) * scale);
            assert((pr * scale) * scale <= (x * x) * scale);
            assert(a * a * qr <= x * x * scale);
            assert(a * a * (r * r) <= a * a * (qr * scale));
            assert(a * a * (qr * scale) == (a * a * qr) * scale);
            assert((a * a * qr) * scale <= (x * x * scale) * scale);
            assert(a * r * (a * r) == a * a * (r * r));
            assert((x * x * scale) * scale == x * scale * (x * scale));
        }
        assert(0 <= a * r) by (nonlinear_arith)
            requires
                0 < a,
                0 <= r,
        ;
        assert(x * scale == x * 10_000_000_000);
        assert(0 <= x * 10_000_000_000);
        crate::arith::lemma_square_le(a * r, x * 10_000_000_000);
        assert(r * a == a * r) by (nonlinear_arith);
        crate::arith::lemma_mul_le_div(r, a, x * 10_000_000_000);
        assert(r <= (x * 10_000_000_000) / a);
    } else {
        assert(ta == i64::MAX);
        assert(e <= 10_000) by {
            if e > 10_000 {
                lemma_mul_monotone(10_001, e, ta);
            }
        }
        assert(u * 10_000_000_000 < a);
        lemma_div_unique(u * 10_000_000_000, a, 0);
        assert(qr == 0);
        assert(0 * 10_000_000_000 == 0);
        assert(r == 0);
    }
}

/// The travel time of a fielder with a positive sprint speed and a positive
/// acceleration never falls as the distance grows.
pub proof fn lemma_travel_time_never_falls(
    nearer_ft: Fixed,
    farther_ft: Fixed,
    sprint_speed_fps: Fixed,
    reaction_time: Fixed,
    acceleration: Fixed,
)
    requires
        nearer_ft.raw <= farther_ft.raw,
        0 < sprint_speed_fps.raw,
        0 < acceleration.raw,
    ensures
        spec_fielder_travel_time(nearer_ft, sprint_speed_fps, reaction_time, acceleration).raw
            <= spec_fielder_travel_time(
            farther_ft,
            sprint_speed_fps,
            reaction_time,
            acceleration,
        ).raw,
{
    let max_speed = sprint_speed_fps.min(Fixed::from_raw(FIELDER_MAX_SPEED));
    let two = Fixed::from_int(2);
    let accel_distance = max_speed.times(max_speed).over(two.times(acceleration));
    let top = max_speed.over(acceleration);
    lemma_run_up_within_top_speed(sprint_speed_fps, acceleration);
    assert(0 <= two.raw);
    if farther_ft.raw > 0 {
        // the part of the farther run after the reaction time is not negative
        if farther_ft.raw <= accel_distance.raw {
            lemma_sqrt_monotone(
                two.times(farther_ft).over(acceleration),
                two.times(farther_ft).over(acceleration),
            );
        } else {
            lemma_over_not_negative(farther_ft.minus(accel_distance), max_speed);
        }
        if nearer_ft.raw > 0 {
            if farther_ft.raw <= accel_distance.raw {
                lemma_times_monotone(nearer_ft, farther_ft, two);
                lemma_over_monotone(two.times(nearer_ft), two.times(farther_ft), acceleration);
                lemma_sqrt_monotone(
                    two.times(nearer_ft).over(acceleration),
                    two.times(farther_ft).over(acceleration),
                );
            } else if nearer_ft.raw > accel_distance.raw {
                lemma_over_monotone(
                    nearer_ft.minus(accel_distance),
                    farther_ft.minus(accel_distance),
                    max_speed,
                );
            } else {
                lemma_times_monotone(nearer_ft, accel_distance, two);
                lemma_over_monotone(
                    two.times(nearer_ft),
                    two.times(accel_distance),
                    acceleration,
                );
                lemma_sqrt_monotone(
                    two.times(nearer_ft).over(acceleration),
                    two.times(accel_distance).over(acceleration),
                );
            }
        }
    }
}

} // verus!
