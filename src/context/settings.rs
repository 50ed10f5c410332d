//! Evaluation-wide settings: display rounding, angle unit and depth limit.

use vstd::prelude::*;

verus! {

/// The number of decimal places shown.
#[derive(Clone, Copy, Debug, PartialEq, Eq, Structural)]
pub enum Rounding {
    /// Round numbers to a specific decimal place.
    Round(u8),
    /// Disable rounding.
    NoRounding,
}

impl Default for Rounding {
    fn default() -> (r: Self)
        ensures
            r == Rounding::Round(8),
    {
        Rounding::Round(8)
    }
}

/// The angle unit in which angles are measured.
#[derive(Clone, Copy, Debug, PartialEq, Eq, Structural)]
pub enum AngleUnit {
    /// A full turn is 2π.
    Radian,
    /// A full turn is 360°.
    Degree,
    /// A full turn is 1.
    Turn,
}

impl Default for AngleUnit {
    fn default() -> (r: Self)
        ensures
            r == AngleUnit::Radian,
    {
        AngleUnit::Radian
    }
}

/// A constant that angle conversion divides or multiplies by.
#[derive(Clone, Copy, Debug, PartialEq, Eq, Structural)]
pub enum AngleConstant {
    /// π, half a turn in radians.
    Pi,
    /// 180, half a turn in degrees.
    HalfTurnDegrees,
    /// 0.5, half a turn in turns.
    Half,
}

/// One arithmetic step of an angle conversion.
#[derive(Clone, Copy, Debug, PartialEq, Eq, Structural)]
pub enum Step {
    /// Divide by the constant.
    Divide(AngleConstant),
    /// Multiply by the constant.
    Multiply(AngleConstant),
}

impl Step {
    /// The constant this step divides or multiplies by.
    pub open spec fn constant(self) -> AngleConstant {
        match self {
            Step::Divide(c) => c,
            Step::Multiply(c) => c,
        }
    }
}

/// A numeric value whose division and multiplication may fail.
///
/// Contracts speak of these operations through `call_ensures`: what an
/// implementation promises of an operation is what is known of its outcome.
pub trait AngleValue: Sized {
    /// What a failed operation reports.
    type Error;

    /// The value of a constant.
    fn constant(c: AngleConstant) -> Self;

    /// `self / rhs`, or the failure that prevents it.
    fn divide(self, rhs: Self) -> Result<Self, Self::Error>;

    /// `self * rhs`, or the failure that prevents it.
    fn multiply(self, rhs: Self) -> Result<Self, Self::Error>;
}

/// `r` is an outcome of one step applied to `v`: the step's constant is made,
/// then `v` is divided or multiplied by it.
pub open spec fn step_outcome<V: AngleValue>(v: V, s: Step, r: Result<V, V::Error>) -> bool {
    exists|c: V|
        #[trigger] call_ensures(V::constant, (s.constant(),), c) && match s {
            Step::Divide(_) => call_ensures(V::divide, (v, c), r),
            Step::Multiply(_) => call_ensures(V::multiply, (v, c), r),
        }
}

/// `r` is an outcome of applying `steps` to `v` in order, where the first
/// step that fails ends the run with its failure.
pub open spec fn runs_to<V: AngleValue>(v: V, steps: Seq<Step>, r: Result<V, V::Error>) -> bool
    decreases steps.len(),
{
    if steps.len() == 0 {
        r == Ok::<V, V::Error>(v)
    } else {
        exists|first: Result<V, V::Error>|
            #[trigger] step_outcome(v, steps[0], first) && match first {
                Ok(w) => runs_to(w, steps.drop_first(), r),
                Err(e) => r == Err::<V, V::Error>(e),
            }
    }
}

/// A run of `a` whose outcome is `mid`, followed by a run of `b` when `mid`
/// is a value, is a run of `a + b`.
proof fn lemma_runs_concat<V: AngleValue>(
    v: V,
    a: Seq<Step>,
    b: Seq<Step>,
    mid: Result<V, V::Error>,
    r: Result<V, V::Error>,
)
    requires
        runs_to(v, a, mid),
        match mid {
            Ok(w) => runs_to(w, b, r),
            Err(e) => r == Err::<V, V::Error>(e),
        },
    ensures
        runs_to(v, a + b, r),
    decreases a.len(),
{
    if a.len() == 0 {
        assert(a + b =~= b);
    } else {
        let first = choose|first: Result<V, V::Error>|
            #[trigger] step_outcome(v, a[0], first) && match first {
                Ok(w) => runs_to(w, a.drop_first(), mid),
                Err(e) => mid == Err::<V, V::Error>(e),
            };
        assert((a + b).drop_first() =~= a.drop_first() + b);
        assert((a + b)[0] == a[0]);
        match first {
            Ok(w) => {
                lemma_runs_concat(w, a.drop_first(), b, mid, r);
            },
            Err(e) => {},
        }
        assert(step_outcome(v, (a + b)[0], first));
    }
}

fn apply_step<V: AngleValue>(v: V, s: Step) -> (r: Result<V, V::Error>)
    ensures
        step_outcome(v, s, r),
{
    match s {
        Step::Divide(k) => {
            let c = V::constant(k);
            let r = v.divide(c);
            assert(call_ensures(V::constant, (s.constant(),), c));
            r
        },
        Step::Multiply(k) => {
            let c = V::constant(k);
            let r = v.multiply(c);
            assert(call_ensures(V::constant, (s.constant(),), c));
            r
        },
    }
}

/// The outcome of `first` then `second` applied to `v`.
fn apply_two<V: AngleValue>(v: V, first: Step, second: Step) -> (r: Result<V, V::Error>)
    ensures
        runs_to(v, seq![first, second], r),
{
    let ghost steps = seq![first, second];
    proof {
        assert(steps.drop_first() =~= seq![second]);
        assert(seq![second].drop_first() =~= Seq::<Step>::empty());
    }
    match apply_step(v, first) {
        Ok(w) => {
            let r = apply_step(w, second);
            proof {
                if r is Ok {
                    assert(runs_to(r->Ok_0, seq![second].drop_first(), r));
                }
                assert(step_outcome(w, seq![second][0], r));
                assert(runs_to(w, seq![second], r));
                assert(step_outcome(v, steps[0], Ok::<V, V::Error>(w)));
            }
            r
        },
        Err(e) => {
            proof {
                assert(step_outcome(v, steps[0], Err::<V, V::Error>(e)));
            }
            Err(e)
        },
    }
}

impl AngleUnit {
    /// The steps that take a measure in this unit to radians.
    pub open spec fn to_radian_steps(self) -> Seq<Step> {
        match self {
            AngleUnit::Radian => seq![],
            AngleUnit::Degree => seq![
                Step::Divide(AngleConstant::HalfTurnDegrees),
                Step::Multiply(AngleConstant::Pi),
            ],
            AngleUnit::Turn => seq![
                Step::Divide(AngleConstant::Half),
                Step::Multiply(AngleConstant::Pi),
            ],
        }
    }

    /// The steps that take a measure in radians to this unit.
    pub open spec fn from_radian_steps(self) -> Seq<Step> {
        match self {
            AngleUnit::Radian => seq![],
            AngleUnit::Degree => seq![
                Step::Divide(AngleConstant::Pi),
                Step::Multiply(AngleConstant::HalfTurnDegrees),
            ],
            AngleUnit::Turn => seq![Step::Divide(AngleConstant::Pi), Step::Multiply(AngleConstant::Half)],
        }
    }

    /// The steps that convert a measure from this unit to `to`, by way of radians.
    pub open spec fn conversion_steps(self, to: AngleUnit) -> Seq<Step> {
        self.to_radian_steps() + to.from_radian_steps()
    }

    fn to_radians<V: AngleValue>(self, value: V) -> (r: Result<V, V::Error>)
        ensures
            runs_to(value, self.to_radian_steps(), r),
    {
        match self {
            AngleUnit::Radian => Ok(value),
            AngleUnit::Degree => apply_two(
                value,
                Step::Divide(AngleConstant::HalfTurnDegrees),
                Step::Multiply(AngleConstant::Pi),
            ),
            AngleUnit::Turn => apply_two(
                value,
                Step::Divide(AngleConstant::Half),
                Step::Multiply(AngleConstant::Pi),
            ),
        }
    }

    fn from_radians<V: AngleValue>(self, value: V) -> (r: Result<V, V::Error>)
        ensures
            runs_to(value, self.from_radian_steps(), r),
    {
        match self {
            AngleUnit::Radian => Ok(value),
            AngleUnit::Degree => apply_two(
                value,
                Step::Divide(AngleConstant::Pi),
                Step::Multiply(AngleConstant::HalfTurnDegrees),
            ),
            AngleUnit::Turn => apply_two(
                value,
                Step::Divide(AngleConstant::Pi),
                Step::Multiply(AngleConstant::Half),
            ),
        }
    }

    /// Converts a value measured in this unit to the unit `to`.
    ///
    /// The value goes to radians and then to `to`; each step is one division
    /// or multiplication of `V`, and the first that fails ends the conversion
    /// with its failure. From radians to radians no arithmetic is done.
    pub fn convert_value<V: AngleValue>(self, to: Self, value: V) -> (r: Result<V, V::Error>)
        ensures
            runs_to(value, self.conversion_steps(to), r),
            self == AngleUnit::Radian && to == AngleUnit::Radian ==> r == Ok::<V, V::Error>(value),
    {
        let as_radians = match self.to_radians(value) {
            Ok(v) => v,
            Err(e) => {
                proof {
                    lemma_runs_concat(
                        value,
                        self.to_radian_steps(),
                        to.from_radian_steps(),
                        Err::<V, V::Error>(e),
                        Err::<V, V::Error>(e),
                    );
                }
                return Err(e);
            },
        };
        let r = to.from_radians(as_radians);
        proof {
            lemma_runs_concat(
                value,
                self.to_radian_steps(),
                to.from_radian_steps(),
                Ok::<V, V::Error>(as_radians),
                r,
            );
            if self == AngleUnit::Radian && to == AngleUnit::Radian {
                assert(self.conversion_steps(to) =~= Seq::<Step>::empty());
            }
        }
        r
    }
}

/// A conversion that reaches a failing step ends with that step's failure,
/// whatever the steps after it would do.
pub proof fn conversion_stops_at_first_failure<V: AngleValue>(
    from: AngleUnit,
    to: AngleUnit,
    value: V,
    k: int,
    reached: V,
    failure: V::Error,
)
    requires
        0 <= k < from.conversion_steps(to).len(),
        runs_to(value, from.conversion_steps(to).take(k), Ok::<V, V::Error>(reached)),
        step_outcome(reached, from.conversion_steps(to)[k], Err::<V, V::Error>(failure)),
    ensures
        runs_to(value, from.conversion_steps(to), Err::<V, V::Error>(failure)),
{
    let steps = from.conversion_steps(to);
    let rest = steps.skip(k);
    assert(rest[0] == steps[k]);
    assert(step_outcome(reached, rest[0], Err::<V, V::Error>(failure)));
    assert(runs_to(reached, rest, Err::<V, V::Error>(failure)));
    lemma_runs_concat(
        value,
        steps.take(k),
        rest,
        Ok::<V, V::Error>(reached),
        Err::<V, V::Error>(failure),
    );
    assert(steps.take(k) + rest =~= steps);
}

/// The bound on recursive evaluation depth, enforced by the evaluator.
#[derive(Clone, Copy, Debug, PartialEq, Eq, Structural)]
pub enum DepthLimit {
    /// An iteration limit.
    Limit(u32),
    /// No limit.
    ///
    /// **Warning**: without a limit recursion is not controlled, and deep
    /// recursion may overflow the evaluator's stack.
    NoLimit,
}

impl Default for DepthLimit {
    fn default() -> (r: Self)
        ensures
            r == DepthLimit::Limit(49),
    {
        DepthLimit::Limit(49)
    }
}

} // verus!
