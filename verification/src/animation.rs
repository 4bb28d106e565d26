//! A data-driven finite state machine for sprite animation control.
//!
//! Transitions are rules `(from, to, condition)` over a monitored value;
//! conditions are a closed set of comparison kinds (no boxed predicate
//! functions), so a transition table is plain data.

use vstd::prelude::*;

use crate::fixed::abs_i;
use crate::geometry::Vec2;

verus! {

/// A transition predicate over a monitored value of type `M`.
pub trait Condition<M: Copy>: Sized {
    /// What the condition means.
    spec fn holds(&self, m: M) -> bool;

    /// Decide the condition.
    fn eval(&self, m: M) -> (r: bool)
        ensures
            r == self.holds(m),
    ;
}

/// A transition out of a state: taken when `trigger` holds.
pub struct Rule<C> {
    pub to: usize,
    pub trigger: C,
}

/// Rule `i` of state `s` fires on `m`, and no earlier rule of `s` does.
pub open spec fn fires_at<M: Copy, C: Condition<M>>(
    rules: Seq<Vec<Rule<C>>>,
    s: int,
    m: M,
    i: int,
) -> bool {
    &&& 0 <= i < rules[s]@.len()
    &&& rules[s]@[i].trigger.holds(m)
    &&& forall|j: int| 0 <= j < i ==> !(#[trigger] rules[s]@[j]).trigger.holds(m)
}

/// Some rule of state `s` fires on `m` (and `s` is a valid state).
pub open spec fn fires<M: Copy, C: Condition<M>>(rules: Seq<Vec<Rule<C>>>, s: int, m: M) -> bool {
    &&& 0 <= s < rules.len()
    &&& exists|i: int| 0 <= i < rules[s]@.len() && (#[trigger] rules[s]@[i]).trigger.holds(m)
}

/// The state reached from `s` by the first firing rule.
pub open spec fn step_state<M: Copy, C: Condition<M>>(
    rules: Seq<Vec<Rule<C>>>,
    s: int,
    m: M,
) -> int {
    rules[s]@[choose|i: int| fires_at(rules, s, m, i)].to as int
}

/// The state reached from `s` after at most `fuel` firing steps.
pub open spec fn run_from<M: Copy, C: Condition<M>>(
    rules: Seq<Vec<Rule<C>>>,
    s: int,
    m: M,
    fuel: nat,
) -> int
    decreases fuel,
{
    if fuel == 0 || !fires(rules, s, m) {
        s
    } else {
        run_from(rules, step_state(rules, s, m), m, (fuel - 1) as nat)
    }
}

/// From `s`, repeatedly taking the first firing rule stays inside the
/// valid states and reaches a state with no firing rule within `fuel`
/// steps.
pub open spec fn run_stops<M: Copy, C: Condition<M>>(
    rules: Seq<Vec<Rule<C>>>,
    s: int,
    m: M,
    fuel: nat,
) -> bool
    decreases fuel,
{
    &&& 0 <= s < rules.len()
    &&& (fires(rules, s, m) ==> fuel > 0 && run_stops(
        rules,
        step_state(rules, s, m),
        m,
        (fuel - 1) as nat,
    ))
}

/// Running one more step from the end of a run takes the first firing
/// rule there (or stays put).
proof fn lemma_run_from_snoc<M: Copy, C: Condition<M>>(
    rules: Seq<Vec<Rule<C>>>,
    s: int,
    m: M,
    fuel: nat,
)
    ensures
        run_from(rules, s, m, fuel + 1) == (if fires(rules, run_from(rules, s, m, fuel), m) {
            step_state(rules, run_from(rules, s, m, fuel), m)
        } else {
            run_from(rules, s, m, fuel)
        }),
    decreases fuel,
{
    if fires(rules, s, m) {
        if fuel > 0 {
            lemma_run_from_snoc(rules, step_state(rules, s, m), m, (fuel - 1) as nat);
            assert(run_from(rules, s, m, fuel + 1) == run_from(
                rules,
                step_state(rules, s, m),
                m,
                fuel,
            ));
        } else {
            assert(run_from(rules, step_state(rules, s, m), m, 0) == step_state(rules, s, m));
            assert(run_from(rules, s, m, 1) == step_state(rules, s, m));
        }
    } else {
        assert(run_from(rules, s, m, fuel + 1) == s);
        assert(run_from(rules, s, m, fuel) == s);
    }
}

/// A finite state machine: per-state rule lists and a current state.
/// Updates take the first rule of the current state whose condition
/// holds of the monitored value.
pub struct StateMachine<C> {
    pub rules: Vec<Vec<Rule<C>>>,
    pub current_state: usize,
}

impl<C> StateMachine<C> {
    /// A machine with `state_count` states, no rules, starting in state 0.
    pub fn new(state_count: usize) -> (r: StateMachine<C>)
        ensures
            r.current_state == 0,
            r.rules@.len() == state_count,
            forall|s: int| 0 <= s < state_count ==> (#[trigger] r.rules@[s])@.len() == 0,
    {
        let mut rules: Vec<Vec<Rule<C>>> = Vec::new();
        let mut s: usize = 0;
        while s < state_count
            invariant
                s <= state_count,
                rules@.len() == s,
                forall|k: int| 0 <= k < s ==> (#[trigger] rules@[k])@.len() == 0,
            decreases state_count - s,
        {
            rules.push(Vec::new());
            s = s + 1;
        }
        StateMachine { rules, current_state: 0 }
    }

    /// Append a rule to state `from`, tried after the rules already there.
    pub fn add_rule(&mut self, from: usize, to: usize, trigger: C)
        requires
            from < old(self).rules@.len(),
        ensures
            final(self).current_state == old(self).current_state,
            final(self).rules@.len() == old(self).rules@.len(),
            final(self).rules@[from as int]@ == old(self).rules@[from as int]@.push(
                Rule { to, trigger },
            ),
            forall|s: int|
                0 <= s < old(self).rules@.len() && s != from ==> (#[trigger] final(self).rules@[s])@
                    == old(self).rules@[s]@,
    {
        let mut row = self.rules.remove(from);
        row.push(Rule { to, trigger });
        self.rules.insert(from, row);
    }

    /// The current state.
    pub fn state(&self) -> (r: usize)
        ensures
            r == self.current_state,
    {
        self.current_state
    }

    /// Force the current state.
    pub fn set_state(&mut self, state: usize)
        ensures
            final(self).current_state == state,
            final(self).rules == old(self).rules,
    {
        self.current_state = state;
    }

    /// Try the current state's rules in order; take the first whose
    /// condition holds and report whether one fired.
    pub fn update_once<M: Copy>(&mut self, monitor: M) -> (r: bool) where C: Condition<M>
        requires
            old(self).current_state < old(self).rules@.len(),
        ensures
            final(self).rules == old(self).rules,
            r == fires(old(self).rules@, old(self).current_state as int, monitor),
            final(self).current_state as int == (if r {
                step_state(old(self).rules@, old(self).current_state as int, monitor)
            } else {
                old(self).current_state as int
            }),
    {
        let s = self.current_state;
        let row_len = self.rules[s].len();
        let mut i: usize = 0;
        while i < row_len
            invariant
                s < self.rules@.len(),
                s == self.current_state,
                row_len == self.rules@[s as int]@.len(),
                i <= row_len,
                forall|j: int|
                    0 <= j < i ==> !(#[trigger] self.rules@[s as int]@[j]).trigger.holds(monitor),
                self == old(self),
            decreases row_len - i,
        {
            if self.rules[s][i].trigger.eval(monitor) {
                proof {
                    assert(fires_at(self.rules@, s as int, monitor, i as int));
                    let w = choose|k: int| fires_at(self.rules@, s as int, monitor, k);
                    assert(fires_at(self.rules@, s as int, monitor, w));
                    assert(w == i as int);
                }
                self.current_state = self.rules[s][i].to;
                return true;
            }
            i = i + 1;
        }
        false
    }

    /// Keep taking transitions until no rule of the current state fires;
    /// report whether any fired. The caller's rule table must allow no
    /// infinite transition chain on this monitored value.
    pub fn update_full<M: Copy>(&mut self, monitor: M) -> (r: bool) where C: Condition<M>
        requires
            exists|fuel: nat|
                run_stops(old(self).rules@, old(self).current_state as int, monitor, fuel),
        ensures
            final(self).rules == old(self).rules,
            r == fires(old(self).rules@, old(self).current_state as int, monitor),
            !fires(final(self).rules@, final(self).current_state as int, monitor),
            exists|fuel: nat|
                run_from(old(self).rules@, old(self).current_state as int, monitor, fuel)
                    == final(self).current_state as int,
    {
        let ghost mut fuel: nat = choose|fuel: nat|
            run_stops(old(self).rules@, old(self).current_state as int, monitor, fuel);
        let ghost mut steps: nat = 0;
        let first = self.update_once(monitor);
        proof {
            if first {
                assert(run_stops(old(self).rules@, old(self).current_state as int, monitor, fuel));
                fuel = (fuel - 1) as nat;
                steps = 1;
                assert(run_from(
                    old(self).rules@,
                    step_state(old(self).rules@, old(self).current_state as int, monitor),
                    monitor,
                    0,
                ) == step_state(old(self).rules@, old(self).current_state as int, monitor));
                assert(run_from(old(self).rules@, old(self).current_state as int, monitor, 1)
                    == self.current_state as int);
            } else {
                assert(run_from(old(self).rules@, old(self).current_state as int, monitor, 0)
                    == self.current_state as int);
            }
        }
        let mut fired = first;
        while fired
            invariant
                self.rules == old(self).rules,
                run_stops(old(self).rules@, self.current_state as int, monitor, fuel),
                run_from(old(self).rules@, old(self).current_state as int, monitor, steps)
                    == self.current_state as int,
                !fired ==> !fires(old(self).rules@, self.current_state as int, monitor),
            decreases fuel, (if fired { 1int } else { 0int }),
        {
            let ghost prev_state = self.current_state as int;
            fired = self.update_once(monitor);
            proof {
                lemma_run_from_snoc(
                    old(self).rules@,
                    old(self).current_state as int,
                    monitor,
                    steps,
                );
                if fired {
                    fuel = (fuel - 1) as nat;
                }
                steps = steps + 1;
            }
        }
        first
    }

    /// Try up to `limit` single updates, stopping at the first that
    /// fires; since the monitored value is fixed, at most the first try
    /// can fire.
    pub fn update_with_limit<M: Copy>(&mut self, monitor: M, limit: u32) -> (r: bool) where
        C: Condition<M>,

        requires
            limit > 0 ==> old(self).current_state < old(self).rules@.len(),
        ensures
            final(self).rules == old(self).rules,
            r == (limit > 0 && fires(old(self).rules@, old(self).current_state as int, monitor)),
            final(self).current_state as int == (if r {
                step_state(old(self).rules@, old(self).current_state as int, monitor)
            } else {
                old(self).current_state as int
            }),
    {
        let mut k: u32 = 0;
        while k < limit
            invariant
                limit > 0 ==> old(self).current_state < old(self).rules@.len(),
                k <= limit,
                self.rules == old(self).rules,
                self.current_state == old(self).current_state,
                k > 0 ==> !fires(old(self).rules@, old(self).current_state as int, monitor),
            decreases limit - k,
        {
            if self.update_once(monitor) {
                return true;
            }
            k = k + 1;
        }
        false
    }
}

/// A transition predicate over a boolean monitor.
pub enum BoolCondition {
    IsTrue,
    IsFalse,
}

impl Condition<bool> for BoolCondition {
    open spec fn holds(&self, m: bool) -> bool {
        match self {
            BoolCondition::IsTrue => m,
            BoolCondition::IsFalse => !m,
        }
    }

    fn eval(&self, m: bool) -> (r: bool)
        ensures
            r == self.holds(m),
    {
        match self {
            BoolCondition::IsTrue => m,
            BoolCondition::IsFalse => !m,
        }
    }
}

/// A transition predicate over a monitored velocity: the comparison
/// kinds the animation rules need (horizontal speed against a
/// threshold, vertical velocity against a threshold or zero).
pub enum VelocityCondition {
    /// |v.x| > threshold
    SpeedAbove(i64),
    /// |v.x| < threshold
    SpeedBelow(i64),
    /// v.y > threshold
    RisingFasterThan(i64),
    /// v.y < threshold
    FallingFasterThan(i64),
    /// v.y <= 0
    NotRising,
    /// v.y >= 0
    NotFalling,
}

impl Condition<Vec2> for VelocityCondition {
    open spec fn holds(&self, m: Vec2) -> bool {
        match self {
            VelocityCondition::SpeedAbove(threshold) => abs_i(m.x as int) > *threshold,
            VelocityCondition::SpeedBelow(threshold) => abs_i(m.x as int) < *threshold,
            VelocityCondition::RisingFasterThan(threshold) => m.y > *threshold,
            VelocityCondition::FallingFasterThan(threshold) => m.y < *threshold,
            VelocityCondition::NotRising => m.y <= 0,
            VelocityCondition::NotFalling => m.y >= 0,
        }
    }

    fn eval(&self, m: Vec2) -> (r: bool)
        ensures
            r == self.holds(m),
    {
        match self {
            VelocityCondition::SpeedAbove(threshold) => {
                let v: i128 = m.x as i128;
                let a: i128 = if v < 0 {
                    -v
                } else {
                    v
                };
                a > *threshold as i128
            },
            VelocityCondition::SpeedBelow(threshold) => {
                let v: i128 = m.x as i128;
                let a: i128 = if v < 0 {
                    -v
                } else {
                    v
                };
                a < *threshold as i128
            },
            VelocityCondition::RisingFasterThan(threshold) => m.y > *threshold,
            VelocityCondition::FallingFasterThan(threshold) => m.y < *threshold,
            VelocityCondition::NotRising => m.y <= 0,
            VelocityCondition::NotFalling => m.y >= 0,
        }
    }
}

} // verus!
