use vstd::prelude::*;
use crate::resource::{
    delivered, lemma_last_started_wins, started_n, suspense_read, Loaded, Phase, ResourceView,
};
use crate::signal::Formula;

verus! {

/// The value that a data load yields for `value`: ten times the key.
pub open spec fn spec_load_result(value: int) -> int {
    value * 10
}

/// Computes what loading the data for `value` yields.
pub fn load_result(value: i32) -> (r: i32)
    requires
        i32::MIN <= spec_load_result(value as int) <= i32::MAX,
    ensures
        r as int == spec_load_result(value as int),
{
    value * 10
}

/// The total of a price and a count that load separately: it waits for the
/// price first, then the count, and a failure of either is handed on.
pub open spec fn spec_total_price<E>(price: Loaded<i32, E>, count: Loaded<i32, E>) -> Loaded<i64, E> {
    match price {
        Loaded::Loading => Loaded::Loading,
        Loaded::Failed(e) => Loaded::Failed(e),
        Loaded::Ready(p) => match count {
            Loaded::Loading => Loaded::Loading,
            Loaded::Failed(e) => Loaded::Failed(e),
            Loaded::Ready(c) => Loaded::Ready((p * c) as i64),
        },
    }
}

/// Combines the two loads; ready only once both are.
pub fn total_price<E>(price: Loaded<i32, E>, count: Loaded<i32, E>) -> (r: Loaded<i64, E>)
    ensures
        r == spec_total_price(price, count),
{
    match price {
        Loaded::Loading => Loaded::Loading,
        Loaded::Failed(e) => Loaded::Failed(e),
        Loaded::Ready(p) => match count {
            Loaded::Loading => Loaded::Loading,
            Loaded::Failed(e) => Loaded::Failed(e),
            Loaded::Ready(c) => {
                let (a, b) = (p as i64, c as i64);
                proof {
                    assert(-0x8000_0000 <= a <= 0x7fff_ffff && -0x8000_0000 <= b <= 0x7fff_ffff);
                    assert(-0x4000_0000_0000_0000 <= a * b <= 0x4000_0000_0000_0000)
                        by (nonlinear_arith)
                        requires
                            -0x8000_0000 <= a <= 0x7fff_ffff,
                            -0x8000_0000 <= b <= 0x7fff_ffff,
                    ;
                }
                let t = a * b;
                Loaded::Ready(t)
            },
        },
    }
}

/// What a counter's buttons do.
#[derive(Clone, Copy, Debug, PartialEq, Eq)]
pub enum CounterAction {
    /// Adds the amount; a negative one counts down.
    Add(i32),
    Double,
    /// Sets the counter back to this value.
    Reset(i32),
}

/// The counter's value after `action`, unbounded.
pub open spec fn spec_counter_step(value: int, action: CounterAction) -> int {
    match action {
        CounterAction::Add(n) => value + n,
        CounterAction::Double => 2 * value,
        CounterAction::Reset(v) => v as int,
    }
}

/// The counter's value after `action`, or `None` where it would not fit.
pub fn counter_step(value: i32, action: CounterAction) -> (r: Option<i32>)
    ensures
        r == (if i32::MIN <= spec_counter_step(value as int, action) <= i32::MAX {
            Some(spec_counter_step(value as int, action) as i32)
        } else {
            None::<i32>
        }),
{
    match action {
        CounterAction::Add(n) => value.checked_add(n),
        CounterAction::Double => value.checked_mul(2),
        CounterAction::Reset(v) => Some(v),
    }
}

/// Whether a counter value is shown highlighted: when it is odd and not
/// negative.
pub fn is_highlighted(value: i32) -> (r: bool)
    ensures
        r == (value >= 0 && value % 2 == 1),
{
    value >= 0 && value % 2 == 1
}

/// The option a selector moves to from `idx`: the next one, wrapping from
/// the last back to the first.
pub open spec fn spec_next_selection(idx: int, length: int) -> int {
    idx % length + 1
}

/// Moves a selector of `length` options, numbered from one, on from `idx`.
pub fn next_selection(idx: u16, length: u16) -> (r: u16)
    requires
        length > 0,
    ensures
        r as int == spec_next_selection(idx as int, length as int),
        1 <= r <= length,
{
    idx % length + 1
}

/// The remainder of `x` by `d` as Rust's `%` takes it: truncated toward
/// zero, with the sign of `x`.
pub open spec fn trunc_rem(x: int, d: int) -> int {
    let m = if d < 0 {
        -d
    } else {
        d
    };
    if x >= 0 {
        x % m
    } else {
        -((-x) % m)
    }
}

/// A counter that steps by `step` and wraps at `max`: the value before the
/// remainder is taken.
pub open spec fn spec_cycle_sum(value: int, step: int, up: bool) -> int {
    if up {
        value + step
    } else {
        value - step
    }
}

/// Moves a wrapping counter up or down by `step`, then takes the remainder
/// by `max`.
pub fn cycle_step(value: i32, step: i32, max: i32, up: bool) -> (r: i32)
    requires
        max != 0,
        i32::MIN <= spec_cycle_sum(value as int, step as int, up) <= i32::MAX,
        !(spec_cycle_sum(value as int, step as int, up) == i32::MIN && max == -1),
    ensures
        r as int == trunc_rem(spec_cycle_sum(value as int, step as int, up), max as int),
{
    let sum = if up {
        value + step
    } else {
        value - step
    };
    proof {
        let x = sum as int;
        let d = max as int;
        let m = if d < 0 {
            -d
        } else {
            d
        };
        let a = if x >= 0 {
            x
        } else {
            -x
        };
        assert(0 <= a % m < m) by (nonlinear_arith)
            requires
                m > 0,
                a >= 0,
        ;
        assert(0int % m == 0) by (nonlinear_arith)
            requires
                m > 0,
        ;
        assert(x * -1 == -x && d * -1 == -d);
    }
    match sum.checked_rem(max) {
        Some(r) => r,
        None => {
            assert(false);
            0
        },
    }
}

/// Functions that derived values of the demo compute.
#[derive(Clone, Copy, Debug, PartialEq, Eq)]
pub enum Arith {
    /// Twice the first input, wrapping.
    Double,
    /// The product of the first two inputs, wrapping.
    Product,
}

impl Formula<i64> for Arith {
    open spec fn spec_apply(&self, inputs: Seq<i64>) -> i64 {
        match self {
            Arith::Double => if inputs.len() >= 1 {
                inputs[0].wrapping_mul(2)
            } else {
                0
            },
            Arith::Product => if inputs.len() >= 2 {
                inputs[0].wrapping_mul(inputs[1])
            } else {
                0
            },
        }
    }

    fn apply(&self, inputs: &Vec<i64>) -> (r: i64) {
        match self {
            Arith::Double => if inputs.len() >= 1 {
                inputs[0].wrapping_mul(2)
            } else {
                0
            },
            Arith::Product => if inputs.len() >= 2 {
                inputs[0].wrapping_mul(inputs[1])
            } else {
                0
            },
        }
    }
}

/// When price and count are written several times while their loads are in
/// flight, a total that is shown is the product of the outcomes of the loads
/// started last for each, in whatever order outcomes arrive.
pub proof fn lemma_total_from_latest<E>(
    price: ResourceView<i32, E>,
    np: nat,
    rps: Seq<(u64, Result<i32, E>)>,
    count: ResourceView<i32, E>,
    nc: nat,
    rcs: Seq<(u64, Result<i32, E>)>,
    t: i64,
)
    requires
        np > 0,
        nc > 0,
        price.generation + np <= u64::MAX,
        count.generation + nc <= u64::MAX,
        spec_total_price(
            suspense_read(delivered(started_n(price, np), rps).phase),
            suspense_read(delivered(started_n(count, nc), rcs).phase),
        ) == Loaded::<i64, E>::Ready(t),
    ensures
        exists|i: int, j: int|
            0 <= i < rps.len() && 0 <= j < rcs.len() && (#[trigger] rps[i]).0 == price.generation
                + np && rps[i].1 is Ok && (#[trigger] rcs[j]).0 == count.generation + nc
                && rcs[j].1 is Ok && t == rps[i].1->Ok_0 * rcs[j].1->Ok_0,
{
    lemma_last_started_wins(price, np, rps);
    lemma_last_started_wins(count, nc, rcs);
    let pp = delivered(started_n(price, np), rps).phase;
    let cp = delivered(started_n(count, nc), rcs).phase;
    let p = choose|p: i32| pp == Phase::<i32, E>::Ready(p);
    let c = choose|c: i32| cp == Phase::<i32, E>::Ready(c);
    let i = choose|i: int|
        0 <= i < rps.len() && #[trigger] rps[i] == ((price.generation + np) as u64, Ok::<i32, E>(p));
    let j = choose|j: int|
        0 <= j < rcs.len() && #[trigger] rcs[j] == ((count.generation + nc) as u64, Ok::<i32, E>(c));
    assert(-0x4000_0000_0000_0000 <= p * c <= 0x4000_0000_0000_0000) by (nonlinear_arith)
        requires
            -0x8000_0000 <= p <= 0x7fff_ffff,
            -0x8000_0000 <= c <= 0x7fff_ffff,
    ;
    assert(rps[i].1->Ok_0 == p && rcs[j].1->Ok_0 == c);
}

} // verus!
