//! The ten rank windows that make a straight.

use crate::card::Value;
use vstd::prelude::*;

verus! {

/// Number of straight windows.
pub const WINDOW_COUNT: usize = 10;

/// The wheel: the ace-low window, in its natural order.
pub open spec fn wheel() -> Seq<Value> {
    seq![Value::Ace, Value::Two, Value::Three, Value::Four, Value::Five]
}

/// The `k`-th straight window.
///
/// Windows 0 to 8 are the runs of five consecutive ranks that start at
/// `Two`, ..., `Ten`, in rising order; window 9 is the wheel.
pub open spec fn window(k: int) -> Seq<Value> {
    if 0 <= k < 9 {
        Seq::new(5, |j: int| Value::at(k + j))
    } else {
        wheel()
    }
}

/// The run of five consecutive ranks that starts at position `start`.
fn run_from(start: u8) -> (w: Vec<Value>)
    requires
        start < 9,
    ensures
        w@ == window(start as int),
{
    let mut w: Vec<Value> = Vec::new();
    let mut j: u8 = 0;
    while j < 5
        invariant
            j <= 5,
            start < 9,
            w@.len() == j,
            forall|i: int| 0 <= i < j ==> w@[i] == Value::at(start + i),
        decreases 5 - j,
    {
        w.push(Value::from_index(start + j));
        j += 1;
    }
    assert(w@ =~= window(start as int));
    w
}

/// The table of straight windows: the nine runs of consecutive ranks from
/// `Two`-`Six` up to `Ten`-`Ace`, then the wheel.
pub fn get_straight_patterns() -> (table: Vec<Vec<Value>>)
    ensures
        table@.len() == WINDOW_COUNT,
        forall|k: int| 0 <= k < WINDOW_COUNT ==> (#[trigger] table@[k])@ == window(k),
{
    let mut table: Vec<Vec<Value>> = Vec::new();
    let mut k: u8 = 0;
    while k < 9
        invariant
            k <= 9,
            table@.len() == k,
            forall|i: int| 0 <= i < k ==> (#[trigger] table@[i])@ == window(i),
        decreases 9 - k,
    {
        table.push(run_from(k));
        k += 1;
    }
    let mut last: Vec<Value> = Vec::new();
    last.push(Value::Ace);
    last.push(Value::Two);
    last.push(Value::Three);
    last.push(Value::Four);
    last.push(Value::Five);
    assert(last@ =~= wheel());
    table.push(last);
    table
}

} // verus!
