//! Measuring pulses on a pin.

use vstd::prelude::*;

verus! {

/// What to do with a pin that is being watched.
#[derive(Clone, Copy, PartialEq, Eq, Structural, Debug)]
pub enum Wait {
    /// Look again.
    Again,
    /// The pulse is over; it took this many microseconds.
    Done(i64),
    /// The pulse took too long.
    Timeout,
}

/// A pin that should keep its level for the length of a pulse was found at a level, this many
/// microseconds after the pulse began. The pulse is over once the level is another one; it has
/// failed once it took longer than it may.
pub fn wait_while(pin_high: bool, high: bool, elapsed_us: i64, timeout_us: i64) -> (r: Wait)
    ensures
        r == if pin_high != high {
            Wait::Done(elapsed_us)
        } else if elapsed_us > timeout_us {
            Wait::Timeout
        } else {
            Wait::Again
        },
{
    if pin_high != high {
        Wait::Done(elapsed_us)
    } else if elapsed_us > timeout_us {
        Wait::Timeout
    } else {
        Wait::Again
    }
}

/// Every pulse ended in time.
pub open spec fn all_ended(pulses: Seq<Option<i64>>) -> bool {
    forall|i: int| 0 <= i < pulses.len() ==> #[trigger] pulses[i] is Some
}

/// The lengths of pulses that ended in time.
pub open spec fn lengths(pulses: Seq<Option<i64>>) -> Seq<i64> {
    Seq::new(pulses.len(), |i: int| pulses[i]->0)
}

/// The lengths of the pulses, if every one ended in time.
pub fn collect(pulses: &[Option<i64>]) -> (r: Option<Vec<i64>>)
    ensures
        r is Some <==> all_ended(pulses@),
        r matches Some(v) ==> v@ == lengths(pulses@),
{
    let mut out: Vec<i64> = Vec::new();
    let mut i: usize = 0;
    while i < pulses.len()
        invariant
            i <= pulses@.len(),
            out@.len() == i,
            forall|k: int| 0 <= k < i ==> #[trigger] pulses@[k] is Some,
            forall|k: int| 0 <= k < i ==> #[trigger] out@[k] == pulses@[k]->0,
        decreases pulses@.len() - i,
    {
        match pulses[i] {
            Some(us) => {
                out.push(us);
            },
            None => {
                assert(pulses@[i as int] is None);
                return None;
            },
        }
        i += 1;
    }
    assert(out@ =~= lengths(pulses@));
    Some(out)
}

} // verus!
