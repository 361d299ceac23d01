//! The daemon's decisions: when the HID thread re-applies the configuration,
//! and which devices a `get` or `set` request is about.

use vstd::prelude::*;
use vstd::string::*;

use crate::text::{decimal, decimal_numeral};

verus! {

/// Every third wake-up of the HID thread re-applies the configuration even
/// if nothing changed, to re-assert it against System Settings.
pub open spec fn forced(tick: u32) -> bool {
    tick % 3 == 0
}

/// The tick after `tick`, wrapping at `u32::MAX`.
pub open spec fn next_tick(tick: u32) -> u32 {
    if tick == u32::MAX {
        0
    } else {
        (tick + 1) as u32
    }
}

/// The HID thread's wake-up counter.
pub struct ApplySchedule {
    pub tick: u32,
}

impl ApplySchedule {
    pub fn new() -> (s: ApplySchedule)
        ensures
            s.tick == 0,
    {
        ApplySchedule { tick: 0 }
    }

    /// Counts a wake-up of the run loop; true when this one must re-apply
    /// the configuration whether or not anything changed.
    pub fn wake(&mut self) -> (force: bool)
        ensures
            final(self).tick == next_tick(old(self).tick),
            force == forced(final(self).tick),
    {
        self.tick = self.tick.wrapping_add(1);
        self.tick % 3 == 0
    }
}

/// However the counter stands, one of any three consecutive wake-ups
/// re-applies the configuration.
pub proof fn lemma_reapplied_every_three_wakes(tick: u32)
    ensures
        forced(next_tick(tick)) || forced(next_tick(next_tick(tick))) || forced(
            next_tick(next_tick(next_tick(tick))),
        ),
{
}

/// The positions `0..count` that a listing shows: all of them, or only
/// `only` when it is given.
pub open spec fn listed(count: nat, only: Option<usize>) -> Seq<usize> {
    match only {
        None => Seq::new(count, |i: int| i as usize),
        Some(k) => if k < count {
            seq![k]
        } else {
            Seq::empty()
        },
    }
}

/// Which of `count` connected devices a `list` or `get` request reports.
pub fn listed_indices(count: usize, only: Option<usize>) -> (r: Vec<usize>)
    ensures
        r@ == listed(count as nat, only),
{
    let mut r: Vec<usize> = Vec::new();
    let mut i: usize = 0;
    while i < count
        invariant
            i <= count,
            r@ == (match only {
                None => Seq::new(i as nat, |j: int| j as usize),
                Some(k) => if k < i {
                    seq![k]
                } else {
                    Seq::empty()
                },
            }),
        decreases count - i,
    {
        let shown = match only {
            Some(k) => k == i,
            None => true,
        };
        if shown {
            r.push(i);
        }
        i = i + 1;
        assert(r@ =~= (match only {
            None => Seq::new(i as nat, |j: int| j as usize),
            Some(k) => if k < i {
                seq![k]
            } else {
                Seq::empty()
            },
        }));
    }
    r
}

/// The error a `set` for a missing device index gets.
pub open spec fn out_of_range_text(index: usize) -> Seq<char> {
    "device index "@ + decimal_numeral(index as nat) + " out of range"@
}

/// A listing for one index shows that index alone when it is connected,
/// and nothing when it is not; a listing for no index shows every position
/// in order. No index is treated differently from another.
pub proof fn lemma_listing_one_index_shows_only_it(count: usize, k: usize)
    ensures
        k < count ==> listed(count as nat, Some(k)).len() == 1 && listed(count as nat, Some(k))[0] == k,
        k >= count ==> listed(count as nat, Some(k)).len() == 0,
        listed(count as nat, None).len() == count,
        forall|i: int| 0 <= i < count ==> #[trigger] listed(count as nat, None)[i] as int == i,
{
    assert forall|i: int| 0 <= i < count implies #[trigger] listed(count as nat, None)[i] as int == i by {
        assert(listed(count as nat, None)[i] == i as usize);
    }
}

/// Which of `count` connected devices a `set` request changes: the one at
/// `device`, or all of them; an index past the end is refused.
pub fn select_targets(count: usize, device: Option<usize>) -> (r: Result<Vec<usize>, String>)
    ensures
        match device {
            Some(k) => if k < count {
                r matches Ok(v) && v@ == seq![k]
            } else {
                r matches Err(e) && e@ == out_of_range_text(k)
            },
            None => r matches Ok(v) && v@ == Seq::new(count as nat, |i: int| i as usize),
        },
{
    if let Some(k) = device {
        if k >= count {
            let mut e = String::from_str("device index ");
            e.append(decimal(k as u64).as_str());
            e.append(" out of range");
            return Err(e);
        }
    }
    Ok(listed_indices(count, device))
}

} // verus!
