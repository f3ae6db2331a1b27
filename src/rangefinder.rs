//! The range-finding procedure: extreme positions of each servo, tracked over
//! sampling cycles until the operator stops them.

use vstd::prelude::*;
use crate::calibration::{CalibrationData, ServoCalibration};

verus! {

/// A live summary is due after every this many completed cycles.
pub const SUMMARY_EVERY: u64 = 30;

/// Running extrema of a fixed list of servos. A servo that has not yet been
/// read keeps `min == u16::MAX` and `max == 0`.
pub struct RangeFinder {
    ids: Vec<u8>,
    mins: Vec<u16>,
    maxs: Vec<u16>,
    cycles: u64,
}

/// The smaller of two ticks.
pub open spec fn min_tick(a: u16, b: u16) -> u16 {
    if a <= b {
        a
    } else {
        b
    }
}

/// The larger of two ticks.
pub open spec fn max_tick(a: u16, b: u16) -> u16 {
    if a >= b {
        a
    } else {
        b
    }
}

impl RangeFinder {
    /// The three lists have one entry per servo.
    pub closed spec fn wf(&self) -> bool {
        self.ids@.len() == self.mins@.len() && self.ids@.len() == self.maxs@.len()
    }

    /// Bus ids of the tracked servos, in order.
    pub closed spec fn spec_ids(&self) -> Seq<u8> {
        self.ids@
    }

    /// Smallest position read so far of each servo.
    pub closed spec fn spec_mins(&self) -> Seq<u16> {
        self.mins@
    }

    /// Largest position read so far of each servo.
    pub closed spec fn spec_maxs(&self) -> Seq<u16> {
        self.maxs@
    }

    /// Number of completed sampling cycles.
    pub closed spec fn spec_cycles(&self) -> u64 {
        self.cycles
    }

    /// Starts tracking `ids` with no reading yet.
    pub fn new(ids: Vec<u8>) -> (r: RangeFinder)
        ensures
            r.wf(),
            r.spec_ids() == ids@,
            r.spec_mins() == Seq::new(ids@.len(), |i: int| u16::MAX),
            r.spec_maxs() == Seq::new(ids@.len(), |i: int| 0u16),
            r.spec_cycles() == 0,
    {
        let mut mins: Vec<u16> = Vec::new();
        let mut maxs: Vec<u16> = Vec::new();
        let mut i: usize = 0;
        while i < ids.len()
            invariant
                i <= ids@.len(),
                mins@ == Seq::new(i as nat, |k: int| u16::MAX),
                maxs@ == Seq::new(i as nat, |k: int| 0u16),
            decreases ids@.len() - i,
        {
            mins.push(u16::MAX);
            maxs.push(0);
            i = i + 1;
            assert(mins@ =~= Seq::new(i as nat, |k: int| u16::MAX));
            assert(maxs@ =~= Seq::new(i as nat, |k: int| 0u16));
        }
        RangeFinder { ids, mins, maxs, cycles: 0 }
    }

    /// Bus ids of the tracked servos, in order.
    pub fn ids(&self) -> (r: &Vec<u8>)
        ensures
            r@ == self.spec_ids(),
    {
        &self.ids
    }

    /// Number of completed sampling cycles.
    pub fn cycles(&self) -> (r: u64)
        ensures
            r == self.spec_cycles(),
    {
        self.cycles
    }

    /// Takes one reading of servo `i` into account; a failed read (`None`)
    /// changes nothing.
    pub fn record(&mut self, i: usize, reading: Option<u16>)
        requires
            old(self).wf(),
            i < old(self).spec_ids().len(),
        ensures
            final(self).wf(),
            final(self).spec_ids() == old(self).spec_ids(),
            final(self).spec_cycles() == old(self).spec_cycles(),
            match reading {
                Some(v) => {
                    &&& final(self).spec_mins() == old(self).spec_mins().update(
                        i as int,
                        min_tick(old(self).spec_mins()[i as int], v),
                    )
                    &&& final(self).spec_maxs() == old(self).spec_maxs().update(
                        i as int,
                        max_tick(old(self).spec_maxs()[i as int], v),
                    )
                },
                None => {
                    &&& final(self).spec_mins() == old(self).spec_mins()
                    &&& final(self).spec_maxs() == old(self).spec_maxs()
                },
            },
    {
        if let Some(v) = reading {
            let lo = self.mins[i];
            let hi = self.maxs[i];
            let new_lo = if lo <= v {
                lo
            } else {
                v
            };
            let new_hi = if hi >= v {
                hi
            } else {
                v
            };
            self.mins.set(i, new_lo);
            self.maxs.set(i, new_hi);
        }
    }

    /// Completes one sampling cycle with one reading (or failure) per servo,
    /// in the order of the ids, and says whether a live summary is now due.
    pub fn sample_cycle(&mut self, readings: &Vec<Option<u16>>) -> (due: bool)
        requires
            old(self).wf(),
            readings@.len() == old(self).spec_ids().len(),
        ensures
            final(self).wf(),
            final(self).spec_ids() == old(self).spec_ids(),
            final(self).spec_cycles() == if old(self).spec_cycles() < u64::MAX {
                (old(self).spec_cycles() + 1) as u64
            } else {
                u64::MAX
            },
            due == (final(self).spec_cycles() % SUMMARY_EVERY == 0),
            forall|k: int|
                0 <= k < readings@.len() ==> match #[trigger] readings@[k] {
                    Some(v) => final(self).spec_mins()[k] == min_tick(old(self).spec_mins()[k], v)
                        && final(self).spec_maxs()[k] == max_tick(old(self).spec_maxs()[k], v),
                    None => final(self).spec_mins()[k] == old(self).spec_mins()[k]
                        && final(self).spec_maxs()[k] == old(self).spec_maxs()[k],
                },
    {
        let ghost start = *self;
        let mut i: usize = 0;
        while i < readings.len()
            invariant
                self.wf(),
                i <= readings@.len(),
                readings@.len() == self.spec_ids().len(),
                self.spec_ids() == start.spec_ids(),
                self.spec_cycles() == start.spec_cycles(),
                forall|k: int|
                    0 <= k < i ==> match #[trigger] readings@[k] {
                        Some(v) => self.spec_mins()[k] == min_tick(start.spec_mins()[k], v)
                            && self.spec_maxs()[k] == max_tick(start.spec_maxs()[k], v),
                        None => self.spec_mins()[k] == start.spec_mins()[k]
                            && self.spec_maxs()[k] == start.spec_maxs()[k],
                    },
                forall|k: int|
                    i <= k < readings@.len() ==> self.spec_mins()[k] == start.spec_mins()[k]
                        && self.spec_maxs()[k] == start.spec_maxs()[k],
            decreases readings@.len() - i,
        {
            self.record(i, readings[i]);
            i = i + 1;
        }
        if self.cycles < u64::MAX {
            self.cycles = self.cycles + 1;
        }
        self.cycles % SUMMARY_EVERY == 0
    }

    /// One record per servo, in the order of the ids, from the extrema so far.
    pub fn calibration(&self) -> (r: CalibrationData)
        requires
            self.wf(),
        ensures
            r.servos@.len() == self.spec_ids().len(),
            forall|k: int|
                0 <= k < r.servos@.len() ==> #[trigger] r.servos@[k] == (ServoCalibration {
                    id: self.spec_ids()[k],
                    min: self.spec_mins()[k],
                    max: self.spec_maxs()[k],
                }),
    {
        let mut servos: Vec<ServoCalibration> = Vec::new();
        let mut i: usize = 0;
        while i < self.ids.len()
            invariant
                self.wf(),
                i <= self.ids@.len(),
                servos@.len() == i,
                forall|k: int|
                    0 <= k < i ==> #[trigger] servos@[k] == (ServoCalibration {
                        id: self.ids@[k],
                        min: self.mins@[k],
                        max: self.maxs@[k],
                    }),
            decreases self.ids@.len() - i,
        {
            servos.push(ServoCalibration { id: self.ids[i], min: self.mins[i], max: self.maxs[i] });
            i = i + 1;
        }
        CalibrationData { servos }
    }
}

} // verus!
