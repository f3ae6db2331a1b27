//! Per-servo calibration records and the output unit of published positions.

use vstd::prelude::*;
use vstd::string::StringSliceAdditionalSpecFns;

verus! {

/// Output unit for published positions.
#[derive(Debug, Clone, Copy, PartialEq, Eq, Structural)]
pub enum Units {
    /// Raw 16-bit register values.
    Raw,
    /// Degrees relative to the calibration center.
    Deg,
    /// Radians relative to the calibration center.
    Rad,
    /// The calibrated range mapped onto `[-1, 1]`.
    Normalize,
}

/// The unit that a configuration string (as UTF-8 bytes) names, if any.
pub open spec fn unit_named(b: Seq<u8>) -> Option<Units> {
    if b == seq![114u8, 97, 119] {
        Some(Units::Raw)
    } else if b == seq![100u8, 101, 103] {
        Some(Units::Deg)
    } else if b == seq![114u8, 97, 100] {
        Some(Units::Rad)
    } else if b == seq![110u8, 111, 114, 109, 97, 108, 105, 122, 101] || b == seq![
        110u8,
        111,
        114,
        109,
    ] {
        Some(Units::Normalize)
    } else {
        None
    }
}

fn bytes_equal(a: &[u8], b: &[u8]) -> (r: bool)
    ensures
        r == (a@ == b@),
{
    if a.len() != b.len() {
        return false;
    }
    let mut i: usize = 0;
    while i < a.len()
        invariant
            a@.len() == b@.len(),
            i <= a@.len(),
            forall|k: int| 0 <= k < i ==> a@[k] == b@[k],
        decreases a@.len() - i,
    {
        if a[i] != b[i] {
            return false;
        }
        i = i + 1;
    }
    assert(a@ =~= b@);
    true
}

impl Units {
    /// Parses `raw`, `deg`, `rad`, `normalize` or `norm`; anything else is refused.
    pub fn parse(s: &str) -> (r: Result<Units, ()>)
        ensures
            match unit_named(s.spec_bytes()) {
                Some(u) => r == Ok::<Units, ()>(u),
                None => r == Err::<Units, ()>(()),
            },
    {
        let b = s.as_bytes();
        let raw: [u8; 3] = [114, 97, 119];
        let deg: [u8; 3] = [100, 101, 103];
        let rad: [u8; 3] = [114, 97, 100];
        let normalize: [u8; 9] = [110, 111, 114, 109, 97, 108, 105, 122, 101];
        let norm: [u8; 4] = [110, 111, 114, 109];
        assert(raw@ =~= seq![114u8, 97, 119]);
        assert(deg@ =~= seq![100u8, 101, 103]);
        assert(rad@ =~= seq![114u8, 97, 100]);
        assert(normalize@ =~= seq![110u8, 111, 114, 109, 97, 108, 105, 122, 101]);
        assert(norm@ =~= seq![110u8, 111, 114, 109]);
        if bytes_equal(b, raw.as_slice()) {
            Ok(Units::Raw)
        } else if bytes_equal(b, deg.as_slice()) {
            Ok(Units::Deg)
        } else if bytes_equal(b, rad.as_slice()) {
            Ok(Units::Rad)
        } else if bytes_equal(b, normalize.as_slice()) || bytes_equal(b, norm.as_slice()) {
            Ok(Units::Normalize)
        } else {
            Err(())
        }
    }
}

impl std::str::FromStr for Units {
    type Err = ();

    fn from_str(s: &str) -> (r: Result<Units, ()>)
        ensures
            match unit_named(s.spec_bytes()) {
                Some(u) => r == Ok::<Units, ()>(u),
                None => r == Err::<Units, ()>(()),
            },
    {
        Units::parse(s)
    }
}

impl Default for Units {
    fn default() -> (r: Units)
        ensures
            r == Units::Raw,
    {
        Units::Raw
    }
}

/// Calibration of one servo: its bus id and the extreme raw positions seen.
#[derive(Debug, Clone, Copy, PartialEq, Eq, Structural)]
pub struct ServoCalibration {
    pub id: u8,
    pub min: u16,
    pub max: u16,
}

/// `max - min`, or zero where `max < min`.
pub open spec fn range_of(c: ServoCalibration) -> u16 {
    if c.max >= c.min {
        (c.max - c.min) as u16
    } else {
        0
    }
}

impl ServoCalibration {
    /// Total usable range in raw ticks; an empty record (`max < min`) has none.
    pub fn range(&self) -> (r: u16)
        ensures
            r == range_of(*self),
    {
        if self.max >= self.min {
            self.max - self.min
        } else {
            0
        }
    }
}

/// Calibration of all servos on a bus, in the order they were listed.
#[derive(Debug, Clone, Default)]
pub struct CalibrationData {
    pub servos: Vec<ServoCalibration>,
}

/// The first position in `s` whose record has bus id `id`, if any.
pub open spec fn first_with_id(s: Seq<ServoCalibration>, id: u8) -> Option<int>
    decreases s.len(),
{
    if s.len() == 0 {
        None
    } else {
        match first_with_id(s.drop_last(), id) {
            Some(k) => Some(k),
            None => if s.last().id == id {
                Some(s.len() - 1)
            } else {
                None
            },
        }
    }
}

impl CalibrationData {
    /// The record of servo `id`: the first one listed with that id.
    pub fn lookup(&self, id: u8) -> (r: Option<ServoCalibration>)
        ensures
            match first_with_id(self.servos@, id) {
                Some(k) => r == Some(self.servos@[k]),
                None => r.is_none(),
            },
    {
        let mut i: usize = 0;
        while i < self.servos.len()
            invariant
                i <= self.servos@.len(),
                first_with_id(self.servos@.subrange(0, i as int), id).is_none(),
            decreases self.servos@.len() - i,
        {
            let ghost pre = self.servos@.subrange(0, i as int);
            assert(self.servos@.subrange(0, i as int + 1).drop_last() =~= pre);
            if self.servos[i].id == id {
                proof {
                    lemma_first_with_id_prefix(self.servos@, id, i as int + 1);
                }
                return Some(self.servos[i]);
            }
            i = i + 1;
        }
        assert(self.servos@.subrange(0, i as int) =~= self.servos@);
        None
    }
}

/// A first match within a prefix is the first match of the whole sequence.
proof fn lemma_first_with_id_prefix(s: Seq<ServoCalibration>, id: u8, n: int)
    requires
        0 <= n <= s.len(),
        first_with_id(s.subrange(0, n), id).is_some(),
    ensures
        first_with_id(s, id) == first_with_id(s.subrange(0, n), id),
    decreases s.len() - n,
{
    if n < s.len() {
        assert(s.subrange(0, n + 1).drop_last() =~= s.subrange(0, n));
        lemma_first_with_id_prefix(s, id, n + 1);
    } else {
        assert(s.subrange(0, n) =~= s);
    }
}

} // verus!
