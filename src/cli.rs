//! Command line of the calibration tool:
//! `<device-path> <servo-id>... [output-path.json]`.

use vstd::prelude::*;
use vstd::utf8::encode_utf8;

verus! {

/// Why the command line was refused.
#[derive(Debug, Clone, Copy, PartialEq, Eq, Structural)]
pub enum UsageError {
    /// No servo id follows the device path.
    MissingIds,
    /// A servo id is not a decimal number from 0 to 255.
    BadId,
}

/// What the calibration tool was asked to do.
#[derive(Debug, Clone)]
pub struct CalibrateArgs {
    pub device: String,
    pub ids: Vec<u8>,
    pub output: String,
}

/// UTF-8 bytes of a string.
pub open spec fn bytes_of(s: String) -> Seq<u8> {
    encode_utf8(s@)
}

/// Whether the bytes end in `.json`.
pub open spec fn ends_with_json(b: Seq<u8>) -> bool {
    b.len() >= 5 && b.subrange(b.len() - 5, b.len() as int) == seq![46u8, 106, 115, 111, 110]
}

/// Whether every byte is an ASCII decimal digit.
pub open spec fn all_digits(b: Seq<u8>) -> bool {
    forall|i: int| 0 <= i < b.len() ==> 48 <= #[trigger] b[i] <= 57
}

/// Value of a string of decimal digits.
pub open spec fn digits_value(b: Seq<u8>) -> nat
    decreases b.len(),
{
    if b.len() == 0 {
        0
    } else {
        digits_value(b.drop_last()) * 10 + (b.last() - 48) as nat
    }
}

/// A `u8` written in decimal, with an optional leading `+`, as `str::parse`
/// reads it.
pub open spec fn decimal_u8(b: Seq<u8>) -> Option<u8> {
    let d = if b.len() > 0 && b[0] == 43 {
        b.drop_first()
    } else {
        b
    };
    if d.len() > 0 && all_digits(d) && digits_value(d) <= 255 {
        Some(digits_value(d) as u8)
    } else {
        None
    }
}

/// Whether the last of the arguments names the output file.
pub open spec fn names_output(args: Seq<String>) -> bool {
    args.len() > 2 && ends_with_json(bytes_of(args.last()))
}

/// One past the position of the last servo id among the arguments.
pub open spec fn ids_end(args: Seq<String>) -> int {
    if names_output(args) {
        args.len() - 1
    } else {
        args.len() as int
    }
}

/// Reads a servo id.
pub fn parse_id(s: &str) -> (r: Option<u8>)
    ensures
        r == decimal_u8(encode_utf8(s@)),
{
    let b = s.as_bytes();
    let start: usize = if b.len() > 0 && b[0] == 43 {
        1
    } else {
        0
    };
    let ghost d = if b@.len() > 0 && b@[0] == 43 {
        b@.drop_first()
    } else {
        b@
    };
    assert(d =~= b@.subrange(start as int, b@.len() as int));
    if start >= b.len() {
        return None;
    }
    let mut acc: u16 = 0;
    let mut i: usize = start;
    while i < b.len()
        invariant
            b@ == encode_utf8(s@),
            start == 1 <==> (b@.len() > 0 && b@[0] == 43),
            start <= i <= b@.len(),
            d == b@.subrange(start as int, b@.len() as int),
            all_digits(b@.subrange(start as int, i as int)),
            acc as nat == if digits_value(b@.subrange(start as int, i as int)) < 256 {
                digits_value(b@.subrange(start as int, i as int))
            } else {
                256
            },
        decreases b@.len() - i,
    {
        let c = b[i];
        if c < 48 || c > 57 {
            assert(d[i - start] == c);
            assert(!all_digits(d));
            return None;
        }
        let ghost pre = b@.subrange(start as int, i as int);
        let ghost next = b@.subrange(start as int, i as int + 1);
        assert(next.drop_last() =~= pre);
        assert(all_digits(next)) by {
            assert forall|k: int| 0 <= k < next.len() implies 48 <= #[trigger] next[k] <= 57 by {
                if k < pre.len() {
                    assert(next[k] == pre[k]);
                }
            }
        }
        let v: u16 = acc * 10 + (c - 48) as u16;
        acc = if v > 256 {
            256
        } else {
            v
        };
        i = i + 1;
    }
    assert(b@.subrange(start as int, b@.len() as int) == d);
    if acc > 255 {
        None
    } else {
        Some(acc as u8)
    }
}

fn ends_with_json_exec(s: &str) -> (r: bool)
    ensures
        r == ends_with_json(encode_utf8(s@)),
{
    let b = s.as_bytes();
    let suffix: [u8; 5] = [46, 106, 115, 111, 110];
    assert(suffix@ =~= seq![46u8, 106, 115, 111, 110]);
    if b.len() < 5 {
        return false;
    }
    let len: usize = b.len();
    let base: usize = len - 5;
    let mut i: usize = 0;
    while i < 5
        invariant
            len == b@.len(),
            b@ == encode_utf8(s@),
            suffix@ == seq![46u8, 106, 115, 111, 110],
            base + 5 == b@.len(),
            i <= 5,
            forall|k: int| 0 <= k < i ==> b@[base + k] == suffix@[k],
        decreases 5 - i,
    {
        if b[base + i] != suffix[i] {
            assert(b@.subrange(base as int, b@.len() as int)[i as int] != suffix@[i as int]);
            return false;
        }
        i = i + 1;
    }
    assert(b@.subrange(base as int, b@.len() as int) =~= suffix@);
    true
}

/// Reads the arguments that follow the program name. The last one names the
/// output file when it ends in `.json` and at least two precede it; otherwise
/// the output goes to `calibration.json`.
pub fn parse_args(args: &Vec<String>) -> (r: Result<CalibrateArgs, UsageError>)
    ensures
        args@.len() < 2 ==> r == Err::<CalibrateArgs, UsageError>(UsageError::MissingIds),
        args@.len() >= 2 && (exists|k: int|
            1 <= k < ids_end(args@) && (#[trigger] decimal_u8(bytes_of(args@[k]))).is_none())
            ==> r == Err::<CalibrateArgs, UsageError>(UsageError::BadId),
        args@.len() >= 2 && (forall|k: int|
            1 <= k < ids_end(args@) ==> (#[trigger] decimal_u8(bytes_of(args@[k]))).is_some())
            ==> match r {
            Ok(a) => {
                &&& a.device@ == args@[0]@
                &&& a.ids@ == Seq::new(
                    (ids_end(args@) - 1) as nat,
                    |k: int| decimal_u8(bytes_of(args@[k + 1])).unwrap(),
                )
                &&& a.output@ == if names_output(args@) {
                    args@.last()@
                } else {
                    "calibration.json"@
                }
            },
            Err(_) => false,
        },
{
    if args.len() < 2 {
        return Err(UsageError::MissingIds);
    }
    let n = args.len();
    let split = n > 2 && ends_with_json_exec(args[n - 1].as_str());
    let end: usize = if split {
        n - 1
    } else {
        n
    };
    let mut ids: Vec<u8> = Vec::new();
    let mut i: usize = 1;
    while i < end
        invariant
            n == args@.len(),
            n >= 2,
            end as int == ids_end(args@),
            1 <= i <= end,
            ids@ == Seq::new(
                (i - 1) as nat,
                |k: int| decimal_u8(bytes_of(args@[k + 1])).unwrap(),
            ),
            forall|k: int| 1 <= k < i ==> (#[trigger] decimal_u8(bytes_of(args@[k]))).is_some(),
        decreases end - i,
    {
        match parse_id(args[i].as_str()) {
            Some(v) => {
                ids.push(v);
            },
            None => {
                assert(decimal_u8(bytes_of(args@[i as int])).is_none());
                return Err(UsageError::BadId);
            },
        }
        i = i + 1;
        assert(ids@ =~= Seq::new(
            (i - 1) as nat,
            |k: int| decimal_u8(bytes_of(args@[k + 1])).unwrap(),
        ));
    }
    let device = args[0].clone();
    let output = if split {
        args[n - 1].clone()
    } else {
        "calibration.json".to_owned()
    };
    Ok(CalibrateArgs { device, ids, output })
}

} // verus!
