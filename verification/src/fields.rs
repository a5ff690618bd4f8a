//! Reading the fields of a separated line: a field that is absent makes the
//! line malformed, one that is present but not a number fails with the
//! number's error.

use crate::errors::{float_fault, int_fault, Fault, LineFault, ParseError};
use crate::text::{bounds_within, pieces, spec_check_float, spec_parse_int};
use vstd::prelude::*;

verus! {

/// Reading the field `i` of `parts` as an integer in `[min, max]`.
pub open spec fn int_at(parts: Seq<Seq<char>>, i: int, min: int, max: int) -> Result<int, Fault> {
    if i >= parts.len() {
        Err(Fault::Malformed)
    } else {
        match spec_parse_int(parts[i], min, max) {
            Ok(n) => Ok(n),
            Err(k) => Err(int_fault(k)),
        }
    }
}

/// Reading the field `i` of `parts` as a floating-point number, kept as its
/// text.
pub open spec fn float_at(parts: Seq<Seq<char>>, i: int) -> Result<Seq<char>, Fault> {
    if i >= parts.len() {
        Err(Fault::Malformed)
    } else {
        match spec_check_float(parts[i]) {
            Ok(_) => Ok(parts[i]),
            Err(k) => Err(float_fault(k)),
        }
    }
}

/// Reads the field `i` of the line `v`, split into `parts`, as an integer in
/// `[min, max]`.
pub fn read_int_at(v: &Vec<char>, parts: &Vec<(usize, usize)>, i: usize, min: i128, max: i128) -> (r:
    Result<i128, LineFault>)
    requires
        bounds_within(parts@, v@.len()),
        -0x8000_0000_0000_0000 <= min <= 0 < max <= 0xffff_ffff_ffff_ffff,
    ensures
        match int_at(pieces(v@, parts@), i as int, min as int, max as int) {
            Ok(n) => r == Ok::<i128, LineFault>(n as i128) && min <= n <= max,
            Err(f) => r matches Err(g) && g.view() == f,
        },
{
    if i >= parts.len() {
        return Err(LineFault::Malformed);
    }
    let (lo, hi) = parts[i];
    assert(parts@[i as int].0 <= parts@[i as int].1 <= v@.len());
    assert(pieces(v@, parts@)[i as int] == v@.subrange(lo as int, hi as int));
    match crate::text::parse_int(v, lo, hi, min, max) {
        Ok(n) => Ok(n),
        Err(k) => Err(LineFault::Failed(ParseError::ParseInt(k))),
    }
}

/// Reads the field `i` of the line `v`, split into `parts`, as a
/// floating-point number: on success, the bounds of its text.
pub fn read_float_at(v: &Vec<char>, parts: &Vec<(usize, usize)>, i: usize) -> (r: Result<
    (usize, usize),
    LineFault,
>)
    requires
        bounds_within(parts@, v@.len()),
    ensures
        match float_at(pieces(v@, parts@), i as int) {
            Ok(t) => r matches Ok(b) && b.0 <= b.1 <= v@.len() && v@.subrange(b.0 as int, b.1 as int)
                == t,
            Err(f) => r matches Err(g) && g.view() == f,
        },
{
    if i >= parts.len() {
        return Err(LineFault::Malformed);
    }
    let (lo, hi) = parts[i];
    assert(parts@[i as int].0 <= parts@[i as int].1 <= v@.len());
    assert(pieces(v@, parts@)[i as int] == v@.subrange(lo as int, hi as int));
    match crate::text::check_float(v, lo, hi) {
        Ok(()) => Ok((lo, hi)),
        Err(k) => Err(LineFault::Failed(ParseError::ParseFloat(k))),
    }
}

} // verus!
