//! Mapping a value from one range onto another, for every type that can be
//! compared, added, subtracted, multiplied and divided.
use std::cmp::Ordering;
use std::ops::{Add, Div, Mul, Sub};
use vstd::prelude::*;
use vstd::std_specs::cmp::PartialOrdSpec;
use vstd::std_specs::ops::{AddSpec, DivSpec, MulSpec, SubSpec};

verus! {

/// The type does what its specifications of comparing and of the four
/// operations say.
pub open spec fn well_behaved<T>() -> bool where
    T: Copy + PartialOrd + Mul<Output = T> + Div<Output = T> + Add<Output = T> + Sub<Output = T>,
 {
    &&& T::obeys_partial_cmp_spec()
    &&& T::obeys_add_spec()
    &&& T::obeys_sub_spec()
    &&& T::obeys_mul_spec()
    &&& T::obeys_div_spec()
}

/// `a <= b` as the type compares.
pub open spec fn at_most<T: PartialOrd>(a: T, b: T) -> bool {
    a.partial_cmp_spec(&b) matches Some(Ordering::Less | Ordering::Equal)
}

/// `a >= b` as the type compares.
pub open spec fn at_least<T: PartialOrd>(a: T, b: T) -> bool {
    a.partial_cmp_spec(&b) matches Some(Ordering::Greater | Ordering::Equal)
}

/// The operations that `remap` does on a value within the source range are
/// all allowed.
pub open spec fn remap_allowed<T>(src: T, from: (T, T), to: (T, T)) -> bool where
    T: Copy + PartialOrd + Mul<Output = T> + Div<Output = T> + Add<Output = T> + Sub<Output = T>,
 {
    &&& src.sub_req(from.0)
    &&& from.1.sub_req(from.0)
    &&& src.sub_spec(from.0).div_req(from.1.sub_spec(from.0))
    &&& to.1.sub_req(to.0)
    &&& to.1.sub_spec(to.0).mul_req(src.sub_spec(from.0).div_spec(from.1.sub_spec(from.0)))
    &&& to.0.add_req(
        to.1.sub_spec(to.0).mul_spec(src.sub_spec(from.0).div_spec(from.1.sub_spec(from.0))),
    )
}

/// What `remap` returns: the low end of the target range for a value at or
/// below the source range, the high end for one at or above it, and in
/// between the low end plus the width of the target range times the part of
/// the source range that lies below the value.
pub open spec fn remapped<T>(src: T, from: (T, T), to: (T, T)) -> T where
    T: Copy + PartialOrd + Mul<Output = T> + Div<Output = T> + Add<Output = T> + Sub<Output = T>,
 {
    if at_most(src, from.0) {
        to.0
    } else if at_least(src, from.1) {
        to.1
    } else {
        to.0.add_spec(
            to.1.sub_spec(to.0).mul_spec(src.sub_spec(from.0).div_spec(from.1.sub_spec(from.0))),
        )
    }
}

/// Maps `src` from the range `from` onto the range `to`, each given by its
/// low and its high end. Values outside the source range go to the nearer
/// end of the target range.
pub fn remap<T>(src: T, from: (T, T), to: (T, T)) -> (r: T) where
    T: Copy + PartialOrd + Mul<Output = T> + Div<Output = T> + Add<Output = T> + Sub<Output = T>,

    requires
        well_behaved::<T>(),
        !at_most(src, from.0) && !at_least(src, from.1) ==> remap_allowed(src, from, to),
    ensures
        r == remapped(src, from, to),
{
    let (src_min, src_max) = from;
    let (dest_min, dest_max) = to;
    if src <= src_min {
        return dest_min;
    } else if src >= src_max {
        return dest_max;
    }
    let off = src - src_min;
    let off_pct = off / (src_max - src_min);

    let dest_range = dest_max - dest_min;

    dest_min + dest_range * off_pct
}

} // verus!
