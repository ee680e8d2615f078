//! Vectors and rotations, with the arithmetic that the controller does on
//! them.
//!
//! The components are binary32 values. Each operation is done component by
//! component, in the order written in its specification: every sum, product,
//! quotient and root in it is rounded on its own.
use crate::arith_laws::{lemma_product_of_zero, lemma_sum_with_zero};
use crate::single::{Single, ONE, ZERO};
use vstd::prelude::*;

verus! {

/// A point or direction in the ground plane.
#[derive(Clone, Copy, Debug, PartialEq)]
pub struct Vec2 {
    pub x: Single,
    pub y: Single,
}

/// A point or direction in space. The `y` axis points up.
#[derive(Clone, Copy, Debug, PartialEq)]
pub struct Vec3 {
    pub x: Single,
    pub y: Single,
    pub z: Single,
}

/// A rotation, as a quaternion.
#[derive(Clone, Copy, Debug, PartialEq)]
pub struct Quat {
    pub x: Single,
    pub y: Single,
    pub z: Single,
    pub w: Single,
}

/// Where an entity is and how it is turned.
#[derive(Clone, Copy, Debug, PartialEq)]
pub struct Transform {
    pub translation: Vec3,
    pub rotation: Quat,
}

impl Vec2 {
    /// The vector whose two components are positive zero.
    pub open spec fn zero() -> Vec2 {
        Vec2 { x: Single { bits: ZERO }, y: Single { bits: ZERO } }
    }

    /// The vector with the given components.
    pub fn new(x: Single, y: Single) -> (r: Vec2)
        ensures
            r == (Vec2 { x, y }),
    {
        Vec2 { x, y }
    }

    /// The sum of two vectors.
    pub open spec fn plus(self, rhs: Vec2) -> Vec2 {
        Vec2 { x: self.x.sum(rhs.x), y: self.y.sum(rhs.y) }
    }

    /// The vector with each component multiplied by `k`.
    pub open spec fn times(self, k: Single) -> Vec2 {
        Vec2 { x: self.x.product(k), y: self.y.product(k) }
    }

    /// The length of the vector: the root of the sum of the squares.
    pub open spec fn length_of(self) -> Single {
        self.x.product(self.x).sum(self.y.product(self.y)).root()
    }

    /// The vector brought to length one: multiplied by one over its length.
    pub open spec fn normalized(self) -> Vec2 {
        self.times((Single { bits: ONE }).quotient(self.length_of()))
    }

    /// The sum of two vectors.
    pub fn add(self, rhs: Vec2) -> (r: Vec2)
        ensures
            r == self.plus(rhs),
    {
        Vec2 { x: self.x.add(rhs.x), y: self.y.add(rhs.y) }
    }

    /// The vector with each component multiplied by `k`.
    pub fn scale(self, k: Single) -> (r: Vec2)
        ensures
            r == self.times(k),
    {
        Vec2 { x: self.x.mul(k), y: self.y.mul(k) }
    }

    /// The length of the vector.
    pub fn length(self) -> (r: Single)
        ensures
            r == self.length_of(),
    {
        self.x.mul(self.x).add(self.y.mul(self.y)).sqrt()
    }

    /// The vector brought to length one. A vector without a length, the
    /// zero vector, has no direction: its components come out as NaN.
    pub fn normalize(self) -> (r: Vec2)
        ensures
            r == self.normalized(),
    {
        self.scale(Single { bits: ONE }.div(self.length()))
    }

    /// Both components are zero, of either sign.
    pub open spec fn vanishes(self) -> bool {
        self.x.zero() && self.y.zero()
    }

    /// Whether the vector equals the zero vector, as binary32 values compare.
    pub fn is_zero(self) -> (r: bool)
        ensures
            r == self.vanishes(),
    {
        self.x.is_zero() && self.y.is_zero()
    }
}

impl Vec3 {
    /// The vector whose three components are positive zero.
    pub open spec fn zero() -> Vec3 {
        Vec3 { x: Single { bits: ZERO }, y: Single { bits: ZERO }, z: Single { bits: ZERO } }
    }

    /// The vector with the given components.
    pub fn new(x: Single, y: Single, z: Single) -> (r: Vec3)
        ensures
            r == (Vec3 { x, y, z }),
    {
        Vec3 { x, y, z }
    }

    /// The sum of two vectors.
    pub open spec fn plus(self, rhs: Vec3) -> Vec3 {
        Vec3 { x: self.x.sum(rhs.x), y: self.y.sum(rhs.y), z: self.z.sum(rhs.z) }
    }

    /// The difference of two vectors.
    pub open spec fn minus(self, rhs: Vec3) -> Vec3 {
        Vec3 {
            x: self.x.difference(rhs.x),
            y: self.y.difference(rhs.y),
            z: self.z.difference(rhs.z),
        }
    }

    /// The vector with each component multiplied by `k`.
    pub open spec fn times(self, k: Single) -> Vec3 {
        Vec3 { x: self.x.product(k), y: self.y.product(k), z: self.z.product(k) }
    }

    /// The length of the vector: the root of the sum of the squares, summed
    /// from the left.
    pub open spec fn length_of(self) -> Single {
        self.x.product(self.x).sum(self.y.product(self.y)).sum(self.z.product(self.z)).root()
    }

    /// The vector brought to length one: multiplied by one over its length.
    pub open spec fn normalized(self) -> Vec3 {
        self.times((Single { bits: ONE }).quotient(self.length_of()))
    }

    /// The cross product of two vectors.
    pub open spec fn crossed(self, rhs: Vec3) -> Vec3 {
        Vec3 {
            x: self.y.product(rhs.z).difference(self.z.product(rhs.y)),
            y: self.z.product(rhs.x).difference(self.x.product(rhs.z)),
            z: self.x.product(rhs.y).difference(self.y.product(rhs.x)),
        }
    }

    /// Every component is zero, of either sign.
    pub open spec fn vanishes(self) -> bool {
        self.x.zero() && self.y.zero() && self.z.zero()
    }

    /// The cross product of two vectors.
    pub fn cross(self, rhs: Vec3) -> (r: Vec3)
        ensures
            r == self.crossed(rhs),
    {
        Vec3 {
            x: self.y.mul(rhs.z).sub(self.z.mul(rhs.y)),
            y: self.z.mul(rhs.x).sub(self.x.mul(rhs.z)),
            z: self.x.mul(rhs.y).sub(self.y.mul(rhs.x)),
        }
    }

    /// The sum of two vectors.
    pub fn add(self, rhs: Vec3) -> (r: Vec3)
        ensures
            r == self.plus(rhs),
    {
        Vec3 { x: self.x.add(rhs.x), y: self.y.add(rhs.y), z: self.z.add(rhs.z) }
    }

    /// The difference of two vectors.
    pub fn sub(self, rhs: Vec3) -> (r: Vec3)
        ensures
            r == self.minus(rhs),
    {
        Vec3 { x: self.x.sub(rhs.x), y: self.y.sub(rhs.y), z: self.z.sub(rhs.z) }
    }

    /// The vector with each component multiplied by `k`.
    pub fn scale(self, k: Single) -> (r: Vec3)
        ensures
            r == self.times(k),
    {
        Vec3 { x: self.x.mul(k), y: self.y.mul(k), z: self.z.mul(k) }
    }

    /// The length of the vector.
    pub fn length(self) -> (r: Single)
        ensures
            r == self.length_of(),
    {
        self.x.mul(self.x).add(self.y.mul(self.y)).add(self.z.mul(self.z)).sqrt()
    }

    /// The vector brought to length one.
    pub fn normalize(self) -> (r: Vec3)
        ensures
            r == self.normalized(),
    {
        self.scale(Single { bits: ONE }.div(self.length()))
    }
}

/// An angle, given by its sine and its cosine. This library has no
/// trigonometry: where it turns something, it is told the two.
#[derive(Clone, Copy, Debug, PartialEq)]
pub struct Angle {
    pub sin: Single,
    pub cos: Single,
}

impl Angle {
    /// The angle a quarter turn back: its sine is the cosine negated, its
    /// cosine the sine.
    pub open spec fn quarter_back_of(self) -> Angle {
        Angle { sin: self.cos.negated(), cos: self.sin }
    }

    /// The angle less a quarter turn.
    pub fn quarter_back(self) -> (r: Angle)
        ensures
            r == self.quarter_back_of(),
    {
        Angle { sin: self.cos.neg(), cos: self.sin }
    }
}

/// A vector that can be rotated around its origin by some amount theta.
pub trait RotatableVector<RotateInput> {
    /// What `rotate_ang` returns.
    spec fn rotated(self, theta: RotateInput) -> Self where Self: Sized;

    /// The vector turned by `theta`.
    fn rotate_ang(self, theta: RotateInput) -> (r: Self) where Self: Sized
        ensures
            r == self.rotated(theta),
    ;
}

/// Turns a vector of the ground plane whose angle is counted from the `y`
/// axis towards the `x` axis: the vector at angle `phi` and length `r` goes
/// to `r` times the cosine and the sine of `phi + theta`. So the `y` axis
/// goes where a vector at angle `theta` counted from the `x` axis lies.
impl RotatableVector<Angle> for Vec2 {
    open spec fn rotated(self, theta: Angle) -> Vec2 {
        Vec2 {
            x: self.y.product(theta.cos).difference(self.x.product(theta.sin)),
            y: self.x.product(theta.cos).sum(self.y.product(theta.sin)),
        }
    }

    fn rotate_ang(self, theta: Angle) -> (r: Vec2) {
        Vec2 {
            x: self.y.mul(theta.cos).sub(self.x.mul(theta.sin)),
            y: self.x.mul(theta.cos).add(self.y.mul(theta.sin)),
        }
    }
}

/// Drops the height of a vector in space.
pub trait Vec3toVec2 {
    /// What `xz2` returns.
    spec fn xz2_of(self) -> Vec2;

    /// The ground-plane part of the vector: its `x`, and its `z` as the new `y`.
    fn xz2(self) -> (r: Vec2)
        ensures
            r == self.xz2_of(),
    ;
}

impl Vec3toVec2 for Vec3 {
    open spec fn xz2_of(self) -> Vec2 {
        Vec2 { x: self.x, y: self.z }
    }

    fn xz2(self) -> (r: Vec2) {
        Vec2 { x: self.x, y: self.z }
    }
}

/// Lays a ground-plane vector into space.
pub trait Vec2toVec3 {
    /// What `xz3_withy` returns.
    spec fn xz3_withy_of(self, y: Single) -> Vec3;

    /// The vector in space at height zero.
    fn xz3(self) -> (r: Vec3)
        ensures
            r == self.xz3_withy_of(Single { bits: ZERO }),
    ;

    /// The vector in space at height `y`: `x` stays, the old `y` becomes `z`.
    fn xz3_withy(self, y: Single) -> (r: Vec3)
        ensures
            r == self.xz3_withy_of(y),
    ;
}

impl Vec2toVec3 for Vec2 {
    open spec fn xz3_withy_of(self, y: Single) -> Vec3 {
        Vec3 { x: self.x, y, z: self.y }
    }

    fn xz3(self) -> (r: Vec3) {
        self.xz3_withy(Single { bits: ZERO })
    }

    fn xz3_withy(self, y: Single) -> (r: Vec3) {
        Vec3 { x: self.x, y, z: self.y }
    }
}

impl Vec2 {
    /// Both components are numbers.
    pub open spec fn finite(self) -> bool {
        self.x.finite() && self.y.finite()
    }

    /// The two vectors have the same components, as binary32 values compare.
    pub open spec fn same_values(self, rhs: Vec2) -> bool {
        self.x.same_value(rhs.x) && self.y.same_value(rhs.y)
    }
}

impl Vec3 {
    /// All components are numbers.
    pub open spec fn finite(self) -> bool {
        self.x.finite() && self.y.finite() && self.z.finite()
    }
}

/// The zero vector times a number is the zero vector.
pub proof fn lemma_zero_vector_times(v: Vec2, k: Single)
    requires
        v.vanishes(),
        k.finite(),
    ensures
        v.times(k).vanishes(),
{
    lemma_product_of_zero(v.x, k);
    lemma_product_of_zero(v.y, k);
}

/// The zero vector times a number is the zero vector, in space too.
pub proof fn lemma_zero_vector_times_3(v: Vec3, k: Single)
    requires
        v.vanishes(),
        k.finite(),
    ensures
        v.times(k).vanishes(),
{
    lemma_product_of_zero(v.x, k);
    lemma_product_of_zero(v.y, k);
    lemma_product_of_zero(v.z, k);
}

/// Adding the zero vector changes no value.
pub proof fn lemma_plus_zero_vector(v: Vec2, z: Vec2)
    requires
        v.finite(),
        z.vanishes(),
    ensures
        v.plus(z).same_values(v),
        v.vanishes() ==> v.plus(z).vanishes(),
{
    lemma_sum_with_zero(v.x, z.x);
    lemma_sum_with_zero(v.y, z.y);
}

/// The zero vector has length zero.
pub proof fn lemma_zero_vector_length(v: Vec2)
    requires
        v.vanishes(),
    ensures
        v.length_of() == (Single { bits: ZERO }),
{
    lemma_product_of_zero(v.x, v.x);
    lemma_product_of_zero(v.y, v.y);
    crate::ieee::lemma_scaled_of_zero(23);
    assert(v.x.product(v.x) == (Single { bits: ZERO }));
    assert(v.y.product(v.y) == (Single { bits: ZERO }));
}

/// Going up into space and back down gives the vector one started with.
pub proof fn lemma_xz_round_trip(v: Vec2, y: Single)
    ensures
        v.xz3_withy_of(y).xz2_of() == v,
{
}

} // verus!
