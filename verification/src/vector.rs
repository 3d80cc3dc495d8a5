//! Three-component vectors over [`Fixed`]: sum, scaling and scalar product.

use vstd::prelude::*;
use crate::fixed::{clamp, lemma_round_div_bounds, narrow, round_div, wide_product, Fixed, SCALE};

verus! {

/// A point or direction in space. A plain value: nothing holds between its components.
#[derive(Clone, Copy, Debug, PartialEq, Eq, Structural)]
pub struct Vector {
    pub x: Fixed,
    pub y: Fixed,
    pub z: Fixed,
}

impl Vector {
    /// The componentwise sum.
    pub open spec fn spec_sum(self, vect: Vector) -> Vector {
        Vector {
            x: self.x.spec_plus(vect.x),
            y: self.y.spec_plus(vect.y),
            z: self.z.spec_plus(vect.z),
        }
    }

    /// Every component multiplied by `coef`.
    pub open spec fn spec_mul(self, coef: Fixed) -> Vector {
        Vector {
            x: self.x.spec_times(coef),
            y: self.y.spec_times(coef),
            z: self.z.spec_times(coef),
        }
    }

    /// The three exact products added up, in units of `1 / SCALE^2`.
    pub open spec fn dot_wide(self, vect: Vector) -> int {
        self.x.raw * vect.x.raw + self.y.raw * vect.y.raw + self.z.raw * vect.z.raw
    }

    /// The scalar product: the exact sum of products, rounded once and saturated.
    pub open spec fn spec_scalar_prod(self, vect: Vector) -> Fixed {
        Fixed { raw: clamp(round_div(self.dot_wide(vect), SCALE as int)) as i64 }
    }

    pub fn new(x: Fixed, y: Fixed, z: Fixed) -> (v: Vector)
        ensures
            v == (Vector { x, y, z }),
    {
        Vector { x, y, z }
    }

    pub fn sum(self, vect: Vector) -> (r: Vector)
        ensures
            r == self.spec_sum(vect),
    {
        Vector { x: self.x.plus(vect.x), y: self.y.plus(vect.y), z: self.z.plus(vect.z) }
    }

    pub fn mul(self, coef: Fixed) -> (r: Vector)
        ensures
            r == self.spec_mul(coef),
    {
        Vector { x: self.x.times(coef), y: self.y.times(coef), z: self.z.times(coef) }
    }

    pub fn scalar_prod(&self, vect: Vector) -> (r: Fixed)
        ensures
            r == self.spec_scalar_prod(vect),
    {
        let px = wide_product(self.x.raw, vect.x.raw);
        let py = wide_product(self.y.raw, vect.y.raw);
        let pz = wide_product(self.z.raw, vect.z.raw);
        proof {
            lemma_round_div_bounds(self.dot_wide(vect), SCALE as int);
        }
        // A partial sum that leaves the wide range is so far out that the
        // remaining product cannot bring the total back below saturation.
        match px.checked_add(py) {
            None => Fixed { raw: if px > 0 { i64::MAX } else { i64::MIN } },
            Some(pxy) => match pxy.checked_add(pz) {
                None => Fixed { raw: if pz > 0 { i64::MAX } else { i64::MIN } },
                Some(total) => Fixed { raw: narrow(total) },
            },
        }
    }
}

} // verus!
