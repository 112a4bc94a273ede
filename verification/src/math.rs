use vstd::prelude::*;

verus! {

/// A 4-by-4 transform matrix with 64-bit integer entries.
///
/// Field `eRC` holds the entry at row `R`, column `C`. All matrix
/// arithmetic is two's-complement wrapping arithmetic, which agrees with
/// ordinary integer arithmetic whenever no intermediate value leaves the
/// `i64` range; wrapping keeps every operation total, so transforms can
/// be accumulated along arbitrarily deep scene graphs.
#[derive(Clone, Copy, Debug, PartialEq, Eq, Structural)]
pub struct Mat4 {
    pub e00: i64,
    pub e01: i64,
    pub e02: i64,
    pub e03: i64,
    pub e10: i64,
    pub e11: i64,
    pub e12: i64,
    pub e13: i64,
    pub e20: i64,
    pub e21: i64,
    pub e22: i64,
    pub e23: i64,
    pub e30: i64,
    pub e31: i64,
    pub e32: i64,
    pub e33: i64,
}

/// Determinant of the 2-by-2 matrix [[a, b], [c, d]].
#[verifier::opaque]
pub open spec fn det2(a: i64, b: i64, c: i64, d: i64) -> i64 {
    a.wrapping_mul(d).wrapping_sub(b.wrapping_mul(c))
}

/// Determinant of the 3-by-3 matrix with rows [a, b, c], [d, e, f], [g, h, i],
/// by cofactor expansion along the first row.
#[verifier::opaque]
pub open spec fn det3(a: i64, b: i64, c: i64, d: i64, e: i64, f: i64, g: i64, h: i64, i: i64) -> i64 {
    a.wrapping_mul(det2(e, f, h, i)).wrapping_sub(b.wrapping_mul(det2(d, f, g, i))).wrapping_add(c.wrapping_mul(det2(d, e, g, h)))
}

/// The matrix product `a * b` (row-by-column), entrywise in wrapping arithmetic.
#[verifier::opaque]
pub open spec fn mat4_mul(a: Mat4, b: Mat4) -> Mat4 {
    Mat4 {
        e00: a.e00.wrapping_mul(b.e00).wrapping_add(a.e01.wrapping_mul(b.e10)).wrapping_add(a.e02.wrapping_mul(b.e20)).wrapping_add(a.e03.wrapping_mul(b.e30)),
        e01: a.e00.wrapping_mul(b.e01).wrapping_add(a.e01.wrapping_mul(b.e11)).wrapping_add(a.e02.wrapping_mul(b.e21)).wrapping_add(a.e03.wrapping_mul(b.e31)),
        e02: a.e00.wrapping_mul(b.e02).wrapping_add(a.e01.wrapping_mul(b.e12)).wrapping_add(a.e02.wrapping_mul(b.e22)).wrapping_add(a.e03.wrapping_mul(b.e32)),
        e03: a.e00.wrapping_mul(b.e03).wrapping_add(a.e01.wrapping_mul(b.e13)).wrapping_add(a.e02.wrapping_mul(b.e23)).wrapping_add(a.e03.wrapping_mul(b.e33)),
        e10: a.e10.wrapping_mul(b.e00).wrapping_add(a.e11.wrapping_mul(b.e10)).wrapping_add(a.e12.wrapping_mul(b.e20)).wrapping_add(a.e13.wrapping_mul(b.e30)),
        e11: a.e10.wrapping_mul(b.e01).wrapping_add(a.e11.wrapping_mul(b.e11)).wrapping_add(a.e12.wrapping_mul(b.e21)).wrapping_add(a.e13.wrapping_mul(b.e31)),
        e12: a.e10.wrapping_mul(b.e02).wrapping_add(a.e11.wrapping_mul(b.e12)).wrapping_add(a.e12.wrapping_mul(b.e22)).wrapping_add(a.e13.wrapping_mul(b.e32)),
        e13: a.e10.wrapping_mul(b.e03).wrapping_add(a.e11.wrapping_mul(b.e13)).wrapping_add(a.e12.wrapping_mul(b.e23)).wrapping_add(a.e13.wrapping_mul(b.e33)),
        e20: a.e20.wrapping_mul(b.e00).wrapping_add(a.e21.wrapping_mul(b.e10)).wrapping_add(a.e22.wrapping_mul(b.e20)).wrapping_add(a.e23.wrapping_mul(b.e30)),
        e21: a.e20.wrapping_mul(b.e01).wrapping_add(a.e21.wrapping_mul(b.e11)).wrapping_add(a.e22.wrapping_mul(b.e21)).wrapping_add(a.e23.wrapping_mul(b.e31)),
        e22: a.e20.wrapping_mul(b.e02).wrapping_add(a.e21.wrapping_mul(b.e12)).wrapping_add(a.e22.wrapping_mul(b.e22)).wrapping_add(a.e23.wrapping_mul(b.e32)),
        e23: a.e20.wrapping_mul(b.e03).wrapping_add(a.e21.wrapping_mul(b.e13)).wrapping_add(a.e22.wrapping_mul(b.e23)).wrapping_add(a.e23.wrapping_mul(b.e33)),
        e30: a.e30.wrapping_mul(b.e00).wrapping_add(a.e31.wrapping_mul(b.e10)).wrapping_add(a.e32.wrapping_mul(b.e20)).wrapping_add(a.e33.wrapping_mul(b.e30)),
        e31: a.e30.wrapping_mul(b.e01).wrapping_add(a.e31.wrapping_mul(b.e11)).wrapping_add(a.e32.wrapping_mul(b.e21)).wrapping_add(a.e33.wrapping_mul(b.e31)),
        e32: a.e30.wrapping_mul(b.e02).wrapping_add(a.e31.wrapping_mul(b.e12)).wrapping_add(a.e32.wrapping_mul(b.e22)).wrapping_add(a.e33.wrapping_mul(b.e32)),
        e33: a.e30.wrapping_mul(b.e03).wrapping_add(a.e31.wrapping_mul(b.e13)).wrapping_add(a.e32.wrapping_mul(b.e23)).wrapping_add(a.e33.wrapping_mul(b.e33)),
    }
}

/// The identity matrix.
#[verifier::opaque]
pub open spec fn mat4_identity() -> Mat4 {
    Mat4 {
        e00: 1,
        e01: 0,
        e02: 0,
        e03: 0,
        e10: 0,
        e11: 1,
        e12: 0,
        e13: 0,
        e20: 0,
        e21: 0,
        e22: 1,
        e23: 0,
        e30: 0,
        e31: 0,
        e32: 0,
        e33: 1,
    }
}

/// Determinant of `m`, by cofactor expansion along the first row.
#[verifier::opaque]
pub open spec fn mat4_det(m: Mat4) -> i64 {
    m.e00.wrapping_mul(det3(m.e11, m.e12, m.e13, m.e21, m.e22, m.e23, m.e31, m.e32, m.e33)).wrapping_sub(m.e01.wrapping_mul(det3(m.e10, m.e12, m.e13, m.e20, m.e22, m.e23, m.e30, m.e32, m.e33))).wrapping_add(m.e02.wrapping_mul(det3(m.e10, m.e11, m.e13, m.e20, m.e21, m.e23, m.e30, m.e31, m.e33))).wrapping_sub(m.e03.wrapping_mul(det3(m.e10, m.e11, m.e12, m.e20, m.e21, m.e22, m.e30, m.e31, m.e32)))
}

/// The adjugate of `m`: entry (r, c) is the cofactor of entry (c, r) of `m`.
/// `m` multiplied by its adjugate equals its determinant times the identity,
/// so adjugate over determinant is the exact inverse whenever the
/// determinant is nonzero.
#[verifier::opaque]
pub open spec fn mat4_adjugate(m: Mat4) -> Mat4 {
    Mat4 {
        e00: det3(m.e11, m.e12, m.e13, m.e21, m.e22, m.e23, m.e31, m.e32, m.e33),
        e01: 0i64.wrapping_sub(det3(m.e01, m.e02, m.e03, m.e21, m.e22, m.e23, m.e31, m.e32, m.e33)),
        e02: det3(m.e01, m.e02, m.e03, m.e11, m.e12, m.e13, m.e31, m.e32, m.e33),
        e03: 0i64.wrapping_sub(det3(m.e01, m.e02, m.e03, m.e11, m.e12, m.e13, m.e21, m.e22, m.e23)),
        e10: 0i64.wrapping_sub(det3(m.e10, m.e12, m.e13, m.e20, m.e22, m.e23, m.e30, m.e32, m.e33)),
        e11: det3(m.e00, m.e02, m.e03, m.e20, m.e22, m.e23, m.e30, m.e32, m.e33),
        e12: 0i64.wrapping_sub(det3(m.e00, m.e02, m.e03, m.e10, m.e12, m.e13, m.e30, m.e32, m.e33)),
        e13: det3(m.e00, m.e02, m.e03, m.e10, m.e12, m.e13, m.e20, m.e22, m.e23),
        e20: det3(m.e10, m.e11, m.e13, m.e20, m.e21, m.e23, m.e30, m.e31, m.e33),
        e21: 0i64.wrapping_sub(det3(m.e00, m.e01, m.e03, m.e20, m.e21, m.e23, m.e30, m.e31, m.e33)),
        e22: det3(m.e00, m.e01, m.e03, m.e10, m.e11, m.e13, m.e30, m.e31, m.e33),
        e23: 0i64.wrapping_sub(det3(m.e00, m.e01, m.e03, m.e10, m.e11, m.e13, m.e20, m.e21, m.e23)),
        e30: 0i64.wrapping_sub(det3(m.e10, m.e11, m.e12, m.e20, m.e21, m.e22, m.e30, m.e31, m.e32)),
        e31: det3(m.e00, m.e01, m.e02, m.e20, m.e21, m.e22, m.e30, m.e31, m.e32),
        e32: 0i64.wrapping_sub(det3(m.e00, m.e01, m.e02, m.e10, m.e11, m.e12, m.e30, m.e31, m.e32)),
        e33: det3(m.e00, m.e01, m.e02, m.e10, m.e11, m.e12, m.e20, m.e21, m.e22),
    }
}

/// A matrix of exact rational entries with one shared denominator:
/// the matrix value is `mat / den`, entrywise.
#[derive(Clone, Copy, Debug, PartialEq, Eq, Structural)]
pub struct ScaledMat4 {
    pub mat: Mat4,
    pub den: i64,
}

impl Mat4 {
    /// The identity matrix.
    pub fn identity() -> (r: Mat4)
        ensures
            r == mat4_identity(),
    {
        proof {
            reveal(mat4_identity);
        }
        Mat4 {
            e00: 1,
            e01: 0,
            e02: 0,
            e03: 0,
            e10: 0,
            e11: 1,
            e12: 0,
            e13: 0,
            e20: 0,
            e21: 0,
            e22: 1,
            e23: 0,
            e30: 0,
            e31: 0,
            e32: 0,
            e33: 1,
        }
    }

    /// The matrix product `self * other`.
    pub fn mul(&self, other: &Mat4) -> (r: Mat4)
        ensures
            r == mat4_mul(*self, *other),
    {
        proof {
            reveal(mat4_mul);
        }
        Mat4 {
            e00: self.e00.wrapping_mul(other.e00).wrapping_add(self.e01.wrapping_mul(other.e10)).wrapping_add(self.e02.wrapping_mul(other.e20)).wrapping_add(self.e03.wrapping_mul(other.e30)),
            e01: self.e00.wrapping_mul(other.e01).wrapping_add(self.e01.wrapping_mul(other.e11)).wrapping_add(self.e02.wrapping_mul(other.e21)).wrapping_add(self.e03.wrapping_mul(other.e31)),
            e02: self.e00.wrapping_mul(other.e02).wrapping_add(self.e01.wrapping_mul(other.e12)).wrapping_add(self.e02.wrapping_mul(other.e22)).wrapping_add(self.e03.wrapping_mul(other.e32)),
            e03: self.e00.wrapping_mul(other.e03).wrapping_add(self.e01.wrapping_mul(other.e13)).wrapping_add(self.e02.wrapping_mul(other.e23)).wrapping_add(self.e03.wrapping_mul(other.e33)),
            e10: self.e10.wrapping_mul(other.e00).wrapping_add(self.e11.wrapping_mul(other.e10)).wrapping_add(self.e12.wrapping_mul(other.e20)).wrapping_add(self.e13.wrapping_mul(other.e30)),
            e11: self.e10.wrapping_mul(other.e01).wrapping_add(self.e11.wrapping_mul(other.e11)).wrapping_add(self.e12.wrapping_mul(other.e21)).wrapping_add(self.e13.wrapping_mul(other.e31)),
            e12: self.e10.wrapping_mul(other.e02).wrapping_add(self.e11.wrapping_mul(other.e12)).wrapping_add(self.e12.wrapping_mul(other.e22)).wrapping_add(self.e13.wrapping_mul(other.e32)),
            e13: self.e10.wrapping_mul(other.e03).wrapping_add(self.e11.wrapping_mul(other.e13)).wrapping_add(self.e12.wrapping_mul(other.e23)).wrapping_add(self.e13.wrapping_mul(other.e33)),
            e20: self.e20.wrapping_mul(other.e00).wrapping_add(self.e21.wrapping_mul(other.e10)).wrapping_add(self.e22.wrapping_mul(other.e20)).wrapping_add(self.e23.wrapping_mul(other.e30)),
            e21: self.e20.wrapping_mul(other.e01).wrapping_add(self.e21.wrapping_mul(other.e11)).wrapping_add(self.e22.wrapping_mul(other.e21)).wrapping_add(self.e23.wrapping_mul(other.e31)),
            e22: self.e20.wrapping_mul(other.e02).wrapping_add(self.e21.wrapping_mul(other.e12)).wrapping_add(self.e22.wrapping_mul(other.e22)).wrapping_add(self.e23.wrapping_mul(other.e32)),
            e23: self.e20.wrapping_mul(other.e03).wrapping_add(self.e21.wrapping_mul(other.e13)).wrapping_add(self.e22.wrapping_mul(other.e23)).wrapping_add(self.e23.wrapping_mul(other.e33)),
            e30: self.e30.wrapping_mul(other.e00).wrapping_add(self.e31.wrapping_mul(other.e10)).wrapping_add(self.e32.wrapping_mul(other.e20)).wrapping_add(self.e33.wrapping_mul(other.e30)),
            e31: self.e30.wrapping_mul(other.e01).wrapping_add(self.e31.wrapping_mul(other.e11)).wrapping_add(self.e32.wrapping_mul(other.e21)).wrapping_add(self.e33.wrapping_mul(other.e31)),
            e32: self.e30.wrapping_mul(other.e02).wrapping_add(self.e31.wrapping_mul(other.e12)).wrapping_add(self.e32.wrapping_mul(other.e22)).wrapping_add(self.e33.wrapping_mul(other.e32)),
            e33: self.e30.wrapping_mul(other.e03).wrapping_add(self.e31.wrapping_mul(other.e13)).wrapping_add(self.e32.wrapping_mul(other.e23)).wrapping_add(self.e33.wrapping_mul(other.e33)),
        }
    }

    /// Determinant of `self`.
    pub fn det(&self) -> (r: i64)
        ensures
            r == mat4_det(*self),
    {
        proof {
            reveal(mat4_det);
        }
        self.e00.wrapping_mul(det3_exec(self.e11, self.e12, self.e13, self.e21, self.e22, self.e23, self.e31, self.e32, self.e33)).wrapping_sub(self.e01.wrapping_mul(det3_exec(self.e10, self.e12, self.e13, self.e20, self.e22, self.e23, self.e30, self.e32, self.e33))).wrapping_add(self.e02.wrapping_mul(det3_exec(self.e10, self.e11, self.e13, self.e20, self.e21, self.e23, self.e30, self.e31, self.e33))).wrapping_sub(self.e03.wrapping_mul(det3_exec(self.e10, self.e11, self.e12, self.e20, self.e21, self.e22, self.e30, self.e31, self.e32)))
    }

    /// The exact inverse of `self` as a rational matrix: the adjugate of
    /// `self` over its determinant. Whenever the determinant is nonzero,
    /// `r.mat / r.den` times `self` is the identity; a zero determinant
    /// means `self` has no inverse, which the caller can see from `r.den`.
    pub fn inverted(&self) -> (r: ScaledMat4)
        ensures
            r.mat == mat4_adjugate(*self),
            r.den == mat4_det(*self),
    {
        proof {
            reveal(mat4_adjugate);
        }
        ScaledMat4 {
            mat: Mat4 {
                e00: det3_exec(self.e11, self.e12, self.e13, self.e21, self.e22, self.e23, self.e31, self.e32, self.e33),
                e01: 0i64.wrapping_sub(det3_exec(self.e01, self.e02, self.e03, self.e21, self.e22, self.e23, self.e31, self.e32, self.e33)),
                e02: det3_exec(self.e01, self.e02, self.e03, self.e11, self.e12, self.e13, self.e31, self.e32, self.e33),
                e03: 0i64.wrapping_sub(det3_exec(self.e01, self.e02, self.e03, self.e11, self.e12, self.e13, self.e21, self.e22, self.e23)),
                e10: 0i64.wrapping_sub(det3_exec(self.e10, self.e12, self.e13, self.e20, self.e22, self.e23, self.e30, self.e32, self.e33)),
                e11: det3_exec(self.e00, self.e02, self.e03, self.e20, self.e22, self.e23, self.e30, self.e32, self.e33),
                e12: 0i64.wrapping_sub(det3_exec(self.e00, self.e02, self.e03, self.e10, self.e12, self.e13, self.e30, self.e32, self.e33)),
                e13: det3_exec(self.e00, self.e02, self.e03, self.e10, self.e12, self.e13, self.e20, self.e22, self.e23),
                e20: det3_exec(self.e10, self.e11, self.e13, self.e20, self.e21, self.e23, self.e30, self.e31, self.e33),
                e21: 0i64.wrapping_sub(det3_exec(self.e00, self.e01, self.e03, self.e20, self.e21, self.e23, self.e30, self.e31, self.e33)),
                e22: det3_exec(self.e00, self.e01, self.e03, self.e10, self.e11, self.e13, self.e30, self.e31, self.e33),
                e23: 0i64.wrapping_sub(det3_exec(self.e00, self.e01, self.e03, self.e10, self.e11, self.e13, self.e20, self.e21, self.e23)),
                e30: 0i64.wrapping_sub(det3_exec(self.e10, self.e11, self.e12, self.e20, self.e21, self.e22, self.e30, self.e31, self.e32)),
                e31: det3_exec(self.e00, self.e01, self.e02, self.e20, self.e21, self.e22, self.e30, self.e31, self.e32),
                e32: 0i64.wrapping_sub(det3_exec(self.e00, self.e01, self.e02, self.e10, self.e11, self.e12, self.e30, self.e31, self.e32)),
                e33: det3_exec(self.e00, self.e01, self.e02, self.e10, self.e11, self.e12, self.e20, self.e21, self.e22),
            },
            den: self.det(),
        }
    }
}

/// Determinant of the 2-by-2 matrix [[a, b], [c, d]].
pub fn det2_exec(a: i64, b: i64, c: i64, d: i64) -> (r: i64)
    ensures
        r == det2(a, b, c, d),
{
    proof {
        reveal(det2);
    }
    a.wrapping_mul(d).wrapping_sub(b.wrapping_mul(c))
}

/// Determinant of the 3-by-3 matrix with rows [a, b, c], [d, e, f], [g, h, i].
pub fn det3_exec(a: i64, b: i64, c: i64, d: i64, e: i64, f: i64, g: i64, h: i64, i: i64) -> (r: i64)
    ensures
        r == det3(a, b, c, d, e, f, g, h, i),
{
    proof {
        reveal(det3);
    }
    a.wrapping_mul(det2_exec(e, f, h, i)).wrapping_sub(b.wrapping_mul(det2_exec(d, f, g, i))).wrapping_add(c.wrapping_mul(det2_exec(d, e, g, h)))
}

} // verus!
