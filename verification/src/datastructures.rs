//! Scalar values of a scene: constants, oscillators and three-vectors, each
//! able to write itself as a shader expression.

use vstd::prelude::*;
use vstd::string::*;
use crate::decimal::{Decimal, decimal_text, whole};

verus! {

/// An oscillator driven by the shader's clock: `amp * sin(freq * time + phase)`.
#[derive(Clone, Copy, Debug)]
pub struct Oss {
    pub freq: Decimal,
    pub amp: Decimal,
    pub phase: Decimal,
}

/// What a scalar is: a constant or an oscillator.
#[derive(Clone, Copy, Debug)]
pub enum FloatOrOss {
    Float(Decimal),
    Oss(Oss),
}

/// A scalar of the scene. The `id` names the slider that edits it and never
/// shows in the shader text.
#[derive(Clone, Copy, Debug)]
pub struct Float {
    pub val: FloatOrOss,
    pub id: u64,
}

/// The constant `val`, bound to no slider.
pub open spec fn constant(val: Decimal) -> Float {
    Float { val: FloatOrOss::Float(val), id: 0 }
}

/// The vector whose three components are the constant `val`.
pub open spec fn uniform(val: Decimal) -> Vec3 {
    Vec3 { x: constant(val), y: constant(val), z: constant(val) }
}

/// The shader expression of what a scalar is.
pub open spec fn value_text(val: FloatOrOss) -> Seq<char> {
    match val {
        FloatOrOss::Float(d) => "("@ + decimal_text(d) + ")"@,
        FloatOrOss::Oss(o) => "(("@ + decimal_text(o.amp) + ") * sin(("@ + decimal_text(o.freq)
            + ") * s.time + ("@ + decimal_text(o.phase) + ")))"@,
    }
}

/// The shader expression of a scalar.
pub open spec fn float_text(f: Float) -> Seq<char> {
    value_text(f.val)
}

impl Float {
    /// True for a constant other than zero. An oscillator never counts: a
    /// transform that rests on oscillators alone is left out of the shader.
    pub open spec fn nonzero(self) -> bool {
        match self.val {
            FloatOrOss::Float(d) => d.nonzero(),
            FloatOrOss::Oss(_) => false,
        }
    }

    /// Whether this scalar makes a transform step worth emitting, that is
    /// whether it is a constant other than zero.
    pub fn is_nonzero(&self) -> (r: bool)
        ensures
            r == self.nonzero(),
    {
        match self.val {
            FloatOrOss::Float(d) => d.is_nonzero(),
            FloatOrOss::Oss(_) => false,
        }
    }

    /// Answers as `is_nonzero` does: true exactly for a constant other than
    /// zero, which is where a transform step has to be emitted.
    pub fn is_zero(&self) -> (r: bool)
        ensures
            r == self.nonzero(),
    {
        self.is_nonzero()
    }

    /// Appends the shader expression of this scalar to `out`.
    pub fn write(&self, out: &mut String)
        ensures
            final(out)@ == old(out)@ + float_text(*self),
    {
        let ghost start = out@;
        match self.val {
            FloatOrOss::Float(d) => {
                out.append("(");
                d.write(out);
                out.append(")");
            },
            FloatOrOss::Oss(o) => {
                out.append("((");
                o.amp.write(out);
                out.append(") * sin((");
                o.freq.write(out);
                out.append(") * s.time + (");
                o.phase.write(out);
                out.append(")))");
            },
        }
        assert(out@ =~= start + float_text(*self));
    }

    /// The shader expression of this scalar.
    pub fn comp(&self) -> (r: String)
        ensures
            r@ == float_text(*self),
    {
        let mut out = String::new();
        self.write(&mut out);
        assert(Seq::<char>::empty() + float_text(*self) =~= float_text(*self));
        out
    }

    /// The constant `val`, bound to no slider.
    pub fn new(val: Decimal) -> (f: Float)
        ensures
            f == constant(val),
    {
        Float { val: FloatOrOss::Float(val), id: 0 }
    }
}

impl Default for Float {
    /// The constant one.
    fn default() -> (f: Float)
        ensures
            f == constant(whole(1)),
    {
        Float::new(Decimal::whole(1))
    }
}

/// Three scalars.
#[derive(Clone, Copy, Debug)]
pub struct Vec3 {
    pub x: Float,
    pub y: Float,
    pub z: Float,
}

/// The shader expression of a three-vector.
pub open spec fn vec3_text(v: Vec3) -> Seq<char> {
    "vec3("@ + float_text(v.x) + ", "@ + float_text(v.y) + ", "@ + float_text(v.z) + ")"@
}

impl Vec3 {
    /// True as soon as one component is a constant other than zero.
    pub open spec fn nonzero(self) -> bool {
        self.x.nonzero() || self.y.nonzero() || self.z.nonzero()
    }

    /// Whether any component is a constant other than zero.
    pub fn is_nonzero(&self) -> (r: bool)
        ensures
            r == self.nonzero(),
    {
        self.x.is_nonzero() || self.y.is_nonzero() || self.z.is_nonzero()
    }

    /// Answers as `is_nonzero` does: true as soon as one component is a
    /// constant other than zero.
    pub fn is_zero(&self) -> (r: bool)
        ensures
            r == self.nonzero(),
    {
        self.is_nonzero()
    }

    /// Appends the shader expression of this vector to `out`.
    pub fn write(&self, out: &mut String)
        ensures
            final(out)@ == old(out)@ + vec3_text(*self),
    {
        let ghost start = out@;
        out.append("vec3(");
        self.x.write(out);
        out.append(", ");
        self.y.write(out);
        out.append(", ");
        self.z.write(out);
        out.append(")");
        assert(out@ =~= start + vec3_text(*self));
    }

    /// The shader expression of this vector.
    pub fn comp(&self) -> (r: String)
        ensures
            r@ == vec3_text(*self),
    {
        let mut out = String::new();
        self.write(&mut out);
        assert(Seq::<char>::empty() + vec3_text(*self) =~= vec3_text(*self));
        out
    }

    /// The vector whose three components are the constant `val`.
    pub fn new_from_f32(val: Decimal) -> (v: Vec3)
        ensures
            v == uniform(val),
    {
        Vec3 { x: Float::new(val), y: Float::new(val), z: Float::new(val) }
    }

    /// The vector of the three constants `vals`.
    pub fn new(vals: [Decimal; 3]) -> (v: Vec3)
        ensures
            v == (Vec3 { x: constant(vals[0]), y: constant(vals[1]), z: constant(vals[2]) }),
    {
        Vec3 { x: Float::new(vals[0]), y: Float::new(vals[1]), z: Float::new(vals[2]) }
    }
}

impl Default for Vec3 {
    /// Three times the constant one.
    fn default() -> (v: Vec3)
        ensures
            v == uniform(whole(1)),
    {
        Vec3::new_from_f32(Decimal::whole(1))
    }
}

} // verus!
