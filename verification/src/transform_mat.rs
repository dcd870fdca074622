//! Placement of a node in space, and what a shape is made of.

use vstd::prelude::*;
use vstd::string::*;
use crate::datastructures::{Float, Vec3, constant, float_text, uniform, vec3_text};
use crate::decimal::{Decimal, whole};

verus! {

/// Where a node sits: moved by `position`, turned by `rotation`, sized by
/// `scale`.
#[derive(Clone, Copy, Debug)]
pub struct Transform {
    pub position: Vec3,
    pub rotation: Vec3,
    pub scale: Float,
}

/// Declares the local position `name` as a copy of `from`.
pub open spec fn declare_position_text(name: Seq<char>, from: Seq<char>) -> Seq<char> {
    "vec3 "@ + name + " = "@ + from + ";"@
}

/// Divides the position `name` by `by`.
pub open spec fn scale_text(name: Seq<char>, by: Float) -> Seq<char> {
    name + " /= "@ + float_text(by) + ";"@
}

/// Moves the position `name` by `by`, counted in units of `scale`.
pub open spec fn translate_text(name: Seq<char>, by: Vec3, scale: Float) -> Seq<char> {
    name + " = move("@ + name + ", "@ + vec3_text(by) + " * (1.0 / "@ + float_text(scale) + "));"@
}

/// Turns the position `name` by `by`.
pub open spec fn rotate_text(name: Seq<char>, by: Vec3) -> Seq<char> {
    name + " = rot3D("@ + name + ", "@ + vec3_text(by) + ");"@
}

/// The line that stands in for a translation that is left out.
pub open spec fn position_zero_text() -> Seq<char> {
    "//position zero"@
}

/// The line that stands in for a rotation that is left out.
pub open spec fn rotation_zero_text() -> Seq<char> {
    "//rotation zero"@
}

/// Corrects the distance held in `target` for the scale `by`.
pub open spec fn correction_text(target: Seq<char>, by: Float) -> Seq<char> {
    target + ".d = scale_correction("@ + target + ".d, "@ + float_text(by) + ");"@
}

/// The third line of a transform: the translation, or its stand-in.
pub open spec fn translate_or_skip_text(t: Transform, name: Seq<char>) -> Seq<char> {
    if t.position.nonzero() {
        translate_text(name, t.position, t.scale)
    } else {
        position_zero_text()
    }
}

/// The fourth line of a transform: the rotation, or its stand-in.
pub open spec fn rotate_or_skip_text(t: Transform, name: Seq<char>) -> Seq<char> {
    if t.rotation.nonzero() {
        rotate_text(name, t.rotation)
    } else {
        rotation_zero_text()
    }
}

/// The four lines that declare the position `name` from `from` and apply the
/// transform to it: scale, then translation, then rotation. A step that does
/// nothing keeps its line as a comment.
pub open spec fn transform_text(t: Transform, name: Seq<char>, from: Seq<char>) -> Seq<char> {
    declare_position_text(name, from) + "\n"@ + scale_text(name, t.scale) + "\n"@
        + translate_or_skip_text(t, name) + "\n"@ + rotate_or_skip_text(t, name) + "\n"@
}

/// The transform that changes nothing: no move, no turn, scale one.
pub open spec fn identity_transform() -> Transform {
    Transform {
        position: uniform(whole(0)),
        rotation: uniform(whole(0)),
        scale: constant(whole(1)),
    }
}

/// Appends the declaration of the position `name` to `out`.
pub fn write_declare_position(out: &mut String, name: &str, from: &str)
    ensures
        final(out)@ == old(out)@ + declare_position_text(name@, from@),
{
    let ghost start = out@;
    out.append("vec3 ");
    out.append(name);
    out.append(" = ");
    out.append(from);
    out.append(";");
    assert(out@ =~= start + declare_position_text(name@, from@));
}

/// Appends the scale step on the position `name` to `out`.
pub fn write_scale(out: &mut String, name: &str, by: &Float)
    ensures
        final(out)@ == old(out)@ + scale_text(name@, *by),
{
    let ghost start = out@;
    out.append(name);
    out.append(" /= ");
    by.write(out);
    out.append(";");
    assert(out@ =~= start + scale_text(name@, *by));
}

/// Appends the translation of the position `name` to `out`.
pub fn write_translate(out: &mut String, name: &str, by: &Vec3, scale: &Float)
    ensures
        final(out)@ == old(out)@ + translate_text(name@, *by, *scale),
{
    let ghost start = out@;
    out.append(name);
    out.append(" = move(");
    out.append(name);
    out.append(", ");
    by.write(out);
    out.append(" * (1.0 / ");
    scale.write(out);
    out.append("));");
    assert(out@ =~= start + translate_text(name@, *by, *scale));
}

/// Appends the rotation of the position `name` to `out`.
pub fn write_rotate(out: &mut String, name: &str, by: &Vec3)
    ensures
        final(out)@ == old(out)@ + rotate_text(name@, *by),
{
    let ghost start = out@;
    out.append(name);
    out.append(" = rot3D(");
    out.append(name);
    out.append(", ");
    by.write(out);
    out.append(");");
    assert(out@ =~= start + rotate_text(name@, *by));
}

/// Appends the distance correction on `target` to `out`.
pub fn write_correction(out: &mut String, target: &str, by: &Float)
    ensures
        final(out)@ == old(out)@ + correction_text(target@, *by),
{
    let ghost start = out@;
    out.append(target);
    out.append(".d = scale_correction(");
    out.append(target);
    out.append(".d, ");
    by.write(out);
    out.append(");");
    assert(out@ =~= start + correction_text(target@, *by));
}

impl Transform {
    /// The lines that declare the position `name` as a copy of
    /// `transform_reference` and apply this transform to it. The distance
    /// correction for the scale is not part of them: see `scale_correction`.
    pub fn comp_map(&self, name: &str, transform_reference: &str) -> (r: String)
        ensures
            r@ == transform_text(*self, name@, transform_reference@),
    {
        let mut out = String::new();
        write_declare_position(&mut out, name, transform_reference);
        out.append("\n");
        write_scale(&mut out, name, &self.scale);
        out.append("\n");
        if self.position.is_nonzero() {
            write_translate(&mut out, name, &self.position, &self.scale);
        } else {
            out.append("//position zero");
        }
        out.append("\n");
        if self.rotation.is_nonzero() {
            write_rotate(&mut out, name, &self.rotation);
        } else {
            out.append("//rotation zero");
        }
        out.append("\n");
        assert(out@ =~= transform_text(*self, name@, transform_reference@));
        out
    }

    /// The statement that corrects the distance held in `apply_to` for this
    /// transform's scale.
    pub fn scale_correction(&self, apply_to: &str) -> (r: String)
        ensures
            r@ == correction_text(apply_to@, self.scale),
    {
        let mut out = String::new();
        write_correction(&mut out, apply_to, &self.scale);
        assert(Seq::<char>::empty() + correction_text(apply_to@, self.scale) =~= correction_text(
            apply_to@,
            self.scale,
        ));
        out
    }

    /// The transform that changes nothing.
    pub fn identity() -> (t: Transform)
        ensures
            t == identity_transform(),
    {
        Transform {
            position: Vec3::new_from_f32(Decimal::whole(0)),
            rotation: Vec3::new_from_f32(Decimal::whole(0)),
            scale: Float::new(Decimal::whole(1)),
        }
    }
}

impl Default for Transform {
    /// Every scalar at its default, the constant one.
    fn default() -> (t: Transform)
        ensures
            t == (Transform {
                position: uniform(whole(1)),
                rotation: uniform(whole(1)),
                scale: constant(whole(1)),
            }),
    {
        Transform { position: Vec3::default(), rotation: Vec3::default(), scale: Float::default() }
    }
}

/// How the surface of a shape answers to light.
#[derive(Clone, Copy, Debug)]
pub struct Material {
    pub albedo: Vec3,
    pub emissive: Vec3,
    pub spec_chance: Float,
    pub spec_roughness: Float,
    pub index_of_reflection: Float,
    pub refraction_chance: Float,
    pub refraction_roughness: Float,
    pub refraction_color: Vec3,
}

/// A white, matt, opaque surface that gives off no light.
pub open spec fn default_material() -> Material {
    Material {
        albedo: uniform(whole(1)),
        emissive: uniform(whole(0)),
        spec_chance: constant(whole(0)),
        spec_roughness: constant(whole(0)),
        index_of_reflection: constant(whole(1)),
        refraction_chance: constant(whole(0)),
        refraction_roughness: constant(whole(0)),
        refraction_color: uniform(whole(1)),
    }
}

impl Default for Material {
    fn default() -> (m: Material)
        ensures
            m == default_material(),
    {
        Material {
            albedo: Vec3::new_from_f32(Decimal::whole(1)),
            emissive: Vec3::new_from_f32(Decimal::whole(0)),
            spec_chance: Float::new(Decimal::whole(0)),
            spec_roughness: Float::new(Decimal::whole(0)),
            index_of_reflection: Float::new(Decimal::whole(1)),
            refraction_chance: Float::new(Decimal::whole(0)),
            refraction_roughness: Float::new(Decimal::whole(0)),
            refraction_color: Vec3::new_from_f32(Decimal::whole(1)),
        }
    }
}

/// Whether the bounding volume of a node is worked out for it.
#[derive(Clone, Copy, Debug)]
pub struct Bounds {
    pub automatic: bool,
}

impl Default for Bounds {
    fn default() -> (b: Bounds)
        ensures
            b == (Bounds { automatic: true }),
    {
        Bounds { automatic: true }
    }
}

} // verus!
