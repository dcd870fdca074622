//! Lowering a scene tree into shader source.
//!
//! Every node becomes a block of statements that works on locals named after
//! the node's depth and its place among its siblings. A block declares its own
//! sampling position from its parent's, applies its transform, computes its
//! distance, corrects it for scale and folds it into its parent's accumulator
//! with the parent's operator.

use vstd::prelude::*;
use vstd::string::*;
use crate::datastructures::{Float, constant};
use crate::decimal::{Decimal, whole};
use crate::ident::{Ident, Role, top_accumulator};
use crate::layer::{
    Combination,
    CombinationType,
    Layer,
    LayerView,
    SDF,
    SceneError,
    SdfView,
    all_supported,
    layer_views,
    lemma_tallest_bounds,
    lemma_union_view,
    tallest,
};
use crate::stmt::{
    Line,
    LineView,
    Remark,
    Stmt,
    StmtView,
    line_views,
    lines_text,
    write_lines,
};
use crate::transform_mat::Transform;

verus! {

/// The deepest scene tree that is lowered.
pub const DEPTH_LIMIT: u64 = 4294967295;

/// What a node is told about the place it is lowered into.
#[derive(Clone, Copy, Debug)]
pub struct Parcel {
    /// The accumulator of the parent.
    pub upper_union: Ident,
    /// How the parent joins its children.
    pub upper_union_comb: Combination,
    /// The sampling position of the parent; `None` above the root.
    pub upper_transform: Option<Ident>,
    /// The depth of the node, one for the root.
    pub depth: u64,
    /// The place of the node among its siblings.
    pub u_index: u64,
}

impl Parcel {
    /// The local that holds the node's own result.
    pub open spec fn result(self, role: Role) -> Ident {
        Ident { depth: self.depth, index: self.u_index, role }
    }

    /// The local that holds the node's sampling position.
    pub open spec fn position(self) -> Ident {
        Ident { depth: self.depth, index: self.u_index, role: Role::Position }
    }

    /// The indentation of the braces of the node's block.
    pub open spec fn outer(self) -> u64 {
        (2 * self.depth - 1) as u64
    }

    /// The indentation of the statements inside the node's block.
    pub open spec fn inner(self) -> u64 {
        (2 * self.depth) as u64
    }

    /// What the child at place `index` of a union is told, where the union
    /// itself was told `self` and joins its children by `combination`.
    pub open spec fn child(self, combination: Combination, index: nat) -> Parcel {
        Parcel {
            upper_union: self.result(Role::Accumulator),
            upper_union_comb: combination,
            upper_transform: Some(self.position()),
            depth: (self.depth + 1) as u64,
            u_index: index as u64,
        }
    }
}

/// What the root of a scene tree is told: it folds into the accumulator that
/// `map` declares, by a plain union, and samples the position that `map` was
/// called with.
pub open spec fn root_parcel() -> Parcel {
    Parcel {
        upper_union: top_accumulator(),
        upper_union_comb: Combination { comb: CombinationType::Union, strength: constant(whole(0)) },
        upper_transform: None,
        depth: 1,
        u_index: 0,
    }
}

/// The statement that folds `name` into `into` under `c`.
pub open spec fn join_stmt(c: Combination, name: Ident, into: Ident) -> StmtView {
    if c.comb == CombinationType::SmoothUnion {
        StmtView::SmoothUnion { name, into, strength: c.strength }
    } else {
        StmtView::Union { name, into }
    }
}

/// The statement for the translation of `t`, or its stand-in where the
/// position has no component that is a constant other than zero.
pub open spec fn translate_stmt(t: Transform, name: Ident) -> StmtView {
    if t.position.nonzero() {
        StmtView::Translate { name, by: t.position, scale: t.scale }
    } else {
        StmtView::PositionZero
    }
}

/// The statement for the rotation of `t`, or its stand-in where the rotation
/// has no component that is a constant other than zero.
pub open spec fn rotate_stmt(t: Transform, name: Ident) -> StmtView {
    if t.rotation.nonzero() {
        StmtView::Rotate { name, by: t.rotation }
    } else {
        StmtView::RotationZero
    }
}

/// The four lines that set up a node's sampling position: the declaration,
/// the scale, the translation and the rotation, in this order.
pub open spec fn transform_lines(t: Transform, p: Parcel) -> Seq<LineView> {
    seq![
        LineView {
            indent: p.inner(),
            stmt: StmtView::DeclarePosition { name: p.position(), from: p.upper_transform },
        },
        LineView { indent: p.inner(), stmt: StmtView::Scale { name: p.position(), by: t.scale } },
        LineView { indent: p.inner(), stmt: translate_stmt(t, p.position()) },
        LineView { indent: p.inner(), stmt: rotate_stmt(t, p.position()) },
    ]
}

/// The two lines that end a node's work: the distance correction for its
/// scale, then the fold into the parent's accumulator by the parent's operator.
pub open spec fn cleanup_lines(t: Transform, p: Parcel, role: Role) -> Seq<LineView> {
    seq![
        LineView { indent: p.inner(), stmt: StmtView::Remark(Remark::Cleanup) },
        LineView { indent: p.inner(), stmt: StmtView::Correct { name: p.result(role), by: t.scale } },
        LineView {
            indent: p.inner(),
            stmt: join_stmt(p.upper_union_comb, p.result(role), p.upper_union),
        },
        LineView { indent: p.outer(), stmt: StmtView::Close },
    ]
}

/// The block of a shape.
pub open spec fn shape_lines(t: Transform, sdf: SdfView, p: Parcel) -> Seq<LineView> {
    seq![
        LineView { indent: p.outer(), stmt: StmtView::Remark(Remark::Shape) },
        LineView { indent: p.outer(), stmt: StmtView::Open },
    ] + transform_lines(t, p) + seq![
        LineView {
            indent: p.inner(),
            stmt: StmtView::Evaluate { name: p.result(Role::Shape), at: p.position(), sdf },
        },
    ] + cleanup_lines(t, p, Role::Shape)
}

/// The lines of a union's block that come before its children.
pub open spec fn union_head(t: Transform, p: Parcel) -> Seq<LineView> {
    seq![
        LineView { indent: p.outer(), stmt: StmtView::Remark(Remark::Union) },
        LineView { indent: p.outer(), stmt: StmtView::Open },
        LineView { indent: p.inner(), stmt: StmtView::Remark(Remark::InitAndTransform) },
        LineView {
            indent: p.inner(),
            stmt: StmtView::InitAccumulator {
                name: p.result(Role::Accumulator),
                from: p.upper_union,
            },
        },
    ] + transform_lines(t, p) + seq![
        LineView { indent: p.inner(), stmt: StmtView::Remark(Remark::Children) },
        LineView { indent: p.inner(), stmt: StmtView::Open },
    ]
}

/// The lines of a union's block that come after its children.
pub open spec fn union_tail(t: Transform, p: Parcel) -> Seq<LineView> {
    seq![LineView { indent: p.inner(), stmt: StmtView::Close }] + cleanup_lines(
        t,
        p,
        Role::Accumulator,
    )
}

/// The lines that a node lowers to, where it is told `p`.
pub open spec fn lower(layer: LayerView, p: Parcel) -> Seq<LineView>
    decreases layer, 0nat,
{
    match layer {
        LayerView::Shape { transform, sdf, .. } => shape_lines(transform, sdf, p),
        LayerView::Union { transform, combination, children, .. } => union_head(transform, p)
            + lower_children(children, p, combination, children.len()) + union_tail(transform, p),
    }
}

/// The lines of the first `upto` children of a union that was told `p` and
/// joins its children by `combination`.
pub open spec fn lower_children(
    children: Seq<LayerView>,
    p: Parcel,
    combination: Combination,
    upto: nat,
) -> Seq<LineView>
    decreases children, upto,
{
    if upto == 0 || upto > children.len() {
        Seq::empty()
    } else {
        lower_children(children, p, combination, (upto - 1) as nat) + lower(
            children[upto - 1],
            p.child(combination, (upto - 1) as nat),
        )
    }
}

/// The opening of `map`: the accumulator that every node folds into, seeded
/// with a distance beyond any scene, and the position to sample.
pub open spec fn map_head() -> Seq<char> {
    "Hit map(vec3 p_in) {\n\t// init\n\tHit d0u0 = Hit(100000.0);\n\tvec3 t = p_in;\n\n\t// start\n"@
}

/// The end of `map`: the accumulator is the answer.
pub open spec fn map_tail() -> Seq<char> {
    "\n\treturn d0u0;\n}\n"@
}

/// The marching loop, the same for every scene: it steps along the ray by the
/// distance that `map` returns until it is close enough or too far.
pub open spec fn cast_ray_text() -> Seq<char> {
    "\nHit cast_ray(Ray ray) {\n\tfloat t = 0.0;\n\tfor (int i = 0; i < s.steps_per_ray; i++) {\n\t\tvec3 p = ray.ro + ray.rd * t;\n\t\tHit hit = map(p);\n\t\tt += hit.d;\n\n\t\tif (hit.d < MHD) break;\n\t\tif (t > FP) break;\n\t}\n\treturn Hit(t);\n}\n"@
}

/// The shader source of a scene tree: `map`, whose body is the lowered tree,
/// and `cast_ray`.
pub open spec fn source_text(tree: LayerView) -> Seq<char> {
    map_head() + lines_text(lower(tree, root_parcel())) + map_tail() + cast_ray_text()
}

/// The ways in which lowering is carried out.
#[derive(Clone, Copy, Debug, PartialEq, Eq, Structural)]
pub enum PassType {
    /// Every node is evaluated for every sample.
    BruteForce,
    AABB,
    BitwiseAABB,
    SmartAABB,
}

/// The settings of a pass.
#[derive(Clone, Copy, Debug, PartialEq, Eq, Structural)]
pub struct PassOptions {
    pub pass_type: PassType,
}

/// A scene tree together with the way to lower it.
pub struct Passer<'a> {
    pub contents: &'a Layer,
    pub pass_options: PassOptions,
}

/// Appends one line to `out`.
fn push_line(out: &mut Vec<Line>, indent: u64, stmt: Stmt)
    ensures
        line_views(final(out)@) == line_views(old(out)@).push(LineView { indent, stmt: stmt@ }),
{
    out.push(Line { indent, stmt });
    assert(line_views(out@) =~= line_views(old(out)@).push(LineView { indent, stmt: stmt@ }));
}

/// Appends the four lines that set up a node's sampling position.
fn push_transform(out: &mut Vec<Line>, t: &Transform, p: &Parcel)
    requires
        1 <= p.depth <= DEPTH_LIMIT,
    ensures
        line_views(final(out)@) == line_views(old(out)@) + transform_lines(*t, *p),
{
    let inner: u64 = 2 * p.depth;
    let pos = Ident { depth: p.depth, index: p.u_index, role: Role::Position };
    push_line(out, inner, Stmt::DeclarePosition { name: pos, from: p.upper_transform });
    push_line(out, inner, Stmt::Scale { name: pos, by: t.scale });
    if t.position.is_nonzero() {
        push_line(out, inner, Stmt::Translate { name: pos, by: t.position, scale: t.scale });
    } else {
        push_line(out, inner, Stmt::PositionZero);
    }
    if t.rotation.is_nonzero() {
        push_line(out, inner, Stmt::Rotate { name: pos, by: t.rotation });
    } else {
        push_line(out, inner, Stmt::RotationZero);
    }
    assert(line_views(out@) =~= line_views(old(out)@) + transform_lines(*t, *p));
}

/// Appends the lines that end a node's work and close its block.
fn push_cleanup(out: &mut Vec<Line>, t: &Transform, p: &Parcel, role: Role)
    requires
        1 <= p.depth <= DEPTH_LIMIT,
        p.upper_union_comb.comb.supported(),
    ensures
        line_views(final(out)@) == line_views(old(out)@) + cleanup_lines(*t, *p, role),
{
    let inner: u64 = 2 * p.depth;
    let name = Ident { depth: p.depth, index: p.u_index, role };
    push_line(out, inner, Stmt::Remark(Remark::Cleanup));
    push_line(out, inner, Stmt::Correct { name, by: t.scale });
    match p.upper_union_comb.comb {
        CombinationType::SmoothUnion => {
            push_line(
                out,
                inner,
                Stmt::SmoothUnion {
                    name,
                    into: p.upper_union,
                    strength: p.upper_union_comb.strength,
                },
            );
        },
        _ => {
            push_line(out, inner, Stmt::Union { name, into: p.upper_union });
        },
    }
    push_line(out, inner - 1, Stmt::Close);
    assert(line_views(out@) =~= line_views(old(out)@) + cleanup_lines(*t, *p, role));
}

/// Appends the block of a shape to `out`.
fn disclose_shape(out: &mut Vec<Line>, transform: &Transform, sdf: &SDF, parcel: &Parcel)
    requires
        1 <= parcel.depth <= DEPTH_LIMIT,
        parcel.upper_union_comb.comb.supported(),
    ensures
        line_views(final(out)@) == line_views(old(out)@) + shape_lines(*transform, sdf@, *parcel),
{
    let outer: u64 = 2 * parcel.depth - 1;
    let inner: u64 = 2 * parcel.depth;
    let name = Ident { depth: parcel.depth, index: parcel.u_index, role: Role::Shape };
    let pos = Ident { depth: parcel.depth, index: parcel.u_index, role: Role::Position };
    push_line(out, outer, Stmt::Remark(Remark::Shape));
    push_line(out, outer, Stmt::Open);
    push_transform(out, transform, parcel);
    push_line(out, inner, Stmt::Evaluate { name, at: pos, sdf: sdf.duplicate() });
    push_cleanup(out, transform, parcel, Role::Shape);
    assert(line_views(out@) =~= line_views(old(out)@) + shape_lines(*transform, sdf@, *parcel));
}

/// Appends the block of a union to `out`, its children between its own
/// statements.
#[verifier::loop_isolation(false)]
fn disclose_union(
    out: &mut Vec<Line>,
    layer: &Layer,
    parcel: &Parcel,
) -> (r: Result<(), SceneError>)
    requires
        *layer is Union,
        1 <= parcel.depth,
        parcel.depth + layer@.height() <= DEPTH_LIMIT + 1,
        parcel.upper_union_comb.comb.supported(),
    ensures
        layer@.supported() ==> r is Ok && line_views(final(out)@) == line_views(old(out)@) + lower(
            layer@,
            *parcel,
        ),
        !layer@.supported() ==> r matches Err(SceneError::UnsupportedCombinator),
    decreases *layer, 0nat,
{
    proof {
        lemma_union_view(*layer);
    }
    match layer {
        Layer::Union { transform, bounds: _, combination, children } => {
            if !combination.comb.is_supported() {
                return Err(SceneError::UnsupportedCombinator);
            }
            let ghost kids = layer_views(children@);
            let outer: u64 = 2 * parcel.depth - 1;
            let inner: u64 = 2 * parcel.depth;
            let name = Ident { depth: parcel.depth, index: parcel.u_index, role: Role::Accumulator };
            let pos = Ident { depth: parcel.depth, index: parcel.u_index, role: Role::Position };
            push_line(out, outer, Stmt::Remark(Remark::Union));
            push_line(out, outer, Stmt::Open);
            push_line(out, inner, Stmt::Remark(Remark::InitAndTransform));
            push_line(out, inner, Stmt::InitAccumulator { name, from: parcel.upper_union });
            push_transform(out, transform, parcel);
            push_line(out, inner, Stmt::Remark(Remark::Children));
            push_line(out, inner, Stmt::Open);
            assert(line_views(out@) =~= line_views(old(out)@) + union_head(*transform, *parcel));
            let ghost headed = line_views(out@);
            let mut i: usize = 0;
            assert(headed + lower_children(kids, *parcel, *combination, 0) =~= headed);
            while i < children.len()
                invariant
                    i <= children@.len(),
                    *layer is Union,
                    layer->children == *children,
                    kids == layer_views(children@),
                    kids.len() == children@.len(),
                    1 <= parcel.depth,
                    parcel.depth + 1 + tallest(kids, 0) <= DEPTH_LIMIT + 1,
                    combination.comb.supported(),
                    all_supported(kids, 0) == all_supported(kids, i as nat),
                    line_views(out@) == headed + lower_children(
                        kids,
                        *parcel,
                        *combination,
                        i as nat,
                    ),
                decreases children@.len() - i,
            {
                let child_parcel = Parcel {
                    upper_union: name,
                    upper_union_comb: *combination,
                    upper_transform: Some(pos),
                    depth: parcel.depth + 1,
                    u_index: i as u64,
                };
                proof {
                    lemma_tallest_bounds(kids, 0, i as int);
                    assert(child_parcel == parcel.child(*combination, i as nat));
                }
                let ghost before = line_views(out@);
                match disclose_layer(out, &children[i], &child_parcel) {
                    Ok(()) => {},
                    Err(e) => {
                        return Err(SceneError::UnsupportedCombinator);
                    },
                }
                proof {
                    assert(line_views(out@) == before + lower(kids[i as int], child_parcel));
                    assert(line_views(out@) =~= headed + lower_children(
                        kids,
                        *parcel,
                        *combination,
                        (i + 1) as nat,
                    ));
                }
                i = i + 1;
            }
            push_line(out, inner, Stmt::Close);
            push_cleanup(out, transform, parcel, Role::Accumulator);
            assert(line_views(out@) =~= line_views(old(out)@) + lower(layer@, *parcel));
            Ok(())
        },
        Layer::Shape { .. } => Ok(()),
    }
}

/// Appends the block of a node to `out`.
fn disclose_layer(out: &mut Vec<Line>, layer: &Layer, parcel: &Parcel) -> (r: Result<
    (),
    SceneError,
>)
    requires
        1 <= parcel.depth,
        parcel.depth + layer@.height() <= DEPTH_LIMIT + 1,
        parcel.upper_union_comb.comb.supported(),
    ensures
        layer@.supported() ==> r is Ok && line_views(final(out)@) == line_views(old(out)@) + lower(
            layer@,
            *parcel,
        ),
        !layer@.supported() ==> r matches Err(SceneError::UnsupportedCombinator),
    decreases *layer, 1nat,
{
    match layer {
        Layer::Shape { transform, material: _, bounds: _, sdf } => {
            disclose_shape(out, transform, sdf, parcel);
            Ok(())
        },
        Layer::Union { .. } => disclose_union(out, layer, parcel),
    }
}

impl<'a> Passer<'a> {
    /// The statements that the scene lowers to, each on its line. A tree in
    /// which a union asks for a subtraction is refused as a whole.
    pub fn lower(&self) -> (r: Result<Vec<Line>, SceneError>)
        requires
            self.contents@.height() <= DEPTH_LIMIT,
        ensures
            self.contents@.supported() ==> (r matches Ok(lines) && line_views(lines@) == lower(
                self.contents@,
                root_parcel(),
            )),
            !self.contents@.supported() ==> r matches Err(SceneError::UnsupportedCombinator),
    {
        let upper = Parcel {
            upper_union: Ident { depth: 0, index: 0, role: Role::Accumulator },
            upper_union_comb: Combination {
                comb: CombinationType::Union,
                strength: Float::new(Decimal::whole(0)),
            },
            upper_transform: None,
            depth: 1,
            u_index: 0,
        };
        let mut lines: Vec<Line> = Vec::new();
        assert(line_views(lines@) =~= Seq::<LineView>::empty());
        match disclose_layer(&mut lines, self.contents, &upper) {
            Ok(()) => {
                assert(line_views(lines@) =~= lower(self.contents@, root_parcel()));
                Ok(lines)
            },
            Err(e) => Err(SceneError::UnsupportedCombinator),
        }
    }

    /// The shader source of the scene: `map`, which evaluates every node for
    /// every sample, and `cast_ray`. Nothing is written for a tree in which a
    /// union asks for a subtraction.
    fn brute_force(&mut self) -> (r: Result<String, SceneError>)
        requires
            old(self).contents@.height() <= DEPTH_LIMIT,
        ensures
            *final(self) == *old(self),
            old(self).contents@.supported() ==> (r matches Ok(s) && s@ == source_text(
                old(self).contents@,
            )),
            !old(self).contents@.supported() ==> r matches Err(SceneError::UnsupportedCombinator),
    {
        match self.lower() {
            Ok(lines) => {
                let mut map = String::new();
                map.append(
                    "Hit map(vec3 p_in) {\n\t// init\n\tHit d0u0 = Hit(100000.0);\n\tvec3 t = p_in;\n\n\t// start\n",
                );
                write_lines(&lines, &mut map);
                map.append("\n\treturn d0u0;\n}\n");
                map.append(
                    "\nHit cast_ray(Ray ray) {\n\tfloat t = 0.0;\n\tfor (int i = 0; i < s.steps_per_ray; i++) {\n\t\tvec3 p = ray.ro + ray.rd * t;\n\t\tHit hit = map(p);\n\t\tt += hit.d;\n\n\t\tif (hit.d < MHD) break;\n\t\tif (t > FP) break;\n\t}\n\treturn Hit(t);\n}\n",
                );
                assert(map@ =~= source_text(self.contents@));
                Ok(map)
            },
            Err(e) => Err(SceneError::UnsupportedCombinator),
        }
    }

    /// The shader source of the scene, lowered in the way that the options
    /// ask for.
    pub fn pass(&mut self) -> (r: Result<String, SceneError>)
        requires
            old(self).pass_options.pass_type == PassType::BruteForce,
            old(self).contents@.height() <= DEPTH_LIMIT,
        ensures
            *final(self) == *old(self),
            old(self).contents@.supported() ==> (r matches Ok(s) && s@ == source_text(
                old(self).contents@,
            )),
            !old(self).contents@.supported() ==> r matches Err(SceneError::UnsupportedCombinator),
    {
        self.brute_force()
    }
}

} // verus!
