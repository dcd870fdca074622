//! The scene tree: shapes at the leaves, unions inside.

use vstd::prelude::*;
use vstd::string::*;
use crate::datastructures::{Float, Vec3, float_text, vec3_text};
use crate::transform_mat::{Bounds, Material, Transform};

verus! {

/// What can go wrong between a graph edit and a running pipeline.
#[derive(Debug)]
pub enum SceneError {
    /// The graph does not resolve to a scene tree: the root is missing or is
    /// no tree node, a parameter is missing or of the wrong kind, or the graph
    /// is nested deeper than the resolver follows.
    UnresolvedGraph,
    /// A union asks for a way of combining that has no lowering.
    UnsupportedCombinator,
    /// The shader built from the generated source was refused.
    ShaderBuildFailure { diagnostic: String },
}

/// The kind of a distance field.
#[derive(Debug)]
pub enum SdfType {
    Sphere,
    Cube,
    /// A distance function of the user's own, named by `data` and called with
    /// the sampling position and the field's settings.
    Custom { data: String },
}

/// The kind of a distance field, as a value of the logic.
pub enum SdfTypeView {
    Sphere,
    Cube,
    Custom { data: Seq<char> },
}

impl View for SdfType {
    type V = SdfTypeView;

    open spec fn view(&self) -> SdfTypeView {
        match self {
            SdfType::Sphere => SdfTypeView::Sphere,
            SdfType::Cube => SdfTypeView::Cube,
            SdfType::Custom { data } => SdfTypeView::Custom { data: data@ },
        }
    }
}

impl SdfType {
    /// A copy of this kind.
    pub fn duplicate(&self) -> (r: SdfType)
        ensures
            r@ == self@,
    {
        match self {
            SdfType::Sphere => SdfType::Sphere,
            SdfType::Cube => SdfType::Cube,
            SdfType::Custom { data } => SdfType::Custom { data: data.clone() },
        }
    }
}

/// A distance field: its kind and the settings of that kind.
#[derive(Debug)]
pub struct SDF {
    pub sdf_type: SdfType,
    pub settings: Vec3,
}

/// A distance field, as a value of the logic.
pub struct SdfView {
    pub sdf_type: SdfTypeView,
    pub settings: Vec3,
}

impl View for SDF {
    type V = SdfView;

    open spec fn view(&self) -> SdfView {
        SdfView { sdf_type: self.sdf_type@, settings: self.settings }
    }
}

/// The expression that evaluates the field at the position `at`. A sphere and
/// a cube are of unit size: their extent comes from the node's scale.
pub open spec fn sdf_text(sdf: SdfView, at: Seq<char>) -> Seq<char> {
    match sdf.sdf_type {
        SdfTypeView::Sphere => "sdSphere("@ + at + ", 1.0)"@,
        SdfTypeView::Cube => "sdCube("@ + at + ", vec3(1.0, 1.0, 1.0))"@,
        SdfTypeView::Custom { data } => data + "("@ + at + ", "@ + vec3_text(sdf.settings) + ")"@,
    }
}

/// Declares the shape result `name` as the field evaluated at `at`.
pub open spec fn evaluate_text(name: Seq<char>, sdf: SdfView, at: Seq<char>) -> Seq<char> {
    "Hit "@ + name + " = Hit("@ + sdf_text(sdf, at) + ");"@
}

impl SDF {
    /// Appends the expression that evaluates the field at `transform`.
    pub fn write(&self, out: &mut String, transform: &str)
        ensures
            final(out)@ == old(out)@ + sdf_text(self@, transform@),
    {
        let ghost start = out@;
        match &self.sdf_type {
            SdfType::Sphere => {
                out.append("sdSphere(");
                out.append(transform);
                out.append(", 1.0)");
            },
            SdfType::Cube => {
                out.append("sdCube(");
                out.append(transform);
                out.append(", vec3(1.0, 1.0, 1.0))");
            },
            SdfType::Custom { data } => {
                out.append(data.as_str());
                out.append("(");
                out.append(transform);
                out.append(", ");
                self.settings.write(out);
                out.append(")");
            },
        }
        assert(out@ =~= start + sdf_text(self@, transform@));
    }

    /// The expression that evaluates the field at the position `transform`.
    pub fn comp_map(&self, transform: &str) -> (r: String)
        ensures
            r@ == sdf_text(self@, transform@),
    {
        let mut out = String::new();
        self.write(&mut out, transform);
        assert(Seq::<char>::empty() + sdf_text(self@, transform@) =~= sdf_text(self@, transform@));
        out
    }

    /// A copy of this field.
    pub fn duplicate(&self) -> (r: SDF)
        ensures
            r@ == self@,
    {
        SDF { sdf_type: self.sdf_type.duplicate(), settings: self.settings }
    }
}

/// Appends the declaration of the shape result `name` to `out`.
pub fn write_evaluate(out: &mut String, name: &str, sdf: &SDF, at: &str)
    ensures
        final(out)@ == old(out)@ + evaluate_text(name@, sdf@, at@),
{
    let ghost start = out@;
    out.append("Hit ");
    out.append(name);
    out.append(" = Hit(");
    sdf.write(out, at);
    out.append(");");
    assert(out@ =~= start + evaluate_text(name@, sdf@, at@));
}

/// The ways of combining two distances.
#[derive(Clone, Copy, Debug, PartialEq, Eq, Structural)]
pub enum CombinationType {
    Union,
    SmoothUnion,
    Subtraction,
    SmoothSubtraction,
}

impl CombinationType {
    /// Whether this way of combining has a lowering: the two unions have,
    /// the two subtractions have not.
    pub open spec fn supported(self) -> bool {
        self == CombinationType::Union || self == CombinationType::SmoothUnion
    }

    /// Whether this way of combining has a lowering.
    pub fn is_supported(&self) -> (r: bool)
        ensures
            r == self.supported(),
    {
        match self {
            CombinationType::Union => true,
            CombinationType::SmoothUnion => true,
            CombinationType::Subtraction => false,
            CombinationType::SmoothSubtraction => false,
        }
    }
}

/// How the children of a union are joined: the operator and, where the
/// operator blends, how strongly.
#[derive(Clone, Copy, Debug)]
pub struct Combination {
    pub comb: CombinationType,
    pub strength: Float,
}

/// Folds `name` into `union_ref` as a plain minimum.
pub open spec fn union_text(name: Seq<char>, union_ref: Seq<char>) -> Seq<char> {
    union_ref + " = opUnion("@ + name + ", "@ + union_ref + ");"@
}

/// Folds `name` into `union_ref` as a smooth minimum of the given strength.
pub open spec fn smooth_union_text(name: Seq<char>, union_ref: Seq<char>, strength: Float) -> Seq<
    char,
> {
    union_ref + " = opSmoothUnion("@ + name + ", "@ + union_ref + ", "@ + float_text(strength)
        + ");"@
}

/// The statement that folds `name` into `union_ref` under `c`, for the
/// operators that have a lowering.
pub open spec fn combination_text(c: Combination, name: Seq<char>, union_ref: Seq<char>) -> Seq<
    char,
> {
    if c.comb == CombinationType::SmoothUnion {
        smooth_union_text(name, union_ref, c.strength)
    } else {
        union_text(name, union_ref)
    }
}

/// Appends the plain union of `name` into `union_ref` to `out`.
pub fn write_union(out: &mut String, name: &str, union_ref: &str)
    ensures
        final(out)@ == old(out)@ + union_text(name@, union_ref@),
{
    let ghost start = out@;
    out.append(union_ref);
    out.append(" = opUnion(");
    out.append(name);
    out.append(", ");
    out.append(union_ref);
    out.append(");");
    assert(out@ =~= start + union_text(name@, union_ref@));
}

/// Appends the smooth union of `name` into `union_ref` to `out`.
pub fn write_smooth_union(out: &mut String, name: &str, union_ref: &str, strength: &Float)
    ensures
        final(out)@ == old(out)@ + smooth_union_text(name@, union_ref@, *strength),
{
    let ghost start = out@;
    out.append(union_ref);
    out.append(" = opSmoothUnion(");
    out.append(name);
    out.append(", ");
    out.append(union_ref);
    out.append(", ");
    strength.write(out);
    out.append(");");
    assert(out@ =~= start + smooth_union_text(name@, union_ref@, *strength));
}

impl Combination {
    /// The statement that folds the result `name` into the accumulator
    /// `union_ref`. A subtraction has no lowering and is refused.
    pub fn comp_map(&self, name: &str, union_ref: &str) -> (r: Result<String, SceneError>)
        ensures
            self.comb.supported() ==> (r matches Ok(s) && s@ == combination_text(
                *self,
                name@,
                union_ref@,
            )),
            !self.comb.supported() ==> r matches Err(SceneError::UnsupportedCombinator),
    {
        let mut out = String::new();
        match self.comb {
            CombinationType::Union => {
                write_union(&mut out, name, union_ref);
                assert(out@ =~= union_text(name@, union_ref@));
                Ok(out)
            },
            CombinationType::SmoothUnion => {
                write_smooth_union(&mut out, name, union_ref, &self.strength);
                assert(out@ =~= smooth_union_text(name@, union_ref@, self.strength));
                Ok(out)
            },
            CombinationType::Subtraction => Err(SceneError::UnsupportedCombinator),
            CombinationType::SmoothSubtraction => Err(SceneError::UnsupportedCombinator),
        }
    }
}

/// A node of the scene tree.
#[derive(Debug)]
pub enum Layer {
    /// A leaf: one distance field with its material.
    Shape { transform: Transform, material: Material, bounds: Bounds, sdf: SDF },
    /// An inner node: its children, in order, joined by `combination`.
    Union { transform: Transform, bounds: Bounds, combination: Combination, children: Vec<Layer> },
}

/// A node of the scene tree, as a value of the logic.
pub enum LayerView {
    Shape { transform: Transform, material: Material, bounds: Bounds, sdf: SdfView },
    Union {
        transform: Transform,
        bounds: Bounds,
        combination: Combination,
        children: Seq<LayerView>,
    },
}

/// The tree that `layer` stands for.
pub open spec fn layer_view(layer: Layer) -> LayerView
    decreases layer,
{
    match layer {
        Layer::Shape { transform, material, bounds, sdf } => LayerView::Shape {
            transform,
            material,
            bounds,
            sdf: sdf@,
        },
        Layer::Union { transform, bounds, combination, children } => LayerView::Union {
            transform,
            bounds,
            combination,
            children: Seq::new(
                children@.len(),
                |i: int|
                    if 0 <= i < children@.len() {
                        layer_view(children@[i])
                    } else {
                        arbitrary()
                    },
            ),
        },
    }
}

impl View for Layer {
    type V = LayerView;

    open spec fn view(&self) -> LayerView {
        layer_view(*self)
    }
}

/// The views of a run of nodes, one for one.
pub open spec fn layer_views(layers: Seq<Layer>) -> Seq<LayerView> {
    Seq::new(layers.len(), |i: int| layers[i]@)
}

/// What the view of a union holds.
pub proof fn lemma_union_view(layer: Layer)
    requires
        layer is Union,
    ensures
        layer@ is Union,
        layer@->Union_transform == layer->Union_transform,
        layer@->Union_bounds == layer->Union_bounds,
        layer@->Union_combination == layer->Union_combination,
        layer@->children == layer_views(layer->children@),
{
    assert(layer@->children =~= layer_views(layer->children@));
}

impl LayerView {
    /// The transform of the node.
    pub open spec fn transform(self) -> Transform {
        match self {
            LayerView::Shape { transform, .. } => transform,
            LayerView::Union { transform, .. } => transform,
        }
    }

    /// The number of levels of the tree: one for a node without children.
    pub open spec fn height(self) -> nat
        decreases self,
    {
        match self {
            LayerView::Shape { .. } => 1,
            LayerView::Union { children, .. } => 1 + tallest(children, 0),
        }
    }

    /// The number of nodes of the tree.
    pub open spec fn node_count(self) -> nat
        decreases self,
    {
        match self {
            LayerView::Shape { .. } => 1,
            LayerView::Union { children, .. } => 1 + total_nodes(children, children.len()),
        }
    }

    /// Whether every union of the tree combines in a way that has a lowering.
    pub open spec fn supported(self) -> bool
        decreases self,
    {
        match self {
            LayerView::Shape { .. } => true,
            LayerView::Union { combination, children, .. } => combination.comb.supported()
                && all_supported(children, 0),
        }
    }
}

/// The height of the tallest of `children[from..]`, zero where there is none.
pub open spec fn tallest(children: Seq<LayerView>, from: nat) -> nat
    decreases children, children.len() - from,
{
    if from >= children.len() {
        0
    } else {
        let head = children[from as int].height();
        let rest = tallest(children, from + 1);
        if head >= rest {
            head
        } else {
            rest
        }
    }
}

/// The number of nodes in the first `upto` of `children`.
pub open spec fn total_nodes(children: Seq<LayerView>, upto: nat) -> nat
    decreases children, upto,
{
    if upto == 0 || upto > children.len() {
        0
    } else {
        total_nodes(children, (upto - 1) as nat) + children[upto - 1].node_count()
    }
}

/// Whether every tree in `children[from..]` is supported.
pub open spec fn all_supported(children: Seq<LayerView>, from: nat) -> bool
    decreases children, children.len() - from,
{
    if from >= children.len() {
        true
    } else {
        children[from as int].supported() && all_supported(children, from + 1)
    }
}

/// No child of a union is taller than the tallest of them.
pub proof fn lemma_tallest_bounds(children: Seq<LayerView>, from: nat, i: int)
    requires
        from <= i < children.len(),
    ensures
        children[i].height() <= tallest(children, from),
    decreases children.len() - from,
{
    if from < i {
        lemma_tallest_bounds(children, from + 1, i);
    }
}

/// Where no tree is higher than `bound`, the tallest is not either.
pub proof fn lemma_tallest_within(children: Seq<LayerView>, from: nat, bound: nat)
    requires
        forall|i: int| 0 <= i < children.len() ==> (#[trigger] children[i]).height() <= bound,
    ensures
        tallest(children, from) <= bound,
    decreases children.len() - from,
{
    if from < children.len() {
        lemma_tallest_within(children, from + 1, bound);
    }
}

impl Layer {
    /// Whether the tree has at most `bound` levels.
    #[verifier::loop_isolation(false)]
    pub fn height_within(&self, bound: u64) -> (r: bool)
        ensures
            r == (self@.height() <= bound),
        decreases *self,
    {
        if bound == 0 {
            return false;
        }
        match self {
            Layer::Shape { .. } => true,
            Layer::Union { children, .. } => {
                proof {
                    lemma_union_view(*self);
                }
                let ghost kids = layer_views(children@);
                let mut i: usize = 0;
                while i < children.len()
                    invariant
                        i <= children@.len(),
                        *self is Union,
                        self->children == *children,
                        kids == layer_views(children@),
                        bound >= 1,
                        forall|k: int| 0 <= k < i ==> (#[trigger] kids[k]).height() <= bound - 1,
                    decreases children@.len() - i,
                {
                    if !children[i].height_within(bound - 1) {
                        proof {
                            lemma_tallest_bounds(kids, 0, i as int);
                        }
                        return false;
                    }
                    i = i + 1;
                }
                proof {
                    lemma_tallest_within(kids, 0, (bound - 1) as nat);
                }
                true
            },
        }
    }
}

} // verus!
