//! What holds of every scene tree and its shader source.

use vstd::prelude::*;
use crate::datastructures::{Float, FloatOrOss, float_text};
use crate::ident::{Ident, Role};
use crate::layer::{
    Layer,
    LayerView,
    lemma_tallest_bounds,
    lemma_union_view,
    total_nodes,
};
use crate::passer::{
    DEPTH_LIMIT,
    Parcel,
    cleanup_lines,
    lower,
    lower_children,
    root_parcel,
    shape_lines,
    source_text,
    transform_lines,
    union_head,
    union_tail,
};
use crate::layer::Combination;
use crate::reload::{ShaderGraphView, polled, submitted, wants_build};
use crate::stmt::{LineView, StmtView, lemma_lines_text_concat, line_text, lines_text};

verus! {

/// How many of the lines hold a statement that `pred` picks.
pub open spec fn count_stmts(lines: Seq<LineView>, pred: spec_fn(StmtView) -> bool) -> nat
    decreases lines.len(),
{
    if lines.len() == 0 {
        0
    } else {
        count_stmts(lines.drop_last(), pred) + if pred(lines.last().stmt) {
            1nat
        } else {
            0nat
        }
    }
}

/// Counting over two runs of lines in a row adds up.
pub proof fn lemma_count_concat(a: Seq<LineView>, b: Seq<LineView>, pred: spec_fn(StmtView) -> bool)
    ensures
        count_stmts(a + b, pred) == count_stmts(a, pred) + count_stmts(b, pred),
    decreases b.len(),
{
    if b.len() == 0 {
        assert(a + b =~= a);
    } else {
        lemma_count_concat(a, b.drop_last(), pred);
        assert((a + b).drop_last() =~= a + b.drop_last());
        assert((a + b).last() == b.last());
    }
}

/// The role of the local that holds a node's result.
pub open spec fn result_role(layer: LayerView) -> Role {
    match layer {
        LayerView::Shape { .. } => Role::Shape,
        LayerView::Union { .. } => Role::Accumulator,
    }
}

/// The statements of a node's own block, without those of its children.
pub open spec fn own_lines(layer: LayerView, p: Parcel) -> Seq<LineView> {
    match layer {
        LayerView::Shape { transform, sdf, .. } => shape_lines(transform, sdf, p),
        LayerView::Union { transform, .. } => union_head(transform, p) + union_tail(transform, p),
    }
}

/// The source is a function of the tree alone: two trees that are the same
/// value have the same source.
pub proof fn law_source_determined(a: LayerView, b: LayerView)
    requires
        a == b,
    ensures
        source_text(a) == source_text(b),
        lower(a, root_parcel()) == lower(b, root_parcel()),
{
}

/// The text of a scalar does not depend on the slider that it is bound to.
pub proof fn law_text_ignores_id(a: Float, b: Float)
    requires
        a.val == b.val,
    ensures
        float_text(a) == float_text(b),
{
}

/// The block of a node scales its position once and corrects its distance
/// once, by the same scalar, on the locals of the same node.
pub proof fn law_scale_correction_paired(layer: LayerView, p: Parcel)
    ensures
        count_stmts(own_lines(layer, p), |s: StmtView| s is Scale) == 1,
        count_stmts(own_lines(layer, p), |s: StmtView| s is Correct) == 1,
        count_stmts(
            own_lines(layer, p),
            |s: StmtView| s == (StmtView::Scale { name: p.position(), by: layer.transform().scale }),
        ) == 1,
        count_stmts(
            own_lines(layer, p),
            |s: StmtView|
                s == (StmtView::Correct {
                    name: p.result(result_role(layer)),
                    by: layer.transform().scale,
                }),
        ) == 1,
        p.position().depth == p.result(result_role(layer)).depth,
        p.position().index == p.result(result_role(layer)).index,
{
    let t = layer.transform();
    let role = result_role(layer);
    let is_scale = |s: StmtView| s is Scale;
    let is_correct = |s: StmtView| s is Correct;
    let the_scale = |s: StmtView| s == (StmtView::Scale { name: p.position(), by: t.scale });
    let the_correct = |s: StmtView| s == (StmtView::Correct { name: p.result(role), by: t.scale });
    lemma_own_counts(layer, p, is_scale);
    lemma_own_counts(layer, p, is_correct);
    lemma_own_counts(layer, p, the_scale);
    lemma_own_counts(layer, p, the_correct);
    lemma_transform_counts(t, p, is_scale);
    lemma_transform_counts(t, p, is_correct);
    lemma_transform_counts(t, p, the_scale);
    lemma_transform_counts(t, p, the_correct);
    lemma_cleanup_counts(t, p, role, is_scale);
    lemma_cleanup_counts(t, p, role, is_correct);
    lemma_cleanup_counts(t, p, role, the_scale);
    lemma_cleanup_counts(t, p, role, the_correct);
}

/// How often `pred` holds among the four lines of a transform.
pub open spec fn transform_count(t: crate::transform_mat::Transform, p: Parcel, pred: spec_fn(StmtView) -> bool) -> nat {
    let lines = transform_lines(t, p);
    (if pred(lines[0].stmt) { 1nat } else { 0nat }) + (if pred(lines[1].stmt) { 1nat } else { 0nat })
        + (if pred(lines[2].stmt) { 1nat } else { 0nat }) + (if pred(lines[3].stmt) { 1nat } else { 0nat })
}

/// How often `pred` holds among the four lines that end a node's work.
pub open spec fn cleanup_count(t: crate::transform_mat::Transform, p: Parcel, role: Role, pred: spec_fn(StmtView) -> bool) -> nat {
    let lines = cleanup_lines(t, p, role);
    (if pred(lines[0].stmt) { 1nat } else { 0nat }) + (if pred(lines[1].stmt) { 1nat } else { 0nat })
        + (if pred(lines[2].stmt) { 1nat } else { 0nat }) + (if pred(lines[3].stmt) { 1nat } else { 0nat })
}

/// Counting over the lines of a transform looks at each of the four.
pub proof fn lemma_transform_counts(t: crate::transform_mat::Transform, p: Parcel, pred: spec_fn(StmtView) -> bool)
    ensures
        count_stmts(transform_lines(t, p), pred) == transform_count(t, p, pred),
{
    lemma_count_four(transform_lines(t, p), pred);
}

/// Counting over the lines that end a node's work looks at each of the four.
pub proof fn lemma_cleanup_counts(t: crate::transform_mat::Transform, p: Parcel, role: Role, pred: spec_fn(StmtView) -> bool)
    ensures
        count_stmts(cleanup_lines(t, p, role), pred) == cleanup_count(t, p, role, pred),
{
    lemma_count_four(cleanup_lines(t, p, role), pred);
}

/// Counting over one line.
pub proof fn lemma_count_one(lines: Seq<LineView>, pred: spec_fn(StmtView) -> bool)
    requires
        lines.len() == 1,
    ensures
        count_stmts(lines, pred) == (if pred(lines[0].stmt) { 1nat } else { 0nat }),
{
    assert(lines.drop_last().len() == 0);
    reveal_with_fuel(count_stmts, 2);
}

/// Counting over two lines.
pub proof fn lemma_count_two(lines: Seq<LineView>, pred: spec_fn(StmtView) -> bool)
    requires
        lines.len() == 2,
    ensures
        count_stmts(lines, pred) == (if pred(lines[0].stmt) { 1nat } else { 0nat }) + (if pred(lines[1].stmt) { 1nat } else { 0nat }),
{
    lemma_count_one(lines.drop_last(), pred);
}

/// Counting over four lines.
pub proof fn lemma_count_four(lines: Seq<LineView>, pred: spec_fn(StmtView) -> bool)
    requires
        lines.len() == 4,
    ensures
        count_stmts(lines, pred) == (if pred(lines[0].stmt) { 1nat } else { 0nat }) + (if pred(lines[1].stmt) { 1nat } else { 0nat })
            + (if pred(lines[2].stmt) { 1nat } else { 0nat }) + (if pred(lines[3].stmt) { 1nat } else { 0nat }),
{
    let three = lines.drop_last();
    let two = three.drop_last();
    lemma_count_two(two, pred);
    assert(count_stmts(three, pred) == count_stmts(two, pred) + (if pred(three.last().stmt) { 1nat } else { 0nat }));
}

/// Counting over a node's own block: its fixed lines, the lines of its
/// transform and the lines that end its work.
pub proof fn lemma_own_counts(layer: LayerView, p: Parcel, pred: spec_fn(StmtView) -> bool)
    ensures
        count_stmts(own_lines(layer, p), pred) == transform_count(layer.transform(), p, pred)
            + cleanup_count(layer.transform(), p, result_role(layer), pred) + match layer {
            LayerView::Shape { sdf, .. } => (if pred(StmtView::Remark(crate::stmt::Remark::Shape)) { 1nat } else { 0nat })
                + (if pred(StmtView::Open) { 1nat } else { 0nat })
                + (if pred(StmtView::Evaluate { name: p.result(Role::Shape), at: p.position(), sdf }) { 1nat } else { 0nat }),
            LayerView::Union { .. } => (if pred(StmtView::Remark(crate::stmt::Remark::Union)) { 1nat } else { 0nat })
                + (if pred(StmtView::Open) { 2nat } else { 0nat })
                + (if pred(StmtView::Remark(crate::stmt::Remark::InitAndTransform)) { 1nat } else { 0nat })
                + (if pred(StmtView::InitAccumulator { name: p.result(Role::Accumulator), from: p.upper_union }) { 1nat } else { 0nat })
                + (if pred(StmtView::Remark(crate::stmt::Remark::Children)) { 1nat } else { 0nat })
                + (if pred(StmtView::Close) { 1nat } else { 0nat }),
        },
{
    let t = layer.transform();
    lemma_transform_counts(t, p, pred);
    match layer {
        LayerView::Shape { transform, sdf, .. } => {
            let a = seq![
                LineView { indent: p.outer(), stmt: StmtView::Remark(crate::stmt::Remark::Shape) },
                LineView { indent: p.outer(), stmt: StmtView::Open },
            ];
            let b = transform_lines(t, p);
            let c = seq![
                LineView {
                    indent: p.inner(),
                    stmt: StmtView::Evaluate { name: p.result(Role::Shape), at: p.position(), sdf },
                },
            ];
            let d = cleanup_lines(t, p, Role::Shape);
            lemma_cleanup_counts(t, p, Role::Shape, pred);
            lemma_count_two(a, pred);
            lemma_count_one(c, pred);
            lemma_count_concat(a, b, pred);
            lemma_count_concat(a + b, c, pred);
            lemma_count_concat(a + b + c, d, pred);
        },
        LayerView::Union { transform, .. } => {
            let a = seq![
                LineView { indent: p.outer(), stmt: StmtView::Remark(crate::stmt::Remark::Union) },
                LineView { indent: p.outer(), stmt: StmtView::Open },
                LineView { indent: p.inner(), stmt: StmtView::Remark(crate::stmt::Remark::InitAndTransform) },
                LineView {
                    indent: p.inner(),
                    stmt: StmtView::InitAccumulator {
                        name: p.result(Role::Accumulator),
                        from: p.upper_union,
                    },
                },
            ];
            let b = transform_lines(t, p);
            let c = seq![
                LineView { indent: p.inner(), stmt: StmtView::Remark(crate::stmt::Remark::Children) },
                LineView { indent: p.inner(), stmt: StmtView::Open },
            ];
            let d = seq![LineView { indent: p.inner(), stmt: StmtView::Close }];
            let e = cleanup_lines(t, p, Role::Accumulator);
            lemma_cleanup_counts(t, p, Role::Accumulator, pred);
            lemma_count_four(a, pred);
            lemma_count_two(c, pred);
            lemma_count_one(d, pred);
            lemma_count_concat(a, b, pred);
            lemma_count_concat(a + b, c, pred);
            lemma_count_concat(d, e, pred);
            lemma_count_concat(a + b + c, d + e, pred);
        },
    }
}

/// A step of a transform that would do nothing is left out, and its line is
/// kept as a comment; a step that does something is emitted once, with the
/// node's own position and the transform's own values. A position or a
/// rotation does something as soon as one component is a constant other than
/// zero.
pub proof fn law_noop_elision(layer: LayerView, p: Parcel)
    ensures
        !layer.transform().position.nonzero() ==> count_stmts(
            own_lines(layer, p),
            |s: StmtView| s is Translate,
        ) == 0 && count_stmts(own_lines(layer, p), |s: StmtView| s is PositionZero) == 1,
        layer.transform().position.nonzero() ==> count_stmts(
            own_lines(layer, p),
            |s: StmtView|
                s == (StmtView::Translate {
                    name: p.position(),
                    by: layer.transform().position,
                    scale: layer.transform().scale,
                }),
        ) == 1 && count_stmts(own_lines(layer, p), |s: StmtView| s is PositionZero) == 0,
        !layer.transform().rotation.nonzero() ==> count_stmts(
            own_lines(layer, p),
            |s: StmtView| s is Rotate,
        ) == 0 && count_stmts(own_lines(layer, p), |s: StmtView| s is RotationZero) == 1,
        layer.transform().rotation.nonzero() ==> count_stmts(
            own_lines(layer, p),
            |s: StmtView| s == (StmtView::Rotate { name: p.position(), by: layer.transform().rotation }),
        ) == 1 && count_stmts(own_lines(layer, p), |s: StmtView| s is RotationZero) == 0,
{
    let t = layer.transform();
    let role = result_role(layer);
    let is_translate = |s: StmtView| s is Translate;
    let is_position_zero = |s: StmtView| s is PositionZero;
    let the_translate = |s: StmtView|
        s == (StmtView::Translate { name: p.position(), by: t.position, scale: t.scale });
    let is_rotate = |s: StmtView| s is Rotate;
    let is_rotation_zero = |s: StmtView| s is RotationZero;
    let the_rotate = |s: StmtView| s == (StmtView::Rotate { name: p.position(), by: t.rotation });
    lemma_own_counts(layer, p, is_translate);
    lemma_own_counts(layer, p, is_position_zero);
    lemma_own_counts(layer, p, the_translate);
    lemma_own_counts(layer, p, is_rotate);
    lemma_own_counts(layer, p, is_rotation_zero);
    lemma_own_counts(layer, p, the_rotate);
}

/// A vector of three constants zero moves or turns nothing.
pub proof fn law_zero_vector_is_noop(v: crate::datastructures::Vec3)
    requires
        v.x.val matches FloatOrOss::Float(x) && x.digits == 0,
        v.y.val matches FloatOrOss::Float(y) && y.digits == 0,
        v.z.val matches FloatOrOss::Float(z) && z.digits == 0,
    ensures
        !v.nonzero(),
{
}

/// Whether a statement declares the local that holds a node's result.
pub open spec fn declares_result(s: StmtView) -> bool {
    s is Evaluate || s is InitAccumulator
}

/// The local that a statement declares as a node's result.
pub open spec fn declared_result(s: StmtView) -> Ident
    recommends
        declares_result(s),
{
    match s {
        StmtView::Evaluate { name, .. } => name,
        StmtView::InitAccumulator { name, .. } => name,
        _ => arbitrary(),
    }
}

/// A statement kind of which the block of every node holds exactly one.
pub open spec fn once_per_node(pred: spec_fn(StmtView) -> bool) -> bool {
    forall|layer: LayerView, p: Parcel| count_stmts(#[trigger] own_lines(layer, p), pred) == 1
}

/// Result declarations, scale steps and distance corrections are each made
/// once in the block of every node.
pub proof fn lemma_once_per_node()
    ensures
        once_per_node(|s: StmtView| declares_result(s)),
        once_per_node(|s: StmtView| s is Scale),
        once_per_node(|s: StmtView| s is Correct),
{
    let declares = |s: StmtView| declares_result(s);
    let is_scale = |s: StmtView| s is Scale;
    let is_correct = |s: StmtView| s is Correct;
    assert forall|layer: LayerView, p: Parcel|
        count_stmts(#[trigger] own_lines(layer, p), declares) == 1 by {
        lemma_own_counts(layer, p, declares);
    }
    assert forall|layer: LayerView, p: Parcel|
        count_stmts(#[trigger] own_lines(layer, p), is_scale) == 1 by {
        lemma_own_counts(layer, p, is_scale);
    }
    assert forall|layer: LayerView, p: Parcel|
        count_stmts(#[trigger] own_lines(layer, p), is_correct) == 1 by {
        lemma_own_counts(layer, p, is_correct);
    }
}

/// A statement kind of which every block holds one occurs in the lines of a
/// tree as often as the tree has nodes.
pub proof fn lemma_lowered_count(layer: LayerView, p: Parcel, pred: spec_fn(StmtView) -> bool)
    requires
        once_per_node(pred),
    ensures
        count_stmts(lower(layer, p), pred) == layer.node_count(),
    decreases layer, 0nat,
{
    assert(count_stmts(own_lines(layer, p), pred) == 1);
    match layer {
        LayerView::Shape { .. } => {},
        LayerView::Union { transform, combination, children, .. } => {
            let head = union_head(transform, p);
            let mid = lower_children(children, p, combination, children.len());
            let tail = union_tail(transform, p);
            lemma_children_count(children, p, combination, children.len(), pred);
            lemma_count_concat(head, tail, pred);
            lemma_count_concat(head, mid, pred);
            lemma_count_concat(head + mid, tail, pred);
        },
    }
}

/// The same for the first `upto` children of a union.
pub proof fn lemma_children_count(
    children: Seq<LayerView>,
    p: Parcel,
    combination: crate::layer::Combination,
    upto: nat,
    pred: spec_fn(StmtView) -> bool,
)
    requires
        once_per_node(pred),
    ensures
        count_stmts(lower_children(children, p, combination, upto), pred) == total_nodes(
            children,
            upto,
        ),
    decreases children, upto,
{
    if upto == 0 || upto > children.len() {
    } else {
        let before = lower_children(children, p, combination, (upto - 1) as nat);
        let last = lower(children[upto - 1], p.child(combination, (upto - 1) as nat));
        lemma_children_count(children, p, combination, (upto - 1) as nat, pred);
        lemma_lowered_count(children[upto - 1], p.child(combination, (upto - 1) as nat), pred);
        lemma_count_concat(before, last, pred);
    }
}

/// The source of a tree declares one result, scales one position and corrects
/// one distance for each of its nodes.
pub proof fn law_one_block_per_node(tree: LayerView)
    ensures
        count_stmts(lower(tree, root_parcel()), |s: StmtView| declares_result(s))
            == tree.node_count(),
        count_stmts(lower(tree, root_parcel()), |s: StmtView| s is Scale) == tree.node_count(),
        count_stmts(lower(tree, root_parcel()), |s: StmtView| s is Correct) == tree.node_count(),
{
    lemma_once_per_node();
    lemma_lowered_count(tree, root_parcel(), |s: StmtView| declares_result(s));
    lemma_lowered_count(tree, root_parcel(), |s: StmtView| s is Scale);
    lemma_lowered_count(tree, root_parcel(), |s: StmtView| s is Correct);
}

/// The node that `path` leads to: each entry picks a child, from the root
/// down. `None` where the path leaves the tree.
pub open spec fn node_at(tree: LayerView, path: Seq<int>) -> Option<LayerView>
    decreases path.len(),
{
    if path.len() == 0 {
        Some(tree)
    } else {
        match tree {
            LayerView::Union { children, .. } => if 0 <= path[0] < children.len() {
                node_at(children[path[0]], path.drop_first())
            } else {
                None
            },
            LayerView::Shape { .. } => None,
        }
    }
}

/// What the node at `path` is told when the tree is lowered with `p` at its
/// root.
pub open spec fn parcel_at(tree: LayerView, p: Parcel, path: Seq<int>) -> Parcel
    decreases path.len(),
{
    if path.len() == 0 {
        p
    } else {
        match tree {
            LayerView::Union { combination, children, .. } => if 0 <= path[0] < children.len() {
                parcel_at(
                    children[path[0]],
                    p.child(combination, path[0] as nat),
                    path.drop_first(),
                )
            } else {
                p
            },
            LayerView::Shape { .. } => p,
        }
    }
}

/// The local that holds the result of the node at `path`.
pub open spec fn name_at(tree: LayerView, path: Seq<int>) -> Ident {
    parcel_at(tree, root_parcel(), path).result(result_role(node_at(tree, path).unwrap()))
}

/// The place of a node among its siblings; the root has place zero.
pub open spec fn place(path: Seq<int>) -> int {
    if path.len() == 0 {
        0
    } else {
        path.last()
    }
}

/// Whether no union of the tree has more children than an index can count.
pub open spec fn countable(tree: LayerView) -> bool
    decreases tree,
{
    match tree {
        LayerView::Shape { .. } => true,
        LayerView::Union { children, .. } => children.len() <= u64::MAX && forall|i: int|
            0 <= i < children.len() ==> countable(#[trigger] children[i]),
    }
}

/// A path that stays in the tree is shorter than the tree is high.
pub proof fn lemma_path_within_height(tree: LayerView, path: Seq<int>)
    requires
        node_at(tree, path) is Some,
    ensures
        path.len() < tree.height(),
    decreases path.len(),
{
    if path.len() > 0 {
        match tree {
            LayerView::Union { children, .. } => {
                lemma_path_within_height(children[path[0]], path.drop_first());
                lemma_tallest_bounds(children, 0, path[0]);
            },
            LayerView::Shape { .. } => {},
        }
    }
}

/// The node at `path` is told its depth, which is the length of the path
/// above the depth of the root, and its place.
pub proof fn lemma_parcel_at(tree: LayerView, p: Parcel, path: Seq<int>)
    requires
        node_at(tree, path) is Some,
        countable(tree),
        p.depth + tree.height() <= DEPTH_LIMIT + 1,
    ensures
        parcel_at(tree, p, path).depth == p.depth + path.len(),
        path.len() > 0 ==> parcel_at(tree, p, path).u_index == path.last(),
        path.len() == 0 ==> parcel_at(tree, p, path) == p,
    decreases path.len(),
{
    if path.len() > 0 {
        match tree {
            LayerView::Union { combination, children, .. } => {
                let rest = path.drop_first();
                lemma_tallest_bounds(children, 0, path[0]);
                lemma_parcel_at(children[path[0]], p.child(combination, path[0] as nat), rest);
                if rest.len() > 0 {
                    assert(rest.last() == path.last());
                }
            },
            LayerView::Shape { .. } => {},
        }
    }
}

/// Two nodes of a tree have the same result local exactly if they lie at the
/// same depth, hold the same place among their siblings and are of the same
/// kind. Nodes on one path from the root differ in depth, and siblings differ
/// in place, so only nodes in different branches can share a name, and each
/// declares it in a block of its own.
pub proof fn law_names(tree: LayerView, a: Seq<int>, b: Seq<int>)
    requires
        tree.height() <= DEPTH_LIMIT,
        countable(tree),
        node_at(tree, a) is Some,
        node_at(tree, b) is Some,
    ensures
        name_at(tree, a) == name_at(tree, b) <==> (a.len() == b.len() && place(a) == place(b)
            && result_role(node_at(tree, a).unwrap()) == result_role(node_at(tree, b).unwrap())),
        name_at(tree, a).depth == a.len() + 1,
        name_at(tree, a).index == place(a),
{
    lemma_parcel_at(tree, root_parcel(), a);
    lemma_parcel_at(tree, root_parcel(), b);
    lemma_path_within_height(tree, a);
    lemma_path_within_height(tree, b);
}

/// Whether no two nodes of the tree lie at the same depth, at the same place
/// among their siblings, and are of the same kind.
pub open spec fn branches_apart(tree: LayerView) -> bool {
    forall|a: Seq<int>, b: Seq<int>|
        #![trigger node_at(tree, a), node_at(tree, b)]
        node_at(tree, a) is Some && node_at(tree, b) is Some && a != b ==> !(a.len() == b.len()
            && place(a) == place(b) && result_role(node_at(tree, a).unwrap()) == result_role(
            node_at(tree, b).unwrap(),
        ))
}

/// In a tree whose branches are apart, no two nodes share a result local.
pub proof fn law_names_distinct(tree: LayerView, a: Seq<int>, b: Seq<int>)
    requires
        tree.height() <= DEPTH_LIMIT,
        countable(tree),
        branches_apart(tree),
        node_at(tree, a) is Some,
        node_at(tree, b) is Some,
        a != b,
    ensures
        name_at(tree, a) != name_at(tree, b),
{
    law_names(tree, a, b);
}

/// A node never shares a result local with a node above it.
pub proof fn law_names_distinct_on_path(tree: LayerView, a: Seq<int>, b: Seq<int>)
    requires
        tree.height() <= DEPTH_LIMIT,
        countable(tree),
        node_at(tree, a) is Some,
        node_at(tree, b) is Some,
        a.len() < b.len(),
    ensures
        name_at(tree, a) != name_at(tree, b),
{
    law_names(tree, a, b);
}

/// Two children of one union never share a result local.
pub proof fn law_names_distinct_siblings(tree: LayerView, parent: Seq<int>, i: int, j: int)
    requires
        tree.height() <= DEPTH_LIMIT,
        countable(tree),
        node_at(tree, parent.push(i)) is Some,
        node_at(tree, parent.push(j)) is Some,
        i != j,
    ensures
        name_at(tree, parent.push(i)) != name_at(tree, parent.push(j)),
{
    law_names(tree, parent.push(i), parent.push(j));
}

/// The tree with `child` added behind the children of the union at `path`;
/// the tree itself where `path` leads to no union.
pub open spec fn with_child(tree: LayerView, path: Seq<int>, child: LayerView) -> LayerView
    decreases path.len(),
{
    match tree {
        LayerView::Union { transform, bounds, combination, children } => if path.len() == 0 {
            LayerView::Union { transform, bounds, combination, children: children.push(child) }
        } else if 0 <= path[0] < children.len() {
            LayerView::Union {
                transform,
                bounds,
                combination,
                children: children.update(
                    path[0],
                    with_child(children[path[0]], path.drop_first(), child),
                ),
            }
        } else {
            tree
        },
        LayerView::Shape { .. } => tree,
    }
}

/// How long the text of a node's lines is.
pub open spec fn text_len(layer: LayerView, p: Parcel) -> nat {
    lines_text(lower(layer, p)).len()
}

/// Lines that are there have text.
pub proof fn lemma_lines_have_text(lines: Seq<LineView>)
    requires
        lines.len() > 0,
    ensures
        lines_text(lines).len() > 0,
{
    reveal_strlit("\n");
    assert(line_text(lines.last()).len() > 0);
}

/// Every node lowers to text.
pub proof fn lemma_node_has_text(layer: LayerView, p: Parcel)
    ensures
        text_len(layer, p) > 0,
{
    match layer {
        LayerView::Shape { transform, sdf, .. } => {
            assert(lower(layer, p).len() > 0);
        },
        LayerView::Union { transform, combination, children, .. } => {
            assert(union_head(transform, p).len() > 0);
            assert(lower(layer, p).len() > 0);
        },
    }
    lemma_lines_have_text(lower(layer, p));
}

/// The lines of the first children of a union do not depend on the children
/// behind them.
pub proof fn lemma_children_prefix(
    a: Seq<LayerView>,
    b: Seq<LayerView>,
    p: Parcel,
    combination: Combination,
    upto: nat,
)
    requires
        upto <= a.len(),
        upto <= b.len(),
        forall|i: int| 0 <= i < upto ==> a[i] == b[i],
    ensures
        lower_children(a, p, combination, upto) == lower_children(b, p, combination, upto),
    decreases upto,
{
    if upto > 0 {
        lemma_children_prefix(a, b, p, combination, (upto - 1) as nat);
    }
}

/// Where one child of a union is replaced by one with a longer text, the text
/// of the children that reach up to it is longer, and the text of those
/// before it is the same.
pub proof fn lemma_children_grow(
    children: Seq<LayerView>,
    k: int,
    grown: LayerView,
    p: Parcel,
    combination: Combination,
    upto: nat,
)
    requires
        0 <= k < children.len(),
        upto <= children.len(),
        text_len(grown, p.child(combination, k as nat)) > text_len(
            children[k],
            p.child(combination, k as nat),
        ),
    ensures
        upto > k ==> lines_text(
            lower_children(children.update(k, grown), p, combination, upto),
        ).len() > lines_text(lower_children(children, p, combination, upto)).len(),
        upto <= k ==> lower_children(children.update(k, grown), p, combination, upto)
            == lower_children(children, p, combination, upto),
    decreases upto,
{
    let changed = children.update(k, grown);
    if upto == 0 {
    } else if upto <= k {
        lemma_children_prefix(changed, children, p, combination, upto);
    } else {
        lemma_children_grow(children, k, grown, p, combination, (upto - 1) as nat);
        let q = p.child(combination, (upto - 1) as nat);
        lemma_lines_text_concat(
            lower_children(changed, p, combination, (upto - 1) as nat),
            lower(changed[upto - 1], q),
        );
        lemma_lines_text_concat(
            lower_children(children, p, combination, (upto - 1) as nat),
            lower(children[upto - 1], q),
        );
    }
}

/// A tree with one more child under one of its unions lowers to a longer
/// text, wherever it is lowered.
pub proof fn lemma_added_child_grows(tree: LayerView, path: Seq<int>, child: LayerView, p: Parcel)
    requires
        node_at(tree, path) matches Some(node) && node is Union,
    ensures
        text_len(with_child(tree, path, child), p) > text_len(tree, p),
    decreases path.len(),
{
    match tree {
        LayerView::Union { transform, bounds, combination, children } => {
            let head = union_head(transform, p);
            let tail = union_tail(transform, p);
            let old_mid = lower_children(children, p, combination, children.len());
            lemma_lines_text_concat(head, old_mid);
            lemma_lines_text_concat(head + old_mid, tail);
            if path.len() == 0 {
                let more = children.push(child);
                let q = p.child(combination, children.len());
                let new_mid = lower_children(more, p, combination, more.len());
                lemma_children_prefix(more, children, p, combination, children.len());
                assert(more[more.len() - 1] == child);
                assert(new_mid == old_mid + lower(child, q));
                lemma_node_has_text(child, q);
                lemma_lines_text_concat(old_mid, lower(child, q));
                lemma_lines_text_concat(head, new_mid);
                lemma_lines_text_concat(head + new_mid, tail);
            } else {
                let k = path[0];
                let q = p.child(combination, k as nat);
                let grown = with_child(children[k], path.drop_first(), child);
                lemma_added_child_grows(children[k], path.drop_first(), child, q);
                let changed = children.update(k, grown);
                lemma_children_grow(children, k, grown, p, combination, children.len());
                let new_mid = lower_children(changed, p, combination, changed.len());
                lemma_lines_text_concat(head, new_mid);
                lemma_lines_text_concat(head + new_mid, tail);
            }
        },
        LayerView::Shape { .. } => {},
    }
}

/// Adding a child to a union of a tree changes the source of the tree.
pub proof fn law_added_child_changes_source(tree: LayerView, path: Seq<int>, child: LayerView)
    requires
        node_at(tree, path) matches Some(node) && node is Union,
    ensures
        source_text(with_child(tree, path, child)) != source_text(tree),
{
    lemma_added_child_grows(tree, path, child, root_parcel());
    let grown = with_child(tree, path, child);
    assert(source_text(grown).len() == crate::passer::map_head().len() + text_len(
        grown,
        root_parcel(),
    ) + crate::passer::map_tail().len() + crate::passer::cast_ray_text().len());
    assert(source_text(tree).len() == crate::passer::map_head().len() + text_len(
        tree,
        root_parcel(),
    ) + crate::passer::map_tail().len() + crate::passer::cast_ray_text().len());
}

/// Source that is handed over again unchanged asks for no build: once the
/// renderer has looked for work, the same source makes none wait.
pub proof fn law_unchanged_source_builds_nothing(d: ShaderGraphView, code: Seq<char>)
    ensures
        !wants_build(submitted(polled(submitted(d, code)), code), false),
        submitted(polled(submitted(d, code)), code) == polled(submitted(d, code)),
{
}

/// Source that differs from the source handed over before asks for a build,
/// and for one only: the build waits until the renderer has looked for work,
/// and not after.
pub proof fn law_changed_source_builds_once(d: ShaderGraphView, code: Seq<char>, other: Seq<char>)
    requires
        code != other,
    ensures
        wants_build(submitted(polled(submitted(d, code)), other), false),
        !wants_build(polled(submitted(polled(submitted(d, code)), other)), false),
        !wants_build(
            submitted(polled(submitted(polled(submitted(d, code)), other)), other),
            false,
        ),
{
}

/// A tree that is generated again unchanged asks for no build, and a tree
/// that got one more child asks for one.
pub proof fn law_change_detection(
    d: ShaderGraphView,
    tree: LayerView,
    path: Seq<int>,
    child: LayerView,
)
    requires
        node_at(tree, path) matches Some(node) && node is Union,
    ensures
        !wants_build(
            submitted(polled(submitted(d, source_text(tree))), source_text(tree)),
            false,
        ),
        wants_build(
            submitted(
                polled(submitted(d, source_text(tree))),
                source_text(with_child(tree, path, child)),
            ),
            false,
        ),
{
    law_added_child_changes_source(tree, path, child);
}

/// The trees that a program can hold are countable: a union in memory has no
/// more children than an index can count.
pub proof fn lemma_layer_countable(layer: Layer)
    ensures
        countable(layer@),
    decreases layer,
{
    match layer {
        Layer::Shape { .. } => {},
        Layer::Union { transform, bounds, combination, children } => {
            lemma_union_view(layer);
            assert(children.len() == children@.len());
            assert forall|i: int| 0 <= i < layer@->children.len() implies countable(
                #[trigger] layer@->children[i],
            ) by {
                lemma_layer_countable(children@[i]);
            }
        },
    }
}

/// Whether the lines `part` stand in `whole`, in a row.
pub open spec fn occurs_in(part: Seq<LineView>, whole: Seq<LineView>) -> bool {
    exists|at: int|
        0 <= at && at + part.len() <= whole.len() && #[trigger] whole.subrange(
            at,
            at + part.len(),
        ) == part
}

/// Lines that stand in the middle of three runs stand in the three in a row.
pub proof fn lemma_occurs_in_middle(
    part: Seq<LineView>,
    before: Seq<LineView>,
    middle: Seq<LineView>,
    after: Seq<LineView>,
)
    requires
        occurs_in(part, middle),
    ensures
        occurs_in(part, before + middle + after),
{
    let at = choose|at: int|
        0 <= at && at + part.len() <= middle.len() && #[trigger] middle.subrange(
            at,
            at + part.len(),
        ) == part;
    let whole = before + middle + after;
    let there = before.len() + at;
    assert(whole.subrange(there, there + part.len()) =~= middle.subrange(at, at + part.len()));
}

/// Every run of lines stands in itself.
pub proof fn lemma_occurs_in_itself(part: Seq<LineView>)
    ensures
        occurs_in(part, part),
{
    assert(part.subrange(0int, 0int + part.len()) =~= part);
}

/// The block of each of the first `upto` children of a union stands in the
/// lines of those children.
pub proof fn lemma_child_block_emitted(
    children: Seq<LayerView>,
    p: Parcel,
    combination: Combination,
    upto: nat,
    k: int,
    part: Seq<LineView>,
)
    requires
        0 <= k < upto <= children.len(),
        occurs_in(part, lower(children[k], p.child(combination, k as nat))),
    ensures
        occurs_in(part, lower_children(children, p, combination, upto)),
    decreases upto,
{
    let before = lower_children(children, p, combination, (upto - 1) as nat);
    let last = lower(children[upto - 1], p.child(combination, (upto - 1) as nat));
    if k == upto - 1 {
        lemma_occurs_in_middle(part, before, last, Seq::empty());
        assert(before + last + Seq::<LineView>::empty() =~= before + last);
    } else {
        lemma_child_block_emitted(children, p, combination, (upto - 1) as nat, k, part);
        lemma_occurs_in_middle(part, Seq::empty(), before, last);
        assert(Seq::<LineView>::empty() + before + last =~= before + last);
    }
}

/// The block of every node of a tree stands among the lines of the tree, in
/// one piece and with the names that the node was given.
pub proof fn lemma_block_emitted(tree: LayerView, p: Parcel, path: Seq<int>)
    requires
        node_at(tree, path) is Some,
    ensures
        occurs_in(
            lower(node_at(tree, path).unwrap(), parcel_at(tree, p, path)),
            lower(tree, p),
        ),
    decreases path.len(),
{
    if path.len() == 0 {
        lemma_occurs_in_itself(lower(tree, p));
    } else {
        match tree {
            LayerView::Union { transform, combination, children, .. } => {
                let k = path[0];
                let q = p.child(combination, k as nat);
                let part = lower(node_at(tree, path).unwrap(), parcel_at(tree, p, path));
                lemma_block_emitted(children[k], q, path.drop_first());
                lemma_child_block_emitted(children, p, combination, children.len(), k, part);
                lemma_occurs_in_middle(
                    part,
                    union_head(transform, p),
                    lower_children(children, p, combination, children.len()),
                    union_tail(transform, p),
                );
            },
            LayerView::Shape { .. } => {},
        }
    }
}

/// Every node of a tree has its block in the source, and the block declares
/// the node's result under the node's name.
pub proof fn law_every_node_emitted(tree: LayerView, path: Seq<int>)
    requires
        node_at(tree, path) is Some,
    ensures
        occurs_in(
            lower(node_at(tree, path).unwrap(), parcel_at(tree, root_parcel(), path)),
            lower(tree, root_parcel()),
        ),
        count_stmts(
            own_lines(node_at(tree, path).unwrap(), parcel_at(tree, root_parcel(), path)),
            |s: StmtView| declares_result(s) && declared_result(s) == name_at(tree, path),
        ) == 1,
{
    lemma_block_emitted(tree, root_parcel(), path);
    let node = node_at(tree, path).unwrap();
    let p = parcel_at(tree, root_parcel(), path);
    lemma_own_counts(
        node,
        p,
        |s: StmtView| declares_result(s) && declared_result(s) == name_at(tree, path),
    );
}

/// The locals that a statement reads or writes without declaring them.
pub open spec fn names_used(s: StmtView) -> Set<Ident> {
    match s {
        StmtView::InitAccumulator { from, .. } => set![from],
        StmtView::DeclarePosition { from, .. } => match from {
            Some(id) => set![id],
            None => Set::empty(),
        },
        StmtView::Scale { name, .. } => set![name],
        StmtView::Translate { name, .. } => set![name],
        StmtView::Rotate { name, .. } => set![name],
        StmtView::Evaluate { at, .. } => set![at],
        StmtView::Correct { name, .. } => set![name],
        StmtView::Union { name, into } => set![name, into],
        StmtView::SmoothUnion { name, into, .. } => set![name, into],
        _ => Set::empty(),
    }
}

/// The local that a statement declares, if it declares one.
pub open spec fn name_declared(s: StmtView) -> Option<Ident> {
    match s {
        StmtView::InitAccumulator { name, .. } => Some(name),
        StmtView::DeclarePosition { name, .. } => Some(name),
        StmtView::Evaluate { name, .. } => Some(name),
        _ => None,
    }
}

/// Whether one of the first `upto` lines declares the local.
pub open spec fn declared_before(lines: Seq<LineView>, upto: int, id: Ident) -> bool {
    exists|j: int| 0 <= j < upto && j < lines.len() && name_declared(#[trigger] lines[j].stmt) == Some(id)
}

/// Every local that the block of a node uses is one that the node was told
/// of, the accumulator or the position of its parent, or one that the block
/// has declared on a line before.
pub proof fn law_names_are_declared(layer: LayerView, p: Parcel, i: int, id: Ident)
    requires
        0 <= i < own_lines(layer, p).len(),
        names_used(own_lines(layer, p)[i].stmt).contains(id),
    ensures
        id == p.upper_union || Some(id) == p.upper_transform || declared_before(
            own_lines(layer, p),
            i,
            id,
        ),
{
    let lines = own_lines(layer, p);
    match layer {
        LayerView::Shape { transform, sdf, .. } => {
            assert(lines.len() == 11);
            assert(name_declared(lines[2].stmt) == Some(p.position()));
            assert(name_declared(lines[6].stmt) == Some(p.result(Role::Shape)));
        },
        LayerView::Union { transform, .. } => {
            assert(lines.len() == 15);
            assert(name_declared(lines[3].stmt) == Some(p.result(Role::Accumulator)));
            assert(name_declared(lines[4].stmt) == Some(p.position()));
        },
    }
}

/// What a child is told of its parent is what the parent's block declares
/// before the blocks of its children: its accumulator and its position.
pub proof fn law_children_are_told_declared_names(
    transform: crate::transform_mat::Transform,
    p: Parcel,
    combination: Combination,
    index: nat,
)
    ensures
        declared_before(
            union_head(transform, p),
            union_head(transform, p).len() as int,
            p.child(combination, index).upper_union,
        ),
        p.child(combination, index).upper_transform matches Some(position) && declared_before(
            union_head(transform, p),
            union_head(transform, p).len() as int,
            position,
        ),
{
    let head = union_head(transform, p);
    assert(head.len() == 10);
    assert(name_declared(head[3].stmt) == Some(p.result(Role::Accumulator)));
    assert(name_declared(head[4].stmt) == Some(p.position()));
}

} // verus!
