//! The statements of the generated shader, kept as values until they are
//! written out.

use vstd::prelude::*;
use vstd::string::*;
use crate::datastructures::{Float, Vec3};
use crate::ident::{Ident, ident_text, origin_text, write_origin};
use crate::layer::{
    SDF,
    SdfView,
    evaluate_text,
    smooth_union_text,
    union_text,
    write_evaluate,
    write_smooth_union,
    write_union,
};
use crate::text::{push_repeated, repeat_char};
use crate::transform_mat::{
    correction_text,
    declare_position_text,
    position_zero_text,
    rotate_text,
    rotation_zero_text,
    scale_text,
    translate_text,
    write_correction,
    write_declare_position,
    write_rotate,
    write_scale,
    write_translate,
};

verus! {

/// The comments that head the parts of a node's block.
#[derive(Clone, Copy, Debug, PartialEq, Eq, Structural)]
pub enum Remark {
    Shape,
    Union,
    InitAndTransform,
    Children,
    Cleanup,
}

/// The text of a comment.
pub open spec fn remark_text(r: Remark) -> Seq<char> {
    match r {
        Remark::Shape => "// shape"@,
        Remark::Union => "// union"@,
        Remark::InitAndTransform => "// init and transform"@,
        Remark::Children => "// children"@,
        Remark::Cleanup => "// cleanup"@,
    }
}

/// One statement of the generated shader.
#[derive(Debug)]
#[allow(inconsistent_fields)]
pub enum Stmt {
    /// A comment.
    Remark(Remark),
    /// `{`
    Open,
    /// `}`
    Close,
    /// Declares the accumulator `name`, starting from the accumulator `from`.
    InitAccumulator { name: Ident, from: Ident },
    /// Declares the position `name` as a copy of `from`; `None` is the
    /// position that `map` was called with.
    DeclarePosition { name: Ident, from: Option<Ident> },
    /// Divides the position `name` by the scale `by`.
    Scale { name: Ident, by: Float },
    /// Moves the position `name`.
    Translate { name: Ident, by: Vec3, scale: Float },
    /// Stands in for a translation that would do nothing.
    PositionZero,
    /// Turns the position `name`.
    Rotate { name: Ident, by: Vec3 },
    /// Stands in for a rotation that would do nothing.
    RotationZero,
    /// Declares the shape result `name`: the field `sdf` at the position `at`.
    Evaluate { name: Ident, at: Ident, sdf: SDF },
    /// Corrects the distance held in `name` for the scale `by`.
    Correct { name: Ident, by: Float },
    /// Folds `name` into the accumulator `into` as a plain minimum.
    Union { name: Ident, into: Ident },
    /// Folds `name` into the accumulator `into` as a smooth minimum.
    SmoothUnion { name: Ident, into: Ident, strength: Float },
}

/// One statement of the generated shader, as a value of the logic.
#[allow(inconsistent_fields)]
pub enum StmtView {
    Remark(Remark),
    Open,
    Close,
    InitAccumulator { name: Ident, from: Ident },
    DeclarePosition { name: Ident, from: Option<Ident> },
    Scale { name: Ident, by: Float },
    Translate { name: Ident, by: Vec3, scale: Float },
    PositionZero,
    Rotate { name: Ident, by: Vec3 },
    RotationZero,
    Evaluate { name: Ident, at: Ident, sdf: SdfView },
    Correct { name: Ident, by: Float },
    Union { name: Ident, into: Ident },
    SmoothUnion { name: Ident, into: Ident, strength: Float },
}

impl View for Stmt {
    type V = StmtView;

    open spec fn view(&self) -> StmtView {
        match self {
            Stmt::Remark(r) => StmtView::Remark(*r),
            Stmt::Open => StmtView::Open,
            Stmt::Close => StmtView::Close,
            Stmt::InitAccumulator { name, from } => StmtView::InitAccumulator {
                name: *name,
                from: *from,
            },
            Stmt::DeclarePosition { name, from } => StmtView::DeclarePosition {
                name: *name,
                from: *from,
            },
            Stmt::Scale { name, by } => StmtView::Scale { name: *name, by: *by },
            Stmt::Translate { name, by, scale } => StmtView::Translate {
                name: *name,
                by: *by,
                scale: *scale,
            },
            Stmt::PositionZero => StmtView::PositionZero,
            Stmt::Rotate { name, by } => StmtView::Rotate { name: *name, by: *by },
            Stmt::RotationZero => StmtView::RotationZero,
            Stmt::Evaluate { name, at, sdf } => StmtView::Evaluate {
                name: *name,
                at: *at,
                sdf: sdf@,
            },
            Stmt::Correct { name, by } => StmtView::Correct { name: *name, by: *by },
            Stmt::Union { name, into } => StmtView::Union { name: *name, into: *into },
            Stmt::SmoothUnion { name, into, strength } => StmtView::SmoothUnion {
                name: *name,
                into: *into,
                strength: *strength,
            },
        }
    }
}

/// Declares the accumulator `name`, starting from `from`.
pub open spec fn init_accumulator_text(name: Seq<char>, from: Seq<char>) -> Seq<char> {
    "Hit "@ + name + " = "@ + from + ";"@
}

/// The text of a statement, without indentation or line end.
pub open spec fn stmt_text(s: StmtView) -> Seq<char> {
    match s {
        StmtView::Remark(r) => remark_text(r),
        StmtView::Open => "{"@,
        StmtView::Close => "}"@,
        StmtView::InitAccumulator { name, from } => init_accumulator_text(
            ident_text(name),
            ident_text(from),
        ),
        StmtView::DeclarePosition { name, from } => declare_position_text(
            ident_text(name),
            origin_text(from),
        ),
        StmtView::Scale { name, by } => scale_text(ident_text(name), by),
        StmtView::Translate { name, by, scale } => translate_text(ident_text(name), by, scale),
        StmtView::PositionZero => position_zero_text(),
        StmtView::Rotate { name, by } => rotate_text(ident_text(name), by),
        StmtView::RotationZero => rotation_zero_text(),
        StmtView::Evaluate { name, at, sdf } => evaluate_text(
            ident_text(name),
            sdf,
            ident_text(at),
        ),
        StmtView::Correct { name, by } => correction_text(ident_text(name), by),
        StmtView::Union { name, into } => union_text(ident_text(name), ident_text(into)),
        StmtView::SmoothUnion { name, into, strength } => smooth_union_text(
            ident_text(name),
            ident_text(into),
            strength,
        ),
    }
}

/// A statement on a line of its own, `indent` tabs in.
#[derive(Debug)]
pub struct Line {
    pub indent: u64,
    pub stmt: Stmt,
}

/// A line, as a value of the logic.
pub struct LineView {
    pub indent: u64,
    pub stmt: StmtView,
}

impl View for Line {
    type V = LineView;

    open spec fn view(&self) -> LineView {
        LineView { indent: self.indent, stmt: self.stmt@ }
    }
}

/// The views of a run of lines, one for one.
pub open spec fn line_views(lines: Seq<Line>) -> Seq<LineView> {
    Seq::new(lines.len(), |i: int| lines[i]@)
}

/// The text of a line: its tabs, its statement, a line feed.
pub open spec fn line_text(l: LineView) -> Seq<char> {
    repeat_char('\t', l.indent as nat) + stmt_text(l.stmt) + "\n"@
}

/// The text of a run of lines, one after the other.
pub open spec fn lines_text(lines: Seq<LineView>) -> Seq<char>
    decreases lines.len(),
{
    if lines.len() == 0 {
        Seq::empty()
    } else {
        lines_text(lines.drop_last()) + line_text(lines.last())
    }
}

/// The text of two runs of lines in a row is the two texts in a row.
pub proof fn lemma_lines_text_concat(a: Seq<LineView>, b: Seq<LineView>)
    ensures
        lines_text(a + b) == lines_text(a) + lines_text(b),
    decreases b.len(),
{
    if b.len() == 0 {
        assert(a + b =~= a);
        assert(lines_text(a) + lines_text(b) =~= lines_text(a));
    } else {
        lemma_lines_text_concat(a, b.drop_last());
        assert((a + b).drop_last() =~= a + b.drop_last());
        assert((a + b).last() == b.last());
        assert(lines_text(a + b) =~= lines_text(a) + lines_text(b));
    }
}

impl Stmt {
    /// Appends the text of the statement to `out`.
    pub fn write(&self, out: &mut String)
        ensures
            final(out)@ == old(out)@ + stmt_text(self@),
    {
        let ghost start = out@;
        match self {
            Stmt::Remark(r) => {
                match r {
                    Remark::Shape => out.append("// shape"),
                    Remark::Union => out.append("// union"),
                    Remark::InitAndTransform => out.append("// init and transform"),
                    Remark::Children => out.append("// children"),
                    Remark::Cleanup => out.append("// cleanup"),
                }
            },
            Stmt::Open => out.append("{"),
            Stmt::Close => out.append("}"),
            Stmt::InitAccumulator { name, from } => {
                let n = name.comp();
                let f = from.comp();
                out.append("Hit ");
                out.append(n.as_str());
                out.append(" = ");
                out.append(f.as_str());
                out.append(";");
                assert(out@ =~= start + init_accumulator_text(ident_text(*name), ident_text(*from)));
            },
            Stmt::DeclarePosition { name, from } => {
                let n = name.comp();
                let mut f = String::new();
                write_origin(from, &mut f);
                assert(f@ =~= origin_text(*from));
                write_declare_position(out, n.as_str(), f.as_str());
            },
            Stmt::Scale { name, by } => {
                let n = name.comp();
                write_scale(out, n.as_str(), by);
            },
            Stmt::Translate { name, by, scale } => {
                let n = name.comp();
                write_translate(out, n.as_str(), by, scale);
            },
            Stmt::PositionZero => out.append("//position zero"),
            Stmt::Rotate { name, by } => {
                let n = name.comp();
                write_rotate(out, n.as_str(), by);
            },
            Stmt::RotationZero => out.append("//rotation zero"),
            Stmt::Evaluate { name, at, sdf } => {
                let n = name.comp();
                let a = at.comp();
                write_evaluate(out, n.as_str(), sdf, a.as_str());
            },
            Stmt::Correct { name, by } => {
                let n = name.comp();
                write_correction(out, n.as_str(), by);
            },
            Stmt::Union { name, into } => {
                let n = name.comp();
                let i = into.comp();
                write_union(out, n.as_str(), i.as_str());
            },
            Stmt::SmoothUnion { name, into, strength } => {
                let n = name.comp();
                let i = into.comp();
                write_smooth_union(out, n.as_str(), i.as_str(), strength);
            },
        }
    }
}

impl Line {
    /// Appends the line to `out`.
    pub fn write(&self, out: &mut String)
        ensures
            final(out)@ == old(out)@ + line_text(self@),
    {
        let ghost start = out@;
        push_repeated(out, '\t', self.indent);
        self.stmt.write(out);
        out.append("\n");
        assert(out@ =~= start + line_text(self@));
    }
}

/// Appends the lines to `out`, in order.
pub fn write_lines(lines: &Vec<Line>, out: &mut String)
    ensures
        final(out)@ == old(out)@ + lines_text(line_views(lines@)),
{
    let ghost start = out@;
    let mut i: usize = 0;
    assert(line_views(lines@).take(0) =~= Seq::<LineView>::empty());
    assert(start + lines_text(Seq::<LineView>::empty()) =~= start);
    while i < lines.len()
        invariant
            i <= lines@.len(),
            out@ == start + lines_text(line_views(lines@).take(i as int)),
        decreases lines@.len() - i,
    {
        lines[i].write(out);
        proof {
            let all = line_views(lines@);
            assert(all.take(i + 1).drop_last() =~= all.take(i as int));
            assert(all.take(i + 1).last() == lines@[i as int]@);
            assert(out@ =~= start + lines_text(all.take(i + 1)));
        }
        i = i + 1;
    }
    assert(line_views(lines@).take(i as int) =~= line_views(lines@));
}

} // verus!
