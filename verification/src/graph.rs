//! The node graph as the compiler reads it: nodes with a kind, named sockets,
//! constants on the input sockets and connections between sockets.

use vstd::prelude::*;
use vstd::string::*;
use crate::datastructures::{Float, Vec3, constant, uniform};
use crate::decimal::{Decimal, whole};
use crate::layer::{CombinationType, SdfType, SdfTypeView};

verus! {

/// The kinds of node.
#[derive(Clone, Copy, Debug, PartialEq, Eq, Structural)]
pub enum NodeTypes {
    /// The root of a scene: a union that sits where the scene does.
    Main,
    Union,
    Shape,
    /// Holds a transform for other nodes to take over; no node of the tree.
    Transform,
}

/// The kinds of socket: what a connection carries.
#[derive(Clone, Copy, Debug, PartialEq, Eq, Structural)]
pub enum ConnectionTypes {
    /// From a union to its children.
    Tree,
    Transform,
    Float,
    Vec3,
    /// Carries nothing.
    Nothing,
}

/// Whether an input takes its value from a connection, from its own constant,
/// or from either.
#[derive(Clone, Copy, Debug, PartialEq, Eq, Structural)]
pub enum InputParamKind {
    ConnectionOnly,
    ConstantOnly,
    ConnectionOrConstant,
}

/// A scalar together with how the editor lets it be dragged.
#[derive(Clone, Copy, Debug)]
pub struct FW {
    pub data: Float,
    pub speed: Decimal,
    pub bounds: (Decimal, Decimal),
}

/// A vector together with how the editor lets it be dragged.
#[derive(Clone, Copy, Debug)]
pub struct V3W {
    pub data: Vec3,
    pub speed: Decimal,
    pub bounds: (Decimal, Decimal),
}

/// The largest value that the editor lets a scalar take.
pub open spec fn drag_max() -> Decimal {
    Decimal { negative: false, digits: 34028235, exponent: 31 }
}

/// The smallest value that the editor lets a scalar take.
pub open spec fn drag_min() -> Decimal {
    Decimal { negative: true, digits: 34028235, exponent: 31 }
}

/// The drag speed of the sockets of a new node: a thousandth.
pub open spec fn fine_speed() -> Decimal {
    Decimal { negative: false, digits: 1, exponent: (-3i16) }
}

/// The drag speed of a scalar that nothing else was said of: a hundredth.
pub open spec fn coarse_speed() -> Decimal {
    Decimal { negative: false, digits: 1, exponent: (-2i16) }
}

impl Default for FW {
    /// The constant one, free to take any value.
    fn default() -> (r: FW)
        ensures
            r == (FW { data: constant(whole(1)), speed: coarse_speed(), bounds: (drag_min(), drag_max()) }),
    {
        FW {
            data: Float::default(),
            speed: Decimal::new(false, 1, -2),
            bounds: (Decimal::new(true, 34028235, 31), Decimal::new(false, 34028235, 31)),
        }
    }
}

impl Default for V3W {
    /// Three times the constant one, free to take any value.
    fn default() -> (r: V3W)
        ensures
            r == (V3W { data: uniform(whole(1)), speed: coarse_speed(), bounds: (drag_min(), drag_max()) }),
    {
        V3W {
            data: Vec3::default(),
            speed: Decimal::new(false, 1, -2),
            bounds: (Decimal::new(true, 34028235, 31), Decimal::new(false, 34028235, 31)),
        }
    }
}

/// What an input socket holds.
#[derive(Debug)]
#[allow(inconsistent_fields)]
pub enum ValueTypes {
    Tree,
    Float { val: Decimal },
    UnionType { ty: CombinationType, strength: FW, order: bool },
    Transform { position: V3W, rotation: V3W, scale: FW },
    SdfData { val: SdfType, data: V3W },
    /// Holds nothing.
    Nothing,
}

/// What an input socket holds, as a value of the logic.
#[allow(inconsistent_fields)]
pub enum ValueView {
    Tree,
    Float { val: Decimal },
    UnionType { ty: CombinationType, strength: FW, order: bool },
    Transform { position: V3W, rotation: V3W, scale: FW },
    SdfData { val: SdfTypeView, data: V3W },
    Nothing,
}

impl View for ValueTypes {
    type V = ValueView;

    open spec fn view(&self) -> ValueView {
        match self {
            ValueTypes::Tree => ValueView::Tree,
            ValueTypes::Float { val } => ValueView::Float { val: *val },
            ValueTypes::UnionType { ty, strength, order } => ValueView::UnionType {
                ty: *ty,
                strength: *strength,
                order: *order,
            },
            ValueTypes::Transform { position, rotation, scale } => ValueView::Transform {
                position: *position,
                rotation: *rotation,
                scale: *scale,
            },
            ValueTypes::SdfData { val, data } => ValueView::SdfData { val: val@, data: *data },
            ValueTypes::Nothing => ValueView::Nothing,
        }
    }
}

impl Default for ValueTypes {
    fn default() -> (r: ValueTypes)
        ensures
            r@ == ValueView::Nothing,
    {
        ValueTypes::Nothing
    }
}

impl ValueTypes {
    /// Zero for the value that holds nothing; no other value can be taken
    /// for it.
    pub fn try_to_none(&self) -> (r: Option<i32>)
        ensures
            r == (if self@ is Nothing {
                Some(0i32)
            } else {
                None
            }),
    {
        match self {
            ValueTypes::Nothing => Some(0),
            _ => None,
        }
    }
}

/// An input socket of a node, with the constant that it holds while nothing
/// is connected to it.
#[derive(Debug)]
pub struct InputSocket {
    pub id: u64,
    pub name: String,
    pub typ: ConnectionTypes,
    pub value: ValueTypes,
    pub kind: InputParamKind,
    pub shown_inline: bool,
}

/// An output socket of a node.
#[derive(Debug)]
pub struct OutputSocket {
    pub id: u64,
    pub name: String,
    pub typ: ConnectionTypes,
}

/// What every node carries besides its sockets.
#[derive(Clone, Copy, Debug)]
pub struct MyNodeData {
    pub template: NodeTypes,
}

/// A node of the graph.
#[derive(Debug)]
pub struct Node {
    pub id: u64,
    pub inputs: Vec<InputSocket>,
    pub outputs: Vec<OutputSocket>,
    pub user_data: MyNodeData,
}

/// A connection: the input socket takes what the output socket gives.
#[derive(Clone, Copy, Debug, PartialEq, Eq, Structural)]
pub struct Connection {
    pub input: u64,
    pub output: u64,
}

/// The graph: its nodes and its connections, in the order in which they were
/// made. `next_id` is the number that the next node or socket made here gets.
#[derive(Debug)]
pub struct Graph {
    pub nodes: Vec<Node>,
    pub connections: Vec<Connection>,
    pub next_id: u64,
}

/// What the editor shares with every node: which node is shown.
#[derive(Clone, Copy, Debug)]
pub struct MyGraphState {
    pub active_node: Option<u64>,
}

impl Default for MyGraphState {
    fn default() -> (r: MyGraphState)
        ensures
            r.active_node is None,
    {
        MyGraphState { active_node: None }
    }
}

/// The list of the kinds of node that the editor offers.
#[derive(Clone, Copy, Debug)]
pub struct AllMyNodeTemplates;

impl AllMyNodeTemplates {
    /// Every kind of node, in the order of their declaration.
    pub fn all_kinds(&self) -> (r: Vec<NodeTypes>)
        ensures
            r@ == seq![NodeTypes::Main, NodeTypes::Union, NodeTypes::Shape, NodeTypes::Transform],
    {
        let mut kinds: Vec<NodeTypes> = Vec::new();
        kinds.push(NodeTypes::Main);
        kinds.push(NodeTypes::Union);
        kinds.push(NodeTypes::Shape);
        kinds.push(NodeTypes::Transform);
        assert(kinds@ =~= seq![
            NodeTypes::Main,
            NodeTypes::Union,
            NodeTypes::Shape,
            NodeTypes::Transform,
        ]);
        kinds
    }
}

impl NodeTypes {
    /// The name under which the editor offers the kind.
    pub open spec fn label(self) -> Seq<char> {
        match self {
            NodeTypes::Main => "Main"@,
            NodeTypes::Union => "New Union"@,
            NodeTypes::Shape => "New Shape"@,
            NodeTypes::Transform => "New transform"@,
        }
    }

    /// The name under which the editor offers the kind.
    pub fn node_finder_label(&self) -> (r: &'static str)
        ensures
            r@ == self.label(),
    {
        match self {
            NodeTypes::Main => "Main",
            NodeTypes::Union => "New Union",
            NodeTypes::Shape => "New Shape",
            NodeTypes::Transform => "New transform",
        }
    }

    /// The name that a node of the kind shows: the one it is offered under.
    pub fn node_graph_label(&self) -> (r: String)
        ensures
            r@ == self.label(),
    {
        String::from_str(self.node_finder_label())
    }

    /// What a new node of the kind carries.
    pub fn user_data(&self) -> (r: MyNodeData)
        ensures
            r.template == *self,
    {
        MyNodeData { template: *self }
    }
}

impl ConnectionTypes {
    /// The name of the kind of socket.
    pub open spec fn label(self) -> Seq<char> {
        match self {
            ConnectionTypes::Float => "Floating point value"@,
            ConnectionTypes::Tree => "Tree connection"@,
            ConnectionTypes::Vec3 => "Vector 3"@,
            ConnectionTypes::Nothing => "None"@,
            ConnectionTypes::Transform => "Transform"@,
        }
    }

    /// The name of the kind of socket.
    pub fn name(&self) -> (r: &'static str)
        ensures
            r@ == self.label(),
    {
        match self {
            ConnectionTypes::Float => "Floating point value",
            ConnectionTypes::Tree => "Tree connection",
            ConnectionTypes::Vec3 => "Vector 3",
            ConnectionTypes::Nothing => "None",
            ConnectionTypes::Transform => "Transform",
        }
    }
}

/// The scale socket of a new node: the constant one, draggable from zero up.
pub open spec fn unit_scalar() -> FW {
    FW { data: constant(whole(1)), speed: fine_speed(), bounds: (whole(0), drag_max()) }
}

/// The settings socket of a new shape: three times one, draggable from zero
/// up.
pub open spec fn unit_vector() -> V3W {
    V3W { data: uniform(whole(1)), speed: fine_speed(), bounds: (whole(0), drag_max()) }
}

/// The position or rotation socket of a new node: three times zero, free to
/// take any value.
pub open spec fn zero_vector() -> V3W {
    V3W { data: uniform(whole(0)), speed: fine_speed(), bounds: (drag_min(), drag_max()) }
}

/// The transform on the socket of a new node: no move, no turn, scale one.
pub open spec fn fresh_transform() -> ValueView {
    ValueView::Transform { position: zero_vector(), rotation: zero_vector(), scale: unit_scalar() }
}

/// What is laid down for an input socket of a new node.
pub struct InputSpec {
    pub name: Seq<char>,
    pub typ: ConnectionTypes,
    pub value: ValueView,
    pub kind: InputParamKind,
}

/// What is laid down for an output socket of a new node.
pub struct OutputSpec {
    pub name: Seq<char>,
    pub typ: ConnectionTypes,
}

/// The socket that ties a node to the union above it.
pub open spec fn tree_input() -> InputSpec {
    InputSpec {
        name: "tree_connection"@,
        typ: ConnectionTypes::Tree,
        value: ValueView::Tree,
        kind: InputParamKind::ConnectionOnly,
    }
}

/// The socket that holds a node's transform, or takes it from a transform
/// node.
pub open spec fn transform_input(kind: InputParamKind) -> InputSpec {
    InputSpec {
        name: "transform"@,
        typ: ConnectionTypes::Transform,
        value: fresh_transform(),
        kind,
    }
}

/// The input sockets of a new node of the kind, in order.
pub open spec fn input_specs(t: NodeTypes) -> Seq<InputSpec> {
    match t {
        NodeTypes::Main => Seq::empty(),
        NodeTypes::Union => seq![
            tree_input(),
            InputSpec {
                name: "union_type"@,
                typ: ConnectionTypes::Nothing,
                value: ValueView::UnionType {
                    ty: CombinationType::Union,
                    strength: unit_scalar(),
                    order: true,
                },
                kind: InputParamKind::ConstantOnly,
            },
            transform_input(InputParamKind::ConnectionOrConstant),
        ],
        NodeTypes::Shape => seq![
            tree_input(),
            InputSpec {
                name: "sdf"@,
                typ: ConnectionTypes::Nothing,
                value: ValueView::SdfData { val: SdfTypeView::Sphere, data: unit_vector() },
                kind: InputParamKind::ConstantOnly,
            },
            transform_input(InputParamKind::ConnectionOrConstant),
        ],
        NodeTypes::Transform => seq![transform_input(InputParamKind::ConstantOnly)],
    }
}

/// The output sockets of a new node of the kind, in order.
pub open spec fn output_specs(t: NodeTypes) -> Seq<OutputSpec> {
    match t {
        NodeTypes::Main => seq![OutputSpec { name: "Children"@, typ: ConnectionTypes::Tree }],
        NodeTypes::Union => seq![OutputSpec { name: "Children"@, typ: ConnectionTypes::Tree }],
        NodeTypes::Shape => Seq::empty(),
        NodeTypes::Transform => seq![
            OutputSpec {
                name: "Doesn't work with\nmultiple connections"@,
                typ: ConnectionTypes::Nothing,
            },
            OutputSpec { name: "Out"@, typ: ConnectionTypes::Transform },
        ],
    }
}

/// Whether the sockets are those laid down for the kind, numbered in a row
/// from `first_id`: the inputs first, then the outputs.
pub open spec fn sockets_laid_out(
    t: NodeTypes,
    first_id: u64,
    inputs: Seq<InputSocket>,
    outputs: Seq<OutputSocket>,
) -> bool {
    &&& inputs.len() == input_specs(t).len()
    &&& outputs.len() == output_specs(t).len()
    &&& forall|j: int|
        0 <= j < inputs.len() ==> {
            &&& (#[trigger] inputs[j]).id == first_id + j
            &&& inputs[j].name@ == input_specs(t)[j].name
            &&& inputs[j].typ == input_specs(t)[j].typ
            &&& inputs[j].value@ == input_specs(t)[j].value
            &&& inputs[j].kind == input_specs(t)[j].kind
            &&& inputs[j].shown_inline
        }
    &&& forall|j: int|
        0 <= j < outputs.len() ==> {
            &&& (#[trigger] outputs[j]).id == first_id + inputs.len() + j
            &&& outputs[j].name@ == output_specs(t)[j].name
            &&& outputs[j].typ == output_specs(t)[j].typ
        }
}

/// The scale socket of a new node.
fn unit_fw() -> (r: FW)
    ensures
        r == unit_scalar(),
{
    FW {
        data: Float::new(Decimal::whole(1)),
        speed: Decimal::new(false, 1, -3),
        bounds: (Decimal::whole(0), Decimal::new(false, 34028235, 31)),
    }
}

/// The position or rotation socket of a new node.
fn zero_v3w() -> (r: V3W)
    ensures
        r == zero_vector(),
{
    V3W {
        data: Vec3::new_from_f32(Decimal::whole(0)),
        speed: Decimal::new(false, 1, -3),
        bounds: (Decimal::new(true, 34028235, 31), Decimal::new(false, 34028235, 31)),
    }
}

/// The socket that ties a node to the union above it, under the number `id`.
fn tree_socket(id: u64) -> (r: InputSocket)
    ensures
        r.id == id,
        r.name@ == tree_input().name,
        r.typ == tree_input().typ,
        r.value@ == tree_input().value,
        r.kind == tree_input().kind,
        r.shown_inline,
{
    InputSocket {
        id,
        name: String::from_str("tree_connection"),
        typ: ConnectionTypes::Tree,
        value: ValueTypes::Tree,
        kind: InputParamKind::ConnectionOnly,
        shown_inline: true,
    }
}

/// The socket that holds a node's transform, under the number `id`.
fn transform_socket(id: u64, kind: InputParamKind) -> (r: InputSocket)
    ensures
        r.id == id,
        r.name@ == transform_input(kind).name,
        r.typ == transform_input(kind).typ,
        r.value@ == transform_input(kind).value,
        r.kind == kind,
        r.shown_inline,
{
    InputSocket {
        id,
        name: String::from_str("transform"),
        typ: ConnectionTypes::Transform,
        value: ValueTypes::Transform {
            position: zero_v3w(),
            rotation: zero_v3w(),
            scale: unit_fw(),
        },
        kind,
        shown_inline: true,
    }
}

impl NodeTypes {
    /// The sockets of a new node of the kind, numbered in a row from
    /// `first_id`.
    pub fn build_node(&self, first_id: u64) -> (r: (Vec<InputSocket>, Vec<OutputSocket>))
        requires
            first_id <= u64::MAX - 4,
        ensures
            sockets_laid_out(*self, first_id, r.0@, r.1@),
    {
        let mut inputs: Vec<InputSocket> = Vec::new();
        let mut outputs: Vec<OutputSocket> = Vec::new();
        match self {
            NodeTypes::Main => {
                outputs.push(
                    OutputSocket {
                        id: first_id,
                        name: String::from_str("Children"),
                        typ: ConnectionTypes::Tree,
                    },
                );
            },
            NodeTypes::Union => {
                inputs.push(tree_socket(first_id));
                inputs.push(
                    InputSocket {
                        id: first_id + 1,
                        name: String::from_str("union_type"),
                        typ: ConnectionTypes::Nothing,
                        value: ValueTypes::UnionType {
                            ty: CombinationType::Union,
                            strength: unit_fw(),
                            order: true,
                        },
                        kind: InputParamKind::ConstantOnly,
                        shown_inline: true,
                    },
                );
                inputs.push(transform_socket(first_id + 2, InputParamKind::ConnectionOrConstant));
                outputs.push(
                    OutputSocket {
                        id: first_id + 3,
                        name: String::from_str("Children"),
                        typ: ConnectionTypes::Tree,
                    },
                );
            },
            NodeTypes::Shape => {
                inputs.push(tree_socket(first_id));
                inputs.push(
                    InputSocket {
                        id: first_id + 1,
                        name: String::from_str("sdf"),
                        typ: ConnectionTypes::Nothing,
                        value: ValueTypes::SdfData {
                            val: SdfType::Sphere,
                            data: V3W {
                                data: Vec3::new_from_f32(Decimal::whole(1)),
                                speed: Decimal::new(false, 1, -3),
                                bounds: (Decimal::whole(0), Decimal::new(false, 34028235, 31)),
                            },
                        },
                        kind: InputParamKind::ConstantOnly,
                        shown_inline: true,
                    },
                );
                inputs.push(transform_socket(first_id + 2, InputParamKind::ConnectionOrConstant));
            },
            NodeTypes::Transform => {
                inputs.push(transform_socket(first_id, InputParamKind::ConstantOnly));
                outputs.push(
                    OutputSocket {
                        id: first_id + 1,
                        name: String::from_str("Doesn't work with\nmultiple connections"),
                        typ: ConnectionTypes::Nothing,
                    },
                );
                outputs.push(
                    OutputSocket {
                        id: first_id + 2,
                        name: String::from_str("Out"),
                        typ: ConnectionTypes::Transform,
                    },
                );
            },
        }
        (inputs, outputs)
    }
}

impl Graph {
    /// A graph without nodes.
    pub fn new() -> (g: Graph)
        ensures
            g.nodes@.len() == 0,
            g.connections@.len() == 0,
            g.next_id == 0,
    {
        Graph { nodes: Vec::new(), connections: Vec::new(), next_id: 0 }
    }

    /// Adds a node of the kind with the sockets laid down for it and hands
    /// out its number: the next free one, with the sockets numbered behind
    /// it. Nothing is added once the numbers run out.
    pub fn add_node(&mut self, template: NodeTypes) -> (r: Option<u64>)
        ensures
            final(self).connections == old(self).connections,
            old(self).next_id > u64::MAX - 5 ==> r is None && final(self).nodes == old(self).nodes
                && final(self).next_id == old(self).next_id,
            old(self).next_id <= u64::MAX - 5 ==> {
                &&& r == Some(old(self).next_id)
                &&& final(self).nodes@.len() == old(self).nodes@.len() + 1
                &&& final(self).nodes@.drop_last() == old(self).nodes@
                &&& final(self).nodes@.last().id == old(self).next_id
                &&& final(self).nodes@.last().user_data.template == template
                &&& sockets_laid_out(
                    template,
                    (old(self).next_id + 1) as u64,
                    final(self).nodes@.last().inputs@,
                    final(self).nodes@.last().outputs@,
                )
                &&& final(self).next_id == old(self).next_id + 1 + input_specs(template).len()
                    + output_specs(template).len()
            },
    {
        if self.next_id > u64::MAX - 5 {
            return None;
        }
        let id = self.next_id;
        let (inputs, outputs) = template.build_node(id + 1);
        let used: u64 = (inputs.len() + outputs.len()) as u64;
        self.next_id = id + 1 + used;
        self.nodes.push(Node { id, inputs, outputs, user_data: template.user_data() });
        assert(self.nodes@.drop_last() =~= old(self).nodes@);
        Some(id)
    }

    /// Adds a connection: the input socket takes what the output socket
    /// gives. A connection made later to the same input replaces this one.
    pub fn add_connection(&mut self, output: u64, input: u64)
        ensures
            final(self).nodes == old(self).nodes,
            final(self).next_id == old(self).next_id,
            final(self).connections@ == old(self).connections@.push(Connection { input, output }),
    {
        self.connections.push(Connection { input, output });
    }
}

} // verus!
