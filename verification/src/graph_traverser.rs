//! Resolving the node graph into a scene tree.
//!
//! Resolution starts from one node and follows the tree connections down.
//! A parameter is read from the node's own socket, or, where that socket is
//! fed by another node, from the socket of the same name on that node. The
//! graph is only read.

use vstd::prelude::*;
use vstd::string::*;
use std::collections::HashMap;
use crate::datastructures::{Float, Vec3, constant};
use crate::decimal::{whole};
use crate::graph::{ConnectionTypes, FW, Graph, Node, NodeTypes, V3W, ValueTypes, ValueView};
use crate::index::{
    build_index,
    indexes,
    last_value,
    lemma_last_value_is_entry,
    lookup,
    table_value,
};
use crate::layer::{
    Combination,
    CombinationType,
    Layer,
    LayerView,
    SDF,
    SceneError,
    SdfView,
    layer_views,
    lemma_tallest_within,
    lemma_union_view,
};
use crate::passer::{PassOptions, PassType, Passer, source_text};
use crate::reload::{ShaderGraphData, submitted};
use crate::transform_mat::{Bounds, Material, Transform, default_material, identity_transform};

verus! {

/// How many levels of nodes, and how many nodes in a row that hand a
/// parameter on, resolution follows before it gives the graph up.
pub const DEPTH_BOUND: u64 = 64;

/// Every node under its number: the number, then the node's place in the
/// graph.
pub open spec fn node_pairs(g: Graph) -> Seq<(u64, u64)> {
    Seq::new(g.nodes@.len(), |i: int| (g.nodes@[i].id, i as u64))
}

/// The output sockets of one node, each with the node's place.
pub open spec fn node_output_pairs(node: Node, place: u64) -> Seq<(u64, u64)> {
    Seq::new(node.outputs@.len(), |j: int| (node.outputs@[j].id, place))
}

/// The input sockets of one node, each with the node's place.
pub open spec fn node_input_pairs(node: Node, place: u64) -> Seq<(u64, u64)> {
    Seq::new(node.inputs@.len(), |j: int| (node.inputs@[j].id, place))
}

/// The output sockets of the first `upto` nodes, each with its node's place.
pub open spec fn output_pairs(g: Graph, upto: nat) -> Seq<(u64, u64)>
    decreases upto,
{
    if upto == 0 || upto > g.nodes@.len() {
        Seq::empty()
    } else {
        output_pairs(g, (upto - 1) as nat) + node_output_pairs(g.nodes@[upto - 1], (upto - 1) as u64)
    }
}

/// The input sockets of the first `upto` nodes, each with its node's place.
pub open spec fn input_pairs(g: Graph, upto: nat) -> Seq<(u64, u64)>
    decreases upto,
{
    if upto == 0 || upto > g.nodes@.len() {
        Seq::empty()
    } else {
        input_pairs(g, (upto - 1) as nat) + node_input_pairs(g.nodes@[upto - 1], (upto - 1) as u64)
    }
}

/// Every connection: the input socket, then the output socket that feeds it.
pub open spec fn connection_pairs(g: Graph) -> Seq<(u64, u64)> {
    Seq::new(g.connections@.len(), |i: int| (g.connections@[i].input, g.connections@[i].output))
}

/// The place of the node with the number `id`.
pub open spec fn find_node(g: Graph, id: u64) -> Option<u64> {
    last_value(node_pairs(g), id)
}

/// The place of the node that owns the output socket.
pub open spec fn output_owner(g: Graph, socket: u64) -> Option<u64> {
    last_value(output_pairs(g, g.nodes@.len()), socket)
}

/// The place of the node that owns the input socket.
pub open spec fn input_owner(g: Graph, socket: u64) -> Option<u64> {
    last_value(input_pairs(g, g.nodes@.len()), socket)
}

/// The output socket that feeds the input socket, if one does.
pub open spec fn feeding_output(g: Graph, socket: u64) -> Option<u64> {
    last_value(connection_pairs(g), socket)
}

/// The first input socket of the node that goes by `name`, looked for from
/// the socket at `from` on.
pub open spec fn find_input(node: Node, name: Seq<char>, from: nat) -> Option<int>
    decreases node.inputs@.len() - from,
{
    if from >= node.inputs@.len() {
        None
    } else if node.inputs@[from as int].name@ == name {
        Some(from as int)
    } else {
        find_input(node, name, from + 1)
    }
}

/// The value of the parameter `name` of the node at `node`: the constant on
/// the node's own socket or, where an output feeds that socket, the parameter
/// of the same name of the node that owns the output. `None` where a socket of
/// that name or the owner of the output is missing, or where more than `fuel`
/// nodes in a row hand the parameter on.
pub open spec fn parameter(g: Graph, node: int, name: Seq<char>, fuel: nat) -> Option<ValueTypes>
    decreases fuel,
{
    if fuel == 0 || !(0 <= node < g.nodes@.len()) {
        None
    } else {
        match find_input(g.nodes@[node], name, 0) {
            None => None,
            Some(j) => {
                let socket = g.nodes@[node].inputs@[j];
                match feeding_output(g, socket.id) {
                    None => Some(socket.value),
                    Some(output) => match output_owner(g, output) {
                        None => None,
                        Some(upstream) => parameter(g, upstream as int, name, (fuel - 1) as nat),
                    },
                }
            },
        }
    }
}

/// The nodes that take what the output socket gives: one for each of the
/// first `upto` connections that starts at the socket and ends at a socket
/// with an owner, in the order of the connections.
pub open spec fn consumers(g: Graph, output: u64, upto: nat) -> Seq<u64>
    decreases upto,
{
    if upto == 0 || upto > g.connections@.len() {
        Seq::empty()
    } else {
        let rest = consumers(g, output, (upto - 1) as nat);
        let c = g.connections@[upto - 1];
        if c.output == output && input_owner(g, c.input) is Some {
            rest.push(input_owner(g, c.input).unwrap())
        } else {
            rest
        }
    }
}

/// The nodes below the node at `node`: for each of its first `upto` output
/// sockets that carries a tree, in the order of the sockets, the consumers of
/// that socket.
pub open spec fn tree_children(g: Graph, node: int, upto: nat) -> Seq<u64>
    decreases upto,
{
    if upto == 0 || !(0 <= node < g.nodes@.len()) || upto > g.nodes@[node].outputs@.len() {
        Seq::empty()
    } else {
        let rest = tree_children(g, node, (upto - 1) as nat);
        let socket = g.nodes@[node].outputs@[upto - 1];
        if socket.typ == ConnectionTypes::Tree {
            rest + consumers(g, socket.id, g.connections@.len())
        } else {
            rest
        }
    }
}

/// The transform that a value holds, if it holds one.
pub open spec fn as_transform(v: ValueView) -> Option<Transform> {
    match v {
        ValueView::Transform { position, rotation, scale } => Some(
            Transform { position: position.data, rotation: rotation.data, scale: scale.data },
        ),
        _ => None,
    }
}

/// The way of combining that a value holds, if it holds one.
pub open spec fn as_combination(v: ValueView) -> Option<Combination> {
    match v {
        ValueView::UnionType { ty, strength, .. } => Some(
            Combination { comb: ty, strength: strength.data },
        ),
        _ => None,
    }
}

/// The distance field that a value holds, if it holds one.
pub open spec fn as_sdf(v: ValueView) -> Option<SdfView> {
    match v {
        ValueView::SdfData { val, data } => Some(SdfView { sdf_type: val, settings: data.data }),
        _ => None,
    }
}

/// The transform that the node's parameter `transform` resolves to.
pub open spec fn transform_of(g: Graph, node: int) -> Option<Transform> {
    match parameter(g, node, "transform"@, DEPTH_BOUND as nat) {
        Some(v) => as_transform(v@),
        None => None,
    }
}

/// The way of combining that the node's parameter `union_type` resolves to.
pub open spec fn combination_of(g: Graph, node: int) -> Option<Combination> {
    match parameter(g, node, "union_type"@, DEPTH_BOUND as nat) {
        Some(v) => as_combination(v@),
        None => None,
    }
}

/// The distance field that the node's parameter `sdf` resolves to.
pub open spec fn sdf_of(g: Graph, node: int) -> Option<SdfView> {
    match parameter(g, node, "sdf"@, DEPTH_BOUND as nat) {
        Some(v) => as_sdf(v@),
        None => None,
    }
}

/// How the resolution of one node ends.
pub enum Resolution {
    /// The node cannot be resolved, and with it the graph.
    Failed,
    /// The node is no node of the tree and is left out.
    Skipped,
    /// The node resolves to this tree.
    Resolved(LayerView),
}

/// The union that a main node resolves to: it sits where the scene does and
/// joins its children by a plain union.
pub open spec fn main_layer(children: Seq<LayerView>) -> LayerView {
    LayerView::Union {
        transform: identity_transform(),
        bounds: Bounds { automatic: true },
        combination: Combination { comb: CombinationType::Union, strength: constant(whole(1)) },
        children,
    }
}

/// What the node at `node` resolves to, going at most `fuel` levels down.
pub open spec fn resolve_node(g: Graph, node: int, fuel: nat) -> Resolution
    decreases fuel, 0nat,
{
    if fuel == 0 || !(0 <= node < g.nodes@.len()) {
        Resolution::Failed
    } else {
        let below = tree_children(g, node, g.nodes@[node].outputs@.len());
        match g.nodes@[node].user_data.template {
            NodeTypes::Transform => Resolution::Skipped,
            NodeTypes::Main => match resolve_all(g, below, below.len(), (fuel - 1) as nat) {
                Some(children) => Resolution::Resolved(main_layer(children)),
                None => Resolution::Failed,
            },
            NodeTypes::Union => match (transform_of(g, node), combination_of(g, node)) {
                (Some(transform), Some(combination)) => match resolve_all(
                    g,
                    below,
                    below.len(),
                    (fuel - 1) as nat,
                ) {
                    Some(children) => Resolution::Resolved(
                        LayerView::Union {
                            transform,
                            bounds: Bounds { automatic: true },
                            combination,
                            children,
                        },
                    ),
                    None => Resolution::Failed,
                },
                _ => Resolution::Failed,
            },
            NodeTypes::Shape => match (transform_of(g, node), sdf_of(g, node)) {
                (Some(transform), Some(sdf)) => Resolution::Resolved(
                    LayerView::Shape {
                        transform,
                        material: default_material(),
                        bounds: Bounds { automatic: true },
                        sdf,
                    },
                ),
                _ => Resolution::Failed,
            },
        }
    }
}

/// What the first `upto` of the nodes `below` resolve to, in order and
/// without those that are left out; `None` as soon as one of them fails.
pub open spec fn resolve_all(g: Graph, below: Seq<u64>, upto: nat, fuel: nat) -> Option<
    Seq<LayerView>,
>
    decreases fuel, upto + 1,
{
    if upto == 0 || upto > below.len() {
        Some(Seq::empty())
    } else {
        match resolve_all(g, below, (upto - 1) as nat, fuel) {
            None => None,
            Some(done) => match resolve_node(g, below[upto - 1] as int, fuel) {
                Resolution::Failed => None,
                Resolution::Skipped => Some(done),
                Resolution::Resolved(tree) => Some(done.push(tree)),
            },
        }
    }
}

/// The scene tree of the graph seen from the node with the number `root`.
/// There is none where the graph holds no such node, where that node is no
/// node of the tree, where a parameter of a node that is reached is missing
/// or holds a value of the wrong kind, or where the graph is nested more than
/// `DEPTH_BOUND` deep, as a graph with a cycle is.
pub open spec fn resolve_spec(g: Graph, root: u64) -> Option<LayerView> {
    match find_node(g, root) {
        None => None,
        Some(place) => match resolve_node(g, place as int, DEPTH_BOUND as nat) {
            Resolution::Resolved(tree) => Some(tree),
            _ => None,
        },
    }
}

/// The places that the lists of sockets give are places of nodes.
pub proof fn lemma_socket_places(g: Graph, upto: nat)
    requires
        upto <= g.nodes@.len(),
    ensures
        forall|i: int|
            0 <= i < output_pairs(g, upto).len() ==> (#[trigger] output_pairs(g, upto)[i]).1 < upto,
        forall|i: int|
            0 <= i < input_pairs(g, upto).len() ==> (#[trigger] input_pairs(g, upto)[i]).1 < upto,
    decreases upto,
{
    if upto > 0 {
        lemma_socket_places(g, (upto - 1) as nat);
        assert(g.nodes.len() == g.nodes@.len());
        let before_out = output_pairs(g, (upto - 1) as nat);
        let here_out = node_output_pairs(g.nodes@[upto - 1], (upto - 1) as u64);
        assert forall|i: int| 0 <= i < output_pairs(g, upto).len() implies (#[trigger] output_pairs(
            g,
            upto,
        )[i]).1 < upto by {
            if i < before_out.len() {
                assert(output_pairs(g, upto)[i] == before_out[i]);
            } else {
                assert(output_pairs(g, upto)[i] == here_out[i - before_out.len()]);
            }
        }
        let before_in = input_pairs(g, (upto - 1) as nat);
        let here_in = node_input_pairs(g.nodes@[upto - 1], (upto - 1) as u64);
        assert forall|i: int| 0 <= i < input_pairs(g, upto).len() implies (#[trigger] input_pairs(
            g,
            upto,
        )[i]).1 < upto by {
            if i < before_in.len() {
                assert(input_pairs(g, upto)[i] == before_in[i]);
            } else {
                assert(input_pairs(g, upto)[i] == here_in[i - before_in.len()]);
            }
        }
    }
}

/// A node that is found lies in the graph and bears the number asked for.
pub proof fn lemma_find_node(g: Graph, id: u64)
    requires
        find_node(g, id) is Some,
    ensures
        find_node(g, id).unwrap() < g.nodes@.len(),
        g.nodes@[find_node(g, id).unwrap() as int].id == id,
{
    lemma_last_value_is_entry(node_pairs(g), id);
    assert(g.nodes.len() == g.nodes@.len());
    let i = choose|i: int|
        0 <= i < node_pairs(g).len() && #[trigger] node_pairs(g)[i] == (
            id,
            find_node(g, id).unwrap(),
        );
    assert(node_pairs(g)[i] == (g.nodes@[i].id, i as u64));
}

/// The owner of a socket lies in the graph.
pub proof fn lemma_owner_in_graph(g: Graph, socket: u64)
    ensures
        output_owner(g, socket) matches Some(place) ==> place < g.nodes@.len(),
        input_owner(g, socket) matches Some(place) ==> place < g.nodes@.len(),
{
    lemma_socket_places(g, g.nodes@.len());
    if output_owner(g, socket) is Some {
        let pairs = output_pairs(g, g.nodes@.len());
        lemma_last_value_is_entry(pairs, socket);
        let i = choose|i: int|
            0 <= i < pairs.len() && #[trigger] pairs[i] == (socket, last_value(pairs, socket).unwrap());
        assert(pairs[i].1 < g.nodes@.len());
    }
    if input_owner(g, socket) is Some {
        let pairs = input_pairs(g, g.nodes@.len());
        lemma_last_value_is_entry(pairs, socket);
        let i = choose|i: int|
            0 <= i < pairs.len() && #[trigger] pairs[i] == (socket, last_value(pairs, socket).unwrap());
        assert(pairs[i].1 < g.nodes@.len());
    }
}

/// The consumers of a socket lie in the graph.
pub proof fn lemma_consumers_in_graph(g: Graph, output: u64, upto: nat)
    ensures
        forall|i: int|
            0 <= i < consumers(g, output, upto).len() ==> #[trigger] consumers(g, output, upto)[i]
                < g.nodes@.len(),
    decreases upto,
{
    if upto == 0 || upto > g.connections@.len() {
    } else {
        lemma_consumers_in_graph(g, output, (upto - 1) as nat);
        let c = g.connections@[upto - 1];
        lemma_owner_in_graph(g, c.input);
        let rest = consumers(g, output, (upto - 1) as nat);
        assert forall|i: int| 0 <= i < consumers(g, output, upto).len() implies #[trigger] consumers(
            g,
            output,
            upto,
        )[i] < g.nodes@.len() by {
            if i < rest.len() {
                assert(consumers(g, output, upto)[i] == rest[i]);
            }
        }
    }
}

/// The nodes below a node lie in the graph.
pub proof fn lemma_children_in_graph(g: Graph, node: int, upto: nat)
    ensures
        forall|i: int|
            0 <= i < tree_children(g, node, upto).len() ==> #[trigger] tree_children(g, node, upto)[i]
                < g.nodes@.len(),
    decreases upto,
{
    if upto == 0 || !(0 <= node < g.nodes@.len()) || upto > g.nodes@[node].outputs@.len() {
    } else {
        lemma_children_in_graph(g, node, (upto - 1) as nat);
        let socket = g.nodes@[node].outputs@[upto - 1];
        lemma_consumers_in_graph(g, socket.id, g.connections@.len());
        let rest = tree_children(g, node, (upto - 1) as nat);
        let added = consumers(g, socket.id, g.connections@.len());
        assert forall|i: int| 0 <= i < tree_children(g, node, upto).len() implies #[trigger] tree_children(
            g,
            node,
            upto,
        )[i] < g.nodes@.len() by {
            if i < rest.len() {
                assert(tree_children(g, node, upto)[i] == rest[i]);
            } else {
                assert(tree_children(g, node, upto)[i] == added[i - rest.len()]);
            }
        }
    }
}

/// The list of the nodes under their numbers.
fn collect_node_pairs(graph: &Graph) -> (pairs: Vec<(u64, u64)>)
    ensures
        pairs@ == node_pairs(*graph),
{
    let mut pairs: Vec<(u64, u64)> = Vec::new();
    let mut i: usize = 0;
    while i < graph.nodes.len()
        invariant
            i <= graph.nodes@.len(),
            pairs@ == node_pairs(*graph).take(i as int),
        decreases graph.nodes@.len() - i,
    {
        pairs.push((graph.nodes[i].id, i as u64));
        i = i + 1;
        assert(pairs@ =~= node_pairs(*graph).take(i as int));
    }
    assert(node_pairs(*graph).take(i as int) =~= node_pairs(*graph));
    pairs
}

/// The list of the output sockets with the places of their nodes.
fn collect_output_pairs(graph: &Graph) -> (pairs: Vec<(u64, u64)>)
    ensures
        pairs@ == output_pairs(*graph, graph.nodes@.len()),
{
    let mut pairs: Vec<(u64, u64)> = Vec::new();
    let mut i: usize = 0;
    assert(pairs@ =~= output_pairs(*graph, 0));
    while i < graph.nodes.len()
        invariant
            i <= graph.nodes@.len(),
            pairs@ == output_pairs(*graph, i as nat),
        decreases graph.nodes@.len() - i,
    {
        let node = &graph.nodes[i];
        let ghost done = pairs@;
        let mut j: usize = 0;
        while j < node.outputs.len()
            invariant
                j <= node.outputs@.len(),
                pairs@ == done + node_output_pairs(*node, i as u64).take(j as int),
            decreases node.outputs@.len() - j,
        {
            pairs.push((node.outputs[j].id, i as u64));
            j = j + 1;
            assert(pairs@ =~= done + node_output_pairs(*node, i as u64).take(j as int));
        }
        assert(node_output_pairs(*node, i as u64).take(j as int) =~= node_output_pairs(
            *node,
            i as u64,
        ));
        i = i + 1;
    }
    pairs
}

/// The list of the input sockets with the places of their nodes.
fn collect_input_pairs(graph: &Graph) -> (pairs: Vec<(u64, u64)>)
    ensures
        pairs@ == input_pairs(*graph, graph.nodes@.len()),
{
    let mut pairs: Vec<(u64, u64)> = Vec::new();
    let mut i: usize = 0;
    assert(pairs@ =~= input_pairs(*graph, 0));
    while i < graph.nodes.len()
        invariant
            i <= graph.nodes@.len(),
            pairs@ == input_pairs(*graph, i as nat),
        decreases graph.nodes@.len() - i,
    {
        let node = &graph.nodes[i];
        let ghost done = pairs@;
        let mut j: usize = 0;
        while j < node.inputs.len()
            invariant
                j <= node.inputs@.len(),
                pairs@ == done + node_input_pairs(*node, i as u64).take(j as int),
            decreases node.inputs@.len() - j,
        {
            pairs.push((node.inputs[j].id, i as u64));
            j = j + 1;
            assert(pairs@ =~= done + node_input_pairs(*node, i as u64).take(j as int));
        }
        assert(node_input_pairs(*node, i as u64).take(j as int) =~= node_input_pairs(
            *node,
            i as u64,
        ));
        i = i + 1;
    }
    pairs
}

/// The list of the connections, input socket first.
fn collect_connection_pairs(graph: &Graph) -> (pairs: Vec<(u64, u64)>)
    ensures
        pairs@ == connection_pairs(*graph),
{
    let mut pairs: Vec<(u64, u64)> = Vec::new();
    let mut i: usize = 0;
    while i < graph.connections.len()
        invariant
            i <= graph.connections@.len(),
            pairs@ == connection_pairs(*graph).take(i as int),
        decreases graph.connections@.len() - i,
    {
        pairs.push((graph.connections[i].input, graph.connections[i].output));
        i = i + 1;
        assert(pairs@ =~= connection_pairs(*graph).take(i as int));
    }
    assert(connection_pairs(*graph).take(i as int) =~= connection_pairs(*graph));
    pairs
}

/// The lookup tables of one resolution.
pub struct Traverser {
    nodes_cash: HashMap<u64, u64>,
    outputs_cash: HashMap<u64, u64>,
    inputs_cash: HashMap<u64, u64>,
    in_to_out_cash: HashMap<u64, u64>,
}

impl Traverser {
    /// Whether the tables are those of the graph `g`.
    pub closed spec fn knows(&self, g: Graph) -> bool {
        &&& indexes(self.nodes_cash@, node_pairs(g))
        &&& indexes(self.outputs_cash@, output_pairs(g, g.nodes@.len()))
        &&& indexes(self.inputs_cash@, input_pairs(g, g.nodes@.len()))
        &&& indexes(self.in_to_out_cash@, connection_pairs(g))
    }

    /// Whether the tables hold nothing.
    pub closed spec fn is_empty(&self) -> bool {
        &&& self.nodes_cash@ == Map::<u64, u64>::empty()
        &&& self.outputs_cash@ == Map::<u64, u64>::empty()
        &&& self.inputs_cash@ == Map::<u64, u64>::empty()
        &&& self.in_to_out_cash@ == Map::<u64, u64>::empty()
    }

    /// Tables that hold nothing yet.
    pub fn new() -> (r: Self)
        ensures
            r.is_empty(),
    {
        Traverser {
            nodes_cash: HashMap::new(),
            outputs_cash: HashMap::new(),
            inputs_cash: HashMap::new(),
            in_to_out_cash: HashMap::new(),
        }
    }

    /// Fills the tables from the graph: from a number to its node, from a
    /// socket to the node that owns it, and from an input socket to the
    /// output socket that feeds it.
    pub fn index(&mut self, graph: &Graph)
        ensures
            final(self).knows(*graph),
    {
        let node_pairs = collect_node_pairs(graph);
        self.nodes_cash = build_index(&node_pairs);
        let output_pairs = collect_output_pairs(graph);
        self.outputs_cash = build_index(&output_pairs);
        let input_pairs = collect_input_pairs(graph);
        self.inputs_cash = build_index(&input_pairs);
        let connection_pairs = collect_connection_pairs(graph);
        self.in_to_out_cash = build_index(&connection_pairs);
    }

    /// The place of the node with the number `id`.
    fn node_place(&self, graph: &Graph, id: u64) -> (r: Option<usize>)
        requires
            self.knows(*graph),
        ensures
            r is Some == find_node(*graph, id) is Some,
            r matches Some(place) ==> place == find_node(*graph, id).unwrap() && place
                < graph.nodes@.len(),
    {
        let found = lookup(&self.nodes_cash, id);
        let count = graph.nodes.len();
        assert(found == table_value(self.nodes_cash@, id));
        match found {
            Some(place) => {
                proof {
                    lemma_find_node(*graph, id);
                }
                assert(place < count);
                Some(place as usize)
            },
            None => None,
        }
    }

    /// The place of the node that owns the output socket.
    fn owner_of_output(&self, graph: &Graph, socket: u64) -> (r: Option<usize>)
        requires
            self.knows(*graph),
        ensures
            r is Some == output_owner(*graph, socket) is Some,
            r matches Some(place) ==> place == output_owner(*graph, socket).unwrap() && place
                < graph.nodes@.len(),
    {
        let found = lookup(&self.outputs_cash, socket);
        let count = graph.nodes.len();
        assert(found == table_value(self.outputs_cash@, socket));
        proof {
            lemma_owner_in_graph(*graph, socket);
        }
        match found {
            Some(place) => {
                assert(place < count);
                Some(place as usize)
            },
            None => None,
        }
    }

    /// The place of the node that owns the input socket.
    fn owner_of_input(&self, graph: &Graph, socket: u64) -> (r: Option<u64>)
        requires
            self.knows(*graph),
        ensures
            r == input_owner(*graph, socket),
    {
        let found = lookup(&self.inputs_cash, socket);
        assert(found == table_value(self.inputs_cash@, socket));
        found
    }

    /// The output socket that feeds the input socket.
    fn feeder(&self, graph: &Graph, socket: u64) -> (r: Option<u64>)
        requires
            self.knows(*graph),
        ensures
            r == feeding_output(*graph, socket),
    {
        let found = lookup(&self.in_to_out_cash, socket);
        assert(found == table_value(self.in_to_out_cash@, socket));
        found
    }
}

/// The place of the first input socket of the node that goes by `name`.
fn input_named(node: &Node, name: &String) -> (r: Option<usize>)
    ensures
        r is Some == find_input(*node, name@, 0) is Some,
        r matches Some(j) ==> j == find_input(*node, name@, 0).unwrap() && j < node.inputs@.len(),
{
    let mut j: usize = 0;
    while j < node.inputs.len()
        invariant
            j <= node.inputs@.len(),
            find_input(*node, name@, 0) == find_input(*node, name@, j as nat),
        decreases node.inputs@.len() - j,
    {
        if node.inputs[j].name == *name {
            return Some(j);
        }
        j = j + 1;
    }
    None
}

/// The value of the parameter `name` of the node at `node`.
fn evaluate_connection<'a>(
    traverser: &Traverser,
    graph: &'a Graph,
    node: usize,
    name: &String,
    fuel: u64,
) -> (r: Option<&'a ValueTypes>)
    requires
        traverser.knows(*graph),
    ensures
        r is Some == parameter(*graph, node as int, name@, fuel as nat) is Some,
        r matches Some(v) ==> *v == parameter(*graph, node as int, name@, fuel as nat).unwrap(),
    decreases fuel,
{
    if fuel == 0 || node >= graph.nodes.len() {
        return None;
    }
    let here = &graph.nodes[node];
    match input_named(here, name) {
        None => None,
        Some(j) => {
            let socket = &here.inputs[j];
            match traverser.feeder(graph, socket.id) {
                None => Some(&socket.value),
                Some(output) => match traverser.owner_of_output(graph, output) {
                    None => None,
                    Some(upstream) => evaluate_connection(traverser, graph, upstream, name, fuel - 1),
                },
            }
        },
    }
}

/// The nodes below the node at `node`, in the order in which they are found.
fn find_tree_children_of_node(traverser: &Traverser, graph: &Graph, node: usize) -> (r: Vec<u64>)
    requires
        traverser.knows(*graph),
        node < graph.nodes@.len(),
    ensures
        r@ == tree_children(*graph, node as int, graph.nodes@[node as int].outputs@.len()),
{
    let here = &graph.nodes[node];
    let mut found: Vec<u64> = Vec::new();
    let mut j: usize = 0;
    assert(found@ =~= tree_children(*graph, node as int, 0));
    while j < here.outputs.len()
        invariant
            traverser.knows(*graph),
            node < graph.nodes@.len(),
            *here == graph.nodes@[node as int],
            j <= here.outputs@.len(),
            found@ == tree_children(*graph, node as int, j as nat),
        decreases here.outputs@.len() - j,
    {
        let socket = &here.outputs[j];
        match socket.typ {
            ConnectionTypes::Tree => {
                let ghost before = found@;
                let mut k: usize = 0;
                assert(found@ =~= before + consumers(*graph, socket.id, 0));
                while k < graph.connections.len()
                    invariant
                        traverser.knows(*graph),
                        k <= graph.connections@.len(),
                        found@ == before + consumers(*graph, socket.id, k as nat),
                    decreases graph.connections@.len() - k,
                {
                    let c = graph.connections[k];
                    if c.output == socket.id {
                        match traverser.owner_of_input(graph, c.input) {
                            Some(owner) => {
                                found.push(owner);
                            },
                            None => {},
                        }
                    }
                    k = k + 1;
                    assert(found@ =~= before + consumers(*graph, socket.id, k as nat));
                }
            },
            _ => {},
        }
        j = j + 1;
    }
    found
}

/// The vector that a socket holds.
pub fn convert_vec3(input: &V3W) -> (r: Vec3)
    ensures
        r == input.data,
{
    input.data
}

/// The scalar that a socket holds.
pub fn convert_float(input: &FW) -> (r: Float)
    ensures
        r == input.data,
{
    input.data
}

/// The transform that a value holds; none where the value is of another
/// kind.
pub fn convert_transform(value_types: &ValueTypes) -> (r: Option<Transform>)
    ensures
        r == as_transform(value_types@),
{
    match value_types {
        ValueTypes::Transform { position, rotation, scale } => Some(
            Transform {
                position: convert_vec3(position),
                rotation: convert_vec3(rotation),
                scale: convert_float(scale),
            },
        ),
        _ => None,
    }
}

/// The way of combining that a value holds; none where the value is of
/// another kind.
pub fn convert_combination(value_types: &ValueTypes) -> (r: Option<Combination>)
    ensures
        r == as_combination(value_types@),
{
    match value_types {
        ValueTypes::UnionType { ty, strength, order: _ } => Some(
            Combination { comb: *ty, strength: convert_float(strength) },
        ),
        _ => None,
    }
}

/// The distance field that a value holds; none where the value is of another
/// kind.
pub fn convert_sdf(value_types: &ValueTypes) -> (r: Option<SDF>)
    ensures
        r is Some == as_sdf(value_types@) is Some,
        r matches Some(sdf) ==> sdf@ == as_sdf(value_types@).unwrap(),
{
    match value_types {
        ValueTypes::SdfData { val, data } => Some(
            SDF { sdf_type: val.duplicate(), settings: convert_vec3(data) },
        ),
        _ => None,
    }
}

/// Once some of the first nodes below fail, resolving more of them fails.
pub proof fn lemma_resolve_all_fails(g: Graph, below: Seq<u64>, upto: nat, more: nat, fuel: nat)
    requires
        upto <= more <= below.len(),
        resolve_all(g, below, upto, fuel) is None,
    ensures
        resolve_all(g, below, more, fuel) is None,
    decreases more,
{
    if upto < more {
        lemma_resolve_all_fails(g, below, upto, (more - 1) as nat, fuel);
    }
}

/// A tree that resolution gives is no higher than the levels it was allowed
/// to go down.
pub proof fn lemma_resolved_height(g: Graph, node: int, fuel: nat)
    ensures
        resolve_node(g, node, fuel) matches Resolution::Resolved(tree) ==> tree.height() <= fuel,
    decreases fuel, 0nat,
{
    if fuel == 0 || !(0 <= node < g.nodes@.len()) {
    } else {
        let below = tree_children(g, node, g.nodes@[node].outputs@.len());
        lemma_resolved_all_height(g, below, below.len(), (fuel - 1) as nat);
        match resolve_all(g, below, below.len(), (fuel - 1) as nat) {
            Some(children) => {
                lemma_tallest_within(children, 0, (fuel - 1) as nat);
            },
            None => {},
        }
    }
}

/// The same for the first `upto` of the nodes below a node.
pub proof fn lemma_resolved_all_height(g: Graph, below: Seq<u64>, upto: nat, fuel: nat)
    ensures
        resolve_all(g, below, upto, fuel) matches Some(children) ==> forall|i: int|
            0 <= i < children.len() ==> (#[trigger] children[i]).height() <= fuel,
    decreases fuel, upto + 1,
{
    if upto == 0 || upto > below.len() {
    } else {
        lemma_resolved_all_height(g, below, (upto - 1) as nat, fuel);
        lemma_resolved_height(g, below[upto - 1] as int, fuel);
    }
}

/// Resolves the nodes below the node at `node`, each at most `fuel` levels
/// down.
fn disclose_children(traverser: &Traverser, graph: &Graph, node: usize, fuel: u64) -> (r: Result<
    Vec<Layer>,
    SceneError,
>)
    requires
        traverser.knows(*graph),
        node < graph.nodes@.len(),
    ensures
        ({
            let below = tree_children(*graph, node as int, graph.nodes@[node as int].outputs@.len());
            match resolve_all(*graph, below, below.len(), fuel as nat) {
                Some(children) => r matches Ok(layers) && layer_views(layers@) == children,
                None => r matches Err(SceneError::UnresolvedGraph),
            }
        }),
    decreases fuel, 1nat,
{
    let below = find_tree_children_of_node(traverser, graph, node);
    let mut children: Vec<Layer> = Vec::new();
    let mut i: usize = 0;
    assert(layer_views(children@) =~= Seq::<LayerView>::empty());
    proof {
        lemma_children_in_graph(
            *graph,
            node as int,
            graph.nodes@[node as int].outputs@.len(),
        );
    }
    while i < below.len()
        invariant
            traverser.knows(*graph),
            i <= below@.len(),
            node < graph.nodes@.len(),
            below@ == tree_children(
                *graph,
                node as int,
                graph.nodes@[node as int].outputs@.len(),
            ),
            forall|k: int| 0 <= k < below@.len() ==> #[trigger] below@[k] < graph.nodes@.len(),
            resolve_all(*graph, below@, i as nat, fuel as nat) == Some(layer_views(children@)),
        decreases below@.len() - i,
    {
        let count = graph.nodes.len();
        let kid = below[i];
        assert(below@[i as int] < count);
        let ghost before = layer_views(children@);
        match disclose_node(traverser, graph, kid as usize, fuel) {
            Err(e) => {
                proof {
                    assert(resolve_all(*graph, below@, (i + 1) as nat, fuel as nat) is None);
                    lemma_resolve_all_fails(
                        *graph,
                        below@,
                        (i + 1) as nat,
                        below@.len(),
                        fuel as nat,
                    );
                }
                return Err(SceneError::UnresolvedGraph);
            },
            Ok(None) => {},
            Ok(Some(layer)) => {
                children.push(layer);
                assert(layer_views(children@) =~= before.push(layer@));
            },
        }
        i = i + 1;
    }
    Ok(children)
}

/// Resolves the node at `node`, going at most `fuel` levels down. A node
/// that is no node of the tree gives `None`.
fn disclose_node(traverser: &Traverser, graph: &Graph, node: usize, fuel: u64) -> (r: Result<
    Option<Layer>,
    SceneError,
>)
    requires
        traverser.knows(*graph),
    ensures
        match resolve_node(*graph, node as int, fuel as nat) {
            Resolution::Failed => r matches Err(SceneError::UnresolvedGraph),
            Resolution::Skipped => r matches Ok(None),
            Resolution::Resolved(tree) => r matches Ok(Some(layer)) && layer@ == tree,
        },
    decreases fuel, 0nat,
{
    if fuel == 0 || node >= graph.nodes.len() {
        return Err(SceneError::UnresolvedGraph);
    }
    match graph.nodes[node].user_data.template {
        NodeTypes::Transform => Ok(None),
        NodeTypes::Main => {
            match disclose_children(traverser, graph, node, fuel - 1) {
                Err(e) => Err(SceneError::UnresolvedGraph),
                Ok(children) => {
                    let layer = Layer::Union {
                        transform: Transform::identity(),
                        bounds: Bounds::default(),
                        combination: Combination {
                            comb: CombinationType::Union,
                            strength: Float::default(),
                        },
                        children,
                    };
                    proof {
                        lemma_union_view(layer);
                    }
                    Ok(Some(layer))
                },
            }
        },
        NodeTypes::Union => {
            let transform_key = String::from_str("transform");
            let union_key = String::from_str("union_type");
            let transform = match evaluate_connection(
                traverser,
                graph,
                node,
                &transform_key,
                DEPTH_BOUND,
            ) {
                Some(v) => convert_transform(v),
                None => None,
            };
            let combination = match evaluate_connection(
                traverser,
                graph,
                node,
                &union_key,
                DEPTH_BOUND,
            ) {
                Some(v) => convert_combination(v),
                None => None,
            };
            match (transform, combination) {
                (Some(transform), Some(combination)) => {
                    match disclose_children(traverser, graph, node, fuel - 1) {
                        Err(e) => Err(SceneError::UnresolvedGraph),
                        Ok(children) => {
                            let layer = Layer::Union {
                                transform,
                                bounds: Bounds::default(),
                                combination,
                                children,
                            };
                            proof {
                                lemma_union_view(layer);
                            }
                            Ok(Some(layer))
                        },
                    }
                },
                _ => Err(SceneError::UnresolvedGraph),
            }
        },
        NodeTypes::Shape => {
            let transform_key = String::from_str("transform");
            let sdf_key = String::from_str("sdf");
            let transform = match evaluate_connection(
                traverser,
                graph,
                node,
                &transform_key,
                DEPTH_BOUND,
            ) {
                Some(v) => convert_transform(v),
                None => None,
            };
            let sdf = match evaluate_connection(traverser, graph, node, &sdf_key, DEPTH_BOUND) {
                Some(v) => convert_sdf(v),
                None => None,
            };
            match (transform, sdf) {
                (Some(transform), Some(sdf)) => Ok(
                    Some(
                        Layer::Shape {
                            transform,
                            material: Material::default(),
                            bounds: Bounds::default(),
                            sdf,
                        },
                    ),
                ),
                _ => Err(SceneError::UnresolvedGraph),
            }
        },
    }
}

/// The scene tree of the graph seen from the node with the number `root`.
pub fn resolve(graph: &Graph, root: u64) -> (r: Result<Layer, SceneError>)
    ensures
        match resolve_spec(*graph, root) {
            Some(tree) => r matches Ok(layer) && layer@ == tree && tree.height() <= DEPTH_BOUND,
            None => r matches Err(SceneError::UnresolvedGraph),
        },
{
    let mut traverser = Traverser::new();
    traverser.index(graph);
    traverser.resolve_from(root, graph)
}

impl Traverser {
    /// The scene tree seen from the node with the number `root`, read with
    /// tables that are those of the graph.
    pub fn resolve_from(&self, root: u64, graph: &Graph) -> (r: Result<Layer, SceneError>)
        requires
            self.knows(*graph),
        ensures
            match resolve_spec(*graph, root) {
                Some(tree) => r matches Ok(layer) && layer@ == tree && tree.height() <= DEPTH_BOUND,
                None => r matches Err(SceneError::UnresolvedGraph),
            },
    {
        match self.node_place(graph, root) {
            None => Err(SceneError::UnresolvedGraph),
            Some(place) => {
                proof {
                    lemma_resolved_height(*graph, place as int, DEPTH_BOUND as nat);
                }
                match disclose_node(self, graph, place, DEPTH_BOUND) {
                    Ok(Some(layer)) => Ok(layer),
                    Ok(None) => Err(SceneError::UnresolvedGraph),
                    Err(e) => Err(SceneError::UnresolvedGraph),
                }
            },
        }
    }
}

impl Traverser {
    /// Compiles the graph seen from the node with the number
    /// `start_node_id`: fills the tables, resolves the scene tree, generates
    /// its source and hands the source over in `data`, where a build is then
    /// waiting if the source changed. A graph that does not resolve, or a
    /// tree with a union that asks for a subtraction, leaves `data` as it is.
    pub fn start_from(
        &mut self,
        start_node_id: u64,
        graph: &Graph,
        data: &mut ShaderGraphData,
    ) -> (r: Result<(), SceneError>)
        ensures
            final(self).knows(*graph),
            match resolve_spec(*graph, start_node_id) {
                None => r matches Err(SceneError::UnresolvedGraph) && final(data)@ == old(data)@,
                Some(tree) => if tree.supported() {
                    r is Ok && final(data)@ == submitted(old(data)@, source_text(tree))
                } else {
                    r matches Err(SceneError::UnsupportedCombinator) && final(data)@ == old(data)@
                },
            },
    {
        self.index(graph);
        let out = match self.resolve_from(start_node_id, graph) {
            Ok(layer) => layer,
            Err(e) => {
                return Err(SceneError::UnresolvedGraph);
            },
        };
        let mut passer = Passer {
            contents: &out,
            pass_options: PassOptions { pass_type: PassType::BruteForce },
        };
        match passer.pass() {
            Ok(code) => {
                data.submit(code);
                Ok(())
            },
            Err(e) => Err(SceneError::UnsupportedCombinator),
        }
    }
}

} // verus!
