use mgsdfe::datastructures::{Float, Vec3};
use mgsdfe::decimal::{Decimal};
use mgsdfe::graph::{
    AllMyNodeTemplates, Connection, ConnectionTypes, Graph, InputParamKind, InputSocket,
    MyGraphState, NodeTypes, ValueTypes, FW, V3W,
};
use mgsdfe::graph_traverser::{
    convert_combination, convert_float, convert_sdf, convert_transform, convert_vec3, resolve,
    Traverser, DEPTH_BOUND,
};
use mgsdfe::layer::{CombinationType, Layer, SceneError, SdfType};
use mgsdfe::passer::{PassOptions, PassType, Passer};
use mgsdfe::reload::ShaderGraphData;

fn input_of(graph: &Graph, node: u64, name: &str) -> u64 {
    let node = graph.nodes.iter().find(|n| n.id == node).unwrap();
    node.inputs.iter().find(|s| s.name == name).unwrap().id
}

fn output_of(graph: &Graph, node: u64, name: &str) -> u64 {
    let node = graph.nodes.iter().find(|n| n.id == node).unwrap();
    node.outputs.iter().find(|s| s.name == name).unwrap().id
}

fn value_mut<'a>(graph: &'a mut Graph, node: u64, name: &str) -> &'a mut ValueTypes {
    let node = graph.nodes.iter_mut().find(|n| n.id == node).unwrap();
    &mut node.inputs.iter_mut().find(|s| s.name == name).unwrap().value
}

fn attach(graph: &mut Graph, parent: u64, child: u64) {
    let output = output_of(graph, parent, "Children");
    let input = input_of(graph, child, "tree_connection");
    graph.add_connection(output, input);
}

fn set_scale(graph: &mut Graph, node: u64, scale: Decimal) {
    match value_mut(graph, node, "transform") {
        ValueTypes::Transform { scale: s, .. } => s.data = Float::new(scale),
        _ => panic!("no transform"),
    }
}

fn scale_text(layer: &Layer) -> String {
    match layer {
        Layer::Shape { transform, .. } => transform.scale.comp(),
        Layer::Union { transform, .. } => transform.scale.comp(),
    }
}

fn children(layer: &Layer) -> &Vec<Layer> {
    match layer {
        Layer::Union { children, .. } => children,
        Layer::Shape { .. } => panic!("a shape has no children"),
    }
}

fn source(tree: &Layer) -> String {
    let mut passer =
        Passer { contents: tree, pass_options: PassOptions { pass_type: PassType::BruteForce } };
    passer.pass().unwrap()
}

#[test]
fn root_union_with_one_sphere_end_to_end() {
    let mut graph = Graph::new();
    let root = graph.add_node(NodeTypes::Main).unwrap();
    let shape = graph.add_node(NodeTypes::Shape).unwrap();
    attach(&mut graph, root, shape);
    let tree = resolve(&graph, root).unwrap();
    match &tree {
        Layer::Union { transform, combination, children, bounds } => {
            assert_eq!(transform.position.comp(), "vec3((0), (0), (0))");
            assert_eq!(transform.rotation.comp(), "vec3((0), (0), (0))");
            assert_eq!(transform.scale.comp(), "(1)");
            assert_eq!(combination.comb, CombinationType::Union);
            assert_eq!(combination.strength.comp(), "(1)");
            assert!(bounds.automatic);
            assert_eq!(children.len(), 1);
            match &children[0] {
                Layer::Shape { transform, sdf, material, bounds } => {
                    assert_eq!(transform.position.comp(), "vec3((0), (0), (0))");
                    assert_eq!(transform.rotation.comp(), "vec3((0), (0), (0))");
                    assert_eq!(transform.scale.comp(), "(1)");
                    assert!(matches!(sdf.sdf_type, SdfType::Sphere));
                    assert_eq!(sdf.settings.comp(), "vec3((1), (1), (1))");
                    assert_eq!(material.albedo.comp(), "vec3((1), (1), (1))");
                    assert!(bounds.automatic);
                }
                Layer::Union { .. } => panic!("the child is a shape"),
            }
        }
        Layer::Shape { .. } => panic!("the root is a union"),
    }
    let out = source(&tree);
    assert_eq!(out.matches("Hit d2s0 = Hit(sdSphere(d2u0t, 1.0));").count(), 1);
    assert_eq!(out.matches("sdSphere(").count(), 1);
    assert_eq!(out.matches("sdCube(").count(), 0);
    assert_eq!(out.matches("d1u0 = opUnion(d2s0, d1u0);").count(), 1);
    assert_eq!(out.matches("d0u0 = opUnion(d1u0, d0u0);").count(), 1);
    assert_eq!(out.matches("opUnion(").count(), 2);
    assert_eq!(out.matches("opSmoothUnion(").count(), 0);
    assert_eq!(out.matches("move(").count(), 0);
    assert_eq!(out.matches("rot3D(").count(), 0);
}

#[test]
fn compile_hands_the_source_over() {
    let mut graph = Graph::new();
    let root = graph.add_node(NodeTypes::Main).unwrap();
    let shape = graph.add_node(NodeTypes::Shape).unwrap();
    attach(&mut graph, root, shape);
    let mut data = ShaderGraphData::default();
    data.update_listener.queue_compile = false;
    let mut traverser = Traverser::new();
    traverser.start_from(root, &graph, &mut data).unwrap();
    assert!(data.update_listener.queue_compile);
    assert_eq!(data.shader_code.code, source(&resolve(&graph, root).unwrap()));
    data.update_listener.queue_compile = false;
    let mut traverser = Traverser::new();
    traverser.start_from(root, &graph, &mut data).unwrap();
    assert!(!data.update_listener.queue_compile);
    let second = graph.add_node(NodeTypes::Shape).unwrap();
    attach(&mut graph, root, second);
    traverser.start_from(root, &graph, &mut data).unwrap();
    assert!(data.update_listener.queue_compile);
    assert_eq!(data.shader_code.code.matches("sdSphere(").count(), 2);
}

#[test]
fn failed_compile_keeps_the_source() {
    let mut graph = Graph::new();
    let root = graph.add_node(NodeTypes::Main).unwrap();
    let union = graph.add_node(NodeTypes::Union).unwrap();
    attach(&mut graph, root, union);
    let mut data = ShaderGraphData::default();
    let mut traverser = Traverser::new();
    traverser.start_from(root, &graph, &mut data).unwrap();
    let kept = data.shader_code.code.clone();
    data.update_listener.queue_compile = false;
    match value_mut(&mut graph, union, "union_type") {
        ValueTypes::UnionType { ty, .. } => *ty = CombinationType::Subtraction,
        _ => panic!("no union type"),
    }
    assert!(matches!(
        traverser.start_from(root, &graph, &mut data),
        Err(SceneError::UnsupportedCombinator)
    ));
    assert_eq!(data.shader_code.code, kept);
    assert!(!data.update_listener.queue_compile);
    assert!(matches!(
        traverser.start_from(9999, &graph, &mut data),
        Err(SceneError::UnresolvedGraph)
    ));
    assert_eq!(data.shader_code.code, kept);
    assert!(!data.update_listener.queue_compile);
}

#[test]
fn missing_root_is_unresolved() {
    let mut graph = Graph::new();
    assert!(matches!(resolve(&graph, 0), Err(SceneError::UnresolvedGraph)));
    let root = graph.add_node(NodeTypes::Main).unwrap();
    assert!(resolve(&graph, root).is_ok());
    assert!(matches!(resolve(&graph, root + 1000), Err(SceneError::UnresolvedGraph)));
}

#[test]
fn transform_node_is_no_root() {
    let mut graph = Graph::new();
    let node = graph.add_node(NodeTypes::Transform).unwrap();
    assert!(matches!(resolve(&graph, node), Err(SceneError::UnresolvedGraph)));
}

#[test]
fn union_and_shape_can_be_roots() {
    let mut graph = Graph::new();
    let union = graph.add_node(NodeTypes::Union).unwrap();
    let shape = graph.add_node(NodeTypes::Shape).unwrap();
    attach(&mut graph, union, shape);
    assert_eq!(children(&resolve(&graph, union).unwrap()).len(), 1);
    assert!(matches!(resolve(&graph, shape).unwrap(), Layer::Shape { .. }));
}

#[test]
fn missing_parameter_is_unresolved() {
    let mut graph = Graph::new();
    let root = graph.add_node(NodeTypes::Main).unwrap();
    let shape = graph.add_node(NodeTypes::Shape).unwrap();
    attach(&mut graph, root, shape);
    let place = graph.nodes.iter().position(|n| n.id == shape).unwrap();
    graph.nodes[place].inputs.retain(|s| s.name != "sdf");
    assert!(matches!(resolve(&graph, root), Err(SceneError::UnresolvedGraph)));
    assert!(matches!(resolve(&graph, shape), Err(SceneError::UnresolvedGraph)));
}

#[test]
fn parameter_of_the_wrong_kind_is_unresolved() {
    let mut graph = Graph::new();
    let shape = graph.add_node(NodeTypes::Shape).unwrap();
    *value_mut(&mut graph, shape, "transform") = ValueTypes::Float { val: Decimal::whole(1) };
    assert!(matches!(resolve(&graph, shape), Err(SceneError::UnresolvedGraph)));
    let union = graph.add_node(NodeTypes::Union).unwrap();
    *value_mut(&mut graph, union, "union_type") = ValueTypes::Nothing;
    assert!(matches!(resolve(&graph, union), Err(SceneError::UnresolvedGraph)));
}

#[test]
fn parameters_are_read_from_the_sockets() {
    let mut graph = Graph::new();
    let union = graph.add_node(NodeTypes::Union).unwrap();
    let shape = graph.add_node(NodeTypes::Shape).unwrap();
    attach(&mut graph, union, shape);
    match value_mut(&mut graph, union, "union_type") {
        ValueTypes::UnionType { ty, strength, .. } => {
            *ty = CombinationType::SmoothUnion;
            strength.data = Float::new(Decimal::new(false, 28, -1));
        }
        _ => panic!("no union type"),
    }
    match value_mut(&mut graph, shape, "sdf") {
        ValueTypes::SdfData { val, data } => {
            *val = SdfType::Cube;
            data.data = Vec3::new([Decimal::whole(2), Decimal::whole(3), Decimal::whole(4)]);
        }
        _ => panic!("no sdf"),
    }
    match value_mut(&mut graph, shape, "transform") {
        ValueTypes::Transform { position, rotation, scale } => {
            position.data = Vec3::new([Decimal::whole(1), Decimal::whole(0), Decimal::whole(0)]);
            rotation.data = Vec3::new([Decimal::whole(0), Decimal::whole(0), Decimal::whole(9)]);
            scale.data = Float::new(Decimal::new(false, 5, -1));
        }
        _ => panic!("no transform"),
    }
    let tree = resolve(&graph, union).unwrap();
    match &tree {
        Layer::Union { combination, children, .. } => {
            assert_eq!(combination.comb, CombinationType::SmoothUnion);
            assert_eq!(combination.strength.comp(), "(2.8)");
            match &children[0] {
                Layer::Shape { transform, sdf, .. } => {
                    assert!(matches!(sdf.sdf_type, SdfType::Cube));
                    assert_eq!(sdf.settings.comp(), "vec3((2), (3), (4))");
                    assert_eq!(transform.position.comp(), "vec3((1), (0), (0))");
                    assert_eq!(transform.rotation.comp(), "vec3((0), (0), (9))");
                    assert_eq!(transform.scale.comp(), "(0.5)");
                }
                Layer::Union { .. } => panic!("the child is a shape"),
            }
        }
        Layer::Shape { .. } => panic!("the root is a union"),
    }
    let out = source(&tree);
    assert_eq!(out.matches("d1u0 = opSmoothUnion(d2s0, d1u0, (2.8));").count(), 1);
    assert_eq!(out.matches("d2s0.d = scale_correction(d2s0.d, (0.5));").count(), 1);
}

#[test]
fn connected_transform_is_taken_from_the_transform_node() {
    let mut graph = Graph::new();
    let shape = graph.add_node(NodeTypes::Shape).unwrap();
    let carrier = graph.add_node(NodeTypes::Transform).unwrap();
    set_scale(&mut graph, shape, Decimal::whole(2));
    set_scale(&mut graph, carrier, Decimal::whole(7));
    assert_eq!(scale_text(&resolve(&graph, shape).unwrap()), "(2)");
    let output = output_of(&graph, carrier, "Out");
    let input = input_of(&graph, shape, "transform");
    graph.add_connection(output, input);
    assert_eq!(scale_text(&resolve(&graph, shape).unwrap()), "(7)");
}

#[test]
fn transform_is_handed_on_through_a_chain() {
    let mut graph = Graph::new();
    let shape = graph.add_node(NodeTypes::Shape).unwrap();
    let near = graph.add_node(NodeTypes::Transform).unwrap();
    let far = graph.add_node(NodeTypes::Transform).unwrap();
    set_scale(&mut graph, shape, Decimal::whole(2));
    set_scale(&mut graph, near, Decimal::whole(7));
    set_scale(&mut graph, far, Decimal::whole(9));
    let out_near = output_of(&graph, near, "Out");
    let out_far = output_of(&graph, far, "Out");
    let in_shape = input_of(&graph, shape, "transform");
    let in_near = input_of(&graph, near, "transform");
    graph.add_connection(out_near, in_shape);
    graph.add_connection(out_far, in_near);
    assert_eq!(scale_text(&resolve(&graph, shape).unwrap()), "(9)");
}

#[test]
fn later_connection_to_an_input_replaces_the_earlier() {
    let mut graph = Graph::new();
    let shape = graph.add_node(NodeTypes::Shape).unwrap();
    let first = graph.add_node(NodeTypes::Transform).unwrap();
    let second = graph.add_node(NodeTypes::Transform).unwrap();
    set_scale(&mut graph, first, Decimal::whole(3));
    set_scale(&mut graph, second, Decimal::whole(4));
    let input = input_of(&graph, shape, "transform");
    let out_first = output_of(&graph, first, "Out");
    let out_second = output_of(&graph, second, "Out");
    graph.add_connection(out_first, input);
    graph.add_connection(out_second, input);
    assert_eq!(scale_text(&resolve(&graph, shape).unwrap()), "(4)");
}

#[test]
fn connection_from_an_unknown_output_is_unresolved() {
    let mut graph = Graph::new();
    let shape = graph.add_node(NodeTypes::Shape).unwrap();
    let input = input_of(&graph, shape, "transform");
    graph.connections.push(Connection { input, output: 4242 });
    assert!(matches!(resolve(&graph, shape), Err(SceneError::UnresolvedGraph)));
}

#[test]
fn transform_cycle_is_unresolved() {
    let mut graph = Graph::new();
    let shape = graph.add_node(NodeTypes::Shape).unwrap();
    let a = graph.add_node(NodeTypes::Transform).unwrap();
    let b = graph.add_node(NodeTypes::Transform).unwrap();
    let in_shape = input_of(&graph, shape, "transform");
    let in_a = input_of(&graph, a, "transform");
    let in_b = input_of(&graph, b, "transform");
    let out_a = output_of(&graph, a, "Out");
    let out_b = output_of(&graph, b, "Out");
    graph.add_connection(out_a, in_shape);
    graph.add_connection(out_b, in_a);
    graph.add_connection(out_a, in_b);
    assert!(matches!(resolve(&graph, shape), Err(SceneError::UnresolvedGraph)));
}

#[test]
fn tree_cycle_is_unresolved() {
    let mut graph = Graph::new();
    let a = graph.add_node(NodeTypes::Union).unwrap();
    let b = graph.add_node(NodeTypes::Union).unwrap();
    attach(&mut graph, a, b);
    attach(&mut graph, b, a);
    assert!(matches!(resolve(&graph, a), Err(SceneError::UnresolvedGraph)));
    let mut own = Graph::new();
    let c = own.add_node(NodeTypes::Union).unwrap();
    attach(&mut own, c, c);
    assert!(matches!(resolve(&own, c), Err(SceneError::UnresolvedGraph)));
}

#[test]
fn nesting_is_followed_down_to_the_bound_and_no_further() {
    let mut graph = Graph::new();
    let root = graph.add_node(NodeTypes::Main).unwrap();
    let mut last = root;
    for _ in 1..DEPTH_BOUND {
        let next = graph.add_node(NodeTypes::Union).unwrap();
        attach(&mut graph, last, next);
        last = next;
    }
    let tree = resolve(&graph, root).unwrap();
    let mut depth = 1;
    let mut node = &tree;
    while !children(node).is_empty() {
        node = &children(node)[0];
        depth += 1;
    }
    assert_eq!(depth, DEPTH_BOUND);
    assert_eq!(DEPTH_BOUND, 64);
    let next = graph.add_node(NodeTypes::Union).unwrap();
    attach(&mut graph, last, next);
    assert!(matches!(resolve(&graph, root), Err(SceneError::UnresolvedGraph)));
}

#[test]
fn children_come_in_the_order_of_the_connections_and_skip_other_nodes() {
    let mut graph = Graph::new();
    let root = graph.add_node(NodeTypes::Main).unwrap();
    let first = graph.add_node(NodeTypes::Shape).unwrap();
    let second = graph.add_node(NodeTypes::Union).unwrap();
    let third = graph.add_node(NodeTypes::Shape).unwrap();
    let stray = graph.add_node(NodeTypes::Transform).unwrap();
    set_scale(&mut graph, first, Decimal::whole(1));
    set_scale(&mut graph, second, Decimal::whole(2));
    set_scale(&mut graph, third, Decimal::whole(3));
    attach(&mut graph, root, third);
    let children_out = output_of(&graph, root, "Children");
    let stray_in = input_of(&graph, stray, "transform");
    graph.add_connection(children_out, stray_in);
    attach(&mut graph, root, first);
    attach(&mut graph, root, second);
    graph.connections.push(Connection { input: 777_777, output: children_out });
    let tree = resolve(&graph, root).unwrap();
    let scales: Vec<String> = children(&tree).iter().map(scale_text).collect();
    assert_eq!(scales, vec!["(3)", "(1)", "(2)"]);
    assert!(matches!(children(&tree)[2], Layer::Union { .. }));
}

#[test]
fn failing_child_fails_the_graph() {
    let mut graph = Graph::new();
    let root = graph.add_node(NodeTypes::Main).unwrap();
    let good = graph.add_node(NodeTypes::Shape).unwrap();
    let bad = graph.add_node(NodeTypes::Shape).unwrap();
    attach(&mut graph, root, good);
    attach(&mut graph, root, bad);
    assert!(resolve(&graph, root).is_ok());
    *value_mut(&mut graph, bad, "sdf") = ValueTypes::Tree;
    assert!(matches!(resolve(&graph, root), Err(SceneError::UnresolvedGraph)));
}

#[test]
fn only_tree_outputs_lead_to_children() {
    let mut graph = Graph::new();
    let root = graph.add_node(NodeTypes::Main).unwrap();
    let shape = graph.add_node(NodeTypes::Shape).unwrap();
    attach(&mut graph, root, shape);
    let place = graph.nodes.iter().position(|n| n.id == root).unwrap();
    graph.nodes[place].outputs[0].typ = ConnectionTypes::Transform;
    assert_eq!(children(&resolve(&graph, root).unwrap()).len(), 0);
}

#[test]
fn first_socket_of_a_name_is_the_one_that_counts() {
    let mut graph = Graph::new();
    let shape = graph.add_node(NodeTypes::Shape).unwrap();
    set_scale(&mut graph, shape, Decimal::whole(5));
    let place = graph.nodes.iter().position(|n| n.id == shape).unwrap();
    graph.nodes[place].inputs.push(InputSocket {
        id: 900,
        name: "transform".to_string(),
        typ: ConnectionTypes::Transform,
        value: ValueTypes::Nothing,
        kind: InputParamKind::ConstantOnly,
        shown_inline: true,
    });
    assert_eq!(scale_text(&resolve(&graph, shape).unwrap()), "(5)");
}

#[test]
fn sockets_of_new_nodes() {
    let mut graph = Graph::new();
    let main = graph.add_node(NodeTypes::Main).unwrap();
    let union = graph.add_node(NodeTypes::Union).unwrap();
    let shape = graph.add_node(NodeTypes::Shape).unwrap();
    let transform = graph.add_node(NodeTypes::Transform).unwrap();
    assert_eq!((main, union, shape, transform), (0, 2, 7, 11));
    assert_eq!(graph.next_id, 15);
    let names = |i: usize| -> (Vec<String>, Vec<String>) {
        (
            graph.nodes[i].inputs.iter().map(|s| s.name.clone()).collect(),
            graph.nodes[i].outputs.iter().map(|s| s.name.clone()).collect(),
        )
    };
    assert_eq!(names(0), (vec![], vec!["Children".to_string()]));
    assert_eq!(
        names(1),
        (
            vec!["tree_connection".to_string(), "union_type".to_string(), "transform".to_string()],
            vec!["Children".to_string()]
        )
    );
    assert_eq!(
        names(2),
        (vec!["tree_connection".to_string(), "sdf".to_string(), "transform".to_string()], vec![])
    );
    assert_eq!(
        names(3),
        (
            vec!["transform".to_string()],
            vec!["Doesn't work with\nmultiple connections".to_string(), "Out".to_string()]
        )
    );
    let ids: Vec<u64> = graph.nodes[1].inputs.iter().map(|s| s.id).collect();
    assert_eq!(ids, vec![3, 4, 5]);
    assert_eq!(graph.nodes[1].outputs[0].id, 6);
    assert_eq!(graph.nodes[1].user_data.template, NodeTypes::Union);
    let union_inputs = &graph.nodes[1].inputs;
    assert_eq!(union_inputs[0].typ, ConnectionTypes::Tree);
    assert_eq!(union_inputs[0].kind, InputParamKind::ConnectionOnly);
    assert!(matches!(union_inputs[0].value, ValueTypes::Tree));
    assert_eq!(union_inputs[1].typ, ConnectionTypes::Nothing);
    assert_eq!(union_inputs[1].kind, InputParamKind::ConstantOnly);
    match &union_inputs[1].value {
        ValueTypes::UnionType { ty, strength, order } => {
            assert_eq!(*ty, CombinationType::Union);
            assert_eq!(strength.data.comp(), "(1)");
            assert_eq!(strength.speed, Decimal::new(false, 1, -3));
            assert_eq!(strength.bounds, (Decimal::whole(0), Decimal::new(false, 34028235, 31)));
            assert!(*order);
        }
        _ => panic!("no union type"),
    }
    assert_eq!(union_inputs[2].typ, ConnectionTypes::Transform);
    assert_eq!(union_inputs[2].kind, InputParamKind::ConnectionOrConstant);
    match &union_inputs[2].value {
        ValueTypes::Transform { position, rotation, scale } => {
            assert_eq!(position.data.comp(), "vec3((0), (0), (0))");
            assert_eq!(rotation.data.comp(), "vec3((0), (0), (0))");
            assert_eq!(scale.data.comp(), "(1)");
            assert_eq!(
                position.bounds,
                (Decimal::new(true, 34028235, 31), Decimal::new(false, 34028235, 31))
            );
        }
        _ => panic!("no transform"),
    }
    assert_eq!(graph.nodes[3].inputs[0].kind, InputParamKind::ConstantOnly);
    assert_eq!(graph.nodes[3].outputs[0].typ, ConnectionTypes::Nothing);
    assert_eq!(graph.nodes[3].outputs[1].typ, ConnectionTypes::Transform);
    assert!(union_inputs.iter().all(|s| s.shown_inline));
    let (inputs, outputs) = NodeTypes::Shape.build_node(100);
    assert_eq!(inputs.iter().map(|s| s.id).collect::<Vec<u64>>(), vec![100, 101, 102]);
    assert!(outputs.is_empty());
    match &inputs[1].value {
        ValueTypes::SdfData { val, data } => {
            assert!(matches!(val, SdfType::Sphere));
            assert_eq!(data.data.comp(), "vec3((1), (1), (1))");
        }
        _ => panic!("no sdf"),
    }
}

#[test]
fn numbers_run_out() {
    let mut graph = Graph::new();
    graph.next_id = u64::MAX - 4;
    assert_eq!(graph.add_node(NodeTypes::Union), None);
    assert!(graph.nodes.is_empty());
    graph.next_id = u64::MAX - 5;
    assert_eq!(graph.add_node(NodeTypes::Union), Some(u64::MAX - 5));
    assert_eq!(graph.next_id, u64::MAX);
}

#[test]
fn kinds_and_labels() {
    assert_eq!(
        AllMyNodeTemplates.all_kinds(),
        vec![NodeTypes::Main, NodeTypes::Union, NodeTypes::Shape, NodeTypes::Transform]
    );
    assert_eq!(NodeTypes::Main.node_finder_label(), "Main");
    assert_eq!(NodeTypes::Union.node_finder_label(), "New Union");
    assert_eq!(NodeTypes::Shape.node_graph_label(), "New Shape");
    assert_eq!(NodeTypes::Transform.node_graph_label(), "New transform");
    assert_eq!(NodeTypes::Shape.user_data().template, NodeTypes::Shape);
    assert_eq!(ConnectionTypes::Float.name(), "Floating point value");
    assert_eq!(ConnectionTypes::Tree.name(), "Tree connection");
    assert_eq!(ConnectionTypes::Vec3.name(), "Vector 3");
    assert_eq!(ConnectionTypes::Nothing.name(), "None");
    assert_eq!(ConnectionTypes::Transform.name(), "Transform");
    assert!(MyGraphState::default().active_node.is_none());
}

#[test]
fn values_convert_by_kind() {
    let fw = FW::default();
    assert_eq!(convert_float(&fw).comp(), "(1)");
    assert_eq!(fw.speed, Decimal::new(false, 1, -2));
    let v3w = V3W::default();
    assert_eq!(convert_vec3(&v3w).comp(), "vec3((1), (1), (1))");
    let transform = ValueTypes::Transform { position: v3w, rotation: v3w, scale: fw };
    assert_eq!(convert_transform(&transform).unwrap().scale.comp(), "(1)");
    assert!(convert_combination(&transform).is_none());
    assert!(convert_sdf(&transform).is_none());
    let union = ValueTypes::UnionType { ty: CombinationType::SmoothUnion, strength: fw, order: false };
    assert_eq!(convert_combination(&union).unwrap().comb, CombinationType::SmoothUnion);
    assert!(convert_transform(&union).is_none());
    let sdf = ValueTypes::SdfData { val: SdfType::Custom { data: "f".to_string() }, data: v3w };
    assert_eq!(convert_sdf(&sdf).unwrap().comp_map("p"), "f(p, vec3((1), (1), (1)))");
    assert_eq!(ValueTypes::Nothing.try_to_none(), Some(0));
    assert_eq!(ValueTypes::default().try_to_none(), Some(0));
    assert_eq!(ValueTypes::Tree.try_to_none(), None);
    assert_eq!(transform.try_to_none(), None);
}
