use mgsdfe::datastructures::{Float, FloatOrOss, Oss, Vec3};
use mgsdfe::decimal::{Decimal};
use mgsdfe::ident::{Ident, Role};
use mgsdfe::layer::{Combination, CombinationType, Layer, SceneError, SdfType, SDF};
use mgsdfe::passer::{PassOptions, PassType, Passer};
use mgsdfe::stmt::{Line, Stmt};
use mgsdfe::transform_mat::{Bounds, Material, Transform};
use std::time::{Duration, Instant};

fn num(digits: u64, exponent: i16) -> Decimal {
    Decimal::new(false, digits, exponent)
}

fn float(value: Decimal, id: u64) -> Float {
    Float { val: FloatOrOss::Float(value), id }
}

struct Ids {
    next: u64,
}

impl Ids {
    fn take(&mut self) -> u64 {
        self.next += 1;
        self.next - 1
    }

    fn vec3(&mut self, x: Decimal, y: Decimal, z: Decimal) -> Vec3 {
        Vec3 { x: float(x, self.take()), y: float(y, self.take()), z: float(z, self.take()) }
    }

    fn transform(&mut self, rotation: (u64, u64, u64)) -> Transform {
        let one = Decimal::whole(1);
        Transform {
            position: self.vec3(one, one, one),
            rotation: self.vec3(
                Decimal::whole(rotation.0),
                Decimal::whole(rotation.1),
                Decimal::whole(rotation.2),
            ),
            scale: float(one, self.take()),
        }
    }

    fn combination(&mut self, comb: CombinationType, strength: Decimal) -> Combination {
        Combination { comb, strength: float(strength, self.take()) }
    }

    fn material(&mut self) -> Material {
        let one = Decimal::whole(1);
        Material { albedo: self.vec3(one, one, one), ..Material::default() }
    }

    fn sphere(&mut self) -> Layer {
        let one = Decimal::whole(1);
        let transform = self.transform((1, 1, 1));
        let material = self.material();
        let settings = self.vec3(Decimal::whole(5), one, one);
        Layer::Shape {
            transform,
            material,
            bounds: Bounds { automatic: false },
            sdf: SDF { sdf_type: SdfType::Sphere, settings },
        }
    }
}

/// A union that holds a sphere, an empty union and a smooth union of one
/// sphere.
fn sample_scene() -> Layer {
    let mut ids = Ids { next: 0 };
    let transform = ids.transform((1, 0, 0));
    let combination = ids.combination(CombinationType::Union, Decimal::whole(0));
    let first = ids.sphere();
    let second_transform = ids.transform((1, 0, 0));
    let second_combination = ids.combination(CombinationType::Union, Decimal::whole(1));
    let third_transform = ids.transform((1, 0, 0));
    let third_combination = ids.combination(CombinationType::SmoothUnion, num(28, -1));
    let inner = ids.sphere();
    Layer::Union {
        transform,
        bounds: Bounds { automatic: false },
        combination,
        children: vec![
            first,
            Layer::Union {
                transform: second_transform,
                bounds: Bounds { automatic: false },
                combination: second_combination,
                children: vec![],
            },
            Layer::Union {
                transform: third_transform,
                bounds: Bounds { automatic: false },
                combination: third_combination,
                children: vec![inner],
            },
        ],
    }
}

fn brute_force(tree: &Layer) -> Result<String, SceneError> {
    let mut passer =
        Passer { contents: tree, pass_options: PassOptions { pass_type: PassType::BruteForce } };
    passer.pass()
}


fn text_of(lines: &[(usize, &str)]) -> String {
    let mut out = String::new();
    for (indent, text) in lines {
        out.push_str(&"\t".repeat(*indent));
        out.push_str(text);
        out.push('\n');
    }
    out
}

const MAP_HEAD: &str =
    "Hit map(vec3 p_in) {\n\t// init\n\tHit d0u0 = Hit(100000.0);\n\tvec3 t = p_in;\n\n\t// start\n";

const MAP_TAIL: &str = "\n\treturn d0u0;\n}\n";

const CAST_RAY: &str = "\nHit cast_ray(Ray ray) {\n\tfloat t = 0.0;\n\tfor (int i = 0; i < s.steps_per_ray; i++) {\n\t\tvec3 p = ray.ro + ray.rd * t;\n\t\tHit hit = map(p);\n\t\tt += hit.d;\n\n\t\tif (hit.d < MHD) break;\n\t\tif (t > FP) break;\n\t}\n\treturn Hit(t);\n}\n";

fn source_of(lines: &[(usize, &str)]) -> String {
    format!("{}{}{}{}", MAP_HEAD, text_of(lines), MAP_TAIL, CAST_RAY)
}

fn count(haystack: &str, needle: &str) -> usize {
    haystack.matches(needle).count()
}

fn identity_sphere() -> Layer {
    Layer::Shape {
        transform: Transform::identity(),
        material: Material::default(),
        bounds: Bounds::default(),
        sdf: SDF { sdf_type: SdfType::Sphere, settings: Vec3::new_from_f32(Decimal::whole(1)) },
    }
}

fn union_of(comb: CombinationType, children: Vec<Layer>) -> Layer {
    Layer::Union {
        transform: Transform::identity(),
        bounds: Bounds::default(),
        combination: Combination { comb, strength: Float::default() },
        children,
    }
}

fn lower(tree: &Layer) -> Vec<Line> {
    let passer =
        Passer { contents: tree, pass_options: PassOptions { pass_type: PassType::BruteForce } };
    passer.lower().unwrap()
}

fn node_count(tree: &Layer) -> usize {
    match tree {
        Layer::Shape { .. } => 1,
        Layer::Union { children, .. } => 1 + children.iter().map(node_count).sum::<usize>(),
    }
}

fn declared(lines: &[Line]) -> Vec<Ident> {
    let mut names = Vec::new();
    for line in lines {
        match &line.stmt {
            Stmt::Evaluate { name, .. } => names.push(*name),
            Stmt::InitAccumulator { name, .. } => names.push(*name),
            _ => {}
        }
    }
    names
}

#[test]
fn test_pass_brute_force() {
    let data = sample_scene();
    let out = brute_force(&data).unwrap();
    println!("{out}");
    let expected = source_of(&[
        (1, "// union"),
        (1, "{"),
        (2, "// init and transform"),
        (2, "Hit d1u0 = d0u0;"),
        (2, "vec3 d1u0t = t;"),
        (2, "d1u0t /= (1);"),
        (2, "d1u0t = move(d1u0t, vec3((1), (1), (1)) * (1.0 / (1)));"),
        (2, "d1u0t = rot3D(d1u0t, vec3((1), (0), (0)));"),
        (2, "// children"),
        (2, "{"),
        (3, "// shape"),
        (3, "{"),
        (4, "vec3 d2u0t = d1u0t;"),
        (4, "d2u0t /= (1);"),
        (4, "d2u0t = move(d2u0t, vec3((1), (1), (1)) * (1.0 / (1)));"),
        (4, "d2u0t = rot3D(d2u0t, vec3((1), (1), (1)));"),
        (4, "Hit d2s0 = Hit(sdSphere(d2u0t, 1.0));"),
        (4, "// cleanup"),
        (4, "d2s0.d = scale_correction(d2s0.d, (1));"),
        (4, "d1u0 = opUnion(d2s0, d1u0);"),
        (3, "}"),
        (3, "// union"),
        (3, "{"),
        (4, "// init and transform"),
        (4, "Hit d2u1 = d1u0;"),
        (4, "vec3 d2u1t = d1u0t;"),
        (4, "d2u1t /= (1);"),
        (4, "d2u1t = move(d2u1t, vec3((1), (1), (1)) * (1.0 / (1)));"),
        (4, "d2u1t = rot3D(d2u1t, vec3((1), (0), (0)));"),
        (4, "// children"),
        (4, "{"),
        (4, "}"),
        (4, "// cleanup"),
        (4, "d2u1.d = scale_correction(d2u1.d, (1));"),
        (4, "d1u0 = opUnion(d2u1, d1u0);"),
        (3, "}"),
        (3, "// union"),
        (3, "{"),
        (4, "// init and transform"),
        (4, "Hit d2u2 = d1u0;"),
        (4, "vec3 d2u2t = d1u0t;"),
        (4, "d2u2t /= (1);"),
        (4, "d2u2t = move(d2u2t, vec3((1), (1), (1)) * (1.0 / (1)));"),
        (4, "d2u2t = rot3D(d2u2t, vec3((1), (0), (0)));"),
        (4, "// children"),
        (4, "{"),
        (5, "// shape"),
        (5, "{"),
        (6, "vec3 d3u0t = d2u2t;"),
        (6, "d3u0t /= (1);"),
        (6, "d3u0t = move(d3u0t, vec3((1), (1), (1)) * (1.0 / (1)));"),
        (6, "d3u0t = rot3D(d3u0t, vec3((1), (1), (1)));"),
        (6, "Hit d3s0 = Hit(sdSphere(d3u0t, 1.0));"),
        (6, "// cleanup"),
        (6, "d3s0.d = scale_correction(d3s0.d, (1));"),
        (6, "d2u2 = opSmoothUnion(d3s0, d2u2, (2.8));"),
        (5, "}"),
        (4, "}"),
        (4, "// cleanup"),
        (4, "d2u2.d = scale_correction(d2u2.d, (1));"),
        (4, "d1u0 = opUnion(d2u2, d1u0);"),
        (3, "}"),
        (2, "}"),
        (2, "// cleanup"),
        (2, "d1u0.d = scale_correction(d1u0.d, (1));"),
        (2, "d0u0 = opUnion(d1u0, d0u0);"),
        (1, "}"),
    ]);
    assert_eq!(out, expected);
}

fn string_memory_usage_mb(s: &String) -> f64 {
    const BYTES_PER_MB: f64 = 1_048_576.0;
    const SSO_MAX_SIZE: usize = 23;

    let struct_size = std::mem::size_of::<String>();
    let content_size = if s.len() <= SSO_MAX_SIZE { 0 } else { s.capacity() };

    let total_bytes = struct_size + content_size;
    total_bytes as f64 / BYTES_PER_MB
}

#[test]
fn test_speed() {
    let data = sample_scene();

    let mut comp_stop = vec![];

    for i in 0..10 {
        let mut tot = Duration::ZERO;

        let am = 100;
        for _ in 0..am {
            let st = Instant::now();
            let out = brute_force(&data).unwrap();
            comp_stop.push(out);

            tot += st.elapsed();
        }

        println!("AVE {i} -> {:?}", tot.div_f64(am as f64))
    }

    println!(
        "total mem -> {}mb",
        comp_stop.iter().map(|e| string_memory_usage_mb(e)).sum::<f64>()
    );

    assert_eq!(comp_stop.len(), 1000);
    assert_eq!(1, 1)
}

#[test]
fn single_sphere_under_root_union() {
    let tree = union_of(CombinationType::Union, vec![identity_sphere()]);
    let out = brute_force(&tree).unwrap();
    let expected = source_of(&[
        (1, "// union"),
        (1, "{"),
        (2, "// init and transform"),
        (2, "Hit d1u0 = d0u0;"),
        (2, "vec3 d1u0t = t;"),
        (2, "d1u0t /= (1);"),
        (2, "//position zero"),
        (2, "//rotation zero"),
        (2, "// children"),
        (2, "{"),
        (3, "// shape"),
        (3, "{"),
        (4, "vec3 d2u0t = d1u0t;"),
        (4, "d2u0t /= (1);"),
        (4, "//position zero"),
        (4, "//rotation zero"),
        (4, "Hit d2s0 = Hit(sdSphere(d2u0t, 1.0));"),
        (4, "// cleanup"),
        (4, "d2s0.d = scale_correction(d2s0.d, (1));"),
        (4, "d1u0 = opUnion(d2s0, d1u0);"),
        (3, "}"),
        (2, "}"),
        (2, "// cleanup"),
        (2, "d1u0.d = scale_correction(d1u0.d, (1));"),
        (2, "d0u0 = opUnion(d1u0, d0u0);"),
        (1, "}"),
    ]);
    assert_eq!(out, expected);
}

#[test]
fn lone_shape_is_a_scene() {
    let out = brute_force(&identity_sphere()).unwrap();
    let expected = source_of(&[
        (1, "// shape"),
        (1, "{"),
        (2, "vec3 d1u0t = t;"),
        (2, "d1u0t /= (1);"),
        (2, "//position zero"),
        (2, "//rotation zero"),
        (2, "Hit d1s0 = Hit(sdSphere(d1u0t, 1.0));"),
        (2, "// cleanup"),
        (2, "d1s0.d = scale_correction(d1s0.d, (1));"),
        (2, "d0u0 = opUnion(d1s0, d0u0);"),
        (1, "}"),
    ]);
    assert_eq!(out, expected);
}

#[test]
fn generating_twice_gives_the_same_bytes() {
    let data = sample_scene();
    let first = brute_force(&data).unwrap();
    let second = brute_force(&data).unwrap();
    assert_eq!(first.as_bytes(), second.as_bytes());
    let other = sample_scene();
    assert_eq!(brute_force(&other).unwrap(), first);
}

#[test]
fn source_ignores_slider_ids() {
    let plain = union_of(CombinationType::Union, vec![identity_sphere()]);
    let mut transform = Transform::identity();
    transform.scale.id = 77;
    transform.position.x.id = 78;
    let tagged = Layer::Union {
        transform,
        bounds: Bounds::default(),
        combination: Combination {
            comb: CombinationType::Union,
            strength: float(Decimal::whole(1), 79),
        },
        children: vec![identity_sphere()],
    };
    assert_eq!(brute_force(&plain).unwrap(), brute_force(&tagged).unwrap());
}

#[test]
fn subtraction_is_refused() {
    let tree = union_of(CombinationType::Subtraction, vec![identity_sphere()]);
    assert!(matches!(brute_force(&tree), Err(SceneError::UnsupportedCombinator)));
    let passer =
        Passer { contents: &tree, pass_options: PassOptions { pass_type: PassType::BruteForce } };
    assert!(matches!(passer.lower(), Err(SceneError::UnsupportedCombinator)));
}

#[test]
fn smooth_subtraction_is_refused_even_without_children() {
    let tree = union_of(CombinationType::SmoothSubtraction, vec![]);
    assert!(matches!(brute_force(&tree), Err(SceneError::UnsupportedCombinator)));
}

#[test]
fn subtraction_deep_in_the_tree_is_refused() {
    let tree = union_of(
        CombinationType::Union,
        vec![
            identity_sphere(),
            union_of(
                CombinationType::SmoothUnion,
                vec![union_of(CombinationType::Subtraction, vec![])],
            ),
        ],
    );
    assert!(matches!(brute_force(&tree), Err(SceneError::UnsupportedCombinator)));
}

#[test]
fn child_folds_with_the_operator_of_its_parent() {
    let tree = union_of(
        CombinationType::SmoothUnion,
        vec![union_of(CombinationType::Union, vec![identity_sphere()])],
    );
    let out = brute_force(&tree).unwrap();
    assert_eq!(count(&out, "d1u0 = opSmoothUnion(d2u0, d1u0, (1));"), 1);
    assert_eq!(count(&out, "d2u0 = opUnion(d3s0, d2u0);"), 1);
    assert_eq!(count(&out, "d0u0 = opUnion(d1u0, d0u0);"), 1);
    assert_eq!(count(&out, "opSmoothUnion("), 1);
    assert_eq!(count(&out, "opUnion("), 2);
}

#[test]
fn one_result_per_node_and_no_clash_where_branches_are_apart() {
    let data = sample_scene();
    let names = declared(&lower(&data));
    assert_eq!(names.len(), node_count(&data));
    assert_eq!(names.len(), 5);
    for i in 0..names.len() {
        for j in 0..i {
            assert_ne!(names[i], names[j]);
        }
    }
    let texts: Vec<String> = names.iter().map(|n| n.comp()).collect();
    assert_eq!(texts, vec!["d1u0", "d2s0", "d2u1", "d2u2", "d3s0"]);
}

#[test]
fn nodes_in_different_branches_may_share_a_name() {
    let tree = union_of(
        CombinationType::Union,
        vec![
            union_of(CombinationType::Union, vec![identity_sphere()]),
            union_of(CombinationType::Union, vec![identity_sphere()]),
        ],
    );
    let names = declared(&lower(&tree));
    assert_eq!(names.len(), 5);
    let texts: Vec<String> = names.iter().map(|n| n.comp()).collect();
    assert_eq!(texts, vec!["d1u0", "d2u0", "d3s0", "d2u1", "d3s0"]);
}

#[test]
fn every_block_scales_once_and_corrects_once() {
    let data = sample_scene();
    let lines = lower(&data);
    let mut scales = Vec::new();
    let mut corrections = Vec::new();
    for line in &lines {
        match &line.stmt {
            Stmt::Scale { name, .. } => scales.push(*name),
            Stmt::Correct { name, .. } => corrections.push(*name),
            _ => {}
        }
    }
    assert_eq!(scales.len(), 5);
    assert_eq!(corrections.len(), 5);
    for scale in &scales {
        assert_eq!(scale.role, Role::Position);
        let paired: Vec<&Ident> = corrections
            .iter()
            .filter(|c| c.depth == scale.depth && c.index == scale.index)
            .collect();
        assert_eq!(paired.len(), 1);
    }
}

#[test]
fn zero_position_emits_no_translation() {
    let mut transform = Transform::identity();
    transform.rotation.y = Float::new(num(5, -1));
    let tree = Layer::Shape {
        transform,
        material: Material::default(),
        bounds: Bounds::default(),
        sdf: SDF { sdf_type: SdfType::Sphere, settings: Vec3::default() },
    };
    let lines = lower(&tree);
    assert!(!lines.iter().any(|l| matches!(l.stmt, Stmt::Translate { .. })));
    assert_eq!(lines.iter().filter(|l| matches!(l.stmt, Stmt::PositionZero)).count(), 1);
    assert_eq!(lines.iter().filter(|l| matches!(l.stmt, Stmt::Rotate { .. })).count(), 1);
    assert!(!lines.iter().any(|l| matches!(l.stmt, Stmt::RotationZero)));
    let out = brute_force(&tree).unwrap();
    assert_eq!(count(&out, "move("), 0);
    assert_eq!(count(&out, "\t\t//position zero\n"), 1);
    assert_eq!(count(&out, "\t\td1u0t = rot3D(d1u0t, vec3((0), (0.5), (0)));\n"), 1);
}

#[test]
fn line_count_does_not_depend_on_the_transform() {
    let mut moved = Transform::identity();
    moved.position.z = Float::new(Decimal::new(true, 3, 0));
    moved.rotation.x = Float::new(Decimal::whole(2));
    let a = Layer::Shape {
        transform: moved,
        material: Material::default(),
        bounds: Bounds::default(),
        sdf: SDF { sdf_type: SdfType::Sphere, settings: Vec3::default() },
    };
    let b = identity_sphere();
    assert_eq!(lower(&a).len(), lower(&b).len());
    let out = brute_force(&a).unwrap();
    assert_eq!(
        count(&out, "\t\td1u0t = move(d1u0t, vec3((0), (0), (-3)) * (1.0 / (1)));\n"),
        1
    );
    assert_eq!(count(&out, "\t\td1u0t = rot3D(d1u0t, vec3((2), (0), (0)));\n"), 1);
    assert_eq!(out.lines().count(), brute_force(&b).unwrap().lines().count());
}

#[test]
fn oscillating_position_alone_moves_nothing() {
    let wave = Float {
        val: FloatOrOss::Oss(Oss { freq: Decimal::whole(2), amp: num(5, -1), phase: num(25, -2) }),
        id: 4,
    };
    let mut transform = Transform::identity();
    transform.position = Vec3 { x: wave, y: wave, z: wave };
    let tree = Layer::Shape {
        transform,
        material: Material::default(),
        bounds: Bounds::default(),
        sdf: SDF { sdf_type: SdfType::Sphere, settings: Vec3::default() },
    };
    assert_eq!(count(&brute_force(&tree).unwrap(), "move("), 0);
    transform.position.y = Float::new(Decimal::whole(1));
    let tree = Layer::Shape {
        transform,
        material: Material::default(),
        bounds: Bounds::default(),
        sdf: SDF { sdf_type: SdfType::Sphere, settings: Vec3::default() },
    };
    let out = brute_force(&tree).unwrap();
    assert_eq!(
        count(
            &out,
            "d1u0t = move(d1u0t, vec3(((0.5) * sin((2) * s.time + (0.25))), (1), ((0.5) * sin((2) * s.time + (0.25)))) * (1.0 / (1)));"
        ),
        1
    );
}

#[test]
fn cube_and_custom_fields() {
    let cube = Layer::Shape {
        transform: Transform::identity(),
        material: Material::default(),
        bounds: Bounds::default(),
        sdf: SDF { sdf_type: SdfType::Cube, settings: Vec3::default() },
    };
    let out = brute_force(&cube).unwrap();
    assert_eq!(count(&out, "Hit d1s0 = Hit(sdCube(d1u0t, vec3(1.0, 1.0, 1.0)));"), 1);
    let custom = Layer::Shape {
        transform: Transform::identity(),
        material: Material::default(),
        bounds: Bounds::default(),
        sdf: SDF {
            sdf_type: SdfType::Custom { data: "sdTorus".to_string() },
            settings: Vec3::new([Decimal::whole(2), num(5, -1), Decimal::whole(0)]),
        },
    };
    let out = brute_force(&custom).unwrap();
    assert_eq!(count(&out, "Hit d1s0 = Hit(sdTorus(d1u0t, vec3((2), (0.5), (0))));"), 1);
}

#[test]
fn deep_and_wide_trees_count_in_decimal() {
    let mut children = Vec::new();
    for _ in 0..12 {
        children.push(identity_sphere());
    }
    let mut tree = union_of(CombinationType::Union, children);
    for _ in 0..10 {
        tree = union_of(CombinationType::Union, vec![tree]);
    }
    let out = brute_force(&tree).unwrap();
    assert_eq!(count(&out, "Hit d12s11 = Hit(sdSphere(d12u11t, 1.0));"), 1);
    assert_eq!(count(&out, "d11u0 = opUnion(d12s10, d11u0);"), 1);
    assert_eq!(count(&out, "vec3 d12u10t = d11u0t;"), 1);
    assert_eq!(declared(&lower(&tree)).len(), 23);
}

#[test]
fn height_is_counted_in_levels() {
    let shape = identity_sphere();
    assert!(!shape.height_within(0));
    assert!(shape.height_within(1));
    assert!(shape.height_within(u64::MAX));
    let data = sample_scene();
    assert!(!data.height_within(2));
    assert!(data.height_within(3));
    assert!(data.height_within(4));
    let empty = union_of(CombinationType::Union, vec![]);
    assert!(empty.height_within(1));
    assert!(!empty.height_within(0));
    let lopsided = union_of(
        CombinationType::Union,
        vec![
            identity_sphere(),
            union_of(CombinationType::Union, vec![union_of(CombinationType::Union, vec![])]),
            identity_sphere(),
        ],
    );
    assert!(!lopsided.height_within(2));
    assert!(lopsided.height_within(3));
}
