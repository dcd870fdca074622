use mgsdfe::datastructures::{Float, FloatOrOss, Oss, Vec3};
use mgsdfe::decimal::{Decimal};
use mgsdfe::ident::{Ident, Role};
use mgsdfe::layer::{Combination, CombinationType, SceneError, SdfType, SDF};
use mgsdfe::transform_mat::{Bounds, Material, Transform};

fn literal(negative: bool, digits: u64, exponent: i16) -> String {
    let mut out = String::new();
    Decimal::new(negative, digits, exponent).write(&mut out);
    out
}

#[test]
fn decimal_literals() {
    assert_eq!(literal(false, 0, 0), "0");
    assert_eq!(literal(false, 1, 0), "1");
    assert_eq!(literal(false, 28, -1), "2.8");
    assert_eq!(literal(false, 1, -3), "0.001");
    assert_eq!(literal(false, 125, -3), "0.125");
    assert_eq!(literal(false, 125, -2), "1.25");
    assert_eq!(literal(false, 1021, -3), "1.021");
    assert_eq!(literal(true, 3, 0), "-3");
    assert_eq!(literal(true, 75, -1), "-7.5");
    assert_eq!(literal(false, 1, 5), "100000");
    assert_eq!(literal(false, 34028235, 31), "340282350000000000000000000000000000000");
    assert_eq!(literal(false, 1, -45), "0.000000000000000000000000000000000000000000001");
    assert_eq!(literal(false, 18446744073709551615, 0), "18446744073709551615");
    assert_eq!(literal(false, 9, 0), "9");
    assert_eq!(literal(false, 10, 0), "10");
    assert_eq!(literal(false, 10, -1), "1.0");
    assert_eq!(literal(false, 10, -2), "0.10");
    assert_eq!(literal(true, 0, 0), "-0");
}

#[test]
fn literals_agree_with_the_way_floats_are_printed() {
    assert_eq!(literal(false, 28, -1), format!("{}", 2.8f32));
    assert_eq!(literal(false, 1, 0), format!("{}", 1.0f32));
    assert_eq!(literal(false, 0, 0), format!("{}", 0.0f32));
    assert_eq!(literal(false, 1, -3), format!("{}", 0.001f32));
    assert_eq!(literal(true, 75, -1), format!("{}", -7.5f32));
    assert_eq!(literal(false, 34028235, 31), format!("{}", f32::MAX));
    assert_eq!(literal(false, 1, 5), format!("{}", 100000.0f32));
}

#[test]
fn scalar_text_and_zero_test() {
    let one = Float::new(Decimal::whole(1));
    assert_eq!(one.comp(), "(1)");
    assert!(one.is_zero());
    assert!(one.is_nonzero());
    let zero = Float::new(Decimal::whole(0));
    assert_eq!(zero.comp(), "(0)");
    assert!(!zero.is_zero());
    assert!(!zero.is_nonzero());
    let minus_zero = Float::new(Decimal::new(true, 0, 0));
    assert!(!minus_zero.is_nonzero());
    let small = Float::new(Decimal::new(false, 1, -30));
    assert!(small.is_nonzero());
    let tagged = Float { val: FloatOrOss::Float(Decimal::new(false, 28, -1)), id: 9 };
    assert_eq!(tagged.comp(), "(2.8)");
    assert_eq!(tagged.comp(), Float::new(Decimal::new(false, 28, -1)).comp());
    let default = Float::default();
    assert_eq!(default.comp(), "(1)");
    assert_eq!(default.id, 0);
}

#[test]
fn oscillator_text() {
    let wave = Float {
        val: FloatOrOss::Oss(Oss {
            freq: Decimal::whole(3),
            amp: Decimal::new(false, 5, -1),
            phase: Decimal::new(true, 1, 0),
        }),
        id: 2,
    };
    assert_eq!(wave.comp(), "((0.5) * sin((3) * s.time + (-1)))");
    assert!(!wave.is_zero());
    assert!(!wave.is_nonzero());
}

#[test]
fn vector_text_and_zero_test() {
    let v = Vec3::new([Decimal::whole(0), Decimal::new(false, 25, -1), Decimal::whole(0)]);
    assert_eq!(v.comp(), "vec3((0), (2.5), (0))");
    assert!(v.is_zero());
    assert!(v.is_nonzero());
    let zero = Vec3::new_from_f32(Decimal::whole(0));
    assert_eq!(zero.comp(), "vec3((0), (0), (0))");
    assert!(!zero.is_zero());
    let ones = Vec3::default();
    assert_eq!(ones.comp(), "vec3((1), (1), (1))");
    assert!(ones.is_nonzero());
    let last = Vec3::new([Decimal::whole(0), Decimal::whole(0), Decimal::new(true, 4, 0)]);
    assert!(last.is_nonzero());
    let first = Vec3::new([Decimal::whole(7), Decimal::whole(0), Decimal::whole(0)]);
    assert!(first.is_nonzero());
}

#[test]
fn identifier_text() {
    assert_eq!(Ident { depth: 0, index: 0, role: Role::Accumulator }.comp(), "d0u0");
    assert_eq!(Ident { depth: 3, index: 12, role: Role::Shape }.comp(), "d3s12");
    assert_eq!(Ident { depth: 10, index: 7, role: Role::Position }.comp(), "d10u7t");
    assert_eq!(
        Ident { depth: 18446744073709551615, index: 100, role: Role::Accumulator }.comp(),
        "d18446744073709551615u100"
    );
    assert_ne!(
        Ident { depth: 1, index: 23, role: Role::Accumulator }.comp(),
        Ident { depth: 12, index: 3, role: Role::Accumulator }.comp()
    );
}

#[test]
fn transform_lines() {
    let identity = Transform::identity();
    assert_eq!(
        identity.comp_map("d1u0t", "t"),
        "vec3 d1u0t = t;\nd1u0t /= (1);\n//position zero\n//rotation zero\n"
    );
    let moved = Transform {
        position: Vec3::new([Decimal::whole(1), Decimal::whole(2), Decimal::whole(3)]),
        rotation: Vec3::new([Decimal::whole(0), Decimal::new(false, 5, -1), Decimal::whole(0)]),
        scale: Float::new(Decimal::whole(2)),
    };
    assert_eq!(
        moved.comp_map("d2u1t", "d1u0t"),
        "vec3 d2u1t = d1u0t;\nd2u1t /= (2);\nd2u1t = move(d2u1t, vec3((1), (2), (3)) * (1.0 / (2)));\nd2u1t = rot3D(d2u1t, vec3((0), (0.5), (0)));\n"
    );
    assert_eq!(moved.scale_correction("d2s1"), "d2s1.d = scale_correction(d2s1.d, (2));");
    let default = Transform::default();
    assert_eq!(default.position.comp(), "vec3((1), (1), (1))");
    assert_eq!(default.scale.comp(), "(1)");
}

#[test]
fn field_expressions() {
    let sphere = SDF { sdf_type: SdfType::Sphere, settings: Vec3::default() };
    assert_eq!(sphere.comp_map("p"), "sdSphere(p, 1.0)");
    let cube = SDF { sdf_type: SdfType::Cube, settings: Vec3::default() };
    assert_eq!(cube.comp_map("d1u0t"), "sdCube(d1u0t, vec3(1.0, 1.0, 1.0))");
    let custom =
        SDF { sdf_type: SdfType::Custom { data: "sdRing".to_string() }, settings: Vec3::default() };
    assert_eq!(custom.comp_map("q"), "sdRing(q, vec3((1), (1), (1)))");
    let copy = custom.duplicate();
    assert_eq!(copy.comp_map("q"), custom.comp_map("q"));
}

#[test]
fn combination_statements() {
    let strength = Float::new(Decimal::new(false, 25, -2));
    let plain = Combination { comb: CombinationType::Union, strength };
    assert_eq!(plain.comp_map("d2s0", "d1u0").unwrap(), "d1u0 = opUnion(d2s0, d1u0);");
    let smooth = Combination { comb: CombinationType::SmoothUnion, strength };
    assert_eq!(
        smooth.comp_map("d2s0", "d1u0").unwrap(),
        "d1u0 = opSmoothUnion(d2s0, d1u0, (0.25));"
    );
    let cut = Combination { comb: CombinationType::Subtraction, strength };
    assert!(matches!(cut.comp_map("a", "b"), Err(SceneError::UnsupportedCombinator)));
    let smooth_cut = Combination { comb: CombinationType::SmoothSubtraction, strength };
    assert!(matches!(smooth_cut.comp_map("a", "b"), Err(SceneError::UnsupportedCombinator)));
    assert!(CombinationType::Union.is_supported());
    assert!(CombinationType::SmoothUnion.is_supported());
    assert!(!CombinationType::Subtraction.is_supported());
    assert!(!CombinationType::SmoothSubtraction.is_supported());
}

#[test]
fn defaults_of_material_and_bounds() {
    let material = Material::default();
    assert_eq!(material.albedo.comp(), "vec3((1), (1), (1))");
    assert_eq!(material.emissive.comp(), "vec3((0), (0), (0))");
    assert_eq!(material.spec_chance.comp(), "(0)");
    assert_eq!(material.spec_roughness.comp(), "(0)");
    assert_eq!(material.index_of_reflection.comp(), "(1)");
    assert_eq!(material.refraction_chance.comp(), "(0)");
    assert_eq!(material.refraction_roughness.comp(), "(0)");
    assert_eq!(material.refraction_color.comp(), "vec3((1), (1), (1))");
    assert!(Bounds::default().automatic);
}

#[test]
fn literals_are_read_back() {
    assert_eq!(Decimal::parse("0"), Some(Decimal::new(false, 0, 0)));
    assert_eq!(Decimal::parse("-0"), Some(Decimal::new(true, 0, 0)));
    assert_eq!(Decimal::parse("0.000"), Some(Decimal::new(false, 0, 0)));
    assert_eq!(Decimal::parse("1"), Some(Decimal::new(false, 1, 0)));
    assert_eq!(Decimal::parse("2.8"), Some(Decimal::new(false, 28, -1)));
    assert_eq!(Decimal::parse("-7.5"), Some(Decimal::new(true, 75, -1)));
    assert_eq!(Decimal::parse("0.001"), Some(Decimal::new(false, 1, -3)));
    assert_eq!(Decimal::parse("100000"), Some(Decimal::new(false, 1, 5)));
    assert_eq!(Decimal::parse("1.50"), Some(Decimal::new(false, 15, -1)));
    assert_eq!(Decimal::parse("120.0"), Some(Decimal::new(false, 12, 1)));
    assert_eq!(Decimal::parse("007"), Some(Decimal::new(false, 7, 0)));
    assert_eq!(Decimal::parse("0.10"), Some(Decimal::new(false, 1, -1)));
    assert_eq!(
        Decimal::parse("340282350000000000000000000000000000000"),
        Some(Decimal::new(false, 34028235, 31))
    );
    assert_eq!(
        Decimal::parse("18446744073709551615"),
        Some(Decimal::new(false, 18446744073709551615, 0))
    );
    assert_eq!(
        Decimal::parse("1844674407370955161.5"),
        Some(Decimal::new(false, 18446744073709551615, -1))
    );
    assert_eq!(Decimal::parse("184467440737095516150"), Some(Decimal::new(false, 18446744073709551615, 1)));
}

#[test]
fn what_is_no_literal_is_not_read() {
    for text in [
        "", "-", ".", "1.", ".5", "-.5", "1.2.3", "1e5", "+1", " 1", "1 ", "--1", "1-", "a", "1a",
        "1.a", "NaN", "inf", "-inf", "1,5", "\u{663}",
    ] {
        assert_eq!(Decimal::parse(text), None, "{text:?}");
    }
    assert_eq!(Decimal::parse("18446744073709551616"), None);
    assert_eq!(Decimal::parse("18446744073709551625"), None);
    assert_eq!(Decimal::parse("1.8446744073709551616"), None);
    assert_eq!(Decimal::parse("99999999999999999999"), None);
    let far = format!("1{}", "0".repeat(32768));
    assert_eq!(Decimal::parse(&far), None);
    let near = format!("1{}", "0".repeat(32767));
    assert_eq!(Decimal::parse(&near), Some(Decimal::new(false, 1, 32767)));
    let deep = format!("0.{}1", "0".repeat(32767));
    assert_eq!(Decimal::parse(&deep), Some(Decimal::new(false, 1, -32768)));
    let deeper = format!("0.{}1", "0".repeat(32768));
    assert_eq!(Decimal::parse(&deeper), None);
}

#[test]
fn printed_floats_are_read_and_written_alike() {
    for value in [
        0.0f32,
        -0.0,
        1.0,
        2.8,
        -7.5,
        0.001,
        1.021,
        1.137,
        90.0,
        100000.0,
        16.0,
        f32::MAX,
        f32::MIN,
        f32::MIN_POSITIVE,
        f32::EPSILON,
        1.0e-45,
        123456.79,
        0.1 + 0.2,
    ] {
        let printed = format!("{}", value);
        let read = Decimal::parse(&printed).unwrap();
        let mut written = String::new();
        read.write(&mut written);
        assert_eq!(written.parse::<f32>().unwrap().to_bits(), value.to_bits(), "{printed}");
        assert_eq!(read.is_nonzero(), value != 0.0);
        assert_eq!(Decimal::parse(&written), Some(read));
    }
    assert_eq!(Decimal::parse(&format!("{}", f32::NAN)), None);
    assert_eq!(Decimal::parse(&format!("{}", f32::INFINITY)), None);
}
