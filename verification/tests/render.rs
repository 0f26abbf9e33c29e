use func_gen::generate_shader_code;
use func_gen::NodeBinop;
use func_gen::NodeKind;
use func_gen::NodeUnop;

fn add(lhs: NodeKind, rhs: NodeKind) -> NodeKind {
    NodeKind::Add(NodeBinop { lhs: Box::new(lhs), rhs: Box::new(rhs) })
}

fn gt(lhs: NodeKind, rhs: NodeKind) -> NodeKind {
    NodeKind::Gt(NodeBinop { lhs: Box::new(lhs), rhs: Box::new(rhs) })
}

fn sqrt(value: NodeKind) -> NodeKind {
    NodeKind::Sqrt(NodeUnop { value: Box::new(value) })
}

#[test]
fn renders_coordinate_leaves() {
    assert_eq!(generate_shader_code(&NodeKind::X), "mesh.position.x * 2.0 - 1.0");
    assert_eq!(generate_shader_code(&NodeKind::Y), "mesh.position.y * 2.0 - 1.0");
    assert_eq!(generate_shader_code(&NodeKind::Z), "mesh.position.z * 2.0 - 1.0");
}

#[test]
fn renders_time_leaf() {
    assert_eq!(generate_shader_code(&NodeKind::Time), "sin(globals.time)");
}

#[test]
fn renders_constant_as_cast_literal() {
    assert_eq!(generate_shader_code(&NodeKind::Random(300)), "f32(0.3)");
}

#[test]
fn renders_constant_edge_values() {
    assert_eq!(generate_shader_code(&NodeKind::Random(0)), "f32(0)");
    assert_eq!(generate_shader_code(&NodeKind::Random(1000)), "f32(1)");
    assert_eq!(generate_shader_code(&NodeKind::Random(-1000)), "f32(-1)");
    assert_eq!(generate_shader_code(&NodeKind::Random(305)), "f32(0.305)");
    assert_eq!(generate_shader_code(&NodeKind::Random(310)), "f32(0.31)");
    assert_eq!(generate_shader_code(&NodeKind::Random(-17)), "f32(-0.017)");
    assert_eq!(generate_shader_code(&NodeKind::Random(12)), "f32(0.012)");
    assert_eq!(generate_shader_code(&NodeKind::Random(i32::MIN)), "f32(-2147483.648)");
}

#[test]
fn renders_addition_parenthesized() {
    assert_eq!(
        generate_shader_code(&add(NodeKind::X, NodeKind::Y)),
        "(mesh.position.x * 2.0 - 1.0) + (mesh.position.y * 2.0 - 1.0)"
    );
}

#[test]
fn renders_other_binary_operators() {
    let m = NodeKind::Mult(NodeBinop {
        lhs: Box::new(NodeKind::Z),
        rhs: Box::new(NodeKind::Time),
    });
    assert_eq!(
        generate_shader_code(&m),
        "(mesh.position.z * 2.0 - 1.0) * (sin(globals.time))"
    );
    let r = NodeKind::Mod(NodeBinop {
        lhs: Box::new(NodeKind::Random(500)),
        rhs: Box::new(NodeKind::X),
    });
    assert_eq!(generate_shader_code(&r), "(f32(0.5)) % (mesh.position.x * 2.0 - 1.0)");
}

#[test]
fn renders_comparison_with_numeric_cast() {
    let rendered = generate_shader_code(&gt(NodeKind::X, NodeKind::Y));
    assert_eq!(
        rendered,
        "f32((mesh.position.x * 2.0 - 1.0) > (mesh.position.y * 2.0 - 1.0))"
    );
    assert!(rendered.starts_with("f32("));
}

#[test]
fn renders_sqrt_with_abs_guard() {
    assert_eq!(generate_shader_code(&sqrt(NodeKind::Random(-4000))), "sqrt(abs(f32(-4)))");
}

#[test]
fn renders_unary_operators() {
    let a = NodeKind::Abs(NodeUnop { value: Box::new(NodeKind::Time) });
    assert_eq!(generate_shader_code(&a), "abs(sin(globals.time))");
    let s = NodeKind::Sin(NodeUnop { value: Box::new(NodeKind::Random(500)) });
    assert_eq!(generate_shader_code(&s), "sin(f32(0.5))");
}

#[test]
fn renders_nested_tree() {
    let tree = add(sqrt(NodeKind::Random(250)), gt(NodeKind::Time, NodeKind::Z));
    assert_eq!(
        generate_shader_code(&tree),
        "(sqrt(abs(f32(0.25)))) + (f32((sin(globals.time)) > (mesh.position.z * 2.0 - 1.0)))"
    );
}
