use func_gen::generate_shader_code;
use func_gen::generate_shader_source;
use func_gen::generate_tree;
use func_gen::tree_from_draws;
use func_gen::NodeKind;

use rand::rngs::StdRng;
use rand::SeedableRng;

fn depth_of(node: &NodeKind) -> u32 {
    match node {
        NodeKind::X
        | NodeKind::Y
        | NodeKind::Z
        | NodeKind::Random(_)
        | NodeKind::Time => 0,
        NodeKind::Add(b) | NodeKind::Mult(b) | NodeKind::Mod(b) | NodeKind::Gt(b) => {
            1 + depth_of(&b.lhs).max(depth_of(&b.rhs))
        }
        NodeKind::Sqrt(u) | NodeKind::Abs(u) | NodeKind::Sin(u) => 1 + depth_of(&u.value),
    }
}

fn is_terminal(node: &NodeKind) -> bool {
    matches!(
        node,
        NodeKind::X | NodeKind::Y | NodeKind::Z | NodeKind::Random(_) | NodeKind::Time
    )
}

fn parens_balanced(text: &str) -> bool {
    let mut excess: i64 = 0;
    for c in text.chars() {
        if c == '(' {
            excess += 1;
        } else if c == ')' {
            excess -= 1;
        }
        if excess < 0 {
            return false;
        }
    }
    excess == 0
}

#[test]
fn depth_zero_always_terminal() {
    for seed in 0..200u64 {
        let mut rng = StdRng::seed_from_u64(seed);
        let tree = generate_tree(0, &mut rng);
        assert!(is_terminal(&tree));
    }
}

#[test]
fn generated_depth_stays_within_budget() {
    for seed in 0..100u64 {
        let mut rng = StdRng::seed_from_u64(seed);
        for depth in [0u32, 1, 2, 5, 9] {
            let tree = generate_tree(depth, &mut rng);
            assert!(depth_of(&tree) <= depth);
        }
    }
}

fn check_constants(node: &NodeKind) {
    match node {
        NodeKind::Random(m) => assert!((-1000..=1000).contains(m)),
        NodeKind::Add(b) | NodeKind::Mult(b) | NodeKind::Mod(b) | NodeKind::Gt(b) => {
            check_constants(&b.lhs);
            check_constants(&b.rhs);
        }
        NodeKind::Sqrt(u) | NodeKind::Abs(u) | NodeKind::Sin(u) => check_constants(&u.value),
        _ => {}
    }
}

#[test]
fn generated_constants_stay_in_unit_range() {
    for seed in 0..50u64 {
        let mut rng = StdRng::seed_from_u64(seed);
        check_constants(&generate_tree(8, &mut rng));
    }
}

#[test]
fn all_leaf_kinds_appear_at_depth_zero() {
    let mut seen = [false; 5];
    for seed in 0..500u64 {
        let mut rng = StdRng::seed_from_u64(seed);
        let k = match generate_tree(0, &mut rng) {
            NodeKind::X => 0,
            NodeKind::Y => 1,
            NodeKind::Z => 2,
            NodeKind::Random(_) => 3,
            NodeKind::Time => 4,
            _ => panic!("compound node at depth zero"),
        };
        seen[k] = true;
    }
    assert!(seen.iter().all(|s| *s));
}

#[test]
fn identical_seeds_replay_identical_trees() {
    let mut first = StdRng::seed_from_u64(424242);
    let mut second = StdRng::seed_from_u64(424242);
    for depth in [0u32, 3, 6, 10] {
        let a = generate_tree(depth, &mut first);
        let b = generate_tree(depth, &mut second);
        assert_eq!(a, b);
        assert_eq!(generate_shader_code(&a), generate_shader_code(&b));
    }
}

#[test]
fn draw_replay_is_deterministic() {
    let draws: Vec<i64> = vec![2, 1, 4, 3, 2, 2, 900, 2, 5, -400, 7, 1, 5, 3];
    let mut pos_a: usize = 0;
    let mut pos_b: usize = 0;
    let a = tree_from_draws(6, &draws, &mut pos_a);
    let b = tree_from_draws(6, &draws, &mut pos_b);
    assert_eq!(a, b);
    assert_eq!(pos_a, pos_b);
    assert_eq!(generate_shader_code(&a), generate_shader_code(&b));
}

#[test]
fn draw_replay_builds_the_chosen_nodes() {
    let draws: Vec<i64> = vec![2, 1, 1, 4, 250];
    let mut pos: usize = 0;
    let tree = tree_from_draws(1, &draws, &mut pos);
    assert_eq!(pos, 5);
    assert_eq!(generate_shader_code(&tree), "(mesh.position.x * 2.0 - 1.0) + (f32(0.25))");
}

#[test]
fn draw_replay_handles_exhausted_draws() {
    let draws: Vec<i64> = Vec::new();
    let mut pos: usize = 0;
    let tree = tree_from_draws(4, &draws, &mut pos);
    assert_eq!(pos, 0);
    assert!(is_terminal(&tree));
}

#[test]
fn rendered_trees_are_balanced_and_placeholder_free() {
    for seed in 0..100u64 {
        let mut rng = StdRng::seed_from_u64(seed);
        let tree = generate_tree(7, &mut rng);
        let text = generate_shader_code(&tree);
        assert!(!text.is_empty());
        assert!(parens_balanced(&text));
        assert!(!text.contains('{'));
        assert!(!text.contains('}'));
    }
}

#[test]
fn every_sqrt_is_guarded_by_abs() {
    for seed in 0..100u64 {
        let mut rng = StdRng::seed_from_u64(seed);
        let tree = generate_tree(7, &mut rng);
        let text = generate_shader_code(&tree);
        let mut rest = text.as_str();
        while let Some(at) = rest.find("sqrt(") {
            assert!(rest[at + 5..].starts_with("abs("));
            rest = &rest[at + 5..];
        }
    }
}

#[test]
fn shader_source_has_one_clause_per_case_and_one_default() {
    let mut rng = StdRng::seed_from_u64(7);
    let source = generate_shader_source(3, 2, &mut rng);
    assert_eq!(source.matches("case ").count(), 3);
    assert_eq!(source.matches("default:").count(), 1);
    let p0 = source.find("case 0u:").expect("clause 0");
    let p1 = source.find("case 1u:").expect("clause 1");
    let p2 = source.find("case 2u:").expect("clause 2");
    let pd = source.find("default:").expect("default clause");
    assert!(p0 < p1 && p1 < p2 && p2 < pd);
    assert!(source.contains("@fragment"));
    assert!(source.contains("switch id"));
}

#[test]
fn shader_source_indices_reach_double_digits() {
    let mut rng = StdRng::seed_from_u64(11);
    let source = generate_shader_source(12, 0, &mut rng);
    assert_eq!(source.matches("case ").count(), 12);
    assert!(source.contains("case 11u:"));
    assert!(!source.contains("case 12u:"));
}

#[test]
fn clause_marker_count_pins_the_clause_count() {
    let mut rng = StdRng::seed_from_u64(99);
    let empty = generate_shader_source(0, 3, &mut rng);
    let template_markers = empty.matches('c').count();
    for n in [1u32, 2, 7] {
        let source = generate_shader_source(n, 3, &mut rng);
        assert_eq!(source.matches('c').count(), template_markers + 2 * n as usize);
        assert_eq!(source.matches("case ").count(), n as usize);
    }
}

#[test]
fn shader_source_for_zero_cases_keeps_only_default() {
    let mut rng = StdRng::seed_from_u64(3);
    let source = generate_shader_source(0, 4, &mut rng);
    assert_eq!(source.matches("case ").count(), 0);
    assert_eq!(source.matches("default:").count(), 1);
}
