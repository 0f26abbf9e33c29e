//! Assembly of the full shading-language program: one dispatch clause per
//! case index, in ascending order from zero, followed by exactly one
//! default clause, spliced into the fixed program template.
//!
//! Each case carries three independently generated trees, one per color
//! channel; the clause text embeds their renderings.

use vstd::prelude::*;

use rand::rngs::StdRng;

use crate::ast::NodeKind;
use crate::emit::generate_shader_code;
use crate::emit::spec_render;
use crate::gen::generate_tree;
use crate::props::cfree;
use crate::props::count_char;
use crate::props::count_upto;
use crate::props::lemma_cfree_count;
use crate::props::lemma_count_concat;
use crate::props::lemma_dec_cfree;
use crate::props::lemma_render_cfree;
use crate::text::append_dec;
use crate::text::dec_text;

verus! {

/// The dispatch clause of case `i` over the three channel texts.
pub open spec fn spec_case_clause(i: int, r: Seq<char>, g: Seq<char>, b: Seq<char>) -> Seq<
    char,
> {
    "case "@ + dec_text(i) + "u: {return vec4f(("@ + r + "), ("@ + g + "), ("@ + b
        + "), 1.0);}\n"@
}

/// The first `n` dispatch clauses, in ascending index order.
pub open spec fn spec_clauses(
    bodies: Seq<(Seq<char>, Seq<char>, Seq<char>)>,
    n: int,
) -> Seq<char>
    decreases n,
{
    if n <= 0 {
        Seq::empty()
    } else {
        spec_clauses(bodies, n - 1) + spec_case_clause(
            n - 1,
            bodies[n - 1].0,
            bodies[n - 1].1,
            bodies[n - 1].2,
        )
    }
}

/// The template text that precedes the case clauses.
pub open spec fn shader_header() -> Seq<char> {
    "\n            #import bevy_pbr::{\n                mesh_view_bindings::globals,\n                forward_io::VertexOutput,\n            }\n           @group(2) @binding(0) var<uniform> id: u32;\n\n           @fragment\n           fn fragment(mesh: VertexOutput) -> @location(0) vec4<f32> {\n            switch id{\n                "@
}

/// The template text that follows the case clauses: the single default
/// clause and the closing of the program.
pub open spec fn shader_footer() -> Seq<char> {
    "\n                default: {return vec4f(0.5, 0.0, 0.5, 1);}\n                }\n           }\n           "@
}

/// The full program over the per-case channel texts: the header, one
/// clause per case index in ascending order, and the footer with its one
/// default clause.
pub open spec fn spec_shader_source(bodies: Seq<(Seq<char>, Seq<char>, Seq<char>)>) -> Seq<
    char,
> {
    shader_header() + spec_clauses(bodies, bodies.len() as int) + shader_footer()
}

/// The renderings of the three channel trees of each case.
pub open spec fn render_triples(trees: Seq<(NodeKind, NodeKind, NodeKind)>) -> Seq<
    (Seq<char>, Seq<char>, Seq<char>),
> {
    trees.map(
        |i: int, t: (NodeKind, NodeKind, NodeKind)|
            (spec_render(t.0), spec_render(t.1), spec_render(t.2)),
    )
}

/// The first `n` clauses depend only on the first `n` channel texts.
proof fn lemma_clauses_prefix(
    b1: Seq<(Seq<char>, Seq<char>, Seq<char>)>,
    b2: Seq<(Seq<char>, Seq<char>, Seq<char>)>,
    n: int,
)
    requires
        n <= b1.len(),
        n <= b2.len(),
        forall|j: int| 0 <= j < n ==> b1[j] == b2[j],
    ensures
        spec_clauses(b1, n) == spec_clauses(b2, n),
    decreases n,
{
    if n > 0 {
        lemma_clauses_prefix(b1, b2, n - 1);
    }
}

/// `t` stands contiguously inside `s`, starting at `k`.
pub open spec fn contains_at(s: Seq<char>, t: Seq<char>, k: int) -> bool {
    0 <= k && k + t.len() <= s.len() && s.subrange(k, k + t.len()) == t
}

proof fn lemma_clauses_contain(bodies: Seq<(Seq<char>, Seq<char>, Seq<char>)>, n: int, j: int)
    requires
        0 <= j < n,
        n <= bodies.len(),
    ensures
        exists|k: int|
            contains_at(
                spec_clauses(bodies, n),
                spec_case_clause(j, bodies[j].0, bodies[j].1, bodies[j].2),
                k,
            ),
    decreases n,
{
    let c = spec_case_clause(j, bodies[j].0, bodies[j].1, bodies[j].2);
    let pre = spec_clauses(bodies, n - 1);
    if j == n - 1 {
        assert((pre + c).subrange(pre.len() as int, pre.len() + c.len() as int) =~= c);
        assert(contains_at(spec_clauses(bodies, n), c, pre.len() as int));
    } else {
        lemma_clauses_contain(bodies, n - 1, j);
        let k = choose|k: int| contains_at(pre, c, k);
        assert(spec_clauses(bodies, n).subrange(k, k + c.len()) =~= pre.subrange(
            k,
            k + c.len(),
        ));
        assert(contains_at(spec_clauses(bodies, n), c, k));
    }
}

/// Completeness of the dispatch body: the program text over `n` case
/// bodies holds the clause of every index below `n`. The clauses stand in
/// ascending index order, and the footer holds the single default clause,
/// by the definition of the assembly itself.
#[verifier::spinoff_prover]
#[verifier::rlimit(80)]
pub proof fn lemma_shader_source_contains_clause(
    bodies: Seq<(Seq<char>, Seq<char>, Seq<char>)>,
    j: int,
)
    requires
        0 <= j < bodies.len(),
    ensures
        exists|k: int|
            contains_at(
                spec_shader_source(bodies),
                spec_case_clause(j, bodies[j].0, bodies[j].1, bodies[j].2),
                k,
            ),
{
    let c = spec_case_clause(j, bodies[j].0, bodies[j].1, bodies[j].2);
    let all = spec_clauses(bodies, bodies.len() as int);
    lemma_clauses_contain(bodies, bodies.len() as int, j);
    let k = choose|k: int| contains_at(all, c, k);
    let k2 = shader_header().len() + k;
    assert(spec_shader_source(bodies).subrange(k2, k2 + c.len()) =~= all.subrange(
        k,
        k + c.len(),
    ));
    assert(contains_at(spec_shader_source(bodies), c, k2));
}

proof fn lemma_clause_literals()
    ensures
        count_char("case "@, 'c') == 1,
        count_char("u: {return vec4f(("@, 'c') == 1,
        cfree("), ("@),
        cfree("), 1.0);}\n"@),
{
    reveal_strlit("case ");
    reveal_strlit("u: {return vec4f((");
    reveal_strlit("), (");
    reveal_strlit("), 1.0);}\n");
    reveal_with_fuel(count_upto, 20);
    assert(count_upto("case "@, 'c', 5) == 1);
    assert(count_upto("u: {return vec4f(("@, 'c', 18) == 1);
}

/// Each dispatch clause holds exactly two clause marker letters, however
/// deep the channel expressions are, since rendered expressions are free
/// of that letter.
pub proof fn lemma_case_clause_count(i: int, r: Seq<char>, g: Seq<char>, b: Seq<char>)
    requires
        cfree(r),
        cfree(g),
        cfree(b),
    ensures
        count_char(spec_case_clause(i, r, g, b), 'c') == 2,
{
    lemma_clause_literals();
    lemma_dec_cfree(i);
    lemma_cfree_count(dec_text(i));
    lemma_cfree_count(r);
    lemma_cfree_count(g);
    lemma_cfree_count(b);
    lemma_cfree_count("), ("@);
    lemma_cfree_count("), 1.0);}\n"@);
    let s1 = "case "@;
    let s2 = s1 + dec_text(i);
    let s3 = s2 + "u: {return vec4f(("@;
    let s4 = s3 + r;
    let s5 = s4 + "), ("@;
    let s6 = s5 + g;
    let s7 = s6 + "), ("@;
    let s8 = s7 + b;
    lemma_count_concat(s1, dec_text(i), 'c');
    lemma_count_concat(s2, "u: {return vec4f(("@, 'c');
    lemma_count_concat(s3, r, 'c');
    lemma_count_concat(s4, "), ("@, 'c');
    lemma_count_concat(s5, g, 'c');
    lemma_count_concat(s6, "), ("@, 'c');
    lemma_count_concat(s7, b, 'c');
    lemma_count_concat(s8, "), 1.0);}\n"@, 'c');
}

proof fn lemma_clauses_count(bodies: Seq<(Seq<char>, Seq<char>, Seq<char>)>, n: int)
    requires
        0 <= n <= bodies.len(),
        forall|j: int|
            0 <= j < n ==> cfree((#[trigger] bodies[j]).0) && cfree(bodies[j].1) && cfree(
                bodies[j].2,
            ),
    ensures
        count_char(spec_clauses(bodies, n), 'c') == 2 * n,
    decreases n,
{
    if n > 0 {
        lemma_clauses_count(bodies, n - 1);
        lemma_case_clause_count(n - 1, bodies[n - 1].0, bodies[n - 1].1, bodies[n - 1].2);
        lemma_count_concat(
            spec_clauses(bodies, n - 1),
            spec_case_clause(n - 1, bodies[n - 1].0, bodies[n - 1].1, bodies[n - 1].2),
            'c',
        );
    }
}

/// The dispatch body holds exactly one clause per case, no more and no
/// fewer: beyond the fixed occurrences in the surrounding template, the
/// program for `n` cases holds exactly `n` pairs of clause marker
/// letters, one pair per case clause, since no rendered channel
/// expression contains that letter.
pub proof fn lemma_shader_source_case_count(trees: Seq<(NodeKind, NodeKind, NodeKind)>)
    ensures
        count_char(spec_shader_source(render_triples(trees)), 'c') == count_char(
            shader_header(),
            'c',
        ) + 2 * trees.len() + count_char(shader_footer(), 'c'),
{
    let bodies = render_triples(trees);
    assert forall|j: int|
        0 <= j < bodies.len() implies cfree((#[trigger] bodies[j]).0) && cfree(bodies[j].1)
        && cfree(bodies[j].2) by {
        lemma_render_cfree(trees[j].0);
        lemma_render_cfree(trees[j].1);
        lemma_render_cfree(trees[j].2);
    }
    lemma_clauses_count(bodies, bodies.len() as int);
    lemma_count_concat(shader_header(), spec_clauses(bodies, bodies.len() as int), 'c');
    lemma_count_concat(
        shader_header() + spec_clauses(bodies, bodies.len() as int),
        shader_footer(),
        'c',
    );
}

/// Generates the whole shading program for `n_cases` cases: for each case
/// index, three trees of depth at most `depth` are generated from the
/// random source and rendered; the result is exactly the template with
/// one clause per index, ascending from zero, and one default clause.
pub fn generate_shader_source(n_cases: u32, depth: u32, rng: &mut StdRng) -> (s: String)
    ensures
        exists|trees: Seq<(NodeKind, NodeKind, NodeKind)>|
            {
                &&& trees.len() == n_cases as nat
                &&& (forall|j: int|
                    0 <= j < trees.len() ==> (#[trigger] trees[j]).0.depth() <= depth as nat
                        && trees[j].1.depth() <= depth as nat && trees[j].2.depth()
                        <= depth as nat)
                &&& (forall|j: int|
                    0 <= j < trees.len() ==> (#[trigger] trees[j]).0.constants_in_range()
                        && trees[j].1.constants_in_range() && trees[j].2.constants_in_range())
                &&& s@ == spec_shader_source(render_triples(trees))
            },
{
    let mut cases = String::new();
    let ghost mut trees: Seq<(NodeKind, NodeKind, NodeKind)> = Seq::empty();
    let mut i: u32 = 0;
    while i < n_cases
        invariant
            i <= n_cases,
            trees.len() == i as nat,
            forall|j: int|
                0 <= j < trees.len() ==> (#[trigger] trees[j]).0.depth() <= depth as nat
                    && trees[j].1.depth() <= depth as nat && trees[j].2.depth() <= depth as nat,
            forall|j: int|
                0 <= j < trees.len() ==> (#[trigger] trees[j]).0.constants_in_range()
                    && trees[j].1.constants_in_range() && trees[j].2.constants_in_range(),
            cases@ == spec_clauses(render_triples(trees), i as int),
        decreases n_cases - i,
    {
        let r_tree = generate_tree(depth, rng);
        let g_tree = generate_tree(depth, rng);
        let b_tree = generate_tree(depth, rng);
        let r = generate_shader_code(&r_tree);
        let g = generate_shader_code(&g_tree);
        let b = generate_shader_code(&b_tree);
        cases.append("case ");
        append_dec(&mut cases, i);
        cases.append("u: {return vec4f((");
        cases.append(r.as_str());
        cases.append("), (");
        cases.append(g.as_str());
        cases.append("), (");
        cases.append(b.as_str());
        cases.append("), 1.0);}\n");
        proof {
            let prev = trees;
            trees = trees.push((r_tree, g_tree, b_tree));
            lemma_clauses_prefix(render_triples(prev), render_triples(trees), i as int);
            assert(render_triples(trees)[i as int]
                == (spec_render(r_tree), spec_render(g_tree), spec_render(b_tree)));
            assert(cases@ =~= spec_clauses(render_triples(trees), i as int + 1));
        }
        i = i + 1;
    }
    let mut s = String::new();
    s.append(
        "\n            #import bevy_pbr::{\n                mesh_view_bindings::globals,\n                forward_io::VertexOutput,\n            }\n           @group(2) @binding(0) var<uniform> id: u32;\n\n           @fragment\n           fn fragment(mesh: VertexOutput) -> @location(0) vec4<f32> {\n            switch id{\n                ",
    );
    s.append(cases.as_str());
    s.append(
        "\n                default: {return vec4f(0.5, 0.0, 0.5, 1);}\n                }\n           }\n           ",
    );
    proof {
        assert(s@ =~= spec_shader_source(render_triples(trees)));
    }
    s
}

} // verus!
