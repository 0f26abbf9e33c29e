//! Proved properties of the emitted text.
//!
//! Rendering any valid tree yields a non-empty string whose parentheses
//! are balanced, which carries no template placeholder, and in which every
//! square root guards its operand with an absolute value, so the emitted
//! expression is never undefined at evaluation time.

use vstd::prelude::*;

use crate::ast::NodeKind;
use crate::emit::spec_render;
use crate::text::const_text;
use crate::text::dec_text;
use crate::text::digit_char;

verus! {

/// The running parenthesis count changes by one at a parenthesis and is
/// unchanged elsewhere.
pub open spec fn paren_delta(c: char) -> int {
    if c == '(' {
        1
    } else if c == ')' {
        -1
    } else {
        0
    }
}

/// The number of opening minus closing parentheses among the first `n`
/// characters.
pub open spec fn excess_upto(s: Seq<char>, n: int) -> int
    decreases n,
{
    if n <= 0 {
        0
    } else {
        excess_upto(s, n - 1) + paren_delta(s[n - 1])
    }
}

/// The number of opening minus closing parentheses of the whole text.
pub open spec fn paren_excess(s: Seq<char>) -> int {
    excess_upto(s, s.len() as int)
}

/// Every prefix of the text has a parenthesis count of at least `k`.
pub open spec fn prefixes_ge(s: Seq<char>, k: int) -> bool {
    forall|n: int| 0 <= n <= s.len() ==> excess_upto(s, n) >= k
}

/// Balanced parentheses: the whole text closes every parenthesis it
/// opens, and no prefix closes one it has not opened.
pub open spec fn balanced(s: Seq<char>) -> bool {
    paren_excess(s) == 0 && prefixes_ge(s, 0)
}

/// The text holds no parenthesis at all.
pub open spec fn no_paren(s: Seq<char>) -> bool {
    forall|j: int| 0 <= j < s.len() ==> paren_delta(s[j]) == 0
}

/// The text holds no template placeholder brace.
pub open spec fn placeholder_free(s: Seq<char>) -> bool {
    forall|j: int| 0 <= j < s.len() ==> s[j] != '{' && s[j] != '}'
}

/// Every square root in the text guards its operand: wherever its marker
/// letter stands, the nine characters around it read as a square root
/// applied directly to an absolute value.
pub open spec fn sqrt_guarded(s: Seq<char>) -> bool {
    forall|i: int|
        0 <= i < s.len() && s[i] == 'q' ==> 1 <= i && i + 8 <= s.len() && s.subrange(i - 1, i + 8)
            =~= "sqrt(abs("@
}

/// The text never mentions the square-root marker letter.
pub open spec fn qfree(s: Seq<char>) -> bool {
    forall|j: int| 0 <= j < s.len() ==> s[j] != 'q'
}

/// The text never mentions the clause marker letter, the third letter of
/// the alphabet: no rendered expression contains it, so its occurrences
/// in an assembled program count the dispatch clauses.
pub open spec fn cfree(s: Seq<char>) -> bool {
    forall|j: int| 0 <= j < s.len() ==> s[j] != 'c'
}

/// How often `c` occurs among the first `n` characters.
pub open spec fn count_upto(s: Seq<char>, c: char, n: int) -> int
    decreases n,
{
    if n <= 0 {
        0
    } else {
        count_upto(s, c, n - 1) + if s[n - 1] == c {
            1int
        } else {
            0int
        }
    }
}

/// How often `c` occurs in the whole text.
pub open spec fn count_char(s: Seq<char>, c: char) -> int {
    count_upto(s, c, s.len() as int)
}

proof fn lemma_excess_agree(s: Seq<char>, t: Seq<char>, n: int)
    requires
        0 <= n,
        n <= s.len(),
        n <= t.len(),
        forall|j: int| 0 <= j < n ==> s[j] == t[j],
    ensures
        excess_upto(s, n) == excess_upto(t, n),
    decreases n,
{
    if n > 0 {
        lemma_excess_agree(s, t, n - 1);
    }
}

proof fn lemma_excess_concat(a: Seq<char>, b: Seq<char>, n: int)
    requires
        0 <= n <= b.len(),
    ensures
        excess_upto(a + b, a.len() + n) == paren_excess(a) + excess_upto(b, n),
    decreases n,
{
    if n == 0 {
        lemma_excess_agree(a + b, a, a.len() as int);
    } else {
        lemma_excess_concat(a, b, n - 1);
        assert((a + b)[a.len() + n - 1] == b[n - 1]);
    }
}

proof fn lemma_balanced_concat(a: Seq<char>, b: Seq<char>)
    requires
        balanced(a),
        balanced(b),
    ensures
        balanced(a + b),
{
    lemma_excess_concat(a, b, b.len() as int);
    assert forall|n: int| 0 <= n <= (a + b).len() implies excess_upto(a + b, n) >= 0 by {
        if n <= a.len() {
            lemma_excess_agree(a + b, a, n);
        } else {
            lemma_excess_concat(a, b, n - a.len());
        }
    }
}

proof fn lemma_no_paren_excess(s: Seq<char>, n: int)
    requires
        0 <= n <= s.len(),
        no_paren(s),
    ensures
        excess_upto(s, n) == 0,
    decreases n,
{
    if n > 0 {
        lemma_no_paren_excess(s, n - 1);
    }
}

proof fn lemma_no_paren_balanced(s: Seq<char>)
    requires
        no_paren(s),
    ensures
        balanced(s),
{
    assert forall|n: int| 0 <= n <= s.len() implies excess_upto(s, n) >= 0 by {
        lemma_no_paren_excess(s, n);
    }
    lemma_no_paren_excess(s, s.len() as int);
}

/// A balanced body wrapped in an opening fragment and one closing
/// parenthesis is balanced again.
proof fn lemma_balanced_call(p: Seq<char>, x: Seq<char>)
    requires
        balanced(x),
        paren_excess(p) == 1,
        prefixes_ge(p, 0),
    ensures
        balanced(p + x + ")"@),
{
    reveal_strlit(")");
    let q = ")"@;
    lemma_excess_concat(p, x, x.len() as int);
    assert(paren_excess(p + x) == 1);
    assert(excess_upto(q, 1) == -1) by {
        reveal_with_fuel(excess_upto, 3);
    }
    lemma_excess_concat(p + x, q, 1);
    assert(paren_excess(p + x + q) == 0);
    assert forall|n: int| 0 <= n <= (p + x + q).len() implies excess_upto(p + x + q, n) >= 0 by {
        if n <= p.len() {
            lemma_excess_agree(p + x + q, p, n);
        } else if n <= p.len() + x.len() {
            lemma_excess_agree(p + x + q, p + x, n);
            lemma_excess_concat(p, x, n - p.len());
        } else {
            assert(n == (p + x).len() + 1);
            lemma_excess_concat(p + x, q, 1);
        }
    }
}

proof fn lemma_qfree_guarded(s: Seq<char>)
    requires
        qfree(s),
    ensures
        sqrt_guarded(s),
{
}

proof fn lemma_guard_concat(a: Seq<char>, b: Seq<char>)
    requires
        sqrt_guarded(a),
        sqrt_guarded(b),
    ensures
        sqrt_guarded(a + b),
{
    assert forall|i: int|
        0 <= i < (a + b).len() && (a + b)[i] == 'q' implies 1 <= i && i + 8 <= (a + b).len() && (a
        + b).subrange(i - 1, i + 8) =~= "sqrt(abs("@ by {
        if i < a.len() {
            assert(a[i] == 'q');
            assert(i + 8 <= a.len());
            assert((a + b).subrange(i - 1, i + 8) =~= a.subrange(i - 1, i + 8));
        } else {
            let j = i - a.len();
            assert(b[j] == 'q');
            assert((a + b).subrange(i - 1, i + 8) =~= b.subrange(j - 1, j + 8));
        }
    }
}

proof fn lemma_placeholder_free_concat(a: Seq<char>, b: Seq<char>)
    requires
        placeholder_free(a),
        placeholder_free(b),
    ensures
        placeholder_free(a + b),
{
}

proof fn lemma_cfree_concat(a: Seq<char>, b: Seq<char>)
    requires
        cfree(a),
        cfree(b),
    ensures
        cfree(a + b),
{
}

proof fn lemma_count_agree(s: Seq<char>, t: Seq<char>, c: char, n: int)
    requires
        0 <= n,
        n <= s.len(),
        n <= t.len(),
        forall|j: int| 0 <= j < n ==> s[j] == t[j],
    ensures
        count_upto(s, c, n) == count_upto(t, c, n),
    decreases n,
{
    if n > 0 {
        lemma_count_agree(s, t, c, n - 1);
    }
}

proof fn lemma_count_concat_upto(a: Seq<char>, b: Seq<char>, c: char, n: int)
    requires
        0 <= n <= b.len(),
    ensures
        count_upto(a + b, c, a.len() + n) == count_char(a, c) + count_upto(b, c, n),
    decreases n,
{
    if n == 0 {
        lemma_count_agree(a + b, a, c, a.len() as int);
    } else {
        lemma_count_concat_upto(a, b, c, n - 1);
        assert((a + b)[a.len() + n - 1] == b[n - 1]);
    }
}

/// Character occurrences add up over concatenation.
pub proof fn lemma_count_concat(a: Seq<char>, b: Seq<char>, c: char)
    ensures
        count_char(a + b, c) == count_char(a, c) + count_char(b, c),
{
    lemma_count_concat_upto(a, b, c, b.len() as int);
}

proof fn lemma_cfree_count_upto(s: Seq<char>, n: int)
    requires
        0 <= n <= s.len(),
        cfree(s),
    ensures
        count_upto(s, 'c', n) == 0,
    decreases n,
{
    if n > 0 {
        lemma_cfree_count_upto(s, n - 1);
    }
}

/// A text free of the clause marker letter counts no occurrence of it.
pub proof fn lemma_cfree_count(s: Seq<char>)
    requires
        cfree(s),
    ensures
        count_char(s, 'c') == 0,
{
    lemma_cfree_count_upto(s, s.len() as int);
}

proof fn lemma_leaf_literals()
    ensures
        no_paren("mesh.position.x * 2.0 - 1.0"@),
        no_paren("mesh.position.y * 2.0 - 1.0"@),
        no_paren("mesh.position.z * 2.0 - 1.0"@),
        no_paren("globals.time"@),
        qfree("globals.time"@),
        placeholder_free("globals.time"@),
        no_paren(" + "@),
        no_paren(" * "@),
        no_paren(" % "@),
        no_paren(" > "@),
        qfree("mesh.position.x * 2.0 - 1.0"@),
        qfree("mesh.position.y * 2.0 - 1.0"@),
        qfree("mesh.position.z * 2.0 - 1.0"@),
        qfree("sin(globals.time)"@),
        placeholder_free("mesh.position.x * 2.0 - 1.0"@),
        placeholder_free("mesh.position.y * 2.0 - 1.0"@),
        placeholder_free("mesh.position.z * 2.0 - 1.0"@),
        placeholder_free("sin(globals.time)"@),
        "mesh.position.x * 2.0 - 1.0"@.len() > 0,
        "mesh.position.y * 2.0 - 1.0"@.len() > 0,
        "mesh.position.z * 2.0 - 1.0"@.len() > 0,
        "sin(globals.time)"@.len() > 0,
{
    reveal_strlit("mesh.position.x * 2.0 - 1.0");
    reveal_strlit("mesh.position.y * 2.0 - 1.0");
    reveal_strlit("mesh.position.z * 2.0 - 1.0");
    reveal_strlit("globals.time");
    reveal_strlit("sin(globals.time)");
    reveal_strlit(" + ");
    reveal_strlit(" * ");
    reveal_strlit(" % ");
    reveal_strlit(" > ");
}

proof fn lemma_punct_literals()
    ensures
        qfree("("@),
        qfree(")"@),
        qfree(") + ("@),
        qfree(") * ("@),
        qfree(") % ("@),
        qfree(") > ("@),
        qfree("f32("@),
        qfree("f32(("@),
        qfree("abs("@),
        qfree("sin("@),
        qfree("))"@),
        placeholder_free("("@),
        placeholder_free(")"@),
        placeholder_free(") + ("@),
        placeholder_free(") * ("@),
        placeholder_free(") % ("@),
        placeholder_free(") > ("@),
        placeholder_free("f32("@),
        placeholder_free("f32(("@),
        placeholder_free("abs("@),
        placeholder_free("sin("@),
        placeholder_free("))"@),
        placeholder_free("sqrt("@),
        placeholder_free("sqrt(abs("@),
        "f32("@.len() > 0,
{
    reveal_strlit("(");
    reveal_strlit(")");
    reveal_strlit(") + (");
    reveal_strlit(") * (");
    reveal_strlit(") % (");
    reveal_strlit(") > (");
    reveal_strlit("f32(");
    reveal_strlit("f32((");
    reveal_strlit("abs(");
    reveal_strlit("sin(");
    reveal_strlit("))");
    reveal_strlit("sqrt(");
    reveal_strlit("sqrt(abs(");
}

proof fn lemma_openers()
    ensures
        paren_excess("("@) == 1,
        prefixes_ge("("@, 0),
        paren_excess("f32("@) == 1,
        prefixes_ge("f32("@, 0),
        paren_excess("abs("@) == 1,
        prefixes_ge("abs("@, 0),
        paren_excess("sin("@) == 1,
        prefixes_ge("sin("@, 0),
        paren_excess("sqrt("@) == 1,
        prefixes_ge("sqrt("@, 0),
{
    reveal_strlit("(");
    reveal_strlit("f32(");
    reveal_strlit("abs(");
    reveal_strlit("sin(");
    reveal_strlit("sqrt(");
    reveal_with_fuel(excess_upto, 8);
    assert(excess_upto("("@, 1) == 1);
    assert(excess_upto("f32("@, 1) == 0);
    assert(excess_upto("f32("@, 2) == 0);
    assert(excess_upto("f32("@, 3) == 0);
    assert(excess_upto("f32("@, 4) == 1);
    assert(excess_upto("abs("@, 1) == 0);
    assert(excess_upto("abs("@, 2) == 0);
    assert(excess_upto("abs("@, 3) == 0);
    assert(excess_upto("abs("@, 4) == 1);
    assert(excess_upto("sin("@, 1) == 0);
    assert(excess_upto("sin("@, 2) == 0);
    assert(excess_upto("sin("@, 3) == 0);
    assert(excess_upto("sin("@, 4) == 1);
    assert(excess_upto("sqrt("@, 1) == 0);
    assert(excess_upto("sqrt("@, 2) == 0);
    assert(excess_upto("sqrt("@, 3) == 0);
    assert(excess_upto("sqrt("@, 4) == 0);
    assert(excess_upto("sqrt("@, 5) == 1);
}

proof fn lemma_guard_sqrtabs()
    ensures
        sqrt_guarded("sqrt(abs("@),
{
    reveal_strlit("sqrt(abs(");
    let s = "sqrt(abs("@;
    assert forall|i: int|
        0 <= i < s.len() && s[i] == 'q' implies 1 <= i && i + 8 <= s.len() && s.subrange(i - 1, i + 8)
        =~= "sqrt(abs("@ by {
        assert(i == 1);
        assert(s.subrange(0, 9) =~= s);
    }
}

proof fn lemma_splits()
    ensures
        ") + ("@ =~= ")"@ + " + "@ + "("@,
        ") * ("@ =~= ")"@ + " * "@ + "("@,
        ") % ("@ =~= ")"@ + " % "@ + "("@,
        ") > ("@ =~= ")"@ + " > "@ + "("@,
        "f32(("@ =~= "f32("@ + "("@,
        "))"@ =~= ")"@ + ")"@,
        "sin(globals.time)"@ =~= "sin("@ + "globals.time"@ + ")"@,
        "sqrt(abs("@ =~= "sqrt("@ + "abs("@,
{
    reveal_strlit("sqrt(");
    reveal_strlit("abs(");
    reveal_strlit("sqrt(abs(");
    reveal_strlit("(");
    reveal_strlit(")");
    reveal_strlit(") + (");
    reveal_strlit(") * (");
    reveal_strlit(") % (");
    reveal_strlit(") > (");
    reveal_strlit(" + ");
    reveal_strlit(" * ");
    reveal_strlit(" % ");
    reveal_strlit(" > ");
    reveal_strlit("f32(");
    reveal_strlit("f32((");
    reveal_strlit("))");
    reveal_strlit("sin(");
    reveal_strlit("globals.time");
    reveal_strlit("sin(globals.time)");
}

proof fn lemma_digit_char_plain()
    ensures
        forall|d: int|
            paren_delta(#[trigger] digit_char(d)) == 0 && digit_char(d) != 'q' && digit_char(d)
                != '{' && digit_char(d) != '}' && digit_char(d) != 'c',
{
}

/// Text properties of an opening fragment, a body and one closing
/// parenthesis.
proof fn lemma_call_props(p: Seq<char>, x: Seq<char>)
    requires
        balanced(x),
        sqrt_guarded(x),
        placeholder_free(x),
        paren_excess(p) == 1,
        prefixes_ge(p, 0),
        qfree(p),
        placeholder_free(p),
    ensures
        balanced(p + x + ")"@),
        sqrt_guarded(p + x + ")"@),
        placeholder_free(p + x + ")"@),
        (p + x + ")"@).len() > 0,
{
    lemma_punct_literals();
    lemma_balanced_call(p, x);
    lemma_qfree_guarded(p);
    lemma_qfree_guarded(")"@);
    lemma_guard_concat(p, x);
    lemma_guard_concat(p + x, ")"@);
    lemma_placeholder_free_concat(p, x);
    lemma_placeholder_free_concat(p + x, ")"@);
    if p.len() == 0 {
        assert(paren_excess(p) == 0);
    }
}

/// Text properties of two parenthesized operands joined by an operator.
proof fn lemma_binary_props(l: Seq<char>, r: Seq<char>, mid3: Seq<char>, mid5: Seq<char>)
    requires
        balanced(l),
        balanced(r),
        sqrt_guarded(l),
        sqrt_guarded(r),
        placeholder_free(l),
        placeholder_free(r),
        no_paren(mid3),
        qfree(mid5),
        placeholder_free(mid5),
        mid5 == ")"@ + mid3 + "("@,
    ensures
        balanced("("@ + l + mid5 + r + ")"@),
        sqrt_guarded("("@ + l + mid5 + r + ")"@),
        placeholder_free("("@ + l + mid5 + r + ")"@),
        ("("@ + l + mid5 + r + ")"@).len() > 0,
{
    lemma_punct_literals();
    lemma_openers();
    let s = "("@ + l + mid5 + r + ")"@;
    lemma_balanced_call("("@, l);
    lemma_balanced_call("("@, r);
    lemma_no_paren_balanced(mid3);
    lemma_balanced_concat("("@ + l + ")"@, mid3);
    lemma_balanced_concat("("@ + l + ")"@ + mid3, "("@ + r + ")"@);
    assert(s =~= "("@ + l + ")"@ + mid3 + ("("@ + r + ")"@));
    lemma_qfree_guarded("("@);
    lemma_qfree_guarded(mid5);
    lemma_qfree_guarded(")"@);
    lemma_guard_concat("("@, l);
    lemma_guard_concat("("@ + l, mid5);
    lemma_guard_concat("("@ + l + mid5, r);
    lemma_guard_concat("("@ + l + mid5 + r, ")"@);
    lemma_placeholder_free_concat("("@, l);
    lemma_placeholder_free_concat("("@ + l, mid5);
    lemma_placeholder_free_concat("("@ + l + mid5, r);
    lemma_placeholder_free_concat("("@ + l + mid5 + r, ")"@);
    assert(s.len() >= 1) by {
        reveal_strlit("(");
    }
}

proof fn lemma_dec_plain(n: int)
    ensures
        forall|j: int|
            0 <= j < dec_text(n).len() ==> paren_delta(#[trigger] dec_text(n)[j]) == 0
                && dec_text(n)[j] != 'q' && dec_text(n)[j] != '{' && dec_text(n)[j] != '}'
                && dec_text(n)[j] != 'c',
    decreases n,
{
    lemma_digit_char_plain();
    if n >= 10 {
        lemma_dec_plain(n / 10);
        assert forall|j: int|
            0 <= j < dec_text(n).len() implies paren_delta(#[trigger] dec_text(n)[j]) == 0
            && dec_text(n)[j] != 'q' && dec_text(n)[j] != '{' && dec_text(n)[j] != '}'
            && dec_text(n)[j] != 'c' by {
            if j < dec_text(n / 10).len() {
                assert(dec_text(n)[j] == dec_text(n / 10)[j]);
            } else {
                assert(dec_text(n)[j] == digit_char(n % 10));
            }
        }
    }
}

proof fn lemma_const_plain(m: int)
    ensures
        no_paren(const_text(m)),
        qfree(const_text(m)),
        placeholder_free(const_text(m)),
        cfree(const_text(m)),
{
    lemma_digit_char_plain();
    lemma_dec_plain(if m < 0 {
        -m
    } else {
        m
    } / 1000);
    assert forall|j: int| 0 <= j < const_text(m).len() implies paren_delta(const_text(m)[j]) == 0
        && const_text(m)[j] != 'q' && const_text(m)[j] != '{' && const_text(m)[j] != '}'
        && const_text(m)[j] != 'c' by {
        let c = const_text(m)[j];
        assert(paren_delta(c) == 0 && c != 'q' && c != '{' && c != '}' && c != 'c');
    }
}

/// The decimal numeral of a non-negative integer carries no clause
/// marker letter.
pub proof fn lemma_dec_cfree(n: int)
    ensures
        cfree(dec_text(n)),
{
    lemma_dec_plain(n);
}

proof fn lemma_literals_cfree()
    ensures
        cfree("mesh.position.x * 2.0 - 1.0"@),
        cfree("mesh.position.y * 2.0 - 1.0"@),
        cfree("mesh.position.z * 2.0 - 1.0"@),
        cfree("sin(globals.time)"@),
        cfree("("@),
        cfree(")"@),
        cfree(") + ("@),
        cfree(") * ("@),
        cfree(") % ("@),
        cfree(") > ("@),
        cfree("f32("@),
        cfree("f32(("@),
        cfree("abs("@),
        cfree("sin("@),
        cfree("))"@),
        cfree("sqrt(abs("@),
{
    reveal_strlit("mesh.position.x * 2.0 - 1.0");
    reveal_strlit("mesh.position.y * 2.0 - 1.0");
    reveal_strlit("mesh.position.z * 2.0 - 1.0");
    reveal_strlit("sin(globals.time)");
    reveal_strlit("(");
    reveal_strlit(")");
    reveal_strlit(") + (");
    reveal_strlit(") * (");
    reveal_strlit(") % (");
    reveal_strlit(") > (");
    reveal_strlit("f32(");
    reveal_strlit("f32((");
    reveal_strlit("abs(");
    reveal_strlit("sin(");
    reveal_strlit("))");
    reveal_strlit("sqrt(abs(");
}

/// No rendered expression contains the clause marker letter.
pub proof fn lemma_render_cfree(n: NodeKind)
    ensures
        cfree(spec_render(n)),
    decreases n,
{
    lemma_literals_cfree();
    match n {
        NodeKind::X | NodeKind::Y | NodeKind::Z | NodeKind::Time => {
        },
        NodeKind::Random(m) => {
            lemma_const_plain(m as int);
            lemma_cfree_concat("f32("@, const_text(m as int));
            lemma_cfree_concat("f32("@ + const_text(m as int), ")"@);
        },
        NodeKind::Add(b) => {
            lemma_render_cfree(*b.lhs);
            lemma_render_cfree(*b.rhs);
            lemma_cfree_binary(spec_render(*b.lhs), spec_render(*b.rhs), ") + ("@);
        },
        NodeKind::Mult(b) => {
            lemma_render_cfree(*b.lhs);
            lemma_render_cfree(*b.rhs);
            lemma_cfree_binary(spec_render(*b.lhs), spec_render(*b.rhs), ") * ("@);
        },
        NodeKind::Mod(b) => {
            lemma_render_cfree(*b.lhs);
            lemma_render_cfree(*b.rhs);
            lemma_cfree_binary(spec_render(*b.lhs), spec_render(*b.rhs), ") % ("@);
        },
        NodeKind::Gt(b) => {
            lemma_render_cfree(*b.lhs);
            lemma_render_cfree(*b.rhs);
            lemma_cfree_concat("f32(("@, spec_render(*b.lhs));
            lemma_cfree_concat("f32(("@ + spec_render(*b.lhs), ") > ("@);
            lemma_cfree_concat("f32(("@ + spec_render(*b.lhs) + ") > ("@, spec_render(*b.rhs));
            lemma_cfree_concat(
                "f32(("@ + spec_render(*b.lhs) + ") > ("@ + spec_render(*b.rhs),
                "))"@,
            );
        },
        NodeKind::Sqrt(u) => {
            lemma_render_cfree(*u.value);
            lemma_cfree_concat("sqrt(abs("@, spec_render(*u.value));
            lemma_cfree_concat("sqrt(abs("@ + spec_render(*u.value), "))"@);
        },
        NodeKind::Abs(u) => {
            lemma_render_cfree(*u.value);
            lemma_cfree_concat("abs("@, spec_render(*u.value));
            lemma_cfree_concat("abs("@ + spec_render(*u.value), ")"@);
        },
        NodeKind::Sin(u) => {
            lemma_render_cfree(*u.value);
            lemma_cfree_concat("sin("@, spec_render(*u.value));
            lemma_cfree_concat("sin("@ + spec_render(*u.value), ")"@);
        },
    }
}

proof fn lemma_cfree_binary(l: Seq<char>, r: Seq<char>, mid5: Seq<char>)
    requires
        cfree(l),
        cfree(r),
        cfree(mid5),
    ensures
        cfree("("@ + l + mid5 + r + ")"@),
{
    lemma_literals_cfree();
    lemma_cfree_concat("("@, l);
    lemma_cfree_concat("("@ + l, mid5);
    lemma_cfree_concat("("@ + l + mid5, r);
    lemma_cfree_concat("("@ + l + mid5 + r, ")"@);
}

proof fn lemma_render_props(n: NodeKind)
    ensures
        spec_render(n).len() > 0,
        balanced(spec_render(n)),
        placeholder_free(spec_render(n)),
        sqrt_guarded(spec_render(n)),
    decreases n,
{
    lemma_leaf_literals();
    lemma_punct_literals();
    lemma_openers();
    lemma_splits();
    match n {
        NodeKind::X => {
            lemma_no_paren_balanced("mesh.position.x * 2.0 - 1.0"@);
            lemma_qfree_guarded("mesh.position.x * 2.0 - 1.0"@);
        },
        NodeKind::Y => {
            lemma_no_paren_balanced("mesh.position.y * 2.0 - 1.0"@);
            lemma_qfree_guarded("mesh.position.y * 2.0 - 1.0"@);
        },
        NodeKind::Z => {
            lemma_no_paren_balanced("mesh.position.z * 2.0 - 1.0"@);
            lemma_qfree_guarded("mesh.position.z * 2.0 - 1.0"@);
        },
        NodeKind::Time => {
            lemma_no_paren_balanced("globals.time"@);
            lemma_qfree_guarded("globals.time"@);
            lemma_call_props("sin("@, "globals.time"@);
            assert(spec_render(n) =~= "sin("@ + "globals.time"@ + ")"@);
        },
        NodeKind::Random(m) => {
            lemma_const_plain(m as int);
            lemma_no_paren_balanced(const_text(m as int));
            lemma_qfree_guarded(const_text(m as int));
            lemma_call_props("f32("@, const_text(m as int));
        },
        NodeKind::Add(b) => {
            lemma_render_props(*b.lhs);
            lemma_render_props(*b.rhs);
            lemma_binary_props(spec_render(*b.lhs), spec_render(*b.rhs), " + "@, ") + ("@);
        },
        NodeKind::Mult(b) => {
            lemma_render_props(*b.lhs);
            lemma_render_props(*b.rhs);
            lemma_binary_props(spec_render(*b.lhs), spec_render(*b.rhs), " * "@, ") * ("@);
        },
        NodeKind::Mod(b) => {
            lemma_render_props(*b.lhs);
            lemma_render_props(*b.rhs);
            lemma_binary_props(spec_render(*b.lhs), spec_render(*b.rhs), " % "@, ") % ("@);
        },
        NodeKind::Gt(b) => {
            lemma_render_props(*b.lhs);
            lemma_render_props(*b.rhs);
            let l = spec_render(*b.lhs);
            let r = spec_render(*b.rhs);
            lemma_binary_props(l, r, " > "@, ") > ("@);
            let inner = "("@ + l + ") > ("@ + r + ")"@;
            lemma_call_props("f32("@, inner);
            assert(spec_render(n) =~= "f32("@ + inner + ")"@);
        },
        NodeKind::Abs(u) => {
            lemma_render_props(*u.value);
            lemma_call_props("abs("@, spec_render(*u.value));
        },
        NodeKind::Sin(u) => {
            lemma_render_props(*u.value);
            lemma_call_props("sin("@, spec_render(*u.value));
        },
        NodeKind::Sqrt(u) => {
            lemma_render_props(*u.value);
            let v = spec_render(*u.value);
            lemma_call_props("abs("@, v);
            let inner = "abs("@ + v + ")"@;
            lemma_balanced_call("sqrt("@, inner);
            assert(spec_render(n) =~= "sqrt("@ + inner + ")"@);
            lemma_guard_sqrtabs();
            lemma_qfree_guarded("))"@);
            lemma_guard_concat("sqrt(abs("@, v);
            lemma_guard_concat("sqrt(abs("@ + v, "))"@);
            lemma_placeholder_free_concat("sqrt(abs("@, v);
            lemma_placeholder_free_concat("sqrt(abs("@ + v, "))"@);
        },
    }
}

/// Rendering any valid tree yields non-empty text with balanced
/// parentheses and no unresolved template placeholder.
pub proof fn lemma_render_balanced(n: NodeKind)
    ensures
        spec_render(n).len() > 0,
        balanced(spec_render(n)),
        placeholder_free(spec_render(n)),
{
    lemma_render_props(n);
}

/// Every square root that rendering any tree emits applies directly to an
/// absolute value, so the emitted expression never takes the square root
/// of a negative operand.
pub proof fn lemma_render_sqrt_guarded(n: NodeKind)
    ensures
        sqrt_guarded(spec_render(n)),
{
    lemma_render_props(n);
}

} // verus!
