//! The code emitter: lowers a finished expression tree to a fully
//! parenthesized textual expression in the target shading language.
//!
//! Lowering rules: coordinates are rescaled from [0,1] to [-1,1]; the time
//! leaf oscillates; every binary combination parenthesizes both operands;
//! a comparison is cast back to a number; a square root always guards its
//! operand with an absolute value so the emitted expression can never be
//! undefined at evaluation time.

use vstd::prelude::*;

use crate::ast::NodeBinop;
use crate::ast::NodeKind;
use crate::ast::NodeUnop;
use crate::text::const_text;

verus! {

/// The exact text that the emitter produces for a tree.
pub open spec fn spec_render(n: NodeKind) -> Seq<char>
    decreases n,
{
    match n {
        NodeKind::X => "mesh.position.x * 2.0 - 1.0"@,
        NodeKind::Y => "mesh.position.y * 2.0 - 1.0"@,
        NodeKind::Z => "mesh.position.z * 2.0 - 1.0"@,
        NodeKind::Random(m) => "f32("@ + const_text(m as int) + ")"@,
        NodeKind::Add(b) => "("@ + spec_render(*b.lhs) + ") + ("@ + spec_render(*b.rhs) + ")"@,
        NodeKind::Mult(b) => "("@ + spec_render(*b.lhs) + ") * ("@ + spec_render(*b.rhs) + ")"@,
        NodeKind::Sqrt(u) => "sqrt(abs("@ + spec_render(*u.value) + "))"@,
        NodeKind::Abs(u) => "abs("@ + spec_render(*u.value) + ")"@,
        NodeKind::Sin(u) => "sin("@ + spec_render(*u.value) + ")"@,
        NodeKind::Mod(b) => "("@ + spec_render(*b.lhs) + ") % ("@ + spec_render(*b.rhs) + ")"@,
        NodeKind::Gt(b) => "f32(("@ + spec_render(*b.lhs) + ") > ("@ + spec_render(*b.rhs)
            + "))"@,
        NodeKind::Time => "sin(globals.time)"@,
    }
}

/// Appends the rendering of `node` to `out`.
fn append_render(out: &mut String, node: &NodeKind)
    ensures
        final(out)@ == old(out)@ + spec_render(*node),
    decreases *node,
{
    match node {
        NodeKind::X => {
            out.append("mesh.position.x * 2.0 - 1.0");
        },
        NodeKind::Y => {
            out.append("mesh.position.y * 2.0 - 1.0");
        },
        NodeKind::Z => {
            out.append("mesh.position.z * 2.0 - 1.0");
        },
        NodeKind::Random(m) => {
            out.append("f32(");
            crate::text::append_const(out, *m);
            out.append(")");
        },
        NodeKind::Add(b) => {
            out.append("(");
            append_render(out, &b.lhs);
            out.append(") + (");
            append_render(out, &b.rhs);
            out.append(")");
        },
        NodeKind::Mult(b) => {
            out.append("(");
            append_render(out, &b.lhs);
            out.append(") * (");
            append_render(out, &b.rhs);
            out.append(")");
        },
        NodeKind::Sqrt(u) => {
            out.append("sqrt(abs(");
            append_render(out, &u.value);
            out.append("))");
        },
        NodeKind::Abs(u) => {
            out.append("abs(");
            append_render(out, &u.value);
            out.append(")");
        },
        NodeKind::Sin(u) => {
            out.append("sin(");
            append_render(out, &u.value);
            out.append(")");
        },
        NodeKind::Mod(b) => {
            out.append("(");
            append_render(out, &b.lhs);
            out.append(") % (");
            append_render(out, &b.rhs);
            out.append(")");
        },
        NodeKind::Gt(b) => {
            out.append("f32((");
            append_render(out, &b.lhs);
            out.append(") > (");
            append_render(out, &b.rhs);
            out.append("))");
        },
        NodeKind::Time => {
            out.append("sin(globals.time)");
        },
    }
    proof {
        assert(out@ =~= old(out)@ + spec_render(*node));
    }
}

/// Renders a tree to its shading-language expression text.
pub fn generate_shader_code(node: &NodeKind) -> (s: String)
    ensures
        s@ == spec_render(*node),
{
    let mut s = String::new();
    append_render(&mut s, node);
    proof {
        assert(s@ =~= spec_render(*node));
    }
    s
}

} // verus!
