//! The tree generator: builds a depth-bounded expression tree from a
//! pseudo-random source.
//!
//! At depth zero the generator is forced to a terminal; otherwise it draws
//! one biased decision (terminal with probability 1/4), then a uniform
//! choice among the five leaf kinds or the seven operators. Binary
//! operators generate the left child before the right one, so the order in
//! which the source is consumed is fixed.
//!
//! A deterministic replay of the same decision procedure over an explicit
//! sequence of draws stands beside it: its result is pinned as a function
//! of the depth and the draw sequence alone.

use vstd::prelude::*;

use rand::rngs::StdRng;
use rand::Rng;

use crate::ast::NodeBinop;
use crate::ast::NodeKind;
use crate::ast::NodeUnop;

verus! {

/// The standard pseudo-random generator of the rand crate, opaque here;
/// a value of it is advanced by every draw.
#[verifier::external_type_specification]
#[verifier::external_body]
pub struct ExStdRng(StdRng);

/// Relies on rand's Rng::gen_range over an inclusive range: the sample
/// lies within the range; the range is non-empty, so the call cannot
/// panic. Nothing more is promised of a random draw.
#[verifier::external_body]
fn draw_range(rng: &mut StdRng, lo: i64, hi: i64) -> (d: i64)
    requires
        lo <= hi,
    ensures
        lo <= d <= hi,
{
    rng.gen_range(lo..=hi)
}

/// Relies on rand's Rng::gen_ratio: true with probability num/den; the
/// denominator is positive and not below the numerator, so the call
/// cannot panic. Its documentation promises the result only at the two
/// degenerate ratios.
#[verifier::external_body]
fn draw_ratio(rng: &mut StdRng, num: u32, den: u32) -> (b: bool)
    requires
        0 < den,
        num <= den,
    ensures
        num == den ==> b,
        num == 0 ==> !b,
{
    rng.gen_ratio(num, den)
}

/// The leaf kind selected by a five-way choice; a choice of four carries
/// the drawn constant, in thousandths.
pub open spec fn leaf_for(choice: int, milli: int) -> NodeKind {
    if choice == 1 {
        NodeKind::X
    } else if choice == 2 {
        NodeKind::Y
    } else if choice == 3 {
        NodeKind::Z
    } else if choice == 4 {
        NodeKind::Random(milli as i32)
    } else {
        NodeKind::Time
    }
}

/// Builds the terminal node of a five-way choice.
fn make_leaf(choice: i64, milli: i32) -> (t: NodeKind)
    requires
        1 <= choice <= 5,
        -1000 <= milli <= 1000,
    ensures
        t == leaf_for(choice as int, milli as int),
        t.is_terminal(),
        t.depth() == 0,
        t.constants_in_range(),
{
    match choice {
        1 => NodeKind::X,
        2 => NodeKind::Y,
        3 => NodeKind::Z,
        4 => NodeKind::Random(milli),
        _ => NodeKind::Time,
    }
}

/// Generates one expression tree from the random source.
///
/// The tree nests no deeper than `depth`; at depth zero it is a terminal
/// node; every constant in it lies within [-1000, 1000] thousandths.
pub fn generate_tree(depth: u32, rng: &mut StdRng) -> (t: NodeKind)
    ensures
        t.depth() <= depth as nat,
        t.constants_in_range(),
        depth == 0 ==> t.is_terminal(),
    decreases depth,
{
    let terminal: bool = if depth == 0 {
        true
    } else {
        draw_ratio(rng, 1, 4)
    };
    if terminal {
        let choice = draw_range(rng, 1, 5);
        let milli: i64 = if choice == 4 {
            draw_range(rng, -1000, 1000)
        } else {
            0
        };
        make_leaf(choice, milli as i32)
    } else {
        let choice = draw_range(rng, 1, 7);
        match choice {
            1 => NodeKind::Add(
                NodeBinop {
                    lhs: Box::new(generate_tree(depth - 1, rng)),
                    rhs: Box::new(generate_tree(depth - 1, rng)),
                },
            ),
            2 => NodeKind::Mult(
                NodeBinop {
                    lhs: Box::new(generate_tree(depth - 1, rng)),
                    rhs: Box::new(generate_tree(depth - 1, rng)),
                },
            ),
            3 => NodeKind::Sqrt(NodeUnop { value: Box::new(generate_tree(depth - 1, rng)) }),
            4 => NodeKind::Abs(NodeUnop { value: Box::new(generate_tree(depth - 1, rng)) }),
            5 => NodeKind::Sin(NodeUnop { value: Box::new(generate_tree(depth - 1, rng)) }),
            6 => NodeKind::Mod(
                NodeBinop {
                    lhs: Box::new(generate_tree(depth - 1, rng)),
                    rhs: Box::new(generate_tree(depth - 1, rng)),
                },
            ),
            _ => NodeKind::Gt(
                NodeBinop {
                    lhs: Box::new(generate_tree(depth - 1, rng)),
                    rhs: Box::new(generate_tree(depth - 1, rng)),
                },
            ),
        }
    }
}

/// A draw forced into [lo, hi].
pub open spec fn spec_clamp(d: int, lo: int, hi: int) -> int {
    if d < lo {
        lo
    } else if d > hi {
        hi
    } else {
        d
    }
}

/// The draw at `pos`, or zero once the sequence is exhausted.
pub open spec fn take_draw(draws: Seq<i64>, pos: int) -> i64 {
    if 0 <= pos < draws.len() {
        draws[pos]
    } else {
        0
    }
}

/// The position after consuming the draw at `pos`; an exhausted sequence
/// advances no further.
pub open spec fn next_pos(draws: Seq<i64>, pos: int) -> int {
    if 0 <= pos < draws.len() {
        pos + 1
    } else {
        pos
    }
}

/// The tree that a replay of the generation procedure over an explicit
/// draw sequence builds, together with the position after it. A replay is
/// a mathematical function of the depth, the draws and the position alone.
pub open spec fn spec_tree_from(depth: nat, draws: Seq<i64>, pos: int) -> (NodeKind, int)
    decreases depth, 1int,
{
    let d0 = spec_clamp(take_draw(draws, pos) as int, 1, 4);
    let terminal = depth == 0 || d0 == 1;
    let p0 = if depth == 0 {
        pos
    } else {
        next_pos(draws, pos)
    };
    if terminal {
        let k = spec_clamp(take_draw(draws, p0) as int, 1, 5);
        let p1 = next_pos(draws, p0);
        if k == 4 {
            let m = spec_clamp(take_draw(draws, p1) as int, -1000, 1000);
            (leaf_for(k, m), next_pos(draws, p1))
        } else {
            (leaf_for(k, 0), p1)
        }
    } else {
        let k = spec_clamp(take_draw(draws, p0) as int, 1, 7);
        let p1 = next_pos(draws, p0);
        if k == 3 {
            let (v, p2) = spec_tree_from((depth - 1) as nat, draws, p1);
            (NodeKind::Sqrt(NodeUnop { value: Box::new(v) }), p2)
        } else if k == 4 {
            let (v, p2) = spec_tree_from((depth - 1) as nat, draws, p1);
            (NodeKind::Abs(NodeUnop { value: Box::new(v) }), p2)
        } else if k == 5 {
            let (v, p2) = spec_tree_from((depth - 1) as nat, draws, p1);
            (NodeKind::Sin(NodeUnop { value: Box::new(v) }), p2)
        } else {
            let (l, p2) = spec_tree_from((depth - 1) as nat, draws, p1);
            let (r, p3) = spec_tree_from((depth - 1) as nat, draws, p2);
            let b = NodeBinop { lhs: Box::new(l), rhs: Box::new(r) };
            if k == 1 {
                (NodeKind::Add(b), p3)
            } else if k == 2 {
                (NodeKind::Mult(b), p3)
            } else if k == 6 {
                (NodeKind::Mod(b), p3)
            } else {
                (NodeKind::Gt(b), p3)
            }
        }
    }
}

/// A draw forced into [lo, hi].
fn clamp(d: i64, lo: i64, hi: i64) -> (c: i64)
    requires
        lo <= hi,
    ensures
        c as int == spec_clamp(d as int, lo as int, hi as int),
{
    if d < lo {
        lo
    } else if d > hi {
        hi
    } else {
        d
    }
}

/// Reads the draw at `*pos`, advancing the position when one is left.
fn take(draws: &Vec<i64>, pos: &mut usize) -> (d: i64)
    requires
        *old(pos) <= draws@.len(),
    ensures
        d == take_draw(draws@, *old(pos) as int),
        *final(pos) == next_pos(draws@, *old(pos) as int),
        *final(pos) <= draws@.len(),
{
    if *pos < draws.len() {
        let d = draws[*pos];
        *pos = *pos + 1;
        d
    } else {
        0
    }
}

/// Replays the generation procedure over an explicit draw sequence.
///
/// The result equals the replay function of the depth, the draws and the
/// starting position: two replays of the same inputs build structurally
/// identical trees and leave the position at the same place.
pub fn tree_from_draws(depth: u32, draws: &Vec<i64>, pos: &mut usize) -> (t: NodeKind)
    requires
        *old(pos) <= draws@.len(),
    ensures
        (t, *final(pos) as int) == spec_tree_from(depth as nat, draws@, *old(pos) as int),
        *final(pos) <= draws@.len(),
        t.depth() <= depth as nat,
        t.constants_in_range(),
        depth == 0 ==> t.is_terminal(),
    decreases depth,
{
    let terminal: bool = if depth == 0 {
        true
    } else {
        let d0 = clamp(take(draws, pos), 1, 4);
        d0 == 1
    };
    if terminal {
        let k = clamp(take(draws, pos), 1, 5);
        if k == 4 {
            let m = clamp(take(draws, pos), -1000, 1000);
            make_leaf(k, m as i32)
        } else {
            make_leaf(k, 0)
        }
    } else {
        let k = clamp(take(draws, pos), 1, 7);
        if k == 3 {
            let v = tree_from_draws(depth - 1, draws, pos);
            NodeKind::Sqrt(NodeUnop { value: Box::new(v) })
        } else if k == 4 {
            let v = tree_from_draws(depth - 1, draws, pos);
            NodeKind::Abs(NodeUnop { value: Box::new(v) })
        } else if k == 5 {
            let v = tree_from_draws(depth - 1, draws, pos);
            NodeKind::Sin(NodeUnop { value: Box::new(v) })
        } else {
            let l = tree_from_draws(depth - 1, draws, pos);
            let r = tree_from_draws(depth - 1, draws, pos);
            let b = NodeBinop { lhs: Box::new(l), rhs: Box::new(r) };
            if k == 1 {
                NodeKind::Add(b)
            } else if k == 2 {
                NodeKind::Mult(b)
            } else if k == 6 {
                NodeKind::Mod(b)
            } else {
                NodeKind::Gt(b)
            }
        }
    }
}

} // verus!
