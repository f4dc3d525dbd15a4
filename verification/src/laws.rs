//! The engine's algebraic laws, stated and proved over the same spec
//! functions that the executable functions' contracts use.
//!
//! `grad_after(a, o, n)` is the gradient accumulator of node `n` after a
//! successful `backward(o)` on arena `a`, exactly as `backward`'s
//! contract states it; the laws below therefore speak about every run of
//! the executable engine.

use vstd::prelude::*;

use crate::engine::{
    contrib_pair, grad_after, lemma_contrib_pair_wf, lemma_scratch_from_len,
    lemma_scratch_from_nodes_only, lemma_scratch_from_wf, lemma_scratch_stable, pass_delta,
    scratch_from, seed_scratch, step,
};
use crate::graph::{node_wf, zero_scalar, Arena, OpKind};
use crate::rational::{
    lemma_rat_add_congruence, lemma_rat_add_int_zero, lemma_rat_add_zero_left,
    lemma_rat_add_zero_right, lemma_rat_add_assoc, lemma_rat_double, lemma_rat_eq_trans,
    lemma_rat_ops_wf, rat_add, rat_eq, rat_int, rat_mul, rat_wf, Rat,
};

verus! {

/// For any two leaf nodes, differentiating their sum gives both leaves,
/// and the sum itself, gradient `1`.
pub proof fn lemma_add_of_leaves_gradients(a: Arena)
    requires
        a.wf(),
        a.nodes@.len() == 3,
        a.nodes@[0].op is Leaf,
        a.nodes@[1].op is Leaf,
        a.nodes@[2].op is Add,
        a.nodes@[2].operands == Option::Some((0usize, 1usize)),
        forall|i: int| 0 <= i < 3 ==> (#[trigger] a.grads@[i])@.num == 0,
    ensures
        rat_eq(grad_after(a, 2, 0), rat_int(1)),
        rat_eq(grad_after(a, 2, 1), rat_int(1)),
        rat_eq(grad_after(a, 2, 2), rat_int(1)),
{
    assert(node_wf(a, 0));
    assert(node_wf(a, 1));
    assert(a.nodes@[0].operands is None);
    assert(a.nodes@[1].operands is None);
    let s3 = seed_scratch(3, 2);
    assert(scratch_from(a, 2, 3) == s3);
    let s2 = step(a, s3, 2);
    assert(scratch_from(a, 2, 2) == s2);
    assert(s3[2] == rat_int(1));
    assert(s2[0] == rat_add(rat_int(0), rat_int(1)));
    assert(s2[1] == rat_add(rat_int(0), rat_int(1)));
    assert(scratch_from(a, 2, 1) == step(a, s2, 1));
    assert(scratch_from(a, 2, 1) == s2);
    assert(scratch_from(a, 2, 0) == step(a, s2, 0));
    assert(pass_delta(a, 2) == s2);
    assert(s2[0] == Rat { num: 1, den: 1 });
    assert(s2[2] == rat_int(1));
    lemma_rat_add_zero_left(a.grads@[0]@, Rat { num: 1, den: 1 });
    lemma_rat_add_zero_left(a.grads@[1]@, Rat { num: 1, den: 1 });
    lemma_rat_add_zero_left(a.grads@[2]@, rat_int(1));
}

/// For any two leaf nodes, differentiating their product gives each
/// leaf's gradient the other leaf's value.
pub proof fn lemma_mul_of_leaves_gradients(a: Arena)
    requires
        a.wf(),
        a.nodes@.len() == 3,
        a.nodes@[0].op is Leaf,
        a.nodes@[1].op is Leaf,
        a.nodes@[2].op is Multiply,
        a.nodes@[2].operands == Option::Some((0usize, 1usize)),
        forall|i: int| 0 <= i < 3 ==> (#[trigger] a.grads@[i])@.num == 0,
    ensures
        rat_eq(grad_after(a, 2, 0), a.nodes@[1].value@),
        rat_eq(grad_after(a, 2, 1), a.nodes@[0].value@),
{
    assert(node_wf(a, 0));
    assert(node_wf(a, 1));
    assert(node_wf(a, 2));
    assert(a.nodes@[0].operands is None);
    assert(a.nodes@[1].operands is None);
    let v0 = a.nodes@[0].value@;
    let v1 = a.nodes@[1].value@;
    let s3 = seed_scratch(3, 2);
    assert(scratch_from(a, 2, 3) == s3);
    let s2 = step(a, s3, 2);
    assert(scratch_from(a, 2, 2) == s2);
    assert(s3[2] == rat_int(1));
    assert(rat_mul(rat_int(1), v1) == v1);
    assert(rat_mul(rat_int(1), v0) == v0);
    assert(s2[0] == rat_add(rat_int(0), v1));
    assert(s2[1] == rat_add(rat_int(0), v0));
    lemma_rat_add_int_zero(v1);
    lemma_rat_add_int_zero(v0);
    assert(s2[0] == v1);
    assert(s2[1] == v0);
    assert(scratch_from(a, 2, 1) == step(a, s2, 1));
    assert(scratch_from(a, 2, 0) == step(a, s2, 0));
    assert(pass_delta(a, 2) == s2);
    if v1.num == 0 {
        assert(grad_after(a, 2, 0) == a.grads@[0]@);
        assert(rat_eq(a.grads@[0]@, v1));
    } else {
        lemma_rat_add_zero_left(a.grads@[0]@, v1);
    }
    if v0.num == 0 {
        assert(grad_after(a, 2, 1) == a.grads@[1]@);
        assert(rat_eq(a.grads@[1]@, v0));
    } else {
        lemma_rat_add_zero_left(a.grads@[1]@, v0);
    }
}

/// The diamond: a leaf `x` that feeds the output twice — once through a
/// product with a constant `c` and once directly, `y = x*c + x` — ends
/// with gradient `c + 1`, the sum of the partial derivative of each
/// term, as the multivariable chain rule demands, not just the
/// contribution of one term.
pub proof fn lemma_diamond_gradient(a: Arena)
    requires
        a.wf(),
        a.nodes@.len() == 4,
        a.nodes@[0].op is Leaf,
        a.nodes@[1].op is Leaf,
        a.nodes@[2].op is Multiply,
        a.nodes@[2].operands == Option::Some((0usize, 1usize)),
        a.nodes@[3].op is Add,
        a.nodes@[3].operands == Option::Some((2usize, 0usize)),
        forall|i: int| 0 <= i < 4 ==> (#[trigger] a.grads@[i])@.num == 0,
    ensures
        rat_eq(grad_after(a, 3, 0), rat_add(a.nodes@[1].value@, rat_int(1))),
{
    assert(node_wf(a, 0));
    assert(node_wf(a, 1));
    assert(node_wf(a, 2));
    assert(a.nodes@[0].operands is None);
    assert(a.nodes@[1].operands is None);
    let v0 = a.nodes@[0].value@;
    let v1 = a.nodes@[1].value@;
    let s4 = seed_scratch(4, 3);
    assert(scratch_from(a, 3, 4) == s4);
    let s3 = step(a, s4, 3);
    assert(scratch_from(a, 3, 3) == s3);
    assert(s4[3] == rat_int(1));
    assert(s3[2] == rat_add(rat_int(0), rat_int(1)));
    assert(s3[0] == rat_add(rat_int(0), rat_int(1)));
    assert(s3[2] == Rat { num: 1, den: 1 });
    assert(s3[0] == Rat { num: 1, den: 1 });
    let s2 = step(a, s3, 2);
    assert(scratch_from(a, 3, 2) == s2);
    assert(rat_mul(Rat { num: 1, den: 1 }, v1) == v1);
    assert(s2[0] == rat_add(Rat { num: 1, den: 1 }, v1));
    assert(scratch_from(a, 3, 1) == step(a, s2, 1));
    assert(scratch_from(a, 3, 0) == step(a, s2, 0));
    assert(pass_delta(a, 3) == s2);
    let total = rat_add(Rat { num: 1, den: 1 }, v1);
    assert(total == Rat { num: v1.den + v1.num, den: v1.den });
    assert(rat_add(v1, rat_int(1)) == Rat { num: v1.num + v1.den, den: v1.den });
    if total.num == 0 {
        assert(grad_after(a, 3, 0) == a.grads@[0]@);
        assert(rat_eq(a.grads@[0]@, total));
    } else {
        lemma_rat_add_zero_left(a.grads@[0]@, total);
    }
}

/// The differentials of a pass are a function of the graph alone: two
/// arenas with the same nodes get the same differentials, whatever their
/// gradient accumulators hold.
pub proof fn lemma_pass_delta_from_nodes(a: Arena, b: Arena, o: int)
    requires
        a.nodes@ == b.nodes@,
    ensures
        pass_delta(a, o) == pass_delta(b, o),
{
    lemma_scratch_from_nodes_only(a, b, o, 0);
}

/// After `reset_gradients`, a backward pass is deterministic: two arenas
/// with the same nodes and freshly reset accumulators end with exactly
/// the same gradients.
pub proof fn lemma_reset_backward_deterministic(a: Arena, b: Arena, o: int)
    requires
        a.wf(),
        b.wf(),
        a.nodes@ == b.nodes@,
        forall|i: int| 0 <= i < a.grads@.len() ==> #[trigger] a.grads@[i] == zero_scalar(),
        forall|i: int| 0 <= i < b.grads@.len() ==> #[trigger] b.grads@[i] == zero_scalar(),
    ensures
        forall|n: int|
            0 <= n < a.nodes@.len() ==> #[trigger] grad_after(a, o, n) == grad_after(b, o, n),
{
    lemma_scratch_from_nodes_only(a, b, o, 0);
}

/// Running `backward(o)` twice without a reset in between accumulates:
/// every gradient ends at twice the value a single pass from reset
/// leaves.  `a` is the arena in the reset state, `b` the same graph with
/// the gradients a first pass from `a` leaves behind.
pub proof fn lemma_backward_twice_doubles(a: Arena, b: Arena, o: int)
    requires
        a.wf(),
        b.wf(),
        a.nodes@ == b.nodes@,
        0 <= o < a.nodes@.len(),
        forall|i: int| 0 <= i < a.grads@.len() ==> #[trigger] a.grads@[i] == zero_scalar(),
        b.grads@.len() == a.grads@.len(),
        forall|n: int|
            0 <= n < b.grads@.len() ==> (#[trigger] b.grads@[n])@ == grad_after(a, o, n),
    ensures
        forall|n: int|
            0 <= n < b.grads@.len() ==> rat_eq(
                #[trigger] grad_after(b, o, n),
                rat_mul(rat_int(2), grad_after(a, o, n)),
            ),
{
    lemma_scratch_from_nodes_only(a, b, o, 0);
    lemma_scratch_from_len(a, o, 0);
    lemma_scratch_from_wf(a, o, 0);
    let d = pass_delta(a, o);
    assert forall|n: int| 0 <= n < b.grads@.len() implies rat_eq(
        #[trigger] grad_after(b, o, n),
        rat_mul(rat_int(2), grad_after(a, o, n)),
    ) by {
        assert(rat_wf(d[n]));
        if d[n].num == 0 {
            assert(grad_after(a, o, n) == a.grads@[n]@);
            assert(grad_after(b, o, n) == b.grads@[n]@);
            assert(rat_eq(grad_after(b, o, n), rat_mul(rat_int(2), grad_after(a, o, n))));
        } else {
            assert(grad_after(a, o, n) == rat_add(a.grads@[n]@, d[n]));
            assert(a.grads@[n]@ == rat_int(0));
            lemma_rat_add_int_zero(d[n]);
            assert(rat_add(a.grads@[n]@, d[n]) == d[n]);
            assert(grad_after(b, o, n) == rat_add(b.grads@[n]@, d[n]));
            assert(b.grads@[n]@ == d[n]);
            lemma_rat_double(d[n]);
        }
    }
}

/// The contribution consumer `c` sends to node `n` in a pass from `o`:
/// the local backward rule applied to `c`'s finished differential, once
/// for each operand slot of `c` that holds `n`.
pub open spec fn consumer_contrib(a: Arena, o: int, c: int, n: int) -> Rat {
    let nd = a.nodes@[c];
    match nd.operands {
        Option::None => rat_int(0),
        Option::Some((x, y)) => {
            let p = contrib_pair(
                nd.op,
                pass_delta(a, o)[c],
                a.nodes@[x as int].value@,
                a.nodes@[y as int].value@,
            );
            rat_add(
                if x as int == n {
                    p.0
                } else {
                    rat_int(0)
                },
                if y as int == n {
                    p.1
                } else {
                    rat_int(0)
                },
            )
        },
    }
}

/// The total contribution the consumers with handles in `[j, o]` send
/// to node `n`, added in the engine's processing order.
pub open spec fn consumer_sum(a: Arena, o: int, n: int, j: int) -> Rat
    decreases o - j + 1,
{
    if j > o {
        rat_int(0)
    } else {
        rat_add(consumer_sum(a, o, n, j + 1), consumer_contrib(a, o, j, n))
    }
}

proof fn lemma_consumer_contrib_wf(a: Arena, o: int, c: int, n: int)
    requires
        a.wf(),
        0 <= o < a.nodes@.len(),
        0 <= c < a.nodes@.len(),
    ensures
        rat_wf(consumer_contrib(a, o, c, n)),
{
    lemma_scratch_from_wf(a, o, 0);
    match a.nodes@[c].operands {
        Option::None => {},
        Option::Some((x, y)) => {
            assert(node_wf(a, c));
            assert(node_wf(a, x as int));
            assert(node_wf(a, y as int));
            let p = contrib_pair(
                a.nodes@[c].op,
                pass_delta(a, o)[c],
                a.nodes@[x as int].value@,
                a.nodes@[y as int].value@,
            );
            lemma_contrib_pair_wf(
                a.nodes@[c].op,
                pass_delta(a, o)[c],
                a.nodes@[x as int].value@,
                a.nodes@[y as int].value@,
            );
            let q0 = if x as int == n {
                p.0
            } else {
                rat_int(0)
            };
            let q1 = if y as int == n {
                p.1
            } else {
                rat_int(0)
            };
            lemma_rat_ops_wf(q0, q1);
        },
    }
}

proof fn lemma_consumer_sum_wf(a: Arena, o: int, n: int, j: int)
    requires
        a.wf(),
        0 <= o < a.nodes@.len(),
        0 <= j,
    ensures
        rat_wf(consumer_sum(a, o, n, j)),
    decreases o - j + 1,
{
    if j <= o {
        lemma_consumer_sum_wf(a, o, n, j + 1);
        lemma_consumer_contrib_wf(a, o, j, n);
        lemma_rat_ops_wf(consumer_sum(a, o, n, j + 1), consumer_contrib(a, o, j, n));
    }
}

/// Invariant of the walk: after the steps for nodes `o` down to `j`,
/// every node's differential is its seed plus what its already-processed
/// consumers have sent it.
proof fn lemma_chain_rule_from(a: Arena, o: int, j: int)
    requires
        a.wf(),
        0 <= o < a.nodes@.len(),
        0 <= j <= o + 1,
    ensures
        forall|n: int|
            0 <= n < a.nodes@.len() ==> rat_eq(
                #[trigger] scratch_from(a, o, j)[n],
                rat_add(seed_scratch(a.nodes@.len(), o)[n], consumer_sum(a, o, n, j)),
            ),
    decreases o + 1 - j,
{
    let len = a.nodes@.len() as int;
    let seedv = seed_scratch(a.nodes@.len(), o);
    lemma_scratch_from_len(a, o, j);
    if j == o + 1 {
        assert forall|n: int| 0 <= n < len implies rat_eq(
            #[trigger] scratch_from(a, o, j)[n],
            rat_add(seedv[n], consumer_sum(a, o, n, j)),
        ) by {
            lemma_rat_add_int_zero(seedv[n]);
        }
    } else {
        lemma_chain_rule_from(a, o, j + 1);
        lemma_scratch_from_len(a, o, j + 1);
        lemma_scratch_from_wf(a, o, j + 1);
        assert(node_wf(a, j));
        let s1 = scratch_from(a, o, j + 1);
        let s0 = scratch_from(a, o, j);
        assert(s0 == step(a, s1, j));
        lemma_scratch_stable(a, o, 0, j);
        lemma_scratch_stable(a, o, j + 1, j);
        assert(pass_delta(a, o)[j] == s1[j]);
        assert forall|n: int| 0 <= n < len implies rat_eq(
            #[trigger] s0[n],
            rat_add(seedv[n], consumer_sum(a, o, n, j)),
        ) by {
            lemma_consumer_sum_wf(a, o, n, j + 1);
            let sumj1 = consumer_sum(a, o, n, j + 1);
            let cc = consumer_contrib(a, o, j, n);
            assert(consumer_sum(a, o, n, j) == rat_add(sumj1, cc));
            match a.nodes@[j].operands {
                Option::None => {
                    assert(cc == rat_int(0));
                    lemma_rat_add_int_zero(sumj1);
                    assert(s0[n] == s1[n]);
                },
                Option::Some((x, y)) => {
                    assert(node_wf(a, x as int));
                    assert(node_wf(a, y as int));
                    let vx = a.nodes@[x as int].value@;
                    let vy = a.nodes@[y as int].value@;
                    let g = s1[j];
                    let p = contrib_pair(a.nodes@[j].op, g, vx, vy);
                    assert(contrib_pair(a.nodes@[j].op, pass_delta(a, o)[j], vx, vy) == p);
                    lemma_contrib_pair_wf(a.nodes@[j].op, g, vx, vy);
                    let q0 = if x as int == n {
                        p.0
                    } else {
                        rat_int(0)
                    };
                    let q1 = if y as int == n {
                        p.1
                    } else {
                        rat_int(0)
                    };
                    assert(cc == rat_add(q0, q1));
                    if g.num == 0 {
                        assert(s0[n] == s1[n]);
                        assert(q0.num == 0 && q0.den > 0);
                        assert(q1.num == 0 && q1.den > 0);
                        assert(q0.num * q1.den == 0) by (nonlinear_arith)
                            requires
                                q0.num == 0,
                        ;
                        assert(q1.num * q0.den == 0) by (nonlinear_arith)
                            requires
                                q1.num == 0,
                        ;
                        assert(q0.den * q1.den > 0) by (nonlinear_arith)
                            requires
                                q0.den > 0,
                                q1.den > 0,
                        ;
                        lemma_rat_add_zero_right(sumj1, cc);
                        lemma_rat_add_congruence(rat_add(sumj1, cc), sumj1, seedv[n]);
                        lemma_rat_ops_wf(seedv[n], sumj1);
                        lemma_rat_eq_trans(
                            s0[n],
                            rat_add(seedv[n], sumj1),
                            rat_add(seedv[n], consumer_sum(a, o, n, j)),
                        );
                    } else {
                        let s1x = s1.update(x as int, rat_add(s1[x as int], p.0));
                        assert(s0 == s1x.update(y as int, rat_add(s1x[y as int], p.1)));
                        if x as int != n && y as int != n {
                            assert(cc == rat_add(rat_int(0), rat_int(0)));
                            assert(cc == rat_int(0));
                            lemma_rat_add_int_zero(sumj1);
                            assert(s0[n] == s1[n]);
                        } else if x as int == n && y as int != n {
                            assert(s0[n] == rat_add(s1[n], p.0));
                            lemma_rat_add_int_zero(p.0);
                            assert(cc == p.0);
                            lemma_rat_add_assoc(seedv[n], sumj1, p.0);
                            lemma_rat_add_congruence(s1[n], rat_add(seedv[n], sumj1), p.0);
                        } else if y as int == n && x as int != n {
                            assert(s1x[n] == s1[n]);
                            assert(s0[n] == rat_add(s1[n], p.1));
                            lemma_rat_add_int_zero(p.1);
                            assert(cc == p.1);
                            lemma_rat_add_assoc(seedv[n], sumj1, p.1);
                            lemma_rat_add_congruence(s1[n], rat_add(seedv[n], sumj1), p.1);
                        } else {
                            assert(s1x[n] == rat_add(s1[n], p.0));
                            assert(s0[n] == rat_add(rat_add(s1[n], p.0), p.1));
                            lemma_rat_add_assoc(s1[n], p.0, p.1);
                            assert(s0[n] == rat_add(s1[n], rat_add(p.0, p.1)));
                            lemma_rat_add_assoc(seedv[n], sumj1, cc);
                            lemma_rat_add_congruence(s1[n], rat_add(seedv[n], sumj1), cc);
                        }
                    }
                },
            }
        }
    }
}

/// The multivariable chain rule, for every graph and every output: the
/// differential a backward pass from `o` adds to node `n` is the seed —
/// `1` for the output itself, `0` otherwise — plus the sum, over every
/// node that consumes `n`, of the consumer's local backward rule applied
/// to the consumer's own finished differential.  A node consumed in both
/// operand slots of one consumer receives both contributions, and a
/// consumer the output does not depend on contributes a mathematical
/// zero, since its own differential is zero.
pub proof fn lemma_gradient_chain_rule(a: Arena, o: int)
    requires
        a.wf(),
        0 <= o < a.nodes@.len(),
    ensures
        forall|n: int|
            0 <= n < a.nodes@.len() ==> rat_eq(
                #[trigger] pass_delta(a, o)[n],
                rat_add(seed_scratch(a.nodes@.len(), o)[n], consumer_sum(a, o, n, 0)),
            ),
{
    lemma_chain_rule_from(a, o, 0);
}

} // verus!
