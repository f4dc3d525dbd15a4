//! The differentiation engine.
//!
//! `backward(o)` computes, for every node, the partial derivative of the
//! output node `o` with respect to that node, and adds it to the node's
//! gradient accumulator.  The pass works on a scratch table of gradient
//! differentials: the output's entry is seeded with `1`, and the nodes
//! are replayed in reverse creation order — a reverse topological order,
//! since every operand was created before its consumer — so a node's
//! differential is final before it is distributed to the node's operands
//! by the operation's local backward rule.  Only when every differential
//! and every accumulator update is known to be representable are the
//! accumulators written, so a failing pass mutates nothing.

use vstd::prelude::*;

use crate::graph::{node_wf, Arena, GraphError, OpKind};
use crate::rational::{
    lemma_rat_div_wf, lemma_rat_ops_wf, rat_add, rat_div, rat_fits, rat_int, rat_mul, rat_neg,
    rat_wf, scalar_wf, Rat, Scalar,
};

verus! {

/// The scratch table at the start of a pass: `1` for the output node,
/// `0` everywhere else.
pub open spec fn seed_scratch(len: nat, o: int) -> Seq<Rat> {
    Seq::new(len, |i: int| if i == o { rat_int(1) } else { rat_int(0) })
}

/// The local backward rule: the contributions a node with differential
/// `g` and operand values `vx`, `vy` sends to its left and right operand.
pub open spec fn contrib_pair(kind: OpKind, g: Rat, vx: Rat, vy: Rat) -> (Rat, Rat) {
    match kind {
        OpKind::Leaf => (rat_int(0), rat_int(0)),
        OpKind::Add => (g, g),
        OpKind::Subtract => (g, rat_neg(g)),
        OpKind::Multiply => (rat_mul(g, vy), rat_mul(g, vx)),
        OpKind::Divide => (
            rat_div(g, vy),
            rat_neg(rat_div(rat_mul(g, vx), rat_mul(vy, vy))),
        ),
    }
}

/// Whether both contributions, and every intermediate value on the way
/// to them, fit the scalar representation.
pub open spec fn contrib_fits(kind: OpKind, g: Rat, vx: Rat, vy: Rat) -> bool {
    match kind {
        OpKind::Leaf => true,
        OpKind::Add => true,
        OpKind::Subtract => true,
        OpKind::Multiply => rat_fits(rat_mul(g, vy)) && rat_fits(rat_mul(g, vx)),
        OpKind::Divide => {
            &&& rat_fits(rat_div(g, vy))
            &&& rat_fits(rat_mul(g, vx))
            &&& rat_fits(rat_mul(vy, vy))
            &&& rat_fits(rat_div(rat_mul(g, vx), rat_mul(vy, vy)))
        },
    }
}

/// One step of the pass: node `i` distributes its differential to its
/// operands.  A leaf, or a node whose differential is exactly zero,
/// changes nothing.
pub open spec fn step(a: Arena, s: Seq<Rat>, i: int) -> Seq<Rat> {
    let nd = a.nodes@[i];
    match nd.operands {
        Option::None => s,
        Option::Some((x, y)) => {
            if s[i].num == 0 {
                s
            } else {
                let vx = a.nodes@[x as int].value@;
                let vy = a.nodes@[y as int].value@;
                let c = contrib_pair(nd.op, s[i], vx, vy);
                let s1 = s.update(x as int, rat_add(s[x as int], c.0));
                s1.update(y as int, rat_add(s1[y as int], c.1))
            }
        },
    }
}

/// Whether step `i` stays within the scalar representation.
pub open spec fn step_fits(a: Arena, s: Seq<Rat>, i: int) -> bool {
    let nd = a.nodes@[i];
    match nd.operands {
        Option::None => true,
        Option::Some((x, y)) => s[i].num == 0 || {
            let vx = a.nodes@[x as int].value@;
            let vy = a.nodes@[y as int].value@;
            let c = contrib_pair(nd.op, s[i], vx, vy);
            let s1 = s.update(x as int, rat_add(s[x as int], c.0));
            &&& contrib_fits(nd.op, s[i], vx, vy)
            &&& rat_fits(rat_add(s[x as int], c.0))
            &&& rat_fits(rat_add(s1[y as int], c.1))
        },
    }
}

/// The scratch table after nodes `o, o-1, ..., i` have all been stepped.
pub open spec fn scratch_from(a: Arena, o: int, i: int) -> Seq<Rat>
    decreases o - i + 1,
{
    if i > o {
        seed_scratch(a.nodes@.len(), o)
    } else {
        step(a, scratch_from(a, o, i + 1), i)
    }
}

/// Whether every step from `o` down to `i` stays representable.
pub open spec fn pass_fits_from(a: Arena, o: int, i: int) -> bool
    decreases o - i + 1,
{
    if i > o {
        true
    } else {
        pass_fits_from(a, o, i + 1) && step_fits(a, scratch_from(a, o, i + 1), i)
    }
}

/// The finished differentials of a pass from output `o`: for each node,
/// the partial derivative of node `o` with respect to it.
pub open spec fn pass_delta(a: Arena, o: int) -> Seq<Rat> {
    scratch_from(a, o, 0)
}

/// Whether adding each nonzero differential to its accumulator stays
/// representable.
pub open spec fn commit_fits(a: Arena, o: int) -> bool {
    forall|n: int|
        0 <= n < a.nodes@.len() && (#[trigger] pass_delta(a, o)[n]).num != 0 ==> rat_fits(
            rat_add(a.grads@[n]@, pass_delta(a, o)[n]),
        )
}

/// Whether the whole pass from output `o` is representable — exactly the
/// condition under which `backward(o)` succeeds.
pub open spec fn backward_fits(a: Arena, o: int) -> bool {
    pass_fits_from(a, o, 0) && commit_fits(a, o)
}

/// The gradient accumulator of node `n` after a successful pass from
/// output `o`: the old accumulator plus the node's differential (left
/// untouched when the differential is exactly zero).
pub open spec fn grad_after(a: Arena, o: int, n: int) -> Rat {
    if pass_delta(a, o)[n].num == 0 {
        a.grads@[n]@
    } else {
        rat_add(a.grads@[n]@, pass_delta(a, o)[n])
    }
}

/// The scratch table always has one entry per node.
pub proof fn lemma_scratch_from_len(a: Arena, o: int, i: int)
    requires
        a.wf(),
        0 <= o < a.nodes@.len(),
        0 <= i,
    ensures
        scratch_from(a, o, i).len() == a.nodes@.len(),
    decreases o - i + 1,
{
    if i <= o {
        lemma_scratch_from_len(a, o, i + 1);
        assert(node_wf(a, i));
    }
}

/// A pass that is representable from step `j` on is representable from
/// any later step `k`, and in particular step `k` itself fits.
proof fn lemma_pass_fits_from_implies_step(a: Arena, o: int, j: int, k: int)
    requires
        pass_fits_from(a, o, j),
        j <= k <= o,
    ensures
        step_fits(a, scratch_from(a, o, k + 1), k),
    decreases k - j,
{
    if j < k {
        lemma_pass_fits_from_implies_step(a, o, j + 1, k);
    }
}

/// The differentials of a pass depend only on the nodes — the graph's
/// structure and forward values — never on the stored gradients.
pub proof fn lemma_scratch_from_nodes_only(a: Arena, b: Arena, o: int, i: int)
    requires
        a.nodes@ == b.nodes@,
    ensures
        scratch_from(a, o, i) == scratch_from(b, o, i),
    decreases o - i + 1,
{
    if i <= o {
        lemma_scratch_from_nodes_only(a, b, o, i + 1);
        assert(step(a, scratch_from(a, o, i + 1), i) == step(b, scratch_from(b, o, i + 1), i));
    }
}

/// Every differential of a pass is a well-formed fraction.
pub proof fn lemma_scratch_from_wf(a: Arena, o: int, i: int)
    requires
        a.wf(),
        0 <= o < a.nodes@.len(),
        0 <= i,
    ensures
        forall|t: int|
            0 <= t < a.nodes@.len() ==> rat_wf(#[trigger] scratch_from(a, o, i)[t]),
    decreases o - i + 1,
{
    lemma_scratch_from_len(a, o, i);
    if i > o {
        assert forall|t: int|
            0 <= t < a.nodes@.len() implies rat_wf(#[trigger] scratch_from(a, o, i)[t]) by {}
    } else {
        lemma_scratch_from_wf(a, o, i + 1);
        lemma_scratch_from_len(a, o, i + 1);
        let s = scratch_from(a, o, i + 1);
        assert(node_wf(a, i));
        let nd = a.nodes@[i];
        match nd.operands {
            Option::None => {},
            Option::Some((x, y)) => {
                if s[i].num != 0 {
                    assert(node_wf(a, x as int));
                    assert(node_wf(a, y as int));
                    let vx = a.nodes@[x as int].value@;
                    let vy = a.nodes@[y as int].value@;
                    let c = contrib_pair(nd.op, s[i], vx, vy);
                    lemma_contrib_pair_wf(nd.op, s[i], vx, vy);
                    assert(rat_wf(c.0) && rat_wf(c.1));
                    lemma_rat_ops_wf(s[x as int], c.0);
                    let s1 = s.update(x as int, rat_add(s[x as int], c.0));
                    lemma_rat_ops_wf(s1[y as int], c.1);
                }
            },
        }
    }
}

/// Both contributions of the local backward rule are well formed, and a
/// zero differential contributes only mathematical zeros.
pub proof fn lemma_contrib_pair_wf(kind: OpKind, g: Rat, vx: Rat, vy: Rat)
    requires
        rat_wf(g),
        rat_wf(vx),
        rat_wf(vy),
        kind is Divide ==> vy.num != 0,
    ensures
        rat_wf(contrib_pair(kind, g, vx, vy).0),
        rat_wf(contrib_pair(kind, g, vx, vy).1),
        g.num == 0 ==> contrib_pair(kind, g, vx, vy).0.num == 0,
        g.num == 0 ==> contrib_pair(kind, g, vx, vy).1.num == 0,
{
    match kind {
        OpKind::Leaf => {},
        OpKind::Add => {},
        OpKind::Subtract => {},
        OpKind::Multiply => {
            lemma_rat_ops_wf(g, vy);
            lemma_rat_ops_wf(g, vx);
            if g.num == 0 {
                assert(g.num * vy.num == 0) by (nonlinear_arith)
                    requires
                        g.num == 0,
                ;
                assert(g.num * vx.num == 0) by (nonlinear_arith)
                    requires
                        g.num == 0,
                ;
            }
        },
        OpKind::Divide => {
            lemma_rat_div_wf(g, vy);
            lemma_rat_ops_wf(g, vx);
            lemma_rat_ops_wf(vy, vy);
            assert(rat_mul(vy, vy).num != 0) by (nonlinear_arith)
                requires
                    vy.num != 0,
                    rat_mul(vy, vy).num == vy.num * vy.num,
            ;
            lemma_rat_div_wf(rat_mul(g, vx), rat_mul(vy, vy));
            if g.num == 0 {
                assert(g.num * vy.den == 0) by (nonlinear_arith)
                    requires
                        g.num == 0,
                ;
                assert(g.num * vx.num == 0) by (nonlinear_arith)
                    requires
                        g.num == 0,
                ;
                let an = rat_mul(g, vx).num;
                let bd = rat_mul(vy, vy).den;
                assert(an * bd == 0) by (nonlinear_arith)
                    requires
                        an == 0,
                ;
            }
        },
    }
}

/// Steps at or below a node's handle never change that node's
/// differential: a step writes only to its operands, whose handles are
/// smaller than the step's own.
pub proof fn lemma_scratch_stable(a: Arena, o: int, j: int, n: int)
    requires
        a.wf(),
        0 <= o < a.nodes@.len(),
        0 <= n < a.nodes@.len(),
        0 <= j <= n + 1,
    ensures
        scratch_from(a, o, j)[n] == scratch_from(a, o, n + 1)[n],
    decreases n + 1 - j,
{
    if j < n + 1 {
        lemma_scratch_stable(a, o, j + 1, n);
        if j <= o {
            lemma_scratch_from_len(a, o, j + 1);
            assert(node_wf(a, j));
        }
    }
}

impl Arena {
    /// Runs one backward step for node `i` on the scratch table, which
    /// must hold the differentials with nodes `o..i+1` already stepped.
    /// Returns `false` — leaving the table in an unspecified state —
    /// exactly when the step does not fit the scalar representation.
    fn backward_step(&self, scratch: &mut Vec<Scalar>, i: usize, Ghost(o): Ghost<int>) -> (ok:
        bool)
        requires
            self.wf(),
            0 <= o < self.nodes@.len(),
            i as int <= o,
            old(scratch)@.len() == self.nodes@.len(),
            forall|t: int|
                0 <= t < self.nodes@.len() ==> scalar_wf(#[trigger] old(scratch)@[t]) && old(
                    scratch,
                )@[t]@ == scratch_from(*self, o, i + 1)[t],
        ensures
            ok ==> {
                &&& step_fits(*self, scratch_from(*self, o, i + 1), i as int)
                &&& final(scratch)@.len() == self.nodes@.len()
                &&& forall|t: int|
                    0 <= t < self.nodes@.len() ==> scalar_wf(#[trigger] final(scratch)@[t])
                        && final(scratch)@[t]@ == scratch_from(*self, o, i as int)[t]
            },
            !ok ==> !step_fits(*self, scratch_from(*self, o, i + 1), i as int),
    {
        let ghost s = scratch_from(*self, o, i + 1);
        proof {
            lemma_scratch_from_len(*self, o, i + 1);
            assert(scratch_from(*self, o, i as int) == step(*self, s, i as int));
            assert(node_wf(*self, i as int));
        }
        let operands = self.nodes[i].operands;
        let (x, y) = match operands {
            None => {
                return true;
            },
            Some(p) => p,
        };
        proof {
            assert(node_wf(*self, x as int));
            assert(node_wf(*self, y as int));
        }
        let g = scratch[i];
        if g.num == 0 {
            return true;
        }
        let op = self.nodes[i].op;
        let vx = self.nodes[x].value;
        let vy = self.nodes[y].value;
        let ghost c = contrib_pair(op, s[i as int], vx@, vy@);
        let (cx, cy): (Scalar, Scalar) = match op {
            // A node with operands is never a leaf.
            OpKind::Leaf => (g, g),
            OpKind::Add => (g, g),
            OpKind::Subtract => (g, g.neg()),
            OpKind::Multiply => {
                let c0 = match g.checked_mul(&vy) {
                    Some(v) => v,
                    None => {
                        return false;
                    },
                };
                let c1 = match g.checked_mul(&vx) {
                    Some(v) => v,
                    None => {
                        return false;
                    },
                };
                (c0, c1)
            },
            OpKind::Divide => {
                let c0 = match g.checked_div(&vy) {
                    Some(v) => v,
                    None => {
                        return false;
                    },
                };
                let m1 = match g.checked_mul(&vx) {
                    Some(v) => v,
                    None => {
                        return false;
                    },
                };
                let m2 = match vy.checked_mul(&vy) {
                    Some(v) => v,
                    None => {
                        return false;
                    },
                };
                proof {
                    assert(m2@.num != 0) by (nonlinear_arith)
                        requires
                            m2@.num == vy@.num * vy@.num,
                            vy@.num != 0,
                    ;
                }
                let q = match m1.checked_div(&m2) {
                    Some(v) => v,
                    None => {
                        return false;
                    },
                };
                (c0, q.neg())
            },
        };
        proof {
            assert(cx@ == c.0 && cy@ == c.1);
        }
        let sx = scratch[x];
        let sxc = match sx.checked_add(&cx) {
            Some(v) => v,
            None => {
                return false;
            },
        };
        scratch.set(x, sxc);
        let sy = scratch[y];
        let syc = match sy.checked_add(&cy) {
            Some(v) => v,
            None => {
                return false;
            },
        };
        scratch.set(y, syc);
        proof {
            let s1 = s.update(x as int, rat_add(s[x as int], c.0));
            let s2 = s1.update(y as int, rat_add(s1[y as int], c.1));
            assert forall|t: int| 0 <= t < self.nodes@.len() implies scalar_wf(
                #[trigger] scratch@[t],
            ) && scratch@[t]@ == step(*self, s, i as int)[t] by {
                assert(step(*self, s, i as int) == s2);
            }
        }
        true
    }

    /// Backpropagation from the output node at `o`.
    ///
    /// Seeds the output's differential with `1`, replays every node's
    /// local backward rule in reverse topological order, and adds the
    /// resulting differential — the partial derivative of node `o` with
    /// respect to each node — to that node's gradient accumulator.
    /// Gradients of nodes the output does not depend on are left exactly
    /// as they were.  Fails with `UnknownHandle` if `o` is not a handle
    /// of this arena and with `Overflow` if any exact intermediate result
    /// is unrepresentable; a failing call mutates nothing.
    pub fn backward(&mut self, o: usize) -> (r: Result<(), GraphError>)
        requires
            old(self).wf(),
        ensures
            final(self).wf(),
            final(self).nodes == old(self).nodes,
            o >= old(self).nodes@.len() ==> r == Err::<(), GraphError>(GraphError::UnknownHandle)
                && *final(self) == *old(self),
            o < old(self).nodes@.len() ==> {
                &&& (r is Ok <==> backward_fits(*old(self), o as int))
                &&& (r is Err ==> *final(self) == *old(self) && r == Err::<(), GraphError>(
                    GraphError::Overflow,
                ))
                &&& (r is Ok ==> {
                    &&& final(self).grads@.len() == old(self).grads@.len()
                    &&& (forall|n: int|
                        0 <= n < old(self).grads@.len() ==> final(self).grads@[n]@ == grad_after(
                            *old(self),
                            o as int,
                            n,
                        ))
                    &&& (forall|n: int|
                        0 <= n < old(self).grads@.len() && pass_delta(*old(self), o as int)[n].num
                            == 0 ==> final(self).grads@[n] == old(self).grads@[n])
                })
            },
    {
        let n = self.nodes.len();
        if o >= n {
            return Err(GraphError::UnknownHandle);
        }
        let ghost a0 = *self;

        // Seed the scratch table of differentials.
        let mut scratch: Vec<Scalar> = Vec::new();
        let mut j: usize = 0;
        while j < n
            invariant
                j <= n,
                scratch@.len() == j,
                forall|t: int| 0 <= t < j ==> #[trigger] scratch@[t] == (Scalar { num: 0, den: 1 }),
            decreases n - j,
        {
            scratch.push(Scalar { num: 0, den: 1 });
            j += 1;
        }
        scratch.set(o, Scalar { num: 1, den: 1 });
        proof {
            assert forall|t: int| 0 <= t < n implies scalar_wf(#[trigger] scratch@[t])
                && scratch@[t]@ == scratch_from(a0, o as int, o + 1)[t] by {
                assert(scratch_from(a0, o as int, o + 1) == seed_scratch(n as nat, o as int));
            }
        }

        // Replay the backward rules in reverse creation order.
        let mut i: usize = o + 1;
        while i > 0
            invariant
                *self == a0,
                a0.wf(),
                o < n,
                n == a0.nodes@.len(),
                i <= o + 1,
                scratch@.len() == n,
                forall|t: int|
                    0 <= t < n ==> scalar_wf(#[trigger] scratch@[t]) && scratch@[t]@
                        == scratch_from(a0, o as int, i as int)[t],
                pass_fits_from(a0, o as int, i as int),
            decreases i,
        {
            i -= 1;
            let ok = self.backward_step(&mut scratch, i, Ghost(o as int));
            if !ok {
                proof {
                    if pass_fits_from(a0, o as int, 0) {
                        lemma_pass_fits_from_implies_step(a0, o as int, 0, i as int);
                    }
                }
                return Err(GraphError::Overflow);
            }
        }

        // Commit: add each nonzero differential to its accumulator.
        let ghost delta = pass_delta(a0, o as int);
        proof {
            lemma_scratch_from_len(a0, o as int, 0);
        }
        let mut newg: Vec<Scalar> = Vec::new();
        let mut t: usize = 0;
        while t < n
            invariant
                *self == a0,
                a0.wf(),
                o < n,
                n == a0.nodes@.len(),
                t <= n,
                newg@.len() == t,
                scratch@.len() == n,
                delta == pass_delta(a0, o as int),
                delta.len() == n,
                forall|u: int|
                    0 <= u < n ==> scalar_wf(#[trigger] scratch@[u]) && scratch@[u]@ == delta[u],
                forall|u: int|
                    0 <= u < t ==> scalar_wf(#[trigger] newg@[u]) && newg@[u]@ == grad_after(
                        a0,
                        o as int,
                        u,
                    ) && (delta[u].num == 0 ==> newg@[u] == a0.grads@[u]),
            decreases n - t,
        {
            let d = scratch[t];
            if d.num != 0 {
                let gcur = self.grads[t];
                match gcur.checked_add(&d) {
                    Some(v) => {
                        proof {
                            assert(grad_after(a0, o as int, t as int) == rat_add(
                                a0.grads@[t as int]@,
                                pass_delta(a0, o as int)[t as int],
                            ));
                        }
                        newg.push(v);
                    },
                    None => {
                        proof {
                            assert(pass_delta(a0, o as int)[t as int].num != 0);
                            assert(!rat_fits(
                                rat_add(
                                    a0.grads@[t as int]@,
                                    pass_delta(a0, o as int)[t as int],
                                ),
                            ));
                            assert(!commit_fits(a0, o as int));
                        }
                        return Err(GraphError::Overflow);
                    },
                }
            } else {
                proof {
                    assert(scalar_wf(a0.grads@[t as int]));
                    assert(grad_after(a0, o as int, t as int) == a0.grads@[t as int]@);
                }
                newg.push(self.grads[t]);
            }
            t += 1;
        }
        self.grads = newg;
        proof {
            assert forall|k: int| 0 <= k < self.nodes@.len() implies node_wf(*self, k) by {
                assert(node_wf(a0, k));
            }
            assert(commit_fits(a0, o as int)) by {
                assert forall|u: int|
                    0 <= u < a0.nodes@.len() && (#[trigger] pass_delta(a0, o as int)[u]).num
                        != 0 implies rat_fits(
                    rat_add(a0.grads@[u]@, pass_delta(a0, o as int)[u]),
                ) by {
                    assert(self.grads@[u]@ == grad_after(a0, o as int, u));
                    assert(scalar_wf(self.grads@[u]));
                }
            }
        }
        Ok(())
    }
}

} // verus!
