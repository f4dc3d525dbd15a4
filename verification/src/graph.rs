//! The graph store: an arena that owns every node of a computational
//! graph and hands out stable handles.
//!
//! A handle is an index into the arena.  A node records its operands by
//! handle, and an operand's index is always smaller than the index of the
//! node that consumes it, so the graph is acyclic by construction.  The
//! forward value of a node is computed once, when the node is created,
//! and never changes afterwards; gradients live in a parallel array and
//! are mutated only by `reset_gradients` and by the differentiation
//! engine.

use vstd::prelude::*;

use crate::rational::{
    rat_add, rat_div, rat_fits, rat_int, rat_mul, rat_sub, scalar_wf, Rat, Scalar,
};

verus! {

/// How a node was produced.
#[derive(Clone, Copy, Debug, PartialEq, Eq, Structural)]
pub enum OpKind {
    /// An input node; its value was supplied directly.
    Leaf,
    Add,
    Subtract,
    Multiply,
    Divide,
}

/// Everything that can go wrong when building or differentiating a graph.
#[derive(Clone, Copy, Debug, PartialEq, Eq, Structural)]
pub enum GraphError {
    /// An operation was given the wrong number of operands.
    InvalidArity,
    /// A `Divide` node was requested with a divisor whose value is zero.
    DivisionByZero,
    /// A handle does not belong to this arena.
    UnknownHandle,
    /// The exact result does not fit the scalar representation.
    Overflow,
}

/// One node of the computational graph.
#[derive(Debug)]
pub struct Node {
    /// The forward value, fixed at creation.
    pub value: Scalar,
    /// The operation that produced this node.
    pub op: OpKind,
    /// Handles of the two operands, or `None` for a leaf.
    pub operands: Option<(usize, usize)>,
    /// Display-only name, irrelevant to numeric results.
    pub label: Option<String>,
}

/// The arena: sole owner of all nodes; `grads[i]` is the gradient
/// accumulator of node `i`.
#[derive(Debug)]
pub struct Arena {
    pub nodes: Vec<Node>,
    pub grads: Vec<Scalar>,
}

/// The gradient accumulator's initial value: exactly `0/1`.
pub open spec fn zero_scalar() -> Scalar {
    Scalar { num: 0, den: 1 }
}

/// The forward formula of each binary operation.
pub open spec fn forward_value(kind: OpKind, x: Rat, y: Rat) -> Rat {
    match kind {
        OpKind::Leaf => rat_int(0),
        OpKind::Add => rat_add(x, y),
        OpKind::Subtract => rat_sub(x, y),
        OpKind::Multiply => rat_mul(x, y),
        OpKind::Divide => rat_div(x, y),
    }
}

/// Well-formedness of node `i`: its value is a valid scalar; a leaf has
/// no operands; a binary node has two operands that were created before
/// it, its value is exactly the operation applied to their values, and a
/// quotient's divisor is nonzero.
pub open spec fn node_wf(a: Arena, i: int) -> bool {
    let nd = a.nodes@[i];
    &&& scalar_wf(nd.value)
    &&& match nd.operands {
        Option::None => nd.op is Leaf,
        Option::Some((x, y)) => {
            &&& !(nd.op is Leaf)
            &&& (x as int) < i
            &&& (y as int) < i
            &&& nd.value@ == forward_value(
                nd.op,
                a.nodes@[x as int].value@,
                a.nodes@[y as int].value@,
            )
            &&& (nd.op is Divide ==> a.nodes@[y as int].value@.num != 0)
        },
    }
}

/// The outcome of a `create_op` request, decided before anything is
/// mutated: the error it must report, or the exact value of the new node.
pub open spec fn op_check(pre: Arena, kind: OpKind, a: usize, b: usize) -> Result<
    Rat,
    GraphError,
> {
    if kind is Leaf {
        Err(GraphError::InvalidArity)
    } else if !(a < pre.nodes@.len() && b < pre.nodes@.len()) {
        Err(GraphError::UnknownHandle)
    } else if kind is Divide && pre.nodes@[b as int].value@.num == 0 {
        Err(GraphError::DivisionByZero)
    } else {
        let v = forward_value(kind, pre.nodes@[a as int].value@, pre.nodes@[b as int].value@);
        if rat_fits(v) {
            Ok(v)
        } else {
            Err(GraphError::Overflow)
        }
    }
}

/// Full description of a `create_op` call: on an error the arena is left
/// untouched; on success exactly one node is appended, with the computed
/// value, a zero gradient and no label.
pub open spec fn op_post(
    pre: Arena,
    post: Arena,
    r: Result<usize, GraphError>,
    kind: OpKind,
    a: usize,
    b: usize,
) -> bool {
    &&& post.wf()
    &&& (op_check(pre, kind, a, b) matches Err(e) ==> r == Err::<usize, GraphError>(e) && post
        == pre)
    &&& (op_check(pre, kind, a, b) matches Ok(v) ==> {
        let h = pre.nodes@.len() as int;
        &&& r == Ok::<usize, GraphError>(h as usize)
        &&& post.nodes@.len() == h + 1
        &&& post.grads@.len() == h + 1
        &&& (forall|i: int|
            0 <= i < h ==> post.nodes@[i] == pre.nodes@[i] && post.grads@[i] == pre.grads@[i])
        &&& post.nodes@[h].value@ == v
        &&& post.nodes@[h].op == kind
        &&& post.nodes@[h].operands == Option::Some((a, b))
        &&& post.nodes@[h].label is None
        &&& post.grads@[h] == zero_scalar()
    })
}

/// Like `op_post`, for the constant-lifting builders: on success a fresh
/// anonymous leaf holding `k` is appended first, then the binary node,
/// whose right operand is that leaf.
pub open spec fn lift_post(
    pre: Arena,
    post: Arena,
    r: Result<usize, GraphError>,
    kind: OpKind,
    a: usize,
    k: Scalar,
) -> bool {
    let check = if !(a < pre.nodes@.len()) {
        Err(GraphError::UnknownHandle)
    } else if kind is Divide && k@.num == 0 {
        Err(GraphError::DivisionByZero)
    } else {
        let v = forward_value(kind, pre.nodes@[a as int].value@, k@);
        if rat_fits(v) {
            Ok::<Rat, GraphError>(v)
        } else {
            Err(GraphError::Overflow)
        }
    };
    &&& post.wf()
    &&& (check matches Err(e) ==> r == Err::<usize, GraphError>(e) && post == pre)
    &&& (check matches Ok(v) ==> {
        let h = pre.nodes@.len() as int;
        &&& r == Ok::<usize, GraphError>((h + 1) as usize)
        &&& post.nodes@.len() == h + 2
        &&& post.grads@.len() == h + 2
        &&& (forall|i: int|
            0 <= i < h ==> post.nodes@[i] == pre.nodes@[i] && post.grads@[i] == pre.grads@[i])
        &&& post.nodes@[h].value == k
        &&& post.nodes@[h].op is Leaf
        &&& post.nodes@[h].operands is None
        &&& post.nodes@[h].label is None
        &&& post.nodes@[h + 1].value@ == v
        &&& post.nodes@[h + 1].op == kind
        &&& post.nodes@[h + 1].operands == Option::Some((a, h as usize))
        &&& post.nodes@[h + 1].label is None
        &&& post.grads@[h] == zero_scalar()
        &&& post.grads@[h + 1] == zero_scalar()
    })
}

impl Arena {
    /// The arena invariant: one gradient per node, every node well formed.
    pub open spec fn wf(self) -> bool {
        &&& self.grads@.len() == self.nodes@.len()
        &&& (forall|i: int| 0 <= i < self.nodes@.len() ==> node_wf(self, i))
        &&& (forall|i: int| 0 <= i < self.grads@.len() ==> scalar_wf(#[trigger] self.grads@[i]))
    }

    pub fn new() -> (a: Arena)
        ensures
            a.wf(),
            a.nodes@.len() == 0,
    {
        Arena { nodes: Vec::new(), grads: Vec::new() }
    }

    /// Number of nodes ever created in this arena.
    pub fn len(&self) -> (n: usize)
        ensures
            n == self.nodes@.len(),
    {
        self.nodes.len()
    }

    /// Creates a leaf node holding `value`; returns its handle.  Leaf
    /// construction never fails.
    pub fn create_leaf(&mut self, value: Scalar, label: Option<String>) -> (h: usize)
        requires
            old(self).wf(),
            scalar_wf(value),
        ensures
            final(self).wf(),
            h == old(self).nodes@.len(),
            final(self).nodes@.len() == old(self).nodes@.len() + 1,
            final(self).grads@.len() == old(self).grads@.len() + 1,
            forall|i: int|
                0 <= i < old(self).nodes@.len() ==> final(self).nodes@[i] == old(self).nodes@[i]
                    && final(self).grads@[i] == old(self).grads@[i],
            final(self).nodes@[h as int].value == value,
            final(self).nodes@[h as int].op is Leaf,
            final(self).nodes@[h as int].operands is None,
            final(self).nodes@[h as int].label == label,
            final(self).grads@[h as int] == zero_scalar(),
    {
        let h = self.nodes.len();
        self.nodes.push(Node { value, op: OpKind::Leaf, operands: None, label });
        self.grads.push(Scalar { num: 0, den: 1 });
        proof {
            assert forall|i: int| 0 <= i < self.nodes@.len() implies node_wf(*self, i) by {
                if i < old(self).nodes@.len() {
                    assert(node_wf(*old(self), i));
                }
            }
        }
        h
    }

    /// Creates a node applying `kind` to the nodes at handles `a` and
    /// `b`.  Fails with `InvalidArity` for `Leaf` (which takes no
    /// operands), `UnknownHandle` for a handle outside the arena,
    /// `DivisionByZero` for a quotient whose divisor's value is zero, and
    /// `Overflow` when the exact result is unrepresentable; a failing
    /// call leaves the arena untouched.
    pub fn create_op(&mut self, kind: OpKind, a: usize, b: usize) -> (r: Result<usize, GraphError>)
        requires
            old(self).wf(),
        ensures
            op_post(*old(self), *final(self), r, kind, a, b),
    {
        if matches!(kind, OpKind::Leaf) {
            return Err(GraphError::InvalidArity);
        }
        if a >= self.nodes.len() || b >= self.nodes.len() {
            return Err(GraphError::UnknownHandle);
        }
        let va = self.nodes[a].value;
        let vb = self.nodes[b].value;
        proof {
            assert(node_wf(*self, a as int));
            assert(node_wf(*self, b as int));
        }
        let computed: Option<Scalar> = match kind {
            OpKind::Add => va.checked_add(&vb),
            OpKind::Subtract => va.checked_sub(&vb),
            OpKind::Multiply => va.checked_mul(&vb),
            OpKind::Divide => {
                if vb.num == 0 {
                    return Err(GraphError::DivisionByZero);
                }
                va.checked_div(&vb)
            },
            // Ruled out above by the arity check.
            OpKind::Leaf => None,
        };
        match computed {
            None => Err(GraphError::Overflow),
            Some(v) => {
                let h = self.nodes.len();
                self.nodes.push(
                    Node { value: v, op: kind, operands: Some((a, b)), label: None },
                );
                self.grads.push(Scalar { num: 0, den: 1 });
                proof {
                    assert forall|i: int| 0 <= i < self.nodes@.len() implies node_wf(*self, i) by {
                        if i < old(self).nodes@.len() {
                            assert(node_wf(*old(self), i));
                        }
                    }
                }
                Ok(h)
            },
        }
    }

    /// `a + b` as a new node.
    pub fn add(&mut self, a: usize, b: usize) -> (r: Result<usize, GraphError>)
        requires
            old(self).wf(),
        ensures
            op_post(*old(self), *final(self), r, OpKind::Add, a, b),
    {
        self.create_op(OpKind::Add, a, b)
    }

    /// `a - b` as a new node.
    pub fn sub(&mut self, a: usize, b: usize) -> (r: Result<usize, GraphError>)
        requires
            old(self).wf(),
        ensures
            op_post(*old(self), *final(self), r, OpKind::Subtract, a, b),
    {
        self.create_op(OpKind::Subtract, a, b)
    }

    /// `a * b` as a new node.
    pub fn mul(&mut self, a: usize, b: usize) -> (r: Result<usize, GraphError>)
        requires
            old(self).wf(),
        ensures
            op_post(*old(self), *final(self), r, OpKind::Multiply, a, b),
    {
        self.create_op(OpKind::Multiply, a, b)
    }

    /// `a / b` as a new node; fails with `DivisionByZero` when the value
    /// of `b` is exactly zero.
    pub fn div(&mut self, a: usize, b: usize) -> (r: Result<usize, GraphError>)
        requires
            old(self).wf(),
        ensures
            op_post(*old(self), *final(self), r, OpKind::Divide, a, b),
    {
        self.create_op(OpKind::Divide, a, b)
    }

    /// Shared body of the constant-lifting builders: lifts `k` into a
    /// fresh anonymous leaf, then applies `kind`.  On failure nothing is
    /// appended, not even the leaf.
    fn lift_op(&mut self, kind: OpKind, a: usize, k: Scalar) -> (r: Result<usize, GraphError>)
        requires
            old(self).wf(),
            scalar_wf(k),
            !(kind is Leaf),
        ensures
            lift_post(*old(self), *final(self), r, kind, a, k),
    {
        if a >= self.nodes.len() {
            return Err(GraphError::UnknownHandle);
        }
        if matches!(kind, OpKind::Divide) && k.num == 0 {
            return Err(GraphError::DivisionByZero);
        }
        let va = self.nodes[a].value;
        proof {
            assert(node_wf(*self, a as int));
        }
        let computed: Option<Scalar> = match kind {
            OpKind::Add => va.checked_add(&k),
            OpKind::Subtract => va.checked_sub(&k),
            OpKind::Multiply => va.checked_mul(&k),
            OpKind::Divide => va.checked_div(&k),
            // Ruled out by this function's precondition.
            OpKind::Leaf => None,
        };
        if computed.is_none() {
            return Err(GraphError::Overflow);
        }
        let leaf = self.create_leaf(k, None);
        let r = self.create_op(kind, a, leaf);
        match r {
            Ok(h) => Ok(h),
            Err(_) => Err(GraphError::Overflow),
        }
    }

    /// `a + k`, lifting the scalar `k` into a fresh leaf node.
    pub fn add_const(&mut self, a: usize, k: Scalar) -> (r: Result<usize, GraphError>)
        requires
            old(self).wf(),
            scalar_wf(k),
        ensures
            lift_post(*old(self), *final(self), r, OpKind::Add, a, k),
    {
        self.lift_op(OpKind::Add, a, k)
    }

    /// `a - k`, lifting the scalar `k` into a fresh leaf node.
    pub fn sub_const(&mut self, a: usize, k: Scalar) -> (r: Result<usize, GraphError>)
        requires
            old(self).wf(),
            scalar_wf(k),
        ensures
            lift_post(*old(self), *final(self), r, OpKind::Subtract, a, k),
    {
        self.lift_op(OpKind::Subtract, a, k)
    }

    /// `a * k`, lifting the scalar `k` into a fresh leaf node.
    pub fn mul_const(&mut self, a: usize, k: Scalar) -> (r: Result<usize, GraphError>)
        requires
            old(self).wf(),
            scalar_wf(k),
        ensures
            lift_post(*old(self), *final(self), r, OpKind::Multiply, a, k),
    {
        self.lift_op(OpKind::Multiply, a, k)
    }

    /// `a / k`, lifting the scalar `k` into a fresh leaf node; fails with
    /// `DivisionByZero` when `k` is exactly zero.
    pub fn div_const(&mut self, a: usize, k: Scalar) -> (r: Result<usize, GraphError>)
        requires
            old(self).wf(),
            scalar_wf(k),
        ensures
            lift_post(*old(self), *final(self), r, OpKind::Divide, a, k),
    {
        self.lift_op(OpKind::Divide, a, k)
    }

    /// Sets every node's gradient accumulator back to zero.
    pub fn reset_gradients(&mut self)
        requires
            old(self).wf(),
        ensures
            final(self).wf(),
            final(self).nodes == old(self).nodes,
            final(self).grads@.len() == old(self).grads@.len(),
            forall|i: int|
                0 <= i < final(self).grads@.len() ==> final(self).grads@[i] == zero_scalar(),
    {
        let n = self.grads.len();
        let mut i: usize = 0;
        while i < n
            invariant
                self.nodes == old(self).nodes,
                self.grads@.len() == old(self).grads@.len(),
                n == self.grads@.len(),
                i <= n,
                old(self).wf(),
                forall|j: int| 0 <= j < i ==> self.grads@[j] == zero_scalar(),
                forall|j: int|
                    i <= j < self.grads@.len() ==> self.grads@[j] == old(self).grads@[j],
            decreases n - i,
        {
            self.grads.set(i, Scalar { num: 0, den: 1 });
            i += 1;
        }
        proof {
            assert forall|j: int| 0 <= j < self.nodes@.len() implies node_wf(*self, j) by {
                assert(node_wf(*old(self), j));
            }
        }
    }

    /// Attaches a display label to the node at `h`; every other part of
    /// the node, and every other node, is left as it was.
    pub fn set_label(&mut self, h: usize, label: String) -> (r: Result<(), GraphError>)
        requires
            old(self).wf(),
        ensures
            final(self).wf(),
            h >= old(self).nodes@.len() ==> r == Err::<(), GraphError>(GraphError::UnknownHandle)
                && *final(self) == *old(self),
            h < old(self).nodes@.len() ==> {
                &&& r == Ok::<(), GraphError>(())
                &&& final(self).nodes@.len() == old(self).nodes@.len()
                &&& final(self).grads == old(self).grads
                &&& (forall|i: int|
                    0 <= i < old(self).nodes@.len() && i != h ==> final(self).nodes@[i] == old(
                        self,
                    ).nodes@[i])
                &&& final(self).nodes@[h as int].value == old(self).nodes@[h as int].value
                &&& final(self).nodes@[h as int].op == old(self).nodes@[h as int].op
                &&& final(self).nodes@[h as int].operands == old(self).nodes@[h as int].operands
                &&& final(self).nodes@[h as int].label == Some(label)
            },
    {
        if h >= self.nodes.len() {
            return Err(GraphError::UnknownHandle);
        }
        let value = self.nodes[h].value;
        let op = self.nodes[h].op;
        let operands = self.nodes[h].operands;
        self.nodes.set(h, Node { value, op, operands, label: Some(label) });
        proof {
            assert forall|i: int| 0 <= i < self.nodes@.len() implies node_wf(*self, i) by {
                assert(node_wf(*old(self), i));
            }
        }
        Ok(())
    }

    /// The forward value of the node at `h`.
    pub fn value_of(&self, h: usize) -> (r: Result<Scalar, GraphError>)
        ensures
            h < self.nodes@.len() ==> r == Ok::<Scalar, GraphError>(self.nodes@[h as int].value),
            h >= self.nodes@.len() ==> r == Err::<Scalar, GraphError>(GraphError::UnknownHandle),
    {
        if h >= self.nodes.len() {
            return Err(GraphError::UnknownHandle);
        }
        Ok(self.nodes[h].value)
    }

    /// The gradient accumulated so far for the node at `h`.
    pub fn gradient_of(&self, h: usize) -> (r: Result<Scalar, GraphError>)
        ensures
            h < self.grads@.len() ==> r == Ok::<Scalar, GraphError>(self.grads@[h as int]),
            h >= self.grads@.len() ==> r == Err::<Scalar, GraphError>(GraphError::UnknownHandle),
    {
        if h >= self.grads.len() {
            return Err(GraphError::UnknownHandle);
        }
        Ok(self.grads[h])
    }

    /// The operation tag of the node at `h`.
    pub fn op_of(&self, h: usize) -> (r: Result<OpKind, GraphError>)
        ensures
            h < self.nodes@.len() ==> r == Ok::<OpKind, GraphError>(self.nodes@[h as int].op),
            h >= self.nodes@.len() ==> r == Err::<OpKind, GraphError>(GraphError::UnknownHandle),
    {
        if h >= self.nodes.len() {
            return Err(GraphError::UnknownHandle);
        }
        Ok(self.nodes[h].op)
    }

    /// The operand handles of the node at `h` (`None` for a leaf).
    pub fn operands_of(&self, h: usize) -> (r: Result<Option<(usize, usize)>, GraphError>)
        ensures
            h < self.nodes@.len() ==> r == Ok::<Option<(usize, usize)>, GraphError>(
                self.nodes@[h as int].operands,
            ),
            h >= self.nodes@.len() ==> r == Err::<Option<(usize, usize)>, GraphError>(
                GraphError::UnknownHandle,
            ),
    {
        if h >= self.nodes.len() {
            return Err(GraphError::UnknownHandle);
        }
        Ok(self.nodes[h].operands)
    }

    /// A copy of the display label of the node at `h`.
    pub fn label_of(&self, h: usize) -> (r: Result<Option<String>, GraphError>)
        ensures
            h < self.nodes@.len() ==> r == Ok::<Option<String>, GraphError>(
                self.nodes@[h as int].label,
            ),
            h >= self.nodes@.len() ==> r == Err::<Option<String>, GraphError>(
                GraphError::UnknownHandle,
            ),
    {
        if h >= self.nodes.len() {
            return Err(GraphError::UnknownHandle);
        }
        match &self.nodes[h].label {
            None => Ok(None),
            Some(s) => Ok(Some(s.clone())),
        }
    }
}

} // verus!
