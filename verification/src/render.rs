//! The read-only traversal handed to the visualization collaborator:
//! a graphviz description of every node the chosen root depends on.
//!
//! The core only produces the text — data nodes with value and gradient,
//! one operation node per binary node, and the edges between them; the
//! collaborator that lays the graph out and writes an image never reads
//! the arena itself and never mutates it.

use vstd::prelude::*;
use vstd::string::StringExecFns;

use crate::graph::{node_wf, Arena, GraphError, OpKind};
use crate::rational::Rat;
use crate::text::{dec_digits, scalar_text, scalar_to_text, u64_text};

verus! {

/// The display name of node `i`: its label when it has one, otherwise
/// `n` followed by its handle.
pub open spec fn node_name(a: Arena, i: int) -> Seq<char> {
    match a.nodes@[i].label {
        Option::Some(l) => l@,
        Option::None => seq!['n'] + dec_digits(i),
    }
}

/// The graphviz identifier of the operation node drawn for node `i`.
pub open spec fn op_id(i: int) -> Seq<char> {
    seq!['o', 'p'] + dec_digits(i)
}

/// The symbol drawn inside an operation node.
pub open spec fn op_symbol(k: OpKind) -> Seq<char> {
    match k {
        OpKind::Leaf => Seq::empty(),
        OpKind::Add => seq!['+'],
        OpKind::Subtract => seq!['-'],
        OpKind::Multiply => seq!['*'],
        OpKind::Divide => seq!['/'],
    }
}

/// A data-node definition line.
pub open spec fn data_line(name: Seq<char>, v: Rat, g: Rat) -> Seq<char> {
    name + "[shape=square, label=\""@ + name + " | data "@ + scalar_text(v) + " | grad "@
        + scalar_text(g) + "\"]\n"@
}

/// An operation-node definition line.
pub open spec fn op_line(id: Seq<char>, sym: Seq<char>) -> Seq<char> {
    id + "[label=\""@ + sym + "\"]\n"@
}

/// An edge line.
pub open spec fn edge_line(from: Seq<char>, to: Seq<char>) -> Seq<char> {
    from + " -> "@ + to + seq!['\n']
}

/// Everything drawn for node `i`: its data node, and, for a binary node,
/// its operation node and the three edges around it.
pub open spec fn node_text(a: Arena, i: int) -> Seq<char> {
    let name = node_name(a, i);
    let dl = data_line(name, a.nodes@[i].value@, a.grads@[i]@);
    match a.nodes@[i].operands {
        Option::None => dl,
        Option::Some((x, y)) => dl + op_line(op_id(i), op_symbol(a.nodes@[i].op)) + edge_line(
            op_id(i),
            name,
        ) + edge_line(node_name(a, x as int), op_id(i)) + edge_line(node_name(a, y as int), op_id(i)),
    }
}

/// One marking step: a marked binary node marks both of its operands.
pub open spec fn mark_step(a: Arena, m: Seq<bool>, i: int) -> Seq<bool> {
    match a.nodes@[i].operands {
        Option::None => m,
        Option::Some((x, y)) => {
            if m[i] {
                m.update(x as int, true).update(y as int, true)
            } else {
                m
            }
        },
    }
}

/// The marks after walking nodes `root, root-1, ..., i`, starting from
/// only the root marked.
pub open spec fn marks_from(a: Arena, root: int, i: int) -> Seq<bool>
    decreases root - i + 1,
{
    if i > root {
        Seq::new(a.nodes@.len(), |t: int| t == root)
    } else {
        mark_step(a, marks_from(a, root, i + 1), i)
    }
}

/// The nodes the root depends on: itself, and transitively every
/// operand of a reachable node.
pub open spec fn reach(a: Arena, root: int) -> Seq<bool> {
    marks_from(a, root, 0)
}

/// One mark per node.
pub proof fn lemma_marks_from_len(a: Arena, root: int, i: int)
    requires
        a.wf(),
        0 <= root < a.nodes@.len(),
        0 <= i,
    ensures
        marks_from(a, root, i).len() == a.nodes@.len(),
    decreases root - i + 1,
{
    if i <= root {
        lemma_marks_from_len(a, root, i + 1);
        assert(node_wf(a, i));
    }
}

/// The text drawn for the marked nodes with handles in `[i, j)`, in
/// descending handle order — reverse topological order.
pub open spec fn body_between(a: Arena, m: Seq<bool>, i: int, j: int) -> Seq<char>
    decreases j - i,
{
    if j <= i {
        Seq::empty()
    } else {
        (if m[j - 1] {
            node_text(a, j - 1)
        } else {
            Seq::empty()
        }) + body_between(a, m, i, j - 1)
    }
}

/// Peeling the smallest handle off the range appends its text.
proof fn lemma_body_split(a: Arena, m: Seq<bool>, i: int, j: int)
    requires
        i < j,
    ensures
        body_between(a, m, i, j) == body_between(a, m, i + 1, j) + (if m[i] {
            node_text(a, i)
        } else {
            Seq::<char>::empty()
        }),
    decreases j - i,
{
    let tail = if m[i] {
        node_text(a, i)
    } else {
        Seq::<char>::empty()
    };
    if i + 1 == j {
        assert(body_between(a, m, i + 1, j) == Seq::<char>::empty());
        assert(body_between(a, m, i, i) == Seq::<char>::empty());
        assert(body_between(a, m, i, j) == tail + Seq::<char>::empty());
        assert(tail + Seq::<char>::empty() =~= tail);
        assert(Seq::<char>::empty() + tail =~= tail);
    } else {
        lemma_body_split(a, m, i, j - 1);
        let head = if m[j - 1] {
            node_text(a, j - 1)
        } else {
            Seq::<char>::empty()
        };
        assert(body_between(a, m, i, j) == head + (body_between(a, m, i + 1, j - 1) + tail));
        assert(body_between(a, m, i + 1, j) == head + body_between(a, m, i + 1, j - 1));
        assert(head + (body_between(a, m, i + 1, j - 1) + tail) =~= (head + body_between(
            a,
            m,
            i + 1,
            j - 1,
        )) + tail);
    }
}

/// A graphviz operation-node definition: `id[label="label"]`, on a line
/// of its own.
pub fn build_graphviz_op_node(id: &str, label: &str) -> (r: String)
    ensures
        r@ == op_line(id@, label@),
{
    let mut s = String::from_str(id);
    s.append("[label=\"");
    s.append(label);
    s.append("\"]\n");
    proof {
        assert(s@ =~= op_line(id@, label@));
    }
    s
}

/// A graphviz data-node definition: a square box showing the node's
/// name, forward value and gradient.
pub fn build_graphviz_data_node(id: &str, label: &str, data: &crate::rational::Scalar, grad:
    &crate::rational::Scalar) -> (r: String)
    requires
        crate::rational::scalar_wf(*data),
        crate::rational::scalar_wf(*grad),
    ensures
        r@ == id@ + "[shape=square, label=\""@ + label@ + " | data "@ + scalar_text(data@)
            + " | grad "@ + scalar_text(grad@) + "\"]\n"@,
{
    let mut s = String::from_str(id);
    s.append("[shape=square, label=\"");
    s.append(label);
    s.append(" | data ");
    let dt = scalar_to_text(data);
    s.append(dt.as_str());
    s.append(" | grad ");
    let gt = scalar_to_text(grad);
    s.append(gt.as_str());
    s.append("\"]\n");
    proof {
        assert(s@ =~= id@ + "[shape=square, label=\""@ + label@ + " | data "@ + scalar_text(
            data@,
        ) + " | grad "@ + scalar_text(grad@) + "\"]\n"@);
    }
    s
}

/// A graphviz edge line: `from -> to`.
fn build_edge(from: &str, to: &str) -> (r: String)
    ensures
        r@ == edge_line(from@, to@),
{
    let mut s = String::from_str(from);
    s.append(" -> ");
    s.append(to);
    s.append("\n");
    proof {
        reveal_strlit("\n");
        assert(s@ =~= edge_line(from@, to@));
    }
    s
}

impl Arena {
    /// The display name of the node at `h`.
    fn node_name_string(&self, h: usize) -> (r: String)
        requires
            self.wf(),
            h < self.nodes@.len(),
        ensures
            r@ == node_name(*self, h as int),
    {
        match &self.nodes[h].label {
            Some(l) => l.clone(),
            None => {
                let mut s = String::from_str("n");
                let d = u64_text(h as u64);
                s.append(d.as_str());
                proof {
                    reveal_strlit("n");
                    assert(s@ =~= seq!['n'] + dec_digits(h as int));
                }
                s
            },
        }
    }

    /// Everything drawn for the node at `h`.
    fn node_chunk(&self, h: usize) -> (r: String)
        requires
            self.wf(),
            h < self.nodes@.len(),
        ensures
            r@ == node_text(*self, h as int),
    {
        proof {
            assert(node_wf(*self, h as int));
        }
        let name = self.node_name_string(h);
        let mut s = build_graphviz_data_node(
            name.as_str(),
            name.as_str(),
            &self.nodes[h].value,
            &self.grads[h],
        );
        match self.nodes[h].operands {
            None => s,
            Some((x, y)) => {
                let mut opid = String::from_str("op");
                let d = u64_text(h as u64);
                opid.append(d.as_str());
                proof {
                    reveal_strlit("op");
                    assert(opid@ =~= op_id(h as int));
                }
                let sym: &str = match self.nodes[h].op {
                    OpKind::Leaf => "",
                    OpKind::Add => "+",
                    OpKind::Subtract => "-",
                    OpKind::Multiply => "*",
                    OpKind::Divide => "/",
                };
                proof {
                    reveal_strlit("");
                    reveal_strlit("+");
                    reveal_strlit("-");
                    reveal_strlit("*");
                    reveal_strlit("/");
                    assert(sym@ =~= op_symbol(self.nodes@[h as int].op));
                }
                let ol = build_graphviz_op_node(opid.as_str(), sym);
                let e1 = build_edge(opid.as_str(), name.as_str());
                let nx = self.node_name_string(x);
                let ny = self.node_name_string(y);
                let e2 = build_edge(nx.as_str(), opid.as_str());
                let e3 = build_edge(ny.as_str(), opid.as_str());
                s.append(ol.as_str());
                s.append(e1.as_str());
                s.append(e2.as_str());
                s.append(e3.as_str());
                proof {
                    assert(s@ =~= node_text(*self, h as int));
                }
                s
            },
        }
    }

    /// Marks every node the root depends on, walking handles downward so
    /// that a node is visited only after all of its consumers.
    fn compute_reach(&self, root: usize) -> (m: Vec<bool>)
        requires
            self.wf(),
            root < self.nodes@.len(),
        ensures
            m@ == reach(*self, root as int),
            m@.len() == self.nodes@.len(),
    {
        let n = self.nodes.len();
        let mut m: Vec<bool> = Vec::new();
        let mut j: usize = 0;
        while j < n
            invariant
                j <= n,
                m@.len() == j,
                forall|t: int| 0 <= t < j ==> #[trigger] m@[t] == false,
            decreases n - j,
        {
            m.push(false);
            j += 1;
        }
        m.set(root, true);
        proof {
            assert forall|t: int| 0 <= t < n implies m@[t] == marks_from(
                *self,
                root as int,
                root as int + 1,
            )[t] by {
                assert(marks_from(*self, root as int, root as int + 1) == Seq::new(
                    self.nodes@.len(),
                    |t: int| t == root,
                ));
            }
        }
        let mut i: usize = root + 1;
        while i > 0
            invariant
                self.wf(),
                root < self.nodes@.len(),
                n == self.nodes@.len(),
                i <= root + 1,
                m@.len() == n,
                forall|t: int|
                    0 <= t < n ==> #[trigger] m@[t] == marks_from(*self, root as int, i as int)[t],
            decreases i,
        {
            i -= 1;
            let ghost prev = marks_from(*self, root as int, i + 1);
            proof {
                lemma_marks_from_len(*self, root as int, i + 1);
                assert(marks_from(*self, root as int, i as int) == mark_step(
                    *self,
                    prev,
                    i as int,
                ));
                assert(node_wf(*self, i as int));
            }
            let marked = m[i];
            if marked {
                match self.nodes[i].operands {
                    None => {},
                    Some((x, y)) => {
                        m.set(x, true);
                        m.set(y, true);
                    },
                }
            }
        }
        proof {
            lemma_marks_from_len(*self, root as int, 0);
            assert(m@ =~= reach(*self, root as int));
        }
        m
    }

    /// The graphviz description of every node the root depends on, in
    /// reverse topological order: for each node a data node showing its
    /// name, value and gradient, and for each binary node an operation
    /// node with edges from its operands and to its result.  Fails with
    /// `UnknownHandle` exactly when `root` is not a handle of this arena.
    pub fn build_computational_graph(&self, root: usize) -> (r: Result<String, GraphError>)
        requires
            self.wf(),
        ensures
            root >= self.nodes@.len() ==> r == Err::<String, GraphError>(GraphError::UnknownHandle),
            root < self.nodes@.len() ==> (r matches Ok(s) && s@ == body_between(
                *self,
                reach(*self, root as int),
                0,
                root as int + 1,
            )),
    {
        if root >= self.nodes.len() {
            return Err(GraphError::UnknownHandle);
        }
        let m = self.compute_reach(root);
        let mut acc = String::new();
        let mut i: usize = root + 1;
        while i > 0
            invariant
                self.wf(),
                root < self.nodes@.len(),
                m@ == reach(*self, root as int),
                m@.len() == self.nodes@.len(),
                i <= root + 1,
                acc@ == body_between(*self, m@, i as int, root as int + 1),
            decreases i,
        {
            i -= 1;
            proof {
                lemma_body_split(*self, m@, i as int, root as int + 1);
            }
            if m[i] {
                let chunk = self.node_chunk(i);
                acc.append(chunk.as_str());
            }
            proof {
                assert(acc@ =~= body_between(*self, m@, i as int, root as int + 1));
            }
        }
        Ok(acc)
    }

    /// The whole graphviz document for the graph below `root`: the body
    /// wrapped in a `strict digraph`.  Fails with `UnknownHandle` exactly
    /// when `root` is not a handle of this arena.
    pub fn render_graph(&self, root: usize) -> (r: Result<String, GraphError>)
        requires
            self.wf(),
        ensures
            root >= self.nodes@.len() ==> r == Err::<String, GraphError>(GraphError::UnknownHandle),
            root < self.nodes@.len() ==> (r matches Ok(s) && s@ == "strict digraph Comp {\n"@
                + body_between(*self, reach(*self, root as int), 0, root as int + 1) + "}\n"@),
    {
        let body = match self.build_computational_graph(root) {
            Ok(b) => b,
            Err(e) => {
                return Err(e);
            },
        };
        let mut s = String::from_str("strict digraph Comp {\n");
        s.append(body.as_str());
        s.append("}\n");
        proof {
            assert(s@ =~= "strict digraph Comp {\n"@ + body_between(
                *self,
                reach(*self, root as int),
                0,
                root as int + 1,
            ) + "}\n"@);
        }
        Ok(s)
    }
}

} // verus!
