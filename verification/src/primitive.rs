//! The NAND computation DAG: inputs, constants and NAND gates, each gate
//! reading only nodes added before it, and the derived gates built from NAND
//! alone. Constants are carried as the bit pattern of their `f64` value; the
//! arithmetic of evaluation happens outside this library.
use vstd::prelude::*;

use crate::text::{chars_of, string_of};

verus! {

/// A node in the NAND computation DAG.
#[derive(Debug, Clone)]
pub enum NandNode {
    /// A named input variable.
    Input(String),
    /// A constant, as the bits of its `f64` value (`f64::to_bits`).
    Constant(u64),
    /// A NAND gate combining two earlier nodes.
    Nand { a: usize, b: usize },
}

/// Every gate reads nodes added before it, so the nodes are in evaluation
/// order and the graph has no cycle.
pub open spec fn topological(s: Seq<NandNode>) -> bool {
    forall|i: int|
        0 <= i < s.len() ==> match #[trigger] s[i] {
            NandNode::Nand { a, b } => a < i && b < i,
            _ => true,
        }
}

/// `s` is `prefix` followed by the gates `gates` (pairs of operands).
pub open spec fn extended(s: Seq<NandNode>, prefix: Seq<NandNode>, gates: Seq<(usize, usize)>) -> bool {
    &&& s.len() == prefix.len() + gates.len()
    &&& s.take(prefix.len() as int) == prefix
    &&& forall|k: int|
        0 <= k < gates.len() ==> (#[trigger] s[prefix.len() + k]) == (NandNode::Nand {
            a: gates[k].0,
            b: gates[k].1,
        })
}

/// The number of gates among `s`.
pub open spec fn gate_count(s: Seq<NandNode>) -> nat
    decreases s.len(),
{
    if s.len() == 0 {
        0
    } else {
        gate_count(s.drop_last()) + if s.last() is Nand {
            1nat
        } else {
            0nat
        }
    }
}

/// `r` is a copy of `n`: the same gate or constant, an input of the same name.
pub open spec fn same_node(r: NandNode, n: NandNode) -> bool {
    match n {
        NandNode::Input(s) => r matches NandNode::Input(t) && t@ == s@,
        _ => r == n,
    }
}

fn copy_node(n: &NandNode) -> (r: NandNode)
    ensures
        same_node(r, *n),
{
    match n {
        NandNode::Input(s) => NandNode::Input(string_of(&chars_of(s.as_str()))),
        NandNode::Constant(c) => NandNode::Constant(*c),
        NandNode::Nand { a, b } => NandNode::Nand { a: *a, b: *b },
    }
}

/// A directed acyclic graph of NAND operations; the last node is its output.
#[derive(Debug)]
pub struct NandDag {
    nodes: Vec<NandNode>,
}

impl NandDag {
    #[verifier::type_invariant]
    spec fn ordered(self) -> bool {
        topological(self.nodes@)
    }

    /// The nodes, in the order they were added.
    pub closed spec fn spec_nodes(&self) -> Seq<NandNode> {
        self.nodes@
    }

    /// Create a new empty NAND DAG.
    pub fn new() -> (r: Self)
        ensures
            r.spec_nodes() == Seq::<NandNode>::empty(),
    {
        NandDag { nodes: Vec::new() }
    }

    fn push_node(&mut self, n: NandNode) -> (r: usize)
        requires
            match n {
                NandNode::Nand { a, b } => a < old(self).spec_nodes().len() && b < old(self).spec_nodes().len(),
                _ => true,
            },
        ensures
            final(self).spec_nodes() == old(self).spec_nodes().push(n),
            r == old(self).spec_nodes().len(),
    {
        proof {
            use_type_invariant(&*self);
        }
        let idx = self.nodes.len();
        let mut v: Vec<NandNode> = Vec::new();
        std::mem::swap(&mut v, &mut self.nodes);
        v.push(n);
        proof {
            assert forall|i: int| 0 <= i < v@.len() implies match #[trigger] v@[i] {
                NandNode::Nand { a, b } => a < i && b < i,
                _ => true,
            } by {
                if i < idx {
                    assert(v@[i] == old(self).nodes@[i]);
                }
            }
        }
        self.nodes = v;
        idx
    }

    /// Add an input variable node, returning its index.
    pub fn add_input(&mut self, name: &str) -> (r: usize)
        ensures
            r == old(self).spec_nodes().len(),
            final(self).spec_nodes().len() == old(self).spec_nodes().len() + 1,
            final(self).spec_nodes().take(r as int) == old(self).spec_nodes(),
            final(self).spec_nodes()[r as int] matches NandNode::Input(n) && n@ == name@,
    {
        let n = string_of(&chars_of(name));
        let r = self.push_node(NandNode::Input(n));
        proof {
            assert(self.spec_nodes().take(r as int) =~= old(self).spec_nodes());
        }
        r
    }

    /// Add a constant node holding the bits of an `f64`, returning its index.
    pub fn add_constant(&mut self, bits: u64) -> (r: usize)
        ensures
            r == old(self).spec_nodes().len(),
            final(self).spec_nodes() == old(self).spec_nodes().push(NandNode::Constant(bits)),
    {
        self.push_node(NandNode::Constant(bits))
    }

    /// Add a NAND gate combining two existing nodes, returning its index.
    pub fn add_nand(&mut self, a: usize, b: usize) -> (r: usize)
        requires
            a < old(self).spec_nodes().len(),
            b < old(self).spec_nodes().len(),
        ensures
            r == old(self).spec_nodes().len(),
            extended(final(self).spec_nodes(), old(self).spec_nodes(), seq![(a, b)]),
    {
        let r = self.push_node(NandNode::Nand { a, b });
        proof {
            assert(self.spec_nodes().take(r as int) =~= old(self).spec_nodes());
            assert(self.spec_nodes()[r as int] == NandNode::Nand { a, b });
        }
        r
    }

    /// Derive `not(a)` from `nand(a, a)`.
    pub fn add_not(&mut self, a: usize) -> (r: usize)
        requires
            a < old(self).spec_nodes().len(),
        ensures
            r == old(self).spec_nodes().len(),
            extended(final(self).spec_nodes(), old(self).spec_nodes(), seq![(a, a)]),
    {
        self.add_nand(a, a)
    }

    /// Derive `and(a, b)` from `not(nand(a, b))`.
    pub fn add_and(&mut self, a: usize, b: usize) -> (r: usize)
        requires
            a < old(self).spec_nodes().len(),
            b < old(self).spec_nodes().len(),
            old(self).spec_nodes().len() + 2 <= usize::MAX,
        ensures
            ({
                let l = old(self).spec_nodes().len() as usize;
                &&& r == l + 1
                &&& extended(final(self).spec_nodes(), old(self).spec_nodes(), seq![(a, b), (l, l)])
            }),
    {
        let ghost s0 = self.spec_nodes();
        let n = self.add_nand(a, b);
        let ghost s1 = self.spec_nodes();
        let r = self.add_not(n);
        proof {
            lemma_extend_twice(s0, s1, self.spec_nodes(), seq![(a, b)], seq![(n, n)]);
            assert(seq![(a, b)] + seq![(n, n)] =~= seq![(a, b), (n, n)]);
        }
        r
    }

    /// Derive `or(a, b)` from `nand(not(a), not(b))`.
    pub fn add_or(&mut self, a: usize, b: usize) -> (r: usize)
        requires
            a < old(self).spec_nodes().len(),
            b < old(self).spec_nodes().len(),
            old(self).spec_nodes().len() + 3 <= usize::MAX,
        ensures
            ({
                let l = old(self).spec_nodes().len() as usize;
                &&& r == l + 2
                &&& extended(
                    final(self).spec_nodes(),
                    old(self).spec_nodes(),
                    seq![(a, a), (b, b), (l, (l + 1) as usize)],
                )
            }),
    {
        let ghost s0 = self.spec_nodes();
        let na = self.add_not(a);
        let ghost s1 = self.spec_nodes();
        let nb = self.add_not(b);
        let ghost s2 = self.spec_nodes();
        let r = self.add_nand(na, nb);
        proof {
            lemma_extend_twice(s0, s1, s2, seq![(a, a)], seq![(b, b)]);
            assert(seq![(a, a)] + seq![(b, b)] =~= seq![(a, a), (b, b)]);
            lemma_extend_twice(s0, s2, self.spec_nodes(), seq![(a, a), (b, b)], seq![(na, nb)]);
            assert(seq![(a, a), (b, b)] + seq![(na, nb)] =~= seq![(a, a), (b, b), (na, nb)]);
        }
        r
    }

    /// Derive `nor(a, b)` from `not(or(a, b))`.
    pub fn add_nor(&mut self, a: usize, b: usize) -> (r: usize)
        requires
            a < old(self).spec_nodes().len(),
            b < old(self).spec_nodes().len(),
            old(self).spec_nodes().len() + 4 <= usize::MAX,
        ensures
            ({
                let l = old(self).spec_nodes().len() as usize;
                &&& r == l + 3
                &&& extended(
                    final(self).spec_nodes(),
                    old(self).spec_nodes(),
                    seq![(a, a), (b, b), (l, (l + 1) as usize), ((l + 2) as usize, (l + 2) as usize)],
                )
            }),
    {
        let ghost s0 = self.spec_nodes();
        let o = self.add_or(a, b);
        let ghost s1 = self.spec_nodes();
        let r = self.add_not(o);
        proof {
            let l = s0.len() as usize;
            let g = seq![(a, a), (b, b), (l, (l + 1) as usize)];
            lemma_extend_twice(s0, s1, self.spec_nodes(), g, seq![(o, o)]);
            assert(g + seq![(o, o)] =~= g.push((o, o)));
        }
        r
    }

    /// Derive `implies(a, b)` from `or(not(a), b)`.
    pub fn add_implies(&mut self, a: usize, b: usize) -> (r: usize)
        requires
            a < old(self).spec_nodes().len(),
            b < old(self).spec_nodes().len(),
            old(self).spec_nodes().len() + 4 <= usize::MAX,
        ensures
            ({
                let l = old(self).spec_nodes().len() as usize;
                &&& r == l + 3
                &&& extended(
                    final(self).spec_nodes(),
                    old(self).spec_nodes(),
                    seq![(a, a), (l, l), (b, b), ((l + 1) as usize, (l + 2) as usize)],
                )
            }),
    {
        let ghost s0 = self.spec_nodes();
        let na = self.add_not(a);
        let ghost s1 = self.spec_nodes();
        let r = self.add_or(na, b);
        proof {
            let l = s0.len() as usize;
            let g2 = seq![(na, na), (b, b), ((l + 1) as usize, (l + 2) as usize)];
            lemma_extend_twice(s0, s1, self.spec_nodes(), seq![(a, a)], g2);
            assert(seq![(a, a)] + g2 =~= seq![(a, a), (l, l), (b, b), ((l + 1) as usize, (l + 2) as usize)]);
        }
        r
    }

    /// Derive `xor(a, b)` from `or(and(a, not(b)), and(not(a), b))`.
    pub fn add_xor(&mut self, a: usize, b: usize) -> (r: usize)
        requires
            a < old(self).spec_nodes().len(),
            b < old(self).spec_nodes().len(),
            old(self).spec_nodes().len() + 10 <= usize::MAX,
        ensures
            ({
                let l = old(self).spec_nodes().len() as usize;
                &&& r == l + 8
                &&& extended(final(self).spec_nodes(), old(self).spec_nodes(), xor_gates(a, b, l))
            }),
    {
        let ghost s0 = self.spec_nodes();
        let ghost l = s0.len() as usize;
        let nb = self.add_not(b);
        let ghost s1 = self.spec_nodes();
        let anb = self.add_and(a, nb);
        let ghost s2 = self.spec_nodes();
        let na = self.add_not(a);
        let ghost s3 = self.spec_nodes();
        let nab = self.add_and(na, b);
        let ghost s4 = self.spec_nodes();
        let r = self.add_or(anb, nab);
        proof {
            let g1 = seq![(b, b)];
            let g2 = seq![(a, nb), ((l + 1) as usize, (l + 1) as usize)];
            let g3 = seq![(a, a)];
            let g4 = seq![(na, b), ((l + 4) as usize, (l + 4) as usize)];
            let g5 = seq![(anb, anb), (nab, nab), ((l + 6) as usize, (l + 7) as usize)];
            lemma_extend_twice(s0, s1, s2, g1, g2);
            lemma_extend_twice(s0, s2, s3, g1 + g2, g3);
            lemma_extend_twice(s0, s3, s4, g1 + g2 + g3, g4);
            lemma_extend_twice(s0, s4, self.spec_nodes(), g1 + g2 + g3 + g4, g5);
            assert(g1 + g2 + g3 + g4 + g5 =~= xor_gates(a, b, l));
        }
        r
    }

    /// Derive `xnor(a, b)` from `not(xor(a, b))`.
    pub fn add_xnor(&mut self, a: usize, b: usize) -> (r: usize)
        requires
            a < old(self).spec_nodes().len(),
            b < old(self).spec_nodes().len(),
            old(self).spec_nodes().len() + 11 <= usize::MAX,
        ensures
            ({
                let l = old(self).spec_nodes().len() as usize;
                &&& r == l + 9
                &&& extended(
                    final(self).spec_nodes(),
                    old(self).spec_nodes(),
                    xor_gates(a, b, l).push(((l + 8) as usize, (l + 8) as usize)),
                )
            }),
    {
        let ghost s0 = self.spec_nodes();
        let x = self.add_xor(a, b);
        let ghost s1 = self.spec_nodes();
        let r = self.add_not(x);
        proof {
            let l = s0.len() as usize;
            lemma_extend_twice(s0, s1, self.spec_nodes(), xor_gates(a, b, l), seq![(x, x)]);
            assert(xor_gates(a, b, l) + seq![(x, x)] =~= xor_gates(a, b, l).push((x, x)));
        }
        r
    }

    /// Number of NAND gates in the DAG.
    pub fn nand_count(&self) -> (r: usize)
        ensures
            r == gate_count(self.spec_nodes()),
    {
        let mut n: usize = 0;
        let mut i: usize = 0;
        while i < self.nodes.len()
            invariant
                i <= self.nodes@.len(),
                n == gate_count(self.nodes@.take(i as int)),
                n <= i,
            decreases self.nodes@.len() - i,
        {
            proof {
                assert(self.nodes@.take(i + 1).drop_last() =~= self.nodes@.take(i as int));
            }
            if matches!(self.nodes[i], NandNode::Nand { .. }) {
                n = n + 1;
            }
            i = i + 1;
        }
        proof {
            assert(self.nodes@.take(i as int) =~= self.nodes@);
        }
        n
    }

    /// Total number of nodes in the DAG.
    pub fn node_count(&self) -> (r: usize)
        ensures
            r == self.spec_nodes().len(),
    {
        self.nodes.len()
    }

    /// Check if the DAG is empty.
    pub fn is_empty(&self) -> (r: bool)
        ensures
            r == (self.spec_nodes().len() == 0),
    {
        self.nodes.len() == 0
    }

    /// Get the index of the last (output) node.
    pub fn output_index(&self) -> (r: Option<usize>)
        ensures
            self.spec_nodes().len() == 0 ==> r is None,
            self.spec_nodes().len() > 0 ==> r == Some((self.spec_nodes().len() - 1) as usize),
    {
        if self.nodes.len() == 0 {
            None
        } else {
            Some(self.nodes.len() - 1)
        }
    }

    /// The nodes in evaluation order; every gate reads earlier nodes only.
    pub fn nodes(&self) -> (r: &Vec<NandNode>)
        ensures
            r@ == self.spec_nodes(),
            topological(r@),
    {
        proof {
            use_type_invariant(self);
        }
        &self.nodes
    }
}

impl Clone for NandDag {
    fn clone(&self) -> (r: Self)
        ensures
            r.spec_nodes().len() == self.spec_nodes().len(),
            forall|i: int| 0 <= i < self.spec_nodes().len() ==> same_node(#[trigger] r.spec_nodes()[i], self.spec_nodes()[i]),
    {
        proof {
            use_type_invariant(self);
        }
        let mut v: Vec<NandNode> = Vec::new();
        let mut i: usize = 0;
        while i < self.nodes.len()
            invariant
                i <= self.nodes@.len(),
                v@.len() == i,
                topological(self.nodes@),
                forall|k: int| 0 <= k < i ==> same_node(#[trigger] v@[k], self.nodes@[k]),
            decreases self.nodes@.len() - i,
        {
            let n = copy_node(&self.nodes[i]);
            v.push(n);
            i = i + 1;
        }
        proof {
            assert forall|k: int| 0 <= k < v@.len() implies match #[trigger] v@[k] {
                NandNode::Nand { a, b } => a < k && b < k,
                _ => true,
            } by {
                assert(same_node(v@[k], self.nodes@[k]));
            }
        }
        NandDag { nodes: v }
    }
}

/// The gates `add_xor(a, b)` appends to a DAG of `l` nodes.
pub open spec fn xor_gates(a: usize, b: usize, l: usize) -> Seq<(usize, usize)> {
    seq![
        (b, b),
        (a, l),
        ((l + 1) as usize, (l + 1) as usize),
        (a, a),
        ((l + 3) as usize, b),
        ((l + 4) as usize, (l + 4) as usize),
        ((l + 2) as usize, (l + 2) as usize),
        ((l + 5) as usize, (l + 5) as usize),
        ((l + 6) as usize, (l + 7) as usize),
    ]
}

/// Appending `g1` and then `g2` appends `g1 + g2`.
proof fn lemma_extend_twice(
    s0: Seq<NandNode>,
    s1: Seq<NandNode>,
    s2: Seq<NandNode>,
    g1: Seq<(usize, usize)>,
    g2: Seq<(usize, usize)>,
)
    requires
        extended(s1, s0, g1),
        extended(s2, s1, g2),
    ensures
        extended(s2, s0, g1 + g2),
{
    assert(s2.take(s0.len() as int) =~= s0) by {
        assert forall|i: int| 0 <= i < s0.len() implies s2[i] == s0[i] by {
            assert(s2.take(s1.len() as int)[i] == s2[i]);
            assert(s1.take(s0.len() as int)[i] == s1[i]);
        }
    }
    assert forall|k: int| 0 <= k < (g1 + g2).len() implies (#[trigger] s2[s0.len() + k]) == (NandNode::Nand {
        a: (g1 + g2)[k].0,
        b: (g1 + g2)[k].1,
    }) by {
        if k < g1.len() {
            assert(s2.take(s1.len() as int)[s0.len() + k] == s2[s0.len() + k]);
            assert(s1[s0.len() + k] == NandNode::Nand { a: g1[k].0, b: g1[k].1 });
        } else {
            let k2 = k - g1.len();
            assert(s2[s1.len() + k2] == NandNode::Nand { a: g2[k2].0, b: g2[k2].1 });
        }
    }
}

} // verus!
