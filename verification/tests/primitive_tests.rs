use laverna::primitive::{NandDag, NandNode};
use laverna::vad::{silence_step, VadTracker};

fn gates_read_earlier_nodes(dag: &NandDag) -> bool {
    dag.nodes().iter().enumerate().all(|(i, n)| match n {
        NandNode::Nand { a, b } => *a < i && *b < i,
        _ => true,
    })
}

#[test]
fn empty_dag_has_no_output() {
    let dag = NandDag::new();
    assert!(dag.is_empty());
    assert_eq!(dag.node_count(), 0);
    assert_eq!(dag.output_index(), None);
}

#[test]
fn simple_nand_dag_shape() {
    let mut dag = NandDag::new();
    let a = dag.add_input("a");
    let b = dag.add_input("b");
    let out = dag.add_nand(a, b);
    assert_eq!((a, b, out), (0, 1, 2));
    assert_eq!(dag.nand_count(), 1);
    assert_eq!(dag.output_index(), Some(2));
    assert!(matches!(&dag.nodes()[0], NandNode::Input(n) if n == "a"));
}

#[test]
fn derived_gates_use_nand_only() {
    let mut dag = NandDag::new();
    let a = dag.add_input("a");
    let b = dag.add_input("b");
    assert_eq!(dag.add_not(a), 2);
    assert_eq!(dag.add_and(a, b), 4);
    assert_eq!(dag.add_or(a, b), 7);
    assert_eq!(dag.add_nor(a, b), 11);
    assert_eq!(dag.add_implies(a, b), 15);
    assert_eq!(dag.add_xor(a, b), 24);
    assert_eq!(dag.add_xnor(a, b), 34);
    assert_eq!(dag.node_count(), 35);
    assert_eq!(dag.nand_count(), 33);
    assert!(gates_read_earlier_nodes(&dag));
}

#[test]
fn xor_structure() {
    let mut dag = NandDag::new();
    let a = dag.add_input("a");
    let b = dag.add_input("b");
    let out = dag.add_xor(a, b);
    assert_eq!(out, 10);
    assert!(matches!(dag.nodes()[10], NandNode::Nand { a: 8, b: 9 }));
    assert!(matches!(dag.nodes()[2], NandNode::Nand { a: 1, b: 1 }));
}

#[test]
fn constants_carry_their_bits() {
    let mut dag = NandDag::new();
    let a = dag.add_constant(1.0f64.to_bits());
    let b = dag.add_constant(1.0f64.to_bits());
    dag.add_nand(a, b);
    assert!(matches!(dag.nodes()[0], NandNode::Constant(bits) if f64::from_bits(bits) == 1.0));
    let copy = dag.clone();
    assert_eq!(copy.node_count(), 3);
    assert!(gates_read_earlier_nodes(&copy));
}

#[test]
fn speech_ends_after_five_quiet_chunks() {
    let mut v = VadTracker::new();
    assert!(!v.observe(false));
    assert!(v.observe(true));
    for _ in 0..4 {
        assert!(v.observe(false));
    }
    assert!(!v.observe(false));
    assert!(!v.in_speech());
    assert!(v.observe(true));
    v.reset();
    assert!(!v.in_speech());
    let mut d = VadTracker::default();
    assert!(d.observe(true));
    assert!(!d.observe(false));
}

#[test]
fn capture_stops_after_threshold_quiet_chunks() {
    assert_eq!(silence_step(0, 3, true), (1, false));
    assert_eq!(silence_step(1, 3, true), (2, false));
    assert_eq!(silence_step(2, 3, true), (3, true));
    assert_eq!(silence_step(2, 3, false), (0, false));
    assert_eq!(silence_step(0, 1, true), (1, true));
}
