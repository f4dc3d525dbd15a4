use backprop::graph::{Arena, GraphError};
use backprop::rational::Scalar;
use backprop::render::{build_graphviz_data_node, build_graphviz_op_node};
use backprop::text::{i64_text, scalar_to_text, u64_text};

#[test]
fn decimal_text_of_integers() {
    assert_eq!(u64_text(0).as_str(), "0");
    assert_eq!(u64_text(7).as_str(), "7");
    assert_eq!(u64_text(10).as_str(), "10");
    assert_eq!(u64_text(90210).as_str(), "90210");
    assert_eq!(i64_text(-123).as_str(), "-123");
    assert_eq!(i64_text(0).as_str(), "0");
    assert_eq!(i64_text(i64::MAX).as_str(), "9223372036854775807");
}

#[test]
fn text_of_scalars() {
    assert_eq!(scalar_to_text(&Scalar::from_int(5)).as_str(), "5");
    assert_eq!(scalar_to_text(&Scalar::from_int(-3)).as_str(), "-3");
    assert_eq!(scalar_to_text(&Scalar::new(-7, 2).unwrap()).as_str(), "-7/2");
    assert_eq!(scalar_to_text(&Scalar::new(7, -2).unwrap()).as_str(), "-7/2");
    assert_eq!(scalar_to_text(&Scalar::from_int(0)).as_str(), "0");
}

#[test]
fn op_node_line_is_exact() {
    assert_eq!(build_graphviz_op_node("op0", "*").as_str(), "op0[label=\"*\"]\n");
    assert_eq!(build_graphviz_op_node("op12", "+").as_str(), "op12[label=\"+\"]\n");
}

#[test]
fn data_node_line_is_exact() {
    let line = build_graphviz_data_node(
        "c",
        "c",
        &Scalar::from_int(-1),
        &Scalar::from_int(1),
    );
    assert_eq!(line.as_str(), "c[shape=square, label=\"c | data -1 | grad 1\"]\n");
}

#[test]
fn render_of_single_unlabeled_leaf() {
    let mut a = Arena::new();
    let h = a.create_leaf(Scalar::from_int(5), None);
    let text = a.render_graph(h).unwrap();
    assert_eq!(
        text.as_str(),
        "strict digraph Comp {\nn0[shape=square, label=\"n0 | data 5 | grad 0\"]\n}\n"
    );
}

#[test]
fn render_lists_reachable_nodes_in_reverse_topological_order() {
    let mut a = Arena::new();
    let x = a.create_leaf(Scalar::from_int(2), Some(String::from("a")));
    let y = a.create_leaf(Scalar::from_int(-3), Some(String::from("b")));
    let c = a.add(x, y).unwrap();
    a.set_label(c, String::from("c")).unwrap();
    a.backward(c).unwrap();
    let text = a.render_graph(c).unwrap();
    let expected = "strict digraph Comp {\nc[shape=square, label=\"c | data -1 | grad 1\"]\nop2[label=\"+\"]\nop2 -> c\na -> op2\nb -> op2\nb[shape=square, label=\"b | data -3 | grad 1\"]\na[shape=square, label=\"a | data 2 | grad 1\"]\n}\n";
    assert_eq!(text.as_str(), expected);
}

#[test]
fn render_skips_unreachable_nodes() {
    let mut a = Arena::new();
    let x = a.create_leaf(Scalar::from_int(1), Some(String::from("x")));
    let _stray = a.create_leaf(Scalar::from_int(9), Some(String::from("stray")));
    let out = a.add(x, x).unwrap();
    a.set_label(out, String::from("out")).unwrap();
    let text = a.render_graph(out).unwrap();
    assert!(!text.contains("stray"));
    assert!(text.contains("out[shape=square"));
}

#[test]
fn render_of_unknown_handle_fails() {
    let a = Arena::new();
    assert_eq!(a.render_graph(0), Err(GraphError::UnknownHandle));
    assert_eq!(a.build_computational_graph(3), Err(GraphError::UnknownHandle));
}
