use sodg::{GraphError, Hex, Sodg};

#[test]
fn checks_for_emptiness() {
    let g = Sodg::empty();
    assert!(g.is_empty());
}

#[test]
fn counts_vertices() {
    let g = Sodg::empty();
    assert_eq!(0, g.len());
}

#[test]
fn collect_vertices() {
    let mut g = Sodg::empty();
    g.add(1).unwrap();
    g.add(2).unwrap();
    assert!(g.ids().contains(&1));
}

#[test]
fn add_grows_the_graph_by_one() {
    let mut g = Sodg::empty();
    g.add(7).unwrap();
    assert_eq!(1, g.len());
    g.add(8).unwrap();
    assert_eq!(2, g.len());
    assert_eq!(Err(GraphError::VertexExists(7)), g.add(7));
    assert_eq!(2, g.len());
    assert_eq!(vec![7, 8], g.ids());
}

#[test]
fn binds_and_finds_kids() {
    let mut g = Sodg::empty();
    g.add(0).unwrap();
    g.add(42).unwrap();
    g.bind(0, 42, "hello").unwrap();
    assert_eq!(Some(42), g.kid(0, "hello"));
    assert_eq!(None, g.kid(0, "bye"));
    assert_eq!(None, g.kid(42, "hello"));
    assert_eq!(Err(GraphError::LabelTaken(0)), g.bind(0, 42, "hello"));
    assert_eq!(Err(GraphError::VertexAbsent(5)), g.bind(5, 42, "x"));
    assert_eq!(Err(GraphError::VertexAbsent(6)), g.bind(0, 6, "x"));
}

#[test]
fn puts_and_reads_payloads() {
    let mut g = Sodg::empty();
    g.add(3).unwrap();
    assert_eq!(0, g.data(3).unwrap().len());
    g.put(3, Hex::from_vec(vec![1, 2, 255])).unwrap();
    assert_eq!(vec![1, 2, 255], g.data(3).unwrap().to_vec());
    assert!(g.data(4).is_none());
    assert_eq!(Err(GraphError::VertexAbsent(4)), g.put(4, Hex::empty()));
}

#[test]
fn next_id_skips_used_ones() {
    let mut g = Sodg::empty();
    assert_eq!(Some(0), g.next_id());
    assert_eq!(Some(1), g.next_id());
    g.add(10).unwrap();
    assert_eq!(Some(11), g.next_id());
    assert_eq!(Some(12), g.next_id());
    let mut h = Sodg::empty();
    h.add(u32::MAX).unwrap();
    assert_eq!(None, h.next_id());
}
