use sodg::{Fault, GraphError, Script, Sodg};

#[test]
fn simple_command() {
    let mut g = Sodg::empty();
    let mut s = Script::from_str(
        "
        ADD(0);  ADD($ν1); # adding two vertices
        BIND(ν0, $ν1, foo  );
        PUT($ν1  , d0-bf-D1-80-d0-B8-d0-b2-d0-b5-d1-82);
        ",
    );
    let total = s.deploy_to(&mut g).unwrap();
    assert_eq!(4, total);
    assert_eq!("привет", String::from_utf8(g.data(1).unwrap().to_vec()).unwrap());
    assert_eq!(1, g.kid(0, "foo").unwrap());
}

#[test]
fn basic_deployment() {
    let mut g = Sodg::empty();
    let mut s = Script::from_str(
        "ADD(0); ADD($ν1); BIND(ν0, $ν1, foo); PUT($ν1, d0-bf-D1-80-d0-B8-d0-b2-d0-b5-d1-82);",
    );
    assert_eq!(4, s.deploy_to(&mut g).unwrap());
    assert_eq!(Some(1), g.kid(0, "foo"));
    assert_eq!("привет", String::from_utf8(g.data(1).unwrap().to_vec()).unwrap());
}

#[test]
fn comment_stripping() {
    let mut g = Sodg::empty();
    let mut s = Script::from_str("ADD(0); # commented line\n ADD(1);");
    assert_eq!(2, s.deploy_to(&mut g).unwrap());
    assert_eq!(2, g.len());
    assert!(g.ids().contains(&0));
    assert!(g.ids().contains(&1));
}

#[test]
fn variable_reuse() {
    let mut g = Sodg::empty();
    let mut s = Script::from_str("ADD($a); ADD($b); BIND($a, $b, k); BIND($a, $b, k2);");
    assert_eq!(4, s.deploy_to(&mut g).unwrap());
    assert_eq!(2, g.len());
    assert_eq!(Some(1), g.kid(0, "k"));
    assert_eq!(Some(1), g.kid(0, "k2"));
}

#[test]
fn unknown_opcode() {
    let mut g = Sodg::empty();
    let mut s = Script::from_str("DEL(0);");
    let e = s.deploy_to(&mut g).unwrap_err();
    assert_eq!(0, e.position);
    assert_eq!(Fault::UnknownCommand, e.fault);
    let m = e.message();
    assert!(m.contains("Unknown command: DEL"));
    assert!(m.contains("Failure at the command no.0"));
}

#[test]
fn bad_payload() {
    let mut g = Sodg::empty();
    let mut s = Script::from_str("ADD(0); PUT(0, zz);");
    let e = s.deploy_to(&mut g).unwrap_err();
    assert_eq!(1, e.position);
    assert_eq!(Fault::BadData, e.fault);
    assert!(e.message().contains("Can't parse data 'zz'"));
    assert_eq!(1, g.len());
}

#[test]
fn propagated_facade_error() {
    let mut g = Sodg::empty();
    let mut s = Script::from_str("ADD(0); ADD(0);");
    let e = s.deploy_to(&mut g).unwrap_err();
    assert_eq!(1, e.position);
    assert_eq!(Fault::Graph(GraphError::VertexExists(0)), e.fault);
    assert!(e.message().contains("Failed to ADD(0)"));
    assert_eq!(1, g.len());
}

#[test]
fn full_message_text() {
    let mut g = Sodg::empty();
    let mut s = Script::from_str("ADD(1); BIND(1, 2, foo);");
    let e = s.deploy_to(&mut g).unwrap_err();
    assert_eq!(
        "Failure at the command no.1: 'BIND(1, 2, foo)': Failed to BIND(1, 2, foo): Can't find ν2",
        e.message()
    );
}

#[test]
fn malformed_command() {
    let mut g = Sodg::empty();
    let mut s = Script::from_str("ADD 0;");
    let e = s.deploy_to(&mut g).unwrap_err();
    assert_eq!(Fault::Malformed, e.fault);
    assert_eq!("Failure at the command no.0: 'ADD 0': Can't parse 'ADD 0'", e.message());
}

#[test]
fn comment_at_end_without_newline_is_kept() {
    let mut g = Sodg::empty();
    let mut s = Script::from_str("ADD(0); # last");
    let e = s.deploy_to(&mut g).unwrap_err();
    assert_eq!(1, e.position);
    assert_eq!(Fault::Malformed, e.fault);
    assert_eq!(1, g.len());
}

#[test]
fn bad_numbers() {
    let mut g = Sodg::empty();
    let mut s = Script::from_str("ADD(4294967296);");
    let e = s.deploy_to(&mut g).unwrap_err();
    assert_eq!(Fault::BadNumber(0), e.fault);
    assert!(e.message().contains("Parsing of '4294967296' failed"));
    let mut s = Script::from_str("ADD(4294967295); ADD(ν12); ADD(+7); BIND(1, νx, a);");
    let e = s.deploy_to(&mut g).unwrap_err();
    assert_eq!(3, e.position);
    assert_eq!(Fault::BadNumber(1), e.fault);
    assert!(e.message().contains("Parsing of 'νx' failed"));
    assert_eq!(3, g.len());
    assert!(g.ids().contains(&7));
    assert!(g.ids().contains(&12));
}

#[test]
fn wrong_arity() {
    let mut g = Sodg::empty();
    let mut s = Script::from_str("ADD(1, 2);");
    let e = s.deploy_to(&mut g).unwrap_err();
    assert_eq!(Fault::Arity, e.fault);
    assert!(e.message().contains("Wrong number of arguments for ADD"));
    assert!(g.is_empty());
}

#[test]
fn count_equals_commands() {
    let mut g = Sodg::empty();
    let mut s = Script::from_str(";;ADD(5);\n\n ; ADD (6) ;  ");
    assert_eq!(2, s.deploy_to(&mut g).unwrap());
    let mut h = Sodg::empty();
    let mut empty = Script::from_string(String::from("  # nothing\n"));
    assert_eq!(0, empty.deploy_to(&mut h).unwrap());
}

#[test]
fn distinct_variables_get_distinct_vertices() {
    let mut g = Sodg::empty();
    let mut s = Script::from_str("BIND($x, $y, a);");
    let e = s.deploy_to(&mut g).unwrap_err();
    assert_eq!(Fault::Graph(GraphError::VertexAbsent(0)), e.fault);
    let mut s = Script::from_str("ADD($p); ADD($q); ADD($r); BIND($p, $r, e);");
    let mut g = Sodg::empty();
    assert_eq!(4, s.deploy_to(&mut g).unwrap());
    assert_eq!(vec![0, 1, 2], g.ids());
    assert_eq!(Some(2), g.kid(0, "e"));
}

#[test]
fn variables_persist_between_deployments() {
    let mut g = Sodg::empty();
    let mut s = Script::from_str("ADD($v);");
    assert_eq!(1, s.deploy_to(&mut g).unwrap());
    let e = s.deploy_to(&mut g).unwrap_err();
    assert_eq!(Fault::Graph(GraphError::VertexExists(0)), e.fault);
}

#[test]
fn no_fresh_vertex_left() {
    let mut g = Sodg::empty();
    let mut s = Script::from_str("ADD(4294967295); ADD($x);");
    let e = s.deploy_to(&mut g).unwrap_err();
    assert_eq!(1, e.position);
    assert_eq!(Fault::NoFreshId, e.fault);
    assert!(e.message().contains("No fresh vertex identifier is left"));
}

#[test]
fn label_taken_twice() {
    let mut g = Sodg::empty();
    let mut s = Script::from_str("ADD(0); ADD(1); BIND(0, 1, a); BIND(0, 1, a);");
    let e = s.deploy_to(&mut g).unwrap_err();
    assert_eq!(3, e.position);
    assert_eq!(Fault::Graph(GraphError::LabelTaken(0)), e.fault);
    assert_eq!(
        "Failure at the command no.3: 'BIND(0, 1, a)': Failed to BIND(0, 1, a): The label is taken at ν0",
        e.message()
    );
}

#[test]
fn multi_line_command_and_position_of_failure() {
    let mut g = Sodg::empty();
    let mut s = Script::from_str("ADD(\n 7\n);\nADD(8); PUT(8, 0a-0B); PUT(9, 01);");
    let e = s.deploy_to(&mut g).unwrap_err();
    assert_eq!(3, e.position);
    assert_eq!(Fault::Graph(GraphError::VertexAbsent(9)), e.fault);
    assert!(e.message().contains("Failed to PUT(9): Can't find ν9"));
    assert_eq!(vec![0x0a, 0x0b], g.data(8).unwrap().to_vec());
    assert_eq!(2, g.len());
}

#[test]
fn failed_argument_keeps_earlier_bindings() {
    let mut g = Sodg::empty();
    let mut s = Script::from_str("BIND($a, zz, k);");
    let e = s.deploy_to(&mut g).unwrap_err();
    assert_eq!(Fault::BadNumber(1), e.fault);
    assert_eq!(Some(1), g.next_id());
}
