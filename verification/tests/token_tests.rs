use helix_db::helixc::parser::ast::{EvaluatesToNumberType, ExpressionType, GraphStepType, StartNode, StepType};
use helix_db::helixc::parser::expressions::{parse_expression, parse_graph_step, parse_start_node, parse_step};
use helix_db::helixc::parser::lexer::{tokenize, Tok, Token};
use helix_db::helixc::parser::values::{integer_at, parse_number, parse_type_arg};

fn toks(text: &str) -> Vec<Token> {
    let chars: Vec<char> = text.chars().collect();
    tokenize(&chars).ok().unwrap()
}

#[test]
fn tokens_cover_the_text() {
    let ts = toks("u <- N<User>::OutE<Knows> // a comment\n  RETURN \"x y\", 1.5, 42");
    let kinds: Vec<Tok> = ts.iter().map(|t| t.kind).collect();
    assert_eq!(
        kinds,
        vec![
            Tok::Ident, Tok::Arrow, Tok::Ident, Tok::Lt, Tok::Ident, Tok::Gt, Tok::PathSep, Tok::Ident,
            Tok::Lt, Tok::Ident, Tok::Gt, Tok::Ident, Tok::Str, Tok::Comma, Tok::Decimal, Tok::Comma, Tok::Int,
        ]
    );
    assert_eq!(ts[12].text, "x y");
    assert_eq!((ts[12].start, ts[12].end), (48, 53));
    assert_eq!(ts[11].text, "RETURN");
}

#[test]
fn tokens_fail_on_stray_characters() {
    let chars: Vec<char> = "a @ b".chars().collect();
    assert_eq!(tokenize(&chars).err().map(|e| e.position), Some(2));
    let chars: Vec<char> = "x \"open".chars().collect();
    assert_eq!(tokenize(&chars).err().map(|e| e.position), Some(2));
}

#[test]
fn graph_steps_by_word() {
    let ts = toks("OutE<Knows>");
    let (g, p) = parse_graph_step(&ts, 0).ok().unwrap();
    assert!(matches!(g.step, GraphStepType::OutE(ref l) if l == "Knows"));
    assert_eq!(p, 4);
    let ts = toks("InN");
    assert!(matches!(parse_graph_step(&ts, 0).ok().unwrap().0.step, GraphStepType::ToN));
    let ts = toks("Out");
    assert!(matches!(parse_graph_step(&ts, 0).ok().unwrap().0.step, GraphStepType::Out(ref l) if l.is_empty()));
    let ts = toks("Sideways");
    assert!(parse_graph_step(&ts, 0).is_err());
    let ts = toks("In<");
    assert!(parse_graph_step(&ts, 0).is_err());
}

#[test]
fn traversal_starts() {
    let ts = toks("N<User>(id)");
    match parse_start_node(&ts, 0).ok().unwrap().0 {
        StartNode::Node { node_type, ids } => {
            assert_eq!(node_type, "User");
            assert_eq!(ids.map(|v| v.len()), Some(1));
        },
        _ => panic!("expected nodes"),
    }
    let ts = toks("_");
    assert!(matches!(parse_start_node(&ts, 0).ok().unwrap(), (StartNode::Anonymous, 1)));
    let ts = toks("users");
    assert!(matches!(parse_start_node(&ts, 0).ok().unwrap(), (StartNode::Identifier(ref n), 1) if n == "users"));
    let ts = toks("(");
    assert!(parse_start_node(&ts, 0).is_err());
}

#[test]
fn steps_by_word() {
    assert!(matches!(parse_step(&toks("COUNT"), 0).ok().unwrap().0.step, StepType::Count));
    assert!(matches!(parse_step(&toks("ID"), 0).ok().unwrap().0.step, StepType::Object(_)));
    assert!(matches!(parse_step(&toks("GT(3)"), 0).ok().unwrap().0.step, StepType::BooleanOperation(_)));
    assert!(matches!(parse_step(&toks("!{name}"), 0).ok().unwrap().0.step, StepType::Exclude(_)));
    assert!(matches!(parse_step(&toks("RANGE(0, 10)"), 0).ok().unwrap().0.step, StepType::Range(_)));
    assert!(matches!(parse_step(&toks("ToN"), 0).ok().unwrap().0.step, StepType::Node(_)));
}

#[test]
fn literal_expressions() {
    let (e, p) = parse_expression(&toks("\"hi\""), 0).ok().unwrap();
    assert!(matches!(e.expr, ExpressionType::StringLiteral(ref s) if s == "hi"));
    assert_eq!(p, 1);
    assert!(matches!(parse_expression(&toks("true"), 0).ok().unwrap().0.expr, ExpressionType::BooleanLiteral(true)));
    assert!(matches!(parse_expression(&toks("false"), 0).ok().unwrap().0.expr, ExpressionType::BooleanLiteral(false)));
    assert!(matches!(parse_expression(&toks("NONE"), 0).ok().unwrap().0.expr, ExpressionType::Empty));
    assert!(matches!(parse_expression(&toks("-7"), 0).ok().unwrap().0.expr, ExpressionType::IntegerLiteral(-7)));
    assert!(matches!(parse_expression(&toks("2.5"), 0).ok().unwrap().0.expr, ExpressionType::FloatLiteral(ref t) if t == "2.5"));
}

#[test]
fn numbers_and_type_arguments() {
    assert!(matches!(parse_number(&toks("42"), 0).ok().unwrap().0.value, EvaluatesToNumberType::I64(42)));
    assert!(matches!(parse_number(&toks("k"), 0).ok().unwrap().0.value, EvaluatesToNumberType::Identifier(ref k) if k == "k"));
    assert!(parse_number(&toks("99999999999999999999"), 0).is_err());
    assert_eq!(integer_at(&toks("9223372036854775808"), 0, true).ok(), Some(i64::MIN));
    assert!(integer_at(&toks("9223372036854775808"), 0, false).is_err());
    assert_eq!(parse_type_arg(&toks("<User>"), 0).ok(), Some(("User".to_string(), 3)));
    assert!(parse_type_arg(&toks("<User"), 0).is_err());
}

#[test]
fn a_lone_slash_stops_the_tokens_but_a_comment_does_not() {
    let chars: Vec<char> = "a / b".chars().collect();
    assert_eq!(tokenize(&chars).err().map(|e| e.position), Some(2));
    let chars: Vec<char> = "a // b".chars().collect();
    assert_eq!(tokenize(&chars).ok().map(|t| t.len()), Some(1));
    let chars: Vec<char> = "\"a\" \"b\" ok".chars().collect();
    assert_eq!(tokenize(&chars).ok().map(|t| t.len()), Some(3));
}

#[test]
fn typed_starts_take_their_ids() {
    let ts = toks("N<User>");
    let (st, p) = parse_start_node(&ts, 0).ok().unwrap();
    assert!(matches!(st, StartNode::Node { ref node_type, ids: None } if node_type == "User"));
    assert_eq!(p, 4);
    let ts = toks("E<Knows>(id)");
    let (st, p) = parse_start_node(&ts, 0).ok().unwrap();
    assert!(matches!(st, StartNode::Edge { ref edge_type, ids: Some(ref v) } if edge_type == "Knows" && v.len() == 1));
    assert_eq!(p, 7);
    let ts = toks("N<User>()");
    let (st, p) = parse_start_node(&ts, 0).ok().unwrap();
    assert!(matches!(st, StartNode::Node { ids: Some(ref v), .. } if v.is_empty()));
    assert_eq!(p, 6);
}
