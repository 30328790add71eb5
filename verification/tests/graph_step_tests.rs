use helix_db::helixc::analyzer::diagnostic::Diagnostic;
use helix_db::helixc::analyzer::graph_step::apply_graph_step;
use helix_db::helixc::analyzer::types::Type;
use helix_db::helixc::parser::ast::{Content, HxFile};
use helix_db::helixc::parser::expressions::parse_graph_step;
use helix_db::helixc::parser::helix_parser::HelixParser;
use helix_db::helixc::parser::lexer::tokenize;

#[test]
fn anonymous_types_are_followed_as_their_base() {
    let text = "N::User { name: String }\nE::Knows { From: User, To: User, Properties: {} }\nQUERY q() =>\n u <- N<User>\n RETURN u\n";
    let files = vec![HxFile { name: "q.hx".to_string(), content: text.to_string() }];
    let src = HelixParser::parse_source(&Content { content: text.to_string(), files }).unwrap();
    let chars: Vec<char> = "Out<Knows>".chars().collect();
    let toks = tokenize(&chars).ok().unwrap();
    let (gs, _) = parse_graph_step(&toks, 0).ok().unwrap();
    let mut diags: Vec<Diagnostic> = Vec::new();
    let cur = Type::Anonymous(Box::new(Type::Node(Some("User".to_string()))));
    let r = apply_graph_step(&src.schema[0], &src.queries[0], &gs, &cur, &mut diags);
    assert!(matches!(r, Some(Type::Nodes(Some(ref n))) if n == "User"));
    assert!(diags.is_empty());
}
