use helix_db::helixc::analyzer::diagnostic::Diagnostic;
use helix_db::helixc::analyzer::remapping::parse_object_remapping;
use helix_db::helixc::analyzer::types::Type;
use helix_db::helixc::generator::object_remapping::{RemappingType, TraversalSource};
use helix_db::helixc::generator::utils::GenRef;
use helix_db::helixc::parser::ast::{Content, ExpressionType, HxFile, StatementType, StepType};
use helix_db::helixc::parser::helix_parser::HelixParser;

fn parsed(text: &str) -> helix_db::helixc::parser::ast::Source {
    let files = vec![HxFile { name: "q.hx".to_string(), content: text.to_string() }];
    HelixParser::parse_source(&Content { content: text.to_string(), files }).unwrap()
}

#[test]
fn object_fields_are_remapped_by_kind() {
    let src = parsed(
        r#"
        N::User { name: String, age: U32 }
        E::Knows { From: User, To: User, Properties: {} }
        QUERY q(limit: I32) =>
            u <- N<User>::{handle: name, years: age, cap: limit, seven: 7, friends: _::Out<Knows>::COUNT, ghost: nothing, inner: {handle: name}}
            RETURN u
        "#,
    );
    let schema = &src.schema[0];
    let query = &src.queries[0];
    let obj = match &query.statements[0].statement {
        StatementType::Assignment(a) => match &a.value.expr {
            ExpressionType::Traversal(tr) => match &tr.steps[0].step {
                StepType::Object(o) => o,
                _ => panic!("expected an object step"),
            },
            _ => panic!("expected a traversal"),
        },
        _ => panic!("expected an assignment"),
    };
    let scope = vec![("limit".to_string(), Type::Unknown)];
    let mut diags: Vec<Diagnostic> = Vec::new();
    let parent = Type::Nodes(Some("User".to_string()));
    let r = parse_object_remapping(schema, query, &scope, &obj.fields, false, "u", &parent, &mut diags);
    assert_eq!(r.variable_name, "u");
    assert!(!r.is_inner);
    assert_eq!(r.remappings.len(), 7);
    match &r.remappings[0] {
        RemappingType::PropertyRemapping { new_field, property, single, .. } => {
            assert_eq!(new_field, "handle");
            assert_eq!(property, "name");
            assert!(*single);
        },
        other => panic!("unexpected {:?}", other),
    }
    assert!(matches!(&r.remappings[1], RemappingType::PropertyRemapping { property, .. } if property == "age"));
    assert!(matches!(&r.remappings[2], RemappingType::IdentifierRemapping { identifier_value, .. } if identifier_value == "limit"));
    match &r.remappings[3] {
        RemappingType::ValueRemapping { value: GenRef::Literal(v), field_name, .. } => {
            assert_eq!(v, "7");
            assert_eq!(field_name, "seven");
        },
        other => panic!("unexpected {:?}", other),
    }
    match &r.remappings[4] {
        RemappingType::TraversalRemapping { source: TraversalSource::NestedFrom(v), to_value, .. } => {
            assert_eq!(v, "u");
            assert!(*to_value);
        },
        other => panic!("unexpected {:?}", other),
    }
    assert!(matches!(&r.remappings[5], RemappingType::Empty));
    match &r.remappings[6] {
        RemappingType::ObjectRemapping { remapping, .. } => {
            assert!(remapping.is_inner);
            assert_eq!(remapping.remappings.len(), 1);
        },
        other => panic!("unexpected {:?}", other),
    }
    assert_eq!(diags.len(), 1);
    assert!(diags[0].message.contains("`nothing` is not a field of type `User` or is not a variable in scope"));
}
