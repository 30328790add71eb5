use helix_db::helixc::analyzer::utils::{gen_id_access_or_param, gen_identifier_or_param, is_param};
use helix_db::helixc::generator::utils::{GenRef, GeneratedValue};
use helix_db::helixc::parser::ast::{Content, FieldType, HxFile, Parameter};
use helix_db::helixc::generator::queries::Parameter as GenParam;
use helix_db::helixc::location::Loc;
use helix_db::helixc::parser::helix_parser::HelixParser;

fn query_with_param() -> helix_db::helixc::parser::ast::Query {
    let text = "N::User { name: String }\nQUERY q(name: String) =>\n u <- N<User>\n RETURN u\n";
    let input = Content {
        content: String::new(),
        files: vec![HxFile { name: "q.hx".to_string(), content: text.to_string() }],
    };
    let mut src = HelixParser::parse_source(&input).ok().unwrap();
    src.queries.remove(0)
}

#[test]
fn parameters_are_read_from_data() {
    let q = query_with_param();
    assert!(is_param(&q, "name"));
    assert!(!is_param(&q, "u"));
    match gen_identifier_or_param(&q, "name", true, false) {
        GeneratedValue::Parameter(GenRef::Ref(t)) => assert_eq!(t, "data.name"),
        _ => panic!("expected a parameter by reference"),
    }
    match gen_identifier_or_param(&q, "name", false, true) {
        GeneratedValue::Parameter(GenRef::Std(t)) => assert_eq!(t, "data.name.clone()"),
        _ => panic!("expected a cloned parameter"),
    }
    match gen_id_access_or_param(&q, "name") {
        GeneratedValue::Parameter(GenRef::DeRef(t)) => assert_eq!(t, "data.name"),
        _ => panic!("expected a dereferenced parameter"),
    }
}

#[test]
fn variables_are_named_as_they_are() {
    let q = query_with_param();
    match gen_identifier_or_param(&q, "u", true, false) {
        GeneratedValue::Identifier(GenRef::Ref(t)) => assert_eq!(t, "u"),
        _ => panic!("expected a variable by reference"),
    }
    match gen_identifier_or_param(&q, "u", false, false) {
        GeneratedValue::Identifier(GenRef::Std(t)) => assert_eq!(t, "u.clone()"),
        _ => panic!("expected a cloned variable"),
    }
    match gen_id_access_or_param(&q, "u") {
        GeneratedValue::Identifier(GenRef::Std(t)) => assert_eq!(t, "u.id()"),
        _ => panic!("expected the variable's id"),
    }
}

#[test]
fn unwrapping_parameters_adds_structures_for_objects_only() {
    let plain = Parameter { name: (Loc::new(0, 1), "age".to_string()), param_type: (Loc::new(0, 1), FieldType::U32), is_optional: false, loc: Loc::new(0, 1) };
    let obj = Parameter {
        name: (Loc::new(0, 1), "doc".to_string()),
        param_type: (Loc::new(0, 1), FieldType::Object(vec![("title".to_string(), FieldType::String), ("year".to_string(), FieldType::I32)])),
        is_optional: true,
        loc: Loc::new(0, 1),
    };
    let mut params: Vec<GenParam> = Vec::new();
    let mut subs: Vec<(String, Vec<GenParam>)> = Vec::new();
    GenParam::unwrap_param(&plain, &mut params, &mut subs);
    assert_eq!(params.len(), 1);
    assert!(subs.is_empty());
    GenParam::unwrap_param(&obj, &mut params, &mut subs);
    assert_eq!(params.len(), 2);
    assert_eq!(params[1].name, "doc");
    assert!(params[1].is_optional);
    assert_eq!(subs.len(), 1);
    assert_eq!(subs[0].0, "docData");
    assert_eq!(subs[0].1.len(), 2);
    assert_eq!(subs[0].1[0].name, "title");
}
