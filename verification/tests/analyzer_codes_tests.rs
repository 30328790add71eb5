use helix_db::helixc::analyzer::analyzer::{generate, run};
use helix_db::helixc::analyzer::diagnostic::{Diagnostic, DiagnosticSeverity};
use helix_db::helixc::analyzer::error_codes::ErrorCode;
use helix_db::helixc::location::Loc;
use helix_db::helixc::generator::return_values::ReturnType;
use helix_db::helixc::generator::utils::{GenRef, GeneratedValue};

fn codes(src: &str) -> Vec<ErrorCode> {
    run(src).iter().map(|d| d.error_code).collect()
}

const SCHEMA: &str = r#"
    N::User { name: String, age: U32 }
    N::Post { title: String }
    E::Wrote { From: User, To: Post, Properties: { year: I32 } }
    V::Doc { content: String }
"#;

fn with_schema(query: &str) -> Vec<ErrorCode> {
    let mut src = SCHEMA.to_string();
    src.push_str(query);
    codes(&src)
}

#[test]
fn clean_source_has_no_diagnostics() {
    let got = with_schema(
        r#"
        QUERY posts(id: ID) =>
            u <- N<User>(id)
            p <- u::OutE<Wrote>::ToN
            c <- u::Out<Wrote>::COUNT
            RETURN p, c
        "#,
    );
    assert_eq!(got, vec![]);
}

#[test]
fn unknown_node_type_is_e101() {
    assert!(codes("QUERY q() =>\n u <- N<Ghost>\n RETURN u\n").contains(&ErrorCode::E101));
    assert!(with_schema("QUERY q() =>\n u <- AddN<Ghost>({name: \"a\"})\n RETURN u\n").contains(&ErrorCode::E101));
}

#[test]
fn unknown_edge_type_is_e102() {
    assert!(with_schema("QUERY q() =>\n e <- E<Ghost>\n RETURN e\n").contains(&ErrorCode::E102));
    assert!(with_schema("QUERY q() =>\n u <- N<User>\n p <- u::Out<Ghost>\n RETURN p\n").contains(&ErrorCode::E102));
}

#[test]
fn unknown_vector_type_is_e103() {
    assert!(with_schema("QUERY q(v: [F64]) =>\n d <- SearchV<Ghost>(v, 5)\n RETURN d\n").contains(&ErrorCode::E103));
}

#[test]
fn property_on_a_scalar_is_e104() {
    assert!(with_schema("QUERY q() =>\n c <- N<User>::COUNT::{name}\n RETURN c\n").contains(&ErrorCode::E104));
}

#[test]
fn reserved_word_as_name_is_e105() {
    assert!(with_schema("QUERY q() =>\n u <- N<User>\n RETURN String\n").contains(&ErrorCode::E105));
}

#[test]
fn undeclared_edge_endpoint_is_e106() {
    let got = codes("N::User { name: String }\nE::Likes { From: User, To: Post, Properties: {} }\n");
    assert_eq!(got, vec![ErrorCode::E106]);
}

#[test]
fn unknown_parameter_type_is_e201() {
    assert!(with_schema("QUERY q(x: Ghost) =>\n u <- N<User>\n RETURN u\n").contains(&ErrorCode::E201));
}

#[test]
fn unknown_field_is_e202() {
    assert!(with_schema("QUERY q() =>\n u <- N<User>::{height}\n RETURN u\n").contains(&ErrorCode::E202));
    assert!(with_schema("QUERY q() =>\n u <- AddN<User>({height: 3})\n RETURN u\n").contains(&ErrorCode::E202));
}

#[test]
fn reserved_field_name_is_e204() {
    assert_eq!(codes("N::User { id: String }\n"), vec![ErrorCode::E204]);
}

#[test]
fn value_of_wrong_type_is_e205() {
    assert!(with_schema("QUERY q() =>\n u <- AddN<User>({age: \"old\"})\n RETURN u\n").contains(&ErrorCode::E205));
}

#[test]
fn step_from_the_wrong_end_is_e207() {
    assert!(with_schema("QUERY q() =>\n p <- N<Post>::OutE<Wrote>\n RETURN p\n").contains(&ErrorCode::E207));
}

#[test]
fn variable_not_in_scope_is_e301() {
    assert!(with_schema("QUERY q() =>\n u <- N<User>\n RETURN v\n").contains(&ErrorCode::E301));
}

#[test]
fn variable_assigned_twice_is_e302() {
    assert!(with_schema("QUERY q() =>\n u <- N<User>\n u <- N<Post>\n RETURN u\n").contains(&ErrorCode::E302));
}

#[test]
fn mcp_query_must_return_one_value() {
    let got = with_schema("#[mcp]\nQUERY q() =>\n u <- N<User>\n p <- N<Post>\n RETURN u, p\n");
    assert!(got.contains(&ErrorCode::E401));
    let got = with_schema("#[mcp]\nQUERY q() =>\n u <- N<User>\n RETURN u\n");
    assert_eq!(got, vec![]);
}

#[test]
fn unparsable_text_is_e601() {
    let ds = run("QUERY q( =>");
    assert_eq!(ds.len(), 1);
    assert_eq!(ds[0].error_code, ErrorCode::E601);
    assert_eq!(ds[0].severity, DiagnosticSeverity::Error);
}

#[test]
fn step_from_a_scalar_is_e602() {
    assert!(with_schema("QUERY q() =>\n c <- N<User>::COUNT::Out<Wrote>\n RETURN c\n").contains(&ErrorCode::E602));
}

#[test]
fn update_of_a_count_is_e604() {
    assert!(with_schema("QUERY q() =>\n c <- N<User>::COUNT::UPDATE({name: \"a\"})\n RETURN c\n").contains(&ErrorCode::E604));
}

#[test]
fn edge_without_ends_is_e611_and_e612() {
    let got = with_schema("QUERY q() =>\n e <- AddE<Wrote>({year: 1})\n RETURN e\n");
    assert!(got.contains(&ErrorCode::E611));
    assert!(got.contains(&ErrorCode::E612));
}

#[test]
fn comparison_with_a_traversal_is_e621() {
    assert!(with_schema("QUERY q() =>\n u <- N<User>::WHERE(_::{age}::GT(N<User>))\n RETURN u\n").contains(&ErrorCode::E621));
}

#[test]
fn range_of_text_is_e633() {
    assert!(with_schema("QUERY q() =>\n u <- N<User>::RANGE(\"a\", 2)\n RETURN u\n").contains(&ErrorCode::E633));
}

#[test]
fn closure_before_another_step_is_e641() {
    assert!(with_schema("QUERY q() =>\n u <- N<User>::|x|{name}::COUNT\n RETURN u\n").contains(&ErrorCode::E641));
}

#[test]
fn field_excluded_twice_is_e643() {
    assert!(with_schema("QUERY q() =>\n u <- N<User>::!{name}::!{name}\n RETURN u\n").contains(&ErrorCode::E643));
}

#[test]
fn exclusion_before_another_step_is_e644() {
    assert!(with_schema("QUERY q() =>\n u <- N<User>::!{name}::COUNT\n RETURN u\n").contains(&ErrorCode::E644));
}

#[test]
fn migration_checks() {
    let src = r#"
        schema::1 {
            N::User { name: String }
        }
        schema::2 {
            N::User { name: String, age: U32 }
            E::Knows { From: User, To: User, Properties: {} }
        }
        MIGRATION schema::1 => schema::2 {
            N::User => _::{ name: name, age: 0 },
        }
    "#;
    assert_eq!(codes(src), vec![]);
    let bad_version = src.replace("schema::1 => schema::2", "schema::1 => schema::3");
    assert_eq!(codes(&bad_version), vec![ErrorCode::E201]);
    let bad_kind = src.replace("N::User => _::{ name: name, age: 0 }", "N::User => E::Knows {}");
    assert!(codes(&bad_kind).contains(&ErrorCode::E206));
    let bad_item = src.replace("N::User => _::{ name: name, age: 0 }", "N::Ghost => N::User {}");
    assert!(codes(&bad_item).contains(&ErrorCode::E201));
    let bad_field = src.replace("age: 0", "height: 0");
    assert!(codes(&bad_field).contains(&ErrorCode::E202));
    let bad_value = src.replace("age: 0", "age: \"x\"");
    assert!(codes(&bad_value).contains(&ErrorCode::E205));
}

#[test]
fn generate_accepts_clean_sources_only() {
    let ok = generate(format!("{}QUERY get(id: ID) =>\n u <- N<User>(id)\n RETURN u\n", SCHEMA)).ok().unwrap();
    assert_eq!(ok.queries.len(), 1);
    assert_eq!(ok.queries[0].name, "get");
    assert_eq!(ok.queries[0].parameters.len(), 1);
    assert_eq!(ok.nodes.len(), 2);
    assert_eq!(ok.edges.len(), 1);
    assert_eq!(ok.vectors.len(), 1);
    assert_eq!(generate(format!("{}QUERY get() =>\n u <- N<Ghost>\n RETURN u\n", SCHEMA)).err(), Some("failed".to_string()));
    assert!(generate("QUERY q( =>".to_string()).is_err());
}

#[test]
fn diagnostics_render_with_line_and_column() {
    let d = Diagnostic::new(Loc::new(6, 9), "bad thing".to_string(), DiagnosticSeverity::Error, ErrorCode::E101, Some("fix it".to_string()));
    assert_eq!(d.render("line1\nline2", "f.hx"), "error[E101]: bad thing\n  --> f.hx:2:1\n  = help: fix it\n");
    let w = Diagnostic::new(Loc::new(100, 100), "late".to_string(), DiagnosticSeverity::Warning, ErrorCode::E305, None);
    assert_eq!(w.render("ab", "g.hx"), "warning[E305]: late\n  --> g.hx:1:3\n");
    assert!(d.filepath.is_none());
    assert_eq!(ErrorCode::E644.code_str(), "E644");
}

#[test]
fn dates_are_checked_by_their_text() {
    let q = |v: &str| codes(&format!("N::Event {{ at: Date }}\nQUERY q() =>\n e <- AddN<Event>({{at: {}}})\n RETURN e\n", v));
    assert_eq!(q("\"2025-01-01\""), vec![]);
    assert_eq!(q("\"2015-05-15T00:00:00Z\""), vec![]);
    assert_eq!(q("\"yesterday\""), vec![ErrorCode::E205]);
    assert_eq!(q("\"2025-13-01\""), vec![ErrorCode::E205]);
}

#[test]
fn traversal_types_compose_across_variables() {
    let split = with_schema("QUERY q() =>\n e <- N<User>::OutE<Wrote>\n p <- e::ToN::{title}\n RETURN p\n");
    let joined = with_schema("QUERY q() =>\n p <- N<User>::OutE<Wrote>::ToN::{title}\n RETURN p\n");
    assert_eq!(split, vec![]);
    assert_eq!(joined, vec![]);
    let wrong = with_schema("QUERY q() =>\n e <- N<User>::OutE<Wrote>\n p <- e::ToN::{name}\n RETURN p\n");
    assert_eq!(wrong, vec![ErrorCode::E202]);
}

#[test]
fn migration_property_checks() {
    let src = r#"
        schema::1 {
            N::User { name: String }
        }
        schema::2 {
            N::User { name: String, age: U32 }
        }
        MIGRATION schema::1 => schema::2 {
            N::User => _::{ name: name, age: 0 },
        }
    "#;
    let missing_old = src.replace("name: name", "name: nick");
    assert_eq!(codes(&missing_old), vec![ErrorCode::E202]);
    let good_cast = src.replace("age: 0", "age: 0 AS U64");
    assert_eq!(codes(&good_cast), vec![]);
    let bad_cast = src.replace("age: 0", "age: 0 AS String");
    assert_eq!(codes(&bad_cast), vec![ErrorCode::E205]);
    let both = src.replace("name: name, age: 0", "name: nick, age: true");
    assert_eq!(codes(&both), vec![ErrorCode::E202, ErrorCode::E205]);
}

#[test]
fn defaults_must_fit_their_field_types() {
    assert_eq!(codes("N::User { age: I8 DEFAULT -128 }\n"), vec![]);
    assert_eq!(codes("N::User { age: I8 DEFAULT 128 }\n"), vec![ErrorCode::E601]);
    assert_eq!(codes("N::User { age: U8 DEFAULT -1 }\n"), vec![ErrorCode::E601]);
    assert_eq!(codes("N::User { score: F64 DEFAULT 1.5 }\n"), vec![]);
    assert_eq!(codes("N::User { score: U32 DEFAULT 1.5 }\n"), vec![ErrorCode::E601]);
    assert_eq!(codes("N::User { at: Date DEFAULT NOW, ok: Boolean DEFAULT true }\n"), vec![]);
}

#[test]
fn assigning_a_parameter_name_is_reported() {
    let got = with_schema("QUERY q(u: String) =>\n u <- N<User>\n RETURN u\n");
    assert_eq!(got, vec![ErrorCode::E302]);
    let fine = with_schema("QUERY q(name: String) =>\n u <- N<User>\n RETURN u\n");
    assert_eq!(fine, vec![]);
}

#[test]
fn empty_text_generates() {
    let g = generate(String::new());
    assert!(g.is_ok());
    assert!(run("").is_empty());
}

#[test]
fn migration_must_go_to_the_next_version() {
    let src = r#"
        schema::1 {
            N::User { name: String }
        }
        schema::3 {
            N::User { name: String }
        }
        MIGRATION schema::1 => schema::3 {
            N::User => _::{ name: name },
        }
    "#;
    let got = run(src);
    assert_eq!(got.iter().map(|d| d.error_code).collect::<Vec<_>>(), vec![ErrorCode::E201]);
    assert!(got[0].message.contains("does not follow schema version `1` by one"));
    assert!(generate(src.to_string()).is_err());
}

#[test]
fn schema_only_sources_generate_their_types() {
    let g = generate(SCHEMA.to_string()).ok().unwrap();
    assert_eq!(g.nodes.iter().map(|n| n.name.clone()).collect::<Vec<_>>(), vec!["User".to_string(), "Post".to_string()]);
    assert_eq!(g.nodes[0].properties.len(), 2);
    assert_eq!(g.edges[0].name, "Wrote");
    assert_eq!(g.edges[0].from, "User");
    assert_eq!(g.edges[0].to, "Post");
    assert_eq!(g.vectors[0].name, "Doc");
    assert!(g.queries.is_empty());
    assert!(g.migrations.is_empty());
}

#[test]
fn usable_migrations_are_generated() {
    let src = r#"
        schema::1 {
            N::User { name: String }
        }
        schema::2 {
            N::User { name: String, age: U32 }
        }
        MIGRATION schema::1 => schema::2 {
            N::User => _::{ name: name, age: 0 },
        }
    "#;
    let g = generate(src.to_string()).ok().unwrap();
    assert_eq!(g.migrations.len(), 1);
    assert_eq!(g.migrations[0].from_version, "1");
    assert_eq!(g.migrations[0].to_version, "2");
}

#[test]
fn return_values_are_generated_by_kind() {
    let g = generate(format!(
        "{}QUERY get(id: ID) =>\n one <- N<User>(id)\n all <- N<User>\n RETURN one, all, \"done\"\n",
        SCHEMA
    ))
    .ok()
    .unwrap();
    let rv = &g.queries[0].return_values;
    assert_eq!(rv.len(), 3);
    assert!(matches!(&rv[0], ReturnType::SingleExpr(GeneratedValue::Literal(GenRef::Literal(n))) if n == "one"));
    assert!(matches!(&rv[1], ReturnType::NamedExpr(GeneratedValue::Literal(GenRef::Literal(n))) if n == "all"));
    assert!(matches!(&rv[2], ReturnType::Literal(GeneratedValue::Literal(GenRef::Literal(n))) if n == "done"));
    assert!(g.queries[0].mcp_handler.is_none());
}

#[test]
fn mcp_queries_name_their_handler() {
    let g = generate(format!("{}#[mcp]\nQUERY get(id: ID) =>\n one <- N<User>(id)\n RETURN one\n", SCHEMA)).ok().unwrap();
    assert_eq!(g.queries[0].mcp_handler, Some("one".to_string()));
}

#[test]
fn queries_that_change_the_graph_are_marked() {
    let reading = generate(format!("{}QUERY get() =>\n all <- N<User>\n RETURN all\n", SCHEMA)).ok().unwrap();
    assert!(!reading.queries[0].is_mut);
    let adding = generate(format!("{}QUERY add() =>\n u <- AddN<User>({{name: \"a\"}})\n RETURN u\n", SCHEMA)).ok().unwrap();
    assert!(adding.queries[0].is_mut);
}

#[test]
fn reports_come_only_where_their_cause_is() {
    let declared = with_schema("QUERY q() =>\n u <- N<User>\n RETURN u\n");
    assert!(!declared.contains(&ErrorCode::E101));
    let last = with_schema("QUERY q() =>\n u <- N<User>::!{name}\n RETURN u\n");
    assert!(!last.contains(&ErrorCode::E644));
    let before_object = with_schema("QUERY q() =>\n u <- N<User>::!{name}::{age}\n RETURN u\n");
    assert!(!before_object.contains(&ErrorCode::E644));
    let scalar_comparison = with_schema("QUERY q() =>\n u <- N<User>::WHERE(_::{age}::GT(5))\n RETURN u\n");
    assert!(!scalar_comparison.contains(&ErrorCode::E621));
    let fresh = with_schema("QUERY q() =>\n u <- N<User>\n p <- N<Post>\n RETURN u\n");
    assert!(!fresh.contains(&ErrorCode::E302));
}
