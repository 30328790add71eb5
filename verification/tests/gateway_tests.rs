use helix_db::engine::config::{Config, INIT_CONFIG};
use helix_db::engine::traversal_value::TraversalValue;
use helix_db::engine::types::GraphError;
use helix_db::gateway::builtin::select_nodes_by_label;
use helix_db::gateway::embedding::{parse_provider_and_model, resolve_embedding_settings, EmbeddingProvider};
use helix_db::gateway::mcp::{MCPConnection, McpConnections, Range};
use helix_db::gateway::router::RouterError;
use helix_db::gateway::tools::{filter_items_by_properties, FilterProperties, FilterTraversal, Operator};
use helix_db::protocol::format::Format;
use helix_db::protocol::request::{request_formats, route_from_path, HelixError, RequestType};
use helix_db::protocol::value::{compare_values, Rank, Value};
use helix_db::utils::id::ID;
use helix_db::utils::items::{Edge, Node};

fn node(id: u128, label: &str) -> Node {
    Node { id, label: label.to_string(), properties: None }
}

fn node_items(ids: &[u128]) -> Vec<TraversalValue> {
    ids.iter().map(|i| TraversalValue::Node(node(*i, "n"))).collect()
}

fn ids_of(items: &[TraversalValue]) -> Vec<u128> {
    items.iter().map(|t| t.id()).collect()
}

#[test]
fn comparing_the_other_way_flips_the_result() {
    let pairs = vec![
        (Value::I8(-1), Value::U128(5)),
        (Value::U64(7), Value::I64(7)),
        (Value::String("abc".to_string()), Value::String("abd".to_string())),
        (Value::Boolean(false), Value::Boolean(true)),
        (Value::I64(i64::MIN), Value::U128(u128::MAX)),
    ];
    for (a, b) in pairs.iter() {
        let ab = compare_values(a, b);
        let ba = compare_values(b, a);
        let flipped = ab.map(|r| match r {
            Rank::Less => Rank::Greater,
            Rank::Equal => Rank::Equal,
            Rank::Greater => Rank::Less,
        });
        assert_eq!(ba, flipped);
    }
    assert_eq!(compare_values(&Value::I8(-1), &Value::U128(5)), Some(Rank::Less));
    assert_eq!(compare_values(&Value::U64(7), &Value::I64(7)), Some(Rank::Equal));
    assert_eq!(compare_values(&Value::String("b".to_string()), &Value::String("ab".to_string())), Some(Rank::Greater));
}

#[test]
fn unordered_pairs_stay_unordered() {
    assert_eq!(compare_values(&Value::String("1".to_string()), &Value::I32(1)), None);
    assert_eq!(compare_values(&Value::I32(1), &Value::String("1".to_string())), None);
    assert_eq!(compare_values(&Value::Empty, &Value::Boolean(true)), None);
    assert_eq!(compare_values(&Value::Array(vec![]), &Value::Array(vec![])), None);
}

#[test]
fn values_equal_themselves() {
    for v in [Value::I16(-3), Value::U128(9), Value::String("x".to_string()), Value::Boolean(true), Value::Empty] {
        assert_eq!(compare_values(&v, &v), Some(Rank::Equal));
    }
}

#[test]
fn values_written_as_text() {
    let v = Value::Array(vec![Value::I32(-1), Value::String("a".to_string()), Value::Boolean(true)]);
    assert_eq!(v.to_text(), "[-1, a, true]");
    let o = Value::Object(vec![("k".to_string(), Value::U8(2)), ("e".to_string(), Value::Empty)]);
    assert_eq!(o.to_text(), "{k: 2, e: }");
    assert_eq!(Value::U128(u128::MAX).to_text(), u128::MAX.to_string());
}

#[test]
fn operators_compare_values() {
    assert!(Operator::Gt.execute(&Value::I64(5), &Value::U8(4)));
    assert!(!Operator::Lt.execute(&Value::I64(5), &Value::U8(4)));
    assert!(Operator::Gte.execute(&Value::I64(4), &Value::U8(4)));
    assert!(Operator::Lte.execute(&Value::I64(4), &Value::U8(4)));
    assert!(Operator::Eq.execute(&Value::String("a".to_string()), &Value::String("a".to_string())));
    assert!(Operator::Neq.execute(&Value::String("a".to_string()), &Value::I32(1)));
    assert!(!Operator::Eq.execute(&Value::String("a".to_string()), &Value::I32(1)));
}

#[test]
fn filter_keeps_items_meeting_some_group() {
    let items: Vec<TraversalValue> = (1..=6u128)
        .map(|i| {
            TraversalValue::Node(Node {
                id: i,
                label: "p".to_string(),
                properties: Some(vec![("age".to_string(), Value::U32(i as u32))]),
            })
        })
        .collect();
    let filter = FilterTraversal {
        properties: Some(vec![
            vec![FilterProperties { key: "age".to_string(), value: Value::I32(2), operator: Some(Operator::Lt) }],
            vec![FilterProperties { key: "age".to_string(), value: Value::I32(5), operator: None }],
        ]),
        filter_traversals: None,
    };
    let out = filter_items_by_properties(items, &filter);
    assert_eq!(ids_of(&out), vec![1, 5]);
    let none = FilterTraversal { properties: None, filter_traversals: None };
    assert_eq!(ids_of(&filter_items_by_properties(node_items(&[3, 4]), &none)), vec![3, 4]);
}

#[test]
fn traversal_items_give_ids_and_properties() {
    let e = TraversalValue::Edge(Edge {
        id: 9,
        label: "knows".to_string(),
        from_node: 1,
        to_node: 2,
        properties: Some(vec![("since".to_string(), Value::I32(2020))]),
    });
    assert_eq!(e.id(), 9);
    assert!(matches!(e.check_property("since"), Some(Value::I32(2020))));
    assert!(e.check_property("until").is_none());
    assert_eq!(TraversalValue::Count(3).id(), 0);
    assert!(TraversalValue::Empty.check_property("since").is_none());
}

#[test]
fn added_connection_is_found() {
    let mut conns = McpConnections::new();
    conns.add_connection(MCPConnection::new("c1".to_string(), node_items(&[1, 2])));
    let c = conns.get_connection("c1").unwrap();
    assert_eq!(c.connection_id, "c1");
    assert!(conns.get_connection("c2").is_none());
}

#[test]
fn removed_connection_is_gone() {
    let mut conns = McpConnections::new_with_max_connections(4);
    conns.add_connection(MCPConnection::new("c1".to_string(), node_items(&[1])));
    conns.add_connection(MCPConnection::new("c2".to_string(), node_items(&[2])));
    let removed = conns.remove_connection("c1").unwrap();
    assert_eq!(removed.connection_id, "c1");
    assert!(conns.get_connection("c1").is_none());
    assert!(conns.get_connection("c2").is_some());
    assert!(conns.remove_connection("c1").is_none());
}

#[test]
fn adding_an_id_again_replaces_the_connection() {
    let mut conns = McpConnections::new();
    conns.add_connection(MCPConnection::new("c".to_string(), node_items(&[1])));
    conns.add_connection(MCPConnection::new("c".to_string(), node_items(&[7, 8])));
    let owned = conns.get_connection_owned("c").unwrap();
    assert_eq!(ids_of(&owned.items), vec![7, 8]);
    assert!(conns.get_connection("c").is_none());
}

#[test]
fn next_reads_items_in_order() {
    let mut conns = McpConnections::new();
    conns.add_connection(MCPConnection::new("c".to_string(), node_items(&[4, 5])));
    assert_eq!(conns.next_of("c").unwrap().id(), 4);
    assert_eq!(conns.next_of("c").unwrap().id(), 5);
    assert!(matches!(conns.next_of("c"), Some(TraversalValue::Empty)));
    assert!(conns.next_of("missing").is_none());
}

#[test]
fn collect_takes_a_range_of_what_is_left() {
    let mut conns = McpConnections::new();
    conns.add_connection(MCPConnection::new("c".to_string(), node_items(&[10, 11, 12, 13, 14])));
    assert_eq!(conns.next_of("c").unwrap().id(), 10);
    let got = conns.collect_of("c", Some(Range { start: 1, end: 3 })).unwrap();
    assert_eq!(ids_of(&got), vec![12, 13]);
    let rest = conns.collect_of("c", None).unwrap();
    assert!(rest.is_empty());
    assert!(conns.collect_of("x", None).is_none());
}

#[test]
fn collect_without_range_takes_up_to_a_hundred() {
    let ids: Vec<u128> = (0..150).collect();
    let mut conns = McpConnections::new();
    conns.add_connection(MCPConnection::new("c".to_string(), node_items(&ids)));
    let got = conns.collect_of("c", None).unwrap();
    assert_eq!(got.len(), 100);
    assert_eq!(got[99].id(), 99);
}

#[test]
fn new_connection_has_a_uuid_and_nothing_to_read() {
    let mut conns = McpConnections::new();
    let id = conns.init_connection();
    assert!(ID::from_uuid_str(&id).is_some());
    assert_eq!(conns.get_connection(&id).unwrap().connection_id, id);
    assert!(matches!(conns.next_of(&id), Some(TraversalValue::Empty)));
}

#[test]
fn connection_reads_directly() {
    let mut c = MCPConnection::new("c".to_string(), node_items(&[1, 2, 3]));
    assert_eq!(c.next_item().unwrap().id(), 1);
    let r = c.take_range(0, 1);
    assert_eq!(ids_of(&r), vec![2]);
    assert!(c.next_item().is_none());
}

#[test]
fn nodes_selected_by_label_up_to_limit() {
    let nodes = vec![node(1, "a"), node(2, "b"), node(3, "a"), node(4, "a")];
    let got = select_nodes_by_label(nodes, "a", Some(2));
    assert_eq!(got.iter().map(|n| n.id).collect::<Vec<_>>(), vec![1, 3]);
    let nodes = vec![node(1, "a"), node(2, "b"), node(3, "a")];
    let got = select_nodes_by_label(nodes, "a", None);
    assert_eq!(got.iter().map(|n| n.id).collect::<Vec<_>>(), vec![1, 3]);
    let got = select_nodes_by_label(vec![node(1, "a"), node(2, "a")], "a", Some(0));
    assert_eq!(got.iter().map(|n| n.id).collect::<Vec<_>>(), vec![1]);
}

#[test]
fn routes_from_paths() {
    let (name, ty) = route_from_path("/mcp/next").unwrap();
    assert_eq!((name.as_str(), ty), ("next", RequestType::MCP));
    let (name, ty) = route_from_path("/getUser").unwrap();
    assert_eq!((name.as_str(), ty), ("getUser", RequestType::Query));
    assert_eq!(route_from_path("/").err(), Some(400));
    assert_eq!(route_from_path("/a/b").err(), Some(400));
    assert_eq!(route_from_path("/mcp/").err(), Some(400));
}

#[test]
fn request_formats_from_headers() {
    assert_eq!(request_formats(None, None), Ok((Format::Json, Format::Json)));
    assert_eq!(request_formats(Some("application/json"), Some("text/html")), Ok((Format::Json, Format::Json)));
    assert_eq!(request_formats(Some("text/plain"), None), Err(415));
    assert_eq!(Format::from_media_type("application/json"), Some(Format::Json));
    assert_eq!(Format::from_media_type("application/xml"), None);
    assert_eq!(Format::default().media_type(), "application/json");
}

#[test]
fn errors_give_status_and_text() {
    let nf = HelixError::NotFound { ty: RequestType::Query, name: "q".to_string() };
    assert_eq!(nf.status_code(), 404);
    assert_eq!(HelixError::Vector("v".to_string()).status_code(), 500);
    assert_eq!(HelixError::Graph(GraphError::ConfigFileNotFound).status_code(), 500);
    assert_eq!(HelixError::not_found_message(RequestType::MCP, "tool"), "Couldn't find `tool` of type MCP");
    assert_eq!(RequestType::GraphVis.name(), "GraphVis");
    assert_eq!(RouterError::Io("disk".to_string()).message(), "IO error: disk");
    assert_eq!(RouterError::New("bad".to_string()).message(), "Graph error: bad");
}

#[test]
fn configs() {
    let c = Config::new(8, 64, 100, 20, Some("s".to_string()), None, Some("name".to_string()));
    assert_eq!((c.vector_config.m, c.vector_config.ef_construction, c.vector_config.ef_search), (Some(8), Some(64), Some(100)));
    assert_eq!(c.db_max_size_gb, Some(20));
    assert!(c.mcp);
    assert!(c.graph_config.secondary_indices.is_none());
    let d = Config::default();
    assert_eq!(d.vector_config.m, Some(16));
    assert_eq!(d.vector_config.ef_construction, Some(128));
    assert_eq!(d.vector_config.ef_search, Some(768));
    assert_eq!(d.db_max_size_gb, Some(10));
    assert_eq!(d.embedding_model.as_deref(), Some("text_embedding-ada-002"));
    assert_eq!(Config::init_config(), INIT_CONFIG);
    assert!(Config::init_config().contains("\"ef_search\": 768"));
}

#[test]
fn embedding_models_by_prefix() {
    match parse_provider_and_model(Some("openai:text-embedding-3-small")) {
        Ok((EmbeddingProvider::OpenAI, m)) => assert_eq!(m, "text-embedding-3-small"),
        _ => panic!("expected OpenAI"),
    }
    match parse_provider_and_model(Some("gemini:embed-001:SEMANTIC")) {
        Ok((EmbeddingProvider::Gemini { task_type }, m)) => {
            assert_eq!(m, "embed-001");
            assert_eq!(task_type, "SEMANTIC");
        },
        _ => panic!("expected Gemini"),
    }
    match parse_provider_and_model(Some("gemini:embed-001")) {
        Ok((EmbeddingProvider::Gemini { task_type }, m)) => {
            assert_eq!(m, "embed-001");
            assert_eq!(task_type, "RETRIEVAL_DOCUMENT");
        },
        _ => panic!("expected Gemini"),
    }
    assert!(matches!(parse_provider_and_model(Some("local")), Ok((EmbeddingProvider::Local, m)) if m == "local"));
    match parse_provider_and_model(Some("cohere:x")) {
        Err(GraphError::New(msg)) => assert_eq!(msg, "Unknown embedding model 'cohere:x'. Please use 'openai:', 'gemini:', or 'local' prefix"),
        _ => panic!("expected an error"),
    }
    assert!(matches!(parse_provider_and_model(None), Err(GraphError::New(m)) if m == "No embedding provider available"));
}

#[test]
fn embedding_settings_need_keys_and_urls() {
    match resolve_embedding_settings(None, None, None, Some("openai:m"), None) {
        Err(GraphError::New(msg)) => assert_eq!(msg, "OPENAI_API_KEY not set"),
        _ => panic!("expected a missing key"),
    }
    let s = resolve_embedding_settings(None, Some("env-key"), None, Some("openai:m"), None).ok().unwrap();
    assert_eq!(s.api_key.as_deref(), Some("env-key"));
    assert_eq!(s.model, "m");
    let s = resolve_embedding_settings(Some("given"), None, Some("g"), Some("gemini:m"), None).ok().unwrap();
    assert_eq!(s.api_key.as_deref(), Some("given"));
    match resolve_embedding_settings(None, Some("k"), None, Some("gemini:m"), None) {
        Err(GraphError::New(msg)) => assert_eq!(msg, "GEMINI_API_KEY not set"),
        _ => panic!("expected a missing key"),
    }
    let s = resolve_embedding_settings(None, None, None, Some("local"), None).ok().unwrap();
    assert_eq!(s.url.as_deref(), Some("http://localhost:8699/embed"));
    assert!(s.api_key.is_none());
    let s = resolve_embedding_settings(None, None, None, Some("local"), Some("http://example.com:1/e")).ok().unwrap();
    assert_eq!(s.url.as_deref(), Some("http://example.com:1/e"));
    match resolve_embedding_settings(None, None, None, Some("local"), Some("not a url")) {
        Err(GraphError::New(msg)) => assert!(msg.starts_with("Invalid URL: ")),
        _ => panic!("expected a bad URL"),
    }
}

#[test]
fn embedding_providers_test_local_embedding_invalid_url() {
    let model = resolve_embedding_settings(None, None, None, Some("local"), Some("invalid_url"));
    assert!(model.is_err());
}

#[test]
fn bare_model_names_are_openai_models() {
    match parse_provider_and_model(Some("text-embedding-ada-002")) {
        Ok((EmbeddingProvider::OpenAI, m)) => assert_eq!(m, "text-embedding-ada-002"),
        _ => panic!("expected an OpenAI model"),
    }
    let s = resolve_embedding_settings(None, Some("key"), None, Some("text-embedding-ada-002"), None).ok().unwrap();
    assert_eq!(s.model, "text-embedding-ada-002");
    assert!(resolve_embedding_settings(None, None, None, Some("text-embedding-ada-002"), None).is_err());
}
