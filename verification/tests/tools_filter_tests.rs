use helix_db::engine::traversal_value::TraversalValue;
use helix_db::gateway::tools::{filter_items_by_properties, FilterProperties, FilterTraversal, Operator};
use helix_db::protocol::value::Value;
use helix_db::utils::items::Node;

#[test]
fn test_filter_items() {
    let items = (1..101)
        .map(|i| {
            TraversalValue::Node(Node {
                id: i,
                label: "test".to_string(),
                properties: Some(vec![("age".to_string(), Value::I64(i as i64))]),
            })
        })
        .collect::<Vec<_>>();

    let filter = FilterTraversal {
        properties: Some(vec![vec![FilterProperties {
            key: "age".to_string(),
            value: Value::I64(50),
            operator: Some(Operator::Gt),
        }]]),
        filter_traversals: None,
    };

    let result = filter_items_by_properties(items, &filter);
    assert_eq!(result.len(), 50);
}
