use rmcp_client::bridge::ConversionError;
use rmcp_client::bridge::JsonTree;
use rmcp_client::bridge::convert_call_tool_result;
use rmcp_client::bridge::normalize_content;
use rmcp_client::bridge::tool_result_from_tree;
use rmcp::model::CallToolResult as RmcpCallToolResult;
use rmcp::model::ContentBlock;

fn obj_get<'a>(pairs: &'a [(String, JsonTree)], key: &str) -> Option<&'a JsonTree> {
    pairs.iter().find(|(k, _)| k == key).map(|(_, v)| v)
}

#[test]
fn convert_call_tool_result_defaults_missing_content() {
    let mut structured = serde_json::Map::new();
    structured.insert("key".to_string(), serde_json::Value::String("value".to_string()));
    let structured_content = serde_json::Value::Object(structured);

    let mut rmcp_result = RmcpCallToolResult::error(Vec::new());
    rmcp_result.content = Vec::new();
    rmcp_result.structured_content = Some(structured_content);
    rmcp_result.meta = None;

    let result = convert_call_tool_result(rmcp_result).unwrap();

    assert!(result.content.is_empty());
    assert_eq!(
        result.structured_content,
        Some(JsonTree::Object(vec![(
            "key".to_string(),
            JsonTree::Text("value".to_string())
        )]))
    );
    assert_eq!(result.is_error, Some(true));
}

#[test]
fn convert_call_tool_result_preserves_existing_content() {
    let rmcp_result = RmcpCallToolResult::success(vec![ContentBlock::text("hello")]);

    let result = convert_call_tool_result(rmcp_result).unwrap();

    assert_eq!(result.content.len(), 1);
    match &result.content[0] {
        JsonTree::Object(pairs) => {
            assert_eq!(obj_get(pairs, "text"), Some(&JsonTree::Text("hello".to_string())));
            assert_eq!(obj_get(pairs, "type"), Some(&JsonTree::Text("text".to_string())));
        }
        other => panic!("expected text content got {other:?}"),
    }
    assert_eq!(result.structured_content, None);
    assert_eq!(result.is_error, Some(false));
}

#[test]
fn normalize_makes_null_content_an_empty_list() {
    let tree = JsonTree::Object(vec![("content".to_string(), JsonTree::Null)]);
    let normalized = normalize_content(tree);
    assert_eq!(
        normalized,
        JsonTree::Object(vec![("content".to_string(), JsonTree::Array(Vec::new()))])
    );
}

#[test]
fn normalize_appends_missing_content() {
    let tree = JsonTree::Object(vec![("isError".to_string(), JsonTree::Bool(false))]);
    let normalized = normalize_content(tree);
    assert_eq!(
        normalized,
        JsonTree::Object(vec![
            ("isError".to_string(), JsonTree::Bool(false)),
            ("content".to_string(), JsonTree::Array(Vec::new())),
        ])
    );
}

#[test]
fn normalize_is_idempotent_on_a_populated_content_list() {
    let tree = JsonTree::Object(vec![(
        "content".to_string(),
        JsonTree::Array(vec![JsonTree::Text("x".to_string())]),
    )]);
    let once = normalize_content(tree);
    let expected = JsonTree::Object(vec![(
        "content".to_string(),
        JsonTree::Array(vec![JsonTree::Text("x".to_string())]),
    )]);
    assert_eq!(once, expected);
    let twice = normalize_content(once);
    assert_eq!(twice, expected);
}

#[test]
fn extraction_rejects_non_object_trees() {
    match tool_result_from_tree(JsonTree::Text("nope".to_string())) {
        Err(ConversionError::Shape { field }) => assert_eq!(field, "content"),
        _ => panic!("expected a shape failure"),
    }
}

#[test]
fn extraction_rejects_non_boolean_error_flag() {
    let tree = JsonTree::Object(vec![
        ("content".to_string(), JsonTree::Array(Vec::new())),
        ("isError".to_string(), JsonTree::Text("yes".to_string())),
    ]);
    match tool_result_from_tree(tree) {
        Err(ConversionError::Shape { field }) => assert_eq!(field, "isError"),
        _ => panic!("expected a shape failure"),
    }
}

#[test]
fn extraction_treats_null_optionals_as_absent() {
    let tree = JsonTree::Object(vec![
        ("content".to_string(), JsonTree::Array(Vec::new())),
        ("structuredContent".to_string(), JsonTree::Null),
        ("isError".to_string(), JsonTree::Null),
        ("_meta".to_string(), JsonTree::Null),
    ]);
    let result = tool_result_from_tree(tree).unwrap();
    assert!(result.content.is_empty());
    assert_eq!(result.structured_content, None);
    assert_eq!(result.is_error, None);
    assert_eq!(result.meta, None);
}

#[test]
fn conversion_failure_names_the_operation() {
    let err = tool_result_from_tree(JsonTree::Text("nope".to_string())).unwrap_err();
    assert_eq!(
        err.describe(),
        "failed to convert call tool result: malformed content"
    );
    let serialization = ConversionError::Serialization {
        detail: "recursion limit exceeded".to_string(),
    };
    assert_eq!(
        serialization.describe(),
        "failed to convert call tool result: recursion limit exceeded"
    );
}
