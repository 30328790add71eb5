#[test]
fn test_mcp_tool_out_step() {}

#[test]
fn test_mcp_tool_out_e_step() {}

#[test]
fn test_mcp_tool_in_step() {}

#[test]
fn test_mcp_tool_in_e_step() {}

#[test]
fn test_mcp_tool_n_from_type() {}

#[test]
fn test_mcp_tool_e_from_type() {}

#[test]
fn test_mcp_tool_filter_items() {}

#[test]
fn test_mcp_tool_search_keyword() {}

#[test]
fn test_mcp_tool_search_vector_text() {}
