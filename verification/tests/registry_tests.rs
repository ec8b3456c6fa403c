use serde_json::Value;
use tais_core::mcp::{
    call_failed_response, route_tool, rpc_step, server_tool_names, unknown_method_response, ExternalServer, GatewayError,
    McpTool, Request, RpcStep, ToolRegistry, ToolRoute, Transport,
};

fn object_schema() -> Value {
    serde_json::from_str(r#"{"type": "object"}"#).unwrap()
}

fn tool(name: &str, description: &str) -> McpTool {
    McpTool { name: name.to_string(), description: description.to_string(), parameters: object_schema() }
}

#[test]
fn registry_keeps_one_tool_per_name() {
    let mut r = ToolRegistry::new();
    r.register(tool("a", "first"));
    r.register(tool("b", "second"));
    r.register(tool("a", "replaced"));
    let all = r.list_all();
    assert_eq!(all.len(), 2);
    assert_eq!(all[0].name, "a");
    assert_eq!(all[0].description, "replaced");
    assert_eq!(r.get("b").map(|t| t.description.as_str()), Some("second"));
    assert!(r.get("c").is_none());
}

#[test]
fn registry_batch_registers_in_turn() {
    let mut r = ToolRegistry::new();
    r.register_batch(vec![tool("x", "1"), tool("y", "2"), tool("x", "3")]);
    let names: Vec<String> = r.list_all().into_iter().map(|t| format!("{}:{}", t.name, t.description)).collect();
    assert_eq!(names, vec!["x:3", "y:2"]);
    assert_eq!(r.list_all()[1].parameters, object_schema());
}

#[test]
fn server_tool_names_feed_the_router() {
    let server = ExternalServer {
        name: "remote".to_string(),
        transport: Transport::Sse { url: "http://localhost:9000".to_string() },
        tools: vec![tool("search", "web"), tool("fetch", "http")],
    };
    let names = server_tool_names(&server);
    assert_eq!(names, vec!["search".to_string(), "fetch".to_string()]);
    let pipes = vec!["local".to_string()];
    assert_eq!(route_tool(&pipes, &vec![names.clone()], "fetch"), ToolRoute::External(0));
    assert_eq!(route_tool(&pipes, &vec![names], "local"), ToolRoute::Pipe);
}

#[test]
fn rpc_steps() {
    assert_eq!(rpc_step("tools/list", false, None).ok(), Some(RpcStep::ListTools));
    assert_eq!(rpc_step("initialize", true, Some("x")).ok(), Some(RpcStep::Initialize));
    assert_eq!(rpc_step("tools/call", true, Some("oo-prd")).ok(), Some(RpcStep::CallTool("oo-prd".to_string())));
    assert_eq!(rpc_step("ping", false, None).ok(), Some(RpcStep::UnknownMethod));
    match rpc_step("tools/call", false, None) {
        Err(GatewayError::ProtocolError(m)) => assert_eq!(m, "tools/call requires params"),
        other => panic!("unexpected {:?}", other),
    }
    match rpc_step("tools/call", true, None) {
        Err(GatewayError::ProtocolError(m)) => assert_eq!(m, "missing tool name"),
        other => panic!("unexpected {:?}", other),
    }
}

#[test]
fn rpc_responses() {
    let r = unknown_method_response(Some(7), "ping");
    assert_eq!(r.jsonrpc, "2.0");
    assert_eq!(r.id, Some(7));
    let e = r.error.unwrap();
    assert_eq!((e.code, e.message.as_str()), (-32601, "unknown method: ping"));
    let f = call_failed_response(None, &GatewayError::ToolNotFound("x".to_string()));
    let e = f.error.unwrap();
    assert_eq!((e.code, e.message.as_str()), (-32000, "Tool not found: x"));
    let q = Request::new("tools/list", None);
    assert_eq!((q.jsonrpc.as_str(), q.id, q.method.as_str()), ("2.0", Some(1), "tools/list"));
}
