//! The tool gateway: the catalogue of tools the agents can call, and where
//! a call goes (a direct pipe to a local skill, or the external MCP server
//! that offers the tool).

use vstd::prelude::*;
use crate::text::{concat, owned, str_eq, views};

verus! {

/// A JSON value, carried through untouched.
#[verifier::external_type_specification]
#[verifier::external_body]
pub struct ExJsonValue(serde_json::Value);

/// A tool definition: name, description and JSON Schema of its parameters.
#[derive(Debug)]
pub struct McpTool {
    pub name: String,
    pub description: String,
    pub parameters: serde_json::Value,
}

/// How an external MCP server is reached.
#[derive(Debug)]
pub enum Transport {
    Stdio { command: String, args: Vec<String> },
    Sse { url: String },
}

/// An external MCP server and the tools it offers.
#[derive(Debug)]
pub struct ExternalServer {
    pub name: String,
    pub transport: Transport,
    pub tools: Vec<McpTool>,
}

/// Errors of the gateway.
#[derive(Debug)]
pub enum GatewayError {
    ToolNotFound(String),
    ProtocolError(String),
    TransportError(String),
    Timeout,
}

impl GatewayError {
    /// The error's message.
    pub open spec fn spec_message(&self) -> Seq<char> {
        match self {
            GatewayError::ToolNotFound(s) => "Tool not found: "@ + s@,
            GatewayError::ProtocolError(s) => "MCP protocol error: "@ + s@,
            GatewayError::TransportError(s) => "Transport error: "@ + s@,
            GatewayError::Timeout => "Timeout"@,
        }
    }

    /// The error's message.
    pub fn message(&self) -> (r: String)
        ensures
            r@ == self.spec_message(),
    {
        match self {
            GatewayError::ToolNotFound(s) => concat("Tool not found: ", s.as_str()),
            GatewayError::ProtocolError(s) => concat("MCP protocol error: ", s.as_str()),
            GatewayError::TransportError(s) => concat("Transport error: ", s.as_str()),
            GatewayError::Timeout => owned("Timeout"),
        }
    }
}

// ── JSON-RPC ─────────────────────────────────────────────────────────

/// A JSON-RPC request.
#[derive(Debug)]
pub struct Request {
    pub jsonrpc: String,
    pub id: Option<u32>,
    pub method: String,
    pub params: Option<serde_json::Value>,
}

/// The error part of a JSON-RPC response.
#[derive(Debug)]
pub struct RpcError {
    pub code: i32,
    pub message: String,
    pub data: Option<serde_json::Value>,
}

/// A JSON-RPC response: a result or an error.
#[derive(Debug)]
pub struct Response {
    pub jsonrpc: String,
    pub id: Option<u32>,
    pub result: Option<serde_json::Value>,
    pub error: Option<RpcError>,
}

impl Request {
    /// A version 2.0 request with id 1.
    pub fn new(method: &str, params: Option<serde_json::Value>) -> (r: Request)
        ensures
            r.jsonrpc@ == "2.0"@,
            r.id == Some(1u32),
            r.method@ == method@,
            r.params == params,
    {
        Request { jsonrpc: owned("2.0"), id: Some(1), method: owned(method), params }
    }
}

impl Response {
    /// A version 2.0 response carrying `result`.
    pub fn success(id: Option<u32>, result: serde_json::Value) -> (r: Response)
        ensures
            r.jsonrpc@ == "2.0"@,
            r.id == id,
            r.result == Some(result),
            r.error is None,
    {
        Response { jsonrpc: owned("2.0"), id, result: Some(result), error: None }
    }

    /// A version 2.0 response carrying an error with `code` and `message`.
    pub fn error(id: Option<u32>, code: i32, message: &str) -> (r: Response)
        ensures
            r.jsonrpc@ == "2.0"@,
            r.id == id,
            r.result is None,
            r.error matches Some(e) && e.code == code && e.message@ == message@ && e.data is None,
    {
        Response {
            jsonrpc: owned("2.0"),
            id,
            result: None,
            error: Some(RpcError { code, message: owned(message), data: None }),
        }
    }
}

/// What a JSON-RPC request asks of the gateway.
#[derive(Debug, PartialEq, Eq)]
pub enum RpcStep {
    ListTools,
    CallTool(String),
    Initialize,
    UnknownMethod,
}

/// What a request with `method` asks for. `params_given` says whether it
/// has parameters and `tool_name` is their `name` field when that is a
/// string. A tool call without parameters, or without a tool name, is a
/// protocol error.
pub fn rpc_step(method: &str, params_given: bool, tool_name: Option<&str>) -> (r: Result<RpcStep, GatewayError>)
    ensures
        method@ == "tools/list"@ ==> r == Ok::<RpcStep, GatewayError>(RpcStep::ListTools),
        method@ == "initialize"@ ==> r == Ok::<RpcStep, GatewayError>(RpcStep::Initialize),
        method@ == "tools/call"@ && !params_given ==> (r matches Err(GatewayError::ProtocolError(m)) && m@
            == "tools/call requires params"@),
        method@ == "tools/call"@ && params_given && tool_name is None ==> (r matches Err(
            GatewayError::ProtocolError(m),
        ) && m@ == "missing tool name"@),
        method@ == "tools/call"@ && params_given && tool_name is Some ==> (r matches Ok(RpcStep::CallTool(x))
            && x@ == tool_name->0@),
        !(method@ == "tools/list"@ || method@ == "initialize"@ || method@ == "tools/call"@) ==> r
            == Ok::<RpcStep, GatewayError>(RpcStep::UnknownMethod),
{
    proof {
        reveal_strlit("tools/list");
        reveal_strlit("tools/call");
        reveal_strlit("initialize");
        assert("initialize"@[0] != "tools/list"@[0]);
        assert("initialize"@[0] != "tools/call"@[0]);
        assert("tools/list"@[6] != "tools/call"@[6]);
    }
    if str_eq(method, "tools/list") {
        Ok(RpcStep::ListTools)
    } else if str_eq(method, "tools/call") {
        if !params_given {
            return Err(GatewayError::ProtocolError(owned("tools/call requires params")));
        }
        match tool_name {
            Some(n) => Ok(RpcStep::CallTool(owned(n))),
            None => Err(GatewayError::ProtocolError(owned("missing tool name"))),
        }
    } else if str_eq(method, "initialize") {
        Ok(RpcStep::Initialize)
    } else {
        Ok(RpcStep::UnknownMethod)
    }
}

/// Code of a JSON-RPC call to an unknown method.
pub const METHOD_NOT_FOUND: i32 = -32601;

/// Code of a tool call that failed.
pub const TOOL_CALL_FAILED: i32 = -32000;

/// Code of a result that could not be encoded.
pub const INTERNAL_ERROR: i32 = -32603;

/// The answer to a request for an unknown method.
pub fn unknown_method_response(id: Option<u32>, method: &str) -> (r: Response)
    ensures
        r.jsonrpc@ == "2.0"@,
        r.id == id,
        r.result is None,
        r.error matches Some(e) && e.code == METHOD_NOT_FOUND && e.message@ == "unknown method: "@ + method@
            && e.data is None,
{
    Response::error(id, METHOD_NOT_FOUND, concat("unknown method: ", method).as_str())
}

/// The answer to a tool call that failed with `err`.
pub fn call_failed_response(id: Option<u32>, err: &GatewayError) -> (r: Response)
    ensures
        r.jsonrpc@ == "2.0"@,
        r.id == id,
        r.result is None,
        r.error matches Some(e) && e.code == TOOL_CALL_FAILED && e.message@ == err.spec_message() && e.data is None,
{
    Response::error(id, TOOL_CALL_FAILED, err.message().as_str())
}

/// The answer to a tool list that could not be encoded (`why` says how).
pub fn encode_failed_response(id: Option<u32>, why: &str) -> (r: Response)
    ensures
        r.jsonrpc@ == "2.0"@,
        r.id == id,
        r.result is None,
        r.error matches Some(e) && e.code == INTERNAL_ERROR && e.message@ == "serialization: "@ + why@
            && e.data is None,
{
    Response::error(id, INTERNAL_ERROR, concat("serialization: ", why).as_str())
}

/// The protocol error of a request that is not JSON-RPC (`why` says how).
pub fn invalid_request_error(why: &str) -> (r: GatewayError)
    ensures
        r matches GatewayError::ProtocolError(m) && m@ == "invalid json-rpc: "@ + why@,
{
    GatewayError::ProtocolError(concat("invalid json-rpc: ", why))
}

/// Where a tool call goes.
#[derive(Debug, Clone, Copy, PartialEq, Eq, Structural)]
pub enum ToolRoute {
    /// A direct pipe to a local skill
    Pipe,
    /// The external server at this position
    External(usize),
    NotFound,
}

/// The first server (by position) offering a tool named `name`.
pub open spec fn first_server(servers: Seq<Seq<Seq<char>>>, name: Seq<char>) -> Option<int>
    decreases servers.len(),
{
    if servers.len() == 0 {
        None
    } else {
        match first_server(servers.drop_last(), name) {
            Some(i) => Some(i),
            None => if servers.last().contains(name) {
                Some(servers.len() - 1)
            } else {
                None
            },
        }
    }
}

/// Where a call of `name` goes: a direct pipe of that name first, else the
/// first external server offering the tool.
pub open spec fn route_spec(pipes: Seq<Seq<char>>, servers: Seq<Seq<Seq<char>>>, name: Seq<char>) -> ToolRoute {
    if pipes.contains(name) {
        ToolRoute::Pipe
    } else {
        match first_server(servers, name) {
            Some(i) => ToolRoute::External(i as usize),
            None => ToolRoute::NotFound,
        }
    }
}

fn holds_name(names: &Vec<String>, name: &str) -> (r: bool)
    ensures
        r == views(names@).contains(name@),
{
    let mut i: usize = 0;
    while i < names.len()
        invariant
            i <= names.len(),
            forall|j: int| 0 <= j < i ==> views(names@)[j] != name@,
        decreases names.len() - i,
    {
        assert(views(names@)[i as int] == names@[i as int]@);
        if str_eq(names[i].as_str(), name) {
            assert(views(names@).contains(name@));
            return true;
        }
        i = i + 1;
    }
    false
}

/// Where a call of `name` goes, given the direct pipes' names and each
/// external server's tool names.
pub fn route_tool(pipes: &Vec<String>, servers: &Vec<Vec<String>>, name: &str) -> (r: ToolRoute)
    ensures
        r == route_spec(views(pipes@), servers@.map_values(|s: Vec<String>| views(s@)), name@),
{
    if holds_name(pipes, name) {
        return ToolRoute::Pipe;
    }
    let ghost all = servers@.map_values(|s: Vec<String>| views(s@));
    let mut i: usize = 0;
    while i < servers.len()
        invariant
            i <= servers.len(),
            all == servers@.map_values(|s: Vec<String>| views(s@)),
            !views(pipes@).contains(name@),
            first_server(all.take(i as int), name@) is None,
        decreases servers.len() - i,
    {
        assert(all.take(i + 1).drop_last() =~= all.take(i as int));
        assert(all.take(i + 1).last() == views(servers@[i as int]@));
        if holds_name(&servers[i], name) {
            proof {
                assert(first_server(all.take(i + 1), name@) == Some(i as int));
                lemma_first_server_prefix(all, i + 1, name@);
            }
            return ToolRoute::External(i);
        }
        i = i + 1;
    }
    assert(all.take(servers.len() as int) =~= all);
    ToolRoute::NotFound
}

proof fn lemma_first_server_prefix(all: Seq<Seq<Seq<char>>>, k: int, name: Seq<char>)
    requires
        0 <= k <= all.len(),
        first_server(all.take(k), name) is Some,
    ensures
        first_server(all, name) == first_server(all.take(k), name),
    decreases all.len() - k,
{
    if k < all.len() {
        assert(all.take(k + 1).drop_last() =~= all.take(k));
        lemma_first_server_prefix(all, k + 1, name);
    } else {
        assert(all.take(k) =~= all);
    }
}

/// The tool names of an external server.
pub fn server_tool_names(server: &ExternalServer) -> (r: Vec<String>)
    ensures
        views(r@) == server.tools@.map_values(|t: McpTool| t.name@),
{
    let mut out: Vec<String> = Vec::new();
    let mut i: usize = 0;
    while i < server.tools.len()
        invariant
            i <= server.tools.len(),
            views(out@) == server.tools@.map_values(|t: McpTool| t.name@).take(i as int),
        decreases server.tools.len() - i,
    {
        let ghost before = views(out@);
        out.push(server.tools[i].name.clone());
        assert(views(out@) =~= before.push(server.tools@[i as int].name@));
        assert(server.tools@.map_values(|t: McpTool| t.name@).take(i + 1) =~= server.tools@.map_values(
            |t: McpTool| t.name@,
        ).take(i as int).push(server.tools@[i as int].name@));
        i = i + 1;
    }
    assert(server.tools@.map_values(|t: McpTool| t.name@).take(server.tools.len() as int)
        =~= server.tools@.map_values(|t: McpTool| t.name@));
    out
}

/// The capsule tools registered at startup: fourteen OO capability
/// capsules, seven gene capsules, seven TAIS teaching capsules, seven habit
/// capsules and the two self-evolution tools.
pub open spec fn capsule_table() -> Seq<(Seq<char>, Seq<char>)> {
    seq![
        ("oo-prd-generator"@, "PRD生成器：一句话需求→8节结构化PRD"@),
        ("oo-user-story"@, "User Story拆解：PRD→14条INVEST Story"@),
        ("oo-use-case"@, "Use Case建模：Story→PlantUML用例图+规约"@),
        ("oo-domain-model"@, "领域模型：Use Case→DDD战术设计"@),
        ("oo-class-diagram"@, "类图：领域模型→OO类图+SOLID检查"@),
        ("oo-sequence-diagram"@, "时序图：Use Case→PlantUML时序图"@),
        ("oo-state-diagram"@, "状态图：类图→UML状态机"@),
        ("oo-activity-diagram"@, "活动图：Use Case→泳道活动图"@),
        ("oo-component-diagram"@, "组件图：类图→组件图+接口+技术栈"@),
        ("oo-ui-prototype"@, "UI原型：Story→HTML原型+页面清单"@),
        ("oo-api-spec"@, "API规范：时序图→OpenAPI 3.0 YAML"@),
        ("oo-db-schema"@, "DB Schema：领域模型→DDL+ER图"@),
        ("oo-design-pattern"@, "设计模式：类图→GoF 23模式推荐"@),
        ("oo-code-scaffold"@, "代码骨架：设计产出→DDD分层项目骨架"@),
        ("gene-personality"@, "人格基因：Big Five性格模板"@),
        ("gene-thinking"@, "思维基因：第一性原理/类比/系统思维"@),
        ("gene-decision"@, "决策基因：ρ风险/τ阈值/α精度"@),
        ("gene-behavior"@, "行为基因：δ直白/σ简洁/γ主动"@),
        ("gene-risk-control"@, "风控基因：安全红线/合规底线"@),
        ("gene-evolution"@, "进化基因：成功模式/教训库"@),
        ("gene-heredity"@, "遗传基因：交叉/突变/选择算子"@),
        ("tais-workflow"@, "教学工作流编排器"@),
        ("tais-learning-analyst"@, "学情分析师"@),
        ("tais-socratic-tutor"@, "苏格拉底式导师"@),
        ("tais-resource-pusher"@, "个性化资源推送员"@),
        ("tais-skill-coach"@, "技能教练"@),
        ("tais-feedback-collector"@, "反馈采集器"@),
        ("tais-evolution"@, "自进化引擎"@),
        ("habit-review"@, "复盘习惯：每日定时总结"@),
        ("habit-error-handling"@, "容错习惯：错误模式识别+策略切换"@),
        ("habit-communication"@, "沟通习惯：确认理解+总结共识"@),
        ("habit-documentation"@, "文档习惯：自动更新日志"@),
        ("habit-optimization"@, "优化习惯：自我审查+对比历史"@),
        ("habit-security"@, "安全习惯：高风险操作检查清单"@),
        ("habit-collaboration"@, "协作习惯：握手协议+任务拆解"@),
        ("crystallize_skill"@, "技能结晶：成功教学→可复用SOP文件"@),
        ("update_working_checkpoint"@, "工作记忆：短记事本<200 tokens"@),
    ]
}

/// The capsule tools, as (name, description) pairs.
pub fn all_capsule_tools() -> (r: Vec<(String, String)>)
    ensures
        r@.map_values(|p: (String, String)| (p.0@, p.1@)) == capsule_table(),
{
    let mut out: Vec<(String, String)> = Vec::new();
    out.push((owned("oo-prd-generator"), owned("PRD生成器：一句话需求→8节结构化PRD")));
    out.push((owned("oo-user-story"), owned("User Story拆解：PRD→14条INVEST Story")));
    out.push((owned("oo-use-case"), owned("Use Case建模：Story→PlantUML用例图+规约")));
    out.push((owned("oo-domain-model"), owned("领域模型：Use Case→DDD战术设计")));
    out.push((owned("oo-class-diagram"), owned("类图：领域模型→OO类图+SOLID检查")));
    out.push((owned("oo-sequence-diagram"), owned("时序图：Use Case→PlantUML时序图")));
    out.push((owned("oo-state-diagram"), owned("状态图：类图→UML状态机")));
    out.push((owned("oo-activity-diagram"), owned("活动图：Use Case→泳道活动图")));
    out.push((owned("oo-component-diagram"), owned("组件图：类图→组件图+接口+技术栈")));
    out.push((owned("oo-ui-prototype"), owned("UI原型：Story→HTML原型+页面清单")));
    out.push((owned("oo-api-spec"), owned("API规范：时序图→OpenAPI 3.0 YAML")));
    out.push((owned("oo-db-schema"), owned("DB Schema：领域模型→DDL+ER图")));
    out.push((owned("oo-design-pattern"), owned("设计模式：类图→GoF 23模式推荐")));
    out.push((owned("oo-code-scaffold"), owned("代码骨架：设计产出→DDD分层项目骨架")));
    out.push((owned("gene-personality"), owned("人格基因：Big Five性格模板")));
    out.push((owned("gene-thinking"), owned("思维基因：第一性原理/类比/系统思维")));
    out.push((owned("gene-decision"), owned("决策基因：ρ风险/τ阈值/α精度")));
    out.push((owned("gene-behavior"), owned("行为基因：δ直白/σ简洁/γ主动")));
    out.push((owned("gene-risk-control"), owned("风控基因：安全红线/合规底线")));
    out.push((owned("gene-evolution"), owned("进化基因：成功模式/教训库")));
    out.push((owned("gene-heredity"), owned("遗传基因：交叉/突变/选择算子")));
    out.push((owned("tais-workflow"), owned("教学工作流编排器")));
    out.push((owned("tais-learning-analyst"), owned("学情分析师")));
    out.push((owned("tais-socratic-tutor"), owned("苏格拉底式导师")));
    out.push((owned("tais-resource-pusher"), owned("个性化资源推送员")));
    out.push((owned("tais-skill-coach"), owned("技能教练")));
    out.push((owned("tais-feedback-collector"), owned("反馈采集器")));
    out.push((owned("tais-evolution"), owned("自进化引擎")));
    out.push((owned("habit-review"), owned("复盘习惯：每日定时总结")));
    out.push((owned("habit-error-handling"), owned("容错习惯：错误模式识别+策略切换")));
    out.push((owned("habit-communication"), owned("沟通习惯：确认理解+总结共识")));
    out.push((owned("habit-documentation"), owned("文档习惯：自动更新日志")));
    out.push((owned("habit-optimization"), owned("优化习惯：自我审查+对比历史")));
    out.push((owned("habit-security"), owned("安全习惯：高风险操作检查清单")));
    out.push((owned("habit-collaboration"), owned("协作习惯：握手协议+任务拆解")));
    out.push((owned("crystallize_skill"), owned("技能结晶：成功教学→可复用SOP文件")));
    out.push((owned("update_working_checkpoint"), owned("工作记忆：短记事本<200 tokens")));
    assert(out@.map_values(|p: (String, String)| (p.0@, p.1@)) =~= capsule_table());
    out
}

/// `serde_json::Value::clone`. `Value` derives `Clone`, which copies the
/// value as it is; the contract says the copy equals the value copied.
#[verifier::external_body]
fn clone_json(v: &serde_json::Value) -> (r: serde_json::Value)
    ensures
        r == *v,
{
    v.clone()
}

/// What a registry holds of a tool: name, description, parameter schema.
pub struct ToolView {
    pub name: Seq<char>,
    pub description: Seq<char>,
    pub parameters: serde_json::Value,
}

impl View for McpTool {
    type V = ToolView;

    open spec fn view(&self) -> ToolView {
        ToolView { name: self.name@, description: self.description@, parameters: self.parameters }
    }
}

impl McpTool {
    /// A copy holding the same values.
    pub fn copy(&self) -> (r: McpTool)
        ensures
            r@ == self@,
    {
        McpTool { name: self.name.clone(), description: self.description.clone(), parameters: clone_json(&self.parameters) }
    }
}

/// The views of tools.
pub open spec fn tool_views(v: Seq<McpTool>) -> Seq<ToolView> {
    v.map_values(|t: McpTool| t@)
}

/// The first position whose name is `name`.
pub open spec fn tool_index(ts: Seq<ToolView>, name: Seq<char>) -> Option<int>
    decreases ts.len(),
{
    if ts.len() == 0 {
        None
    } else {
        match tool_index(ts.drop_last(), name) {
            Some(i) => Some(i),
            None => if ts.last().name == name {
                Some(ts.len() - 1)
            } else {
                None
            },
        }
    }
}

/// The tools after registering `t`: the tool of the same name is replaced,
/// or `t` is appended.
pub open spec fn registered(ts: Seq<ToolView>, t: ToolView) -> Seq<ToolView> {
    match tool_index(ts, t.name) {
        Some(i) => ts.update(i, t),
        None => ts.push(t),
    }
}

/// The tools after registering each of `more` in turn.
pub open spec fn registered_all(ts: Seq<ToolView>, more: Seq<ToolView>) -> Seq<ToolView>
    decreases more.len(),
{
    if more.len() == 0 {
        ts
    } else {
        registered(registered_all(ts, more.drop_last()), more.last())
    }
}

/// The tools the agents can call, one per name.
pub struct ToolRegistry {
    tools: Vec<McpTool>,
}

impl ToolRegistry {
    /// The tools, in the order their names were first registered.
    pub closed spec fn tools(&self) -> Seq<ToolView> {
        tool_views(self.tools@)
    }

    /// No tools.
    pub fn new() -> (r: ToolRegistry)
        ensures
            r.tools() == Seq::<ToolView>::empty(),
    {
        let r = ToolRegistry { tools: Vec::new() };
        assert(r.tools() =~= Seq::<ToolView>::empty());
        r
    }

    fn find(&self, name: &str) -> (r: Option<usize>)
        ensures
            r matches Some(i) ==> tool_index(self.tools(), name@) == Some(i as int) && i < self.tools@.len(),
            r is None ==> tool_index(self.tools(), name@) is None,
    {
        let ghost all = self.tools();
        let mut i: usize = 0;
        while i < self.tools.len()
            invariant
                i <= self.tools.len(),
                all == self.tools(),
                tool_index(all.take(i as int), name@) is None,
            decreases self.tools.len() - i,
        {
            assert(all.take(i + 1).drop_last() =~= all.take(i as int));
            assert(all.take(i + 1).last() == self.tools@[i as int]@);
            if str_eq(self.tools[i].name.as_str(), name) {
                proof {
                    lemma_tool_index_prefix(all, name@, i + 1);
                }
                return Some(i);
            }
            i += 1;
        }
        assert(all.take(self.tools.len() as int) =~= all);
        None
    }

    /// Registers a tool under its name, replacing the tool of that name.
    pub fn register(&mut self, tool: McpTool)
        ensures
            final(self).tools() == registered(old(self).tools(), tool@),
    {
        let ghost before = self.tools();
        let ghost v = tool@;
        match self.find(tool.name.as_str()) {
            Some(i) => {
                self.tools.set(i, tool);
                assert(self.tools() =~= before.update(i as int, v));
            },
            None => {
                self.tools.push(tool);
                assert(self.tools() =~= before.push(v));
            },
        }
    }

    /// The tool registered under `name`, if any.
    pub fn get(&self, name: &str) -> (r: Option<&McpTool>)
        ensures
            match tool_index(self.tools(), name@) {
                Some(i) => r matches Some(t) && t@ == self.tools()[i],
                None => r is None,
            },
    {
        match self.find(name) {
            Some(i) => {
                assert(self.tools()[i as int] == self.tools@[i as int]@);
                Some(&self.tools[i])
            },
            None => None,
        }
    }

    /// Copies of all tools, in the order their names were first registered.
    pub fn list_all(&self) -> (r: Vec<McpTool>)
        ensures
            tool_views(r@) == self.tools(),
    {
        let mut r: Vec<McpTool> = Vec::new();
        let mut i: usize = 0;
        while i < self.tools.len()
            invariant
                i <= self.tools.len(),
                tool_views(r@) == self.tools().take(i as int),
            decreases self.tools.len() - i,
        {
            let ghost before = tool_views(r@);
            r.push(self.tools[i].copy());
            assert(tool_views(r@) =~= before.push(self.tools@[i as int]@));
            assert(self.tools().take(i + 1) =~= self.tools().take(i as int).push(self.tools@[i as int]@));
            i += 1;
        }
        assert(self.tools().take(self.tools.len() as int) =~= self.tools());
        r
    }

    /// Registers each tool in turn.
    pub fn register_batch(&mut self, tools: Vec<McpTool>)
        ensures
            final(self).tools() == registered_all(old(self).tools(), tool_views(tools@)),
    {
        let ghost start = self.tools();
        let ghost more = tool_views(tools@);
        let mut rest = tools;
        let n = rest.len();
        let mut k: usize = 0;
        while k < n
            invariant
                k <= n,
                n == more.len(),
                rest.len() == n - k,
                tool_views(rest@) == more.skip(k as int),
                self.tools() == registered_all(start, more.take(k as int)),
            decreases n - k,
        {
            let ghost old_rest = rest@;
            let t = rest.remove(0);
            proof {
                assert(tool_views(old_rest)[0] == old_rest[0]@);
                assert(more.skip(k as int)[0] == t@);
                assert(more.take(k + 1).drop_last() =~= more.take(k as int));
                assert(more.take(k + 1).last() == t@);
                assert(rest@ =~= old_rest.subrange(1, old_rest.len() as int));
                assert forall|j: int| 0 <= j < rest@.len() implies #[trigger] tool_views(rest@)[j]
                    == more.skip(k + 1)[j] by {
                    assert(rest@[j] == old_rest[j + 1]);
                    assert(tool_views(old_rest)[j + 1] == old_rest[j + 1]@);
                    assert(more.skip(k as int)[j + 1] == more.skip(k + 1)[j]);
                }
                assert(tool_views(rest@) =~= more.skip(k + 1));
            }
            self.register(t);
            k += 1;
        }
        assert(more.take(n as int) =~= more);
    }
}

proof fn lemma_tool_index_prefix(ts: Seq<ToolView>, name: Seq<char>, n: int)
    requires
        0 < n <= ts.len(),
        tool_index(ts.take(n - 1), name) is None,
        ts[n - 1].name == name,
    ensures
        tool_index(ts, name) == Some(n - 1),
    decreases ts.len() - n,
{
    assert(ts.take(n).drop_last() =~= ts.take(n - 1));
    assert(ts.take(n).last() == ts[n - 1]);
    if n < ts.len() {
        lemma_tool_index_found_extends(ts, name, n);
    } else {
        assert(ts.take(n) =~= ts);
    }
}

proof fn lemma_tool_index_found_extends(ts: Seq<ToolView>, name: Seq<char>, n: int)
    requires
        0 < n <= ts.len(),
        tool_index(ts.take(n), name) is Some,
    ensures
        tool_index(ts, name) == tool_index(ts.take(n), name),
    decreases ts.len() - n,
{
    if n < ts.len() {
        assert(ts.take(n + 1).drop_last() =~= ts.take(n));
        lemma_tool_index_found_extends(ts, name, n + 1);
    } else {
        assert(ts.take(n) =~= ts);
    }
}

} // verus!
