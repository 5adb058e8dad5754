//! Model Context Protocol: capabilities, resources, tool results and errors.

use vstd::prelude::*;
use vstd::string::*;

verus! {

#[derive(Debug, Clone, Copy, PartialEq, Eq)]
pub struct ResourceCapabilities {
    pub subscribe: bool,
    pub list_changed: bool,
}

#[derive(Debug, Clone, Copy, PartialEq, Eq)]
pub struct ToolCapabilities {
    pub list_changed: bool,
}

#[derive(Debug, Clone, Copy, PartialEq, Eq)]
pub struct PromptCapabilities {
    pub list_changed: bool,
}

#[derive(Debug, Clone, Copy, PartialEq, Eq)]
pub struct SamplingCapabilities {}

/// What one side of a connection can do.
#[derive(Debug, Clone, Copy, PartialEq, Eq)]
pub struct McpCapabilities {
    pub resources: Option<ResourceCapabilities>,
    pub tools: Option<ToolCapabilities>,
    pub prompts: Option<PromptCapabilities>,
    pub sampling: Option<SamplingCapabilities>,
}

#[derive(Debug, Clone)]
pub struct ClientInfo {
    pub name: String,
    pub version: String,
}

/// Something a server offers for reading.
#[derive(Debug, Clone)]
pub struct Resource {
    pub uri: String,
    pub name: String,
    pub description: Option<String>,
    pub mime_type: Option<String>,
}

/// The body of a resource: text, or binary data in base64.
#[derive(Debug, Clone)]
pub enum ResourceContentType {
    Text { text: String },
    Blob { blob: String },
}

#[derive(Debug, Clone)]
pub struct ResourceContent {
    pub uri: String,
    pub mime_type: Option<String>,
    pub content: ResourceContentType,
}

/// One piece of what a tool returned.
#[derive(Debug, Clone)]
pub enum ToolContent {
    Text { text: String },
    Image { data: String, mime_type: String },
    Resource { resource: ResourceContent },
}

/// A client that has not connected yet knows nothing of its server.
#[derive(Debug, Clone)]
pub struct McpClient {
    server_info: Option<ClientInfo>,
    capabilities: Option<McpCapabilities>,
}

impl McpClient {
    /// Whether the client has learnt who its server is.
    pub closed spec fn knows_server(&self) -> bool {
        self.server_info is Some
    }

    /// Whether the client has learnt what its server can do.
    pub closed spec fn knows_capabilities(&self) -> bool {
        self.capabilities is Some
    }

    /// A client that is not connected.
    pub fn new() -> (r: McpClient)
        ensures
            !r.knows_server(),
            !r.knows_capabilities(),
    {
        McpClient { server_info: None, capabilities: None }
    }

    /// Whether the client is connected to a server.
    pub fn is_connected(&self) -> (r: bool)
        ensures
            r == (self.knows_server() && self.knows_capabilities()),
    {
        self.server_info.is_some() && self.capabilities.is_some()
    }
}

/// Whether a resource has the given address and name, a description, and JSON
/// as the kind of its content.
pub open spec fn is_resource(r: Resource, uri: Seq<char>, name: Seq<char>, description: Seq<char>)
    -> bool {
    &&& r.uri@ == uri
    &&& r.name@ == name
    &&& r.description matches Some(d) && d@ == description
    &&& r.mime_type matches Some(m) && m@ == "application/json"@
}

fn resource(uri: &str, name: &str, description: &str) -> (r: Resource)
    ensures
        is_resource(r, uri@, name@, description@),
{
    Resource {
        uri: String::from_str(uri),
        name: String::from_str(name),
        description: Some(String::from_str(description)),
        mime_type: Some(String::from_str("application/json")),
    }
}

/// Something a server can do when asked: its name, what it does, and the JSON
/// Schema of what it takes, as JSON text.
#[derive(Debug, Clone)]
pub struct Tool {
    pub name: String,
    pub description: String,
    pub input_schema: String,
}

/// Whether a tool has the given name, description and schema.
pub open spec fn is_tool(t: Tool, name: Seq<char>, description: Seq<char>, schema: Seq<char>) -> bool {
    t.name@ == name && t.description@ == description && t.input_schema@ == schema
}

fn tool(name: &str, description: &str, schema: &str) -> (r: Tool)
    ensures
        is_tool(r, name@, description@, schema@),
{
    Tool {
        name: String::from_str(name),
        description: String::from_str(description),
        input_schema: String::from_str(schema),
    }
}

/// A server: what it can do and what it offers for reading.
#[derive(Debug, Clone)]
pub struct McpServer {
    pub capabilities: McpCapabilities,
    pub resources: Vec<Resource>,
    pub tools: Vec<Tool>,
}

impl McpServer {
    /// The tools that a server offers: running a simulation, analysing a
    /// model, analysing sensitivity, and reading the series of variables.
    pub fn default_tools() -> (r: Vec<Tool>)
        ensures
            r@.len() == 4,
            is_tool(r@[0], "run_simulation"@, "Run a system dynamics simulation with specified parameters"@, "{\"type\":\"object\",\"properties\":{\"model\":{\"type\":\"string\",\"description\":\"Model file path or URI\"},\"parameters\":{\"type\":\"object\",\"description\":\"Parameter overrides as key-value pairs\"},\"time_config\":{\"type\":\"object\",\"properties\":{\"start\":{\"type\":\"number\"},\"stop\":{\"type\":\"number\"},\"dt\":{\"type\":\"number\"}}}},\"required\":[\"model\"]}"@),
            is_tool(r@[1], "analyze_model"@, "Analyze model structure, loops, and dependencies"@, "{\"type\":\"object\",\"properties\":{\"model\":{\"type\":\"string\",\"description\":\"Model file path or URI\"},\"analysis_type\":{\"type\":\"string\",\"enum\":[\"structure\",\"loops\",\"sensitivity\",\"equilibrium\"],\"description\":\"Type of analysis to perform\"}},\"required\":[\"model\",\"analysis_type\"]}"@),
            is_tool(r@[2], "sensitivity_analysis"@, "Perform parameter sensitivity analysis"@, "{\"type\":\"object\",\"properties\":{\"model\":{\"type\":\"string\"},\"parameters\":{\"type\":\"array\",\"items\":{\"type\":\"string\"},\"description\":\"Parameters to vary\"},\"ranges\":{\"type\":\"object\",\"description\":\"Min/max ranges for each parameter\"},\"samples\":{\"type\":\"integer\",\"description\":\"Number of samples to generate\"}},\"required\":[\"model\",\"parameters\"]}"@),
            is_tool(r@[3], "get_variable_timeseries"@, "Extract time series data for specific variables"@, "{\"type\":\"object\",\"properties\":{\"simulation_id\":{\"type\":\"string\"},\"variables\":{\"type\":\"array\",\"items\":{\"type\":\"string\"}}},\"required\":[\"simulation_id\",\"variables\"]}"@),
    {
        let mut r: Vec<Tool> = Vec::new();
        r.push(tool("run_simulation", "Run a system dynamics simulation with specified parameters", "{\"type\":\"object\",\"properties\":{\"model\":{\"type\":\"string\",\"description\":\"Model file path or URI\"},\"parameters\":{\"type\":\"object\",\"description\":\"Parameter overrides as key-value pairs\"},\"time_config\":{\"type\":\"object\",\"properties\":{\"start\":{\"type\":\"number\"},\"stop\":{\"type\":\"number\"},\"dt\":{\"type\":\"number\"}}}},\"required\":[\"model\"]}"));
        r.push(tool("analyze_model", "Analyze model structure, loops, and dependencies", "{\"type\":\"object\",\"properties\":{\"model\":{\"type\":\"string\",\"description\":\"Model file path or URI\"},\"analysis_type\":{\"type\":\"string\",\"enum\":[\"structure\",\"loops\",\"sensitivity\",\"equilibrium\"],\"description\":\"Type of analysis to perform\"}},\"required\":[\"model\",\"analysis_type\"]}"));
        r.push(tool("sensitivity_analysis", "Perform parameter sensitivity analysis", "{\"type\":\"object\",\"properties\":{\"model\":{\"type\":\"string\"},\"parameters\":{\"type\":\"array\",\"items\":{\"type\":\"string\"},\"description\":\"Parameters to vary\"},\"ranges\":{\"type\":\"object\",\"description\":\"Min/max ranges for each parameter\"},\"samples\":{\"type\":\"integer\",\"description\":\"Number of samples to generate\"}},\"required\":[\"model\",\"parameters\"]}"));
        r.push(tool("get_variable_timeseries", "Extract time series data for specific variables", "{\"type\":\"object\",\"properties\":{\"simulation_id\":{\"type\":\"string\"},\"variables\":{\"type\":\"array\",\"items\":{\"type\":\"string\"}}},\"required\":[\"simulation_id\",\"variables\"]}"));
        r
    }

    /// The resources that a server offers: the list of models, the state of
    /// the running simulation and the latest results.
    pub fn default_resources() -> (r: Vec<Resource>)
        ensures
            r@.len() == 3,
            is_resource(
                r@[0],
                "rsedsim://models/list"@,
                "Available Models"@,
                "List of all loaded simulation models"@,
            ),
            is_resource(
                r@[1],
                "rsedsim://simulation/state"@,
                "Current Simulation State"@,
                "Current state of running simulation"@,
            ),
            is_resource(
                r@[2],
                "rsedsim://results/latest"@,
                "Latest Results"@,
                "Most recent simulation results"@,
            ),
    {
        let mut r: Vec<Resource> = Vec::new();
        r.push(
            resource(
                "rsedsim://models/list",
                "Available Models",
                "List of all loaded simulation models",
            ),
        );
        r.push(
            resource(
                "rsedsim://simulation/state",
                "Current Simulation State",
                "Current state of running simulation",
            ),
        );
        r.push(
            resource("rsedsim://results/latest", "Latest Results", "Most recent simulation results"),
        );
        r
    }

    /// A server that offers the default resources, lets clients subscribe to
    /// them, and tells when its resources or tools change.
    pub fn new() -> (r: McpServer)
        ensures
            r.capabilities.resources == Some(
                ResourceCapabilities { subscribe: true, list_changed: true },
            ),
            r.capabilities.tools == Some(ToolCapabilities { list_changed: true }),
            r.capabilities.prompts is None,
            r.capabilities.sampling is None,
            r.resources@.len() == 3,
            r.tools@.len() == 4,
    {
        McpServer {
            capabilities: McpCapabilities {
                resources: Some(ResourceCapabilities { subscribe: true, list_changed: true }),
                tools: Some(ToolCapabilities { list_changed: true }),
                prompts: None,
                sampling: None,
            },
            resources: Self::default_resources(),
            tools: Self::default_tools(),
        }
    }
}

/// What a message is, without its content.
#[derive(Debug, Clone, Copy, PartialEq, Eq, Structural)]
pub enum MessageKind {
    Initialize,
    ListResources,
    ReadResource,
    ListTools,
    CallTool,
    Response,
    Error,
    Notification,
}

/// What a server answers with.
#[derive(Debug, Clone, Copy, PartialEq, Eq, Structural)]
pub enum Answer {
    /// The list of its resources.
    Resources,
    /// The list of its tools.
    Tools,
}

/// The answer that a server has to a kind of message, if it has one: its
/// resources or its tools when asked to list them.
pub open spec fn answer_to(kind: MessageKind) -> Option<Answer> {
    match kind {
        MessageKind::ListResources => Some(Answer::Resources),
        MessageKind::ListTools => Some(Answer::Tools),
        _ => None,
    }
}

/// The answer that a server has to a kind of message; for the kinds that it
/// has no answer to, the error that says so.
pub fn answer_for(kind: MessageKind) -> (r: Result<Answer, McpError>)
    ensures
        match r {
            Ok(answer) => answer_to(kind) == Some(answer),
            Err(e) => answer_to(kind) is None && e is NotImplemented,
        },
{
    match kind {
        MessageKind::ListResources => Ok(Answer::Resources),
        MessageKind::ListTools => Ok(Answer::Tools),
        _ => Err(McpError::NotImplemented),
    }
}

/// What can go wrong in the protocol.
#[derive(Debug, Clone)]
pub enum McpError {
    ParseError(String),
    InvalidRequest(String),
    MethodNotFound(String),
    InvalidParams(String),
    InternalError(String),
    NotImplemented,
    TransportError(String),
}

impl McpError {
    /// What the error says.
    pub open spec fn text(&self) -> Seq<char> {
        match self {
            McpError::ParseError(msg) => "Parse error: "@ + msg@,
            McpError::InvalidRequest(msg) => "Invalid request: "@ + msg@,
            McpError::MethodNotFound(msg) => "Method not found: "@ + msg@,
            McpError::InvalidParams(msg) => "Invalid params: "@ + msg@,
            McpError::InternalError(msg) => "Internal error: "@ + msg@,
            McpError::NotImplemented => "Not implemented"@,
            McpError::TransportError(msg) => "Transport error: "@ + msg@,
        }
    }

    /// The error in words.
    pub fn message(&self) -> (r: String)
        ensures
            r@ == self.text(),
    {
        match self {
            McpError::ParseError(msg) => String::from_str("Parse error: ").concat(msg.as_str()),
            McpError::InvalidRequest(msg) => String::from_str("Invalid request: ").concat(
                msg.as_str(),
            ),
            McpError::MethodNotFound(msg) => String::from_str("Method not found: ").concat(
                msg.as_str(),
            ),
            McpError::InvalidParams(msg) => String::from_str("Invalid params: ").concat(
                msg.as_str(),
            ),
            McpError::InternalError(msg) => String::from_str("Internal error: ").concat(
                msg.as_str(),
            ),
            McpError::NotImplemented => String::from_str("Not implemented"),
            McpError::TransportError(msg) => String::from_str("Transport error: ").concat(
                msg.as_str(),
            ),
        }
    }

    /// The number under which the error travels, as JSON-RPC numbers them: a
    /// request that nothing answers counts as an unknown method, a failed
    /// transport as an internal error.
    pub open spec fn number(&self) -> int {
        match self {
            McpError::ParseError(_) => -32700,
            McpError::InvalidRequest(_) => -32600,
            McpError::MethodNotFound(_) => -32601,
            McpError::NotImplemented => -32601,
            McpError::InvalidParams(_) => -32602,
            McpError::InternalError(_) => -32603,
            McpError::TransportError(_) => -32603,
        }
    }

    /// The number under which the error travels.
    pub fn code(&self) -> (r: i32)
        ensures
            r == self.number(),
    {
        match self {
            McpError::ParseError(_) => -32700,
            McpError::InvalidRequest(_) => -32600,
            McpError::MethodNotFound(_) => -32601,
            McpError::NotImplemented => -32601,
            McpError::InvalidParams(_) => -32602,
            McpError::InternalError(_) => -32603,
            McpError::TransportError(_) => -32603,
        }
    }
}

} // verus!
