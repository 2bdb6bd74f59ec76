//! MCP services: how to reach them, and what a discovery run found on them.
use vstd::prelude::*;

verus! {

/// How an MCP service is reached.
#[derive(Debug, Clone, Copy, PartialEq, Eq, Structural)]
pub enum McpTransportType {
    /// A child process spoken to over its standard input and output.
    Stdio,
    /// An HTTP endpoint.
    StreamableHttp,
}

impl Default for McpTransportType {
    fn default() -> (r: McpTransportType)
        ensures
            r == McpTransportType::Stdio,
    {
        McpTransportType::Stdio
    }
}

/// A tool the service offers, with the user's choices for it.
#[derive(Debug, Clone, Default)]
pub struct McpDiscoveredTool {
    pub name: String,
    pub title: String,
    pub description: String,
    /// The tool's input schema, as JSON text.
    pub input_schema: String,
    pub enabled: bool,
    pub auto_approve: bool,
}

pub ghost struct ToolView {
    pub name: Seq<char>,
    pub title: Seq<char>,
    pub description: Seq<char>,
    pub input_schema: Seq<char>,
    pub enabled: bool,
    pub auto_approve: bool,
}

impl View for McpDiscoveredTool {
    type V = ToolView;

    open spec fn view(&self) -> ToolView {
        ToolView {
            name: self.name@,
            title: self.title@,
            description: self.description@,
            input_schema: self.input_schema@,
            enabled: self.enabled,
            auto_approve: self.auto_approve,
        }
    }
}

impl McpDiscoveredTool {
    pub fn copy(&self) -> (r: McpDiscoveredTool)
        ensures
            r@ == self@,
    {
        McpDiscoveredTool {
            name: self.name.clone(),
            title: self.title.clone(),
            description: self.description.clone(),
            input_schema: self.input_schema.clone(),
            enabled: self.enabled,
            auto_approve: self.auto_approve,
        }
    }
}

/// An argument of a prompt.
#[derive(Debug, Clone, Default)]
pub struct McpPromptArgument {
    pub name: String,
    pub title: String,
    pub description: String,
    pub required: bool,
}

/// A prompt the service offers.
#[derive(Debug, Clone, Default)]
pub struct McpDiscoveredPrompt {
    pub name: String,
    pub title: String,
    pub description: String,
    pub arguments: Vec<McpPromptArgument>,
}

/// A resource the service offers.
#[derive(Debug, Clone, Default)]
pub struct McpDiscoveredResource {
    pub uri: String,
    pub name: String,
    pub title: String,
    pub description: String,
    pub mime_type: String,
}

/// A resource template the service offers.
#[derive(Debug, Clone, Default)]
pub struct McpDiscoveredResourceTemplate {
    pub uri_template: String,
    pub name: String,
    pub title: String,
    pub description: String,
    pub mime_type: String,
}

/// What a discovery run found.
#[derive(Debug, Clone, Default)]
pub struct McpServiceDiscovery {
    pub tested_at: String,
    pub server_name: String,
    pub server_version: String,
    pub instructions: String,
    pub supports_tools: bool,
    pub supports_prompts: bool,
    pub supports_resources: bool,
    pub tools: Vec<McpDiscoveredTool>,
    pub prompts: Vec<McpDiscoveredPrompt>,
    pub resources: Vec<McpDiscoveredResource>,
    pub resource_templates: Vec<McpDiscoveredResourceTemplate>,
}

pub ghost struct ArgumentView {
    pub name: Seq<char>,
    pub title: Seq<char>,
    pub description: Seq<char>,
    pub required: bool,
}

impl View for McpPromptArgument {
    type V = ArgumentView;

    open spec fn view(&self) -> ArgumentView {
        ArgumentView { name: self.name@, title: self.title@, description: self.description@, required: self.required }
    }
}

pub ghost struct PromptView {
    pub name: Seq<char>,
    pub title: Seq<char>,
    pub description: Seq<char>,
    pub arguments: Seq<ArgumentView>,
}

impl View for McpDiscoveredPrompt {
    type V = PromptView;

    open spec fn view(&self) -> PromptView {
        PromptView {
            name: self.name@,
            title: self.title@,
            description: self.description@,
            arguments: Seq::new(self.arguments@.len(), |i: int| self.arguments@[i]@),
        }
    }
}

/// Plain content of a resource or a resource template: where it is, and how it is named.
pub ghost struct ResourceView {
    pub uri: Seq<char>,
    pub name: Seq<char>,
    pub title: Seq<char>,
    pub description: Seq<char>,
    pub mime_type: Seq<char>,
}

impl View for McpDiscoveredResource {
    type V = ResourceView;

    open spec fn view(&self) -> ResourceView {
        ResourceView {
            uri: self.uri@,
            name: self.name@,
            title: self.title@,
            description: self.description@,
            mime_type: self.mime_type@,
        }
    }
}

impl View for McpDiscoveredResourceTemplate {
    type V = ResourceView;

    open spec fn view(&self) -> ResourceView {
        ResourceView {
            uri: self.uri_template@,
            name: self.name@,
            title: self.title@,
            description: self.description@,
            mime_type: self.mime_type@,
        }
    }
}

pub ghost struct DiscoveryView {
    pub tested_at: Seq<char>,
    pub server_name: Seq<char>,
    pub server_version: Seq<char>,
    pub instructions: Seq<char>,
    pub supports_tools: bool,
    pub supports_prompts: bool,
    pub supports_resources: bool,
    pub tools: Seq<ToolView>,
    pub prompts: Seq<PromptView>,
    pub resources: Seq<ResourceView>,
    pub resource_templates: Seq<ResourceView>,
}

impl View for McpServiceDiscovery {
    type V = DiscoveryView;

    open spec fn view(&self) -> DiscoveryView {
        DiscoveryView {
            tested_at: self.tested_at@,
            server_name: self.server_name@,
            server_version: self.server_version@,
            instructions: self.instructions@,
            supports_tools: self.supports_tools,
            supports_prompts: self.supports_prompts,
            supports_resources: self.supports_resources,
            tools: Seq::new(self.tools@.len(), |i: int| self.tools@[i]@),
            prompts: Seq::new(self.prompts@.len(), |i: int| self.prompts@[i]@),
            resources: Seq::new(self.resources@.len(), |i: int| self.resources@[i]@),
            resource_templates: Seq::new(self.resource_templates@.len(), |i: int| self.resource_templates@[i]@),
        }
    }
}

fn copy_arguments(v: &Vec<McpPromptArgument>) -> (r: Vec<McpPromptArgument>)
    ensures
        r@.len() == v@.len(),
        forall|i: int| 0 <= i < v@.len() ==> #[trigger] r@[i]@ == v@[i]@,
{
    let mut r: Vec<McpPromptArgument> = Vec::new();
    let mut i: usize = 0;
    while i < v.len()
        invariant
            i <= v@.len(),
            r@.len() == i,
            forall|j: int| 0 <= j < i ==> #[trigger] r@[j]@ == v@[j]@,
        decreases v@.len() - i,
    {
        let a = &v[i];
        r.push(McpPromptArgument { name: a.name.clone(), title: a.title.clone(), description: a.description.clone(), required: a.required });
        i += 1;
    }
    r
}

impl McpServiceDiscovery {
    /// A field-by-field copy.
    pub fn copy(&self) -> (r: McpServiceDiscovery)
        ensures
            r@ == self@,
    {
        let mut tools: Vec<McpDiscoveredTool> = Vec::new();
        let mut i: usize = 0;
        while i < self.tools.len()
            invariant
                i <= self.tools@.len(),
                tools@.len() == i,
                forall|j: int| 0 <= j < i ==> #[trigger] tools@[j]@ == self.tools@[j]@,
            decreases self.tools@.len() - i,
        {
            tools.push(self.tools[i].copy());
            i += 1;
        }
        let mut prompts: Vec<McpDiscoveredPrompt> = Vec::new();
        let mut i: usize = 0;
        while i < self.prompts.len()
            invariant
                i <= self.prompts@.len(),
                prompts@.len() == i,
                forall|j: int| 0 <= j < i ==> #[trigger] prompts@[j]@ == self.prompts@[j]@,
            decreases self.prompts@.len() - i,
        {
            let p = &self.prompts[i];
            let arguments = copy_arguments(&p.arguments);
            let q = McpDiscoveredPrompt { name: p.name.clone(), title: p.title.clone(), description: p.description.clone(), arguments };
            assert(q@.arguments =~= p@.arguments);
            prompts.push(q);
            i += 1;
        }
        let mut resources: Vec<McpDiscoveredResource> = Vec::new();
        let mut i: usize = 0;
        while i < self.resources.len()
            invariant
                i <= self.resources@.len(),
                resources@.len() == i,
                forall|j: int| 0 <= j < i ==> #[trigger] resources@[j]@ == self.resources@[j]@,
            decreases self.resources@.len() - i,
        {
            let x = &self.resources[i];
            resources.push(McpDiscoveredResource { uri: x.uri.clone(), name: x.name.clone(), title: x.title.clone(), description: x.description.clone(), mime_type: x.mime_type.clone() });
            i += 1;
        }
        let mut templates: Vec<McpDiscoveredResourceTemplate> = Vec::new();
        let mut i: usize = 0;
        while i < self.resource_templates.len()
            invariant
                i <= self.resource_templates@.len(),
                templates@.len() == i,
                forall|j: int| 0 <= j < i ==> #[trigger] templates@[j]@ == self.resource_templates@[j]@,
            decreases self.resource_templates@.len() - i,
        {
            let x = &self.resource_templates[i];
            templates.push(McpDiscoveredResourceTemplate { uri_template: x.uri_template.clone(), name: x.name.clone(), title: x.title.clone(), description: x.description.clone(), mime_type: x.mime_type.clone() });
            i += 1;
        }
        let r = McpServiceDiscovery {
            tested_at: self.tested_at.clone(),
            server_name: self.server_name.clone(),
            server_version: self.server_version.clone(),
            instructions: self.instructions.clone(),
            supports_tools: self.supports_tools,
            supports_prompts: self.supports_prompts,
            supports_resources: self.supports_resources,
            tools,
            prompts,
            resources,
            resource_templates: templates,
        };
        assert(r@.tools =~= self@.tools);
        assert(r@.prompts =~= self@.prompts);
        assert(r@.resources =~= self@.resources);
        assert(r@.resource_templates =~= self@.resource_templates);
        r
    }
}

pub open spec fn discovery_view(d: Option<McpServiceDiscovery>) -> Option<DiscoveryView> {
    match d {
        Some(x) => Some(x@),
        None => None,
    }
}

/// An MCP service as configured by the user.
#[derive(Debug, Clone)]
pub struct McpService {
    pub id: String,
    pub name: String,
    pub description: String,
    pub enabled: bool,
    pub transport_type: McpTransportType,
    pub command: String,
    /// Command arguments, one per line.
    pub args: String,
    /// Environment variables, one `KEY=value` per line.
    pub env: String,
    pub url: String,
    pub long_running: bool,
    pub timeout_seconds: u64,
    pub discovery: Option<McpServiceDiscovery>,
}

/// Plain content of a service.
pub ghost struct ServiceView {
    pub id: Seq<char>,
    pub name: Seq<char>,
    pub description: Seq<char>,
    pub enabled: bool,
    pub transport_type: McpTransportType,
    pub command: Seq<char>,
    pub args: Seq<char>,
    pub env: Seq<char>,
    pub url: Seq<char>,
    pub long_running: bool,
    pub timeout_seconds: u64,
    pub discovery: Option<DiscoveryView>,
}

impl View for McpService {
    type V = ServiceView;

    open spec fn view(&self) -> ServiceView {
        ServiceView {
            id: self.id@,
            name: self.name@,
            description: self.description@,
            enabled: self.enabled,
            transport_type: self.transport_type,
            command: self.command@,
            args: self.args@,
            env: self.env@,
            url: self.url@,
            long_running: self.long_running,
            timeout_seconds: self.timeout_seconds,
            discovery: discovery_view(self.discovery),
        }
    }
}

/// Whether a service or tool is enabled when storage does not say.
pub fn default_true() -> (r: bool)
    ensures
        r,
{
    true
}

/// Timeout of a service when storage does not give one.
pub fn default_timeout_seconds() -> (r: u64)
    ensures
        r == 60,
{
    60
}

impl Default for McpService {
    fn default() -> (r: McpService)
        ensures
            r@ == (ServiceView {
                id: Seq::empty(),
                name: Seq::empty(),
                description: Seq::empty(),
                enabled: true,
                transport_type: McpTransportType::Stdio,
                command: Seq::empty(),
                args: Seq::empty(),
                env: Seq::empty(),
                url: Seq::empty(),
                long_running: false,
                timeout_seconds: 60,
                discovery: None,
            }),
    {
        McpService {
            id: String::new(),
            name: String::new(),
            description: String::new(),
            enabled: default_true(),
            transport_type: McpTransportType::default(),
            command: String::new(),
            args: String::new(),
            env: String::new(),
            url: String::new(),
            long_running: false,
            timeout_seconds: default_timeout_seconds(),
            discovery: None,
        }
    }
}

} // verus!
