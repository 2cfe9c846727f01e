//! What a turn shows: agent messages and tool calls.

use vstd::prelude::*;
use crate::choice::{RequestUserInputArgs, RequestUserInputArgsView};
use crate::json::{self, document, documents, Json};
use crate::model::contents;
use crate::text::{copied, optional};

verus! {

/// How far a tool call has come.
#[derive(Clone, Copy, Debug, PartialEq, Eq, Structural)]
pub enum McpToolCallStatus {
    InProgress,
    Completed,
}

/// What a tool call returned.
pub struct CallToolResult {
    pub content: Vec<serde_json::Value>,
    pub structured_content: Option<serde_json::Value>,
    pub is_error: Option<bool>,
    pub meta: Option<serde_json::Value>,
}

pub struct CallToolResultView {
    pub content: Seq<Json>,
    pub structured_content: Option<Json>,
    pub is_error: Option<bool>,
    pub meta: Option<Json>,
}

/// The document in a value that may be missing.
pub open spec fn optional_document(value: Option<serde_json::Value>) -> Option<Json> {
    match value {
        Some(value) => Some(document(value)),
        None => None,
    }
}

impl View for CallToolResult {
    type V = CallToolResultView;

    open spec fn view(&self) -> CallToolResultView {
        CallToolResultView {
            content: documents(self.content@),
            structured_content: optional_document(self.structured_content),
            is_error: self.is_error,
            meta: optional_document(self.meta),
        }
    }
}

/// A tool call, with its duration in milliseconds.
pub struct McpToolCallItem {
    pub id: String,
    pub server: String,
    pub tool: String,
    pub arguments: serde_json::Value,
    pub connector_id: Option<String>,
    pub mcp_app_resource_uri: Option<String>,
    pub link_id: Option<String>,
    pub app_name: Option<String>,
    pub action_name: Option<String>,
    pub plugin_id: Option<String>,
    pub read_only_hint: Option<bool>,
    pub status: McpToolCallStatus,
    pub result: Option<CallToolResult>,
    pub error: Option<String>,
    pub duration_ms: Option<u64>,
}

pub struct McpToolCallItemView {
    pub id: Seq<char>,
    pub server: Seq<char>,
    pub tool: Seq<char>,
    pub arguments: Json,
    pub connector_id: Option<Seq<char>>,
    pub mcp_app_resource_uri: Option<Seq<char>>,
    pub link_id: Option<Seq<char>>,
    pub app_name: Option<Seq<char>>,
    pub action_name: Option<Seq<char>>,
    pub plugin_id: Option<Seq<char>>,
    pub read_only_hint: Option<bool>,
    pub status: McpToolCallStatus,
    pub result: Option<CallToolResultView>,
    pub error: Option<Seq<char>>,
    pub duration_ms: Option<u64>,
}

impl View for McpToolCallItem {
    type V = McpToolCallItemView;

    open spec fn view(&self) -> McpToolCallItemView {
        McpToolCallItemView {
            id: self.id@,
            server: self.server@,
            tool: self.tool@,
            arguments: document(self.arguments),
            connector_id: optional(self.connector_id),
            mcp_app_resource_uri: optional(self.mcp_app_resource_uri),
            link_id: optional(self.link_id),
            app_name: optional(self.app_name),
            action_name: optional(self.action_name),
            plugin_id: optional(self.plugin_id),
            read_only_hint: self.read_only_hint,
            status: self.status,
            result: match self.result {
                Some(result) => Some(result@),
                None => None,
            },
            error: optional(self.error),
            duration_ms: self.duration_ms,
        }
    }
}

/// One piece of an agent message.
pub enum AgentMessageContent {
    Text { text: String },
}

pub enum AgentMessageContentView {
    Text { text: Seq<char> },
}

impl View for AgentMessageContent {
    type V = AgentMessageContentView;

    open spec fn view(&self) -> AgentMessageContentView {
        match self {
            AgentMessageContent::Text { text } => AgentMessageContentView::Text { text: text@ },
        }
    }
}

/// A message of the agent.
pub struct AgentMessageItem {
    pub id: String,
    pub content: Vec<AgentMessageContent>,
    pub phase: Option<String>,
    pub memory_citation: Option<String>,
    pub delivery: Option<String>,
}

pub struct AgentMessageItemView {
    pub id: Seq<char>,
    pub content: Seq<AgentMessageContentView>,
    pub phase: Option<Seq<char>>,
    pub memory_citation: Option<Seq<char>>,
    pub delivery: Option<Seq<char>>,
}

impl View for AgentMessageItem {
    type V = AgentMessageItemView;

    open spec fn view(&self) -> AgentMessageItemView {
        AgentMessageItemView {
            id: self.id@,
            content: contents(self.content@),
            phase: optional(self.phase),
            memory_citation: optional(self.memory_citation),
            delivery: optional(self.delivery),
        }
    }
}

/// An entry of the turn's transcript.
pub enum TurnItem {
    AgentMessage(AgentMessageItem),
    McpToolCall(McpToolCallItem),
}

pub enum TurnItemView {
    AgentMessage(AgentMessageItemView),
    McpToolCall(McpToolCallItemView),
}

impl View for TurnItem {
    type V = TurnItemView;

    open spec fn view(&self) -> TurnItemView {
        match self {
            TurnItem::AgentMessage(item) => TurnItemView::AgentMessage(item@),
            TurnItem::McpToolCall(item) => TurnItemView::McpToolCall(item@),
        }
    }
}

/// Something for the surroundings of a turn to do.
pub enum Action {
    /// Show that an item has started.
    ItemStarted(TurnItem),
    /// Show that an item is complete.
    ItemCompleted(TurnItem),
    /// Write these characters to the sidecar.
    Send(String),
    /// Put a question to the user.
    AskUser { call_id: String, args: RequestUserInputArgs },
    /// Give up the sidecar process.
    DropSidecar,
}

pub enum ActionView {
    ItemStarted(TurnItemView),
    ItemCompleted(TurnItemView),
    Send(Seq<char>),
    AskUser { call_id: Seq<char>, args: RequestUserInputArgsView },
    DropSidecar,
}

impl View for Action {
    type V = ActionView;

    open spec fn view(&self) -> ActionView {
        match self {
            Action::ItemStarted(item) => ActionView::ItemStarted(item@),
            Action::ItemCompleted(item) => ActionView::ItemCompleted(item@),
            Action::Send(line) => ActionView::Send(line@),
            Action::AskUser { call_id, args } => ActionView::AskUser {
                call_id: call_id@,
                args: args@,
            },
            Action::DropSidecar => ActionView::DropSidecar,
        }
    }
}

/// A call of the Gong tool `tool` that has begun.
pub open spec fn begun(id: Seq<char>, tool: Seq<char>, arguments: Json) -> McpToolCallItemView {
    McpToolCallItemView {
        id,
        server: "gong"@,
        tool,
        arguments,
        connector_id: None,
        mcp_app_resource_uri: None,
        link_id: None,
        app_name: None,
        action_name: None,
        plugin_id: None,
        read_only_hint: Some(true),
        status: McpToolCallStatus::InProgress,
        result: None,
        error: None,
        duration_ms: None,
    }
}

/// A piece of text as tool output.
pub open spec fn text_output(text: Seq<char>) -> Json {
    Json::Object(Map::empty()).with("type"@, Json::Text("text"@)).with("text"@, Json::Text(text))
}

/// `item` once it has returned `detail`, everything else unchanged.
pub open spec fn completed(item: McpToolCallItemView, detail: Seq<char>) -> McpToolCallItemView {
    McpToolCallItemView {
        status: McpToolCallStatus::Completed,
        result: Some(
            CallToolResultView {
                content: seq![text_output(detail)],
                structured_content: None,
                is_error: Some(false),
                meta: None,
            },
        ),
        ..item
    }
}

/// An agent message that says `text`.
pub open spec fn message(id: Seq<char>, text: Seq<char>) -> TurnItemView {
    TurnItemView::AgentMessage(
        AgentMessageItemView {
            id,
            content: seq![AgentMessageContentView::Text { text }],
            phase: None,
            memory_citation: None,
            delivery: None,
        },
    )
}

/// What shows an agent message.
pub open spec fn message_shown(id: Seq<char>, text: Seq<char>) -> Seq<ActionView> {
    seq![
        ActionView::ItemStarted(message(id, text)),
        ActionView::ItemCompleted(message(id, text)),
    ]
}

/// What shows a tool call without arguments that is complete at once.
pub open spec fn tool_shown(id: Seq<char>, tool: Seq<char>, detail: Seq<char>) -> Seq<ActionView> {
    let item = begun(id, tool, Json::Object(Map::empty()));
    seq![
        ActionView::ItemStarted(TurnItemView::McpToolCall(item)),
        ActionView::ItemCompleted(TurnItemView::McpToolCall(completed(item, detail))),
    ]
}

/// A tool call that has begun, under the identifier `id`.
pub fn stage_item(id: String, tool: &str, arguments: serde_json::Value) -> (item: McpToolCallItem)
    ensures
        item@ == begun(id@, tool@, document(arguments)),
{
    McpToolCallItem {
        id,
        server: "gong".to_owned(),
        tool: tool.to_owned(),
        arguments,
        connector_id: None,
        mcp_app_resource_uri: None,
        link_id: None,
        app_name: None,
        action_name: None,
        plugin_id: None,
        read_only_hint: Some(true),
        status: McpToolCallStatus::InProgress,
        result: None,
        error: None,
        duration_ms: None,
    }
}

/// The tool call once it has returned `detail`.
pub fn complete_stage_item(item: McpToolCallItem, detail: &str) -> (done: McpToolCallItem)
    ensures
        done@ == completed(item@, detail@),
{
    let mut output = json::empty_object();
    json::put(&mut output, "type", json::string("text"));
    json::put(&mut output, "text", json::string(detail));
    let mut content: Vec<serde_json::Value> = Vec::new();
    content.push(output);
    assert(documents(content@) == seq![text_output(detail@)]);
    let mut done = item;
    done.status = McpToolCallStatus::Completed;
    done.result = Some(
        CallToolResult { content, structured_content: None, is_error: Some(false), meta: None },
    );
    done
}

fn copied_value(value: &Option<serde_json::Value>) -> (copy: Option<serde_json::Value>)
    ensures
        optional_document(copy) == optional_document(*value),
{
    match value {
        Some(value) => Some(value.clone()),
        None => None,
    }
}

impl CallToolResult {
    /// A copy of the result.
    pub fn copy(&self) -> (copy: CallToolResult)
        ensures
            copy@ == self@,
    {
        let mut content: Vec<serde_json::Value> = Vec::new();
        let mut i: usize = 0;
        while i < self.content.len()
            invariant
                i <= self.content@.len(),
                content@.len() == i,
                forall|j: int| 0 <= j < i ==> document(#[trigger] content@[j]) == document(self.content@[j]),
            decreases self.content@.len() - i,
        {
            content.push(self.content[i].clone());
            i = i + 1;
        }
        assert(documents(content@) == documents(self.content@));
        CallToolResult {
            content,
            structured_content: copied_value(&self.structured_content),
            is_error: self.is_error,
            meta: copied_value(&self.meta),
        }
    }
}

impl McpToolCallItem {
    /// A copy of the tool call.
    pub fn copy(&self) -> (copy: McpToolCallItem)
        ensures
            copy@ == self@,
    {
        McpToolCallItem {
            id: self.id.clone(),
            server: self.server.clone(),
            tool: self.tool.clone(),
            arguments: self.arguments.clone(),
            connector_id: copied(&self.connector_id),
            mcp_app_resource_uri: copied(&self.mcp_app_resource_uri),
            link_id: copied(&self.link_id),
            app_name: copied(&self.app_name),
            action_name: copied(&self.action_name),
            plugin_id: copied(&self.plugin_id),
            read_only_hint: self.read_only_hint,
            status: self.status,
            result: match &self.result {
                Some(result) => Some(result.copy()),
                None => None,
            },
            error: copied(&self.error),
            duration_ms: self.duration_ms,
        }
    }
}

fn message_item(id: &str, text: &str) -> (item: TurnItem)
    ensures
        item@ == message(id@, text@),
{
    let mut content: Vec<AgentMessageContent> = Vec::new();
    content.push(AgentMessageContent::Text { text: text.to_owned() });
    assert(contents(content@) == seq![AgentMessageContentView::Text { text: text@ }]);
    TurnItem::AgentMessage(
        AgentMessageItem {
            id: id.to_owned(),
            content,
            phase: None,
            memory_citation: None,
            delivery: None,
        },
    )
}

/// Adds what shows an agent message under the identifier `id`.
pub fn emit_agent_message(actions: &mut Vec<Action>, id: &str, text: &str)
    ensures
        contents(final(actions)@) == contents(old(actions)@) + message_shown(id@, text@),
{
    actions.push(Action::ItemStarted(message_item(id, text)));
    actions.push(Action::ItemCompleted(message_item(id, text)));
    assert(contents(actions@) == contents(old(actions)@) + message_shown(id@, text@));
}

/// Adds what shows a tool call that is complete at once, under the
/// identifier `id`.
pub fn emit_completed_tool(actions: &mut Vec<Action>, id: String, tool: &str, detail: &str)
    ensures
        contents(final(actions)@) == contents(old(actions)@) + tool_shown(id@, tool@, detail@),
{
    let item = stage_item(id, tool, json::empty_object());
    let started = item.copy();
    actions.push(Action::ItemStarted(TurnItem::McpToolCall(started)));
    let done = complete_stage_item(item, detail);
    actions.push(Action::ItemCompleted(TurnItem::McpToolCall(done)));
    assert(contents(actions@) == contents(old(actions)@) + tool_shown(id@, tool@, detail@));
}

/// A call that has begun is one of the Gong server under the given name, tool
/// and arguments, which only reads and has returned nothing yet.
pub proof fn law_begun_is_open(id: Seq<char>, tool: Seq<char>, arguments: Json)
    ensures
        begun(id, tool, arguments).id == id,
        begun(id, tool, arguments).server == "gong"@,
        begun(id, tool, arguments).tool == tool,
        begun(id, tool, arguments).arguments == arguments,
        begun(id, tool, arguments).connector_id is None,
        begun(id, tool, arguments).mcp_app_resource_uri is None,
        begun(id, tool, arguments).link_id is None,
        begun(id, tool, arguments).app_name is None,
        begun(id, tool, arguments).action_name is None,
        begun(id, tool, arguments).plugin_id is None,
        begun(id, tool, arguments).read_only_hint == Some(true),
        begun(id, tool, arguments).status == McpToolCallStatus::InProgress,
        begun(id, tool, arguments).result is None,
        begun(id, tool, arguments).error is None,
        begun(id, tool, arguments).duration_ms is None,
{
}

/// Completing a call keeps all of it but its status and its result, which is the
/// given text and no error.
pub proof fn law_completed_is_the_same_call(item: McpToolCallItemView, detail: Seq<char>)
    ensures
        ({
            let done = completed(item, detail);
            &&& done == McpToolCallItemView { status: done.status, result: done.result, ..item }
            &&& done.status == McpToolCallStatus::Completed
            &&& done.result is Some
            &&& done.result->0.content.len() == 1
            &&& done.result->0.content[0].field("type"@) == Json::Text("text"@)
            &&& done.result->0.content[0].field("text"@) == Json::Text(detail)
            &&& done.result->0.structured_content is None
            &&& done.result->0.is_error == Some(false)
            &&& done.result->0.meta is None
        }),
{
    reveal_strlit("type");
    reveal_strlit("text");
    assert("type"@[1] != "text"@[1]);
}

} // verus!
