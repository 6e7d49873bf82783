//! The values the tool host exchanges with its client: tool results and
//! their content, server identity and capabilities, resources.
use vstd::prelude::*;

verus! {

/// A JSON-RPC request id.
#[derive(Debug, Clone, PartialEq, Eq)]
pub enum RequestId {
    String(String),
    Number(i64),
}

/// The name and version of an implementation.
#[derive(Debug, Clone)]
pub struct Implementation {
    pub name: String,
    pub version: String,
}

#[derive(Debug, Clone)]
pub struct PromptsCapability {
    pub list_changed: Option<bool>,
}

#[derive(Debug, Clone)]
pub struct ResourcesCapability {
    pub subscribe: Option<bool>,
    pub list_changed: Option<bool>,
}

#[derive(Debug, Clone)]
pub struct ToolsCapability {
    pub list_changed: Option<bool>,
}

/// The contents of a resource.
#[derive(Debug, Clone)]
pub struct ResourceContents {
    pub uri: String,
    pub mime_type: Option<String>,
    pub text: Option<String>,
    pub blob: Option<String>,
}

/// One piece of a tool's result.
#[derive(Debug, Clone)]
pub enum Content {
    Text { text: String },
    Image { data: String, mime_type: String },
    Resource { resource: ResourceContents },
}

impl Content {
    /// A piece of text.
    pub fn text(text: String) -> (r: Content)
        ensures
            r == (Content::Text { text }),
    {
        Content::Text { text }
    }
}

/// The result of a tool call: its content, and whether it reports a failure.
#[derive(Debug, Clone)]
pub struct CallToolResult {
    pub content: Vec<Content>,
    pub is_error: Option<bool>,
}

impl CallToolResult {
    /// A successful result with this content.
    pub fn success(content: Vec<Content>) -> (r: CallToolResult)
        ensures
            r.content == content,
            r.is_error == Some(false),
    {
        CallToolResult { content, is_error: Some(false) }
    }

    /// A failed result with this content.
    pub fn error(content: Vec<Content>) -> (r: CallToolResult)
        ensures
            r.content == content,
            r.is_error == Some(true),
    {
        CallToolResult { content, is_error: Some(true) }
    }

    /// A successful result made of one piece of text.
    pub fn text(text: String) -> (r: CallToolResult)
        ensures
            r.content@ == seq![Content::Text { text }],
            r.is_error == Some(false),
    {
        let mut v: Vec<Content> = Vec::new();
        v.push(Content::text(text));
        CallToolResult::success(v)
    }

    /// A failed result made of one piece of text.
    pub fn error_text(text: String) -> (r: CallToolResult)
        ensures
            r.content@ == seq![Content::Text { text }],
            r.is_error == Some(true),
    {
        let mut v: Vec<Content> = Vec::new();
        v.push(Content::text(text));
        CallToolResult::error(v)
    }
}

/// A resource the host offers.
#[derive(Debug, Clone)]
pub struct Resource {
    pub uri: String,
    pub name: String,
    pub description: Option<String>,
    pub mime_type: Option<String>,
}

/// A page of resources.
#[derive(Debug, Clone)]
pub struct ListResourcesResult {
    pub resources: Vec<Resource>,
    pub next_cursor: Option<String>,
}

} // verus!
