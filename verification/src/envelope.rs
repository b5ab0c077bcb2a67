//! Stable envelope metadata and error categories shared by the CLI and MCP
//! surfaces, plus the decisions of the MCP stdio protocol: message framing
//! headers and method routing.
use vstd::prelude::*;

use crate::text::{chars_of, owned, parse_usize, parse_usize_spec, is_lower, lower, trim};
use crate::text;

verus! {

/// Stable schema version for JSON envelopes shared by CLI and MCP surfaces.
pub const JSON_SCHEMA_VERSION: u32 = 1;

/// Stable categories for structured JSON and MCP errors.
#[derive(Debug, Clone, Copy, PartialEq, Eq, Structural)]
pub enum ErrorCategory {
    Validation,
    UnsupportedCapability,
    MissingPermission,
    TargetNotFound,
    PlatformAdapterFailure,
    ExecutionFailure,
    ConfigError,
    SerializationError,
    /// Operation exceeded a configured deadline.
    Timeout,
}

/// Stable metadata attached to every machine-readable response envelope.
#[derive(Debug, Clone, PartialEq, Eq)]
pub struct EnvelopeMeta {
    pub schema_version: u32,
    pub command: Option<String>,
}

impl Default for EnvelopeMeta {
    fn default() -> (meta: Self)
        ensures
            meta.schema_version == JSON_SCHEMA_VERSION,
            meta.command is None,
    {
        EnvelopeMeta { schema_version: JSON_SCHEMA_VERSION, command: None }
    }
}

impl EnvelopeMeta {
    /// Metadata naming the command that produced the envelope.
    pub fn for_command(command: &str) -> (meta: Self)
        ensures
            meta.schema_version == JSON_SCHEMA_VERSION,
            meta.command matches Some(c) && c@ == command@,
    {
        EnvelopeMeta { schema_version: JSON_SCHEMA_VERSION, command: Some(owned(command)) }
    }
}

/// Metadata describing the MCP stdio server.
#[derive(Debug, Clone, PartialEq, Eq)]
pub struct StdioServerConfig {
    pub server_name: String,
    pub server_version: String,
}

/// What one header line of an MCP frame contributes.
#[derive(Debug, Clone, Copy, PartialEq, Eq)]
pub enum HeaderLine {
    /// The blank line that ends the headers.
    End,
    /// A `Content-Length` header with its value.
    ContentLength(usize),
    /// A `Content-Length` header whose value is not a decimal length.
    InvalidContentLength,
    /// Any other header, which is ignored.
    Other,
}

/// `line` without its trailing `\r` and `\n` characters.
pub open spec fn strip_line_end(line: Seq<char>) -> Seq<char>
    decreases line.len(),
{
    if line.len() > 0 && (line.last() == '\r' || line.last() == '\n') {
        strip_line_end(line.drop_last())
    } else {
        line
    }
}

/// The meaning of one header line, as read by the MCP framing reader.
pub open spec fn header_line_spec(line: Seq<char>) -> HeaderLine {
    if line == seq!['\r', '\n'] || line == seq!['\n'] {
        HeaderLine::End
    } else {
        let t = strip_line_end(line);
        if text::has_char(t, ':') {
            let i = choose|i: int| 0 <= i < t.len() && t[i] == ':' && forall|j: int| 0 <= j < i ==> t[j] != ':';
            if lower(t.take(i)) == "content-length"@ {
                match parse_usize_spec(trim(t.skip(i + 1))) {
                    Some(n) => HeaderLine::ContentLength(n),
                    None => HeaderLine::InvalidContentLength,
                }
            } else {
                HeaderLine::Other
            }
        } else {
            HeaderLine::Other
        }
    }
}

/// Classifies one header line of an MCP frame.
pub fn classify_header_line(line: &str) -> (r: HeaderLine)
    ensures
        r == header_line_spec(line@),
{
    let cs = chars_of(line);
    let n = cs.len();
    if (n == 2 && cs[0] == '\r' && cs[1] == '\n') || (n == 1 && cs[0] == '\n') {
        assert(n == 2 ==> cs@ =~= seq!['\r', '\n']);
        assert(n == 1 ==> cs@ =~= seq!['\n']);
        return HeaderLine::End;
    }
    proof {
        if line@ == seq!['\r', '\n'] {
            assert(cs@[0] == '\r' && cs@[1] == '\n');
        }
        if line@ == seq!['\n'] {
            assert(cs@[0] == '\n');
        }
    }
    let mut end: usize = n;
    assert(cs@.take(n as int) =~= cs@);
    while end > 0 && (cs[end - 1] == '\r' || cs[end - 1] == '\n')
        invariant
            end <= n == cs.len(),
            strip_line_end(cs@) == strip_line_end(cs@.take(end as int)),
        decreases end,
    {
        assert(cs@.take(end as int).drop_last() =~= cs@.take(end - 1));
        end -= 1;
    }
    let t = text::slice_vec(cs.as_slice(), 0, end);
    assert(t@ =~= cs@.take(end as int));
    assert(strip_line_end(t@) == t@);
    assert(strip_line_end(line@) == t@);
    match text::find_char(t.as_slice(), ':') {
        Some(i) => {
            proof {
                assert(text::has_char(t@, ':'));
                let k = choose|k: int| 0 <= k < t@.len() && t@[k] == ':' && forall|j: int| 0 <= j < k ==> t@[j] != ':';
                if k < i {
                } else if k > i {
                }
                assert(k == i);
            }
            let name = text::slice_vec(t.as_slice(), 0, i);
            assert(name@ =~= t@.take(i as int));
            if is_lower(name.as_slice(), "content-length") {
                let value = text::slice_vec(t.as_slice(), i + 1, t.len());
                assert(value@ =~= t@.skip(i + 1));
                let trimmed = text::trimmed(value.as_slice());
                match parse_usize(trimmed.as_slice()) {
                    Some(v) => HeaderLine::ContentLength(v),
                    None => HeaderLine::InvalidContentLength,
                }
            } else {
                HeaderLine::Other
            }
        },
        None => HeaderLine::Other,
    }
}

/// The response an MCP request calls for.
#[derive(Debug, Clone, Copy, PartialEq, Eq)]
pub enum McpRoute {
    /// Answer with the server's name, version and capabilities.
    Initialize,
    /// Answer with an empty result.
    Ping,
    /// Answer with the registered tools.
    ListTools,
    /// Call the named tool and answer with its envelope.
    CallTool,
    /// Answer with a "method not found" error.
    UnsupportedMethod,
    /// Send nothing back.
    Silent,
}

/// The route of a request with the given method; requests without an `id`
/// are notifications and are never answered, except that a tool call is still
/// carried out.
pub open spec fn route_spec(method: Seq<char>, has_id: bool) -> McpRoute {
    if method == "notifications/initialized"@ {
        McpRoute::Silent
    } else if method == "tools/call"@ {
        McpRoute::CallTool
    } else if !has_id {
        McpRoute::Silent
    } else if method == "initialize"@ {
        McpRoute::Initialize
    } else if method == "ping"@ {
        McpRoute::Ping
    } else if method == "tools/list"@ {
        McpRoute::ListTools
    } else {
        McpRoute::UnsupportedMethod
    }
}

/// Decides how an MCP request is answered.
pub fn route_request(method: &str, has_id: bool) -> (r: McpRoute)
    ensures
        r == route_spec(method@, has_id),
{
    let m = chars_of(method);
    if text::is(m.as_slice(), "notifications/initialized") {
        McpRoute::Silent
    } else if text::is(m.as_slice(), "tools/call") {
        McpRoute::CallTool
    } else if !has_id {
        McpRoute::Silent
    } else if text::is(m.as_slice(), "initialize") {
        McpRoute::Initialize
    } else if text::is(m.as_slice(), "ping") {
        McpRoute::Ping
    } else if text::is(m.as_slice(), "tools/list") {
        McpRoute::ListTools
    } else {
        McpRoute::UnsupportedMethod
    }
}

/// JSON-RPC error code for an unsupported method.
pub const METHOD_NOT_FOUND: i32 = -32601;

/// MCP protocol version announced by `initialize`.
pub fn protocol_version() -> (r: &'static str)
    ensures
        r@ == "2024-11-05"@,
{
    "2024-11-05"
}

} // verus!
