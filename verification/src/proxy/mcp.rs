//! Tool servers: which server a tool belongs to, and how a declared server is connected.

use vstd::prelude::*;

use crate::proxy::errors::{ErrorView, ProxyError};
use crate::scan;
use crate::string_map;
use crate::string_map::StringMap;
use crate::text;

verus! {

/// The server that a tool's name names: `mcp__server__tool`.
pub open spec fn server_of(tool: Seq<char>) -> Option<Seq<char>> {
    match scan::cut_at(tool, "__"@) {
        Some((scheme, rest)) => if scheme == "mcp"@ {
            match scan::cut_at(rest, "__"@) {
                Some((server, _)) => Some(server),
                None => None,
            }
        } else {
            None
        },
        None => None,
    }
}

/// The server that a tool's name names.
pub fn tool_server(tool_name: &str) -> (server: Option<String>)
    ensures
        text::opt_view(server) == server_of(tool_name@),
{
    match scan::split_once(tool_name, "__") {
        Some((scheme, rest)) => if text::str_eq(scheme.as_str(), "mcp") {
            match scan::split_once(rest.as_str(), "__") {
                Some((server, _)) => Some(server),
                None => None,
            }
        } else {
            None
        },
        None => None,
    }
}

/// A call of a tool is refused where its name names a server that is not connected.
pub fn handle_mcp_tool_call(tool_name: &str, connected: bool) -> (r: Result<(), ProxyError>)
    ensures
        match (server_of(tool_name@), r) {
            (Some(server), Err(e)) => !connected && e@ == ErrorView::InvalidBody(
                "MCP server '"@ + server + "' is not connected"@,
            ),
            (Some(_), Ok(_)) => connected,
            (None, Ok(_)) => true,
            (None, Err(_)) => false,
        },
{
    match tool_server(tool_name) {
        Some(server) => if connected {
            Ok(())
        } else {
            let mut message = "MCP server '".to_owned();
            message.append(server.as_str());
            message.append("' is not connected");
            Err(ProxyError::InvalidBody(message))
        },
        None => Ok(()),
    }
}

/// The error of a tool call that failed.
pub fn tool_call_failed(error: &str) -> (e: ProxyError)
    ensures
        e@ == ErrorView::InvalidBody("MCP tool call failed: "@ + error@),
{
    let mut message = "MCP tool call failed: ".to_owned();
    message.append(error);
    ProxyError::InvalidBody(message)
}

/// A tool server that a plugin declares.
#[derive(Debug)]
pub struct DeclaredServer {
    pub name: String,
    pub transport: String,
    pub command: Option<String>,
    pub args: Vec<String>,
    pub env: StringMap<String>,
    pub url: Option<String>,
    pub headers: StringMap<String>,
    pub headers_helper: Option<String>,
    /// How long a call may take, in milliseconds.
    pub timeout: Option<u64>,
    pub always_load: Option<bool>,
}

/// What is to be said about a declaration.
#[derive(Debug, Clone, Copy, PartialEq, Eq, Structural)]
pub enum ConnectWarning {
    /// The hint to load the tools at once has no effect: they are always loaded at once.
    AlwaysLoadIgnored,
    /// A server that is spawned has no use for HTTP headers.
    HeadersIgnored,
    /// The transport is not known.
    UnknownTransport,
}

/// How a server is connected.
#[derive(Debug)]
pub enum Connection {
    /// Spawned, and spoken to over its pipes.
    Stdio { command: String, args: Vec<String>, env: StringMap<String>, timeout: Option<u64> },
    /// Reached over HTTP.
    Http {
        url: String,
        headers: StringMap<String>,
        headers_helper: Option<String>,
        timeout: Option<u64>,
    },
}

/// What a connection says.
pub enum ConnectionView {
    Stdio {
        command: Seq<char>,
        args: Seq<Seq<char>>,
        env: Map<Seq<char>, Seq<char>>,
        timeout: Option<u64>,
    },
    Http {
        url: Seq<char>,
        headers: Map<Seq<char>, Seq<char>>,
        headers_helper: Option<Seq<char>>,
        timeout: Option<u64>,
    },
}

impl View for Connection {
    type V = ConnectionView;

    open spec fn view(&self) -> ConnectionView {
        match self {
            Connection::Stdio { command, args, env, timeout } => ConnectionView::Stdio {
                command: command@,
                args: text::views(args@),
                env: string_map::text_map(env@),
                timeout: *timeout,
            },
            Connection::Http { url, headers, headers_helper, timeout } => ConnectionView::Http {
                url: url@,
                headers: string_map::text_map(headers@),
                headers_helper: text::opt_view(*headers_helper),
                timeout: *timeout,
            },
        }
    }
}

/// What a connection that may be missing says.
pub open spec fn connection_view(c: Option<Connection>) -> Option<ConnectionView> {
    match c {
        Some(c) => Some(c@),
        None => None,
    }
}

/// How a declared server is connected. One without a command or without an address is passed
/// over, and so is one of a transport that is not known.
pub open spec fn connection_of(server: DeclaredServer) -> Option<ConnectionView> {
    if server.transport@ == "stdio"@ {
        match server.command {
            Some(command) => Some(
                ConnectionView::Stdio {
                    command: command@,
                    args: text::views(server.args@),
                    env: string_map::text_map(server.env@),
                    timeout: server.timeout,
                },
            ),
            None => None,
        }
    } else if server.transport@ == "http"@ {
        match server.url {
            Some(url) => Some(
                ConnectionView::Http {
                    url: url@,
                    headers: string_map::text_map(server.headers@),
                    headers_helper: text::opt_view(server.headers_helper),
                    timeout: server.timeout,
                },
            ),
            None => None,
        }
    } else {
        None
    }
}

/// What is to be said about a declared server.
pub open spec fn warnings_of(server: DeclaredServer) -> Seq<ConnectWarning> {
    let none = Seq::<ConnectWarning>::empty();
    if server.transport@ == "stdio"@ {
        let loads = if server.always_load is Some {
            none.push(ConnectWarning::AlwaysLoadIgnored)
        } else {
            none
        };
        if server.headers@ != Map::<Seq<char>, String>::empty() || server.headers_helper is Some {
            loads.push(ConnectWarning::HeadersIgnored)
        } else {
            loads
        }
    } else if server.transport@ == "http"@ {
        if server.url is Some && server.always_load is Some {
            none.push(ConnectWarning::AlwaysLoadIgnored)
        } else {
            none
        }
    } else {
        none.push(ConnectWarning::UnknownTransport)
    }
}

/// How a declared server is connected, and what is to be said about it.
pub fn connection_plan(server: &DeclaredServer) -> (plan: (Vec<ConnectWarning>, Option<Connection>))
    ensures
        plan.0@ == warnings_of(*server),
        connection_view(plan.1) == connection_of(*server),
{
    let mut warnings: Vec<ConnectWarning> = Vec::new();
    if text::str_eq(server.transport.as_str(), "stdio") {
        if server.always_load.is_some() {
            warnings.push(ConnectWarning::AlwaysLoadIgnored);
        }
        if !server.headers.is_empty() || server.headers_helper.is_some() {
            warnings.push(ConnectWarning::HeadersIgnored);
        }
        match &server.command {
            Some(command) => {
                let connection = Connection::Stdio {
                    command: command.clone(),
                    args: text::copy_strings(&server.args),
                    env: string_map::copy_text_map(&server.env),
                    timeout: server.timeout,
                };
                (warnings, Some(connection))
            },
            None => (warnings, None),
        }
    } else if text::str_eq(server.transport.as_str(), "http") {
        match &server.url {
            Some(url) => {
                if server.always_load.is_some() {
                    warnings.push(ConnectWarning::AlwaysLoadIgnored);
                }
                let connection = Connection::Http {
                    url: url.clone(),
                    headers: string_map::copy_text_map(&server.headers),
                    headers_helper: text::copy_opt(&server.headers_helper),
                    timeout: server.timeout,
                };
                (warnings, Some(connection))
            },
            None => (warnings, None),
        }
    } else {
        warnings.push(ConnectWarning::UnknownTransport);
        (warnings, None)
    }
}

/// The server of a tool is what stands between `mcp__` and the next `__`; a name of any other
/// make has none.
pub proof fn tools_name_their_server(server: Seq<char>, tool: Seq<char>)
    requires
        !server.contains('_'),
    ensures
        server_of("mcp__"@ + server + "__"@ + tool) == Some(server),
        server_of(server) is None,
{
    reveal_strlit("mcp");
    reveal_strlit("__");
    reveal_strlit("mcp__");
    let name = "mcp__"@ + server + "__"@ + tool;
    let rest = server + "__"@ + tool;
    assert("mcp__"@ =~= "mcp"@ + "__"@);
    assert(name =~= "mcp"@ + "__"@ + rest);
    assert(!"mcp"@.contains('_'));
    lemma_cut_at_bars("mcp"@, rest);
    lemma_cut_at_bars(server, tool);
    scan::texts_are_cut_at_the_first_place(server, "__"@);
    if scan::occurs(server, "__"@) {
        let i = choose|i: int| scan::stands_at(server, "__"@, i);
        assert(server.subrange(i, i + 2)[0] == server[i]);
        assert(server[i] == '_');
    }
}

proof fn lemma_cut_at_bars(a: Seq<char>, b: Seq<char>)
    requires
        !a.contains('_'),
    ensures
        scan::cut_at(a + "__"@ + b, "__"@) == Some((a, b)),
{
    reveal_strlit("__");
    let s = a + "__"@ + b;
    scan::texts_are_cut_at_the_first_place(s, "__"@);
    scan::lemma_part_occurs(a, "__"@, b);
    let (x, y) = scan::cut_at(s, "__"@)->0;
    if x.len() < a.len() {
        assert(s[x.len() as int] == "__"@[0]);
        assert(a[x.len() as int] == '_');
    }
    if x.len() > a.len() {
        assert(s.subrange(a.len() as int, a.len() + 2int) =~= "__"@);
        assert(scan::stands_at(s, "__"@, a.len() as int));
    }
    assert(x =~= s.take(x.len() as int));
    assert(a =~= s.take(a.len() as int));
    assert(y =~= s.skip(x.len() + 2int));
    assert(b =~= s.skip(a.len() + 2int));
}

/// A server is connected to as it is declared: spawned with its command, its arguments and its
/// environment, or reached at its address with its headers. Without a command or an address,
/// and over any other transport, it is not.
pub proof fn servers_are_connected_as_declared(server: DeclaredServer)
    ensures
        server.transport@ == "stdio"@ ==> match (server.command, connection_of(server)) {
            (Some(c), Some(ConnectionView::Stdio { command, args, env, timeout })) => {
                &&& command == c@
                &&& args == text::views(server.args@)
                &&& env == string_map::text_map(server.env@)
                &&& timeout == server.timeout
            },
            (None, None) => true,
            _ => false,
        },
        server.transport@ == "http"@ ==> match (server.url, connection_of(server)) {
            (Some(u), Some(ConnectionView::Http { url, headers, headers_helper, timeout })) => {
                &&& url == u@
                &&& headers == string_map::text_map(server.headers@)
                &&& headers_helper == text::opt_view(server.headers_helper)
                &&& timeout == server.timeout
            },
            (None, None) => true,
            _ => false,
        },
        server.transport@ != "stdio"@ && server.transport@ != "http"@ ==> connection_of(server)
            is None && warnings_of(server) == seq![ConnectWarning::UnknownTransport],
{
    reveal_strlit("stdio");
    reveal_strlit("http");
    assert("stdio"@.len() != "http"@.len());
}

/// What a connection leaves unused is warned of, and nothing else.
pub proof fn unused_settings_are_warned_of(server: DeclaredServer)
    ensures
        server.transport@ == "stdio"@ ==> {
            &&& warnings_of(server).contains(ConnectWarning::AlwaysLoadIgnored)
                <==> server.always_load is Some
            &&& warnings_of(server).contains(ConnectWarning::HeadersIgnored) <==> (
            server.headers_helper is Some || server.headers@ != Map::<Seq<char>, String>::empty())
            &&& !warnings_of(server).contains(ConnectWarning::UnknownTransport)
        },
        server.transport@ == "http"@ ==> {
            &&& warnings_of(server).contains(ConnectWarning::AlwaysLoadIgnored)
                <==> server.always_load is Some && server.url is Some
            &&& !warnings_of(server).contains(ConnectWarning::HeadersIgnored)
            &&& !warnings_of(server).contains(ConnectWarning::UnknownTransport)
        },
{
    reveal_strlit("stdio");
    reveal_strlit("http");
    assert("stdio"@.len() != "http"@.len());
    let w = warnings_of(server);
    if w.len() > 0 {
        assert(w.contains(w[0]));
    }
    if w.len() > 1 {
        assert(w.contains(w[1]));
    }
}

} // verus!
