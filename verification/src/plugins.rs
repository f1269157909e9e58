//! What the services read of a plugin.

use vstd::prelude::*;

use crate::string_map::StringMap;

verus! {

/// An MCP server that a plugin's manifest declares.
#[derive(Debug)]
pub struct McpServerConfig {
    /// Executable to spawn.
    pub command: Option<String>,
    /// Arguments to the executable.
    pub args: Vec<String>,
    /// Environment variables injected on spawn.
    pub env: StringMap<String>,
    /// `"stdio"` or `"http"`.
    pub transport: String,
    /// Endpoint URL.
    pub url: Option<String>,
}

/// A plugin: its id and the MCP servers it declares, by name.
#[derive(Debug)]
pub struct Plugin {
    pub id: String,
    pub mcp_configs: StringMap<McpServerConfig>,
}

} // verus!
