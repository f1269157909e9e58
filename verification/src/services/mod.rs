//! Services that the rest of the program reaches through one registry: analytics, feature
//! flags and the tool servers that plugins declare.

use std::sync::Arc;

use vstd::prelude::*;

pub mod analytics;
pub mod auto_compactor;
pub mod background;
pub mod feature_flags;
pub mod lsp_diagnostics;
pub mod lsp_pool;
pub mod mcp_registry;
pub mod policy;
pub mod rate_limit_mock;
pub mod tool_executor;

pub use analytics::{AnalyticsEvent, AnalyticsSink, NoopAnalytics, TracingAnalytics};
pub use auto_compactor::{AutoCompactPolicy, AutoCompactor};
pub use background::{
    AgentSummaryJob, BackgroundJob, JobOutcome, JobScheduler, MemoryConsolidationJob,
};
pub use feature_flags::{FeatureFlagSource, StaticFlags};
pub use lsp_diagnostics::{
    DefaultDiagnosticInjector, Diagnostic, DiagnosticInjector, DiagnosticRegistry,
    DiagnosticSeverity, NoopDiagnosticInjector,
};
pub use lsp_pool::{ChildHandle, LspServerManager};
pub use mcp_registry::{McpRegistration, McpServerSpec, PluginMcpRegistry};
pub use policy::{EnterprisePolicy, PolicyDecision, PolicyError};
pub use rate_limit_mock::{MockRateLimit, RateLimitMock};

use crate::plugins::Plugin;

verus! {

/// Central service registry: handles on the services. A clone holds the same ones. The tool
/// servers that plugins declare change while the program runs: they stand in a
/// [`PluginMcpRegistry`] that all holders share, and that is handed in by whoever holds its
/// lock.
pub struct ServiceRegistry<A, F> {
    analytics: Arc<A>,
    flags: Arc<F>,
}

/// `Arc::clone`: another handle on the same value.
#[verifier::external_body]
fn share<T>(handle: &Arc<T>) -> (other: Arc<T>)
    ensures
        other == *handle,
{
    Arc::clone(handle)
}

impl ServiceRegistry<NoopAnalytics, StaticFlags> {
    /// All services wired to their no-op default.
    pub fn noop() -> (r: ServiceRegistry<NoopAnalytics, StaticFlags>)
        ensures
            r.flag_source()@.entries == Map::<Seq<char>, bool>::empty(),
            r.flag_source()@.environment == Map::<Seq<char>, Seq<char>>::empty(),
    {
        ServiceRegistry {
            analytics: Arc::new(NoopAnalytics),
            flags: Arc::new(StaticFlags::new()),
        }
    }
}

impl Default for ServiceRegistry<NoopAnalytics, StaticFlags> {
    fn default() -> (r: ServiceRegistry<NoopAnalytics, StaticFlags>)
        ensures
            r.flag_source()@.entries == Map::<Seq<char>, bool>::empty(),
            r.flag_source()@.environment == Map::<Seq<char>, Seq<char>>::empty(),
    {
        ServiceRegistry::noop()
    }
}

impl<A, F> Clone for ServiceRegistry<A, F> {
    fn clone(&self) -> (r: ServiceRegistry<A, F>)
        ensures
            r.sink() == self.sink(),
            r.flag_source() == self.flag_source(),
            r == *self,
    {
        ServiceRegistry { analytics: share(&self.analytics), flags: share(&self.flags) }
    }
}

impl<A, F> ServiceRegistry<A, F> {
    /// The analytics sink.
    pub closed spec fn sink(&self) -> A {
        *self.analytics
    }

    /// The feature-flag source.
    pub closed spec fn flag_source(&self) -> F {
        *self.flags
    }

    /// Registers every tool server that the plugins declare. The servers that a plugin
    /// declared before are replaced.
    pub fn wire_plugin_mcp_servers(&self, servers: &mut PluginMcpRegistry, plugins: &Vec<Plugin>)
        ensures
            final(servers)@ == mcp_registry::wired(old(servers)@, plugins@),
    {
        mcp_registry::wire_plugins(servers, plugins);
    }

    /// Every registered server.
    pub fn plugin_mcp_registrations(&self, servers: &PluginMcpRegistry) -> (out: Vec<
        McpRegistration,
    >)
        ensures
            mcp_registry::registrations_view(out@) == mcp_registry::flattened(
                servers@,
                servers.plugins(),
            ),
            servers.plugins().no_duplicates(),
            servers.plugins().to_set() == servers@.dom(),
    {
        servers.all()
    }

    /// Swaps the analytics sink.
    pub fn with_analytics<B>(self, sink: Arc<B>) -> (r: ServiceRegistry<B, F>)
        ensures
            r.sink() == *sink,
            r.flag_source() == self.flag_source(),
    {
        ServiceRegistry { analytics: sink, flags: self.flags }
    }

    /// Swaps the feature-flag source.
    pub fn with_flags<G>(self, flags: Arc<G>) -> (r: ServiceRegistry<A, G>)
        ensures
            r.sink() == self.sink(),
            r.flag_source() == *flags,
    {
        ServiceRegistry { analytics: self.analytics, flags }
    }

    /// Borrows the analytics sink.
    pub fn analytics(&self) -> (sink: &A)
        ensures
            *sink == self.sink(),
    {
        &*self.analytics
    }

    /// Borrows the feature-flag source.
    pub fn flags(&self) -> (flags: &F)
        ensures
            *flags == self.flag_source(),
    {
        &*self.flags
    }

    /// A handle on the analytics sink that outlives the registry.
    pub fn analytics_arc(&self) -> (sink: Arc<A>)
        ensures
            *sink == self.sink(),
    {
        share(&self.analytics)
    }

    /// A handle on the feature-flag source that outlives the registry.
    pub fn flags_arc(&self) -> (flags: Arc<F>)
        ensures
            *flags == self.flag_source(),
    {
        share(&self.flags)
    }
}

} // verus!
