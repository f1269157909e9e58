//! Sessions: what is recorded of them, what they cost, what they are doing and how they
//! are kept.

pub mod audit;
pub mod manager;
pub mod pricing;
pub mod record;
pub mod state;
pub mod task;
pub mod task_laws;

pub use audit::AuditError;
pub use manager::{EndSessionError, SessionManager};
pub use pricing::{
    calculate_cost, calculate_cost_fast_mode, calculate_cost_full, calculate_cost_with_extras,
    calculate_cost_with_ttl, clear_unknown_model_cost, get_pricing, has_unknown_model_cost,
    web_search_cost, CacheWriteTtl, ModelPricing, PriceTable, PricingError,
};
pub use record::{
    get_session_context, validate_session_file_id, Session, SessionMode, SessionProgress,
    SessionView,
};
pub use state::{
    is_tool_allowed_in_plan_mode, is_tool_allowed_in_plan_mode_with_policy, AllowedPrompt,
    PlanModePolicy, PlanModeState, TokenUsage, TurnMetrics, UsageExtras, MCP_TOOL_PREFIX,
    PLUGIN_TOOL_PREFIX,
};
pub use task::{Task, TaskManager, TaskStatus, TaskUpdateParams, TaskUpdateStatus};
