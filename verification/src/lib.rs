pub mod logging;
pub mod mcp;
pub mod key_sort;
pub mod mcp_bridge;
pub mod metrics;
pub mod project_insights;
pub mod prompt_engine;
pub mod prompts;
pub mod resource_manager;
pub mod review;
pub mod review_engine;
pub mod rule_manager;
pub mod scan;
pub mod text;
