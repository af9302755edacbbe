pub mod ai_analysis;
pub mod git;
pub mod rule_management;
pub mod treesitter;
pub mod dependency;
pub mod scan;
pub mod review;
pub mod commit;
pub mod deviation;
pub mod analysis;
