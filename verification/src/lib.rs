pub mod adf;
pub mod api;
pub mod card;
pub mod config;
pub mod context;
pub mod dispatcher;
pub mod jira;
pub mod json;
pub mod models;
pub mod notifier;
pub mod payload;
pub mod ports;
pub mod reconciler;
pub mod scheduler;
pub mod text;
pub mod workflow_status;
