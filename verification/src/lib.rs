//! Verified core of a DynamoDB table browser: configuration checks,
//! DynamoDB item rendering, `aws` CLI command shaping and the browser's
//! tab/selection state machine.

pub mod app;
pub mod config;
pub mod dynamodb;
pub mod json;
pub mod text;
