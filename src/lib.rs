//! Work-item aggregation core: notification policy, plugin output decoding,
//! the item/notification store and the polling scheduler's decisions.

pub mod json;
pub mod models;
pub mod plugin_runtime;
pub mod policy;
pub mod scheduler;
pub mod store;
pub mod text;
