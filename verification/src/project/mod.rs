//! Work for one project among several.

pub mod project_selector;
pub mod upload_plan;
pub mod uploader;
