//! Which model serves an agentic execution.
pub mod model_router;
pub mod router_classifier;
