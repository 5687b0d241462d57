//! The agent: its data, the clarification and planning steps, the plan
//! executor's decisions, and the handling of user requests.
pub mod types;
pub mod executor;
pub mod planning;
pub mod flow;
