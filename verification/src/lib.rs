//! Edit predictions from an external server.
//!
//! What is asked of the server, what becomes of its replies and what is shown is decided here; an
//! editor performs the steps and hands back what came of them. Work that waits for something
//! outside is a task, a value that says what has to happen next.
pub mod context;
pub mod delegate;
pub mod diagnostics;
pub mod distinct;
pub mod fate;
pub mod json;
pub mod jump;
pub mod labels;
pub mod outcome;
pub mod path;
pub mod point;
pub mod prediction;
pub mod quick_fix;
pub mod refresh;
pub mod request;
pub mod text;
pub mod wire;
