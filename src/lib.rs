//! Runtime shim that bridges a pub/sub bus to a request/response handler:
//! subject correlation, settings validation and the dispatch state machine.

pub mod text;
pub mod subject;
pub mod conf;
pub mod startup;
pub mod dispatch;
pub mod handler;
