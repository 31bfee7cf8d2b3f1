//! An in-memory key/value store: a parser for whitespace-separated text
//! requests, a concurrent map of text entries, and the rules that apply
//! each command to that map.
pub mod numeric;
pub mod parser;
pub mod session;
pub mod store;

pub use parser::{Commands, Param, ParseError};
pub use session::{handle_request, Handled};
pub use store::{adjust, arith_reply, Access, ExecError, Expiry, StepFailure, Store};
