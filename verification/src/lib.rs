pub mod bytes;
pub mod codex_runtime;
pub mod config;
pub mod decision_laws;
pub mod digest;
pub mod errors;
pub mod faults;
pub mod json;
pub mod lifecycle;
pub mod managed_laws;
pub mod managed_server;
pub mod parse;
pub mod path_laws;
pub mod paths;
pub mod protocol_words;
pub mod rate_limit_reset;
pub mod records;
pub mod rpc;
pub mod rpc_laws;
pub mod session;
pub mod shutdown;
pub mod text;
pub mod text_laws;
pub mod turns;
pub mod windows_paths;
pub mod words;
