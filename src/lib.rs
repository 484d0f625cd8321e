//! Authentication tokens, password schemes and JSON-RPC dispatch for a web backend.
pub mod time;
pub mod encoding;
pub mod scheme;
pub mod pwd;
pub mod crypt;
pub mod token;
pub mod error;
pub mod ctx;
pub mod login;
pub mod params;
pub mod router;
pub mod model;
pub mod state;
pub mod project_rpc;
