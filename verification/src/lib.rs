//! The verified core of the IA2 `cs` command-line tool and of the shared
//! runtime monitor: resource-path grammar, the command surface, runtime
//! value packing and requests, scenario validation and verdicts, the
//! runtime debug state, the historian and the runtime routes.
pub mod cli;
pub mod edge;
pub mod history;
pub mod http;
pub mod monitor;
pub mod quartet;
pub mod resource;
pub mod routes;
pub mod runtime_cmd;
pub mod sim;
pub mod text;
