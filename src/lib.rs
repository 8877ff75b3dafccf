//! A catalog of remote servers and the application ports they expose, and the
//! resolution of a connection request against it into an SSH invocation.
pub mod catalog;
pub mod render;
pub mod resolver;

pub use catalog::{merge_bindings, Application, Config, Port, Server};
pub use render::port_text;
pub use resolver::{
    forward_clause, resolve, resolve_session, resolve_tunnel, select_key, session_invocation,
    tunnel_invocation, Invocation, Mode, Request, ResolveError,
};
