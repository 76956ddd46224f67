//! An embeddable HTTP request router: a tree of scopes, named middleware
//! pipes and routes is compiled into a flat, ordered table, and each request
//! is dispatched to the first entry that accepts it.

pub mod chain;
pub mod engine;
pub mod error;
pub mod matcher;
pub mod path;
pub mod pattern;
pub mod plugin;
pub mod route;
pub mod router;
pub mod service;
pub mod text;

pub use chain::{Chain, Step};
pub use error::{BuildError, HandlerError, PatternSyntaxError, RequestError};
pub use matcher::{Matcher, Param};
pub use path::{Path, PathSegment, PathSegmentDynamic, ValueKind};
pub use plugin::RedisPlugin;
pub use route::{Method, Pipe, Route};
pub use router::{Node, RouteRef, Router, Scope};
pub use service::{service, RouteMatch, Service};
