//! Core of a sandboxed extension UI runtime: the widget-tree data model that
//! sandboxed code builds through a narrow capability surface, the
//! request/response bridge that carries its calls to the host, the event
//! dispatcher that returns user-interaction notifications, and the asset
//! resolution pipeline that gathers image bytes for a rendered tree.

pub mod bridge;
pub mod dispatch;
pub mod gather;
pub mod host;
pub mod model;
pub mod ops;
pub mod payload;
pub mod schema;
pub mod tree;
pub mod wire;
