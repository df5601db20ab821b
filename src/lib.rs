//! A small request router for edge workers: route patterns with literal,
//! named and catch-all segments, first-match dispatch in registration order,
//! and the replies of the worker's three endpoints, computed from plain values.
pub mod handlers;
pub mod matcher;
pub mod path;
pub mod pattern;
pub mod router;
pub mod service;
