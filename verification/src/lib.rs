//! Session-first sidebar logic: ordering of sessions by recency, the settled
//! archive with its "show more" collapse, list scrolling and hit areas,
//! relative-time labels, and the `session` command-line grammar.

pub mod geometry;
pub mod model;
pub mod entries;
pub mod age;
pub mod layout;
pub mod scroll;
pub mod drop;
pub mod agents;
pub mod groups;
pub mod rows;
pub mod session;
pub mod agent_scroll;
pub mod line;
