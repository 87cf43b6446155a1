//! A leaderboard backend core: an append-only store of scored entries,
//! ranked listings with pagination, detail lookup by id, and the
//! HTTP-level request validation and JSON response shaping around them.
//!
//! Creation times are server-assigned, strictly increasing ticks, and are
//! serialized as decimal strings; a deployment whose storage backend
//! assigns its own timestamps renders them as text in the same field.

pub mod api;
pub mod json;
pub mod laws;
pub mod params;
pub mod store;
pub mod text;
