//! A schema-driven data-access core: dynamic, parameterized SQL statements
//! built from untrusted request input under per-resource field whitelists,
//! with generic row mapping and link-based pagination.
//!
//! Values never reach statement text; they bind through positional
//! placeholders. Field names reach statement text only after a whitelist
//! check.

pub mod auth;
pub mod builder;
pub mod codes;
pub mod crud;
pub mod errors;
pub mod ids;
pub mod models;
pub mod pagination;
pub mod params;
pub mod row;
pub mod strutil;
pub mod values;
