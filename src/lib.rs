//! Multi-tenant workspaces governed by an admins team and a members team:
//! atomic provisioning, authorization, idempotent role transitions and
//! post-commit domain events, over in-memory stores.
pub mod ids;
pub mod error;
pub mod user;
pub mod unit_of_work;
pub mod team;
pub mod workspace;
pub mod service;
pub mod api;
