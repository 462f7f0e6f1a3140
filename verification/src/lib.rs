//! Core of a session-authenticated, multi-tenant project/task management
//! backend: user registration and login, single-session-per-user session
//! lifecycle, group ownership and membership, color-coded tags, projects,
//! tasks, and the cascading deletes that keep the relational state
//! consistent.
//!
//! All durable state is modelled by the [`store::Store`] value; every
//! operation is a verified function from a store and plain request values to
//! a new store and a result.  Password hashing (bcrypt) and session-token
//! generation (uuid) are reached through narrow trusted wrappers; everything
//! else is proved.

pub mod admin;
pub mod auth;
pub mod crypto;
pub mod error;
pub mod group_selection;
pub mod members;
pub mod models;
pub mod projects;
pub mod queries;
pub mod store;
pub mod tags;
pub mod tasks;
pub mod timestamp;
pub mod token;
