use vstd::prelude::*;
use crate::timestamp::Timestamp;

verus! {

/// A registered user.  Identity fields are immutable after registration and
/// users are never deleted.
#[derive(Debug, Clone)]
pub struct User {
    pub user_id: i32,
    pub user_name: String,
    pub user_email: String,
    pub password_hash: String,
}

/// A session row binding an opaque token to a user and an expiry.
///
/// At most one session row exists per user; a row's presence does not imply
/// validity — consumers must also check `expires_at` against the current
/// time.  `expires_at` is a unix timestamp in seconds.
#[derive(Debug, Clone)]
pub struct Session {
    pub session_id: String,
    pub user_id: i32,
    pub expires_at: i64,
    pub is_persistent: bool,
}

/// A workspace owned by one user.
#[derive(Debug, Clone)]
pub struct Group {
    pub group_id: i32,
    pub group_name: String,
    pub owner_user_id: i32,
}

/// Membership of a user in a group, with a write-permission flag.
#[derive(Debug, Clone, Copy)]
pub struct GroupUserMapping {
    pub group_id: i32,
    pub user_id: i32,
    pub writeable: bool,
}

/// A project scoped to one group.
#[derive(Debug, Clone)]
pub struct Project {
    pub project_id: i32,
    pub group_id: i32,
    pub project_name: String,
    pub project_description: String,
}

/// A color-coded tag scoped to one group.
#[derive(Debug, Clone)]
pub struct Tag {
    pub tag_id: i32,
    pub group_id: i32,
    pub tag_name: String,
    pub tag_color: String,
}

/// Many-to-many association between tags and projects.
#[derive(Debug, Clone, Copy)]
pub struct TagProjectMapping {
    pub tag_id: i32,
    pub project_id: i32,
}

/// A task inside a project, assigned to a worker user.
#[derive(Debug, Clone)]
pub struct Task {
    pub task_id: i32,
    pub project_id: i32,
    pub worker_user_id: i32,
    pub title: String,
    pub description: String,
    pub start_time: Timestamp,
    pub end_time: Timestamp,
}

/// An ordering dependency between two tasks.
#[derive(Debug, Clone, Copy)]
pub struct Dependency {
    pub prev_task_id: i32,
    pub next_task_id: i32,
}

/// A project manager record.
#[derive(Debug, Clone)]
pub struct ProjectManager {
    pub pm_id: i32,
    pub pm_name: String,
    pub pm_user_id: Option<i32>,
}

/// A worker record.
#[derive(Debug, Clone)]
pub struct Worker {
    pub worker_id: i32,
    pub worker_name: String,
    pub worker_user_id: Option<i32>,
}

/// Association between a project manager and a worker.
#[derive(Debug, Clone, Copy)]
pub struct PMWorkerMapping {
    pub pm_id: i32,
    pub worker_id: i32,
}

} // verus!
