//! Groups, membership, tags, and the two guarded deletes: the full group
//! cascade and the sole-tag refusal.

use flower::auth::{login, register, LoginRequest, RegisterRequest};
use flower::error::ServiceError;
use flower::group_selection::{
    add_group, delete_group, get_group_list, update_group, AddGroupRequest, DeleteGroupRequest,
    UpdateGroupRequest,
};
use flower::members::{add_worker, get_worker_list, AddWorkerRequest, GetWorkerListRequest};
use flower::projects::{add_project, AddProjectRequest};
use flower::store::Store;
use flower::tags::{
    add_tag, delete_tag, get_tag_list, update_tag, AddTagRequest, DeleteTagRequest,
    GetTagListRequest, UpdateTagRequest,
};
use flower::tasks::{add_task, AddTaskRequest};

const NOW: i64 = 1_000_000;

fn signed_up(st: &mut Store, name: &str, email: &str) -> String {
    register(
        st,
        &RegisterRequest {
            username: name.to_string(),
            email: email.to_string(),
            password: "pw".to_string(),
        },
    )
    .expect("register");
    login(
        st,
        &LoginRequest {
            username: name.to_string(),
            password: "pw".to_string(),
            remember_me: false,
        },
        NOW,
    )
    .expect("login")
}

fn owner_with_group(st: &mut Store, name: &str, email: &str, group: &str) -> String {
    let tok = signed_up(st, name, email);
    add_group(st, Some(&tok), &AddGroupRequest { group_name: group.to_string() }, NOW)
        .expect("add_group");
    tok
}

fn tag_req(owner: &str, group: &str, name: &str, color: &str) -> AddTagRequest {
    AddTagRequest {
        owner_user_name: owner.to_string(),
        group_name: group.to_string(),
        tag_name: name.to_string(),
        tag_color: color.to_string(),
    }
}

fn project_req(owner: &str, group: &str, name: &str, tags: Vec<&str>) -> AddProjectRequest {
    AddProjectRequest {
        owner_user_name: owner.to_string(),
        group_name: group.to_string(),
        project_name: name.to_string(),
        project_descr: "d".to_string(),
        tags: tags.into_iter().map(|s| s.to_string()).collect(),
    }
}

fn task_req(owner: &str, group: &str, project: &str, worker: &str, title: &str) -> AddTaskRequest {
    AddTaskRequest {
        owner_user_name: owner.to_string(),
        group_name: group.to_string(),
        project_name: project.to_string(),
        worker_name: worker.to_string(),
        task_title: title.to_string(),
        description: "work".to_string(),
        start_time: "2024-01-02 09:00:00".to_string(),
        end_time: "2024-01-02 17:30:00".to_string(),
    }
}

#[test]
fn alice_registers_logs_in_and_manages_a_tag() {
    // Register alice, refuse the duplicate, log her in with a thirty-minute
    // session, create her group, add a tag, and delete it while it is
    // mapped to no project.
    let mut st = Store::new();
    let r = register(
        &mut st,
        &RegisterRequest {
            username: "alice".to_string(),
            email: "a@x.com".to_string(),
            password: "pw123".to_string(),
        },
    );
    assert_eq!(r, Ok(()));
    let again = register(
        &mut st,
        &RegisterRequest {
            username: "alice".to_string(),
            email: "a2@x.com".to_string(),
            password: "pw123".to_string(),
        },
    );
    assert_eq!(again, Err(ServiceError::Conflict));
    let tok = login(
        &mut st,
        &LoginRequest {
            username: "alice".to_string(),
            password: "pw123".to_string(),
            remember_me: false,
        },
        NOW,
    )
    .expect("login");
    assert_eq!(st.sessions[0].expires_at, NOW + 1800);
    add_group(&mut st, Some(&tok), &AddGroupRequest { group_name: "G1".to_string() }, NOW)
        .expect("add_group");
    assert_eq!(st.groups[0].group_name, "G1");
    assert_eq!(st.memberships[0].user_id, st.users[0].user_id);
    assert!(st.memberships[0].writeable);
    add_tag(&mut st, Some(&tok), &tag_req("alice", "G1", "red", "#ff0000"), NOW).expect("tag");
    let del = delete_tag(
        &mut st,
        Some(&tok),
        &DeleteTagRequest {
            owner_user_name: "alice".to_string(),
            group_name: "G1".to_string(),
            tag_name: "red".to_string(),
        },
        NOW,
    );
    assert_eq!(del, Ok(()));
    assert_eq!(st.tags.len(), 0);
}

#[test]
fn group_creation_makes_owner_writeable_member() {
    let mut st = Store::new();
    let tok = owner_with_group(&mut st, "alice", "a@x.com", "G1");
    assert_eq!(st.groups.len(), 1);
    assert_eq!(st.memberships.len(), 1);
    assert!(st.memberships[0].writeable);
    let list = get_group_list(&st, Some(&tok), NOW).expect("list");
    assert_eq!(list.groups.len(), 1);
    assert_eq!(list.groups[0].group_name, "G1");
    assert_eq!(list.groups[0].owner_username, "alice");
    assert!(list.groups[0].writeable);
}

#[test]
fn rename_group_keeps_name_on_empty_input() {
    let mut st = Store::new();
    let tok = owner_with_group(&mut st, "alice", "a@x.com", "G1");
    let keep = update_group(
        &mut st,
        Some(&tok),
        &UpdateGroupRequest {
            owner_user_name: "alice".to_string(),
            group_name: "G1".to_string(),
            new_group_name: "".to_string(),
        },
        NOW,
    );
    assert_eq!(keep, Ok(()));
    assert_eq!(st.groups[0].group_name, "G1");
    let rename = update_group(
        &mut st,
        Some(&tok),
        &UpdateGroupRequest {
            owner_user_name: "alice".to_string(),
            group_name: "G1".to_string(),
            new_group_name: "G2".to_string(),
        },
        NOW,
    );
    assert_eq!(rename, Ok(()));
    assert_eq!(st.groups[0].group_name, "G2");
}

#[test]
fn mutation_requires_matching_owner_name() {
    let mut st = Store::new();
    let _alice = owner_with_group(&mut st, "alice", "a@x.com", "G1");
    let bob_tok = signed_up(&mut st, "bob", "b@x.com");
    // Bob's session does not match the claimed owner "alice".
    let r = update_group(
        &mut st,
        Some(&bob_tok),
        &UpdateGroupRequest {
            owner_user_name: "alice".to_string(),
            group_name: "G1".to_string(),
            new_group_name: "X".to_string(),
        },
        NOW,
    );
    assert_eq!(r, Err(ServiceError::Unauthorized));
    assert_eq!(st.groups[0].group_name, "G1");
}

#[test]
fn workers_can_be_added_once() {
    let mut st = Store::new();
    let tok = owner_with_group(&mut st, "alice", "a@x.com", "G1");
    let _bob = signed_up(&mut st, "bob", "b@x.com");
    let req = AddWorkerRequest {
        owner_user_name: "alice".to_string(),
        group_name: "G1".to_string(),
        worker_user_name: "bob".to_string(),
    };
    assert_eq!(add_worker(&mut st, Some(&tok), &req, NOW), Ok(()));
    assert_eq!(add_worker(&mut st, Some(&tok), &req, NOW), Err(ServiceError::Conflict));
    let missing = AddWorkerRequest {
        owner_user_name: "alice".to_string(),
        group_name: "G1".to_string(),
        worker_user_name: "carol".to_string(),
    };
    assert_eq!(add_worker(&mut st, Some(&tok), &missing, NOW), Err(ServiceError::NotFound));
    let workers = get_worker_list(
        &st,
        &GetWorkerListRequest {
            owner_user_name: "alice".to_string(),
            group_name: "G1".to_string(),
        },
    )
    .expect("worker list");
    assert_eq!(workers.workers.len(), 1);
    assert_eq!(workers.workers[0].user_name, "bob");
    assert_eq!(workers.workers[0].user_email, "b@x.com");
}

#[test]
fn tag_update_is_partial() {
    // An empty new name with a non-empty new color changes only the color.
    let mut st = Store::new();
    let tok = owner_with_group(&mut st, "alice", "a@x.com", "G1");
    add_tag(&mut st, Some(&tok), &tag_req("alice", "G1", "red", "#ff0000"), NOW).expect("add_tag");
    let r = update_tag(
        &mut st,
        Some(&tok),
        &UpdateTagRequest {
            owner_user_name: "alice".to_string(),
            group_name: "G1".to_string(),
            tag_name: "red".to_string(),
            new_tag_name: "".to_string(),
            new_tag_color: "#cc0000".to_string(),
        },
        NOW,
    );
    assert_eq!(r, Ok(()));
    assert_eq!(st.tags[0].tag_name, "red");
    assert_eq!(st.tags[0].tag_color, "#cc0000");
    let list = get_tag_list(
        &st,
        &GetTagListRequest { owner_user_name: "alice".to_string(), group_name: "G1".to_string() },
    )
    .expect("tag list");
    assert_eq!(list.tags.len(), 1);
    assert_eq!(list.tags[0].tag_name, "red");
    assert_eq!(list.tags[0].tag_color, "#cc0000");
}

#[test]
fn unmapped_tag_deletes_cleanly() {
    let mut st = Store::new();
    let tok = owner_with_group(&mut st, "alice", "a@x.com", "G1");
    add_tag(&mut st, Some(&tok), &tag_req("alice", "G1", "red", "#ff0000"), NOW).expect("add_tag");
    let r = delete_tag(
        &mut st,
        Some(&tok),
        &DeleteTagRequest {
            owner_user_name: "alice".to_string(),
            group_name: "G1".to_string(),
            tag_name: "red".to_string(),
        },
        NOW,
    );
    assert_eq!(r, Ok(()));
    assert_eq!(st.tags.len(), 0);
}

#[test]
fn sole_tag_of_a_project_cannot_be_deleted() {
    // "red" is the sole tag of P1: deleting it is a Conflict and nothing
    // changes.  After a second tag is mapped, the delete goes through.
    let mut st = Store::new();
    let tok = owner_with_group(&mut st, "alice", "a@x.com", "G1");
    add_tag(&mut st, Some(&tok), &tag_req("alice", "G1", "red", "#f00"), NOW).expect("tag");
    add_project(&mut st, Some(&tok), &project_req("alice", "G1", "P1", vec!["red"]), NOW)
        .expect("project");
    let tags_before = st.tags.len();
    let maps_before = st.tag_project_mappings.len();
    let projects_before = st.projects.len();
    let req = DeleteTagRequest {
        owner_user_name: "alice".to_string(),
        group_name: "G1".to_string(),
        tag_name: "red".to_string(),
    };
    assert_eq!(delete_tag(&mut st, Some(&tok), &req, NOW), Err(ServiceError::Conflict));
    assert_eq!(st.tags.len(), tags_before);
    assert_eq!(st.tag_project_mappings.len(), maps_before);
    assert_eq!(st.projects.len(), projects_before);

    add_tag(&mut st, Some(&tok), &tag_req("alice", "G1", "blue", "#00f"), NOW).expect("tag2");
    // Map "blue" to P1 as well by re-tagging the project.
    flower::projects::update_project(
        &mut st,
        Some(&tok),
        &flower::projects::UpdateProjectRequest {
            owner_user_name: "alice".to_string(),
            group_name: "G1".to_string(),
            project_name: "P1".to_string(),
            new_project_name: "".to_string(),
            new_project_descr: "".to_string(),
            new_tags: vec!["red".to_string(), "blue".to_string()],
        },
        NOW,
    )
    .expect("retag");
    assert_eq!(delete_tag(&mut st, Some(&tok), &req, NOW), Ok(()));
    assert_eq!(st.tags.len(), 1);
    assert_eq!(st.tags[0].tag_name, "blue");
    assert_eq!(st.tag_project_mappings.len(), 1);
}

#[test]
fn delete_group_cascades_to_zero_residual_rows() {
    // Create a group with projects, tasks, tags and mappings; delete it;
    // no row of any table refers to it any more.
    let mut st = Store::new();
    let tok = owner_with_group(&mut st, "alice", "a@x.com", "G1");
    let _tok2 = owner_with_group(&mut st, "carol", "c@x.com", "G2");
    let gid = st.groups[0].group_id;
    add_tag(&mut st, Some(&tok), &tag_req("alice", "G1", "red", "#f00"), NOW).expect("tag");
    add_tag(&mut st, Some(&tok), &tag_req("alice", "G1", "blue", "#00f"), NOW).expect("tag");
    add_project(&mut st, Some(&tok), &project_req("alice", "G1", "P1", vec!["red"]), NOW)
        .expect("p1");
    add_project(&mut st, Some(&tok), &project_req("alice", "G1", "P2", vec!["red", "blue"]), NOW)
        .expect("p2");
    add_task(&mut st, Some(&tok), &task_req("alice", "G1", "P1", "alice", "T1"), NOW)
        .expect("t1");
    add_task(&mut st, Some(&tok), &task_req("alice", "G1", "P2", "alice", "T2"), NOW)
        .expect("t2");
    assert_eq!(st.projects.len(), 2);
    assert_eq!(st.tasks.len(), 2);
    assert_eq!(st.tag_project_mappings.len(), 3);

    let project_ids: Vec<i32> = st.projects.iter().map(|p| p.project_id).collect();
    let r = delete_group(
        &mut st,
        Some(&tok),
        &DeleteGroupRequest {
            owner_user_name: "alice".to_string(),
            group_name: "G1".to_string(),
        },
        NOW,
    );
    assert_eq!(r, Ok(()));
    assert!(st.groups.iter().all(|g| g.group_id != gid));
    assert!(st.projects.iter().all(|p| p.group_id != gid));
    assert!(st.tags.iter().all(|t| t.group_id != gid));
    assert!(st.memberships.iter().all(|m| m.group_id != gid));
    assert!(st.tasks.iter().all(|t| !project_ids.contains(&t.project_id)));
    assert!(st.tag_project_mappings.iter().all(|m| !project_ids.contains(&m.project_id)));
    // The unrelated group survives untouched.
    assert_eq!(st.groups.len(), 1);
    assert_eq!(st.groups[0].group_name, "G2");
    assert_eq!(st.memberships.len(), 1);
}
