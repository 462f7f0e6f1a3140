//! The read paths: task lists filtered by tag set and by project-name
//! substring, the project list, the project and task detail views, and the
//! task CRUD operations.

use flower::auth::{login, register, LoginRequest, RegisterRequest};
use flower::error::ServiceError;
use flower::group_selection::{add_group, AddGroupRequest};
use flower::projects::{
    add_project, delete_project, get_project_detail, update_project, AddProjectRequest,
    DeleteProjectRequest, GetProjectDetailRequest, UpdateProjectRequest,
};
use flower::queries::{
    get_project_list, get_task_list_by_project_name, get_task_list_by_tag_list,
    GetProjectListRequest, GetTaskListByProjectNameRequest, GetTaskListByTagListRequest,
};
use flower::store::Store;
use flower::tags::{add_tag, AddTagRequest};
use flower::tasks::{
    add_task, delete_task, get_task_detail, update_task, AddTaskRequest, DeleteTaskRequest,
    GetTaskDetailRequest, UpdateTaskRequest,
};

const NOW: i64 = 1_000_000;

fn owner_with_group(st: &mut Store, name: &str, email: &str, group: &str) -> String {
    register(
        st,
        &RegisterRequest {
            username: name.to_string(),
            email: email.to_string(),
            password: "pw".to_string(),
        },
    )
    .expect("register");
    let tok = login(
        st,
        &LoginRequest {
            username: name.to_string(),
            password: "pw".to_string(),
            remember_me: false,
        },
        NOW,
    )
    .expect("login");
    add_group(st, Some(&tok), &AddGroupRequest { group_name: group.to_string() }, NOW)
        .expect("group");
    tok
}

fn tag(st: &mut Store, tok: &String, name: &str, color: &str) {
    add_tag(
        st,
        Some(tok),
        &AddTagRequest {
            owner_user_name: "alice".to_string(),
            group_name: "G1".to_string(),
            tag_name: name.to_string(),
            tag_color: color.to_string(),
        },
        NOW,
    )
    .expect("tag");
}

fn project(st: &mut Store, tok: &String, name: &str, tags: Vec<&str>) {
    add_project(
        st,
        Some(tok),
        &AddProjectRequest {
            owner_user_name: "alice".to_string(),
            group_name: "G1".to_string(),
            project_name: name.to_string(),
            project_descr: format!("about {}", name),
            tags: tags.into_iter().map(|s| s.to_string()).collect(),
        },
        NOW,
    )
    .expect("project");
}

fn task(st: &mut Store, tok: &String, project: &str, title: &str) {
    add_task(
        st,
        Some(tok),
        &AddTaskRequest {
            owner_user_name: "alice".to_string(),
            group_name: "G1".to_string(),
            project_name: project.to_string(),
            worker_name: "alice".to_string(),
            task_title: title.to_string(),
            description: "work".to_string(),
            start_time: "2024-01-02 09:00:00".to_string(),
            end_time: "2024-01-02 17:30:00".to_string(),
        },
        NOW,
    )
    .expect("task");
}

fn populated() -> (Store, String) {
    // G1 has tags red/blue, projects Paint (red) and Sky (blue), one task
    // in each.
    let mut st = Store::new();
    let tok = owner_with_group(&mut st, "alice", "a@x.com", "G1");
    tag(&mut st, &tok, "red", "#f00");
    tag(&mut st, &tok, "blue", "#00f");
    project(&mut st, &tok, "Paint", vec!["red"]);
    project(&mut st, &tok, "Sky", vec!["blue"]);
    task(&mut st, &tok, "Paint", "mix colors");
    task(&mut st, &tok, "Sky", "watch clouds");
    (st, tok)
}

fn by_tags(st: &Store, tags: Vec<&str>) -> Result<Vec<String>, ServiceError> {
    let r = get_task_list_by_tag_list(
        st,
        &GetTaskListByTagListRequest {
            owner_user_name: "alice".to_string(),
            group_name: "G1".to_string(),
            tags: tags.into_iter().map(|s| s.to_string()).collect(),
        },
    )?;
    Ok(r.tasks.into_iter().map(|t| t.task_title).collect())
}

#[test]
fn empty_tag_set_lists_every_task_of_the_group() {
    let (st, _tok) = populated();
    let titles = by_tags(&st, vec![]).expect("list");
    assert_eq!(titles, vec!["mix colors".to_string(), "watch clouds".to_string()]);
}

#[test]
fn unknown_tag_yields_empty_not_error() {
    let (st, _tok) = populated();
    let titles = by_tags(&st, vec!["nonexistent-tag"]).expect("empty result expected");
    assert_eq!(titles, Vec::<String>::new());
}

#[test]
fn tag_filter_selects_mapped_projects_only() {
    let (st, _tok) = populated();
    assert_eq!(by_tags(&st, vec!["red"]).unwrap(), vec!["mix colors".to_string()]);
    assert_eq!(by_tags(&st, vec!["blue"]).unwrap(), vec!["watch clouds".to_string()]);
    let both = by_tags(&st, vec!["red", "blue"]).unwrap();
    assert_eq!(both, vec!["mix colors".to_string(), "watch clouds".to_string()]);
}

#[test]
fn tag_list_entries_carry_colors_and_timestamps() {
    let (st, _tok) = populated();
    let r = get_task_list_by_tag_list(
        &st,
        &GetTaskListByTagListRequest {
            owner_user_name: "alice".to_string(),
            group_name: "G1".to_string(),
            tags: vec!["red".to_string()],
        },
    )
    .expect("list");
    assert_eq!(r.tasks.len(), 1);
    let item = &r.tasks[0];
    assert_eq!(item.worker_name, "alice");
    assert_eq!(item.project_name, "Paint");
    assert_eq!(item.start_time, "2024-01-02 09:00:00");
    assert_eq!(item.end_time, "2024-01-02 17:30:00");
    assert_eq!(item.tag_colors, vec!["#f00".to_string()]);
}

#[test]
fn substring_search_is_case_sensitive_and_rejects_empty() {
    let (st, _tok) = populated();
    let hit = get_task_list_by_project_name(
        &st,
        &GetTaskListByProjectNameRequest {
            owner_user_name: "alice".to_string(),
            group_name: "G1".to_string(),
            project_name: "ain".to_string(),
        },
    )
    .expect("substring hit");
    assert_eq!(hit.tasks.len(), 1);
    assert_eq!(hit.tasks[0].task_title, "mix colors");
    let miss = get_task_list_by_project_name(
        &st,
        &GetTaskListByProjectNameRequest {
            owner_user_name: "alice".to_string(),
            group_name: "G1".to_string(),
            project_name: "PAINT".to_string(),
        },
    )
    .expect("case-sensitive miss");
    assert_eq!(miss.tasks.len(), 0);
    let empty = get_task_list_by_project_name(
        &st,
        &GetTaskListByProjectNameRequest {
            owner_user_name: "alice".to_string(),
            group_name: "G1".to_string(),
            project_name: "".to_string(),
        },
    );
    assert_eq!(empty.err(), Some(ServiceError::ValidationError));
}

#[test]
fn project_list_carries_mapped_colors() {
    let (st, _tok) = populated();
    let r = get_project_list(
        &st,
        &GetProjectListRequest {
            owner_user_name: "alice".to_string(),
            group_name: "G1".to_string(),
        },
    )
    .expect("project list");
    assert_eq!(r.projects.len(), 2);
    assert_eq!(r.projects[0].project_name, "Paint");
    assert_eq!(r.projects[0].tag_colors, vec!["#f00".to_string()]);
    assert_eq!(r.projects[1].project_name, "Sky");
    assert_eq!(r.projects[1].tag_colors, vec!["#00f".to_string()]);
}

#[test]
fn project_detail_lists_mapped_tag_names() {
    let (st, _tok) = populated();
    let r = get_project_detail(
        &st,
        &GetProjectDetailRequest {
            owner_user_name: "alice".to_string(),
            group_name: "G1".to_string(),
            project_name: "Paint".to_string(),
        },
    )
    .expect("detail");
    assert_eq!(r.project_name, "Paint");
    assert_eq!(r.project_description, "about Paint");
    assert_eq!(r.tags, vec!["red".to_string()]);
    let missing = get_project_detail(
        &st,
        &GetProjectDetailRequest {
            owner_user_name: "alice".to_string(),
            group_name: "G1".to_string(),
            project_name: "Nope".to_string(),
        },
    );
    assert_eq!(missing.err(), Some(ServiceError::NotFound));
}

#[test]
fn task_detail_and_partial_update() {
    let (mut st, tok) = populated();
    let detail = get_task_detail(
        &st,
        &GetTaskDetailRequest {
            owner_user_name: "alice".to_string(),
            group_name: "G1".to_string(),
            project_name: "Paint".to_string(),
        },
    )
    .expect("detail");
    assert_eq!(detail.tasks.len(), 1);
    assert_eq!(detail.tasks[0].task_title, "mix colors");

    // Empty fields keep current values; the new end time is applied.
    let r = update_task(
        &mut st,
        Some(&tok),
        &UpdateTaskRequest {
            owner_user_name: "alice".to_string(),
            group_name: "G1".to_string(),
            project_name: "Paint".to_string(),
            task_title: "mix colors".to_string(),
            new_task_title: "".to_string(),
            new_worker_name: "".to_string(),
            new_description: "".to_string(),
            new_start_time: "".to_string(),
            new_end_time: "2024-01-03 08:00:00".to_string(),
        },
        NOW,
    );
    assert_eq!(r, Ok(()));
    let after = get_task_detail(
        &st,
        &GetTaskDetailRequest {
            owner_user_name: "alice".to_string(),
            group_name: "G1".to_string(),
            project_name: "Paint".to_string(),
        },
    )
    .expect("detail");
    assert_eq!(after.tasks[0].task_title, "mix colors");
    assert_eq!(after.tasks[0].start_time, "2024-01-02 09:00:00");
    assert_eq!(after.tasks[0].end_time, "2024-01-03 08:00:00");

    // A malformed new time is a validation error.
    let bad = update_task(
        &mut st,
        Some(&tok),
        &UpdateTaskRequest {
            owner_user_name: "alice".to_string(),
            group_name: "G1".to_string(),
            project_name: "Paint".to_string(),
            task_title: "mix colors".to_string(),
            new_task_title: "".to_string(),
            new_worker_name: "".to_string(),
            new_description: "".to_string(),
            new_start_time: "yesterday".to_string(),
            new_end_time: "".to_string(),
        },
        NOW,
    );
    assert_eq!(bad, Err(ServiceError::ValidationError));
}

#[test]
fn add_task_rejects_malformed_timestamps() {
    let (mut st, tok) = populated();
    let r = add_task(
        &mut st,
        Some(&tok),
        &AddTaskRequest {
            owner_user_name: "alice".to_string(),
            group_name: "G1".to_string(),
            project_name: "Paint".to_string(),
            worker_name: "alice".to_string(),
            task_title: "bad".to_string(),
            description: "".to_string(),
            start_time: "2024-02-30 09:00:00".to_string(),
            end_time: "2024-03-01 10:00:00".to_string(),
        },
        NOW,
    );
    assert_eq!(r, Err(ServiceError::ValidationError));
    let missing_worker = add_task(
        &mut st,
        Some(&tok),
        &AddTaskRequest {
            owner_user_name: "alice".to_string(),
            group_name: "G1".to_string(),
            project_name: "Paint".to_string(),
            worker_name: "nobody".to_string(),
            task_title: "bad".to_string(),
            description: "".to_string(),
            start_time: "2024-03-01 09:00:00".to_string(),
            end_time: "2024-03-01 10:00:00".to_string(),
        },
        NOW,
    );
    assert_eq!(missing_worker, Err(ServiceError::NotFound));
}

#[test]
fn delete_task_removes_one_row() {
    let (mut st, tok) = populated();
    let r = delete_task(
        &mut st,
        Some(&tok),
        &DeleteTaskRequest {
            owner_user_name: "alice".to_string(),
            group_name: "G1".to_string(),
            project_name: "Paint".to_string(),
            task_title: "mix colors".to_string(),
        },
        NOW,
    );
    assert_eq!(r, Ok(()));
    assert_eq!(st.tasks.len(), 1);
    assert_eq!(st.tasks[0].title, "watch clouds");
}

#[test]
fn update_project_retags_and_delete_project_cascades() {
    let (mut st, tok) = populated();
    // Move Paint from red to blue.
    update_project(
        &mut st,
        Some(&tok),
        &UpdateProjectRequest {
            owner_user_name: "alice".to_string(),
            group_name: "G1".to_string(),
            project_name: "Paint".to_string(),
            new_project_name: "Brush".to_string(),
            new_project_descr: "".to_string(),
            new_tags: vec!["blue".to_string()],
        },
        NOW,
    )
    .expect("update project");
    assert_eq!(st.projects[0].project_name, "Brush");
    assert_eq!(st.projects[0].project_description, "about Paint");
    let detail = get_project_detail(
        &st,
        &GetProjectDetailRequest {
            owner_user_name: "alice".to_string(),
            group_name: "G1".to_string(),
            project_name: "Brush".to_string(),
        },
    )
    .expect("detail");
    assert_eq!(detail.tags, vec!["blue".to_string()]);

    let pid = st.projects[0].project_id;
    delete_project(
        &mut st,
        Some(&tok),
        &DeleteProjectRequest {
            owner_user_name: "alice".to_string(),
            group_name: "G1".to_string(),
            project_name: "Brush".to_string(),
        },
        NOW,
    )
    .expect("delete project");
    assert!(st.projects.iter().all(|p| p.project_id != pid));
    assert!(st.tasks.iter().all(|t| t.project_id != pid));
    assert!(st.tag_project_mappings.iter().all(|m| m.project_id != pid));
    // The group's tags survive a project delete.
    assert_eq!(st.tags.len(), 2);
}
