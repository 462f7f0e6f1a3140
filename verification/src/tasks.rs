//! Tasks: detail listing, creation from textual timestamps, partial
//! update, and deletion.

use vstd::prelude::*;
use crate::auth::{resolve_current_user, resolve_ok, resolved_user};
use crate::error::ServiceError;
use crate::queries::{
    build_task_item, collect_mapped_tag_colors, mapped_tag_colors, task_item_matches, Task,
};
use crate::store::{
    first_group_match, first_project_match, first_task_match, has_group_match, has_project_id,
    has_task_match, has_project_match, has_user_id, has_user_named, lemma_filter_extend,
    lemma_filter_whole, lemma_remove_keeps, lemma_user_named, user_named, Store,
};
use crate::timestamp::{parse_timestamp, spec_parse};

verus! {

// ---------------------------------------------------------------------------
// Wire types.
// ---------------------------------------------------------------------------

pub struct GetTaskDetailRequest {
    pub owner_user_name: String,
    pub group_name: String,
    pub project_name: String,
}

pub struct GetTaskDetailResponse {
    pub tasks: Vec<Task>,
}

pub struct AddTaskRequest {
    pub owner_user_name: String,
    pub group_name: String,
    pub project_name: String,
    pub worker_name: String,
    pub task_title: String,
    pub description: String,
    pub start_time: String,
    pub end_time: String,
}

pub struct AddTaskResponse {
    pub success: bool,
    pub message: String,
}

pub struct UpdateTaskRequest {
    pub owner_user_name: String,
    pub group_name: String,
    pub project_name: String,
    pub task_title: String,
    pub new_task_title: String,
    pub new_worker_name: String,
    pub new_description: String,
    pub new_start_time: String,
    pub new_end_time: String,
}

pub struct UpdateTaskResponse {
    pub success: bool,
    pub message: String,
}

pub struct DeleteTaskRequest {
    pub owner_user_name: String,
    pub group_name: String,
    pub project_name: String,
    pub task_title: String,
}

pub struct DeleteTaskResponse {
    pub success: bool,
    pub message: String,
}

// ---------------------------------------------------------------------------
// Task detail.
// ---------------------------------------------------------------------------

/// Selects the tasks of one project whose worker resolves.
pub open spec fn project_task_sel(st: Store, pid: i32) -> spec_fn(crate::models::Task) -> bool {
    |t: crate::models::Task| t.project_id == pid && has_user_id(st.users@, t.worker_user_id)
}

/// List the tasks of a project, each entry carrying the colors of the tags
/// mapped to the project, in task-table order.
pub fn get_task_detail(st: &Store, req: &GetTaskDetailRequest) -> (r: Result<
    GetTaskDetailResponse,
    ServiceError,
>)
    requires
        st.wf(),
    ensures
        match r {
            Ok(resp) => {
                &&& exists|gi: int|
                    #[trigger] first_group_match(
                        *st,
                        req.owner_user_name@,
                        req.group_name@,
                        gi,
                    ) && ({
                        let gid = st.groups@[gi].group_id;
                        exists|pi: int|
                            #[trigger] first_project_match(
                                st.projects@,
                                gid,
                                req.project_name@,
                                pi,
                            ) && ({
                                let pid = st.projects@[pi].project_id;
                                let sel = st.tasks@.filter(project_task_sel(*st, pid));
                                &&& resp.tasks@.len() == sel.len()
                                &&& forall|p: int|
                                    0 <= p < sel.len() ==> task_item_matches(
                                        *st,
                                        #[trigger] resp.tasks@[p],
                                        sel[p],
                                        mapped_tag_colors(*st, pid),
                                    )
                            })
                    })
            },
            Err(e) => match e {
                ServiceError::NotFound => !has_group_match(
                    *st,
                    req.owner_user_name@,
                    req.group_name@,
                ) || exists|gi: int|
                    #[trigger] first_group_match(
                        *st,
                        req.owner_user_name@,
                        req.group_name@,
                        gi,
                    ) && !has_project_match(
                        st.projects@,
                        st.groups@[gi].group_id,
                        req.project_name@,
                    ),
                _ => false,
            },
        },
{
    let gi = match st.find_group(&req.owner_user_name, &req.group_name) {
        Some(gi) => gi,
        None => {
            return Err(ServiceError::NotFound);
        },
    };
    let gid = st.groups[gi].group_id;
    let pi = match st.find_project_in_group(gid, &req.project_name) {
        Some(pi) => pi,
        None => {
            return Err(ServiceError::NotFound);
        },
    };
    let pid = st.projects[pi].project_id;
    let ghost sel = project_task_sel(*st, pid);
    let mut items: Vec<Task> = Vec::new();
    let n = st.tasks.len();
    let mut i: usize = 0;
    while i < n
        invariant
            st.wf(),
            n == st.tasks@.len(),
            i <= n,
            pi < st.projects@.len(),
            pid == st.projects@[pi as int].project_id,
            sel == project_task_sel(*st, pid),
            items@.len() == st.tasks@.subrange(0, i as int).filter(sel).len(),
            forall|p: int|
                0 <= p < items@.len() ==> task_item_matches(
                    *st,
                    #[trigger] items@[p],
                    st.tasks@.subrange(0, i as int).filter(sel)[p],
                    mapped_tag_colors(*st, pid),
                ),
        decreases n - i,
    {
        proof {
            lemma_filter_extend(st.tasks@, sel, i as int);
        }
        let worker_ok = st.find_user_by_id(st.tasks[i].worker_user_id).is_some();
        if st.tasks[i].project_id == pid && worker_ok {
            proof {
                assert(st.projects@[pi as int].project_id == pid);
                assert(has_project_id(st.projects@, pid));
            }
            let colors = collect_mapped_tag_colors(st, pid);
            let item = build_task_item(st, i, colors);
            items.push(item);
            proof {
                assert(sel(st.tasks@[i as int]));
            }
        } else {
            proof {
                assert(!sel(st.tasks@[i as int]));
            }
        }
        i += 1;
    }
    proof {
        lemma_filter_whole(st.tasks@, sel);
    }
    Ok(GetTaskDetailResponse { tasks: items })
}

// ---------------------------------------------------------------------------
// Task creation.
// ---------------------------------------------------------------------------

/// Create a task in a project of the caller's group, assigned to a
/// registered worker, with start and end times given as
/// `YYYY-MM-DD HH:MM:SS`.  A malformed timestamp is rejected as malformed
/// input before anything else is looked at.
pub fn add_task(st: &mut Store, session_id: Option<&String>, req: &AddTaskRequest, now: i64) -> (r:
    Result<(), ServiceError>)
    requires
        old(st).wf(),
    ensures
        final(st).wf(),
        final(st).users@ == old(st).users@,
        final(st).sessions@ == old(st).sessions@,
        final(st).groups@ == old(st).groups@,
        final(st).memberships@ == old(st).memberships@,
        final(st).projects@ == old(st).projects@,
        final(st).tags@ == old(st).tags@,
        final(st).tag_project_mappings@ == old(st).tag_project_mappings@,
        match r {
            Ok(()) => {
                &&& spec_parse(req.start_time@) is Some
                &&& spec_parse(req.end_time@) is Some
                &&& session_id matches Some(sid)
                &&& resolve_ok(*old(st), sid@, now)
                &&& resolved_user(*old(st), sid@).user_name@ == req.owner_user_name@
                &&& has_user_named(old(st).users@, req.worker_name@)
                &&& old(st).next_id < i32::MAX
                &&& exists|gi: int|
                    #[trigger] first_group_match(
                        *old(st),
                        req.owner_user_name@,
                        req.group_name@,
                        gi,
                    ) && exists|pi: int|
                        #[trigger] first_project_match(
                            old(st).projects@,
                            old(st).groups@[gi].group_id,
                            req.project_name@,
                            pi,
                        ) && final(st).tasks@ == old(st).tasks@.push(
                            crate::models::Task {
                                task_id: old(st).next_id,
                                project_id: old(st).projects@[pi].project_id,
                                worker_user_id: user_named(
                                    old(st).users@,
                                    req.worker_name@,
                                ).user_id,
                                title: req.task_title,
                                description: req.description,
                                start_time: spec_parse(req.start_time@)->0,
                                end_time: spec_parse(req.end_time@)->0,
                            },
                        )
                &&& final(st).next_id == old(st).next_id + 1
            },
            Err(e) => {
                &&& final(st).tasks@ == old(st).tasks@
                &&& final(st).next_id == old(st).next_id
                &&& match e {
                    ServiceError::ValidationError => spec_parse(req.start_time@) is None
                        || spec_parse(req.end_time@) is None,
                    ServiceError::NoSession => session_id is None,
                    ServiceError::Unauthorized => session_id matches Some(sid) && (!resolve_ok(
                        *old(st),
                        sid@,
                        now,
                    ) || resolved_user(*old(st), sid@).user_name@ != req.owner_user_name@),
                    ServiceError::NotFound => !has_group_match(
                        *old(st),
                        req.owner_user_name@,
                        req.group_name@,
                    ) || (exists|gi: int|
                        #[trigger] first_group_match(
                            *old(st),
                            req.owner_user_name@,
                            req.group_name@,
                            gi,
                        ) && !has_project_match(
                            old(st).projects@,
                            old(st).groups@[gi].group_id,
                            req.project_name@,
                        )) || !has_user_named(old(st).users@, req.worker_name@),
                    ServiceError::StorageFailure => old(st).next_id == i32::MAX,
                    _ => false,
                }
            },
        },
{
    let start = match parse_timestamp(req.start_time.as_str()) {
        Some(ts) => ts,
        None => {
            return Err(ServiceError::ValidationError);
        },
    };
    let end = match parse_timestamp(req.end_time.as_str()) {
        Some(ts) => ts,
        None => {
            return Err(ServiceError::ValidationError);
        },
    };
    let current = match resolve_current_user(st, session_id, now) {
        Ok(name) => name,
        Err(e) => {
            return Err(e);
        },
    };
    if !(current == req.owner_user_name) {
        return Err(ServiceError::Unauthorized);
    }
    let gi = match st.find_group(&req.owner_user_name, &req.group_name) {
        Some(gi) => gi,
        None => {
            return Err(ServiceError::NotFound);
        },
    };
    let gid = st.groups[gi].group_id;
    let pi = match st.find_project_in_group(gid, &req.project_name) {
        Some(pi) => pi,
        None => {
            return Err(ServiceError::NotFound);
        },
    };
    let pid = st.projects[pi].project_id;
    let wi = match st.find_user_by_name(&req.worker_name) {
        Some(wi) => wi,
        None => {
            return Err(ServiceError::NotFound);
        },
    };
    proof {
        lemma_user_named(st.users@, wi as int);
    }
    let wid = st.users[wi].user_id;
    if st.next_id == i32::MAX {
        return Err(ServiceError::StorageFailure);
    }
    st.tasks.push(
        crate::models::Task {
            task_id: st.next_id,
            project_id: pid,
            worker_user_id: wid,
            title: req.task_title.clone(),
            description: req.description.clone(),
            start_time: start,
            end_time: end,
        },
    );
    st.next_id = st.next_id + 1;
    assert(final(st).wf());
    Ok(())
}

// ---------------------------------------------------------------------------
// Partial task update.
// ---------------------------------------------------------------------------

/// Update a task's title, worker, description and times.  Every empty
/// "new" field means "keep the current value"; a non-empty worker name
/// must resolve to a registered user, and a non-empty time must parse.
pub fn update_task(st: &mut Store, session_id: Option<&String>, req: &UpdateTaskRequest, now: i64)
    -> (r: Result<(), ServiceError>)
    requires
        old(st).wf(),
    ensures
        final(st).wf(),
        final(st).users@ == old(st).users@,
        final(st).sessions@ == old(st).sessions@,
        final(st).groups@ == old(st).groups@,
        final(st).memberships@ == old(st).memberships@,
        final(st).projects@ == old(st).projects@,
        final(st).tags@ == old(st).tags@,
        final(st).tag_project_mappings@ == old(st).tag_project_mappings@,
        final(st).next_id == old(st).next_id,
        match r {
            Ok(()) => {
                &&& session_id matches Some(sid)
                &&& resolve_ok(*old(st), sid@, now)
                &&& resolved_user(*old(st), sid@).user_name@ == req.owner_user_name@
                &&& (req.new_worker_name@.len() > 0 ==> has_user_named(
                    old(st).users@,
                    req.new_worker_name@,
                ))
                &&& (req.new_start_time@.len() > 0 ==> spec_parse(req.new_start_time@) is Some)
                &&& (req.new_end_time@.len() > 0 ==> spec_parse(req.new_end_time@) is Some)
                &&& exists|gi: int|
                    #[trigger] first_group_match(
                        *old(st),
                        req.owner_user_name@,
                        req.group_name@,
                        gi,
                    ) && exists|pi: int|
                        #[trigger] first_project_match(
                            old(st).projects@,
                            old(st).groups@[gi].group_id,
                            req.project_name@,
                            pi,
                        ) && exists|ki: int|
                            #[trigger] first_task_match(
                                old(st).tasks@,
                                old(st).projects@[pi].project_id,
                                req.task_title@,
                                ki,
                            ) && ({
                                let t0 = old(st).tasks@[ki];
                                final(st).tasks@ == old(st).tasks@.update(
                                    ki,
                                    crate::models::Task {
                                        task_id: t0.task_id,
                                        project_id: t0.project_id,
                                        worker_user_id: if req.new_worker_name@.len() == 0 {
                                            t0.worker_user_id
                                        } else {
                                            user_named(
                                                old(st).users@,
                                                req.new_worker_name@,
                                            ).user_id
                                        },
                                        title: if req.new_task_title@.len() == 0 {
                                            t0.title
                                        } else {
                                            req.new_task_title
                                        },
                                        description: if req.new_description@.len() == 0 {
                                            t0.description
                                        } else {
                                            req.new_description
                                        },
                                        start_time: if req.new_start_time@.len() == 0 {
                                            t0.start_time
                                        } else {
                                            spec_parse(req.new_start_time@)->0
                                        },
                                        end_time: if req.new_end_time@.len() == 0 {
                                            t0.end_time
                                        } else {
                                            spec_parse(req.new_end_time@)->0
                                        },
                                    },
                                )
                            })
            },
            Err(e) => {
                &&& final(st).tasks@ == old(st).tasks@
                &&& match e {
                    ServiceError::NoSession => session_id is None,
                    ServiceError::Unauthorized => session_id matches Some(sid) && (!resolve_ok(
                        *old(st),
                        sid@,
                        now,
                    ) || resolved_user(*old(st), sid@).user_name@ != req.owner_user_name@),
                    ServiceError::NotFound => !has_group_match(
                        *old(st),
                        req.owner_user_name@,
                        req.group_name@,
                    ) || (exists|gi: int|
                        #[trigger] first_group_match(
                            *old(st),
                            req.owner_user_name@,
                            req.group_name@,
                            gi,
                        ) && (!has_project_match(
                            old(st).projects@,
                            old(st).groups@[gi].group_id,
                            req.project_name@,
                        ) || (exists|pi: int|
                            #[trigger] first_project_match(
                                old(st).projects@,
                                old(st).groups@[gi].group_id,
                                req.project_name@,
                                pi,
                            ) && !has_task_match(
                                old(st).tasks@,
                                old(st).projects@[pi].project_id,
                                req.task_title@,
                            )))) || (req.new_worker_name@.len() > 0 && !has_user_named(
                        old(st).users@,
                        req.new_worker_name@,
                    )),
                    ServiceError::ValidationError => (req.new_start_time@.len() > 0 && spec_parse(
                        req.new_start_time@,
                    ) is None) || (req.new_end_time@.len() > 0 && spec_parse(
                        req.new_end_time@,
                    ) is None),
                    _ => false,
                }
            },
        },
{
    let current = match resolve_current_user(st, session_id, now) {
        Ok(name) => name,
        Err(e) => {
            return Err(e);
        },
    };
    if !(current == req.owner_user_name) {
        return Err(ServiceError::Unauthorized);
    }
    let gi = match st.find_group(&req.owner_user_name, &req.group_name) {
        Some(gi) => gi,
        None => {
            return Err(ServiceError::NotFound);
        },
    };
    let gid = st.groups[gi].group_id;
    let pi = match st.find_project_in_group(gid, &req.project_name) {
        Some(pi) => pi,
        None => {
            return Err(ServiceError::NotFound);
        },
    };
    let pid = st.projects[pi].project_id;
    let ki = match st.find_task_in_project(pid, &req.task_title) {
        Some(ki) => ki,
        None => {
            return Err(ServiceError::NotFound);
        },
    };
    let new_title = if req.new_task_title.as_str().is_empty() {
        st.tasks[ki].title.clone()
    } else {
        req.new_task_title.clone()
    };
    let new_worker_id = if req.new_worker_name.as_str().is_empty() {
        st.tasks[ki].worker_user_id
    } else {
        match st.find_user_by_name(&req.new_worker_name) {
            Some(wi) => {
                proof {
                    lemma_user_named(st.users@, wi as int);
                }
                st.users[wi].user_id
            },
            None => {
                return Err(ServiceError::NotFound);
            },
        }
    };
    let new_descr = if req.new_description.as_str().is_empty() {
        st.tasks[ki].description.clone()
    } else {
        req.new_description.clone()
    };
    let new_start = if req.new_start_time.as_str().is_empty() {
        st.tasks[ki].start_time
    } else {
        match parse_timestamp(req.new_start_time.as_str()) {
            Some(ts) => ts,
            None => {
                return Err(ServiceError::ValidationError);
            },
        }
    };
    let new_end = if req.new_end_time.as_str().is_empty() {
        st.tasks[ki].end_time
    } else {
        match parse_timestamp(req.new_end_time.as_str()) {
            Some(ts) => ts,
            None => {
                return Err(ServiceError::ValidationError);
            },
        }
    };
    let row = crate::models::Task {
        task_id: st.tasks[ki].task_id,
        project_id: st.tasks[ki].project_id,
        worker_user_id: new_worker_id,
        title: new_title,
        description: new_descr,
        start_time: new_start,
        end_time: new_end,
    };
    st.tasks[ki] = row;
    assert(final(st).wf());
    Ok(())
}

// ---------------------------------------------------------------------------
// Task deletion.
// ---------------------------------------------------------------------------

/// Delete one task of a project, resolved by its title.
pub fn delete_task(st: &mut Store, session_id: Option<&String>, req: &DeleteTaskRequest, now: i64)
    -> (r: Result<(), ServiceError>)
    requires
        old(st).wf(),
    ensures
        final(st).wf(),
        final(st).users@ == old(st).users@,
        final(st).sessions@ == old(st).sessions@,
        final(st).groups@ == old(st).groups@,
        final(st).memberships@ == old(st).memberships@,
        final(st).projects@ == old(st).projects@,
        final(st).tags@ == old(st).tags@,
        final(st).tag_project_mappings@ == old(st).tag_project_mappings@,
        final(st).next_id == old(st).next_id,
        match r {
            Ok(()) => {
                &&& session_id matches Some(sid)
                &&& resolve_ok(*old(st), sid@, now)
                &&& resolved_user(*old(st), sid@).user_name@ == req.owner_user_name@
                &&& exists|gi: int|
                    #[trigger] first_group_match(
                        *old(st),
                        req.owner_user_name@,
                        req.group_name@,
                        gi,
                    ) && exists|pi: int|
                        #[trigger] first_project_match(
                            old(st).projects@,
                            old(st).groups@[gi].group_id,
                            req.project_name@,
                            pi,
                        ) && exists|ki: int|
                            #[trigger] first_task_match(
                                old(st).tasks@,
                                old(st).projects@[pi].project_id,
                                req.task_title@,
                                ki,
                            ) && final(st).tasks@ == old(st).tasks@.remove(ki)
            },
            Err(e) => {
                &&& final(st).tasks@ == old(st).tasks@
                &&& match e {
                    ServiceError::NoSession => session_id is None,
                    ServiceError::Unauthorized => session_id matches Some(sid) && (!resolve_ok(
                        *old(st),
                        sid@,
                        now,
                    ) || resolved_user(*old(st), sid@).user_name@ != req.owner_user_name@),
                    ServiceError::NotFound => !has_group_match(
                        *old(st),
                        req.owner_user_name@,
                        req.group_name@,
                    ) || (exists|gi: int|
                        #[trigger] first_group_match(
                            *old(st),
                            req.owner_user_name@,
                            req.group_name@,
                            gi,
                        ) && (!has_project_match(
                            old(st).projects@,
                            old(st).groups@[gi].group_id,
                            req.project_name@,
                        ) || (exists|pi: int|
                            #[trigger] first_project_match(
                                old(st).projects@,
                                old(st).groups@[gi].group_id,
                                req.project_name@,
                                pi,
                            ) && !has_task_match(
                                old(st).tasks@,
                                old(st).projects@[pi].project_id,
                                req.task_title@,
                            )))),
                    _ => false,
                }
            },
        },
{
    let current = match resolve_current_user(st, session_id, now) {
        Ok(name) => name,
        Err(e) => {
            return Err(e);
        },
    };
    if !(current == req.owner_user_name) {
        return Err(ServiceError::Unauthorized);
    }
    let gi = match st.find_group(&req.owner_user_name, &req.group_name) {
        Some(gi) => gi,
        None => {
            return Err(ServiceError::NotFound);
        },
    };
    let gid = st.groups[gi].group_id;
    let pi = match st.find_project_in_group(gid, &req.project_name) {
        Some(pi) => pi,
        None => {
            return Err(ServiceError::NotFound);
        },
    };
    let pid = st.projects[pi].project_id;
    let ki = match st.find_task_in_project(pid, &req.task_title) {
        Some(ki) => ki,
        None => {
            return Err(ServiceError::NotFound);
        },
    };
    st.tasks.remove(ki);
    proof {
        let ts = old(st).tasks@;
        let nts = final(st).tasks@;
        assert forall|x: int, y: int|
            #![trigger nts[x], nts[y]]
            0 <= x < y < nts.len() implies nts[x].task_id != nts[y].task_id by {
            lemma_remove_keeps(ts, ki as int, x);
            lemma_remove_keeps(ts, ki as int, y);
        }
        assert forall|x: int| 0 <= x < nts.len() implies final(st).id_ok(
            (#[trigger] nts[x]).task_id,
        ) && final(st).id_ok(nts[x].project_id) && final(st).id_ok(nts[x].worker_user_id)
            && nts[x].start_time.valid() && nts[x].end_time.valid() by {
            lemma_remove_keeps(ts, ki as int, x);
        }
        assert(final(st).wf());
    }
    Ok(())
}

} // verus!
