//! Group listing, creation, renaming and the cascading group delete.

use vstd::prelude::*;
use crate::auth::{resolve_current_user, resolve_ok, resolved_user};
use crate::error::ServiceError;
use crate::models::{GroupUserMapping, Project, Tag, TagProjectMapping, Task};
use crate::store::{
    first_group_match, group_by_id, has_group_id, has_group_match, has_session_id,
    has_user_id, lemma_filter_contained, lemma_filter_distinct, lemma_filter_extend,
    lemma_filter_whole, lemma_group_by_id, lemma_split_step, lemma_user_by_id, project_in_group,
    project_in_group_exec, session_with_id, user_by_id, Store,
};

verus! {

// ---------------------------------------------------------------------------
// Wire types.
// ---------------------------------------------------------------------------

pub struct GetGroupListRequest {}

/// One entry of the group list: a group the requesting user belongs to.
pub struct Group {
    pub group_name: String,
    pub writeable: bool,
    pub owner_username: String,
}

pub struct GetGroupListResponse {
    pub groups: Vec<Group>,
}

pub struct AddGroupRequest {
    pub group_name: String,
}

pub struct AddGroupResponse {
    pub success: bool,
    pub message: String,
}

pub struct UpdateGroupRequest {
    pub owner_user_name: String,
    pub group_name: String,
    pub new_group_name: String,
}

pub struct UpdateGroupResponse {
    pub success: bool,
    pub message: String,
}

pub struct DeleteGroupRequest {
    pub owner_user_name: String,
    pub group_name: String,
}

pub struct DeleteGroupResponse {
    pub success: bool,
    pub message: String,
}

// ---------------------------------------------------------------------------
// Group listing.
// ---------------------------------------------------------------------------

/// A membership row whose group and group owner both resolve.
pub open spec fn member_visible(st: Store, m: GroupUserMapping) -> bool {
    &&& has_group_id(st.groups@, m.group_id)
    &&& has_user_id(st.users@, group_by_id(st.groups@, m.group_id).owner_user_id)
}

/// Selects the membership rows of one user that the listing join surfaces.
pub open spec fn member_row_sel(st: Store, uid: i32) -> spec_fn(GroupUserMapping) -> bool {
    |m: GroupUserMapping| m.user_id == uid && member_visible(st, m)
}

/// The membership rows the group list of `uid` is built from, in table
/// order.
pub open spec fn member_rows_for(st: Store, uid: i32) -> Seq<GroupUserMapping> {
    st.memberships@.filter(member_row_sel(st, uid))
}

/// The list entry describes the group of this membership row.
pub open spec fn group_item_matches(st: Store, item: Group, m: GroupUserMapping) -> bool {
    let g = group_by_id(st.groups@, m.group_id);
    &&& item.group_name@ == g.group_name@
    &&& item.writeable == m.writeable
    &&& item.owner_username@ == user_by_id(st.users@, g.owner_user_id).user_name@
}

/// List every group the session's user is a member of, with the owner's
/// name and the member's write permission.
pub fn get_group_list(st: &Store, session_id: Option<&String>, now: i64) -> (r: Result<
    GetGroupListResponse,
    ServiceError,
>)
    requires
        st.wf(),
    ensures
        match r {
            Ok(resp) => {
                &&& session_id matches Some(sid)
                &&& has_session_id(st.sessions@, sid@)
                &&& session_with_id(st.sessions@, sid@).expires_at > now
                &&& ({
                    let uid = session_with_id(st.sessions@, sid@).user_id;
                    let sel = member_rows_for(*st, uid);
                    &&& resp.groups@.len() == sel.len()
                    &&& forall|p: int|
                        0 <= p < sel.len() ==> group_item_matches(
                            *st,
                            #[trigger] resp.groups@[p],
                            sel[p],
                        )
                })
            },
            Err(e) => match e {
                ServiceError::NoSession => session_id is None,
                ServiceError::Unauthorized => session_id matches Some(sid) && !(has_session_id(
                    st.sessions@,
                    sid@,
                ) && session_with_id(st.sessions@, sid@).expires_at > now),
                _ => false,
            },
        },
{
    let sid = match session_id {
        Some(s) => s,
        None => {
            return Err(ServiceError::NoSession);
        },
    };
    let k = match st.find_session_by_id(sid) {
        Some(k) => k,
        None => {
            return Err(ServiceError::Unauthorized);
        },
    };
    proof {
        crate::store::lemma_session_with_id(st.sessions@, k as int);
    }
    if !(st.sessions[k].expires_at > now) {
        return Err(ServiceError::Unauthorized);
    }
    let uid = st.sessions[k].user_id;
    let ghost sel_pred = member_row_sel(*st, uid);
    let mut groups: Vec<Group> = Vec::new();
    let n = st.memberships.len();
    let mut i: usize = 0;
    while i < n
        invariant
            st.wf(),
            n == st.memberships@.len(),
            i <= n,
            sel_pred == member_row_sel(*st, uid),
            groups@.len() == st.memberships@.subrange(0, i as int).filter(sel_pred).len(),
            forall|p: int|
                0 <= p < groups@.len() ==> group_item_matches(
                    *st,
                    #[trigger] groups@[p],
                    st.memberships@.subrange(0, i as int).filter(sel_pred)[p],
                ),
        decreases n - i,
    {
        proof {
            lemma_filter_extend(st.memberships@, sel_pred, i as int);
        }
        let m_user = st.memberships[i].user_id;
        let m_gid = st.memberships[i].group_id;
        let m_writeable = st.memberships[i].writeable;
        if m_user == uid {
            match st.find_group_by_id(m_gid) {
                Some(gi) => {
                    proof {
                        lemma_group_by_id(st.groups@, gi as int);
                    }
                    match st.find_user_by_id(st.groups[gi].owner_user_id) {
                        Some(ui) => {
                            proof {
                                lemma_user_by_id(st.users@, ui as int);
                            }
                            let item = Group {
                                group_name: st.groups[gi].group_name.clone(),
                                writeable: m_writeable,
                                owner_username: st.users[ui].user_name.clone(),
                            };
                            groups.push(item);
                            proof {
                                assert(member_row_sel(*st, uid)(st.memberships@[i as int]));
                            }
                        },
                        None => {
                            proof {
                                assert(!member_row_sel(*st, uid)(st.memberships@[i as int]));
                            }
                        },
                    }
                },
                None => {
                    proof {
                        assert(!member_row_sel(*st, uid)(st.memberships@[i as int]));
                    }
                },
            }
        } else {
            proof {
                assert(!member_row_sel(*st, uid)(st.memberships@[i as int]));
            }
        }
        i += 1;
    }
    proof {
        lemma_filter_whole(st.memberships@, sel_pred);
    }
    Ok(GetGroupListResponse { groups })
}

// ---------------------------------------------------------------------------
// Group creation.
// ---------------------------------------------------------------------------

/// Create a group owned by the session's user, together with the owner's
/// writeable membership row, as one atomic step.
pub fn add_group(st: &mut Store, session_id: Option<&String>, req: &AddGroupRequest, now: i64) -> (r:
    Result<(), ServiceError>)
    requires
        old(st).wf(),
    ensures
        final(st).wf(),
        final(st).users@ == old(st).users@,
        final(st).sessions@ == old(st).sessions@,
        final(st).projects@ == old(st).projects@,
        final(st).tags@ == old(st).tags@,
        final(st).tag_project_mappings@ == old(st).tag_project_mappings@,
        final(st).tasks@ == old(st).tasks@,
        match r {
            Ok(()) => {
                &&& session_id matches Some(sid)
                &&& has_session_id(old(st).sessions@, sid@)
                &&& session_with_id(old(st).sessions@, sid@).expires_at > now
                &&& old(st).next_id < i32::MAX
                &&& ({
                    let uid = session_with_id(old(st).sessions@, sid@).user_id;
                    &&& final(st).groups@ == old(st).groups@.push(
                        crate::models::Group {
                            group_id: old(st).next_id,
                            group_name: req.group_name,
                            owner_user_id: uid,
                        },
                    )
                    &&& final(st).memberships@ == old(st).memberships@.push(
                        GroupUserMapping {
                            group_id: old(st).next_id,
                            user_id: uid,
                            writeable: true,
                        },
                    )
                })
                &&& final(st).next_id == old(st).next_id + 1
            },
            Err(e) => {
                &&& final(st).groups@ == old(st).groups@
                &&& final(st).memberships@ == old(st).memberships@
                &&& final(st).next_id == old(st).next_id
                &&& match e {
                    ServiceError::NoSession => session_id is None,
                    ServiceError::Unauthorized => session_id matches Some(sid) && !(has_session_id(
                        old(st).sessions@,
                        sid@,
                    ) && session_with_id(old(st).sessions@, sid@).expires_at > now),
                    ServiceError::StorageFailure => session_id matches Some(sid) && has_session_id(
                        old(st).sessions@,
                        sid@,
                    ) && session_with_id(old(st).sessions@, sid@).expires_at > now && old(st).next_id == i32::MAX,
                    _ => false,
                }
            },
        },
{
    let sid = match session_id {
        Some(s) => s,
        None => {
            return Err(ServiceError::NoSession);
        },
    };
    let k = match st.find_session_by_id(sid) {
        Some(k) => k,
        None => {
            return Err(ServiceError::Unauthorized);
        },
    };
    proof {
        crate::store::lemma_session_with_id(st.sessions@, k as int);
    }
    if !(st.sessions[k].expires_at > now) {
        return Err(ServiceError::Unauthorized);
    }
    let uid = st.sessions[k].user_id;
    if st.next_id == i32::MAX {
        return Err(ServiceError::StorageFailure);
    }
    let gid = st.next_id;
    st.groups.push(
        crate::models::Group {
            group_id: gid,
            group_name: req.group_name.clone(),
            owner_user_id: uid,
        },
    );
    st.memberships.push(GroupUserMapping { group_id: gid, user_id: uid, writeable: true });
    st.next_id = st.next_id + 1;
    assert(final(st).wf());
    Ok(())
}

// ---------------------------------------------------------------------------
// Group renaming.
// ---------------------------------------------------------------------------

/// Rename a group.  The caller must present a live session whose username
/// equals the claimed owner name; an empty new name means "keep the current
/// name" and succeeds without a write.
pub fn update_group(st: &mut Store, session_id: Option<&String>, req: &UpdateGroupRequest, now: i64)
    -> (r: Result<(), ServiceError>)
    requires
        old(st).wf(),
    ensures
        final(st).wf(),
        final(st).users@ == old(st).users@,
        final(st).sessions@ == old(st).sessions@,
        final(st).memberships@ == old(st).memberships@,
        final(st).projects@ == old(st).projects@,
        final(st).tags@ == old(st).tags@,
        final(st).tag_project_mappings@ == old(st).tag_project_mappings@,
        final(st).tasks@ == old(st).tasks@,
        final(st).next_id == old(st).next_id,
        match r {
            Ok(()) => {
                &&& session_id matches Some(sid)
                &&& resolve_ok(*old(st), sid@, now)
                &&& resolved_user(*old(st), sid@).user_name@ == req.owner_user_name@
                &&& exists|gi: int|
                    #[trigger] first_group_match(
                        *old(st),
                        req.owner_user_name@,
                        req.group_name@,
                        gi,
                    ) && (if req.new_group_name@.len() == 0 {
                        final(st).groups@ == old(st).groups@
                    } else {
                        final(st).groups@ == old(st).groups@.update(
                            gi,
                            crate::models::Group {
                                group_id: old(st).groups@[gi].group_id,
                                group_name: req.new_group_name,
                                owner_user_id: old(st).groups@[gi].owner_user_id,
                            },
                        )
                    })
            },
            Err(e) => {
                &&& final(st).groups@ == old(st).groups@
                &&& match e {
                    ServiceError::NoSession => session_id is None,
                    ServiceError::Unauthorized => session_id matches Some(sid) && (!resolve_ok(
                        *old(st),
                        sid@,
                        now,
                    ) || resolved_user(*old(st), sid@).user_name@ != req.owner_user_name@),
                    ServiceError::NotFound => session_id matches Some(sid) && resolve_ok(
                        *old(st),
                        sid@,
                        now,
                    ) && resolved_user(*old(st), sid@).user_name@ == req.owner_user_name@
                        && !has_group_match(*old(st), req.owner_user_name@, req.group_name@),
                    _ => false,
                }
            },
        },
{
    let current = match resolve_current_user(st, session_id, now) {
        Ok(name) => name,
        Err(e) => {
            return Err(e);
        },
    };
    if !(current == req.owner_user_name) {
        return Err(ServiceError::Unauthorized);
    }
    let gi = match st.find_group(&req.owner_user_name, &req.group_name) {
        Some(gi) => gi,
        None => {
            return Err(ServiceError::NotFound);
        },
    };
    if req.new_group_name.as_str().is_empty() {
        return Ok(());
    }
    let row = crate::models::Group {
        group_id: st.groups[gi].group_id,
        group_name: req.new_group_name.clone(),
        owner_user_id: st.groups[gi].owner_user_id,
    };
    st.groups[gi] = row;
    assert(final(st).wf());
    Ok(())
}

// ---------------------------------------------------------------------------
// Cascading group delete.
// ---------------------------------------------------------------------------

/// Keeps the tasks that do not belong to a project of the doomed group.
pub open spec fn keeps_task(st: Store, gid: i32) -> spec_fn(Task) -> bool {
    |t: Task| !project_in_group(st.projects@, t.project_id, gid)
}

/// Keeps the tag-project mappings whose project is not in the doomed group.
pub open spec fn keeps_mapping(st: Store, gid: i32) -> spec_fn(TagProjectMapping) -> bool {
    |m: TagProjectMapping| !project_in_group(st.projects@, m.project_id, gid)
}

/// Keeps the projects outside the doomed group.
pub open spec fn keeps_project(gid: i32) -> spec_fn(Project) -> bool {
    |p: Project| p.group_id != gid
}

/// Keeps the tags outside the doomed group.
pub open spec fn keeps_tag(gid: i32) -> spec_fn(Tag) -> bool {
    |t: Tag| t.group_id != gid
}

/// Keeps the membership rows outside the doomed group.
pub open spec fn keeps_membership(gid: i32) -> spec_fn(GroupUserMapping) -> bool {
    |m: GroupUserMapping| m.group_id != gid
}

/// Keeps every other group row.
pub open spec fn keeps_group(gid: i32) -> spec_fn(crate::models::Group) -> bool {
    |g: crate::models::Group| g.group_id != gid
}

/// Delete a group and everything beneath it, children before parents:
/// tasks of its projects, tag-project mappings of its projects, its
/// projects, its tags, its membership rows, and finally the group row.
/// Afterwards no row of any table refers to the group.  The whole cascade
/// is one atomic step: on any refusal nothing has changed.
pub fn delete_group(st: &mut Store, session_id: Option<&String>, req: &DeleteGroupRequest, now: i64)
    -> (r: Result<(), ServiceError>)
    requires
        old(st).wf(),
    ensures
        final(st).wf(),
        final(st).users@ == old(st).users@,
        final(st).sessions@ == old(st).sessions@,
        final(st).next_id == old(st).next_id,
        match r {
            Ok(()) => {
                &&& session_id matches Some(sid)
                &&& resolve_ok(*old(st), sid@, now)
                &&& resolved_user(*old(st), sid@).user_name@ == req.owner_user_name@
                &&& exists|gi: int|
                    #[trigger] first_group_match(
                        *old(st),
                        req.owner_user_name@,
                        req.group_name@,
                        gi,
                    ) && ({
                        let gid = old(st).groups@[gi].group_id;
                        &&& final(st).tasks@ == old(st).tasks@.filter(keeps_task(*old(st), gid))
                        &&& final(st).tag_project_mappings@ == old(st).tag_project_mappings@.filter(keeps_mapping(*old(st), gid))
                        &&& final(st).projects@ == old(st).projects@.filter(keeps_project(gid))
                        &&& final(st).tags@ == old(st).tags@.filter(keeps_tag(gid))
                        &&& final(st).memberships@ == old(st).memberships@.filter(
                            keeps_membership(gid),
                        )
                        &&& final(st).groups@ == old(st).groups@.filter(keeps_group(gid))
                        &&& !has_group_id(final(st).groups@, gid)
                        &&& forall|i: int|
                            0 <= i < final(st).projects@.len() ==> (#[trigger] final(st).projects@[i]).group_id != gid
                        &&& forall|i: int|
                            0 <= i < final(st).tags@.len() ==> (#[trigger] final(st).tags@[i]).group_id != gid
                        &&& forall|i: int|
                            0 <= i < final(st).memberships@.len() ==> (#[trigger] final(st).memberships@[i]).group_id != gid
                        &&& forall|i: int|
                            0 <= i < final(st).tasks@.len() ==> !project_in_group(
                                old(st).projects@,
                                (#[trigger] final(st).tasks@[i]).project_id,
                                gid,
                            )
                        &&& forall|i: int|
                            0 <= i < final(st).tag_project_mappings@.len() ==> !project_in_group(
                                old(st).projects@,
                                (#[trigger] final(st).tag_project_mappings@[i]).project_id,
                                gid,
                            )
                    })
            },
            Err(e) => {
                &&& final(st).groups@ == old(st).groups@
                &&& final(st).memberships@ == old(st).memberships@
                &&& final(st).projects@ == old(st).projects@
                &&& final(st).tags@ == old(st).tags@
                &&& final(st).tag_project_mappings@ == old(st).tag_project_mappings@
                &&& final(st).tasks@ == old(st).tasks@
                &&& match e {
                    ServiceError::NoSession => session_id is None,
                    ServiceError::Unauthorized => session_id matches Some(sid) && (!resolve_ok(
                        *old(st),
                        sid@,
                        now,
                    ) || resolved_user(*old(st), sid@).user_name@ != req.owner_user_name@),
                    ServiceError::NotFound => session_id matches Some(sid) && resolve_ok(
                        *old(st),
                        sid@,
                        now,
                    ) && resolved_user(*old(st), sid@).user_name@ == req.owner_user_name@
                        && !has_group_match(*old(st), req.owner_user_name@, req.group_name@),
                    _ => false,
                }
            },
        },
{
    let current = match resolve_current_user(st, session_id, now) {
        Ok(name) => name,
        Err(e) => {
            return Err(e);
        },
    };
    if !(current == req.owner_user_name) {
        return Err(ServiceError::Unauthorized);
    }
    let gi = match st.find_group(&req.owner_user_name, &req.group_name) {
        Some(gi) => gi,
        None => {
            return Err(ServiceError::NotFound);
        },
    };
    let gid = st.groups[gi].group_id;

    // 1. Tasks of the group's projects.
    let ghost keep_t = keeps_task(*old(st), gid);
    let ghost orig_tasks = st.tasks@;
    let mut i: usize = 0;
    let ghost mut j: int = 0;
    while i < st.tasks.len()
        invariant
            0 <= j <= orig_tasks.len(),
            i as int == orig_tasks.subrange(0, j).filter(keep_t).len(),
            st.tasks@ == orig_tasks.subrange(0, j).filter(keep_t) + orig_tasks.subrange(
                j,
                orig_tasks.len() as int,
            ),
            st.users@ == old(st).users@,
            st.sessions@ == old(st).sessions@,
            st.groups@ == old(st).groups@,
            st.memberships@ == old(st).memberships@,
            st.projects@ == old(st).projects@,
            st.tags@ == old(st).tags@,
            st.tag_project_mappings@ == old(st).tag_project_mappings@,
            st.next_id == old(st).next_id,
            keep_t == keeps_task(*old(st), gid),
            orig_tasks == old(st).tasks@,
        decreases orig_tasks.len() - j,
    {
        let ghost a = orig_tasks.subrange(0, j).filter(keep_t);
        let ghost b = orig_tasks.subrange(j, orig_tasks.len() as int);
        proof {
            lemma_split_step(a, b);
            assert(b.subrange(1, b.len() as int) =~= orig_tasks.subrange(
                j + 1,
                orig_tasks.len() as int,
            ));
            lemma_filter_extend(orig_tasks, keep_t, j);
        }
        let pid = st.tasks[i].project_id;
        if project_in_group_exec(&st.projects, pid, gid) {
            st.tasks.remove(i);
        } else {
            i += 1;
        }
        proof {
            j = j + 1;
        }
    }
    proof {
        assert(orig_tasks.subrange(j, orig_tasks.len() as int).len() == 0);
        lemma_filter_whole(orig_tasks, keep_t);
        assert(st.tasks@ =~= orig_tasks.filter(keep_t));
    }
    let ghost tasks_done = st.tasks@;

    // 2. Tag-project mappings of the group's projects.
    let ghost keep_m = keeps_mapping(*old(st), gid);
    let ghost orig_maps = st.tag_project_mappings@;
    let mut i2: usize = 0;
    let ghost mut j2: int = 0;
    while i2 < st.tag_project_mappings.len()
        invariant
            0 <= j2 <= orig_maps.len(),
            i2 as int == orig_maps.subrange(0, j2).filter(keep_m).len(),
            st.tag_project_mappings@ == orig_maps.subrange(0, j2).filter(keep_m)
                + orig_maps.subrange(j2, orig_maps.len() as int),
            st.users@ == old(st).users@,
            st.sessions@ == old(st).sessions@,
            st.groups@ == old(st).groups@,
            st.memberships@ == old(st).memberships@,
            st.projects@ == old(st).projects@,
            st.tags@ == old(st).tags@,
            st.tasks@ == tasks_done,
            st.next_id == old(st).next_id,
            keep_m == keeps_mapping(*old(st), gid),
            orig_maps == old(st).tag_project_mappings@,
        decreases orig_maps.len() - j2,
    {
        let ghost a = orig_maps.subrange(0, j2).filter(keep_m);
        let ghost b = orig_maps.subrange(j2, orig_maps.len() as int);
        proof {
            lemma_split_step(a, b);
            assert(b.subrange(1, b.len() as int) =~= orig_maps.subrange(
                j2 + 1,
                orig_maps.len() as int,
            ));
            lemma_filter_extend(orig_maps, keep_m, j2);
        }
        let pid = st.tag_project_mappings[i2].project_id;
        if project_in_group_exec(&st.projects, pid, gid) {
            st.tag_project_mappings.remove(i2);
        } else {
            i2 += 1;
        }
        proof {
            j2 = j2 + 1;
        }
    }
    proof {
        assert(orig_maps.subrange(j2, orig_maps.len() as int).len() == 0);
        lemma_filter_whole(orig_maps, keep_m);
        assert(st.tag_project_mappings@ =~= orig_maps.filter(keep_m));
    }
    let ghost maps_done = st.tag_project_mappings@;

    // 3. The group's projects.
    let ghost keep_p = keeps_project(gid);
    let ghost orig_projects = st.projects@;
    let mut i3: usize = 0;
    let ghost mut j3: int = 0;
    while i3 < st.projects.len()
        invariant
            0 <= j3 <= orig_projects.len(),
            i3 as int == orig_projects.subrange(0, j3).filter(keep_p).len(),
            st.projects@ == orig_projects.subrange(0, j3).filter(keep_p) + orig_projects.subrange(
                j3,
                orig_projects.len() as int,
            ),
            st.users@ == old(st).users@,
            st.sessions@ == old(st).sessions@,
            st.groups@ == old(st).groups@,
            st.memberships@ == old(st).memberships@,
            st.tags@ == old(st).tags@,
            st.tag_project_mappings@ == maps_done,
            st.tasks@ == tasks_done,
            st.next_id == old(st).next_id,
            keep_p == keeps_project(gid),
            orig_projects == old(st).projects@,
        decreases orig_projects.len() - j3,
    {
        let ghost a = orig_projects.subrange(0, j3).filter(keep_p);
        let ghost b = orig_projects.subrange(j3, orig_projects.len() as int);
        proof {
            lemma_split_step(a, b);
            assert(b.subrange(1, b.len() as int) =~= orig_projects.subrange(
                j3 + 1,
                orig_projects.len() as int,
            ));
            lemma_filter_extend(orig_projects, keep_p, j3);
        }
        if st.projects[i3].group_id == gid {
            st.projects.remove(i3);
        } else {
            i3 += 1;
        }
        proof {
            j3 = j3 + 1;
        }
    }
    proof {
        assert(orig_projects.subrange(j3, orig_projects.len() as int).len() == 0);
        lemma_filter_whole(orig_projects, keep_p);
        assert(st.projects@ =~= orig_projects.filter(keep_p));
    }
    let ghost projects_done = st.projects@;

    // 4. The group's tags.
    let ghost keep_g = keeps_tag(gid);
    let ghost orig_tags = st.tags@;
    let mut i4: usize = 0;
    let ghost mut j4: int = 0;
    while i4 < st.tags.len()
        invariant
            0 <= j4 <= orig_tags.len(),
            i4 as int == orig_tags.subrange(0, j4).filter(keep_g).len(),
            st.tags@ == orig_tags.subrange(0, j4).filter(keep_g) + orig_tags.subrange(
                j4,
                orig_tags.len() as int,
            ),
            st.users@ == old(st).users@,
            st.sessions@ == old(st).sessions@,
            st.groups@ == old(st).groups@,
            st.memberships@ == old(st).memberships@,
            st.projects@ == projects_done,
            st.tag_project_mappings@ == maps_done,
            st.tasks@ == tasks_done,
            st.next_id == old(st).next_id,
            keep_g == keeps_tag(gid),
            orig_tags == old(st).tags@,
        decreases orig_tags.len() - j4,
    {
        let ghost a = orig_tags.subrange(0, j4).filter(keep_g);
        let ghost b = orig_tags.subrange(j4, orig_tags.len() as int);
        proof {
            lemma_split_step(a, b);
            assert(b.subrange(1, b.len() as int) =~= orig_tags.subrange(
                j4 + 1,
                orig_tags.len() as int,
            ));
            lemma_filter_extend(orig_tags, keep_g, j4);
        }
        if st.tags[i4].group_id == gid {
            st.tags.remove(i4);
        } else {
            i4 += 1;
        }
        proof {
            j4 = j4 + 1;
        }
    }
    proof {
        assert(orig_tags.subrange(j4, orig_tags.len() as int).len() == 0);
        lemma_filter_whole(orig_tags, keep_g);
        assert(st.tags@ =~= orig_tags.filter(keep_g));
    }
    let ghost tags_done = st.tags@;

    // 5. The group's membership rows.
    let ghost keep_mb = keeps_membership(gid);
    let ghost orig_members = st.memberships@;
    let mut i5: usize = 0;
    let ghost mut j5: int = 0;
    while i5 < st.memberships.len()
        invariant
            0 <= j5 <= orig_members.len(),
            i5 as int == orig_members.subrange(0, j5).filter(keep_mb).len(),
            st.memberships@ == orig_members.subrange(0, j5).filter(keep_mb)
                + orig_members.subrange(j5, orig_members.len() as int),
            st.users@ == old(st).users@,
            st.sessions@ == old(st).sessions@,
            st.groups@ == old(st).groups@,
            st.projects@ == projects_done,
            st.tags@ == tags_done,
            st.tag_project_mappings@ == maps_done,
            st.tasks@ == tasks_done,
            st.next_id == old(st).next_id,
            keep_mb == keeps_membership(gid),
            orig_members == old(st).memberships@,
        decreases orig_members.len() - j5,
    {
        let ghost a = orig_members.subrange(0, j5).filter(keep_mb);
        let ghost b = orig_members.subrange(j5, orig_members.len() as int);
        proof {
            lemma_split_step(a, b);
            assert(b.subrange(1, b.len() as int) =~= orig_members.subrange(
                j5 + 1,
                orig_members.len() as int,
            ));
            lemma_filter_extend(orig_members, keep_mb, j5);
        }
        if st.memberships[i5].group_id == gid {
            st.memberships.remove(i5);
        } else {
            i5 += 1;
        }
        proof {
            j5 = j5 + 1;
        }
    }
    proof {
        assert(orig_members.subrange(j5, orig_members.len() as int).len() == 0);
        lemma_filter_whole(orig_members, keep_mb);
        assert(st.memberships@ =~= orig_members.filter(keep_mb));
    }
    let ghost members_done = st.memberships@;

    // 6. The group row itself.
    let ghost keep_gr = keeps_group(gid);
    let ghost orig_groups = st.groups@;
    let mut i6: usize = 0;
    let ghost mut j6: int = 0;
    while i6 < st.groups.len()
        invariant
            0 <= j6 <= orig_groups.len(),
            i6 as int == orig_groups.subrange(0, j6).filter(keep_gr).len(),
            st.groups@ == orig_groups.subrange(0, j6).filter(keep_gr) + orig_groups.subrange(
                j6,
                orig_groups.len() as int,
            ),
            st.users@ == old(st).users@,
            st.sessions@ == old(st).sessions@,
            st.memberships@ == members_done,
            st.projects@ == projects_done,
            st.tags@ == tags_done,
            st.tag_project_mappings@ == maps_done,
            st.tasks@ == tasks_done,
            st.next_id == old(st).next_id,
            keep_gr == keeps_group(gid),
            orig_groups == old(st).groups@,
        decreases orig_groups.len() - j6,
    {
        let ghost a = orig_groups.subrange(0, j6).filter(keep_gr);
        let ghost b = orig_groups.subrange(j6, orig_groups.len() as int);
        proof {
            lemma_split_step(a, b);
            assert(b.subrange(1, b.len() as int) =~= orig_groups.subrange(
                j6 + 1,
                orig_groups.len() as int,
            ));
            lemma_filter_extend(orig_groups, keep_gr, j6);
        }
        if st.groups[i6].group_id == gid {
            st.groups.remove(i6);
        } else {
            i6 += 1;
        }
        proof {
            j6 = j6 + 1;
        }
    }
    proof {
        assert(orig_groups.subrange(j6, orig_groups.len() as int).len() == 0);
        lemma_filter_whole(orig_groups, keep_gr);
        assert(st.groups@ =~= orig_groups.filter(keep_gr));
    }

    proof {
        let st0 = *old(st);
        // Residual-row facts: every surviving row satisfies its keep
        // predicate.
        assert forall|p: int| 0 <= p < final(st).groups@.len() implies (#[trigger] final(st).groups@[p]).group_id != gid by {
            st0.groups@.lemma_filter_pred(keep_gr, p);
        }
        assert forall|p: int| 0 <= p < final(st).projects@.len() implies (#[trigger] final(st).projects@[p]).group_id != gid by {
            st0.projects@.lemma_filter_pred(keep_p, p);
        }
        assert forall|p: int| 0 <= p < final(st).tags@.len() implies (#[trigger] final(st).tags@[p]).group_id != gid by {
            st0.tags@.lemma_filter_pred(keep_g, p);
        }
        assert forall|p: int| 0 <= p < final(st).memberships@.len() implies (#[trigger] final(st).memberships@[p]).group_id != gid by {
            st0.memberships@.lemma_filter_pred(keep_mb, p);
        }
        assert forall|p: int| 0 <= p < final(st).tasks@.len() implies !project_in_group(
            st0.projects@,
            (#[trigger] final(st).tasks@[p]).project_id,
            gid,
        ) by {
            st0.tasks@.lemma_filter_pred(keep_t, p);
        }
        assert forall|p: int| 0 <= p < final(st).tag_project_mappings@.len() implies !project_in_group(
            st0.projects@,
            (#[trigger] final(st).tag_project_mappings@[p]).project_id,
            gid,
        ) by {
            st0.tag_project_mappings@.lemma_filter_pred(keep_m, p);
        }
        assert(!has_group_id(final(st).groups@, gid));

        // Well-formedness of the remaining state.
        lemma_filter_distinct(st0.groups@, keep_gr, |g: crate::models::Group| g.group_id);
        lemma_filter_distinct(
            st0.memberships@,
            keep_mb,
            |m: GroupUserMapping| (m.group_id, m.user_id),
        );
        lemma_filter_distinct(st0.projects@, keep_p, |p: Project| p.project_id);
        lemma_filter_distinct(st0.tags@, keep_g, |t: Tag| t.tag_id);
        lemma_filter_distinct(st0.tasks@, keep_t, |t: Task| t.task_id);
        lemma_filter_contained(st0.tag_project_mappings@, keep_m);
        assert forall|p: int| 0 <= p < final(st).groups@.len() implies final(st).id_ok(
            (#[trigger] final(st).groups@[p]).group_id,
        ) && final(st).id_ok(final(st).groups@[p].owner_user_id) by {
            assert(st0.groups@.contains(final(st).groups@[p]));
            let q = choose|q: int|
                0 <= q < st0.groups@.len() && st0.groups@[q] == final(st).groups@[p];
        }
        assert forall|p: int| 0 <= p < final(st).memberships@.len() implies final(st).id_ok(
            (#[trigger] final(st).memberships@[p]).group_id,
        ) && final(st).id_ok(final(st).memberships@[p].user_id) by {
            assert(st0.memberships@.contains(final(st).memberships@[p]));
            let q = choose|q: int|
                0 <= q < st0.memberships@.len() && st0.memberships@[q] == final(st).memberships@[p];
        }
        assert forall|p: int| 0 <= p < final(st).projects@.len() implies final(st).id_ok(
            (#[trigger] final(st).projects@[p]).project_id,
        ) && final(st).id_ok(final(st).projects@[p].group_id) by {
            assert(st0.projects@.contains(final(st).projects@[p]));
            let q = choose|q: int|
                0 <= q < st0.projects@.len() && st0.projects@[q] == final(st).projects@[p];
        }
        assert forall|p: int| 0 <= p < final(st).tags@.len() implies final(st).id_ok(
            (#[trigger] final(st).tags@[p]).tag_id,
        ) && final(st).id_ok(final(st).tags@[p].group_id) by {
            assert(st0.tags@.contains(final(st).tags@[p]));
            let q = choose|q: int| 0 <= q < st0.tags@.len() && st0.tags@[q] == final(st).tags@[p];
        }
        assert forall|p: int| 0 <= p < final(st).tasks@.len() implies final(st).id_ok(
            (#[trigger] final(st).tasks@[p]).task_id,
        ) && final(st).id_ok(final(st).tasks@[p].project_id) && final(st).id_ok(
            final(st).tasks@[p].worker_user_id,
        ) by {
            assert(st0.tasks@.contains(final(st).tasks@[p]));
            let q = choose|q: int|
                0 <= q < st0.tasks@.len() && st0.tasks@[q] == final(st).tasks@[p];
        }
        assert forall|p: int| 0 <= p < final(st).tag_project_mappings@.len() implies final(st).id_ok((#[trigger] final(st).tag_project_mappings@[p]).tag_id) && final(st).id_ok(
            final(st).tag_project_mappings@[p].project_id,
        ) by {
            assert(st0.tag_project_mappings@.contains(final(st).tag_project_mappings@[p]));
            let q = choose|q: int|
                0 <= q < st0.tag_project_mappings@.len() && st0.tag_project_mappings@[q] == final(st).tag_project_mappings@[p];
        }
        assert(final(st).wf());
    }
    Ok(())
}

} // verus!
