//! Projects: detail view, creation with tag mappings, partial update with
//! tag remapping, and the cascading project delete.

use vstd::prelude::*;
use crate::auth::{resolve_current_user, resolve_ok, resolved_user};
use crate::error::ServiceError;
use crate::models::TagProjectMapping;
use crate::queries::views_of;
use crate::store::{
    first_group_match, first_project_match, first_tag_index, has_group_match,
    has_project_id, has_project_match, has_tag_match, lemma_filter_contained,
    lemma_filter_distinct, lemma_filter_extend, lemma_filter_whole, lemma_first_tag_unique,
    lemma_remove_keeps, lemma_split_step, Store,
};

verus! {

// ---------------------------------------------------------------------------
// Wire types.
// ---------------------------------------------------------------------------

pub struct GetProjectDetailRequest {
    pub owner_user_name: String,
    pub group_name: String,
    pub project_name: String,
}

pub struct GetProjectDetailResponse {
    pub project_name: String,
    pub project_description: String,
    pub tags: Vec<String>,
}

pub struct AddProjectRequest {
    pub owner_user_name: String,
    pub group_name: String,
    pub project_name: String,
    pub project_descr: String,
    pub tags: Vec<String>,
}

pub struct AddProjectResponse {
    pub success: bool,
    pub message: String,
}

pub struct UpdateProjectRequest {
    pub owner_user_name: String,
    pub group_name: String,
    pub project_name: String,
    pub new_project_name: String,
    pub new_project_descr: String,
    pub new_tags: Vec<String>,
}

pub struct UpdateProjectResponse {
    pub success: bool,
    pub message: String,
}

pub struct DeleteProjectRequest {
    pub owner_user_name: String,
    pub group_name: String,
    pub project_name: String,
}

pub struct DeleteProjectResponse {
    pub success: bool,
    pub message: String,
}

// ---------------------------------------------------------------------------
// Project detail.
// ---------------------------------------------------------------------------

/// Some project row of the group carries this id and this name.
pub open spec fn project_named_in_group(st: Store, pid: i32, gid: i32, name: Seq<char>) -> bool {
    exists|p: int|
        0 <= p < st.projects@.len() && (#[trigger] st.projects@[p]).project_id == pid
            && st.projects@[p].group_id == gid && st.projects@[p].project_name@ == name
}

/// The tag is mapped to some project of the group with this name.
pub open spec fn tag_labels(st: Store, gid: i32, name: Seq<char>, tid: i32) -> bool {
    exists|k: int|
        0 <= k < st.tag_project_mappings@.len() && (#[trigger] st.tag_project_mappings@[k]).tag_id
            == tid && project_named_in_group(st, st.tag_project_mappings@[k].project_id, gid, name)
}

/// Selects the tags mapped to a project of the group with this name.
pub open spec fn tag_label_sel(st: Store, gid: i32, name: Seq<char>) -> spec_fn(
    crate::models::Tag,
) -> bool {
    |t: crate::models::Tag| tag_labels(st, gid, name, t.tag_id)
}

/// The name of a tag row.
pub open spec fn label_of() -> spec_fn(crate::models::Tag) -> Seq<char> {
    |t: crate::models::Tag| t.tag_name@
}

/// Whether some project of the group with this name exists and this tag is
/// mapped to it.
fn tag_labels_exec(st: &Store, gid: i32, name: &String, tid: i32) -> (r: bool)
    ensures
        r == tag_labels(*st, gid, name@, tid),
{
    let n = st.tag_project_mappings.len();
    let mut i: usize = 0;
    while i < n
        invariant
            n == st.tag_project_mappings@.len(),
            i <= n,
            forall|k: int|
                0 <= k < i ==> !((#[trigger] st.tag_project_mappings@[k]).tag_id == tid
                    && project_named_in_group(
                    *st,
                    st.tag_project_mappings@[k].project_id,
                    gid,
                    name@,
                )),
        decreases n - i,
    {
        if st.tag_project_mappings[i].tag_id == tid {
            let pid = st.tag_project_mappings[i].project_id;
            let m = st.projects.len();
            let mut p: usize = 0;
            let mut found = false;
            while p < m
                invariant
                    m == st.projects@.len(),
                    p <= m,
                    found ==> project_named_in_group(*st, pid, gid, name@),
                    !found ==> forall|q: int|
                        0 <= q < p ==> !((#[trigger] st.projects@[q]).project_id == pid
                            && st.projects@[q].group_id == gid && st.projects@[q].project_name@
                            == name@),
                decreases m - p,
            {
                if !found && st.projects[p].project_id == pid && st.projects[p].group_id == gid
                    && st.projects[p].project_name == *name {
                    found = true;
                }
                p += 1;
            }
            if found {
                return true;
            }
        }
        i += 1;
    }
    false
}

/// A project's name, description, and the names of the tags mapped to any
/// equally named project of the group, in tag-table order.
pub fn get_project_detail(st: &Store, req: &GetProjectDetailRequest) -> (r: Result<
    GetProjectDetailResponse,
    ServiceError,
>)
    requires
        st.wf(),
    ensures
        match r {
            Ok(resp) => {
                &&& exists|gi: int|
                    #[trigger] first_group_match(
                        *st,
                        req.owner_user_name@,
                        req.group_name@,
                        gi,
                    ) && ({
                        let gid = st.groups@[gi].group_id;
                        &&& exists|pi: int|
                            #[trigger] first_project_match(
                                st.projects@,
                                gid,
                                req.project_name@,
                                pi,
                            ) && resp.project_name@ == st.projects@[pi].project_name@
                                && resp.project_description@
                                == st.projects@[pi].project_description@
                        &&& views_of(resp.tags@) == st.tags@.filter(
                            tag_label_sel(*st, gid, req.project_name@),
                        ).map_values(label_of())
                    })
            },
            Err(e) => match e {
                ServiceError::NotFound => !has_group_match(
                    *st,
                    req.owner_user_name@,
                    req.group_name@,
                ) || exists|gi: int|
                    #[trigger] first_group_match(
                        *st,
                        req.owner_user_name@,
                        req.group_name@,
                        gi,
                    ) && !has_project_match(
                        st.projects@,
                        st.groups@[gi].group_id,
                        req.project_name@,
                    ),
                _ => false,
            },
        },
{
    let gi = match st.find_group(&req.owner_user_name, &req.group_name) {
        Some(gi) => gi,
        None => {
            return Err(ServiceError::NotFound);
        },
    };
    let gid = st.groups[gi].group_id;
    let pi = match st.find_project_in_group(gid, &req.project_name) {
        Some(pi) => pi,
        None => {
            return Err(ServiceError::NotFound);
        },
    };
    let ghost sel = tag_label_sel(*st, gid, req.project_name@);
    let mut labels: Vec<String> = Vec::new();
    let n = st.tags.len();
    let mut i: usize = 0;
    while i < n
        invariant
            n == st.tags@.len(),
            i <= n,
            sel == tag_label_sel(*st, gid, req.project_name@),
            views_of(labels@) == st.tags@.subrange(0, i as int).filter(sel).map_values(label_of()),
        decreases n - i,
    {
        proof {
            lemma_filter_extend(st.tags@, sel, i as int);
        }
        if tag_labels_exec(st, gid, &req.project_name, st.tags[i].tag_id) {
            labels.push(st.tags[i].tag_name.clone());
            proof {
                crate::store::lemma_map_values_push(
                    st.tags@.subrange(0, i as int).filter(sel),
                    label_of(),
                    st.tags@[i as int],
                );
                assert(views_of(labels@) =~= st.tags@.subrange(0, i as int + 1).filter(
                    sel,
                ).map_values(label_of()));
            }
        }
        i += 1;
    }
    proof {
        lemma_filter_whole(st.tags@, sel);
    }
    Ok(
        GetProjectDetailResponse {
            project_name: st.projects[pi].project_name.clone(),
            project_description: st.projects[pi].project_description.clone(),
            tags: labels,
        },
    )
}

// ---------------------------------------------------------------------------
// Project creation.
// ---------------------------------------------------------------------------

/// The tag id the single-row lookup of (group, name) yields.
pub open spec fn tag_lookup_id(ts: Seq<crate::models::Tag>, gid: i32, name: Seq<char>) -> i32 {
    ts[first_tag_index(ts, gid, name)].tag_id
}

/// The mapping rows created for a request's tag names, in request order:
/// one row per name that resolves to a tag of the group, names that
/// resolve to nothing silently skipped.
pub open spec fn mappings_for_tags(
    ts: Seq<crate::models::Tag>,
    gid: i32,
    pid: i32,
    names: Seq<String>,
) -> Seq<TagProjectMapping>
    decreases names.len(),
{
    if names.len() == 0 {
        Seq::empty()
    } else {
        let rest = mappings_for_tags(ts, gid, pid, names.drop_last());
        if has_tag_match(ts, gid, names.last()@) {
            rest.push(
                TagProjectMapping {
                    tag_id: tag_lookup_id(ts, gid, names.last()@),
                    project_id: pid,
                },
            )
        } else {
            rest
        }
    }
}

/// Every created mapping row maps the new project to an existing tag.
pub proof fn lemma_mappings_for_tags_rows(
    ts: Seq<crate::models::Tag>,
    gid: i32,
    pid: i32,
    names: Seq<String>,
)
    ensures
        forall|i: int|
            0 <= i < mappings_for_tags(ts, gid, pid, names).len() ==> (
            #[trigger] mappings_for_tags(ts, gid, pid, names)[i]).project_id == pid && exists|
                j: int,
            |
                0 <= j < ts.len() && (#[trigger] ts[j]).tag_id == mappings_for_tags(
                    ts,
                    gid,
                    pid,
                    names,
                )[i].tag_id,
    decreases names.len(),
{
    if names.len() > 0 {
        lemma_mappings_for_tags_rows(ts, gid, pid, names.drop_last());
        let mft = mappings_for_tags(ts, gid, pid, names);
        let rest = mappings_for_tags(ts, gid, pid, names.drop_last());
        if has_tag_match(ts, gid, names.last()@) {
            crate::store::lemma_first_tag_exists(ts, gid, names.last()@);
            let ti = first_tag_index(ts, gid, names.last()@);
            let row = TagProjectMapping {
                tag_id: tag_lookup_id(ts, gid, names.last()@),
                project_id: pid,
            };
            assert(ts[ti].tag_id == row.tag_id);
            assert(mft == rest.push(row));
            assert forall|i: int| 0 <= i < mft.len() implies (#[trigger] mft[i]).project_id == pid
                && exists|j: int| 0 <= j < ts.len() && (#[trigger] ts[j]).tag_id
                == mft[i].tag_id by {
                if i < rest.len() {
                    assert(mft[i] == rest[i]);
                } else {
                    assert(mft[i] == row);
                }
            }
        } else {
            assert(mft == rest);
            assert forall|i: int| 0 <= i < mft.len() implies (#[trigger] mft[i]).project_id == pid
                && exists|j: int| 0 <= j < ts.len() && (#[trigger] ts[j]).tag_id
                == mft[i].tag_id by {
                assert(mft[i] == rest[i]);
            }
        }
    }
}

/// Append the mapping rows for a list of tag names to the store.
fn add_tag_mappings(st: &mut Store, gid: i32, pid: i32, names: &Vec<String>)
    requires
        old(st).wf(),
        old(st).id_ok(pid),
    ensures
        final(st).wf(),
        final(st).users@ == old(st).users@,
        final(st).sessions@ == old(st).sessions@,
        final(st).groups@ == old(st).groups@,
        final(st).memberships@ == old(st).memberships@,
        final(st).projects@ == old(st).projects@,
        final(st).tags@ == old(st).tags@,
        final(st).tasks@ == old(st).tasks@,
        final(st).next_id == old(st).next_id,
        final(st).tag_project_mappings@ == old(st).tag_project_mappings@ + mappings_for_tags(
            old(st).tags@,
            gid,
            pid,
            names@,
        ),
{
    let ghost orig_maps = st.tag_project_mappings@;
    let n = names.len();
    let mut k: usize = 0;
    while k < n
        invariant
            old(st).wf(),
            old(st).id_ok(pid),
            n == names@.len(),
            k <= n,
            st.users@ == old(st).users@,
            st.sessions@ == old(st).sessions@,
            st.groups@ == old(st).groups@,
            st.memberships@ == old(st).memberships@,
            st.projects@ == old(st).projects@,
            st.tags@ == old(st).tags@,
            st.tasks@ == old(st).tasks@,
            st.next_id == old(st).next_id,
            orig_maps == old(st).tag_project_mappings@,
            st.tag_project_mappings@ == orig_maps + mappings_for_tags(
                old(st).tags@,
                gid,
                pid,
                names@.subrange(0, k as int),
            ),
        decreases n - k,
    {
        proof {
            assert(names@.subrange(0, k as int + 1).drop_last() =~= names@.subrange(0, k as int));
            assert(names@.subrange(0, k as int + 1).last() == names@[k as int]);
        }
        match st.find_tag_in_group(gid, &names[k]) {
            Some(ti) => {
                proof {
                    lemma_first_tag_unique(st.tags@, gid, names@[k as int]@, ti as int);
                }
                let row = TagProjectMapping { tag_id: st.tags[ti].tag_id, project_id: pid };
                st.tag_project_mappings.push(row);
                proof {
                    assert(st.tag_project_mappings@ =~= orig_maps + mappings_for_tags(
                        old(st).tags@,
                        gid,
                        pid,
                        names@.subrange(0, k as int + 1),
                    ));
                }
            },
            None => {
                proof {
                    assert(st.tag_project_mappings@ =~= orig_maps + mappings_for_tags(
                        old(st).tags@,
                        gid,
                        pid,
                        names@.subrange(0, k as int + 1),
                    ));
                }
            },
        }
        k += 1;
    }
    proof {
        assert(names@.subrange(0, n as int) =~= names@);
        lemma_mappings_for_tags_rows(old(st).tags@, gid, pid, names@);
        assert(final(st).wf());
    }
}

/// Create a project in a group, mapped to the tags the request names; a
/// name that resolves to no tag of the group is skipped silently.
pub fn add_project(st: &mut Store, session_id: Option<&String>, req: &AddProjectRequest, now: i64)
    -> (r: Result<(), ServiceError>)
    requires
        old(st).wf(),
    ensures
        final(st).wf(),
        final(st).users@ == old(st).users@,
        final(st).sessions@ == old(st).sessions@,
        final(st).groups@ == old(st).groups@,
        final(st).memberships@ == old(st).memberships@,
        final(st).tags@ == old(st).tags@,
        final(st).tasks@ == old(st).tasks@,
        match r {
            Ok(()) => {
                &&& session_id matches Some(sid)
                &&& resolve_ok(*old(st), sid@, now)
                &&& resolved_user(*old(st), sid@).user_name@ == req.owner_user_name@
                &&& old(st).next_id < i32::MAX
                &&& exists|gi: int|
                    #[trigger] first_group_match(
                        *old(st),
                        req.owner_user_name@,
                        req.group_name@,
                        gi,
                    ) && ({
                        let gid = old(st).groups@[gi].group_id;
                        &&& final(st).projects@ == old(st).projects@.push(
                            crate::models::Project {
                                project_id: old(st).next_id,
                                group_id: gid,
                                project_name: req.project_name,
                                project_description: req.project_descr,
                            },
                        )
                        &&& final(st).tag_project_mappings@ == old(st).tag_project_mappings@
                            + mappings_for_tags(old(st).tags@, gid, old(st).next_id, req.tags@)
                    })
                &&& final(st).next_id == old(st).next_id + 1
            },
            Err(e) => {
                &&& final(st).projects@ == old(st).projects@
                &&& final(st).tag_project_mappings@ == old(st).tag_project_mappings@
                &&& final(st).next_id == old(st).next_id
                &&& match e {
                    ServiceError::NoSession => session_id is None,
                    ServiceError::Unauthorized => session_id matches Some(sid) && (!resolve_ok(
                        *old(st),
                        sid@,
                        now,
                    ) || resolved_user(*old(st), sid@).user_name@ != req.owner_user_name@),
                    ServiceError::NotFound => !has_group_match(
                        *old(st),
                        req.owner_user_name@,
                        req.group_name@,
                    ),
                    ServiceError::StorageFailure => old(st).next_id == i32::MAX,
                    _ => false,
                }
            },
        },
{
    let current = match resolve_current_user(st, session_id, now) {
        Ok(name) => name,
        Err(e) => {
            return Err(e);
        },
    };
    if !(current == req.owner_user_name) {
        return Err(ServiceError::Unauthorized);
    }
    let gi = match st.find_group(&req.owner_user_name, &req.group_name) {
        Some(gi) => gi,
        None => {
            return Err(ServiceError::NotFound);
        },
    };
    let gid = st.groups[gi].group_id;
    if st.next_id == i32::MAX {
        return Err(ServiceError::StorageFailure);
    }
    let pid = st.next_id;
    st.projects.push(
        crate::models::Project {
            project_id: pid,
            group_id: gid,
            project_name: req.project_name.clone(),
            project_description: req.project_descr.clone(),
        },
    );
    st.next_id = st.next_id + 1;
    assert(st.wf());
    add_tag_mappings(st, gid, pid, &req.tags);
    Ok(())
}

// ---------------------------------------------------------------------------
// Partial project update.
// ---------------------------------------------------------------------------

/// Keeps the mapping rows of every other project.
pub open spec fn drops_project(pid: i32) -> spec_fn(TagProjectMapping) -> bool {
    |m: TagProjectMapping| m.project_id != pid
}

/// Update a project's name and description — empty new values mean "keep
/// the current value" — and, when the request names any tags, replace the
/// project's tag mappings with mappings to the named tags.
pub fn update_project(
    st: &mut Store,
    session_id: Option<&String>,
    req: &UpdateProjectRequest,
    now: i64,
) -> (r: Result<(), ServiceError>)
    requires
        old(st).wf(),
    ensures
        final(st).wf(),
        final(st).users@ == old(st).users@,
        final(st).sessions@ == old(st).sessions@,
        final(st).groups@ == old(st).groups@,
        final(st).memberships@ == old(st).memberships@,
        final(st).tags@ == old(st).tags@,
        final(st).tasks@ == old(st).tasks@,
        final(st).next_id == old(st).next_id,
        match r {
            Ok(()) => {
                &&& session_id matches Some(sid)
                &&& resolve_ok(*old(st), sid@, now)
                &&& resolved_user(*old(st), sid@).user_name@ == req.owner_user_name@
                &&& exists|gi: int|
                    #[trigger] first_group_match(
                        *old(st),
                        req.owner_user_name@,
                        req.group_name@,
                        gi,
                    ) && ({
                        let gid = old(st).groups@[gi].group_id;
                        exists|pi: int|
                            #[trigger] first_project_match(
                                old(st).projects@,
                                gid,
                                req.project_name@,
                                pi,
                            ) && ({
                                let pid = old(st).projects@[pi].project_id;
                                &&& final(st).projects@ == old(st).projects@.update(
                                    pi,
                                    crate::models::Project {
                                        project_id: pid,
                                        group_id: old(st).projects@[pi].group_id,
                                        project_name: if req.new_project_name@.len() == 0 {
                                            old(st).projects@[pi].project_name
                                        } else {
                                            req.new_project_name
                                        },
                                        project_description: if req.new_project_descr@.len()
                                            == 0 {
                                            old(st).projects@[pi].project_description
                                        } else {
                                            req.new_project_descr
                                        },
                                    },
                                )
                                &&& (if req.new_tags@.len() == 0 {
                                    final(st).tag_project_mappings@ == old(st).tag_project_mappings@
                                } else {
                                    final(st).tag_project_mappings@ == old(st).tag_project_mappings@.filter(drops_project(pid))
                                        + mappings_for_tags(
                                        old(st).tags@,
                                        gid,
                                        pid,
                                        req.new_tags@,
                                    )
                                })
                            })
                    })
            },
            Err(e) => {
                &&& final(st).projects@ == old(st).projects@
                &&& final(st).tag_project_mappings@ == old(st).tag_project_mappings@
                &&& match e {
                    ServiceError::NoSession => session_id is None,
                    ServiceError::Unauthorized => session_id matches Some(sid) && (!resolve_ok(
                        *old(st),
                        sid@,
                        now,
                    ) || resolved_user(*old(st), sid@).user_name@ != req.owner_user_name@),
                    ServiceError::NotFound => !has_group_match(
                        *old(st),
                        req.owner_user_name@,
                        req.group_name@,
                    ) || exists|gi: int|
                        #[trigger] first_group_match(
                            *old(st),
                            req.owner_user_name@,
                            req.group_name@,
                            gi,
                        ) && !has_project_match(
                            old(st).projects@,
                            old(st).groups@[gi].group_id,
                            req.project_name@,
                        ),
                    _ => false,
                }
            },
        },
{
    let current = match resolve_current_user(st, session_id, now) {
        Ok(name) => name,
        Err(e) => {
            return Err(e);
        },
    };
    if !(current == req.owner_user_name) {
        return Err(ServiceError::Unauthorized);
    }
    let gi = match st.find_group(&req.owner_user_name, &req.group_name) {
        Some(gi) => gi,
        None => {
            return Err(ServiceError::NotFound);
        },
    };
    let gid = st.groups[gi].group_id;
    let pi = match st.find_project_in_group(gid, &req.project_name) {
        Some(pi) => pi,
        None => {
            return Err(ServiceError::NotFound);
        },
    };
    let pid = st.projects[pi].project_id;
    let new_name = if req.new_project_name.as_str().is_empty() {
        st.projects[pi].project_name.clone()
    } else {
        req.new_project_name.clone()
    };
    let new_descr = if req.new_project_descr.as_str().is_empty() {
        st.projects[pi].project_description.clone()
    } else {
        req.new_project_descr.clone()
    };
    let row = crate::models::Project {
        project_id: pid,
        group_id: st.projects[pi].group_id,
        project_name: new_name,
        project_description: new_descr,
    };
    st.projects[pi] = row;
    assert(st.wf());
    if req.new_tags.is_empty() {
        return Ok(());
    }

    // Clear the project's mappings, then map the named tags.
    let ghost keep_m = drops_project(pid);
    let ghost orig_maps = st.tag_project_mappings@;
    let ghost projects_done = st.projects@;
    let mut i2: usize = 0;
    let ghost mut j2: int = 0;
    while i2 < st.tag_project_mappings.len()
        invariant
            0 <= j2 <= orig_maps.len(),
            i2 as int == orig_maps.subrange(0, j2).filter(keep_m).len(),
            st.tag_project_mappings@ == orig_maps.subrange(0, j2).filter(keep_m)
                + orig_maps.subrange(j2, orig_maps.len() as int),
            st.users@ == old(st).users@,
            st.sessions@ == old(st).sessions@,
            st.groups@ == old(st).groups@,
            st.memberships@ == old(st).memberships@,
            st.projects@ == projects_done,
            st.tags@ == old(st).tags@,
            st.tasks@ == old(st).tasks@,
            st.next_id == old(st).next_id,
            keep_m == drops_project(pid),
            orig_maps == old(st).tag_project_mappings@,
        decreases orig_maps.len() - j2,
    {
        let ghost a = orig_maps.subrange(0, j2).filter(keep_m);
        let ghost b = orig_maps.subrange(j2, orig_maps.len() as int);
        proof {
            lemma_split_step(a, b);
            assert(b.subrange(1, b.len() as int) =~= orig_maps.subrange(
                j2 + 1,
                orig_maps.len() as int,
            ));
            lemma_filter_extend(orig_maps, keep_m, j2);
        }
        if st.tag_project_mappings[i2].project_id == pid {
            st.tag_project_mappings.remove(i2);
        } else {
            i2 += 1;
        }
        proof {
            j2 = j2 + 1;
        }
    }
    proof {
        assert(orig_maps.subrange(j2, orig_maps.len() as int).len() == 0);
        lemma_filter_whole(orig_maps, keep_m);
        assert(st.tag_project_mappings@ =~= orig_maps.filter(keep_m));
        lemma_filter_contained(orig_maps, keep_m);
        assert forall|p: int| 0 <= p < st.tag_project_mappings@.len() implies st.id_ok(
            (#[trigger] st.tag_project_mappings@[p]).tag_id,
        ) && st.id_ok(st.tag_project_mappings@[p].project_id) by {
            assert(orig_maps.contains(st.tag_project_mappings@[p]));
            let q = choose|q: int|
                0 <= q < orig_maps.len() && orig_maps[q] == st.tag_project_mappings@[p];
        }
        assert(st.wf());
    }
    add_tag_mappings(st, gid, pid, &req.new_tags);
    Ok(())
}

// ---------------------------------------------------------------------------
// Cascading project delete.
// ---------------------------------------------------------------------------

/// Keeps the tasks of every other project.
pub open spec fn drops_task_of(pid: i32) -> spec_fn(crate::models::Task) -> bool {
    |t: crate::models::Task| t.project_id != pid
}

/// Delete a project together with its tasks and its tag mappings, children
/// first, as one atomic step.  The group's tags themselves stay: they are
/// group-scoped and may label other projects.
pub fn delete_project(
    st: &mut Store,
    session_id: Option<&String>,
    req: &DeleteProjectRequest,
    now: i64,
) -> (r: Result<(), ServiceError>)
    requires
        old(st).wf(),
    ensures
        final(st).wf(),
        final(st).users@ == old(st).users@,
        final(st).sessions@ == old(st).sessions@,
        final(st).groups@ == old(st).groups@,
        final(st).memberships@ == old(st).memberships@,
        final(st).tags@ == old(st).tags@,
        final(st).next_id == old(st).next_id,
        match r {
            Ok(()) => {
                &&& session_id matches Some(sid)
                &&& resolve_ok(*old(st), sid@, now)
                &&& resolved_user(*old(st), sid@).user_name@ == req.owner_user_name@
                &&& exists|gi: int|
                    #[trigger] first_group_match(
                        *old(st),
                        req.owner_user_name@,
                        req.group_name@,
                        gi,
                    ) && exists|pi: int|
                        #[trigger] first_project_match(
                            old(st).projects@,
                            old(st).groups@[gi].group_id,
                            req.project_name@,
                            pi,
                        ) && ({
                            let pid = old(st).projects@[pi].project_id;
                            &&& final(st).tasks@ == old(st).tasks@.filter(drops_task_of(pid))
                            &&& final(st).tag_project_mappings@ == old(st).tag_project_mappings@.filter(drops_project(pid))
                            &&& final(st).projects@ == old(st).projects@.remove(pi)
                            &&& !has_project_id(final(st).projects@, pid)
                            &&& forall|p: int|
                                0 <= p < final(st).tasks@.len() ==> (#[trigger] final(st).tasks@[p]).project_id != pid
                            &&& forall|p: int|
                                0 <= p < final(st).tag_project_mappings@.len() ==> (#[trigger] final(st).tag_project_mappings@[p]).project_id != pid
                        })
            },
            Err(e) => {
                &&& final(st).projects@ == old(st).projects@
                &&& final(st).tag_project_mappings@ == old(st).tag_project_mappings@
                &&& final(st).tasks@ == old(st).tasks@
                &&& match e {
                    ServiceError::NoSession => session_id is None,
                    ServiceError::Unauthorized => session_id matches Some(sid) && (!resolve_ok(
                        *old(st),
                        sid@,
                        now,
                    ) || resolved_user(*old(st), sid@).user_name@ != req.owner_user_name@),
                    ServiceError::NotFound => !has_group_match(
                        *old(st),
                        req.owner_user_name@,
                        req.group_name@,
                    ) || exists|gi: int|
                        #[trigger] first_group_match(
                            *old(st),
                            req.owner_user_name@,
                            req.group_name@,
                            gi,
                        ) && !has_project_match(
                            old(st).projects@,
                            old(st).groups@[gi].group_id,
                            req.project_name@,
                        ),
                    _ => false,
                }
            },
        },
{
    let current = match resolve_current_user(st, session_id, now) {
        Ok(name) => name,
        Err(e) => {
            return Err(e);
        },
    };
    if !(current == req.owner_user_name) {
        return Err(ServiceError::Unauthorized);
    }
    let gi = match st.find_group(&req.owner_user_name, &req.group_name) {
        Some(gi) => gi,
        None => {
            return Err(ServiceError::NotFound);
        },
    };
    let gid = st.groups[gi].group_id;
    let pi = match st.find_project_in_group(gid, &req.project_name) {
        Some(pi) => pi,
        None => {
            return Err(ServiceError::NotFound);
        },
    };
    let pid = st.projects[pi].project_id;

    // 1. The project's tasks.
    let ghost keep_t = drops_task_of(pid);
    let ghost orig_tasks = st.tasks@;
    let mut i: usize = 0;
    let ghost mut j: int = 0;
    while i < st.tasks.len()
        invariant
            0 <= j <= orig_tasks.len(),
            i as int == orig_tasks.subrange(0, j).filter(keep_t).len(),
            st.tasks@ == orig_tasks.subrange(0, j).filter(keep_t) + orig_tasks.subrange(
                j,
                orig_tasks.len() as int,
            ),
            st.users@ == old(st).users@,
            st.sessions@ == old(st).sessions@,
            st.groups@ == old(st).groups@,
            st.memberships@ == old(st).memberships@,
            st.projects@ == old(st).projects@,
            st.tags@ == old(st).tags@,
            st.tag_project_mappings@ == old(st).tag_project_mappings@,
            st.next_id == old(st).next_id,
            keep_t == drops_task_of(pid),
            orig_tasks == old(st).tasks@,
        decreases orig_tasks.len() - j,
    {
        let ghost a = orig_tasks.subrange(0, j).filter(keep_t);
        let ghost b = orig_tasks.subrange(j, orig_tasks.len() as int);
        proof {
            lemma_split_step(a, b);
            assert(b.subrange(1, b.len() as int) =~= orig_tasks.subrange(
                j + 1,
                orig_tasks.len() as int,
            ));
            lemma_filter_extend(orig_tasks, keep_t, j);
        }
        if st.tasks[i].project_id == pid {
            st.tasks.remove(i);
        } else {
            i += 1;
        }
        proof {
            j = j + 1;
        }
    }
    proof {
        assert(orig_tasks.subrange(j, orig_tasks.len() as int).len() == 0);
        lemma_filter_whole(orig_tasks, keep_t);
        assert(st.tasks@ =~= orig_tasks.filter(keep_t));
    }
    let ghost tasks_done = st.tasks@;

    // 2. The project's tag mappings.
    let ghost keep_m = drops_project(pid);
    let ghost orig_maps = st.tag_project_mappings@;
    let mut i2: usize = 0;
    let ghost mut j2: int = 0;
    while i2 < st.tag_project_mappings.len()
        invariant
            0 <= j2 <= orig_maps.len(),
            i2 as int == orig_maps.subrange(0, j2).filter(keep_m).len(),
            st.tag_project_mappings@ == orig_maps.subrange(0, j2).filter(keep_m)
                + orig_maps.subrange(j2, orig_maps.len() as int),
            st.users@ == old(st).users@,
            st.sessions@ == old(st).sessions@,
            st.groups@ == old(st).groups@,
            st.memberships@ == old(st).memberships@,
            st.projects@ == old(st).projects@,
            st.tags@ == old(st).tags@,
            st.tasks@ == tasks_done,
            st.next_id == old(st).next_id,
            keep_m == drops_project(pid),
            orig_maps == old(st).tag_project_mappings@,
        decreases orig_maps.len() - j2,
    {
        let ghost a = orig_maps.subrange(0, j2).filter(keep_m);
        let ghost b = orig_maps.subrange(j2, orig_maps.len() as int);
        proof {
            lemma_split_step(a, b);
            assert(b.subrange(1, b.len() as int) =~= orig_maps.subrange(
                j2 + 1,
                orig_maps.len() as int,
            ));
            lemma_filter_extend(orig_maps, keep_m, j2);
        }
        if st.tag_project_mappings[i2].project_id == pid {
            st.tag_project_mappings.remove(i2);
        } else {
            i2 += 1;
        }
        proof {
            j2 = j2 + 1;
        }
    }
    proof {
        assert(orig_maps.subrange(j2, orig_maps.len() as int).len() == 0);
        lemma_filter_whole(orig_maps, keep_m);
        assert(st.tag_project_mappings@ =~= orig_maps.filter(keep_m));
    }

    // 3. The project row.
    st.projects.remove(pi);
    proof {
        let st0 = *old(st);
        assert forall|p: int| 0 <= p < final(st).tasks@.len() implies (#[trigger] final(st).tasks@[p]).project_id != pid by {
            st0.tasks@.lemma_filter_pred(keep_t, p);
        }
        assert forall|p: int| 0 <= p < final(st).tag_project_mappings@.len() implies (#[trigger] final(st).tag_project_mappings@[p]).project_id != pid by {
            st0.tag_project_mappings@.lemma_filter_pred(keep_m, p);
        }
        lemma_filter_distinct(st0.tasks@, keep_t, |t: crate::models::Task| t.task_id);
        lemma_filter_contained(st0.tag_project_mappings@, keep_m);
        assert forall|p: int| 0 <= p < final(st).tasks@.len() implies final(st).id_ok(
            (#[trigger] final(st).tasks@[p]).task_id,
        ) && final(st).id_ok(final(st).tasks@[p].project_id) && final(st).id_ok(
            final(st).tasks@[p].worker_user_id,
        ) && final(st).tasks@[p].start_time.valid() && final(st).tasks@[p].end_time.valid() by {
            assert(st0.tasks@.contains(final(st).tasks@[p]));
            let q = choose|q: int|
                0 <= q < st0.tasks@.len() && st0.tasks@[q] == final(st).tasks@[p];
        }
        assert forall|p: int| 0 <= p < final(st).tag_project_mappings@.len() implies final(st).id_ok((#[trigger] final(st).tag_project_mappings@[p]).tag_id) && final(st).id_ok(
            final(st).tag_project_mappings@[p].project_id,
        ) by {
            assert(st0.tag_project_mappings@.contains(final(st).tag_project_mappings@[p]));
            let q = choose|q: int|
                0 <= q < st0.tag_project_mappings@.len() && st0.tag_project_mappings@[q] == final(st).tag_project_mappings@[p];
        }
        let ps = st0.projects@;
        let nps = final(st).projects@;
        assert forall|x: int, y: int|
            #![trigger nps[x], nps[y]]
            0 <= x < y < nps.len() implies nps[x].project_id != nps[y].project_id by {
            lemma_remove_keeps(ps, pi as int, x);
            lemma_remove_keeps(ps, pi as int, y);
        }
        assert forall|x: int| 0 <= x < nps.len() implies final(st).id_ok(
            (#[trigger] nps[x]).project_id,
        ) && final(st).id_ok(nps[x].group_id) by {
            lemma_remove_keeps(ps, pi as int, x);
        }
        assert forall|x: int| 0 <= x < nps.len() implies (#[trigger] nps[x]).project_id != pid by {
            lemma_remove_keeps(ps, pi as int, x);
        }
        assert(!has_project_id(nps, pid));
        assert(final(st).wf());
    }
    Ok(())
}

} // verus!
