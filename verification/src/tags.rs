//! Group-scoped tags: listing, creation, partial update, and the guarded
//! delete that refuses to orphan a project.

use vstd::prelude::*;
use crate::auth::{resolve_current_user, resolve_ok, resolved_user};
use crate::error::ServiceError;
use crate::models::TagProjectMapping;
use crate::store::{
    first_group_match, first_tag_match, has_group_match, has_tag_match, lemma_filter_contained,
    lemma_filter_extend, lemma_filter_whole, lemma_remove_keeps, lemma_split_step, Store,
};

verus! {

// ---------------------------------------------------------------------------
// Wire types.
// ---------------------------------------------------------------------------

/// One entry of the tag list.
pub struct Tag {
    pub tag_name: String,
    pub tag_color: String,
}

pub struct GetTagListRequest {
    pub owner_user_name: String,
    pub group_name: String,
}

pub struct GetTagListResponse {
    pub tags: Vec<Tag>,
}

pub struct AddTagRequest {
    pub owner_user_name: String,
    pub group_name: String,
    pub tag_name: String,
    pub tag_color: String,
}

pub struct AddTagResponse {
    pub success: bool,
    pub message: String,
}

pub struct UpdateTagRequest {
    pub owner_user_name: String,
    pub group_name: String,
    pub tag_name: String,
    pub new_tag_name: String,
    pub new_tag_color: String,
}

pub struct UpdateTagResponse {
    pub success: bool,
    pub message: String,
}

pub struct DeleteTagRequest {
    pub owner_user_name: String,
    pub group_name: String,
    pub tag_name: String,
}

pub struct DeleteTagResponse {
    pub success: bool,
    pub message: String,
}

// ---------------------------------------------------------------------------
// Tag listing.
// ---------------------------------------------------------------------------

/// Selects the tag rows of one group.
pub open spec fn tag_row_sel(gid: i32) -> spec_fn(crate::models::Tag) -> bool {
    |t: crate::models::Tag| t.group_id == gid
}

/// List the tags of a group with their colors, in table order.
pub fn get_tag_list(st: &Store, req: &GetTagListRequest) -> (r: Result<
    GetTagListResponse,
    ServiceError,
>)
    requires
        st.wf(),
    ensures
        match r {
            Ok(resp) => {
                &&& exists|gi: int|
                    #[trigger] first_group_match(
                        *st,
                        req.owner_user_name@,
                        req.group_name@,
                        gi,
                    ) && ({
                        let sel = st.tags@.filter(tag_row_sel(st.groups@[gi].group_id));
                        &&& resp.tags@.len() == sel.len()
                        &&& forall|p: int|
                            0 <= p < sel.len() ==> (#[trigger] resp.tags@[p]).tag_name@
                                == sel[p].tag_name@ && resp.tags@[p].tag_color@
                                == sel[p].tag_color@
                    })
            },
            Err(e) => match e {
                ServiceError::NotFound => !has_group_match(
                    *st,
                    req.owner_user_name@,
                    req.group_name@,
                ),
                _ => false,
            },
        },
{
    let gi = match st.find_group(&req.owner_user_name, &req.group_name) {
        Some(gi) => gi,
        None => {
            return Err(ServiceError::NotFound);
        },
    };
    let gid = st.groups[gi].group_id;
    let ghost sel_pred = tag_row_sel(gid);
    let mut tags: Vec<Tag> = Vec::new();
    let n = st.tags.len();
    let mut i: usize = 0;
    while i < n
        invariant
            n == st.tags@.len(),
            i <= n,
            sel_pred == tag_row_sel(gid),
            tags@.len() == st.tags@.subrange(0, i as int).filter(sel_pred).len(),
            forall|p: int|
                0 <= p < tags@.len() ==> (#[trigger] tags@[p]).tag_name@ == st.tags@.subrange(
                    0,
                    i as int,
                ).filter(sel_pred)[p].tag_name@ && tags@[p].tag_color@ == st.tags@.subrange(
                    0,
                    i as int,
                ).filter(sel_pred)[p].tag_color@,
        decreases n - i,
    {
        proof {
            lemma_filter_extend(st.tags@, sel_pred, i as int);
        }
        if st.tags[i].group_id == gid {
            let item = Tag {
                tag_name: st.tags[i].tag_name.clone(),
                tag_color: st.tags[i].tag_color.clone(),
            };
            tags.push(item);
        }
        i += 1;
    }
    proof {
        lemma_filter_whole(st.tags@, sel_pred);
    }
    Ok(GetTagListResponse { tags })
}

// ---------------------------------------------------------------------------
// Tag creation.
// ---------------------------------------------------------------------------

/// Add a tag to a group.
pub fn add_tag(st: &mut Store, session_id: Option<&String>, req: &AddTagRequest, now: i64) -> (r:
    Result<(), ServiceError>)
    requires
        old(st).wf(),
    ensures
        final(st).wf(),
        final(st).users@ == old(st).users@,
        final(st).sessions@ == old(st).sessions@,
        final(st).groups@ == old(st).groups@,
        final(st).memberships@ == old(st).memberships@,
        final(st).projects@ == old(st).projects@,
        final(st).tag_project_mappings@ == old(st).tag_project_mappings@,
        final(st).tasks@ == old(st).tasks@,
        match r {
            Ok(()) => {
                &&& session_id matches Some(sid)
                &&& resolve_ok(*old(st), sid@, now)
                &&& resolved_user(*old(st), sid@).user_name@ == req.owner_user_name@
                &&& old(st).next_id < i32::MAX
                &&& exists|gi: int|
                    #[trigger] first_group_match(
                        *old(st),
                        req.owner_user_name@,
                        req.group_name@,
                        gi,
                    ) && final(st).tags@ == old(st).tags@.push(
                        crate::models::Tag {
                            tag_id: old(st).next_id,
                            group_id: old(st).groups@[gi].group_id,
                            tag_name: req.tag_name,
                            tag_color: req.tag_color,
                        },
                    )
                &&& final(st).next_id == old(st).next_id + 1
            },
            Err(e) => {
                &&& final(st).tags@ == old(st).tags@
                &&& final(st).next_id == old(st).next_id
                &&& match e {
                    ServiceError::NoSession => session_id is None,
                    ServiceError::Unauthorized => session_id matches Some(sid) && (!resolve_ok(
                        *old(st),
                        sid@,
                        now,
                    ) || resolved_user(*old(st), sid@).user_name@ != req.owner_user_name@),
                    ServiceError::NotFound => !has_group_match(
                        *old(st),
                        req.owner_user_name@,
                        req.group_name@,
                    ),
                    ServiceError::StorageFailure => old(st).next_id == i32::MAX,
                    _ => false,
                }
            },
        },
{
    let current = match resolve_current_user(st, session_id, now) {
        Ok(name) => name,
        Err(e) => {
            return Err(e);
        },
    };
    if !(current == req.owner_user_name) {
        return Err(ServiceError::Unauthorized);
    }
    let gi = match st.find_group(&req.owner_user_name, &req.group_name) {
        Some(gi) => gi,
        None => {
            return Err(ServiceError::NotFound);
        },
    };
    let gid = st.groups[gi].group_id;
    if st.next_id == i32::MAX {
        return Err(ServiceError::StorageFailure);
    }
    st.tags.push(
        crate::models::Tag {
            tag_id: st.next_id,
            group_id: gid,
            tag_name: req.tag_name.clone(),
            tag_color: req.tag_color.clone(),
        },
    );
    st.next_id = st.next_id + 1;
    assert(final(st).wf());
    Ok(())
}

// ---------------------------------------------------------------------------
// Partial tag update.
// ---------------------------------------------------------------------------

/// Update a tag's name and color.  An empty new name or new color means
/// "keep the current value": only the non-empty fields change.
pub fn update_tag(st: &mut Store, session_id: Option<&String>, req: &UpdateTagRequest, now: i64)
    -> (r: Result<(), ServiceError>)
    requires
        old(st).wf(),
    ensures
        final(st).wf(),
        final(st).users@ == old(st).users@,
        final(st).sessions@ == old(st).sessions@,
        final(st).groups@ == old(st).groups@,
        final(st).memberships@ == old(st).memberships@,
        final(st).projects@ == old(st).projects@,
        final(st).tag_project_mappings@ == old(st).tag_project_mappings@,
        final(st).tasks@ == old(st).tasks@,
        final(st).next_id == old(st).next_id,
        match r {
            Ok(()) => {
                &&& session_id matches Some(sid)
                &&& resolve_ok(*old(st), sid@, now)
                &&& resolved_user(*old(st), sid@).user_name@ == req.owner_user_name@
                &&& exists|gi: int|
                    #[trigger] first_group_match(
                        *old(st),
                        req.owner_user_name@,
                        req.group_name@,
                        gi,
                    ) && exists|ti: int|
                        #[trigger] first_tag_match(
                            old(st).tags@,
                            old(st).groups@[gi].group_id,
                            req.tag_name@,
                            ti,
                        ) && final(st).tags@ == old(st).tags@.update(
                            ti,
                            crate::models::Tag {
                                tag_id: old(st).tags@[ti].tag_id,
                                group_id: old(st).tags@[ti].group_id,
                                tag_name: if req.new_tag_name@.len() == 0 {
                                    old(st).tags@[ti].tag_name
                                } else {
                                    req.new_tag_name
                                },
                                tag_color: if req.new_tag_color@.len() == 0 {
                                    old(st).tags@[ti].tag_color
                                } else {
                                    req.new_tag_color
                                },
                            },
                        )
            },
            Err(e) => {
                &&& final(st).tags@ == old(st).tags@
                &&& match e {
                    ServiceError::NoSession => session_id is None,
                    ServiceError::Unauthorized => session_id matches Some(sid) && (!resolve_ok(
                        *old(st),
                        sid@,
                        now,
                    ) || resolved_user(*old(st), sid@).user_name@ != req.owner_user_name@),
                    ServiceError::NotFound => !has_group_match(
                        *old(st),
                        req.owner_user_name@,
                        req.group_name@,
                    ) || exists|gi: int|
                        #[trigger] first_group_match(
                            *old(st),
                            req.owner_user_name@,
                            req.group_name@,
                            gi,
                        ) && !has_tag_match(
                            old(st).tags@,
                            old(st).groups@[gi].group_id,
                            req.tag_name@,
                        ),
                    _ => false,
                }
            },
        },
{
    let current = match resolve_current_user(st, session_id, now) {
        Ok(name) => name,
        Err(e) => {
            return Err(e);
        },
    };
    if !(current == req.owner_user_name) {
        return Err(ServiceError::Unauthorized);
    }
    let gi = match st.find_group(&req.owner_user_name, &req.group_name) {
        Some(gi) => gi,
        None => {
            return Err(ServiceError::NotFound);
        },
    };
    let gid = st.groups[gi].group_id;
    let ti = match st.find_tag_in_group(gid, &req.tag_name) {
        Some(ti) => ti,
        None => {
            return Err(ServiceError::NotFound);
        },
    };
    let new_name = if req.new_tag_name.as_str().is_empty() {
        st.tags[ti].tag_name.clone()
    } else {
        req.new_tag_name.clone()
    };
    let new_color = if req.new_tag_color.as_str().is_empty() {
        st.tags[ti].tag_color.clone()
    } else {
        req.new_tag_color.clone()
    };
    let row = crate::models::Tag {
        tag_id: st.tags[ti].tag_id,
        group_id: st.tags[ti].group_id,
        tag_name: new_name,
        tag_color: new_color,
    };
    st.tags[ti] = row;
    assert(final(st).wf());
    Ok(())
}

// ---------------------------------------------------------------------------
// Guarded tag delete.
// ---------------------------------------------------------------------------

/// Selects the mapping rows of one project.
pub open spec fn project_map_sel(pid: i32) -> spec_fn(TagProjectMapping) -> bool {
    |m: TagProjectMapping| m.project_id == pid
}

/// How many mapping rows a project has.
pub open spec fn mapping_count(ms: Seq<TagProjectMapping>, pid: i32) -> nat {
    ms.filter(project_map_sel(pid)).len()
}

/// The tag is the sole remaining tag of some project it is mapped to.
pub open spec fn sole_tag_somewhere(ms: Seq<TagProjectMapping>, tid: i32) -> bool {
    exists|i: int|
        0 <= i < ms.len() && (#[trigger] ms[i]).tag_id == tid && mapping_count(
            ms,
            ms[i].project_id,
        ) <= 1
}

/// Keeps the mapping rows of every other tag.
pub open spec fn drops_tag(tid: i32) -> spec_fn(TagProjectMapping) -> bool {
    |m: TagProjectMapping| m.tag_id != tid
}

/// Whether the tag is the sole remaining tag of some project mapped to it.
fn find_sole_tag_conflict(ms: &Vec<TagProjectMapping>, tid: i32) -> (r: bool)
    ensures
        r == sole_tag_somewhere(ms@, tid),
{
    let n = ms.len();
    let mut i: usize = 0;
    while i < n
        invariant
            n == ms@.len(),
            i <= n,
            forall|j: int|
                0 <= j < i ==> !((#[trigger] ms@[j]).tag_id == tid && mapping_count(
                    ms@,
                    ms@[j].project_id,
                ) <= 1),
        decreases n - i,
    {
        if ms[i].tag_id == tid {
            let c = count_mappings_for_project(ms, ms[i].project_id);
            if c <= 1 {
                assert(ms@[i as int].tag_id == tid && mapping_count(ms@, ms@[i as int].project_id)
                    <= 1);
                return true;
            }
        }
        i += 1;
    }
    assert(!sole_tag_somewhere(ms@, tid));
    false
}

/// How many mapping rows a project has.
fn count_mappings_for_project(ms: &Vec<TagProjectMapping>, pid: i32) -> (r: usize)
    ensures
        r == mapping_count(ms@, pid),
{
    let ghost sel = project_map_sel(pid);
    let n = ms.len();
    let mut count: usize = 0;
    let mut i: usize = 0;
    while i < n
        invariant
            n == ms@.len(),
            i <= n,
            count <= i,
            sel == project_map_sel(pid),
            count as int == ms@.subrange(0, i as int).filter(sel).len(),
        decreases n - i,
    {
        proof {
            lemma_filter_extend(ms@, sel, i as int);
        }
        if ms[i].project_id == pid {
            count += 1;
        }
        i += 1;
    }
    proof {
        lemma_filter_whole(ms@, sel);
    }
    count
}

/// Delete a tag of a group together with its project mappings — unless it
/// is the only tag some project has left, in which case the whole deletion
/// is refused with `Conflict` and nothing changes.
pub fn delete_tag(st: &mut Store, session_id: Option<&String>, req: &DeleteTagRequest, now: i64)
    -> (r: Result<(), ServiceError>)
    requires
        old(st).wf(),
    ensures
        final(st).wf(),
        final(st).users@ == old(st).users@,
        final(st).sessions@ == old(st).sessions@,
        final(st).groups@ == old(st).groups@,
        final(st).memberships@ == old(st).memberships@,
        final(st).projects@ == old(st).projects@,
        final(st).tasks@ == old(st).tasks@,
        final(st).next_id == old(st).next_id,
        match r {
            Ok(()) => {
                &&& session_id matches Some(sid)
                &&& resolve_ok(*old(st), sid@, now)
                &&& resolved_user(*old(st), sid@).user_name@ == req.owner_user_name@
                &&& exists|gi: int|
                    #[trigger] first_group_match(
                        *old(st),
                        req.owner_user_name@,
                        req.group_name@,
                        gi,
                    ) && exists|ti: int|
                        #[trigger] first_tag_match(
                            old(st).tags@,
                            old(st).groups@[gi].group_id,
                            req.tag_name@,
                            ti,
                        ) && ({
                            let tid = old(st).tags@[ti].tag_id;
                            &&& !sole_tag_somewhere(old(st).tag_project_mappings@, tid)
                            &&& final(st).tag_project_mappings@ == old(st).tag_project_mappings@.filter(drops_tag(tid))
                            &&& final(st).tags@ == old(st).tags@.remove(ti)
                            &&& forall|p: int|
                                0 <= p < final(st).tag_project_mappings@.len() ==> (#[trigger] final(st).tag_project_mappings@[p]).tag_id != tid
                        })
            },
            Err(e) => {
                &&& final(st).tags@ == old(st).tags@
                &&& final(st).tag_project_mappings@ == old(st).tag_project_mappings@
                &&& match e {
                    ServiceError::NoSession => session_id is None,
                    ServiceError::Unauthorized => session_id matches Some(sid) && (!resolve_ok(
                        *old(st),
                        sid@,
                        now,
                    ) || resolved_user(*old(st), sid@).user_name@ != req.owner_user_name@),
                    ServiceError::NotFound => !has_group_match(
                        *old(st),
                        req.owner_user_name@,
                        req.group_name@,
                    ) || exists|gi: int|
                        #[trigger] first_group_match(
                            *old(st),
                            req.owner_user_name@,
                            req.group_name@,
                            gi,
                        ) && !has_tag_match(
                            old(st).tags@,
                            old(st).groups@[gi].group_id,
                            req.tag_name@,
                        ),
                    ServiceError::Conflict => exists|gi: int|
                        #[trigger] first_group_match(
                            *old(st),
                            req.owner_user_name@,
                            req.group_name@,
                            gi,
                        ) && exists|ti: int|
                            #[trigger] first_tag_match(
                                old(st).tags@,
                                old(st).groups@[gi].group_id,
                                req.tag_name@,
                                ti,
                            ) && sole_tag_somewhere(
                                old(st).tag_project_mappings@,
                                old(st).tags@[ti].tag_id,
                            ),
                    _ => false,
                }
            },
        },
{
    let current = match resolve_current_user(st, session_id, now) {
        Ok(name) => name,
        Err(e) => {
            return Err(e);
        },
    };
    if !(current == req.owner_user_name) {
        return Err(ServiceError::Unauthorized);
    }
    let gi = match st.find_group(&req.owner_user_name, &req.group_name) {
        Some(gi) => gi,
        None => {
            return Err(ServiceError::NotFound);
        },
    };
    let gid = st.groups[gi].group_id;
    let ti = match st.find_tag_in_group(gid, &req.tag_name) {
        Some(ti) => ti,
        None => {
            return Err(ServiceError::NotFound);
        },
    };
    let tid = st.tags[ti].tag_id;

    // Refuse if the tag is the last one of any project mapped to it.
    if find_sole_tag_conflict(&st.tag_project_mappings, tid) {
        return Err(ServiceError::Conflict);
    }

    // Remove the tag's mappings.
    let ghost keep_m = drops_tag(tid);
    let ghost orig_maps = st.tag_project_mappings@;
    let mut i2: usize = 0;
    let ghost mut j2: int = 0;
    while i2 < st.tag_project_mappings.len()
        invariant
            0 <= j2 <= orig_maps.len(),
            i2 as int == orig_maps.subrange(0, j2).filter(keep_m).len(),
            st.tag_project_mappings@ == orig_maps.subrange(0, j2).filter(keep_m)
                + orig_maps.subrange(j2, orig_maps.len() as int),
            st.users@ == old(st).users@,
            st.sessions@ == old(st).sessions@,
            st.groups@ == old(st).groups@,
            st.memberships@ == old(st).memberships@,
            st.projects@ == old(st).projects@,
            st.tags@ == old(st).tags@,
            st.tasks@ == old(st).tasks@,
            st.next_id == old(st).next_id,
            keep_m == drops_tag(tid),
            orig_maps == old(st).tag_project_mappings@,
        decreases orig_maps.len() - j2,
    {
        let ghost a = orig_maps.subrange(0, j2).filter(keep_m);
        let ghost b = orig_maps.subrange(j2, orig_maps.len() as int);
        proof {
            lemma_split_step(a, b);
            assert(b.subrange(1, b.len() as int) =~= orig_maps.subrange(
                j2 + 1,
                orig_maps.len() as int,
            ));
            lemma_filter_extend(orig_maps, keep_m, j2);
        }
        if st.tag_project_mappings[i2].tag_id == tid {
            st.tag_project_mappings.remove(i2);
        } else {
            i2 += 1;
        }
        proof {
            j2 = j2 + 1;
        }
    }
    proof {
        assert(orig_maps.subrange(j2, orig_maps.len() as int).len() == 0);
        lemma_filter_whole(orig_maps, keep_m);
        assert(st.tag_project_mappings@ =~= orig_maps.filter(keep_m));
    }

    // Remove the tag row.
    st.tags.remove(ti);
    proof {
        let st0 = *old(st);
        assert forall|p: int| 0 <= p < final(st).tag_project_mappings@.len() implies (#[trigger] final(st).tag_project_mappings@[p]).tag_id != tid by {
            st0.tag_project_mappings@.lemma_filter_pred(keep_m, p);
        }
        lemma_filter_contained(st0.tag_project_mappings@, keep_m);
        assert forall|p: int| 0 <= p < final(st).tag_project_mappings@.len() implies final(st).id_ok((#[trigger] final(st).tag_project_mappings@[p]).tag_id) && final(st).id_ok(
            final(st).tag_project_mappings@[p].project_id,
        ) by {
            assert(st0.tag_project_mappings@.contains(final(st).tag_project_mappings@[p]));
            let q = choose|q: int|
                0 <= q < st0.tag_project_mappings@.len() && st0.tag_project_mappings@[q] == final(st).tag_project_mappings@[p];
        }
        let ts = st0.tags@;
        let nts = final(st).tags@;
        assert forall|x: int, y: int|
            #![trigger nts[x], nts[y]]
            0 <= x < y < nts.len() implies nts[x].tag_id != nts[y].tag_id by {
            lemma_remove_keeps(ts, ti as int, x);
            lemma_remove_keeps(ts, ti as int, y);
        }
        assert forall|x: int| 0 <= x < nts.len() implies final(st).id_ok(
            (#[trigger] nts[x]).tag_id,
        ) && final(st).id_ok(nts[x].group_id) by {
            lemma_remove_keeps(ts, ti as int, x);
        }
        assert(final(st).wf());
    }
    Ok(())
}

} // verus!
