//! The set-based read paths: tasks filtered by a tag set, tasks filtered by
//! a project-name substring, and the project list with tag colors.
//!
//! The storage engine's unordered aggregates are pinned to a deterministic
//! order here: rows are selected and colors aggregated in table order.

use vstd::prelude::*;
use crate::error::ServiceError;
use crate::store::{
    first_group_match, has_group_match, has_mapping, has_project_id, has_user_id,
    lemma_filter_extend, lemma_filter_whole, lemma_map_values_push, lemma_project_by_id,
    lemma_user_by_id, project_by_id, user_by_id, Store,
};
use crate::timestamp::spec_format;

verus! {

// ---------------------------------------------------------------------------
// Wire types.
// ---------------------------------------------------------------------------

/// One entry of a task list.
pub struct Task {
    pub task_title: String,
    pub worker_name: String,
    pub start_time: String,
    pub end_time: String,
    pub description: String,
    pub project_name: String,
    pub tag_colors: Vec<String>,
}

/// One entry of the project list.
pub struct Project {
    pub project_name: String,
    pub tag_colors: Vec<String>,
}

pub struct GetTaskListByTagListRequest {
    pub owner_user_name: String,
    pub group_name: String,
    pub tags: Vec<String>,
}

pub struct GetTaskListByTagListResponse {
    pub tasks: Vec<Task>,
}

pub struct GetTaskListByProjectNameRequest {
    pub owner_user_name: String,
    pub group_name: String,
    pub project_name: String,
}

pub struct GetTaskListByProjectNameResponse {
    pub tasks: Vec<Task>,
}

pub struct GetProjectListRequest {
    pub owner_user_name: String,
    pub group_name: String,
}

pub struct GetProjectListResponse {
    pub projects: Vec<Project>,
}

// ---------------------------------------------------------------------------
// Color aggregation, in tag-table order.
// ---------------------------------------------------------------------------

/// The views of a vector of strings.
pub open spec fn views_of(ss: Seq<String>) -> Seq<Seq<char>> {
    ss.map_values(|s: String| s@)
}

/// The color of a tag row.
pub open spec fn color_of() -> spec_fn(crate::models::Tag) -> Seq<char> {
    |t: crate::models::Tag| t.tag_color@
}

/// Selects every tag of a group.
pub open spec fn group_color_sel(gid: i32) -> spec_fn(crate::models::Tag) -> bool {
    |t: crate::models::Tag| t.group_id == gid
}

/// The colors of all tags of a group.
pub open spec fn group_tag_colors(st: Store, gid: i32) -> Seq<Seq<char>> {
    st.tags@.filter(group_color_sel(gid)).map_values(color_of())
}

/// Selects the tags of a group that are mapped to a project.
pub open spec fn project_color_sel(st: Store, gid: i32, pid: i32) -> spec_fn(
    crate::models::Tag,
) -> bool {
    |t: crate::models::Tag|
        t.group_id == gid && has_mapping(st.tag_project_mappings@, t.tag_id, pid)
}

/// The colors of the group's tags mapped to a project.
pub open spec fn project_tag_colors(st: Store, gid: i32, pid: i32) -> Seq<Seq<char>> {
    st.tags@.filter(project_color_sel(st, gid, pid)).map_values(color_of())
}

/// Selects the tags mapped to a project, whatever their group.
pub open spec fn mapped_color_sel(st: Store, pid: i32) -> spec_fn(crate::models::Tag) -> bool {
    |t: crate::models::Tag| has_mapping(st.tag_project_mappings@, t.tag_id, pid)
}

/// The colors of the tags mapped to a project.
pub open spec fn mapped_tag_colors(st: Store, pid: i32) -> Seq<Seq<char>> {
    st.tags@.filter(mapped_color_sel(st, pid)).map_values(color_of())
}

/// Collect the colors of all tags of a group.
fn collect_group_tag_colors(st: &Store, gid: i32) -> (v: Vec<String>)
    ensures
        views_of(v@) == group_tag_colors(*st, gid),
{
    let ghost sel = group_color_sel(gid);
    let mut v: Vec<String> = Vec::new();
    let n = st.tags.len();
    let mut i: usize = 0;
    while i < n
        invariant
            n == st.tags@.len(),
            i <= n,
            sel == group_color_sel(gid),
            views_of(v@) == st.tags@.subrange(0, i as int).filter(sel).map_values(color_of()),
        decreases n - i,
    {
        proof {
            lemma_filter_extend(st.tags@, sel, i as int);
        }
        if st.tags[i].group_id == gid {
            v.push(st.tags[i].tag_color.clone());
            proof {
                lemma_map_values_push(
                    st.tags@.subrange(0, i as int).filter(sel),
                    color_of(),
                    st.tags@[i as int],
                );
                assert(views_of(v@) =~= st.tags@.subrange(0, i as int + 1).filter(sel).map_values(
                    color_of(),
                ));
            }
        }
        i += 1;
    }
    proof {
        lemma_filter_whole(st.tags@, sel);
    }
    v
}

/// Collect the colors of the group's tags mapped to a project.
fn collect_project_tag_colors(st: &Store, gid: i32, pid: i32) -> (v: Vec<String>)
    ensures
        views_of(v@) == project_tag_colors(*st, gid, pid),
{
    let ghost sel = project_color_sel(*st, gid, pid);
    let mut v: Vec<String> = Vec::new();
    let n = st.tags.len();
    let mut i: usize = 0;
    while i < n
        invariant
            n == st.tags@.len(),
            i <= n,
            sel == project_color_sel(*st, gid, pid),
            views_of(v@) == st.tags@.subrange(0, i as int).filter(sel).map_values(color_of()),
        decreases n - i,
    {
        proof {
            lemma_filter_extend(st.tags@, sel, i as int);
        }
        if st.tags[i].group_id == gid && st.mapping_exists(st.tags[i].tag_id, pid) {
            v.push(st.tags[i].tag_color.clone());
            proof {
                lemma_map_values_push(
                    st.tags@.subrange(0, i as int).filter(sel),
                    color_of(),
                    st.tags@[i as int],
                );
                assert(views_of(v@) =~= st.tags@.subrange(0, i as int + 1).filter(sel).map_values(
                    color_of(),
                ));
            }
        }
        i += 1;
    }
    proof {
        lemma_filter_whole(st.tags@, sel);
    }
    v
}

/// Collect the colors of the tags mapped to a project.
pub(crate) fn collect_mapped_tag_colors(st: &Store, pid: i32) -> (v: Vec<String>)
    ensures
        views_of(v@) == mapped_tag_colors(*st, pid),
{
    let ghost sel = mapped_color_sel(*st, pid);
    let mut v: Vec<String> = Vec::new();
    let n = st.tags.len();
    let mut i: usize = 0;
    while i < n
        invariant
            n == st.tags@.len(),
            i <= n,
            sel == mapped_color_sel(*st, pid),
            views_of(v@) == st.tags@.subrange(0, i as int).filter(sel).map_values(color_of()),
        decreases n - i,
    {
        proof {
            lemma_filter_extend(st.tags@, sel, i as int);
        }
        if st.mapping_exists(st.tags[i].tag_id, pid) {
            v.push(st.tags[i].tag_color.clone());
            proof {
                lemma_map_values_push(
                    st.tags@.subrange(0, i as int).filter(sel),
                    color_of(),
                    st.tags@[i as int],
                );
                assert(views_of(v@) =~= st.tags@.subrange(0, i as int + 1).filter(sel).map_values(
                    color_of(),
                ));
            }
        }
        i += 1;
    }
    proof {
        lemma_filter_whole(st.tags@, sel);
    }
    v
}

// ---------------------------------------------------------------------------
// Task items.
// ---------------------------------------------------------------------------

/// How a task list entry must relate to its task row and its colors.
pub open spec fn task_item_matches(
    st: Store,
    item: Task,
    t: crate::models::Task,
    colors: Seq<Seq<char>>,
) -> bool {
    &&& item.task_title@ == t.title@
    &&& item.worker_name@ == user_by_id(st.users@, t.worker_user_id).user_name@
    &&& item.start_time@ == spec_format(t.start_time)
    &&& item.end_time@ == spec_format(t.end_time)
    &&& item.description@ == t.description@
    &&& item.project_name@ == project_by_id(st.projects@, t.project_id).project_name@
    &&& views_of(item.tag_colors@) == colors
}

// ---------------------------------------------------------------------------
// Substring matching, the pattern the project-name filter uses.
// ---------------------------------------------------------------------------

/// `needle` occurs contiguously somewhere in `hay`.
pub open spec fn contains_sub(hay: Seq<char>, needle: Seq<char>) -> bool {
    exists|k: int|
        0 <= k && k + needle.len() <= hay.len() && #[trigger] hay.subrange(
            k,
            k + needle.len() as int,
        ) == needle
}

/// Whether `nd` occurs in `h` at offset `k` exactly.
fn match_at(h: &str, nd: &str, k: usize) -> (r: bool)
    requires
        k + nd@.len() <= h@.len(),
    ensures
        r == (h@.subrange(k as int, k as int + nd@.len() as int) == nd@),
{
    let hn = h.unicode_len();
    let nn = nd.unicode_len();
    let mut t: usize = 0;
    while t < nn
        invariant
            hn == h@.len(),
            nn == nd@.len(),
            t <= nn,
            k + nn <= h@.len(),
            forall|m: int| 0 <= m < t ==> h@[k + m] == nd@[m],
        decreases nn - t,
    {
        if h.get_char(k + t) != nd.get_char(t) {
            assert(h@.subrange(k as int, k as int + nn as int)[t as int] != nd@[t as int]);
            return false;
        }
        t += 1;
    }
    assert(h@.subrange(k as int, k as int + nn as int) =~= nd@);
    true
}

/// Whether `needle` occurs anywhere in `hay`, case-sensitively.
pub fn contains_substring(hay: &String, needle: &String) -> (r: bool)
    ensures
        r == contains_sub(hay@, needle@),
{
    let h = hay.as_str();
    let nd = needle.as_str();
    let hn = h.unicode_len();
    let nn = nd.unicode_len();
    if nn > hn {
        assert(!contains_sub(hay@, needle@));
        return false;
    }
    if nn == 0 {
        assert(hay@.subrange(0, 0 + needle@.len() as int) =~= needle@);
        assert(contains_sub(hay@, needle@));
        return true;
    }
    let mut k: usize = 0;
    while k <= hn - nn
        invariant
            h@ == hay@,
            nd@ == needle@,
            hn == hay@.len(),
            nn == needle@.len(),
            0 < nn <= hn,
            k <= hn - nn + 1,
            forall|m: int| 0 <= m < k ==> #[trigger] hay@.subrange(m, m + nn as int) != needle@,
        decreases hn - nn - k + 1,
    {
        if match_at(h, nd, k) {
            assert(hay@.subrange(k as int, k as int + needle@.len() as int) == needle@);
            assert(contains_sub(hay@, needle@));
            return true;
        }
        k += 1;
    }
    assert(!contains_sub(hay@, needle@));
    false
}

// ---------------------------------------------------------------------------
// Name-set resolution: request tag names to group tags to projects.
// ---------------------------------------------------------------------------

/// The name occurs in the request's list of tag names.
pub open spec fn name_listed(names: Seq<String>, name: Seq<char>) -> bool {
    exists|i: int| 0 <= i < names.len() && (#[trigger] names[i])@ == name
}

/// Whether the name occurs in the request's list of tag names.
fn name_listed_exec(names: &Vec<String>, name: &String) -> (r: bool)
    ensures
        r == name_listed(names@, name@),
{
    let n = names.len();
    let mut i: usize = 0;
    while i < n
        invariant
            n == names@.len(),
            i <= n,
            forall|j: int| 0 <= j < i ==> (#[trigger] names@[j])@ != name@,
        decreases n - i,
    {
        if names[i] == *name {
            return true;
        }
        i += 1;
    }
    false
}

/// Some tag of the group carries this id and one of the requested names.
pub open spec fn tag_id_selected(st: Store, gid: i32, names: Seq<String>, tid: i32) -> bool {
    exists|j: int|
        0 <= j < st.tags@.len() && (#[trigger] st.tags@[j]).tag_id == tid && st.tags@[j].group_id
            == gid && name_listed(names, st.tags@[j].tag_name@)
}

/// Whether some tag of the group carries this id and a requested name.
fn tag_selected_exec(st: &Store, gid: i32, names: &Vec<String>, tid: i32) -> (r: bool)
    ensures
        r == tag_id_selected(*st, gid, names@, tid),
{
    let n = st.tags.len();
    let mut i: usize = 0;
    while i < n
        invariant
            n == st.tags@.len(),
            i <= n,
            forall|j: int|
                0 <= j < i ==> !((#[trigger] st.tags@[j]).tag_id == tid && st.tags@[j].group_id
                    == gid && name_listed(names@, st.tags@[j].tag_name@)),
        decreases n - i,
    {
        if st.tags[i].tag_id == tid && st.tags[i].group_id == gid && name_listed_exec(
            names,
            &st.tags[i].tag_name,
        ) {
            return true;
        }
        i += 1;
    }
    false
}

/// Some mapping links the project to a tag that one of the requested names
/// selects in the group.
pub open spec fn tagged_project(st: Store, gid: i32, names: Seq<String>, pid: i32) -> bool {
    exists|k: int|
        0 <= k < st.tag_project_mappings@.len() && (#[trigger] st.tag_project_mappings@[k]).project_id
            == pid && tag_id_selected(st, gid, names, st.tag_project_mappings@[k].tag_id)
}

/// Whether some mapping links the project to a selected tag.
fn tagged_project_exec(st: &Store, gid: i32, names: &Vec<String>, pid: i32) -> (r: bool)
    ensures
        r == tagged_project(*st, gid, names@, pid),
{
    let n = st.tag_project_mappings.len();
    let mut i: usize = 0;
    while i < n
        invariant
            n == st.tag_project_mappings@.len(),
            i <= n,
            forall|k: int|
                0 <= k < i ==> !((#[trigger] st.tag_project_mappings@[k]).project_id == pid
                    && tag_id_selected(*st, gid, names@, st.tag_project_mappings@[k].tag_id)),
        decreases n - i,
    {
        if st.tag_project_mappings[i].project_id == pid && tag_selected_exec(
            st,
            gid,
            names,
            st.tag_project_mappings[i].tag_id,
        ) {
            return true;
        }
        i += 1;
    }
    false
}

/// Some project of the group carries this id and a name containing the
/// substring.
pub open spec fn named_project(st: Store, gid: i32, sub: Seq<char>, pid: i32) -> bool {
    exists|j: int|
        0 <= j < st.projects@.len() && (#[trigger] st.projects@[j]).project_id == pid
            && st.projects@[j].group_id == gid && contains_sub(st.projects@[j].project_name@, sub)
}

/// Whether some project of the group carries this id and a matching name.
fn named_project_exec(st: &Store, gid: i32, sub: &String, pid: i32) -> (r: bool)
    ensures
        r == named_project(*st, gid, sub@, pid),
{
    let n = st.projects.len();
    let mut i: usize = 0;
    while i < n
        invariant
            n == st.projects@.len(),
            i <= n,
            forall|j: int|
                0 <= j < i ==> !((#[trigger] st.projects@[j]).project_id == pid
                    && st.projects@[j].group_id == gid && contains_sub(
                    st.projects@[j].project_name@,
                    sub@,
                )),
        decreases n - i,
    {
        if st.projects[i].project_id == pid && st.projects[i].group_id == gid
            && contains_substring(&st.projects[i].project_name, sub) {
            return true;
        }
        i += 1;
    }
    false
}

// ---------------------------------------------------------------------------
// Task selection predicates.
// ---------------------------------------------------------------------------

/// Selects every task whose project is in the group and whose worker
/// resolves: the tag-independent listing.
pub open spec fn group_task_sel(st: Store, gid: i32) -> spec_fn(crate::models::Task) -> bool {
    |t: crate::models::Task|
        crate::store::project_in_group(st.projects@, t.project_id, gid) && has_user_id(
            st.users@,
            t.worker_user_id,
        )
}

/// Selects the tasks of projects mapped to a tag the request names.
pub open spec fn tagged_task_sel(st: Store, gid: i32, names: Seq<String>) -> spec_fn(
    crate::models::Task,
) -> bool {
    |t: crate::models::Task|
        has_project_id(st.projects@, t.project_id) && has_user_id(st.users@, t.worker_user_id)
            && tagged_project(st, gid, names, t.project_id)
}

/// Selects the tasks of the group's projects whose name contains the
/// substring.
pub open spec fn named_task_sel(st: Store, gid: i32, sub: Seq<char>) -> spec_fn(
    crate::models::Task,
) -> bool {
    |t: crate::models::Task|
        has_user_id(st.users@, t.worker_user_id) && named_project(st, gid, sub, t.project_id)
}

/// A tag list that names no tag of the group selects no task at all: the
/// filtered listing is empty rather than an error.
pub proof fn lemma_unknown_tags_select_nothing(st: Store, gid: i32, names: Seq<String>)
    requires
        forall|j: int|
            0 <= j < st.tags@.len() ==> !((#[trigger] st.tags@[j]).group_id == gid && name_listed(
                names,
                st.tags@[j].tag_name@,
            )),
    ensures
        st.tasks@.filter(tagged_task_sel(st, gid, names)).len() == 0,
{
    let sel = tagged_task_sel(st, gid, names);
    let f = st.tasks@.filter(sel);
    if f.len() > 0 {
        st.tasks@.lemma_filter_pred(sel, 0);
        assert(sel(f[0]));
        let k = choose|k: int|
            0 <= k < st.tag_project_mappings@.len() && (#[trigger] st.tag_project_mappings@[k]).project_id
                == f[0].project_id && tag_id_selected(
                st,
                gid,
                names,
                st.tag_project_mappings@[k].tag_id,
            );
        let j = choose|j: int|
            0 <= j < st.tags@.len() && (#[trigger] st.tags@[j]).tag_id
                == st.tag_project_mappings@[k].tag_id && st.tags@[j].group_id == gid
                && name_listed(names, st.tags@[j].tag_name@);
        assert(false);
    }
}

/// Render one task row as a list entry carrying the given colors.
pub(crate) fn build_task_item(st: &Store, ti: usize, colors: Vec<String>) -> (item: Task)
    requires
        st.wf(),
        ti < st.tasks@.len(),
        has_project_id(st.projects@, st.tasks@[ti as int].project_id),
        has_user_id(st.users@, st.tasks@[ti as int].worker_user_id),
    ensures
        task_item_matches(*st, item, st.tasks@[ti as int], views_of(colors@)),
{
    proof {
        assert(st.tasks@[ti as int].start_time.valid() && st.tasks@[ti as int].end_time.valid());
    }
    let pi = match st.find_project_by_id(st.tasks[ti].project_id) {
        Some(pi) => pi,
        None => {
            proof {
                assert(false);
            }
            0
        },
    };
    proof {
        lemma_project_by_id(st.projects@, pi as int);
    }
    let ui = match st.find_user_by_id(st.tasks[ti].worker_user_id) {
        Some(ui) => ui,
        None => {
            proof {
                assert(false);
            }
            0
        },
    };
    proof {
        lemma_user_by_id(st.users@, ui as int);
    }
    Task {
        task_title: st.tasks[ti].title.clone(),
        worker_name: st.users[ui].user_name.clone(),
        start_time: crate::timestamp::format_timestamp(&st.tasks[ti].start_time),
        end_time: crate::timestamp::format_timestamp(&st.tasks[ti].end_time),
        description: st.tasks[ti].description.clone(),
        project_name: st.projects[pi].project_name.clone(),
        tag_colors: colors,
    }
}

// ---------------------------------------------------------------------------
// The list operations.
// ---------------------------------------------------------------------------

/// List tasks filtered by a set of tag names.  An empty tag list returns
/// every task of the group, each entry carrying the colors of all the
/// group's tags.  A non-empty list returns the tasks of projects mapped to
/// any named tag of the group, each entry carrying the colors of the
/// group's tags mapped to its project; names that resolve to no tag simply
/// select nothing, which is an empty result, not an error.  Rows come in
/// task-table order.
pub fn get_task_list_by_tag_list(st: &Store, req: &GetTaskListByTagListRequest) -> (r: Result<
    GetTaskListByTagListResponse,
    ServiceError,
>)
    requires
        st.wf(),
    ensures
        match r {
            Ok(resp) => {
                &&& exists|gi: int|
                    #[trigger] first_group_match(
                        *st,
                        req.owner_user_name@,
                        req.group_name@,
                        gi,
                    ) && ({
                        let gid = st.groups@[gi].group_id;
                        if req.tags@.len() == 0 {
                            let sel = st.tasks@.filter(group_task_sel(*st, gid));
                            &&& resp.tasks@.len() == sel.len()
                            &&& forall|p: int|
                                0 <= p < sel.len() ==> task_item_matches(
                                    *st,
                                    #[trigger] resp.tasks@[p],
                                    sel[p],
                                    group_tag_colors(*st, gid),
                                )
                        } else {
                            let sel = st.tasks@.filter(tagged_task_sel(*st, gid, req.tags@));
                            &&& resp.tasks@.len() == sel.len()
                            &&& forall|p: int|
                                0 <= p < sel.len() ==> task_item_matches(
                                    *st,
                                    #[trigger] resp.tasks@[p],
                                    sel[p],
                                    project_tag_colors(*st, gid, sel[p].project_id),
                                )
                        }
                    })
            },
            Err(e) => match e {
                ServiceError::NotFound => !has_group_match(
                    *st,
                    req.owner_user_name@,
                    req.group_name@,
                ),
                _ => false,
            },
        },
{
    let gi = match st.find_group(&req.owner_user_name, &req.group_name) {
        Some(gi) => gi,
        None => {
            return Err(ServiceError::NotFound);
        },
    };
    let gid = st.groups[gi].group_id;
    let mut items: Vec<Task> = Vec::new();
    let n = st.tasks.len();
    let mut i: usize = 0;
    if req.tags.is_empty() {
        let ghost sel = group_task_sel(*st, gid);
        while i < n
            invariant
                st.wf(),
                n == st.tasks@.len(),
                i <= n,
                sel == group_task_sel(*st, gid),
                items@.len() == st.tasks@.subrange(0, i as int).filter(sel).len(),
                forall|p: int|
                    0 <= p < items@.len() ==> task_item_matches(
                        *st,
                        #[trigger] items@[p],
                        st.tasks@.subrange(0, i as int).filter(sel)[p],
                        group_tag_colors(*st, gid),
                    ),
            decreases n - i,
        {
            proof {
                lemma_filter_extend(st.tasks@, sel, i as int);
            }
            let pid = st.tasks[i].project_id;
            let in_group = crate::store::project_in_group_exec(&st.projects, pid, gid);
            let worker_ok = st.find_user_by_id(st.tasks[i].worker_user_id).is_some();
            if in_group && worker_ok {
                proof {
                    let j = choose|j: int|
                        0 <= j < st.projects@.len() && (#[trigger] st.projects@[j]).project_id
                            == pid && st.projects@[j].group_id == gid;
                    assert(st.projects@[j].project_id == pid);
                    assert(has_project_id(st.projects@, pid));
                }
                let colors = collect_group_tag_colors(st, gid);
                let item = build_task_item(st, i, colors);
                items.push(item);
                proof {
                    assert(sel(st.tasks@[i as int]));
                }
            } else {
                proof {
                    assert(!sel(st.tasks@[i as int]));
                }
            }
            i += 1;
        }
        proof {
            lemma_filter_whole(st.tasks@, sel);
        }
        Ok(GetTaskListByTagListResponse { tasks: items })
    } else {
        let ghost sel = tagged_task_sel(*st, gid, req.tags@);
        while i < n
            invariant
                st.wf(),
                n == st.tasks@.len(),
                i <= n,
                sel == tagged_task_sel(*st, gid, req.tags@),
                items@.len() == st.tasks@.subrange(0, i as int).filter(sel).len(),
                forall|p: int|
                    0 <= p < items@.len() ==> task_item_matches(
                        *st,
                        #[trigger] items@[p],
                        st.tasks@.subrange(0, i as int).filter(sel)[p],
                        project_tag_colors(
                            *st,
                            gid,
                            st.tasks@.subrange(0, i as int).filter(sel)[p].project_id,
                        ),
                    ),
            decreases n - i,
        {
            proof {
                lemma_filter_extend(st.tasks@, sel, i as int);
            }
            let pid = st.tasks[i].project_id;
            let project_ok = st.find_project_by_id(pid).is_some();
            let worker_ok = st.find_user_by_id(st.tasks[i].worker_user_id).is_some();
            let tagged = tagged_project_exec(st, gid, &req.tags, pid);
            if project_ok && worker_ok && tagged {
                let colors = collect_project_tag_colors(st, gid, pid);
                let item = build_task_item(st, i, colors);
                items.push(item);
                proof {
                    assert(sel(st.tasks@[i as int]));
                }
            } else {
                proof {
                    assert(!sel(st.tasks@[i as int]));
                }
            }
            i += 1;
        }
        proof {
            lemma_filter_whole(st.tasks@, sel);
        }
        Ok(GetTaskListByTagListResponse { tasks: items })
    }
}

/// List tasks of the group's projects whose name contains the given
/// substring, case-sensitively.  An empty substring is rejected as
/// malformed input; a substring matching no project yields an empty list.
pub fn get_task_list_by_project_name(st: &Store, req: &GetTaskListByProjectNameRequest) -> (r:
    Result<GetTaskListByProjectNameResponse, ServiceError>)
    requires
        st.wf(),
    ensures
        match r {
            Ok(resp) => {
                &&& req.project_name@.len() > 0
                &&& exists|gi: int|
                    #[trigger] first_group_match(
                        *st,
                        req.owner_user_name@,
                        req.group_name@,
                        gi,
                    ) && ({
                        let gid = st.groups@[gi].group_id;
                        let sel = st.tasks@.filter(named_task_sel(*st, gid, req.project_name@));
                        &&& resp.tasks@.len() == sel.len()
                        &&& forall|p: int|
                            0 <= p < sel.len() ==> task_item_matches(
                                *st,
                                #[trigger] resp.tasks@[p],
                                sel[p],
                                project_tag_colors(*st, gid, sel[p].project_id),
                            )
                    })
            },
            Err(e) => match e {
                ServiceError::ValidationError => req.project_name@.len() == 0,
                ServiceError::NotFound => req.project_name@.len() > 0 && !has_group_match(
                    *st,
                    req.owner_user_name@,
                    req.group_name@,
                ),
                _ => false,
            },
        },
{
    if req.project_name.as_str().is_empty() {
        return Err(ServiceError::ValidationError);
    }
    let gi = match st.find_group(&req.owner_user_name, &req.group_name) {
        Some(gi) => gi,
        None => {
            return Err(ServiceError::NotFound);
        },
    };
    let gid = st.groups[gi].group_id;
    let mut items: Vec<Task> = Vec::new();
    let n = st.tasks.len();
    let mut i: usize = 0;
    let ghost sel = named_task_sel(*st, gid, req.project_name@);
    while i < n
        invariant
            st.wf(),
            n == st.tasks@.len(),
            i <= n,
            sel == named_task_sel(*st, gid, req.project_name@),
            items@.len() == st.tasks@.subrange(0, i as int).filter(sel).len(),
            forall|p: int|
                0 <= p < items@.len() ==> task_item_matches(
                    *st,
                    #[trigger] items@[p],
                    st.tasks@.subrange(0, i as int).filter(sel)[p],
                    project_tag_colors(
                        *st,
                        gid,
                        st.tasks@.subrange(0, i as int).filter(sel)[p].project_id,
                    ),
                ),
        decreases n - i,
    {
        proof {
            lemma_filter_extend(st.tasks@, sel, i as int);
        }
        let pid = st.tasks[i].project_id;
        let named = named_project_exec(st, gid, &req.project_name, pid);
        let worker_ok = st.find_user_by_id(st.tasks[i].worker_user_id).is_some();
        if named && worker_ok {
            proof {
                let j = choose|j: int|
                    0 <= j < st.projects@.len() && (#[trigger] st.projects@[j]).project_id == pid
                        && st.projects@[j].group_id == gid && contains_sub(
                        st.projects@[j].project_name@,
                        req.project_name@,
                    );
                assert(st.projects@[j].project_id == pid);
                assert(has_project_id(st.projects@, pid));
            }
            let colors = collect_project_tag_colors(st, gid, pid);
            let item = build_task_item(st, i, colors);
            items.push(item);
            proof {
                assert(sel(st.tasks@[i as int]));
            }
        } else {
            proof {
                assert(!sel(st.tasks@[i as int]));
            }
        }
        i += 1;
    }
    proof {
        lemma_filter_whole(st.tasks@, sel);
    }
    Ok(GetTaskListByProjectNameResponse { tasks: items })
}

/// Selects the project rows of one group.
pub open spec fn project_row_sel(gid: i32) -> spec_fn(crate::models::Project) -> bool {
    |p: crate::models::Project| p.group_id == gid
}

/// List the projects of a group, each with the colors of the tags mapped
/// to it (an untagged project carries an empty color list).
pub fn get_project_list(st: &Store, req: &GetProjectListRequest) -> (r: Result<
    GetProjectListResponse,
    ServiceError,
>)
    requires
        st.wf(),
    ensures
        match r {
            Ok(resp) => {
                &&& exists|gi: int|
                    #[trigger] first_group_match(
                        *st,
                        req.owner_user_name@,
                        req.group_name@,
                        gi,
                    ) && ({
                        let sel = st.projects@.filter(project_row_sel(st.groups@[gi].group_id));
                        &&& resp.projects@.len() == sel.len()
                        &&& forall|p: int|
                            0 <= p < sel.len() ==> (#[trigger] resp.projects@[p]).project_name@
                                == sel[p].project_name@ && views_of(resp.projects@[p].tag_colors@)
                                == mapped_tag_colors(*st, sel[p].project_id)
                    })
            },
            Err(e) => match e {
                ServiceError::NotFound => !has_group_match(
                    *st,
                    req.owner_user_name@,
                    req.group_name@,
                ),
                _ => false,
            },
        },
{
    let gi = match st.find_group(&req.owner_user_name, &req.group_name) {
        Some(gi) => gi,
        None => {
            return Err(ServiceError::NotFound);
        },
    };
    let gid = st.groups[gi].group_id;
    let ghost sel = project_row_sel(gid);
    let mut items: Vec<Project> = Vec::new();
    let n = st.projects.len();
    let mut i: usize = 0;
    while i < n
        invariant
            st.wf(),
            n == st.projects@.len(),
            i <= n,
            sel == project_row_sel(gid),
            items@.len() == st.projects@.subrange(0, i as int).filter(sel).len(),
            forall|p: int|
                0 <= p < items@.len() ==> (#[trigger] items@[p]).project_name@
                    == st.projects@.subrange(0, i as int).filter(sel)[p].project_name@ && views_of(
                    items@[p].tag_colors@,
                ) == mapped_tag_colors(
                    *st,
                    st.projects@.subrange(0, i as int).filter(sel)[p].project_id,
                ),
        decreases n - i,
    {
        proof {
            lemma_filter_extend(st.projects@, sel, i as int);
        }
        if st.projects[i].group_id == gid {
            let colors = collect_mapped_tag_colors(st, st.projects[i].project_id);
            let item = Project {
                project_name: st.projects[i].project_name.clone(),
                tag_colors: colors,
            };
            items.push(item);
        }
        i += 1;
    }
    proof {
        lemma_filter_whole(st.projects@, sel);
    }
    Ok(GetProjectListResponse { projects: items })
}

} // verus!
