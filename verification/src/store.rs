//! The store of projects: what has been loaded from GitLab, looked up by id
//! and ordered by recent activity.
use std::collections::HashMap;

use itertools::Itertools;
use vstd::prelude::*;

use crate::domain::{
    job_of_dto, jobs_view, pipeline_of_dto, pipelines_view, project_from_dto, project_of_dto, projects_view,
    status_is_active, Job,
    JobDto, JobView, Pipeline, PipelineDto, PipelineView, Project, ProjectDto, ProjectView,
};
use crate::event::GlimEvent;
use crate::ids::{PipelineId, ProjectId};

verus! {

broadcast use vstd::std_specs::hash::group_hash_axioms;

/// Index of the first project with the given id, or `-1`.
pub open spec fn find_index(ps: Seq<ProjectView>, id: ProjectId) -> int
    decreases ps.len(),
{
    if ps.len() == 0 {
        -1
    } else {
        let k = find_index(ps.drop_last(), id);
        if k >= 0 {
            k
        } else if ps.last().id == id {
            ps.len() - 1
        } else {
            -1
        }
    }
}

/// No two projects share an id.
pub open spec fn ids_unique(ps: Seq<ProjectView>) -> bool {
    forall|i: int, j: int|
        0 <= i < ps.len() && 0 <= j < ps.len() && #[trigger] ps[i].id == #[trigger] ps[j].id ==> i
            == j
}

/// `k` occurs in `order`.
pub open spec fn listed(order: Seq<usize>, k: int) -> bool {
    exists|j: int| 0 <= j < order.len() && #[trigger] order[j] == k
}

/// `order` lists every project once, most recently active first; projects
/// equally recent keep the order in which they were stored.
pub open spec fn sorted_by_activity(ps: Seq<ProjectView>, order: Seq<usize>) -> bool {
    &&& order.len() == ps.len()
    &&& forall|i: int| 0 <= i < order.len() ==> #[trigger] order[i] < ps.len()
    &&& order.no_duplicates()
    &&& forall|k: int| 0 <= k < ps.len() ==> #[trigger] listed(order, k)
    &&& forall|i: int, j: int|
        0 <= i < j < order.len() ==> {
            let (a, b) = (ps[#[trigger] order[i] as int], ps[#[trigger] order[j] as int]);
            a.last_activity_at > b.last_activity_at || (a.last_activity_at == b.last_activity_at
                && order[i] < order[j])
        }
}

/// Activity more than seven whole days before `now` (times in milliseconds).
pub open spec fn older_than_7d(date: i64, now: i64) -> bool {
    now - date >= 8 * 86_400_000
}

/// The projects after a project description arrived: a known project takes
/// the new description and keeps its pipelines; a new one is added, with its
/// pipelines requested unless its last activity is older than a week.
pub open spec fn sync_one(ps: Seq<ProjectView>, dto: ProjectDto, now: i64) -> Seq<ProjectView> {
    let p = project_of_dto(dto);
    let k = find_index(ps, dto.id);
    if k >= 0 {
        ps.update(k, ProjectView { pipelines: ps[k].pipelines, ..p })
    } else if older_than_7d(dto.last_activity_at, now) {
        ps.push(p)
    } else {
        ps.push(ProjectView { pipelines: Some(Seq::empty()), ..p })
    }
}

/// The events a project description leads to: its pipelines are fetched
/// when the project is known or recently active, and the update is announced.
pub open spec fn sync_one_events(ps: Seq<ProjectView>, dto: ProjectDto, now: i64) -> Seq<GlimEvent> {
    (if find_index(ps, dto.id) >= 0 || !older_than_7d(dto.last_activity_at, now) {
        seq![GlimEvent::PipelinesFetch(dto.id)]
    } else {
        Seq::empty()
    }) + seq![GlimEvent::ProjectUpdated(Box::new(project_from_dto(dto)))]
}

/// The projects after a list of project descriptions arrived, one by one.
pub open spec fn sync_all(ps: Seq<ProjectView>, dtos: Seq<ProjectDto>, now: i64) -> Seq<ProjectView>
    decreases dtos.len(),
{
    if dtos.len() == 0 {
        ps
    } else {
        sync_one(sync_all(ps, dtos.drop_last(), now), dtos.last(), now)
    }
}

/// The events a list of project descriptions leads to.
pub open spec fn sync_all_events(ps: Seq<ProjectView>, dtos: Seq<ProjectDto>, now: i64) -> Seq<
    GlimEvent,
>
    decreases dtos.len(),
{
    if dtos.len() == 0 {
        Seq::empty()
    } else {
        sync_all_events(ps, dtos.drop_last(), now) + sync_one_events(
            sync_all(ps, dtos.drop_last(), now),
            dtos.last(),
            now,
        )
    }
}

/// Jobs are fetched for the pipelines that are still running or waiting.
pub open spec fn active_pipeline_fetches(
    project: ProjectId,
    ps: Seq<PipelineDto>,
) -> Seq<GlimEvent>
    decreases ps.len(),
{
    if ps.len() == 0 {
        Seq::empty()
    } else {
        active_pipeline_fetches(project, ps.drop_last()) + if status_is_active(ps.last().status) {
            seq![GlimEvent::JobsFetch(project, ps.last().id)]
        } else {
            Seq::empty()
        }
    }
}

/// Jobs are fetched for the pipelines whose jobs are not loaded yet.
pub open spec fn unloaded_job_fetches(project: ProjectId, ps: Seq<PipelineView>) -> Seq<GlimEvent>
    decreases ps.len(),
{
    if ps.len() == 0 {
        Seq::empty()
    } else {
        unloaded_job_fetches(project, ps.drop_last()) + if ps.last().jobs is None {
            seq![GlimEvent::JobsFetch(project, ps.last().id)]
        } else {
            Seq::empty()
        }
    }
}

/// Key that orders more recent activity first.
pub open spec fn desc_key(a: i64) -> u64 {
    (i64::MAX - a) as u64
}

/// The order of (key, index) pairs: by key, then by index.
pub open spec fn pair_le(a: (u64, usize), b: (u64, usize)) -> bool {
    a.0 < b.0 || (a.0 == b.0 && a.1 <= b.1)
}

/// Calls itertools' `Itertools::sorted`, which sorts into ascending order:
/// the result holds the same pairs, ordered by key and then by index.
#[verifier::external_body]
pub(crate) fn sort_pairs(v: Vec<(u64, usize)>) -> (r: Vec<(u64, usize)>)
    ensures
        r@.to_multiset() == v@.to_multiset(),
        forall|i: int, j: int| 0 <= i < j < r@.len() ==> pair_le(r@[i], r@[j]),
{
    v.into_iter().sorted().collect()
}

proof fn lemma_find_index(ps: Seq<ProjectView>, id: ProjectId)
    ensures
        -1 <= find_index(ps, id) < ps.len(),
        find_index(ps, id) >= 0 ==> ps[find_index(ps, id)].id == id && forall|k: int|
            0 <= k < find_index(ps, id) ==> #[trigger] ps[k].id != id,
        find_index(ps, id) == -1 ==> forall|k: int| 0 <= k < ps.len() ==> #[trigger] ps[k].id != id,
    decreases ps.len(),
{
    if ps.len() > 0 {
        lemma_find_index(ps.drop_last(), id);
        assert forall|k: int| 0 <= k < ps.len() - 1 implies #[trigger] ps[k] == ps.drop_last()[k] by {}
    }
}

proof fn lemma_find_unique(ps: Seq<ProjectView>, id: ProjectId, i: int)
    requires
        ids_unique(ps),
        0 <= i < ps.len(),
        ps[i].id == id,
    ensures
        find_index(ps, id) == i,
{
    lemma_find_index(ps, id);
}

/// Loaded projects, looked up by id and ordered by recent activity.
#[derive(Debug)]
pub struct ProjectStore {
    projects: Vec<Project>,
    project_id_lookup: HashMap<u64, usize>,
    sorted: Vec<usize>,
}

impl ProjectStore {
    /// The projects, in the order they were first loaded.
    pub closed spec fn view(&self) -> Seq<ProjectView> {
        projects_view(self.projects@)
    }

    /// Indices of the projects, most recently active first.
    pub closed spec fn order(&self) -> Seq<usize> {
        self.sorted@
    }

    closed spec fn lookup_wf(&self) -> bool {
        &&& ids_unique(self.view())
        &&& forall|i: int|
            0 <= i < self.projects@.len() ==> #[trigger] self.project_id_lookup@.contains_key(
                self.projects@[i].id.0,
            ) && self.project_id_lookup@[self.projects@[i].id.0] == i
        &&& forall|k: u64| #[trigger]
            self.project_id_lookup@.contains_key(k) ==> self.project_id_lookup@[k]
                < self.projects@.len() && self.projects@[self.project_id_lookup@[k] as int].id.0 == k
    }

    /// The store's invariant: ids are unique, the lookup table agrees with
    /// the projects, and the order sorts them by activity.
    pub closed spec fn wf(&self) -> bool {
        &&& self.lookup_wf()
        &&& sorted_by_activity(self.view(), self.order())
    }

    /// A well-formed store lists each of its projects once in table order,
    /// most recently active first, and no two projects share an id.
    pub proof fn lemma_wf(&self)
        requires
            self.wf(),
        ensures
            sorted_by_activity(self.view(), self.order()),
            ids_unique(self.view()),
    {
    }

    pub fn new() -> (r: ProjectStore)
        ensures
            r.wf(),
            r.view().len() == 0,
            r.order().len() == 0,
    {
        let r = ProjectStore {
            projects: Vec::new(),
            project_id_lookup: HashMap::new(),
            sorted: Vec::new(),
        };
        assert(r.view() =~= Seq::<ProjectView>::empty());
        r
    }

    proof fn lemma_view(&self)
        ensures
            self.view().len() == self.projects@.len(),
            forall|i: int| 0 <= i < self.projects@.len() ==> #[trigger] self.view()[i] == self.projects@[i]@,
    {
    }

    /// Changing what projects hold, but not their ids nor their activity,
    /// keeps the store well formed under the same order.
    proof fn lemma_same_keys(&self, other: &ProjectStore)
        requires
            other.wf(),
            self.projects@.len() == other.projects@.len(),
            self.project_id_lookup@ == other.project_id_lookup@,
            self.sorted@ == other.sorted@,
            forall|a: int|
                0 <= a < self.projects@.len() ==> #[trigger] self.projects@[a].id
                    == other.projects@[a].id && self.projects@[a].last_activity_at
                    == other.projects@[a].last_activity_at,
        ensures
            self.wf(),
    {
        self.lemma_view();
        other.lemma_view();
        let (v, w) = (self.view(), other.view());
        assert forall|a: int, b: int|
            0 <= a < v.len() && 0 <= b < v.len() && #[trigger] v[a].id == #[trigger] v[b].id implies a == b by {
            assert(w[a].id == w[b].id);
        }
        assert forall|i: int, j: int| 0 <= i < j < self.sorted@.len() implies {
            let (x, y) = (v[#[trigger] self.sorted@[i] as int], v[#[trigger] self.sorted@[j] as int]);
            x.last_activity_at > y.last_activity_at || (x.last_activity_at == y.last_activity_at
                && self.sorted@[i] < self.sorted@[j])
        } by {
            assert(self.sorted@[i] < v.len() && self.sorted@[j] < v.len());
        }
    }

    fn project_idx(&self, id: ProjectId) -> (r: Option<usize>)
        requires
            self.lookup_wf(),
        ensures
            match r {
                Some(i) => i < self.projects@.len() && i == find_index(self.view(), id),
                None => find_index(self.view(), id) == -1,
            },
    {
        proof {
            self.lemma_view();
            lemma_find_index(self.view(), id);
        }
        match self.project_id_lookup.get(&id.0) {
            Some(i) => {
                proof {
                    lemma_find_unique(self.view(), id, *i as int);
                }
                Some(*i)
            },
            None => {
                proof {
                    if find_index(self.view(), id) >= 0 {
                        let k = find_index(self.view(), id);
                        assert(self.project_id_lookup@.contains_key(self.projects@[k].id.0));
                    }
                }
                None
            },
        }
    }

    /// The project with the given id.
    pub fn find(&self, id: ProjectId) -> (r: Option<&Project>)
        requires
            self.wf(),
        ensures
            match r {
                Some(p) => find_index(self.view(), id) >= 0 && p@ == self.view()[find_index(
                    self.view(),
                    id,
                )],
                None => find_index(self.view(), id) == -1,
            },
    {
        proof {
            self.lemma_view();
        }
        match self.project_idx(id) {
            Some(i) => Some(&self.projects[i]),
            None => None,
        }
    }

    /// The projects, most recently active first.
    pub fn sorted_projects(&self) -> (r: Vec<&Project>)
        requires
            self.wf(),
        ensures
            r@.len() == self.order().len(),
            forall|i: int| 0 <= i < r@.len() ==> #[trigger] r@[i]@ == self.view()[self.order()[i] as int],
    {
        proof {
            self.lemma_view();
        }
        let mut out: Vec<&Project> = Vec::new();
        let mut i: usize = 0;
        while i < self.sorted.len()
            invariant
                self.wf(),
                i <= self.sorted@.len(),
                out@.len() == i,
                forall|k: int| 0 <= k < i ==> #[trigger] out@[k]@ == self.view()[self.order()[k] as int],
            decreases self.sorted@.len() - i,
        {
            out.push(&self.projects[self.sorted[i]]);
            proof {
                self.lemma_view();
            }
            i = i + 1;
        }
        out
    }

    /// Orders the projects by recent activity.
    fn resort(&mut self)
        requires
            old(self).lookup_wf(),
        ensures
            final(self).wf(),
            final(self).view() == old(self).view(),
    {
        proof {
            self.lemma_view();
        }
        let n = self.projects.len();
        let mut pairs: Vec<(u64, usize)> = Vec::new();
        let mut i: usize = 0;
        while i < n
            invariant
                n == self.projects@.len(),
                i <= n,
                pairs@.len() == i,
                forall|k: int|
                    0 <= k < i ==> #[trigger] pairs@[k] == (
                        desc_key(self.projects@[k].last_activity_at),
                        k as usize,
                    ),
            decreases n - i,
        {
            let a = self.projects[i].last_activity_at;
            let key = (9223372036854775807i128 - a as i128) as u64;
            pairs.push((key, i));
            i = i + 1;
        }
        let ghost input = pairs@;
        let sorted_pairs = sort_pairs(pairs);
        let ghost out = sorted_pairs@;
        proof {
            assert(input.no_duplicates()) by {
                assert forall|a: int, b: int|
                    0 <= a < input.len() && 0 <= b < input.len() && a != b implies input[a]
                    != input[b] by {
                    assert(input[a].1 == a);
                    assert(input[b].1 == b);
                }
            }
            input.lemma_multiset_has_no_duplicates();
            broadcast use vstd::seq_lib::group_to_multiset_ensures;

            assert forall|j: int| 0 <= j < out.len() implies exists|k: int|
                0 <= k < n && #[trigger] out[j] == input[k] by {
                assert(out.contains(out[j]));
                assert(out.to_multiset().count(out[j]) > 0);
                assert(input.to_multiset().count(out[j]) > 0);
                assert(input.contains(out[j]));
            }
            assert(out.to_multiset().len() == input.to_multiset().len());
            assert(out.len() == input.len());
            assert forall|x: (u64, usize)| out.to_multiset().contains(x) implies out.to_multiset().count(
                x,
            ) == 1 by {
                assert(input.to_multiset().contains(x));
            }
            out.lemma_multiset_has_no_duplicates_conv();
        }
        let mut order: Vec<usize> = Vec::new();
        let mut j: usize = 0;
        while j < sorted_pairs.len()
            invariant
                j <= out.len(),
                out == sorted_pairs@,
                order@.len() == j,
                forall|k: int| 0 <= k < j ==> #[trigger] order@[k] == out[k].1,
            decreases out.len() - j,
        {
            order.push(sorted_pairs[j].1);
            j = j + 1;
        }
        self.sorted = order;
        proof {
            let ps = self.view();
            assert forall|j: int| 0 <= j < out.len() implies #[trigger] out[j].1 < n && out[j].0
                == desc_key(ps[out[j].1 as int].last_activity_at) by {
                let k = choose|k: int| 0 <= k < n && out[j] == input[k];
                assert(out[j] == input[k]);
            }
            assert forall|k: int| 0 <= k < n implies #[trigger] listed(self.sorted@, k) by {
                assert(input[k] == (desc_key(self.projects@[k].last_activity_at), k as usize));
                assert(input.contains(input[k]));
                assert(input.to_multiset().count(input[k]) > 0);
                assert(out.to_multiset().count(input[k]) > 0);
                assert(out.contains(input[k]));
                let j = choose|j: int| 0 <= j < out.len() && out[j] == input[k];
                assert(self.sorted@[j] == k);
                assert(listed(self.sorted@, k));
            }
            assert forall|a: int, b: int|
                0 <= a < out.len() && 0 <= b < out.len() && a != b implies self.sorted@[a]
                != self.sorted@[b] by {
                assert(out[a] != out[b]);
                assert(out[a].1 < n && out[b].1 < n);
            }
            assert forall|a: int, b: int| 0 <= a < b < out.len() implies {
                let (x, y) = (ps[#[trigger] self.sorted@[a] as int], ps[#[trigger] self.sorted@[b] as int]);
                x.last_activity_at > y.last_activity_at || (x.last_activity_at == y.last_activity_at
                    && self.sorted@[a] < self.sorted@[b])
            } by {
                assert(pair_le(out[a], out[b]));
                assert(out[a] != out[b]);
                assert(out[a].1 < n && out[b].1 < n);
            }
        }
    }
}


/// Index of the first pipeline with the given id, or `-1`.
pub open spec fn find_pipeline(ps: Seq<PipelineView>, id: PipelineId) -> int
    decreases ps.len(),
{
    if ps.len() == 0 {
        -1
    } else {
        let k = find_pipeline(ps.drop_last(), id);
        if k >= 0 {
            k
        } else if ps.last().id == id {
            ps.len() - 1
        } else {
            -1
        }
    }
}

proof fn lemma_find_pipeline(ps: Seq<PipelineView>, id: PipelineId)
    ensures
        -1 <= find_pipeline(ps, id) < ps.len(),
        find_pipeline(ps, id) >= 0 ==> ps[find_pipeline(ps, id)].id == id && forall|k: int|
            0 <= k < find_pipeline(ps, id) ==> #[trigger] ps[k].id != id,
        find_pipeline(ps, id) == -1 ==> forall|k: int| 0 <= k < ps.len() ==> #[trigger] ps[k].id != id,
    decreases ps.len(),
{
    if ps.len() > 0 {
        lemma_find_pipeline(ps.drop_last(), id);
        assert forall|k: int| 0 <= k < ps.len() - 1 implies #[trigger] ps[k] == ps.drop_last()[k] by {}
    }
}

/// The pipelines after the jobs of one of them arrived: the first pipeline
/// with that id takes the jobs, and the commit of the first job.
pub open spec fn pipelines_with_jobs(
    ps: Seq<PipelineView>,
    pipeline: PipelineId,
    jobs: Seq<JobView>,
    commit: (Seq<char>, Seq<char>),
) -> Seq<PipelineView> {
    let j = find_pipeline(ps, pipeline);
    if j >= 0 {
        ps.update(j, PipelineView { jobs: Some(jobs), commit: Some(commit), ..ps[j] })
    } else {
        ps
    }
}

/// The store can take the event without failing: a project must be known
/// for its details to open; loaded pipelines and jobs must not be empty.
pub open spec fn event_acceptable(ps: Seq<ProjectView>, e: GlimEvent) -> bool {
    match e {
        GlimEvent::ProjectDetailsOpen(id) => find_index(ps, id) >= 0,
        GlimEvent::ProjectsLoaded(dtos) => ps.len() > 0 || dtos@.len() > 0,
        GlimEvent::PipelinesLoaded(dtos) => dtos@.len() > 0,
        GlimEvent::JobsLoaded(pid, _, dtos) => find_index(ps, pid) >= 0 ==> dtos@.len() > 0,
        _ => true,
    }
}

/// The event selects the most recently active project; among equally
/// recent ones, the first stored.
pub open spec fn selects_most_recent(ps: Seq<ProjectView>, e: GlimEvent) -> bool {
    match e {
        GlimEvent::ProjectSelected(first) => exists|i: int|
            0 <= i < ps.len() && #[trigger] ps[i].id == first && forall|k: int|
                0 <= k < ps.len() ==> #[trigger] ps[k].last_activity_at <= ps[i].last_activity_at
                    && (ps[k].last_activity_at == ps[i].last_activity_at ==> i <= k),
        _ => false,
    }
}

/// How the store reacts to an event: `new` is what the projects become and
/// `events` what it dispatches, in order.
pub open spec fn store_step(
    ps: Seq<ProjectView>,
    e: GlimEvent,
    now: i64,
    new: Seq<ProjectView>,
    events: Seq<GlimEvent>,
) -> bool {
    match e {
        GlimEvent::ProjectDetailsOpen(id) => {
            let p = ps[find_index(ps, id)];
            &&& new == ps
            &&& events == unloaded_job_fetches(
                id,
                match p.pipelines {
                    Some(pl) => pl,
                    None => Seq::empty(),
                },
            )
        },
        GlimEvent::ProjectsLoaded(dtos) => {
            &&& new == sync_all(ps, dtos@, now)
            &&& if ps.len() == 0 {
                &&& events.len() == sync_all_events(ps, dtos@, now).len() + 1
                &&& events.drop_last() == sync_all_events(ps, dtos@, now)
                &&& selects_most_recent(new, events.last())
            } else {
                events == sync_all_events(ps, dtos@, now)
            }
        },
        GlimEvent::PipelinesLoaded(dtos) => {
            let pid = dtos@[0].project_id;
            let k = find_index(ps, pid);
            if k >= 0 {
                &&& new == ps.update(
                    k,
                    ProjectView {
                        pipelines: Some(dtos@.map_values(|d: PipelineDto| pipeline_of_dto(d))),
                        ..ps[k]
                    },
                )
                &&& events.len() == active_pipeline_fetches(pid, dtos@).len() + 1
                &&& events.drop_last() == active_pipeline_fetches(pid, dtos@)
                &&& events.last() matches GlimEvent::ProjectUpdated(p) && (*p)@ == new[k]
            } else {
                new == ps && events.len() == 0
            }
        },
        GlimEvent::JobsLoaded(pid, plid, dtos) => {
            let k = find_index(ps, pid);
            if k >= 0 {
                &&& new == ps.update(
                    k,
                    ProjectView {
                        pipelines: match ps[k].pipelines {
                            Some(pl) => Some(
                                pipelines_with_jobs(
                                    pl,
                                    plid,
                                    dtos@.map_values(|d: JobDto| job_of_dto(d)),
                                    (dtos@[0].commit.title@, dtos@[0].commit.author_name@),
                                ),
                            ),
                            None => None,
                        },
                        ..ps[k]
                    },
                )
                &&& events.len() == 1
                &&& events[0] matches GlimEvent::ProjectUpdated(p) && (*p)@ == new[k]
            } else {
                new == ps && events.len() == 0
            }
        },
        GlimEvent::ProjectSelected(id) => {
            let k = find_index(ps, id);
            if k >= 0 && ps[k].pipelines is None {
                &&& new == ps.update(k, ProjectView { pipelines: Some(Seq::empty()), ..ps[k] })
                &&& events == seq![GlimEvent::PipelinesFetch(id)]
            } else {
                new == ps && events.len() == 0
            }
        },
        _ => new == ps && events.len() == 0,
    }
}

/// Whether activity at `date` lies more than seven whole days before `now`.
pub fn is_older_than_7d(date: i64, now: i64) -> (r: bool)
    ensures
        r == older_than_7d(date, now),
{
    (now as i128 - date as i128) >= 691_200_000i128
}

proof fn lemma_sync_one_len(ps: Seq<ProjectView>, dto: ProjectDto, now: i64)
    ensures
        sync_one(ps, dto, now).len() >= ps.len(),
        sync_one(ps, dto, now).len() > 0,
{
    lemma_find_index(ps, dto.id);
}

proof fn lemma_sync_all_len(ps: Seq<ProjectView>, dtos: Seq<ProjectDto>, now: i64)
    ensures
        sync_all(ps, dtos, now).len() >= ps.len(),
        dtos.len() > 0 ==> sync_all(ps, dtos, now).len() > 0,
    decreases dtos.len(),
{
    if dtos.len() > 0 {
        lemma_sync_all_len(ps, dtos.drop_last(), now);
        lemma_sync_one_len(sync_all(ps, dtos.drop_last(), now), dtos.last(), now);
    }
}

impl ProjectStore {
    /// Takes in one project description.
    fn sync_project(&mut self, dto: ProjectDto, now: i64) -> (r: Vec<GlimEvent>)
        requires
            old(self).lookup_wf(),
        ensures
            final(self).lookup_wf(),
            final(self).view() == sync_one(old(self).view(), dto, now),
            r@ == sync_one_events(old(self).view(), dto, now),
    {
        proof {
            self.lemma_view();
            lemma_find_index(self.view(), dto.id);
        }
        let ghost v0 = self.view();
        let id = dto.id;
        let mut events: Vec<GlimEvent> = Vec::new();
        let older = is_older_than_7d(dto.last_activity_at, now);
        let announced = Project::from_dto(dto.clone());
        match self.project_idx(id) {
            Some(i) => {
                events.push(GlimEvent::PipelinesFetch(id));
                let existing = self.projects.remove(i);
                let fresh = Project::from_dto(dto);
                let updated = Project { pipelines: existing.pipelines, ..fresh };
                self.projects.insert(i, updated);
                proof {
                    assert(self.view() =~= v0.update(i as int, ProjectView { pipelines: v0[i as int].pipelines, ..project_of_dto(dto) }));
                    assert forall|a: int| 0 <= a < self.projects@.len() implies #[trigger] self.projects@[a].id == old(self).projects@[a].id by {}
                    self.lemma_view();
                    old(self).lemma_view();
                    assert forall|a: int, b: int|
                        0 <= a < self.view().len() && 0 <= b < self.view().len() && #[trigger] self.view()[a].id == #[trigger] self.view()[b].id implies a == b by {
                        assert(v0[a].id == self.view()[a].id);
                        assert(v0[b].id == self.view()[b].id);
                    }
                    assert(self.lookup_wf());
                }
            },
            None => {
                let n = self.projects.len();
                self.project_id_lookup.insert(id.0, n);
                let mut fresh = Project::from_dto(dto);
                if !older {
                    events.push(GlimEvent::PipelinesFetch(id));
                    fresh.pipelines = Some(Vec::new());
                }
                self.projects.push(fresh);
                proof {
                    assert(fresh.pipelines matches Some(v) ==> v@.len() == 0);
                    assert(pipelines_view(Seq::<Pipeline>::empty()) =~= Seq::<PipelineView>::empty());
                    assert(self.view() =~= sync_one(v0, dto, now));
                    assert forall|a: int| 0 <= a < n implies #[trigger] self.projects@[a] == old(self).projects@[a] by {}
                    self.lemma_view();
                    old(self).lemma_view();
                    assert forall|a: int| 0 <= a < n implies self.projects@[a].id != id by {
                        assert(v0[a].id == old(self).projects@[a].id);
                    }
                    assert forall|a: int|
                        0 <= a < self.projects@.len() implies #[trigger] self.project_id_lookup@.contains_key(
                            self.projects@[a].id.0,
                        ) && self.project_id_lookup@[self.projects@[a].id.0] == a by {
                        if a < n {
                            assert(old(self).project_id_lookup@.contains_key(old(self).projects@[a].id.0));
                            assert(self.projects@[a].id.0 != id.0);
                        }
                    }
                    assert forall|k: u64| #[trigger] self.project_id_lookup@.contains_key(k) implies self.project_id_lookup@[k]
                        < self.projects@.len() && self.projects@[self.project_id_lookup@[k] as int].id.0 == k by {
                        if k != id.0 {
                            assert(old(self).project_id_lookup@.contains_key(k));
                        }
                    }
                    assert forall|a: int, b: int|
                        0 <= a < self.view().len() && 0 <= b < self.view().len() && #[trigger] self.view()[a].id == #[trigger] self.view()[b].id implies a == b by {
                        if a < n && b < n {
                            assert(v0[a].id == v0[b].id);
                        }
                    }
                }
            },
        }
        events.push(GlimEvent::ProjectUpdated(Box::new(announced)));
        proof {
            assert(events@ =~= sync_one_events(v0, dto, now));
            self.lemma_view();
        }
        events
    }
}


impl ProjectStore {
    /// Takes in a list of project descriptions; on the first load, selects
    /// the most recently active project.
    fn load_projects(&mut self, dtos: &Vec<ProjectDto>, now: i64) -> (r: Vec<GlimEvent>)
        requires
            old(self).wf(),
            old(self).view().len() > 0 || dtos@.len() > 0,
        ensures
            final(self).wf(),
            store_step(old(self).view(), GlimEvent::ProjectsLoaded(*dtos), now, final(self).view(), r@),
    {
        let ghost v0 = self.view();
        let first = self.sorted.len() == 0;
        let mut events: Vec<GlimEvent> = Vec::new();
        let mut i: usize = 0;
        while i < dtos.len()
            invariant
                self.lookup_wf(),
                i <= dtos@.len(),
                self.view() == sync_all(v0, dtos@.take(i as int), now),
                events@ == sync_all_events(v0, dtos@.take(i as int), now),
            decreases dtos@.len() - i,
        {
            let mut evs = self.sync_project(dtos[i].clone(), now);
            events.append(&mut evs);
            proof {
                assert(dtos@.take(i + 1).drop_last() =~= dtos@.take(i as int));
                assert(dtos@.take(i + 1).last() == dtos@[i as int]);
            }
            i = i + 1;
        }
        assert(dtos@.take(dtos@.len() as int) =~= dtos@);
        let ghost before_select = events@;
        self.resort();
        proof {
            self.lemma_view();
            lemma_sync_all_len(v0, dtos@, now);
        }
        if first {
            let top = self.sorted[0];
            events.push(GlimEvent::ProjectSelected(self.projects[top].id));
            proof {
                let ps = self.view();
                let o = self.order();
                assert(ps[top as int].id == self.projects@[top as int].id);
                assert forall|k: int| 0 <= k < ps.len() implies #[trigger] ps[k].last_activity_at
                    <= ps[top as int].last_activity_at && (ps[k].last_activity_at
                    == ps[top as int].last_activity_at ==> top <= k) by {
                    assert(listed(o, k));
                    let j = choose|j: int| 0 <= j < o.len() && #[trigger] o[j] == k;
                    if j > 0 {
                        assert(o[0] == top);
                    }
                }
                assert(selects_most_recent(ps, events@.last()));
                assert(events@.drop_last() =~= before_select);
            }
        }
        events
    }

    /// Takes in the pipelines of a project, and asks for the jobs of those still running.
    fn load_pipelines(&mut self, dtos: &Vec<PipelineDto>) -> (r: Vec<GlimEvent>)
        requires
            old(self).wf(),
            dtos@.len() > 0,
        ensures
            final(self).wf(),
            store_step(old(self).view(), GlimEvent::PipelinesLoaded(*dtos), 0, final(self).view(), r@),
    {
        proof {
            self.lemma_view();
        }
        let ghost v0 = self.view();
        let pid = dtos[0].project_id;
        let mut events: Vec<GlimEvent> = Vec::new();
        match self.project_idx(pid) {
            Some(k) => {
                let mut pipelines: Vec<Pipeline> = Vec::new();
                let mut i: usize = 0;
                while i < dtos.len()
                    invariant
                        i <= dtos@.len(),
                        pipelines@.len() == i,
                        pipelines_view(pipelines@) == dtos@.take(i as int).map_values(
                            |d: PipelineDto| pipeline_of_dto(d),
                        ),
                        events@ == active_pipeline_fetches(pid, dtos@.take(i as int)),
                    decreases dtos@.len() - i,
                {
                    let p = Pipeline::from_dto(dtos[i].clone());
                    let ghost before = pipelines@;
                    if p.status.is_active() || p.has_active_jobs() {
                        events.push(GlimEvent::JobsFetch(pid, p.id));
                    }
                    pipelines.push(p);
                    proof {
                        assert(dtos@.take(i + 1).drop_last() =~= dtos@.take(i as int));
                        assert(dtos@.take(i + 1).last() == dtos@[i as int]);
                        assert forall|j: int| 0 <= j < i + 1 implies #[trigger] pipelines_view(pipelines@)[j]
                            == dtos@.take(i + 1).map_values(|d: PipelineDto| pipeline_of_dto(d))[j] by {
                            if j < i {
                                assert(pipelines@[j] == before[j]);
                                assert(pipelines_view(before)[j] == dtos@.take(i as int).map_values(|d: PipelineDto| pipeline_of_dto(d))[j]);
                            }
                        }
                        assert(pipelines_view(pipelines@) =~= dtos@.take(i + 1).map_values(
                            |d: PipelineDto| pipeline_of_dto(d),
                        ));
                        assert(events@ =~= active_pipeline_fetches(pid, dtos@.take(i + 1)));
                    }
                    i = i + 1;
                }
                assert(dtos@.take(dtos@.len() as int) =~= dtos@);
                let mut project = self.projects.remove(k);
                project.pipelines = Some(pipelines);
                let announced = project.clone();
                self.projects.insert(k, project);
                let ghost fetches = events@;
                events.push(GlimEvent::ProjectUpdated(Box::new(announced)));
                proof {
                    assert(events@.drop_last() =~= fetches);
                    assert(self.view() =~= v0.update(
                        k as int,
                        ProjectView {
                            pipelines: Some(dtos@.map_values(|d: PipelineDto| pipeline_of_dto(d))),
                            ..v0[k as int]
                        },
                    ));
                    assert forall|a: int| 0 <= a < self.projects@.len() implies #[trigger] self.projects@[a].id == old(self).projects@[a].id
                        && self.projects@[a].last_activity_at == old(self).projects@[a].last_activity_at by {}
                    self.lemma_view();
                    old(self).lemma_view();
                    self.lemma_same_keys(old(self));
                    assert(self.view()[k as int] == announced@);
                }
            },
            None => {},
        }
        proof {
            self.lemma_view();
        }
        events
    }
}


/// Index of the first pipeline with the given id.
pub fn pipeline_index_of(ps: &Vec<Pipeline>, id: PipelineId) -> (r: Option<usize>)
    ensures
        match r {
            Some(j) => j < ps@.len() && j == find_pipeline(pipelines_view(ps@), id),
            None => find_pipeline(pipelines_view(ps@), id) == -1,
        },
{
    proof {
        lemma_find_pipeline(pipelines_view(ps@), id);
    }
    let mut j: usize = 0;
    while j < ps.len()
        invariant
            j <= ps@.len(),
            forall|k: int| 0 <= k < j ==> #[trigger] ps@[k].id != id,
        decreases ps@.len() - j,
    {
        if ps[j].id == id {
            proof {
                let v = pipelines_view(ps@);
                lemma_find_pipeline(v, id);
                let f = find_pipeline(v, id);
                assert(v[j as int].id == id);
                if f >= 0 && f < j {
                    assert(v[f].id == ps@[f].id);
                } else if f > j {
                    assert(v[j as int].id != id);
                } else if f == -1 {
                    assert(v[j as int].id != id);
                }
            }
            return Some(j);
        }
        j = j + 1;
    }
    proof {
        let v = pipelines_view(ps@);
        let f = find_pipeline(v, id);
        if f >= 0 {
            assert(v[f].id == ps@[f].id);
        }
    }
    None
}

impl ProjectStore {
    /// Takes in the jobs of a pipeline.
    fn load_jobs(&mut self, pid: ProjectId, plid: PipelineId, dtos: &Vec<JobDto>) -> (r: Vec<GlimEvent>)
        requires
            old(self).wf(),
            find_index(old(self).view(), pid) >= 0 ==> dtos@.len() > 0,
        ensures
            final(self).wf(),
            store_step(old(self).view(), GlimEvent::JobsLoaded(pid, plid, *dtos), 0, final(self).view(), r@),
    {
        proof {
            self.lemma_view();
        }
        let ghost v0 = self.view();
        let mut events: Vec<GlimEvent> = Vec::new();
        match self.project_idx(pid) {
            Some(k) => {
                let mut jobs: Vec<Job> = Vec::new();
                let mut i: usize = 0;
                while i < dtos.len()
                    invariant
                        i <= dtos@.len(),
                        jobs@.len() == i,
                        jobs_view(jobs@) == dtos@.take(i as int).map_values(|d: JobDto| job_of_dto(d)),
                    decreases dtos@.len() - i,
                {
                    let ghost before = jobs@;
                    jobs.push(Job::from_dto(dtos[i].clone()));
                    proof {
                        assert forall|j: int| 0 <= j < i + 1 implies #[trigger] jobs_view(jobs@)[j]
                            == dtos@.take(i + 1).map_values(|d: JobDto| job_of_dto(d))[j] by {
                            if j < i {
                                assert(jobs@[j] == before[j]);
                                assert(jobs_view(before)[j] == dtos@.take(i as int).map_values(|d: JobDto| job_of_dto(d))[j]);
                            }
                        }
                        assert(jobs_view(jobs@) =~= dtos@.take(i + 1).map_values(|d: JobDto| job_of_dto(d)));
                    }
                    i = i + 1;
                }
                assert(dtos@.take(dtos@.len() as int) =~= dtos@);
                let commit = dtos[0].commit.clone();
                let mut project = self.projects.remove(k);
                let ghost old_pipelines = project.pipelines;
                match project.pipelines {
                    Some(mut ps) => {
                        match pipeline_index_of(&ps, plid) {
                            Some(j) => {
                                let ghost ps0 = ps@;
                                let mut p = ps.remove(j);
                                p.jobs = Some(jobs);
                                p.commit = Some(commit);
                                ps.insert(j, p);
                                proof {
                                    assert(pipelines_view(ps@) =~= pipelines_view(ps0).update(
                                        j as int,
                                        PipelineView {
                                            jobs: Some(dtos@.map_values(|d: JobDto| job_of_dto(d))),
                                            commit: Some((dtos@[0].commit.title@, dtos@[0].commit.author_name@)),
                                            ..pipelines_view(ps0)[j as int]
                                        },
                                    ));
                                }
                            },
                            None => {},
                        }
                        project.pipelines = Some(ps);
                    },
                    None => {
                        project.pipelines = None;
                    },
                }
                let announced = project.clone();
                self.projects.insert(k, project);
                events.push(GlimEvent::ProjectUpdated(Box::new(announced)));
                proof {
                    self.lemma_view();
                    old(self).lemma_view();
                    assert forall|a: int| 0 <= a < self.projects@.len() implies #[trigger] self.projects@[a].id == old(self).projects@[a].id
                        && self.projects@[a].last_activity_at == old(self).projects@[a].last_activity_at by {}
                    self.lemma_same_keys(old(self));
                    assert(self.view() =~= v0.update(
                        k as int,
                        ProjectView {
                            pipelines: match v0[k as int].pipelines {
                                Some(pl) => Some(
                                    pipelines_with_jobs(
                                        pl,
                                        plid,
                                        dtos@.map_values(|d: JobDto| job_of_dto(d)),
                                        (dtos@[0].commit.title@, dtos@[0].commit.author_name@),
                                    ),
                                ),
                                None => None,
                            },
                            ..v0[k as int]
                        },
                    ));
                    assert(self.view()[k as int] == announced@);
                }
            },
            None => {},
        }
        events
    }

    /// A selected project gets its pipelines requested, once.
    fn select_project(&mut self, id: ProjectId) -> (r: Vec<GlimEvent>)
        requires
            old(self).wf(),
        ensures
            final(self).wf(),
            store_step(old(self).view(), GlimEvent::ProjectSelected(id), 0, final(self).view(), r@),
    {
        proof {
            self.lemma_view();
        }
        let ghost v0 = self.view();
        let mut events: Vec<GlimEvent> = Vec::new();
        match self.project_idx(id) {
            Some(k) => {
                if self.projects[k].pipelines.is_none() {
                    let mut project = self.projects.remove(k);
                    project.pipelines = Some(Vec::new());
                    self.projects.insert(k, project);
                    events.push(GlimEvent::PipelinesFetch(id));
                    proof {
                        self.lemma_view();
                        old(self).lemma_view();
                        assert forall|a: int| 0 <= a < self.projects@.len() implies #[trigger] self.projects@[a].id == old(self).projects@[a].id
                            && self.projects@[a].last_activity_at == old(self).projects@[a].last_activity_at by {}
                        self.lemma_same_keys(old(self));
                        assert(pipelines_view(Seq::<Pipeline>::empty()) =~= Seq::<PipelineView>::empty());
                        assert(self.view() =~= v0.update(k as int, ProjectView { pipelines: Some(Seq::empty()), ..v0[k as int] }));
                        assert(events@ =~= seq![GlimEvent::PipelinesFetch(id)]);
                    }
                }
            },
            None => {},
        }
        events
    }

    /// Asks for the jobs of the pipelines of a project whose jobs are not loaded yet.
    fn details_job_fetches(&self, id: ProjectId) -> (r: Vec<GlimEvent>)
        requires
            self.wf(),
            find_index(self.view(), id) >= 0,
        ensures
            store_step(self.view(), GlimEvent::ProjectDetailsOpen(id), 0, self.view(), r@),
    {
        proof {
            self.lemma_view();
        }
        let mut events: Vec<GlimEvent> = Vec::new();
        let k = match self.project_idx(id) {
            Some(k) => k,
            None => {
                return events;
            },
        };
        let project = &self.projects[k];
        proof {
            lemma_find_index(self.view(), id);
        }
        match &project.pipelines {
            Some(ps) => {
                let mut i: usize = 0;
                while i < ps.len()
                    invariant
                        i <= ps@.len(),
                        events@ == unloaded_job_fetches(id, pipelines_view(ps@).take(i as int)),
                    decreases ps@.len() - i,
                {
                    if ps[i].jobs.is_none() {
                        events.push(GlimEvent::JobsFetch(id, ps[i].id));
                    }
                    proof {
                        let v = pipelines_view(ps@);
                        assert(v.take(i + 1).drop_last() =~= v.take(i as int));
                        assert(v.take(i + 1).last() == v[i as int]);
                        assert(events@ =~= unloaded_job_fetches(id, v.take(i + 1)));
                    }
                    i = i + 1;
                }
                assert(pipelines_view(ps@).take(ps@.len() as int) =~= pipelines_view(ps@));
            },
            None => {
                assert(events@ =~= unloaded_job_fetches(id, Seq::empty()));
            },
        }
        events
    }

    /// Reacts to an event at time `now` (milliseconds since the epoch),
    /// returning the events to dispatch.
    pub fn apply(&mut self, event: &GlimEvent, now: i64) -> (r: Vec<GlimEvent>)
        requires
            old(self).wf(),
            event_acceptable(old(self).view(), *event),
        ensures
            final(self).wf(),
            store_step(old(self).view(), *event, now, final(self).view(), r@),
    {
        match event {
            GlimEvent::ProjectDetailsOpen(id) => self.details_job_fetches(*id),
            GlimEvent::ProjectsLoaded(dtos) => self.load_projects(dtos, now),
            GlimEvent::PipelinesLoaded(dtos) => self.load_pipelines(dtos),
            GlimEvent::JobsLoaded(pid, plid, dtos) => self.load_jobs(*pid, *plid, dtos),
            GlimEvent::ProjectSelected(id) => self.select_project(*id),
            _ => Vec::new(),
        }
    }
}

/// Selecting a project asks for its pipelines only the first time: once
/// selected, selecting it again asks for nothing.
pub proof fn lemma_select_fetches_once(
    ps: Seq<ProjectView>,
    id: ProjectId,
    now: i64,
    mid: Seq<ProjectView>,
    first: Seq<GlimEvent>,
    end: Seq<ProjectView>,
    second: Seq<GlimEvent>,
)
    requires
        store_step(ps, GlimEvent::ProjectSelected(id), now, mid, first),
        store_step(mid, GlimEvent::ProjectSelected(id), now, end, second),
    ensures
        second.len() == 0,
        end == mid,
{
    lemma_find_index(ps, id);
    let k = find_index(ps, id);
    if k >= 0 && ps[k].pipelines is None {
        lemma_find_index(mid, id);
        let m = find_index(mid, id);
        assert forall|j: int| 0 <= j < k implies #[trigger] mid[j].id != id by {
            assert(mid[j] == ps[j]);
        }
        lemma_find_first(mid, id, k);
    }
}

/// The first project with an id is found.
proof fn lemma_find_first(ps: Seq<ProjectView>, id: ProjectId, k: int)
    requires
        0 <= k < ps.len(),
        ps[k].id == id,
        forall|j: int| 0 <= j < k ==> #[trigger] ps[j].id != id,
    ensures
        find_index(ps, id) == k,
    decreases ps.len(),
{
    if ps.len() - 1 > k {
        lemma_find_first(ps.drop_last(), id, k);
    } else {
        lemma_find_index(ps.drop_last(), id);
        assert forall|j: int| 0 <= j < ps.len() - 1 implies #[trigger] ps.drop_last()[j].id != id by {
            assert(ps.drop_last()[j] == ps[j]);
        }
    }
}

/// The ids of the `ProjectUpdated` events among `events`, in order.
pub open spec fn updated_ids(events: Seq<GlimEvent>) -> Seq<ProjectId>
    decreases events.len(),
{
    if events.len() == 0 {
        Seq::empty()
    } else {
        updated_ids(events.drop_last()) + match events.last() {
            GlimEvent::ProjectUpdated(p) => seq![p.id],
            _ => Seq::empty(),
        }
    }
}

proof fn lemma_updated_ids_concat(a: Seq<GlimEvent>, b: Seq<GlimEvent>)
    ensures
        updated_ids(a + b) == updated_ids(a) + updated_ids(b),
    decreases b.len(),
{
    if b.len() == 0 {
        assert(a + b =~= a);
        assert(updated_ids(b) =~= Seq::<ProjectId>::empty());
        assert(updated_ids(a) + updated_ids(b) =~= updated_ids(a));
    } else {
        lemma_updated_ids_concat(a, b.drop_last());
        assert((a + b).drop_last() =~= a + b.drop_last());
        assert((a + b).last() == b.last());
        let tail = match b.last() {
            GlimEvent::ProjectUpdated(p) => seq![p.id],
            _ => Seq::<ProjectId>::empty(),
        };
        assert(updated_ids(a) + updated_ids(b.drop_last()) + tail =~= updated_ids(a) + (
        updated_ids(b.drop_last()) + tail));
    }
}

/// The id is stored.
pub open spec fn holds_id(ps: Seq<ProjectView>, id: ProjectId) -> bool {
    exists|j: int| 0 <= j < ps.len() && #[trigger] ps[j].id == id
}

proof fn lemma_holds_found(ps: Seq<ProjectView>, id: ProjectId)
    ensures
        holds_id(ps, id) == (find_index(ps, id) >= 0),
{
    lemma_find_index(ps, id);
    if find_index(ps, id) >= 0 {
        assert(ps[find_index(ps, id)].id == id);
    }
}

proof fn lemma_sync_one_keeps(ps: Seq<ProjectView>, dto: ProjectDto, now: i64, id: ProjectId)
    ensures
        holds_id(ps, id) ==> holds_id(sync_one(ps, dto, now), id),
        holds_id(sync_one(ps, dto, now), dto.id),
        updated_ids(sync_one_events(ps, dto, now)) == seq![dto.id],
{
    let new = sync_one(ps, dto, now);
    let k = find_index(ps, dto.id);
    lemma_find_index(ps, dto.id);
    if holds_id(ps, id) {
        let j = choose|j: int| 0 <= j < ps.len() && #[trigger] ps[j].id == id;
        if k >= 0 && j == k {
            assert(new[k].id == dto.id);
        } else {
            assert(new[j] == ps[j]);
        }
    }
    if k >= 0 {
        assert(new[k].id == dto.id);
    } else {
        assert(new[ps.len() as int].id == dto.id);
    }
    let evs = sync_one_events(ps, dto, now);
    let head = if find_index(ps, dto.id) >= 0 || !older_than_7d(dto.last_activity_at, now) {
        seq![GlimEvent::PipelinesFetch(dto.id)]
    } else {
        Seq::<GlimEvent>::empty()
    };
    assert(evs == head + seq![GlimEvent::ProjectUpdated(Box::new(project_from_dto(dto)))]);
    lemma_updated_ids_concat(head, seq![GlimEvent::ProjectUpdated(Box::new(project_from_dto(dto)))]);
    if head.len() > 0 {
        assert(head.drop_last() =~= Seq::<GlimEvent>::empty());
        assert(updated_ids(head.drop_last()) =~= Seq::<ProjectId>::empty());
        assert(head.last() == GlimEvent::PipelinesFetch(dto.id));
        assert(updated_ids(head) =~= Seq::<ProjectId>::empty());
    } else {
        assert(updated_ids(head) =~= Seq::<ProjectId>::empty());
    }
    let one = seq![GlimEvent::ProjectUpdated(Box::new(project_from_dto(dto)))];
    assert(one.drop_last() =~= Seq::<GlimEvent>::empty());
    assert(updated_ids(one.drop_last()) =~= Seq::<ProjectId>::empty());
    assert(updated_ids(one) =~= seq![dto.id]);
}

proof fn lemma_sync_all_keeps(ps: Seq<ProjectView>, dtos: Seq<ProjectDto>, now: i64)
    ensures
        forall|id: ProjectId| holds_id(ps, id) ==> #[trigger] holds_id(sync_all(ps, dtos, now), id),
        forall|i: int| 0 <= i < dtos.len() ==> holds_id(sync_all(ps, dtos, now), #[trigger] dtos[i].id),
        updated_ids(sync_all_events(ps, dtos, now)) == dtos.map_values(|d: ProjectDto| d.id),
    decreases dtos.len(),
{
    if dtos.len() == 0 {
        assert(updated_ids(sync_all_events(ps, dtos, now)) =~= Seq::<ProjectId>::empty());
        assert(dtos.map_values(|d: ProjectDto| d.id) =~= Seq::<ProjectId>::empty());
    } else {
        let init = dtos.drop_last();
        let mid = sync_all(ps, init, now);
        lemma_sync_all_keeps(ps, init, now);
        assert forall|id: ProjectId| holds_id(ps, id) implies #[trigger] holds_id(sync_all(ps, dtos, now), id) by {
            lemma_sync_one_keeps(mid, dtos.last(), now, id);
        }
        assert forall|i: int| 0 <= i < dtos.len() implies holds_id(sync_all(ps, dtos, now), #[trigger] dtos[i].id) by {
            lemma_sync_one_keeps(mid, dtos.last(), now, dtos[i].id);
            if i < dtos.len() - 1 {
                assert(dtos[i] == init[i]);
            }
        }
        lemma_sync_one_keeps(mid, dtos.last(), now, dtos.last().id);
        lemma_updated_ids_concat(sync_all_events(ps, init, now), sync_one_events(mid, dtos.last(), now));
        assert(dtos.map_values(|d: ProjectDto| d.id) =~= init.map_values(|d: ProjectDto| d.id).push(
            dtos.last().id,
        ));
    }
}

/// One of the descriptions carries the id.
pub open spec fn described(dtos: Seq<ProjectDto>, id: ProjectId) -> bool {
    exists|i: int| 0 <= i < dtos.len() && #[trigger] dtos[i].id == id
}

proof fn lemma_sync_one_shape(ps: Seq<ProjectView>, dto: ProjectDto, now: i64)
    ensures
        sync_one(ps, dto, now).len() >= ps.len(),
        forall|k: int| 0 <= k < ps.len() ==> #[trigger] sync_one(ps, dto, now)[k].id == ps[k].id,
        forall|j: int|
            ps.len() <= j < sync_one(ps, dto, now).len() ==> #[trigger] sync_one(ps, dto, now)[j].id
                == dto.id && !holds_id(ps, dto.id),
        sync_one(ps, dto, now).len() <= ps.len() + 1,
        ids_unique(ps) ==> ids_unique(sync_one(ps, dto, now)),
{
    let new = sync_one(ps, dto, now);
    lemma_find_index(ps, dto.id);
    let k = find_index(ps, dto.id);
    if k >= 0 {
        assert(new[k].id == ps[k].id);
        assert forall|a: int| 0 <= a < ps.len() implies #[trigger] new[a].id == ps[a].id by {}
    } else {
        assert forall|a: int| 0 <= a < ps.len() implies #[trigger] new[a].id == ps[a].id by {
            assert(new[a] == ps[a]);
        }
        if holds_id(ps, dto.id) {
            let j = choose|j: int| 0 <= j < ps.len() && #[trigger] ps[j].id == dto.id;
            assert(ps[j].id != dto.id);
        }
    }
    if ids_unique(ps) {
        assert forall|a: int, b: int|
            0 <= a < new.len() && 0 <= b < new.len() && #[trigger] new[a].id == #[trigger] new[b].id implies a == b by {
            if a < ps.len() && b < ps.len() {
                assert(ps[a].id == ps[b].id);
            } else if a < ps.len() {
                assert(ps[a].id == dto.id);
            } else if b < ps.len() {
                assert(ps[b].id == dto.id);
            }
        }
    }
}

proof fn lemma_sync_all_shape(ps: Seq<ProjectView>, dtos: Seq<ProjectDto>, now: i64)
    ensures
        sync_all(ps, dtos, now).len() >= ps.len(),
        forall|k: int| 0 <= k < ps.len() ==> #[trigger] sync_all(ps, dtos, now)[k].id == ps[k].id,
        forall|j: int|
            ps.len() <= j < sync_all(ps, dtos, now).len() ==> !holds_id(ps, #[trigger] sync_all(ps, dtos, now)[j].id)
                && described(dtos, sync_all(ps, dtos, now)[j].id),
        ids_unique(ps) ==> ids_unique(sync_all(ps, dtos, now)),
    decreases dtos.len(),
{
    if dtos.len() > 0 {
        let init = dtos.drop_last();
        let mid = sync_all(ps, init, now);
        let new = sync_all(ps, dtos, now);
        lemma_sync_all_shape(ps, init, now);
        lemma_sync_one_shape(mid, dtos.last(), now);
        assert(new == sync_one(mid, dtos.last(), now));
        assert forall|j: int| ps.len() <= j < new.len() implies !holds_id(ps, #[trigger] new[j].id)
            && described(dtos, new[j].id) by {
            if j < mid.len() {
                assert(new[j].id == mid[j].id);
                let i = choose|i: int| 0 <= i < init.len() && #[trigger] init[i].id == mid[j].id;
                assert(dtos[i] == init[i]);
            } else {
                assert(new[j].id == dtos.last().id);
                assert(dtos[dtos.len() - 1] == dtos.last());
                if holds_id(ps, new[j].id) {
                    let a = choose|a: int| 0 <= a < ps.len() && #[trigger] ps[a].id == new[j].id;
                    assert(mid[a].id == ps[a].id);
                    assert(holds_id(mid, dtos.last().id));
                }
            }
        }
    }
}

/// Loading project descriptions adds nothing but the described projects
/// that were not stored before: the stored projects keep their places, and
/// every project after them is a described one with a new id; no two
/// projects share an id.
pub proof fn lemma_load_adds_only_new(
    ps: Seq<ProjectView>,
    dtos: Vec<ProjectDto>,
    now: i64,
    new: Seq<ProjectView>,
    events: Seq<GlimEvent>,
)
    requires
        store_step(ps, GlimEvent::ProjectsLoaded(dtos), now, new, events),
        ids_unique(ps),
    ensures
        new.len() >= ps.len(),
        forall|k: int| 0 <= k < ps.len() ==> #[trigger] new[k].id == ps[k].id,
        forall|j: int|
            ps.len() <= j < new.len() ==> !holds_id(ps, #[trigger] new[j].id) && described(
                dtos@,
                new[j].id,
            ),
        ids_unique(new),
{
    lemma_sync_all_shape(ps, dtos@, now);
}

/// Loading project descriptions keeps every stored project, stores a
/// project for each description, and announces exactly one update per
/// description, in the order of the descriptions.
pub proof fn lemma_load_finds_all(
    ps: Seq<ProjectView>,
    dtos: Vec<ProjectDto>,
    now: i64,
    new: Seq<ProjectView>,
    events: Seq<GlimEvent>,
)
    requires
        store_step(ps, GlimEvent::ProjectsLoaded(dtos), now, new, events),
    ensures
        forall|k: int| 0 <= k < ps.len() ==> find_index(new, #[trigger] ps[k].id) >= 0,
        forall|i: int| 0 <= i < dtos@.len() ==> find_index(new, #[trigger] dtos@[i].id) >= 0,
        updated_ids(events) == dtos@.map_values(|d: ProjectDto| d.id),
{
    lemma_sync_all_keeps(ps, dtos@, now);
    assert forall|k: int| 0 <= k < ps.len() implies find_index(new, #[trigger] ps[k].id) >= 0 by {
        assert(holds_id(ps, ps[k].id));
        lemma_holds_found(new, ps[k].id);
    }
    assert forall|i: int| 0 <= i < dtos@.len() implies find_index(new, #[trigger] dtos@[i].id) >= 0 by {
        lemma_holds_found(new, dtos@[i].id);
    }
    if ps.len() == 0 {
        assert(events.len() > 0);
        assert(events.last() is ProjectSelected);
    }
}

proof fn lemma_fetch_requested(ps: Seq<ProjectView>, dtos: Seq<ProjectDto>, now: i64, i: int)
    requires
        0 <= i < dtos.len(),
        find_index(sync_all(ps, dtos.take(i), now), dtos[i].id) >= 0 || !older_than_7d(
            dtos[i].last_activity_at,
            now,
        ),
    ensures
        sync_all_events(ps, dtos, now).contains(GlimEvent::PipelinesFetch(dtos[i].id)),
    decreases dtos.len(),
{
    let init = dtos.drop_last();
    let prefix = sync_all_events(ps, init, now);
    let all = sync_all_events(ps, dtos, now);
    let mid = sync_all(ps, init, now);
    let one = sync_one_events(mid, dtos.last(), now);
    assert(all == prefix + one);
    if i == dtos.len() - 1 {
        assert(dtos.take(i) =~= init);
        assert(dtos[i] == dtos.last());
        assert(one[0] == GlimEvent::PipelinesFetch(dtos[i].id));
        assert(all[prefix.len() as int] == one[0]);
    } else {
        assert(init.take(i) =~= dtos.take(i));
        assert(init[i] == dtos[i]);
        lemma_fetch_requested(ps, init, now, i);
        let j = choose|j: int| 0 <= j < prefix.len() && prefix[j] == GlimEvent::PipelinesFetch(dtos[i].id);
        assert(all[j] == prefix[j]);
    }
}

/// Loading project descriptions asks for the pipelines of every described
/// project that was already known (stored before, or described earlier in
/// the same list), whatever its age, and of every one active within the
/// last week.
pub proof fn lemma_load_fetches_known(
    ps: Seq<ProjectView>,
    dtos: Vec<ProjectDto>,
    now: i64,
    new: Seq<ProjectView>,
    events: Seq<GlimEvent>,
)
    requires
        store_step(ps, GlimEvent::ProjectsLoaded(dtos), now, new, events),
    ensures
        forall|i: int|
            0 <= i < dtos@.len() && (holds_id(ps, #[trigger] dtos@[i].id) || described(
                dtos@.take(i),
                dtos@[i].id,
            ) || !older_than_7d(dtos@[i].last_activity_at, now)) ==> events.contains(
                GlimEvent::PipelinesFetch(dtos@[i].id),
            ),
{
    let ds = dtos@;
    let evs = sync_all_events(ps, ds, now);
    assert forall|i: int|
        0 <= i < ds.len() && (holds_id(ps, #[trigger] ds[i].id) || described(ds.take(i), ds[i].id)
            || !older_than_7d(ds[i].last_activity_at, now)) implies events.contains(
        GlimEvent::PipelinesFetch(ds[i].id),
    ) by {
        let before = ds.take(i);
        let mid = sync_all(ps, before, now);
        lemma_sync_all_keeps(ps, before, now);
        if described(before, ds[i].id) {
            let a = choose|a: int| 0 <= a < before.len() && #[trigger] before[a].id == ds[i].id;
            assert(holds_id(mid, before[a].id));
        }
        lemma_holds_found(mid, ds[i].id);
        lemma_fetch_requested(ps, ds, now, i);
        if ps.len() == 0 {
            let j = choose|j: int| 0 <= j < evs.len() && evs[j] == GlimEvent::PipelinesFetch(ds[i].id);
            assert(events.drop_last()[j] == events[j]);
        }
    }
}

/// A pipeline fetch that loading asks for is for a described project that
/// was known before its description, or active within the last week.
pub open spec fn fetch_called_for(ps: Seq<ProjectView>, dtos: Seq<ProjectDto>, now: i64, id: ProjectId) -> bool {
    exists|i: int|
        0 <= i < dtos.len() && #[trigger] dtos[i].id == id && (holds_id(ps, id) || described(
            dtos.take(i),
            id,
        ) || !older_than_7d(dtos[i].last_activity_at, now))
}

proof fn lemma_fetches_called_for(ps: Seq<ProjectView>, dtos: Seq<ProjectDto>, now: i64)
    ensures
        forall|j: int|
            0 <= j < sync_all_events(ps, dtos, now).len() ==> (#[trigger] sync_all_events(ps, dtos, now)[j] matches GlimEvent::PipelinesFetch(id)
                ==> fetch_called_for(ps, dtos, now, id)),
    decreases dtos.len(),
{
    if dtos.len() > 0 {
        let init = dtos.drop_last();
        let prefix = sync_all_events(ps, init, now);
        let all = sync_all_events(ps, dtos, now);
        let mid = sync_all(ps, init, now);
        let last = dtos.last();
        let one = sync_one_events(mid, last, now);
        assert(all == prefix + one);
        lemma_fetches_called_for(ps, init, now);
        lemma_sync_all_shape(ps, init, now);
        lemma_holds_found(mid, last.id);
        let n = (dtos.len() - 1) as int;
        assert(dtos[n] == last);
        assert(dtos.take(n) =~= init);
        assert forall|j: int| 0 <= j < all.len() implies (#[trigger] all[j] matches GlimEvent::PipelinesFetch(id)
            ==> fetch_called_for(ps, dtos, now, id)) by {
            if j < prefix.len() {
                assert(all[j] == prefix[j]);
                if let GlimEvent::PipelinesFetch(id) = prefix[j] {
                    let i = choose|i: int|
                        0 <= i < init.len() && #[trigger] init[i].id == id && (holds_id(ps, id)
                            || described(init.take(i), id) || !older_than_7d(
                            init[i].last_activity_at,
                            now,
                        ));
                    assert(init.take(i) =~= dtos.take(i));
                    assert(dtos[i] == init[i]);
                }
            } else {
                assert(all[j] == one[j - prefix.len()]);
                if let GlimEvent::PipelinesFetch(id) = all[j] {
                    assert(id == last.id);
                    if find_index(mid, last.id) >= 0 {
                        let a = choose|a: int| 0 <= a < mid.len() && #[trigger] mid[a].id == last.id;
                        if a < ps.len() {
                            assert(ps[a].id == last.id);
                            assert(holds_id(ps, id));
                        } else {
                            assert(described(init, mid[a].id));
                        }
                    }
                    assert(fetch_called_for(ps, dtos, now, id));
                }
            }
        }
    }
}

/// Loading project descriptions asks for no pipelines but those of
/// described projects that were known before their description, or active
/// within the last week.
pub proof fn lemma_load_fetches_only_called_for(
    ps: Seq<ProjectView>,
    dtos: Vec<ProjectDto>,
    now: i64,
    new: Seq<ProjectView>,
    events: Seq<GlimEvent>,
)
    requires
        store_step(ps, GlimEvent::ProjectsLoaded(dtos), now, new, events),
    ensures
        forall|j: int|
            0 <= j < events.len() ==> (#[trigger] events[j] matches GlimEvent::PipelinesFetch(id)
                ==> exists|i: int|
                0 <= i < dtos@.len() && #[trigger] dtos@[i].id == id && (holds_id(ps, id)
                    || described(dtos@.take(i), id) || !older_than_7d(
                    dtos@[i].last_activity_at,
                    now,
                ))),
{
    let evs = sync_all_events(ps, dtos@, now);
    lemma_fetches_called_for(ps, dtos@, now);
    assert forall|j: int| 0 <= j < events.len() implies (#[trigger] events[j] matches GlimEvent::PipelinesFetch(id)
        ==> fetch_called_for(ps, dtos@, now, id)) by {
        if ps.len() == 0 {
            if j < events.len() - 1 {
                assert(events[j] == events.drop_last()[j]);
                assert(evs[j] == events[j]);
            } else {
                assert(events[j] == events.last());
            }
        } else {
            assert(evs[j] == events[j]);
        }
    }
}

} // verus!
