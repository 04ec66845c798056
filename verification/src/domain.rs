//! GitLab projects, pipelines and jobs: the data the API sends and what the
//! application keeps of it. Times are milliseconds since the Unix epoch (UTC).
use vstd::prelude::*;

use crate::ids::{JobId, PipelineId, ProjectId};
use crate::text::{chars_of, string_of_range};

verus! {

/// Status of a pipeline or a job.
#[derive(Clone, Copy, Debug, PartialEq, Eq, Structural)]
pub enum PipelineStatus {
    Created,
    WaitingForResource,
    Preparing,
    Pending,
    Running,
    Success,
    Failed,
    Canceled,
    Skipped,
    Manual,
    Scheduled,
}

/// What started a pipeline.
#[derive(Clone, Copy, Debug, PartialEq, Eq, Structural)]
pub enum PipelineSource {
    Push,
    Web,
    Trigger,
    Schedule,
    Api,
    External,
    Pipeline,
    Chat,
    MergeRequestEvent,
    ParentPipeline,
    Other,
}

/// The statuses of work that has not finished yet.
pub open spec fn status_is_active(s: PipelineStatus) -> bool {
    match s {
        PipelineStatus::Created | PipelineStatus::WaitingForResource | PipelineStatus::Preparing
        | PipelineStatus::Pending | PipelineStatus::Running => true,
        _ => false,
    }
}

impl PipelineStatus {
    /// The pipeline or job has not finished yet.
    pub fn is_active(&self) -> (r: bool)
        ensures
            r == status_is_active(*self),
    {
        match self {
            PipelineStatus::Created | PipelineStatus::WaitingForResource
            | PipelineStatus::Preparing | PipelineStatus::Pending | PipelineStatus::Running => true,
            _ => false,
        }
    }
}

/// Commit of a job, as the API sends it.
#[derive(Debug)]
pub struct CommitDto {
    pub title: String,
    pub author_name: String,
}

/// Repository statistics of a project, as the API sends them.
#[derive(Clone, Copy, Debug)]
pub struct StatisticsDto {
    pub commit_count: u32,
    pub job_artifacts_size: u64,
    pub repository_size: u64,
}

/// A project, as the API sends it.
#[derive(Debug)]
pub struct ProjectDto {
    pub id: ProjectId,
    pub path_with_namespace: String,
    pub description: Option<String>,
    pub default_branch: String,
    pub ssh_url_to_repo: String,
    pub web_url: String,
    pub last_activity_at: i64,
    pub statistics: StatisticsDto,
}

/// A pipeline, as the API sends it.
#[derive(Debug)]
pub struct PipelineDto {
    pub id: PipelineId,
    pub project_id: ProjectId,
    pub status: PipelineStatus,
    pub source: PipelineSource,
    pub branch: String,
    pub web_url: String,
    pub created_at: i64,
    pub updated_at: i64,
}

/// A job, as the API sends it.
#[derive(Debug)]
pub struct JobDto {
    pub id: JobId,
    pub name: String,
    pub stage: String,
    pub commit: CommitDto,
    pub status: PipelineStatus,
    pub created_at: i64,
    pub started_at: Option<i64>,
    pub finished_at: Option<i64>,
    pub web_url: String,
}

impl Clone for CommitDto {
    fn clone(&self) -> (r: CommitDto)
        ensures
            r == *self,
    {
        CommitDto { title: self.title.clone(), author_name: self.author_name.clone() }
    }
}

fn clone_opt_string(s: &Option<String>) -> (r: Option<String>)
    ensures
        r == *s,
{
    match s {
        Some(x) => Some(x.clone()),
        None => None,
    }
}

impl Clone for ProjectDto {
    fn clone(&self) -> (r: ProjectDto)
        ensures
            r == *self,
    {
        ProjectDto {
            id: self.id,
            path_with_namespace: self.path_with_namespace.clone(),
            description: clone_opt_string(&self.description),
            default_branch: self.default_branch.clone(),
            ssh_url_to_repo: self.ssh_url_to_repo.clone(),
            web_url: self.web_url.clone(),
            last_activity_at: self.last_activity_at,
            statistics: self.statistics,
        }
    }
}

impl Clone for PipelineDto {
    fn clone(&self) -> (r: PipelineDto)
        ensures
            r == *self,
    {
        PipelineDto {
            id: self.id,
            project_id: self.project_id,
            status: self.status,
            source: self.source,
            branch: self.branch.clone(),
            web_url: self.web_url.clone(),
            created_at: self.created_at,
            updated_at: self.updated_at,
        }
    }
}

impl Clone for JobDto {
    fn clone(&self) -> (r: JobDto)
        ensures
            r == *self,
    {
        JobDto {
            id: self.id,
            name: self.name.clone(),
            stage: self.stage.clone(),
            commit: self.commit.clone(),
            status: self.status,
            created_at: self.created_at,
            started_at: self.started_at,
            finished_at: self.finished_at,
            web_url: self.web_url.clone(),
        }
    }
}

/// A job of a pipeline.
#[derive(Debug)]
pub struct Job {
    pub id: JobId,
    pub name: String,
    pub status: PipelineStatus,
    pub url: String,
}

/// A pipeline of a project; `jobs` is `None` until they have been loaded.
#[derive(Debug)]
pub struct Pipeline {
    pub id: PipelineId,
    pub project_id: ProjectId,
    pub status: PipelineStatus,
    pub branch: String,
    pub url: String,
    pub updated_at: i64,
    /// The commit the pipeline ran for, once its jobs are known.
    pub commit: Option<CommitDto>,
    pub jobs: Option<Vec<Job>>,
}

/// A project; `pipelines` is `None` until they have been requested.
#[derive(Debug)]
pub struct Project {
    pub id: ProjectId,
    pub path: String,
    pub description: Option<String>,
    pub url: String,
    pub last_activity_at: i64,
    pub commit_count: u32,
    /// Size of the repository, in KiB.
    pub repo_size_kb: u64,
    /// Size of the job artifacts, in KiB.
    pub artifacts_size_kb: u64,
    pub pipelines: Option<Vec<Pipeline>>,
}

impl Clone for Job {
    fn clone(&self) -> (r: Job)
        ensures
            r == *self,
    {
        Job { id: self.id, name: self.name.clone(), status: self.status, url: self.url.clone() }
    }
}

fn clone_jobs(js: &Vec<Job>) -> (r: Vec<Job>)
    ensures
        r@ == js@,
{
    let mut out: Vec<Job> = Vec::new();
    let mut i: usize = 0;
    while i < js.len()
        invariant
            i <= js@.len(),
            out@ == js@.take(i as int),
        decreases js@.len() - i,
    {
        out.push(js[i].clone());
        i = i + 1;
        assert(out@ =~= js@.take(i as int));
    }
    assert(js@.take(js@.len() as int) =~= js@);
    out
}

impl Clone for Pipeline {
    fn clone(&self) -> (r: Pipeline)
        ensures
            r@ == self@,
    {
        Pipeline {
            id: self.id,
            project_id: self.project_id,
            status: self.status,
            branch: self.branch.clone(),
            url: self.url.clone(),
            updated_at: self.updated_at,
            commit: match &self.commit {
                Some(c) => Some(c.clone()),
                None => None,
            },
            jobs: match &self.jobs {
                Some(js) => Some(clone_jobs(js)),
                None => None,
            },
        }
    }
}

fn clone_pipelines(ps: &Vec<Pipeline>) -> (r: Vec<Pipeline>)
    ensures
        pipelines_view(r@) == pipelines_view(ps@),
{
    let mut out: Vec<Pipeline> = Vec::new();
    let mut i: usize = 0;
    while i < ps.len()
        invariant
            i <= ps@.len(),
            out@.len() == i,
            pipelines_view(out@) == pipelines_view(ps@.take(i as int)),
        decreases ps@.len() - i,
    {
        let c = ps[i].clone();
        let ghost before = out@;
        out.push(c);
        proof {
            assert forall|k: int| 0 <= k < i implies #[trigger] out@[k]@ == ps@[k]@ by {
                assert(out@[k] == before[k]);
                assert(pipelines_view(before)[k] == pipelines_view(ps@.take(i as int))[k]);
            }
        }
        i = i + 1;
        assert(pipelines_view(out@) =~= pipelines_view(ps@.take(i as int)));
    }
    assert(ps@.take(ps@.len() as int) =~= ps@);
    out
}

impl Clone for Project {
    fn clone(&self) -> (r: Project)
        ensures
            r@ == self@,
    {
        Project {
            id: self.id,
            path: self.path.clone(),
            description: clone_opt_string(&self.description),
            url: self.url.clone(),
            last_activity_at: self.last_activity_at,
            commit_count: self.commit_count,
            repo_size_kb: self.repo_size_kb,
            artifacts_size_kb: self.artifacts_size_kb,
            pipelines: match &self.pipelines {
                Some(ps) => Some(clone_pipelines(ps)),
                None => None,
            },
        }
    }
}

/// The project a project description from the API becomes, before it is
/// stored: no pipelines requested yet.
pub open spec fn project_from_dto(dto: ProjectDto) -> Project {
    Project {
        id: dto.id,
        path: dto.path_with_namespace,
        description: dto.description,
        url: dto.web_url,
        last_activity_at: dto.last_activity_at,
        commit_count: dto.statistics.commit_count,
        repo_size_kb: (dto.statistics.repository_size / 1024) as u64,
        artifacts_size_kb: (dto.statistics.job_artifacts_size / 1024) as u64,
        pipelines: None,
    }
}

/// What a job is, as plain values.
pub struct JobView {
    pub id: JobId,
    pub name: Seq<char>,
    pub status: PipelineStatus,
    pub url: Seq<char>,
}

/// What a pipeline is, as plain values.
pub struct PipelineView {
    pub id: PipelineId,
    pub project_id: ProjectId,
    pub status: PipelineStatus,
    pub branch: Seq<char>,
    pub url: Seq<char>,
    pub updated_at: i64,
    /// Title and author of the commit.
    pub commit: Option<(Seq<char>, Seq<char>)>,
    pub jobs: Option<Seq<JobView>>,
}

/// What a project is, as plain values.
pub struct ProjectView {
    pub id: ProjectId,
    pub path: Seq<char>,
    pub description: Option<Seq<char>>,
    pub url: Seq<char>,
    pub last_activity_at: i64,
    pub commit_count: u32,
    pub repo_size_kb: u64,
    pub artifacts_size_kb: u64,
    pub pipelines: Option<Seq<PipelineView>>,
}

impl View for Job {
    type V = JobView;

    open spec fn view(&self) -> JobView {
        JobView { id: self.id, name: self.name@, status: self.status, url: self.url@ }
    }
}

/// The views of a list of jobs.
pub open spec fn jobs_view(jobs: Seq<Job>) -> Seq<JobView> {
    jobs.map_values(|j: Job| j@)
}

/// The views of a list of pipelines.
pub open spec fn pipelines_view(ps: Seq<Pipeline>) -> Seq<PipelineView> {
    ps.map_values(|p: Pipeline| p@)
}

/// The views of a list of projects.
pub open spec fn projects_view(ps: Seq<Project>) -> Seq<ProjectView> {
    ps.map_values(|p: Project| p@)
}

impl View for Pipeline {
    type V = PipelineView;

    open spec fn view(&self) -> PipelineView {
        PipelineView {
            id: self.id,
            project_id: self.project_id,
            status: self.status,
            branch: self.branch@,
            url: self.url@,
            updated_at: self.updated_at,
            commit: match self.commit {
                Some(c) => Some((c.title@, c.author_name@)),
                None => None,
            },
            jobs: match self.jobs {
                Some(js) => Some(jobs_view(js@)),
                None => None,
            },
        }
    }
}

impl View for Project {
    type V = ProjectView;

    open spec fn view(&self) -> ProjectView {
        ProjectView {
            id: self.id,
            path: self.path@,
            description: match self.description {
                Some(d) => Some(d@),
                None => None,
            },
            url: self.url@,
            last_activity_at: self.last_activity_at,
            commit_count: self.commit_count,
            repo_size_kb: self.repo_size_kb,
            artifacts_size_kb: self.artifacts_size_kb,
            pipelines: match self.pipelines {
                Some(ps) => Some(pipelines_view(ps@)),
                None => None,
            },
        }
    }
}

/// The job a job description from the API becomes.
pub open spec fn job_of_dto(dto: JobDto) -> JobView {
    JobView { id: dto.id, name: dto.name@, status: dto.status, url: dto.web_url@ }
}

/// The pipeline a pipeline description from the API becomes: no commit and
/// no jobs known yet.
pub open spec fn pipeline_of_dto(dto: PipelineDto) -> PipelineView {
    PipelineView {
        id: dto.id,
        project_id: dto.project_id,
        status: dto.status,
        branch: dto.branch@,
        url: dto.web_url@,
        updated_at: dto.updated_at,
        commit: None,
        jobs: None,
    }
}

/// The project a project description from the API becomes: no pipelines
/// requested yet.
pub open spec fn project_of_dto(dto: ProjectDto) -> ProjectView {
    ProjectView {
        id: dto.id,
        path: dto.path_with_namespace@,
        description: match dto.description {
            Some(d) => Some(d@),
            None => None,
        },
        url: dto.web_url@,
        last_activity_at: dto.last_activity_at,
        commit_count: dto.statistics.commit_count,
        repo_size_kb: dto.statistics.repository_size / 1024,
        artifacts_size_kb: dto.statistics.job_artifacts_size / 1024,
        pipelines: None,
    }
}

/// Some job of the list is still running or waiting.
pub open spec fn jobs_active(jobs: Option<Vec<Job>>) -> bool {
    match jobs {
        Some(js) => exists|i: int| 0 <= i < js@.len() && status_is_active(#[trigger] js@[i].status),
        None => false,
    }
}

/// The pipeline, or one of its loaded jobs, is still running or waiting.
pub open spec fn pipeline_needs_refresh(p: Pipeline) -> bool {
    status_is_active(p.status) || jobs_active(p.jobs)
}

/// Some pipeline of the project is still running or has running jobs.
pub open spec fn project_has_active_pipelines(p: Project) -> bool {
    match p.pipelines {
        Some(ps) => exists|i: int| 0 <= i < ps@.len() && pipeline_needs_refresh(#[trigger] ps@[i]),
        None => false,
    }
}

/// The pipeline, or one of its loaded jobs, is still running or waiting.
pub open spec fn pipeline_view_needs_refresh(p: PipelineView) -> bool {
    status_is_active(p.status) || (p.jobs matches Some(js) && exists|i: int|
        0 <= i < js.len() && status_is_active(#[trigger] js[i].status))
}

/// Some loaded pipeline of the project is still running or has running jobs.
pub open spec fn project_view_active(p: ProjectView) -> bool {
    p.pipelines matches Some(ps) && exists|i: int|
        0 <= i < ps.len() && pipeline_view_needs_refresh(#[trigger] ps[i])
}

/// Whether a pipeline needs refreshing can be read off its view.
pub proof fn lemma_needs_refresh_view(p: Pipeline)
    ensures
        pipeline_needs_refresh(p) == pipeline_view_needs_refresh(p@),
{
    if let Some(js) = p.jobs {
        let v = jobs_view(js@);
        if jobs_active(p.jobs) {
            let i = choose|i: int| 0 <= i < js@.len() && status_is_active(#[trigger] js@[i].status);
            assert(v[i].status == js@[i].status);
        }
        if exists|i: int| 0 <= i < v.len() && status_is_active(#[trigger] v[i].status) {
            let i = choose|i: int| 0 <= i < v.len() && status_is_active(#[trigger] v[i].status);
            assert(v[i].status == js@[i].status);
        }
    }
}

/// Index of the first job of the list with status `Failed`.
pub open spec fn first_failed(jobs: Seq<Job>, i: int) -> bool {
    0 <= i < jobs.len() && jobs[i].status == PipelineStatus::Failed && forall|k: int|
        0 <= k < i ==> #[trigger] jobs[k].status != PipelineStatus::Failed
}

impl Job {
    pub fn from_dto(dto: JobDto) -> (r: Job)
        ensures
            r.id == dto.id,
            r.name == dto.name,
            r.status == dto.status,
            r.url == dto.web_url,
            r@ == job_of_dto(dto),
    {
        Job { id: dto.id, name: dto.name, status: dto.status, url: dto.web_url }
    }
}

impl Pipeline {
    pub fn from_dto(dto: PipelineDto) -> (r: Pipeline)
        ensures
            r.id == dto.id,
            r.project_id == dto.project_id,
            r.status == dto.status,
            r.branch == dto.branch,
            r.url == dto.web_url,
            r.updated_at == dto.updated_at,
            r.commit is None,
            r.jobs is None,
            r@ == pipeline_of_dto(dto),
    {
        Pipeline {
            id: dto.id,
            project_id: dto.project_id,
            status: dto.status,
            branch: dto.branch,
            url: dto.web_url,
            updated_at: dto.updated_at,
            commit: None,
            jobs: None,
        }
    }

    /// Some loaded job is still running or waiting.
    pub fn has_active_jobs(&self) -> (r: bool)
        ensures
            r == jobs_active(self.jobs),
    {
        match &self.jobs {
            None => false,
            Some(js) => {
                let mut i: usize = 0;
                while i < js.len()
                    invariant
                        self.jobs == Some(*js),
                        i <= js@.len(),
                        forall|k: int| 0 <= k < i ==> !status_is_active(#[trigger] js@[k].status),
                    decreases js@.len() - i,
                {
                    if js[i].status.is_active() {
                        assert(status_is_active(js@[i as int].status));
                        return true;
                    }
                    i = i + 1;
                }
                false
            },
        }
    }

    /// The first loaded job that failed.
    pub fn failed_job(&self) -> (r: Option<&Job>)
        ensures
            match r {
                Some(j) => self.jobs matches Some(js) && exists|i: int|
                    first_failed(js@, i) && js@[i] == *j,
                None => self.jobs matches Some(js) ==> forall|k: int|
                    0 <= k < js@.len() ==> #[trigger] js@[k].status != PipelineStatus::Failed,
            },
    {
        match &self.jobs {
            None => None,
            Some(js) => {
                let mut i: usize = 0;
                while i < js.len()
                    invariant
                        self.jobs == Some(*js),
                        i <= js@.len(),
                        forall|k: int|
                            0 <= k < i ==> #[trigger] js@[k].status != PipelineStatus::Failed,
                    decreases js@.len() - i,
                {
                    if js[i].status == PipelineStatus::Failed {
                        assert(first_failed(js@, i as int));
                        return Some(&js[i]);
                    }
                    i = i + 1;
                }
                None
            },
        }
    }

    /// The loaded job with the given id.
    pub fn job(&self, id: JobId) -> (r: Option<&Job>)
        ensures
            match r {
                Some(j) => j.id == id && (self.jobs matches Some(js) && js@.contains(*j)),
                None => self.jobs matches Some(js) ==> forall|k: int|
                    0 <= k < js@.len() ==> #[trigger] js@[k].id != id,
            },
    {
        match &self.jobs {
            None => None,
            Some(js) => {
                let mut i: usize = 0;
                while i < js.len()
                    invariant
                        self.jobs == Some(*js),
                        i <= js@.len(),
                        forall|k: int| 0 <= k < i ==> #[trigger] js@[k].id != id,
                    decreases js@.len() - i,
                {
                    if js[i].id == id {
                        assert(js@.contains(js@[i as int]));
                        return Some(&js[i]);
                    }
                    i = i + 1;
                }
                None
            },
        }
    }
}

/// Index of the last `/` before `i`, or `-1`.
pub open spec fn last_slash_before(s: Seq<char>, i: int) -> int
    decreases i,
{
    if i <= 0 || i > s.len() {
        -1
    } else if s[i - 1] == '/' {
        i - 1
    } else {
        last_slash_before(s, i - 1)
    }
}

/// A project path split at its last `/` into namespace and name; a path
/// without `/` is all name.
pub open spec fn path_parts(s: Seq<char>) -> (Seq<char>, Seq<char>) {
    let k = last_slash_before(s, s.len() as int);
    if k < 0 {
        (Seq::empty(), s)
    } else {
        (s.take(k), s.skip(k + 1))
    }
}

impl Project {
    pub fn from_dto(dto: ProjectDto) -> (r: Project)
        ensures
            r.id == dto.id,
            r.path == dto.path_with_namespace,
            r.description == dto.description,
            r.url == dto.web_url,
            r.last_activity_at == dto.last_activity_at,
            r.pipelines is None,
            r == project_from_dto(dto),
            r@ == project_of_dto(dto),
    {
        Project {
            id: dto.id,
            path: dto.path_with_namespace,
            description: dto.description,
            url: dto.web_url,
            last_activity_at: dto.last_activity_at,
            commit_count: dto.statistics.commit_count,
            repo_size_kb: dto.statistics.repository_size / 1024,
            artifacts_size_kb: dto.statistics.job_artifacts_size / 1024,
            pipelines: None,
        }
    }

    /// The namespace and the name of the project, from its path.
    pub fn path_and_name(&self) -> (r: (String, String))
        ensures
            (r.0@, r.1@) == path_parts(self.path@),
    {
        let v = chars_of(self.path.as_str());
        let mut i: usize = v.len();
        while i > 0 && v[i - 1] != '/'
            invariant
                i <= v@.len(),
                v@ == self.path@,
                last_slash_before(v@, v@.len() as int) == last_slash_before(v@, i as int),
            decreases i,
        {
            i = i - 1;
        }
        if i == 0 {
            (String::new(), self.path.clone())
        } else {
            let n = v.len();
            (string_of_range(&v, 0, i - 1), string_of_range(&v, i, n))
        }
    }

    /// The pipeline with the given id, when the pipelines are loaded.
    pub fn pipeline(&self, id: PipelineId) -> (r: Option<&Pipeline>)
        ensures
            match r {
                Some(p) => p.id == id && (self.pipelines matches Some(ps) && ps@.contains(*p)),
                None => self.pipelines matches Some(ps) ==> forall|k: int|
                    0 <= k < ps@.len() ==> #[trigger] ps@[k].id != id,
            },
    {
        match &self.pipelines {
            None => None,
            Some(ps) => {
                let mut i: usize = 0;
                while i < ps.len()
                    invariant
                        self.pipelines == Some(*ps),
                        i <= ps@.len(),
                        forall|k: int| 0 <= k < i ==> #[trigger] ps@[k].id != id,
                    decreases ps@.len() - i,
                {
                    if ps[i].id == id {
                        assert(ps@.contains(ps@[i as int]));
                        return Some(&ps[i]);
                    }
                    i = i + 1;
                }
                None
            },
        }
    }

    /// Some pipeline of the project is still running or has running jobs.
    pub fn has_active_pipelines(&self) -> (r: bool)
        ensures
            r == project_has_active_pipelines(*self),
    {
        match &self.pipelines {
            None => false,
            Some(ps) => {
                let mut i: usize = 0;
                while i < ps.len()
                    invariant
                        self.pipelines == Some(*ps),
                        i <= ps@.len(),
                        forall|k: int| 0 <= k < i ==> !pipeline_needs_refresh(#[trigger] ps@[k]),
                    decreases ps@.len() - i,
                {
                    if ps[i].status.is_active() || ps[i].has_active_jobs() {
                        assert(pipeline_needs_refresh(ps@[i as int]));
                        assert(self.pipelines == Some(*ps));
                        let ghost v = self.pipelines->0;
                        assert(v@ == ps@);
                        assert(pipeline_needs_refresh(v@[i as int]));
                        assert(project_has_active_pipelines(*self));
                        return true;
                    }
                    i = i + 1;
                }
                false
            },
        }
    }
}

} // verus!
