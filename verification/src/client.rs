//! Requests to GitLab: the client's settings, the query parameters and
//! URLs, the combined job list of a pipeline, and the events a finished
//! request leads to.
use vstd::prelude::*;

use crate::app::AppAction;
use crate::config::GlimConfig;
use crate::domain::{JobDto, PipelineDto, ProjectDto};
use crate::error::{client_report_text, glim_error_from_client, ClientError, GlimError};
use crate::event::GlimEvent;
use crate::ids::{JobId, PipelineId, ProjectId};
use crate::store::{pair_le, sort_pairs};
use crate::text::{chars_of, decimal, push_decimal, push_str, string_from_chars};

verus! {

/// Settings of the GitLab client.
#[derive(Clone, Debug)]
pub struct ClientConfig {
    /// Base URL of the GitLab API, e.g. `https://gitlab.com/api/v4`.
    pub base_url: String,
    /// Personal access token sent with every request.
    pub private_token: String,
    /// Filter applied to the projects fetched.
    pub search_filter: Option<String>,
    /// Whether responses are written to files for debugging.
    pub log_responses: bool,
}

/// Query parameters of a projects request.
#[derive(Debug)]
pub struct ProjectQuery {
    pub search_filter: Option<String>,
    /// Only projects with activity after this time (milliseconds since the epoch).
    pub updated_after: Option<i64>,
    pub include_statistics: bool,
    pub archived: bool,
    pub membership: bool,
    pub search_namespaces: bool,
    pub per_page: u32,
}

/// Query parameters of a pipelines request.
#[derive(Debug)]
pub struct PipelineQuery {
    /// Only pipelines updated after this time (milliseconds since the epoch).
    pub updated_after: Option<i64>,
    pub per_page: u32,
}

/// `text` begins with `prefix`.
pub open spec fn starts_with(text: Seq<char>, prefix: Seq<char>) -> bool {
    prefix.len() <= text.len() && text.take(prefix.len() as int) == prefix
}

fn has_prefix(text: &str, prefix: &str) -> (r: bool)
    ensures
        r == starts_with(text@, prefix@),
{
    let t = chars_of(text);
    let p = chars_of(prefix);
    if p.len() > t.len() {
        return false;
    }
    let mut i: usize = 0;
    while i < p.len()
        invariant
            t@ == text@,
            p@ == prefix@,
            p@.len() <= t@.len(),
            i <= p@.len(),
            forall|k: int| 0 <= k < i ==> #[trigger] t@[k] == p@[k],
        decreases p@.len() - i,
    {
        if t[i] != p[i] {
            assert(t@.take(p@.len() as int)[i as int] != p@[i as int]);
            return false;
        }
        i = i + 1;
    }
    assert(t@.take(p@.len() as int) =~= p@);
    true
}

/// What makes a client configuration unusable, checked in order: an empty
/// base URL, a base URL that is not an HTTP(S) address, an empty token.
pub open spec fn config_problem(c: ClientConfig, r: Result<(), ClientError>) -> bool {
    if c.base_url@.len() == 0 {
        r matches Err(ClientError::ConfigValidation { field, message }) && field@ == "base_url"@
            && message@ == "Base URL cannot be empty"@
    } else if !starts_with(c.base_url@, "http://"@) && !starts_with(c.base_url@, "https://"@) {
        r matches Err(ClientError::InvalidUrl { url }) && url@ == c.base_url@
    } else if c.private_token@.len() == 0 {
        r matches Err(ClientError::ConfigValidation { field, message }) && field@
            == "private_token"@ && message@ == "Private token cannot be empty"@
    } else {
        r is Ok
    }
}

/// Replaces the client settings with new ones that pass [`ClientConfig::validate`];
/// when they do not, the old settings stay and the problem is returned.
pub fn config_replaced(old: ClientConfig, new: ClientConfig) -> (r: (ClientConfig, Result<(), ClientError>))
    ensures
        config_problem(new, r.1),
        r.0 == if r.1 is Ok {
            new
        } else {
            old
        },
{
    match new.validate() {
        Ok(()) => (new, Ok(())),
        Err(e) => (old, Err(e)),
    }
}

/// Settings the client can work with: an HTTP(S) base URL and a token.
pub open spec fn usable(base_url: Seq<char>, token: Seq<char>) -> bool {
    &&& base_url.len() > 0
    &&& starts_with(base_url, "http://"@) || starts_with(base_url, "https://"@)
    &&& token.len() > 0
}

/// The first event of a session: with usable settings the projects are
/// fetched; otherwise the configuration popup opens to ask for them.
pub fn startup_event(config: &GlimConfig) -> (r: GlimEvent)
    ensures
        r == if usable(config.gitlab_url@, config.gitlab_token@) {
            GlimEvent::ProjectsFetch
        } else {
            GlimEvent::ConfigOpen
        },
{
    match ClientConfig::from_config(config).validate() {
        Ok(_) => GlimEvent::ProjectsFetch,
        Err(_) => GlimEvent::ConfigOpen,
    }
}

impl ClientConfig {
    pub fn new(base_url: &str, private_token: &str) -> (r: ClientConfig)
        ensures
            r.base_url@ == base_url@,
            r.private_token@ == private_token@,
            r.search_filter is None,
            !r.log_responses,
    {
        ClientConfig {
            base_url: String::from_str(base_url),
            private_token: String::from_str(private_token),
            search_filter: None,
            log_responses: false,
        }
    }

    /// The client settings an application configuration gives.
    pub fn from_config(config: &GlimConfig) -> (r: ClientConfig)
        ensures
            r.base_url == config.gitlab_url,
            r.private_token == config.gitlab_token,
            r.search_filter == config.search_filter,
            !r.log_responses,
    {
        ClientConfig {
            base_url: config.gitlab_url.clone(),
            private_token: config.gitlab_token.clone(),
            search_filter: match &config.search_filter {
                Some(f) => Some(f.clone()),
                None => None,
            },
            log_responses: false,
        }
    }

    /// The same settings, writing responses to files or not.
    pub fn with_debug_logging(self, log_responses: bool) -> (r: ClientConfig)
        ensures
            r.base_url == self.base_url,
            r.private_token == self.private_token,
            r.search_filter == self.search_filter,
            r.log_responses == log_responses,
    {
        ClientConfig { log_responses, ..self }
    }

    /// Checks that the settings can be used.
    pub fn validate(&self) -> (r: Result<(), ClientError>)
        ensures
            config_problem(*self, r),
    {
        if chars_of(self.base_url.as_str()).len() == 0 {
            return Err(
                ClientError::config_validation(
                    String::from_str("base_url"),
                    String::from_str("Base URL cannot be empty"),
                ),
            );
        }
        if !has_prefix(self.base_url.as_str(), "http://") && !has_prefix(
            self.base_url.as_str(),
            "https://",
        ) {
            return Err(ClientError::invalid_url(self.base_url.clone()));
        }
        if chars_of(self.private_token.as_str()).len() == 0 {
            return Err(
                ClientError::config_validation(
                    String::from_str("private_token"),
                    String::from_str("Private token cannot be empty"),
                ),
            );
        }
        Ok(())
    }

    /// The projects query the client starts from: the configured filter.
    pub fn default_project_query(&self) -> (r: ProjectQuery)
        ensures
            r.search_filter == self.search_filter,
            r.updated_after is None,
            r.include_statistics && !r.archived && r.membership && r.search_namespaces,
            r.per_page == 100,
    {
        ProjectQuery::new().with_search_filter(
            match &self.search_filter {
                Some(f) => Some(f.clone()),
                None => None,
            },
        )
    }

    /// The pipelines query the client starts from.
    pub fn default_pipeline_query(&self) -> (r: PipelineQuery)
        ensures
            r.updated_after is None,
            r.per_page == 100,
    {
        PipelineQuery::new()
    }
}

impl ProjectQuery {
    /// Projects the user is a member of, with statistics, not archived, a
    /// hundred per page.
    pub fn new() -> (r: ProjectQuery)
        ensures
            r.search_filter is None,
            r.updated_after is None,
            r.include_statistics && !r.archived && r.membership && r.search_namespaces,
            r.per_page == 100,
    {
        ProjectQuery {
            search_filter: None,
            updated_after: None,
            include_statistics: true,
            archived: false,
            membership: true,
            search_namespaces: true,
            per_page: 100,
        }
    }

    pub fn with_search_filter(self, search_filter: Option<String>) -> (r: ProjectQuery)
        ensures
            r == (ProjectQuery { search_filter, ..self }),
    {
        ProjectQuery { search_filter, ..self }
    }

    pub fn with_updated_after(self, updated_after: Option<i64>) -> (r: ProjectQuery)
        ensures
            r == (ProjectQuery { updated_after, ..self }),
    {
        ProjectQuery { updated_after, ..self }
    }

    pub fn with_per_page(self, per_page: u32) -> (r: ProjectQuery)
        ensures
            r == (ProjectQuery { per_page, ..self }),
    {
        ProjectQuery { per_page, ..self }
    }
}

impl PipelineQuery {
    /// A hundred pipelines per page, whenever updated.
    pub fn new() -> (r: PipelineQuery)
        ensures
            r.updated_after is None,
            r.per_page == 100,
    {
        PipelineQuery { updated_after: None, per_page: 100 }
    }

    pub fn with_updated_after(self, updated_after: Option<i64>) -> (r: PipelineQuery)
        ensures
            r == (PipelineQuery { updated_after, ..self }),
    {
        PipelineQuery { updated_after, ..self }
    }

    pub fn with_per_page(self, per_page: u32) -> (r: PipelineQuery)
        ensures
            r == (PipelineQuery { per_page, ..self }),
    {
        PipelineQuery { per_page, ..self }
    }
}

/// The RFC 3339 text of a UTC time given in milliseconds since the epoch,
/// as chrono writes it; none for a time outside chrono's calendar.
pub uninterp spec fn utc_rfc3339(millis: i64) -> Option<Seq<char>>;

/// Calls chrono's `DateTime::<Utc>::from_timestamp_millis` and, for a time
/// it can represent, `to_rfc3339`; the result is named [`utc_rfc3339`].
#[verifier::external_body]
fn rfc3339(millis: i64) -> (r: Option<String>)
    ensures
        match r {
            Some(s) => utc_rfc3339(millis) == Some(s@),
            None => utc_rfc3339(millis) is None,
        },
{
    chrono::DateTime::<chrono::Utc>::from_timestamp_millis(millis).map(|t| t.to_rfc3339())
}

/// `&<name>=<time>` for a time with an RFC 3339 text, else nothing.
pub open spec fn time_param(name: Seq<char>, t: Option<i64>) -> Seq<char> {
    match t {
        Some(ms) => match utc_rfc3339(ms) {
            Some(text) => "&"@ + name + "="@ + text,
            None => Seq::empty(),
        },
        None => Seq::empty(),
    }
}

/// The URL of a projects request.
pub open spec fn projects_url(base: Seq<char>, q: ProjectQuery) -> Seq<char> {
    base + "/projects?"@ + "search_namespaces=true"@ + match q.search_filter {
        Some(f) => "&search="@ + f@,
        None => Seq::empty(),
    } + time_param("last_activity_after"@, q.updated_after) + (if q.include_statistics {
        "&statistics=true"@
    } else {
        Seq::empty()
    }) + (if !q.archived {
        "&archived=false"@
    } else {
        Seq::empty()
    }) + (if q.membership {
        "&membership=true"@
    } else {
        Seq::empty()
    }) + "&per_page="@ + decimal(q.per_page as nat)
}

/// The URL of a pipelines request.
pub open spec fn pipelines_url(base: Seq<char>, project: ProjectId, q: PipelineQuery) -> Seq<char> {
    base + "/projects/"@ + decimal(project.0 as nat) + "/pipelines?per_page="@ + decimal(
        q.per_page as nat,
    ) + time_param("updated_after"@, q.updated_after)
}

fn push_time_param(out: &mut Vec<char>, name: &str, t: Option<i64>)
    ensures
        final(out)@ == old(out)@ + time_param(name@, t),
{
    match t {
        Some(ms) => match rfc3339(ms) {
            Some(text) => {
                push_str(out, "&");
                push_str(out, name);
                push_str(out, "=");
                push_str(out, text.as_str());
                assert(final(out)@ =~= old(out)@ + time_param(name@, t));
            },
            None => {
                assert(out@ =~= old(out)@ + time_param(name@, t));
            },
        },
        None => {
            assert(out@ =~= old(out)@ + time_param(name@, t));
        },
    }
}

/// The URL of a projects request; a time chrono cannot represent is left out.
pub fn build_projects_url(base_url: &str, query: &ProjectQuery) -> (r: String)
    ensures
        r@ == projects_url(base_url@, *query),
{
    let mut v: Vec<char> = Vec::new();
    push_str(&mut v, base_url);
    push_str(&mut v, "/projects?");
    push_str(&mut v, "search_namespaces=true");
    let ghost a = v@;
    match &query.search_filter {
        Some(f) => {
            push_str(&mut v, "&search=");
            push_str(&mut v, f.as_str());
        },
        None => {},
    }
    let ghost b = v@;
    push_time_param(&mut v, "last_activity_after", query.updated_after);
    let ghost c = v@;
    if query.include_statistics {
        push_str(&mut v, "&statistics=true");
    }
    let ghost d = v@;
    if !query.archived {
        push_str(&mut v, "&archived=false");
    }
    let ghost e = v@;
    if query.membership {
        push_str(&mut v, "&membership=true");
    }
    let ghost f = v@;
    push_str(&mut v, "&per_page=");
    push_decimal(&mut v, query.per_page as u64);
    proof {
        let q = *query;
        assert(b =~= a + match q.search_filter {
            Some(s) => "&search="@ + s@,
            None => Seq::empty(),
        });
        assert(d =~= c + (if q.include_statistics {
            "&statistics=true"@
        } else {
            Seq::empty()
        }));
        assert(e =~= d + (if !q.archived {
            "&archived=false"@
        } else {
            Seq::empty()
        }));
        assert(f =~= e + (if q.membership {
            "&membership=true"@
        } else {
            Seq::empty()
        }));
        assert(v@ =~= projects_url(base_url@, q));
    }
    string_from_chars(&v)
}

/// The URL of a pipelines request; a time chrono cannot represent is left out.
pub fn build_pipelines_url(base_url: &str, project: ProjectId, query: &PipelineQuery) -> (r: String)
    ensures
        r@ == pipelines_url(base_url@, project, *query),
{
    let mut v: Vec<char> = Vec::new();
    push_str(&mut v, base_url);
    push_str(&mut v, "/projects/");
    push_decimal(&mut v, project.0);
    push_str(&mut v, "/pipelines?per_page=");
    push_decimal(&mut v, query.per_page as u64);
    push_time_param(&mut v, "updated_after", query.updated_after);
    assert(v@ =~= pipelines_url(base_url@, project, *query));
    string_from_chars(&v)
}

/// The URLs of a pipeline's jobs and of its trigger jobs (bridges).
pub fn jobs_urls(base_url: &str, project: ProjectId, pipeline: PipelineId) -> (r: (String, String))
    ensures
        r.0@ == base_url@ + "/projects/"@ + decimal(project.0 as nat) + "/pipelines/"@ + decimal(
            pipeline.0 as nat,
        ) + "/jobs"@,
        r.1@ == base_url@ + "/projects/"@ + decimal(project.0 as nat) + "/pipelines/"@ + decimal(
            pipeline.0 as nat,
        ) + "/bridges"@,
{
    let mut v: Vec<char> = Vec::new();
    push_str(&mut v, base_url);
    push_str(&mut v, "/projects/");
    push_decimal(&mut v, project.0);
    push_str(&mut v, "/pipelines/");
    push_decimal(&mut v, pipeline.0);
    let mut jobs = v.clone();
    push_str(&mut jobs, "/jobs");
    let mut bridges = v;
    push_str(&mut bridges, "/bridges");
    (string_from_chars(&jobs), string_from_chars(&bridges))
}

/// The URL of a job's log.
pub fn job_trace_url(base_url: &str, project: ProjectId, job: JobId) -> (r: String)
    ensures
        r@ == base_url@ + "/projects/"@ + decimal(project.0 as nat) + "/jobs/"@ + decimal(
            job.0 as nat,
        ) + "/trace"@,
{
    let mut v: Vec<char> = Vec::new();
    push_str(&mut v, base_url);
    push_str(&mut v, "/projects/");
    push_decimal(&mut v, project.0);
    push_str(&mut v, "/jobs/");
    push_decimal(&mut v, job.0);
    push_str(&mut v, "/trace");
    string_from_chars(&v)
}

/// `r` lists the jobs of `all` ordered by id, jobs with equal ids keeping
/// their order: `p` says where each came from.
pub open spec fn stably_sorted_by_id(all: Seq<JobDto>, r: Seq<JobDto>, p: Seq<int>) -> bool {
    &&& r.len() == all.len()
    &&& p.len() == all.len()
    &&& p.no_duplicates()
    &&& forall|k: int| 0 <= k < p.len() ==> 0 <= #[trigger] p[k] < all.len() && r[k] == all[p[k]]
    &&& forall|a: int, b: int|
        0 <= a < b < p.len() ==> all[#[trigger] p[a]].id.0 < all[#[trigger] p[b]].id.0 || (
        all[p[a]].id.0 == all[p[b]].id.0 && p[a] < p[b])
}

/// The jobs of a pipeline: its jobs and its trigger jobs together, ordered
/// by id (a stable sort).
pub fn merge_jobs(jobs: Vec<JobDto>, bridges: Vec<JobDto>) -> (r: Vec<JobDto>)
    requires
        jobs@.len() + bridges@.len() <= usize::MAX,
    ensures
        exists|p: Seq<int>| stably_sorted_by_id(jobs@ + bridges@, r@, p),
{
    let mut all = jobs;
    let mut bs = bridges;
    all.append(&mut bs);
    let ghost av = all@;
    let n = all.len();
    let mut pairs: Vec<(u64, usize)> = Vec::new();
    let mut i: usize = 0;
    while i < n
        invariant
            n == all@.len(),
            av == all@,
            i <= n,
            pairs@.len() == i,
            forall|k: int| 0 <= k < i ==> #[trigger] pairs@[k] == (av[k].id.0, k as usize),
        decreases n - i,
    {
        pairs.push((all[i].id.0, i));
        i = i + 1;
    }
    let ghost input = pairs@;
    let sorted = sort_pairs(pairs);
    let ghost out = sorted@;
    proof {
        assert(input.no_duplicates()) by {
            assert forall|a: int, b: int|
                0 <= a < input.len() && 0 <= b < input.len() && a != b implies input[a]
                != input[b] by {
                assert(input[a].1 == a);
                assert(input[b].1 == b);
            }
        }
        input.lemma_multiset_has_no_duplicates();
        broadcast use vstd::seq_lib::group_to_multiset_ensures;

        assert forall|j: int| 0 <= j < out.len() implies exists|k: int|
            0 <= k < n && #[trigger] out[j] == input[k] by {
            assert(out.contains(out[j]));
            assert(out.to_multiset().count(out[j]) > 0);
            assert(input.to_multiset().count(out[j]) > 0);
            assert(input.contains(out[j]));
        }
        assert(out.to_multiset().len() == input.to_multiset().len());
        assert forall|x: (u64, usize)| out.to_multiset().contains(x) implies out.to_multiset().count(
            x,
        ) == 1 by {
            assert(input.to_multiset().contains(x));
        }
        out.lemma_multiset_has_no_duplicates_conv();
        assert forall|j: int| 0 <= j < out.len() implies #[trigger] out[j].1 < n && out[j].0
            == av[out[j].1 as int].id.0 by {
            let k = choose|k: int| 0 <= k < n && out[j] == input[k];
            assert(out[j] == input[k]);
        }
    }
    let mut result: Vec<JobDto> = Vec::new();
    let mut j: usize = 0;
    while j < sorted.len()
        invariant
            j <= out.len(),
            out == sorted@,
            out.len() == n,
            n == all@.len(),
            av == all@,
            forall|k: int| 0 <= k < out.len() ==> #[trigger] out[k].1 < n,
            result@.len() == j,
            forall|k: int| 0 <= k < j ==> #[trigger] result@[k] == av[out[k].1 as int],
        decreases out.len() - j,
    {
        let idx = sorted[j].1;
        result.push(all[idx].clone());
        j = j + 1;
    }
    proof {
        let p = out.map_values(|x: (u64, usize)| x.1 as int);
        assert forall|a: int, b: int| 0 <= a < p.len() && 0 <= b < p.len() && a != b implies p[a]
            != p[b] by {
            assert(out[a] != out[b]);
            assert(out[a].0 == av[out[a].1 as int].id.0);
            assert(out[b].0 == av[out[b].1 as int].id.0);
        }
        assert forall|a: int, b: int| 0 <= a < b < p.len() implies av[#[trigger] p[a]].id.0 < av[#[trigger] p[b]].id.0 || (
        av[p[a]].id.0 == av[p[b]].id.0 && p[a] < p[b]) by {
            assert(pair_le(out[a], out[b]));
            assert(out[a] != out[b]);
            assert(out[a].0 == av[out[a].1 as int].id.0);
            assert(out[b].0 == av[out[b].1 as int].id.0);
        }
        assert(av =~= jobs@ + bridges@);
        assert(stably_sorted_by_id(av, result@, p));
    }
    result
}

/// The event a projects request ends with: the projects, or the error.
pub fn projects_fetched(result: Result<Vec<ProjectDto>, ClientError>) -> (r: GlimEvent)
    ensures
        match result {
            Ok(ps) => r == GlimEvent::ProjectsLoaded(ps),
            Err(e) => r matches GlimEvent::AppError(GlimError::GeneralError(s)) && s@
                == client_report_text(e),
        },
{
    match result {
        Ok(ps) => GlimEvent::ProjectsLoaded(ps),
        Err(e) => GlimEvent::AppError(glim_error_from_client(&e)),
    }
}

/// The event a pipelines request ends with: the pipelines, or the error.
pub fn pipelines_fetched(result: Result<Vec<PipelineDto>, ClientError>) -> (r: GlimEvent)
    ensures
        match result {
            Ok(ps) => r == GlimEvent::PipelinesLoaded(ps),
            Err(e) => r matches GlimEvent::AppError(GlimError::GeneralError(s)) && s@
                == client_report_text(e),
        },
{
    match result {
        Ok(ps) => GlimEvent::PipelinesLoaded(ps),
        Err(e) => GlimEvent::AppError(glim_error_from_client(&e)),
    }
}

/// The event a jobs request ends with: the jobs of the pipeline, or the error.
pub fn jobs_fetched(
    project: ProjectId,
    pipeline: PipelineId,
    result: Result<Vec<JobDto>, ClientError>,
) -> (r: GlimEvent)
    ensures
        match result {
            Ok(js) => r == GlimEvent::JobsLoaded(project, pipeline, js),
            Err(e) => r matches GlimEvent::AppError(GlimError::GeneralError(s)) && s@
                == client_report_text(e),
        },
{
    match result {
        Ok(js) => GlimEvent::JobsLoaded(project, pipeline, js),
        Err(e) => GlimEvent::AppError(glim_error_from_client(&e)),
    }
}

/// The event a job log download ends with: the log, or the error.
pub fn job_log_fetched(project: ProjectId, job: JobId, result: Result<String, ClientError>) -> (r:
    GlimEvent)
    ensures
        match result {
            Ok(trace) => r == GlimEvent::JobLogDownloaded(project, job, trace),
            Err(e) => r matches GlimEvent::AppError(GlimError::GeneralError(s)) && s@
                == client_report_text(e),
        },
{
    match result {
        Ok(trace) => GlimEvent::JobLogDownloaded(project, job, trace),
        Err(e) => GlimEvent::AppError(glim_error_from_client(&e)),
    }
}

/// The two timers of the background poller.
#[derive(Clone, Copy, Debug, PartialEq, Eq, Structural)]
pub enum PollTimer {
    /// Refreshes the projects.
    Projects,
    /// Refreshes the jobs of running pipelines.
    ActiveJobs,
}

/// What a poller timer going off leads to.
#[derive(Debug)]
pub enum PollWork {
    /// Work for the GitLab client.
    Fetch(AppAction),
    /// An event for the application.
    Dispatch(GlimEvent),
}

/// What a poller timer going off leads to: all projects are fetched again,
/// or the application is asked to refresh the jobs of running pipelines.
pub fn poll_tick(timer: PollTimer) -> (r: PollWork)
    ensures
        match timer {
            PollTimer::Projects => r matches PollWork::Fetch(AppAction::FetchProjects(since))
                && since is None,
            PollTimer::ActiveJobs => r matches PollWork::Dispatch(GlimEvent::JobsActiveFetch),
        },
{
    match timer {
        PollTimer::Projects => PollWork::Fetch(AppAction::FetchProjects(None)),
        PollTimer::ActiveJobs => PollWork::Dispatch(GlimEvent::JobsActiveFetch),
    }
}

} // verus!
