//! The application's reaction to events: what it asks the outside world to
//! do (open a browser, fetch from GitLab, copy to the clipboard), which
//! visual effects start, and which notification shows.
use vstd::prelude::*;

use crate::config::GlimConfig;
use crate::text::{chars_of, contains_seq, str_contains, str_to_lowercase, trim, trim_str, unicode_lowercase};
use crate::error::{client_error_text, ClientError, GlimError};
use crate::config_popup::{config_from_values, ConfigPopupState};
use crate::input::{
    input_stepped, InputContext, InputMultiplexer, InputProcessor, NormalModeProcessor, UiCommand,
};
use crate::notice::{
    applied, next_notice, popped, queues_wf, Notice, NoticeLevel, NoticeQueues, NoticeService,
};
use crate::widgets::{command_applied, StatefulWidgets};
use crate::domain::{
    jobs_view, lemma_needs_refresh_view, pipeline_needs_refresh, pipeline_view_needs_refresh,
    pipelines_view, project_view_active, JobView, Pipeline, PipelineView, Project, ProjectView,
};
use crate::event::{GlimEvent, GlitchState};
use crate::ids::{JobId, PipelineId, ProjectId};
use crate::store::{event_acceptable, find_index, find_pipeline, pipeline_index_of, store_step, ProjectStore};
use crate::widgets::{failed_job_id, failed_job_of};

verus! {

/// Work the application hands to the outside world.
#[derive(Clone, Debug)]
pub enum AppAction {
    /// Open the page in the browser.
    OpenUrl(String),
    /// Download the log of a job; it comes back as a `JobLogDownloaded` event.
    DownloadJobLog(ProjectId, JobId),
    /// Put a downloaded job log on the clipboard.
    CopyJobLog(String),
    /// Put a screen capture on the clipboard.
    CopyScreen(String),
    FetchJobs(ProjectId, PipelineId),
    FetchPipelines(ProjectId),
    /// Fetch the projects with activity after the given time, or all of them.
    FetchProjects(Option<i64>),
    /// Hand a new configuration to the GitLab client.
    UpdateClientConfig(GlimConfig),
    /// Check a configuration with the GitLab client, then save it.
    ApplyConfig(GlimConfig),
}

/// Identifies the screen area a visual effect belongs to.
#[derive(Clone, Copy, Debug, PartialEq, Eq, Structural)]
pub enum FxId {
    ConfigPopup,
    Glitch,
    Notification,
    PipelineActionsPopup,
    ProjectDetailsPopup,
}

/// A visual effect to start.
#[derive(Clone, Copy, Debug, PartialEq, Eq, Structural)]
pub enum FxRequest {
    /// The faint background glitch.
    DefaultGlitch,
    /// The stronger glitch shown while something happens.
    RampedUpGlitch,
    /// Close the popup of this area with an animation.
    ClosePopup(FxId),
    /// Open the popup of this area with an animation.
    OpenPopup(FxId),
    /// Show the notification.
    ShowNotification,
    /// Fade in the projects table.
    FadeInProjectsTable,
}

/// The effect an event starts: glitches follow the glitch state, and a
/// popup closing animates its area.
pub open spec fn event_effect(e: GlimEvent) -> Option<FxRequest> {
    match e {
        GlimEvent::GlitchOverride(GlitchState::Inactive) => Some(FxRequest::DefaultGlitch),
        GlimEvent::GlitchOverride(GlitchState::Active) => Some(FxRequest::RampedUpGlitch),
        GlimEvent::ProjectDetailsClose => Some(FxRequest::ClosePopup(FxId::ProjectDetailsPopup)),
        GlimEvent::PipelineActionsClose => Some(FxRequest::ClosePopup(FxId::PipelineActionsPopup)),
        GlimEvent::ConfigClose => Some(FxRequest::ClosePopup(FxId::ConfigPopup)),
        _ => None,
    }
}

/// The effect an event starts.
pub fn effect_for_event(e: &GlimEvent) -> (r: Option<FxRequest>)
    ensures
        r == event_effect(*e),
{
    match e {
        GlimEvent::GlitchOverride(GlitchState::Inactive) => Some(FxRequest::DefaultGlitch),
        GlimEvent::GlitchOverride(GlitchState::Active) => Some(FxRequest::RampedUpGlitch),
        GlimEvent::ProjectDetailsClose => Some(FxRequest::ClosePopup(FxId::ProjectDetailsPopup)),
        GlimEvent::PipelineActionsClose => Some(FxRequest::ClosePopup(FxId::PipelineActionsPopup)),
        GlimEvent::ConfigClose => Some(FxRequest::ClosePopup(FxId::ConfigPopup)),
        _ => None,
    }
}

/// The stored projects in table order.
pub open spec fn table(ps: Seq<ProjectView>, order: Seq<usize>) -> Seq<ProjectView> {
    order.map_values(|i: usize| ps[i as int])
}

/// Job fetches for the pipelines of a list that still run or have running jobs.
pub open spec fn pipeline_job_fetches(ps: Seq<PipelineView>) -> Seq<AppAction>
    decreases ps.len(),
{
    if ps.len() == 0 {
        Seq::empty()
    } else {
        pipeline_job_fetches(ps.drop_last()) + if pipeline_view_needs_refresh(ps.last()) {
            seq![AppAction::FetchJobs(ps.last().project_id, ps.last().id)]
        } else {
            Seq::empty()
        }
    }
}

/// Job fetches for every running pipeline of the projects, in table order.
pub open spec fn active_job_fetches(t: Seq<ProjectView>) -> Seq<AppAction>
    decreases t.len(),
{
    if t.len() == 0 {
        Seq::empty()
    } else {
        active_job_fetches(t.drop_last()) + match t.last().pipelines {
            Some(ps) => pipeline_job_fetches(ps),
            None => Seq::empty(),
        }
    }
}

/// Job fetches for the running pipelines of one project.
fn project_job_fetches(p: &Project, out: &mut Vec<AppAction>)
    ensures
        final(out)@ == old(out)@ + match p@.pipelines {
            Some(ps) => pipeline_job_fetches(ps),
            None => Seq::empty(),
        },
{
    match &p.pipelines {
        Some(ps) => {
            let ghost start = out@;
            let mut i: usize = 0;
            while i < ps.len()
                invariant
                    i <= ps@.len(),
                    out@ == start + pipeline_job_fetches(pipelines_view(ps@).take(i as int)),
                decreases ps@.len() - i,
            {
                let q = &ps[i];
                proof {
                    lemma_needs_refresh_view(*q);
                    let v = pipelines_view(ps@);
                    assert(v.take(i + 1).drop_last() =~= v.take(i as int));
                    assert(v.take(i + 1).last() == q@);
                }
                if q.status.is_active() || q.has_active_jobs() {
                    out.push(AppAction::FetchJobs(q.project_id, q.id));
                }
                proof {
                    let v = pipelines_view(ps@);
                    assert(out@ =~= start + pipeline_job_fetches(v.take(i + 1)));
                }
                i = i + 1;
            }
            assert(pipelines_view(ps@).take(ps@.len() as int) =~= pipelines_view(ps@));
        },
        None => {
            assert(out@ =~= old(out)@ + Seq::<AppAction>::empty());
        },
    }
}

/// Job fetches for every running pipeline of the stored projects, in table order.
pub fn jobs_active_fetch(store: &ProjectStore) -> (r: Vec<AppAction>)
    requires
        store.wf(),
    ensures
        r@ == active_job_fetches(table(store.view(), store.order())),
{
    let projects = store.sorted_projects();
    let ghost t = table(store.view(), store.order());
    let mut out: Vec<AppAction> = Vec::new();
    let mut i: usize = 0;
    while i < projects.len()
        invariant
            i <= projects@.len(),
            t == table(store.view(), store.order()),
            projects@.len() == t.len(),
            forall|k: int| 0 <= k < projects@.len() ==> #[trigger] projects@[k]@ == t[k],
            out@ == active_job_fetches(t.take(i as int)),
        decreases projects@.len() - i,
    {
        assert(t.take(i + 1).drop_last() =~= t.take(i as int));
        assert(t.take(i + 1).last() == projects@[i as int]@);
        project_job_fetches(projects[i], &mut out);
        i = i + 1;
    }
    assert(t.take(projects@.len() as int) =~= t);
    out
}

/// The time since which projects are fetched, given the projects `t`: the
/// earliest activity among projects with running pipelines; when none runs,
/// the latest activity of all; with no projects, none (fetch everything).
pub open spec fn fetch_since(t: Seq<ProjectView>, r: Option<i64>) -> bool {
    if exists|i: int| 0 <= i < t.len() && project_view_active(#[trigger] t[i]) {
        r matches Some(m) && (exists|i: int|
            0 <= i < t.len() && project_view_active(#[trigger] t[i]) && t[i].last_activity_at
                == m) && forall|k: int|
            0 <= k < t.len() && project_view_active(#[trigger] t[k]) ==> m <= t[k].last_activity_at
    } else if t.len() == 0 {
        r is None
    } else {
        r matches Some(m) && (exists|i: int| 0 <= i < t.len() && #[trigger] t[i].last_activity_at == m)
            && forall|k: int| 0 <= k < t.len() ==> #[trigger] t[k].last_activity_at <= m
    }
}

/// Whether a project has a running pipeline, read off its view.
fn project_active(p: &Project) -> (r: bool)
    ensures
        r == project_view_active(p@),
{
    match &p.pipelines {
        None => false,
        Some(ps) => {
            let ghost v = pipelines_view(ps@);
            let mut i: usize = 0;
            while i < ps.len()
                invariant
                    i <= ps@.len(),
                    p.pipelines == Some(*ps),
                    v == pipelines_view(ps@),
                    forall|k: int| 0 <= k < i ==> !pipeline_view_needs_refresh(#[trigger] v[k]),
                decreases ps@.len() - i,
            {
                proof {
                    lemma_needs_refresh_view(ps@[i as int]);
                }
                if ps[i].status.is_active() || ps[i].has_active_jobs() {
                    assert(pipeline_view_needs_refresh(v[i as int]));
                    assert(p@.pipelines->0 == v);
                    return true;
                }
                i = i + 1;
            }
            false
        },
    }
}

/// The time since which projects are fetched.
pub fn projects_fetch_since(store: &ProjectStore) -> (r: Option<i64>)
    requires
        store.wf(),
    ensures
        fetch_since(table(store.view(), store.order()), r),
{
    let projects = store.sorted_projects();
    let ghost t = table(store.view(), store.order());
    let mut latest: Option<i64> = None;
    let mut earliest_active: Option<i64> = None;
    let mut i: usize = 0;
    while i < projects.len()
        invariant
            i <= projects@.len(),
            t == table(store.view(), store.order()),
            projects@.len() == t.len(),
            forall|k: int| 0 <= k < projects@.len() ==> #[trigger] projects@[k]@ == t[k],
            match latest {
                None => i == 0,
                Some(m) => (exists|j: int| 0 <= j < i && #[trigger] t[j].last_activity_at == m)
                    && forall|k: int| 0 <= k < i ==> #[trigger] t[k].last_activity_at <= m,
            },
            match earliest_active {
                None => forall|k: int| 0 <= k < i ==> !project_view_active(#[trigger] t[k]),
                Some(m) => (exists|j: int|
                    0 <= j < i && project_view_active(#[trigger] t[j]) && t[j].last_activity_at
                        == m) && forall|k: int|
                    0 <= k < i && project_view_active(#[trigger] t[k]) ==> m
                        <= t[k].last_activity_at,
            },
        decreases projects@.len() - i,
    {
        let p = projects[i];
        let a = p.last_activity_at;
        assert(projects@[i as int]@ == t[i as int]);
        assert(t[i as int].last_activity_at == a);
        latest = match latest {
            Some(m) => if a > m {
                Some(a)
            } else {
                Some(m)
            },
            None => Some(a),
        };
        if project_active(p) {
            earliest_active = match earliest_active {
                Some(m) => if a < m {
                    Some(a)
                } else {
                    Some(m)
                },
                None => Some(a),
            };
        }
        i = i + 1;
    }
    match earliest_active {
        Some(m) => Some(m),
        None => latest,
    }
}

/// Index of the first job with the given id, or `-1`.
pub open spec fn find_job(js: Seq<JobView>, id: JobId) -> int
    decreases js.len(),
{
    if js.len() == 0 {
        -1
    } else {
        let k = find_job(js.drop_last(), id);
        if k >= 0 {
            k
        } else if js.last().id == id {
            js.len() - 1
        } else {
            -1
        }
    }
}

proof fn lemma_find_job(js: Seq<JobView>, id: JobId)
    ensures
        -1 <= find_job(js, id) < js.len(),
        find_job(js, id) >= 0 ==> js[find_job(js, id)].id == id && forall|k: int|
            0 <= k < find_job(js, id) ==> #[trigger] js[k].id != id,
        find_job(js, id) == -1 ==> forall|k: int| 0 <= k < js.len() ==> #[trigger] js[k].id != id,
    decreases js.len(),
{
    if js.len() > 0 {
        lemma_find_job(js.drop_last(), id);
        assert forall|k: int| 0 <= k < js.len() - 1 implies #[trigger] js[k] == js.drop_last()[k] by {}
    }
}

/// The loaded pipeline with the given id of a stored project.
pub open spec fn stored_pipeline(ps: Seq<ProjectView>, project: ProjectId, pipeline: PipelineId) -> Option<
    PipelineView,
> {
    let k = find_index(ps, project);
    if k < 0 {
        None
    } else {
        match ps[k].pipelines {
            Some(pl) => {
                let j = find_pipeline(pl, pipeline);
                if j >= 0 {
                    Some(pl[j])
                } else {
                    None
                }
            },
            None => None,
        }
    }
}

/// The loaded job with the given id of a loaded pipeline of a stored project.
pub open spec fn stored_job(
    ps: Seq<ProjectView>,
    project: ProjectId,
    pipeline: PipelineId,
    job: JobId,
) -> Option<JobView> {
    match stored_pipeline(ps, project, pipeline) {
        Some(p) => match p.jobs {
            Some(js) => {
                let i = find_job(js, job);
                if i >= 0 {
                    Some(js[i])
                } else {
                    None
                }
            },
            None => None,
        },
        None => None,
    }
}

/// The application can act on the event: what it opens in the browser, or
/// whose failed job log it downloads, is stored.
pub open spec fn app_event_acceptable(ps: Seq<ProjectView>, e: GlimEvent) -> bool {
    match e {
        GlimEvent::ProjectOpenUrl(id) => find_index(ps, id) >= 0,
        GlimEvent::PipelineOpenUrl(p, q) => stored_pipeline(ps, p, q) is Some,
        GlimEvent::JobOpenUrl(p, q, j) => stored_job(ps, p, q, j) is Some,
        GlimEvent::JobLogFetch(p, q) => find_index(ps, p) >= 0 && failed_job_of(
            ps[find_index(ps, p)],
            q,
        ) is Some,
        _ => true,
    }
}

/// The pipeline with the given id of a stored project.
fn find_stored_pipeline<'a>(store: &'a ProjectStore, project: ProjectId, pipeline: PipelineId) -> (r:
    Option<&'a Pipeline>)
    requires
        store.wf(),
    ensures
        match r {
            Some(p) => stored_pipeline(store.view(), project, pipeline) == Some(p@),
            None => stored_pipeline(store.view(), project, pipeline) is None,
        },
{
    match store.find(project) {
        Some(p) => match &p.pipelines {
            Some(ps) => match pipeline_index_of(ps, pipeline) {
                Some(j) => {
                    assert(pipelines_view(ps@)[j as int] == ps@[j as int]@);
                    Some(&ps[j])
                },
                None => None,
            },
            None => None,
        },
        None => None,
    }
}

/// The page of a stored project.
fn project_url(store: &ProjectStore, id: ProjectId) -> (r: String)
    requires
        store.wf(),
        find_index(store.view(), id) >= 0,
    ensures
        r@ == store.view()[find_index(store.view(), id)].url,
{
    let p = store.find(id).unwrap();
    p.url.clone()
}

/// The page of a loaded pipeline.
fn pipeline_url(store: &ProjectStore, project: ProjectId, pipeline: PipelineId) -> (r: String)
    requires
        store.wf(),
        stored_pipeline(store.view(), project, pipeline) is Some,
    ensures
        r@ == stored_pipeline(store.view(), project, pipeline)->0.url,
{
    let p = find_stored_pipeline(store, project, pipeline).unwrap();
    p.url.clone()
}

/// The page of a loaded job.
fn job_url(store: &ProjectStore, project: ProjectId, pipeline: PipelineId, job: JobId) -> (r: String)
    requires
        store.wf(),
        stored_job(store.view(), project, pipeline, job) is Some,
    ensures
        r@ == stored_job(store.view(), project, pipeline, job)->0.url,
{
    let p = find_stored_pipeline(store, project, pipeline).unwrap();
    let js = p.jobs.as_ref().unwrap();
    let ghost v = jobs_view(js@);
    proof {
        lemma_find_job(v, job);
        assert(p@.jobs == Some(v));
    }
    let mut i: usize = 0;
    while i < js.len()
        invariant
            i <= js@.len(),
            v == jobs_view(js@),
            i <= find_job(v, job) < v.len(),
            v[find_job(v, job)].id == job,
            forall|k: int| 0 <= k < find_job(v, job) ==> #[trigger] v[k].id != job,
            stored_job(store.view(), project, pipeline, job) == Some(v[find_job(v, job)]),
        decreases js@.len() - i,
    {
        if js[i].id == job {
            assert(v[i as int].id == job);
            return js[i].url.clone();
        }
        assert(v[i as int].id != job);
        i = i + 1;
    }
    js[0].url.clone()
}

/// The actions an event asks of the outside world, given the stored
/// projects `ps`, the same in table order `t`, and the configuration popup.
pub open spec fn event_actions(
    ps: Seq<ProjectView>,
    t: Seq<ProjectView>,
    e: GlimEvent,
    popup: Option<ConfigPopupState>,
    actions: Seq<AppAction>,
) -> bool {
    match e {
        GlimEvent::ProjectOpenUrl(id) => actions.len() == 1 && (actions[0] matches AppAction::OpenUrl(
            u,
        ) && u@ == ps[find_index(ps, id)].url),
        GlimEvent::PipelineOpenUrl(p, q) => actions.len() == 1 && (actions[0] matches AppAction::OpenUrl(
            u,
        ) && u@ == stored_pipeline(ps, p, q)->0.url),
        GlimEvent::JobOpenUrl(p, q, j) => actions.len() == 1 && (actions[0] matches AppAction::OpenUrl(
            u,
        ) && u@ == stored_job(ps, p, q, j)->0.url),
        GlimEvent::JobLogFetch(p, q) => actions == seq![
            AppAction::DownloadJobLog(p, failed_job_of(ps[find_index(ps, p)], q)->0),
        ],
        GlimEvent::JobLogDownloaded(_, _, trace) => actions.len() == 1 && (
        actions[0] matches AppAction::CopyJobLog(s) && s == trace),
        GlimEvent::JobsActiveFetch => actions == active_job_fetches(t),
        GlimEvent::PipelinesFetch(id) => actions == seq![AppAction::FetchPipelines(id)],
        GlimEvent::ProjectsFetch => actions.len() == 1 && (actions[0] matches AppAction::FetchProjects(
            since,
        ) && fetch_since(t, since)),
        GlimEvent::JobsFetch(p, q) => actions == seq![AppAction::FetchJobs(p, q)],
        GlimEvent::ConfigUpdate(c) => actions.len() == 1 && (
        actions[0] matches AppAction::UpdateClientConfig(x) && x == c),
        GlimEvent::ConfigApply => match popup {
            Some(c) => actions.len() == 1 && (actions[0] matches AppAction::ApplyConfig(x)
                && config_from_values(
                c.fields()[0].value@,
                c.fields()[1].value@,
                c.fields()[2].value@,
                c.fields()[3].value@,
                x,
            )),
            None => actions.len() == 0,
        },
        GlimEvent::ScreenCaptureToClipboard(s) => actions.len() == 1 && (
        actions[0] matches AppAction::CopyScreen(x) && x == s),
        _ => actions.len() == 0,
    }
}

/// The notification after the event itself: the last notice shown again on
/// request, none once dismissed.
pub open spec fn notice_after_event(q: NoticeQueues, e: GlimEvent, shown: Option<Notice>) -> Option<
    Notice,
> {
    match e {
        GlimEvent::NotificationLast => match q.most_recent {
            Some(n) => Some(n),
            None => shown,
        },
        GlimEvent::NotificationDismiss => None,
        _ => shown,
    }
}

/// The notification kept on screen: an information notice gives way as
/// soon as an error waits.
pub open spec fn kept_notice(q: NoticeQueues, shown: Option<Notice>) -> Option<Notice> {
    if q.errors.len() > 0 && (shown matches Some(n) && n.level == NoticeLevel::Info) {
        None
    } else {
        shown
    }
}

/// The notification shown after an event, given the queues `q` once the
/// event was recorded: with nothing kept on screen, the next waiting notice
/// shows.
pub open spec fn shown_after(q: NoticeQueues, e: GlimEvent, shown: Option<Notice>) -> Option<Notice> {
    let k = kept_notice(q, notice_after_event(q, e, shown));
    if k is None {
        next_notice(q)
    } else {
        k
    }
}

/// The queues after an event: the next notice leaves them when it shows.
pub open spec fn queues_after(q: NoticeQueues, e: GlimEvent, shown: Option<Notice>) -> NoticeQueues {
    if kept_notice(q, notice_after_event(q, e, shown)) is None {
        popped(q)
    } else {
        q
    }
}

/// The notification effects of an event: one each time a notice comes on screen.
pub open spec fn notice_effects(q: NoticeQueues, e: GlimEvent, shown: Option<Notice>) -> Seq<
    FxRequest,
> {
    let again = if e is NotificationLast && q.most_recent is Some {
        seq![FxRequest::ShowNotification]
    } else {
        Seq::empty()
    };
    let next = if kept_notice(q, notice_after_event(q, e, shown)) is None && next_notice(q) is Some {
        seq![FxRequest::ShowNotification]
    } else {
        Seq::empty()
    };
    again + next
}

/// `Some(x)` as a one-element sequence, `None` as none.
pub open spec fn opt_fx(x: Option<FxRequest>) -> Seq<FxRequest> {
    match x {
        Some(f) => seq![f],
        None => Seq::empty(),
    }
}

/// The facts about the widgets that key handling reads.
pub open spec fn ui_context(ui: StatefulWidgets) -> InputContext {
    InputContext {
        filter_input_active: ui.filter_input_active,
        config_field_is_dropdown: ui.config_popup_state matches Some(c)
            && c.fields()[c.active()].dropdown_options is Some,
        selected_pipeline_action: match ui.pipeline_actions {
            Some(s) => match s.selected {
                Some(i) => if i < s.actions@.len() {
                    Some(s.actions@[i as int])
                } else {
                    None
                },
                None => None,
            },
            None => None,
        },
    }
}

/// What an event leads to, besides the changes to the application and the widgets.
pub struct AppOutput {
    /// Events from key handling, to dispatch first.
    pub input_events: Vec<GlimEvent>,
    /// The change to the widgets key handling asked for.
    pub command: UiCommand,
    /// Events from carrying out that change, to dispatch next.
    pub command_events: Vec<GlimEvent>,
    /// Events from the project store, to dispatch last.
    pub store_events: Vec<GlimEvent>,
    /// Work for the outside world, in order.
    pub actions: Vec<AppAction>,
    /// Visual effects to start, in order.
    pub effects: Vec<FxRequest>,
}

/// The application: whether it runs, the stored projects, the notices and
/// the key-handling modes.
pub struct GlimApp {
    running: bool,
    store: ProjectStore,
    notices: NoticeService,
    input: InputMultiplexer,
}

impl GlimApp {
    pub closed spec fn running(&self) -> bool {
        self.running
    }

    /// The stored projects, in the order they were first loaded.
    pub closed spec fn projects(&self) -> Seq<ProjectView> {
        self.store.view()
    }

    /// The stored projects in table order.
    pub closed spec fn table(&self) -> Seq<ProjectView> {
        table(self.store.view(), self.store.order())
    }

    pub closed spec fn notice_queues(&self) -> NoticeQueues {
        self.notices@
    }

    /// The key-handling modes, the top one last.
    pub closed spec fn modes(&self) -> Seq<InputProcessor> {
        self.input@
    }

    /// The application's invariant: the store is well formed and each
    /// notice queue holds notices of its own level.
    pub closed spec fn wf(&self) -> bool {
        self.store.wf() && queues_wf(self.notices@)
    }

    /// A running application with no projects, no notices, and the main
    /// project list handling keys.
    pub fn new() -> (r: GlimApp)
        ensures
            r.wf(),
            r.running(),
            r.projects().len() == 0,
            r.notice_queues().infos.len() == 0 && r.notice_queues().errors.len() == 0
                && r.notice_queues().most_recent is None,
            r.modes() == seq![InputProcessor::Normal(NormalModeProcessor { selected: None })],
    {
        let mut input = InputMultiplexer::new();
        input.push(InputProcessor::Normal(NormalModeProcessor::new()));
        GlimApp { running: true, store: ProjectStore::new(), notices: NoticeService::new(), input }
    }

    pub fn is_running(&self) -> (r: bool)
        ensures
            r == self.running(),
    {
        self.running
    }

    /// The stored project with the given id.
    pub fn project(&self, id: ProjectId) -> (r: &Project)
        requires
            self.wf(),
            find_index(self.projects(), id) >= 0,
        ensures
            r@ == self.projects()[find_index(self.projects(), id)],
    {
        self.store.find(id).unwrap()
    }

    /// The stored projects, most recently active first.
    pub fn sorted_projects(&self) -> (r: Vec<&Project>)
        requires
            self.wf(),
        ensures
            r@.len() == self.table().len(),
            forall|i: int| 0 <= i < r@.len() ==> #[trigger] r@[i]@ == self.table()[i],
    {
        self.store.sorted_projects()
    }

    /// The store of projects.
    pub fn store(&self) -> (r: &ProjectStore)
        ensures
            r.view() == self.projects(),
            table(r.view(), r.order()) == self.table(),
            self.wf() ==> r.wf(),
    {
        &self.store
    }

    /// Takes the next notice to show.
    pub fn pop_notice(&mut self) -> (r: Option<Notice>)
        requires
            old(self).wf(),
        ensures
            final(self).wf(),
            r == next_notice(old(self).notice_queues()),
            final(self).notice_queues() == popped(old(self).notice_queues()),
            final(self).projects() == old(self).projects(),
            final(self).table() == old(self).table(),
            final(self).running() == old(self).running(),
            final(self).modes() == old(self).modes(),
    {
        self.notices.pop_notice()
    }

    /// The facts about the widgets that key handling reads.
    fn context_of(ui: &StatefulWidgets) -> (r: InputContext)
        requires
            ui.wf(),
        ensures
            r == ui_context(*ui),
    {
        let config_field_is_dropdown = match &ui.config_popup_state {
            Some(c) => c.is_current_field_dropdown(),
            None => false,
        };
        InputContext {
            filter_input_active: ui.filter_input_active,
            config_field_is_dropdown,
            selected_pipeline_action: ui.selected_pipeline_action(),
        }
    }

    /// The actions an event asks of the outside world.
    fn actions_for(&self, event: &GlimEvent, ui: &StatefulWidgets) -> (r: Vec<AppAction>)
        requires
            self.wf(),
            ui.wf(),
            app_event_acceptable(self.projects(), *event),
        ensures
            event_actions(self.projects(), self.table(), *event, ui.config_popup_state, r@),
    {
        let mut actions: Vec<AppAction> = Vec::new();
        match event {
            GlimEvent::ProjectOpenUrl(id) => {
                actions.push(AppAction::OpenUrl(project_url(&self.store, *id)));
            },
            GlimEvent::PipelineOpenUrl(p, q) => {
                actions.push(AppAction::OpenUrl(pipeline_url(&self.store, *p, *q)));
            },
            GlimEvent::JobOpenUrl(p, q, j) => {
                actions.push(AppAction::OpenUrl(job_url(&self.store, *p, *q, *j)));
            },
            GlimEvent::JobLogFetch(p, q) => {
                let project = self.store.find(*p).unwrap();
                let job = failed_job_id(project, *q).unwrap();
                actions.push(AppAction::DownloadJobLog(*p, job));
            },
            GlimEvent::JobLogDownloaded(_, _, trace) => {
                actions.push(AppAction::CopyJobLog(trace.clone()));
            },
            GlimEvent::JobsActiveFetch => {
                actions = jobs_active_fetch(&self.store);
            },
            GlimEvent::PipelinesFetch(id) => {
                actions.push(AppAction::FetchPipelines(*id));
            },
            GlimEvent::ProjectsFetch => {
                actions.push(AppAction::FetchProjects(projects_fetch_since(&self.store)));
            },
            GlimEvent::JobsFetch(p, q) => {
                actions.push(AppAction::FetchJobs(*p, *q));
            },
            GlimEvent::ConfigUpdate(c) => {
                actions.push(AppAction::UpdateClientConfig(c.clone()));
            },
            GlimEvent::ConfigApply => {
                match &ui.config_popup_state {
                    Some(c) => actions.push(AppAction::ApplyConfig(c.to_config())),
                    None => {},
                }
            },
            GlimEvent::ScreenCaptureToClipboard(s) => {
                actions.push(AppAction::CopyScreen(s.clone()));
            },
            _ => {},
        }
        actions
    }
}

/// The store leaves alone the projects an acceptable event asks the
/// application to act on.
proof fn lemma_store_keeps_lookups(
    ps: Seq<ProjectView>,
    e: GlimEvent,
    now: i64,
    new: Seq<ProjectView>,
    events: Seq<GlimEvent>,
)
    requires
        store_step(ps, e, now, new, events),
        app_event_acceptable(ps, e),
    ensures
        app_event_acceptable(new, e),
{
}

impl GlimApp {
    /// Reacts to an event at time `now` (milliseconds since the epoch), after
    /// the widgets did: key handling, then the effect the event starts, the
    /// notices, the project store, the event's own work, and finally the
    /// notification on screen.
    #[verifier::rlimit(50)]
    pub fn apply(&mut self, event: GlimEvent, ui: &mut StatefulWidgets, now: i64) -> (r: AppOutput)
        requires
            old(self).wf(),
            old(ui).wf(),
            event_acceptable(old(self).projects(), event),
            app_event_acceptable(old(self).projects(), event),
            old(ui).config_popup_state matches Some(c) ==> c.fields()[c.active()].value@.len()
                < usize::MAX,
        ensures
            final(self).wf(),
            final(ui).wf(),
            input_stepped(
                old(self).modes(),
                event,
                ui_context(*old(ui)),
                final(self).modes(),
                r.input_events@,
                r.command,
            ),
            command_applied(
                *old(ui),
                r.command,
                StatefulWidgets {
                    notice: old(ui).notice,
                    filter_input_active: old(ui).filter_input_active,
                    capture_screen_requested: old(ui).capture_screen_requested,
                    ..*final(ui)
                },
                r.command_events@,
            ),
            store_step(old(self).projects(), event, now, final(self).projects(), r.store_events@),
            event_actions(
                final(self).projects(),
                final(self).table(),
                event,
                old(ui).config_popup_state,
                r.actions@,
            ),
            final(self).running() == (old(self).running() && !(event is AppExit)),
            final(ui).filter_input_active == (old(ui).filter_input_active
                || event is FilterMenuShow),
            final(ui).capture_screen_requested == (old(ui).capture_screen_requested
                || event is ScreenCapture),
            exists|q: NoticeQueues|
                #[trigger] applied(old(self).notice_queues(), event, q) && final(ui).notice
                    == shown_after(q, event, old(ui).notice) && final(self).notice_queues()
                    == queues_after(q, event, old(ui).notice) && r.effects@ == opt_fx(
                    event_effect(event),
                ) + notice_effects(q, event, old(ui).notice),
            final(self).notice_queues().errors.len() > 0 ==> (final(ui).notice matches Some(n)
                && n.level == NoticeLevel::Error),
            final(self).notice_queues().infos.len() > 0 ==> final(ui).notice is Some,
    {
        // key handling
        let ctx = GlimApp::context_of(ui);
        let outcome = self.input.apply(&event, &ctx);
        let input_events = outcome.events;
        let command = outcome.command;
        let ghost ui0 = *ui;
        let command_events = ui.apply_command(command);
        let ghost ui1 = *ui;
        // effects and notices
        let mut effects: Vec<FxRequest> = Vec::new();
        match effect_for_event(&event) {
            Some(f) => effects.push(f),
            None => {},
        }
        let ghost fx0 = effects@;
        self.notices.apply(&event);
        let ghost q = self.notices@;
        // the store
        let store_events = self.store.apply(&event, now);
        proof {
            assert(event_acceptable(old(self).projects(), event));
            lemma_store_keeps_lookups(old(self).projects(), event, now, self.store.view(), store_events@);
        }
        // the event's own work
        let actions = self.actions_for(&event, ui);
        match &event {
            GlimEvent::AppExit => {
                self.running = false;
            },
            GlimEvent::NotificationLast => {
                match self.notices.last_notification() {
                    Some(n) => {
                        ui.notice = Some(n.clone());
                        effects.push(FxRequest::ShowNotification);
                    },
                    None => {},
                }
            },
            GlimEvent::NotificationDismiss => {
                ui.notice = None;
            },
            GlimEvent::FilterMenuShow => {
                ui.filter_input_active = true;
            },
            GlimEvent::ScreenCapture => {
                ui.capture_screen_requested = true;
            },
            _ => {},
        }
        // the notification on screen
        let info_shown = match &ui.notice {
            Some(n) => n.level == NoticeLevel::Info,
            None => false,
        };
        if self.notices.has_error() && info_shown {
            ui.notice = None;
        }
        if ui.notice.is_none() {
            match self.notices.pop_notice() {
                Some(n) => {
                    ui.notice = Some(n);
                    effects.push(FxRequest::ShowNotification);
                },
                None => {},
            }
        }
        proof {
            assert(applied(old(self).notice_queues(), event, q));
            assert(effects@ =~= opt_fx(event_effect(event)) + notice_effects(q, event, old(ui).notice));
            lemma_info_gives_way(q, event, old(ui).notice);
            lemma_nothing_shown_when_idle(q, event, old(ui).notice);
        }
        AppOutput { input_events, command, command_events, store_events, actions, effects }
    }
}

/// What follows the check of a configuration from the popup: once the
/// GitLab client took it (and it was saved), it becomes the configuration in
/// effect and the popup closes; a refused configuration is reported as an
/// error carrying the client's message.
pub fn config_applied(config: GlimConfig, result: Result<(), ClientError>) -> (r: Vec<GlimEvent>)
    ensures
        match result {
            Ok(_) => r@ == seq![GlimEvent::ConfigUpdate(config), GlimEvent::ConfigClose],
            Err(e) => r@.len() == 1 && (r@[0] matches GlimEvent::AppError(GlimError::GeneralError(m))
                && m@ == client_error_text(e)),
        },
{
    let mut events: Vec<GlimEvent> = Vec::new();
    match result {
        Ok(_) => {
            events.push(GlimEvent::ConfigUpdate(config));
            events.push(GlimEvent::ConfigClose);
        },
        Err(e) => {
            events.push(GlimEvent::AppError(GlimError::GeneralError(e.message())));
        },
    }
    events
}

/// A project matches a filter when its path, or its description, contains
/// the filter, ignoring case.
pub open spec fn project_matches(p: ProjectView, filter: Seq<char>) -> bool {
    let needle = unicode_lowercase(filter);
    contains_seq(unicode_lowercase(p.path), needle) || (p.description matches Some(d)
        && contains_seq(unicode_lowercase(d), needle))
}

/// Indices, in increasing order, of the first `n` rows of `t` that match the filter.
pub open spec fn matching_rows(t: Seq<ProjectView>, filter: Seq<char>, n: nat) -> Seq<usize>
    decreases n,
{
    if n == 0 {
        Seq::empty()
    } else {
        matching_rows(t, filter, (n - 1) as nat) + if project_matches(t[n - 1], filter) {
            seq![(n - 1) as usize]
        } else {
            Seq::empty()
        }
    }
}

/// The rows a filter leaves in the table: those that match a filter with
/// something besides blanks in it, else all of them.
pub open spec fn shown_rows(t: Seq<ProjectView>, filter: Option<String>) -> Seq<usize> {
    match filter {
        Some(f) => if trim(f@).len() > 0 {
            matching_rows(t, f@, t.len())
        } else {
            Seq::new(t.len(), |i: int| i as usize)
        },
        None => Seq::new(t.len(), |i: int| i as usize),
    }
}

impl GlimApp {
    /// The projects the table shows under a filter, most recently active
    /// first, with their indices among all projects in table order.
    pub fn filtered_projects(&self, temporary_filter: &Option<String>) -> (r: (
        Vec<&Project>,
        Vec<usize>,
    ))
        requires
            self.wf(),
        ensures
            r.1@ == shown_rows(self.table(), *temporary_filter),
            r.0@.len() == r.1@.len(),
            forall|k: int| 0 <= k < r.0@.len() ==> #[trigger] r.0@[k]@ == self.table()[r.1@[k] as int],
    {
        let all = self.store.sorted_projects();
        let ghost t = self.table();
        let needle = match temporary_filter {
            Some(f) => {
                let trimmed = trim_str(f.as_str());
                if chars_of(trimmed.as_str()).len() > 0 {
                    Some(str_to_lowercase(f.as_str()))
                } else {
                    None
                }
            },
            None => None,
        };
        let mut projects: Vec<&Project> = Vec::new();
        let mut indices: Vec<usize> = Vec::new();
        let mut i: usize = 0;
        while i < all.len()
            invariant
                i <= all@.len(),
                t == self.table(),
                all@.len() == t.len(),
                forall|k: int| 0 <= k < all@.len() ==> #[trigger] all@[k]@ == t[k],
                projects@.len() == indices@.len(),
                forall|k: int| 0 <= k < projects@.len() ==> #[trigger] projects@[k]@ == t[indices@[k] as int],
                match needle {
                    Some(n) => temporary_filter matches Some(f) && n@ == unicode_lowercase(f@)
                        && indices@ == matching_rows(t, f@, i as nat),
                    None => indices@ == Seq::new(i as nat, |j: int| j as usize),
                },
            decreases all@.len() - i,
        {
            let p = all[i];
            assert(all@[i as int]@ == t[i as int]);
            let keep = match &needle {
                Some(n) => {
                    let path = str_to_lowercase(p.path.as_str());
                    if str_contains(path.as_str(), n.as_str()) {
                        true
                    } else {
                        match &p.description {
                            Some(d) => {
                                let desc = str_to_lowercase(d.as_str());
                                str_contains(desc.as_str(), n.as_str())
                            },
                            None => false,
                        }
                    }
                },
                None => true,
            };
            if keep {
                projects.push(p);
                indices.push(i);
            }
            proof {
                if needle is Some {
                    let f = temporary_filter->0;
                    assert(keep == project_matches(t[i as int], f@));
                    assert(indices@ =~= matching_rows(t, f@, (i + 1) as nat));
                } else {
                    assert(indices@ =~= Seq::new((i + 1) as nat, |j: int| j as usize));
                }
            }
            i = i + 1;
        }
        (projects, indices)
    }
}

/// An information notice never stays on screen while an error waits.
pub proof fn lemma_info_gives_way(q: NoticeQueues, e: GlimEvent, shown: Option<Notice>)
    requires
        queues_wf(q),
    ensures
        (shown_after(q, e, shown) matches Some(n) && n.level == NoticeLevel::Info) ==> queues_after(
            q,
            e,
            shown,
        ).errors.len() == 0,
{
    let k = kept_notice(q, notice_after_event(q, e, shown));
    if k is None {
        if q.errors.len() > 0 {
            assert(next_notice(q) == Some(q.errors[0]));
            assert(q.errors[0].level == NoticeLevel::Error);
        }
    }
}

/// The screen shows no notification only when no notice waits.
pub proof fn lemma_nothing_shown_when_idle(q: NoticeQueues, e: GlimEvent, shown: Option<Notice>)
    ensures
        shown_after(q, e, shown) is None ==> queues_after(q, e, shown).errors.len() == 0
            && queues_after(q, e, shown).infos.len() == 0,
{
}

proof fn lemma_matching_rows(t: Seq<ProjectView>, filter: Seq<char>, n: nat)
    requires
        n <= t.len(),
        t.len() <= usize::MAX,
    ensures
        forall|j: int| 0 <= j < matching_rows(t, filter, n).len() ==> #[trigger] matching_rows(t, filter, n)[j] < n,
        forall|a: int, b: int|
            0 <= a < b < matching_rows(t, filter, n).len() ==> #[trigger] matching_rows(t, filter, n)[a]
                < #[trigger] matching_rows(t, filter, n)[b],
        forall|k: int|
            0 <= k < n ==> (matching_rows(t, filter, n).contains(k as usize) <==> project_matches(
                #[trigger] t[k],
                filter,
            )),
    decreases n,
{
    if n > 0 {
        let m = (n - 1) as nat;
        lemma_matching_rows(t, filter, m);
        let prev = matching_rows(t, filter, m);
        let tail = if project_matches(t[m as int], filter) {
            seq![m as usize]
        } else {
            Seq::<usize>::empty()
        };
        let all = matching_rows(t, filter, n);
        assert(all == prev + tail);
        assert forall|j: int| 0 <= j < all.len() implies #[trigger] all[j] < n by {
            if j < prev.len() {
                assert(all[j] == prev[j]);
            } else {
                assert(all[j] == tail[j - prev.len()]);
            }
        }
        assert forall|a: int, b: int| 0 <= a < b < all.len() implies #[trigger] all[a] < #[trigger] all[b] by {
            assert(all[a] == prev[a]);
            if b < prev.len() {
                assert(all[b] == prev[b]);
            } else {
                assert(all[b] == tail[b - prev.len()]);
            }
        }
        assert forall|k: int| 0 <= k < n implies (all.contains(k as usize) <==> project_matches(
            #[trigger] t[k],
            filter,
        )) by {
            if all.contains(k as usize) {
                let j = choose|j: int| 0 <= j < all.len() && all[j] == k as usize;
                if j < prev.len() {
                    assert(all[j] == prev[j]);
                    assert(prev.contains(k as usize));
                } else {
                    assert(all[j] == tail[j - prev.len()]);
                }
            }
            if project_matches(t[k], filter) {
                if k < m {
                    assert(prev.contains(k as usize));
                    let j = choose|j: int| 0 <= j < prev.len() && prev[j] == k as usize;
                    assert(all[j] == prev[j]);
                } else {
                    assert(all[prev.len() as int] == m as usize);
                }
            }
        }
    }
}

/// The table under a filter: with something besides blanks in it, a row is
/// shown exactly when its path, or its description, contains the filter,
/// all ignoring case; a blank or missing filter shows every row. Rows keep
/// their table indices and their table order.
pub proof fn lemma_filter_shows_matches(t: Seq<ProjectView>, filter: Option<String>)
    requires
        t.len() <= usize::MAX,
    ensures
        forall|j: int| 0 <= j < shown_rows(t, filter).len() ==> #[trigger] shown_rows(t, filter)[j] < t.len(),
        forall|a: int, b: int|
            0 <= a < b < shown_rows(t, filter).len() ==> #[trigger] shown_rows(t, filter)[a]
                < #[trigger] shown_rows(t, filter)[b],
        filter is None ==> forall|k: int| 0 <= k < t.len() ==> #[trigger] shown_rows(t, filter).contains(k as usize),
        filter matches Some(f) ==> (trim(f@).len() == 0 ==> forall|k: int| 0 <= k < t.len() ==> #[trigger] shown_rows(t, filter).contains(k as usize)),
        filter matches Some(f) ==> (trim(f@).len() > 0 ==> forall|k: int|
            0 <= k < t.len() ==> (#[trigger] shown_rows(t, filter).contains(k as usize) <==> (contains_seq(
                unicode_lowercase(t[k].path),
                unicode_lowercase(f@),
            ) || (t[k].description matches Some(d) && contains_seq(
                unicode_lowercase(d),
                unicode_lowercase(f@),
            ))))),
{
    let rows = shown_rows(t, filter);
    assert forall|j: int| 0 <= j < rows.len() implies #[trigger] rows[j] < t.len() by {
        if let Some(f) = filter {
            if trim(f@).len() > 0 {
                lemma_matching_rows(t, f@, t.len());
            }
        }
    }
    assert forall|a: int, b: int| 0 <= a < b < rows.len() implies #[trigger] rows[a] < #[trigger] rows[b] by {
        if let Some(f) = filter {
            if trim(f@).len() > 0 {
                lemma_matching_rows(t, f@, t.len());
            }
        }
    }
    match filter {
        Some(f) => {
            if trim(f@).len() > 0 {
                lemma_matching_rows(t, f@, t.len());
                assert forall|k: int| 0 <= k < t.len() implies (#[trigger] rows.contains(k as usize) <==> (contains_seq(
                    unicode_lowercase(t[k].path),
                    unicode_lowercase(f@),
                ) || (t[k].description matches Some(d) && contains_seq(
                    unicode_lowercase(d),
                    unicode_lowercase(f@),
                )))) by {
                    assert(rows.contains(k as usize) == project_matches(t[k], f@));
                }
            } else {
                assert forall|k: int| 0 <= k < t.len() implies #[trigger] rows.contains(k as usize) by {
                    assert(rows[k] == k as usize);
                }
            }
        },
        None => {
            assert forall|k: int| 0 <= k < t.len() implies #[trigger] rows.contains(k as usize) by {
                assert(rows[k] == k as usize);
            }
        },
    }
}

} // verus!
