use glim::app::{config_applied, effect_for_event, AppAction, FxId, FxRequest, GlimApp};
use glim::config::GlimConfig;
use glim::domain::{CommitDto, JobDto, PipelineDto, PipelineSource, PipelineStatus, ProjectDto, StatisticsDto};
use glim::error::{ClientError, GlimError};
use glim::event::{GlimEvent, GlitchState, KeyCode, KeyEvent, NO_MODIFIERS};
use glim::ids::{JobId, PipelineId, ProjectId};
use glim::input::UiCommand;
use glim::layout::Notification;
use glim::notice::{Notice, NoticeLevel, NoticeMessage};
use glim::widgets::StatefulWidgets;

const DAY: i64 = 86_400_000;
const NOW: i64 = 1_700_000_000_000;

fn project(id: u64, path: &str, activity: i64) -> ProjectDto {
    ProjectDto {
        id: ProjectId::new(id),
        path_with_namespace: path.to_string(),
        description: Some(format!("about {path}")),
        default_branch: "main".to_string(),
        ssh_url_to_repo: String::new(),
        web_url: format!("https://g/{path}"),
        last_activity_at: activity,
        statistics: StatisticsDto { commit_count: 1, job_artifacts_size: 0, repository_size: 0 },
    }
}

fn pipeline(id: u64, project: u64, status: PipelineStatus) -> PipelineDto {
    PipelineDto {
        id: PipelineId::new(id),
        project_id: ProjectId::new(project),
        status,
        source: PipelineSource::Push,
        branch: "main".to_string(),
        web_url: format!("https://g/p/{id}"),
        created_at: NOW,
        updated_at: NOW,
    }
}

fn job(id: u64, status: PipelineStatus) -> JobDto {
    JobDto {
        id: JobId::new(id),
        name: format!("job{id}"),
        stage: "test".to_string(),
        commit: CommitDto { title: "fix".to_string(), author_name: "me".to_string() },
        status,
        created_at: NOW,
        started_at: None,
        finished_at: None,
        web_url: format!("https://g/j/{id}"),
    }
}

fn key(code: KeyCode) -> GlimEvent {
    GlimEvent::InputKey(KeyEvent { code, modifiers: NO_MODIFIERS })
}

/// Runs an event through the widgets and the application, as the event loop does.
fn step(app: &mut GlimApp, ui: &mut StatefulWidgets, event: GlimEvent) -> (Vec<GlimEvent>, Vec<AppAction>, Vec<FxRequest>) {
    let (mut events, _) = ui.apply(&event, app.store(), &GlimConfig::default());
    let out = app.apply(event, ui, NOW);
    events.extend(out.input_events);
    events.extend(out.command_events);
    events.extend(out.store_events);
    (events, out.actions, out.effects)
}

fn loaded_app() -> (GlimApp, StatefulWidgets) {
    let mut app = GlimApp::new();
    let mut ui = StatefulWidgets::new();
    let projects = vec![project(1, "group/alpha", NOW - 10 * DAY), project(2, "group/beta", NOW - DAY)];
    step(&mut app, &mut ui, GlimEvent::ProjectsLoaded(projects));
    (app, ui)
}

#[test]
fn projects_load_sorted_by_activity() {
    let (mut app, mut ui) = loaded_app();
    let sorted: Vec<u64> = app.sorted_projects().iter().map(|p| p.id.value()).collect();
    assert_eq!(sorted, vec![2, 1]);
    let (_, actions, _) = step(&mut app, &mut ui, GlimEvent::ProjectsFetch);
    // no project runs a pipeline yet: fetch what changed since the latest activity
    assert!(matches!(actions.as_slice(), [AppAction::FetchProjects(Some(t))] if *t == NOW - DAY));
}

#[test]
fn first_load_selects_the_most_recent_project() {
    let mut app = GlimApp::new();
    let mut ui = StatefulWidgets::new();
    let (events, _, effects) = step(&mut app, &mut ui, GlimEvent::ProjectsLoaded(vec![project(1, "a", NOW - DAY), project(2, "b", NOW)]));
    assert!(matches!(events.last(), Some(GlimEvent::ProjectSelected(id)) if id.value() == 2));
    assert!(effects.is_empty());
    let (events, _, _) = step(&mut app, &mut ui, GlimEvent::ProjectSelected(ProjectId::new(2)));
    assert!(events.is_empty(), "recent projects already had their pipelines requested");
}

#[test]
fn old_projects_fetch_pipelines_on_selection_once() {
    let (mut app, mut ui) = loaded_app();
    let (events, _, _) = step(&mut app, &mut ui, GlimEvent::ProjectSelected(ProjectId::new(1)));
    assert!(matches!(events.as_slice(), [GlimEvent::PipelinesFetch(id)] if id.value() == 1));
    let (events, _, _) = step(&mut app, &mut ui, GlimEvent::ProjectSelected(ProjectId::new(1)));
    assert!(events.is_empty());
}

#[test]
fn pipelines_and_jobs_flow() {
    let (mut app, mut ui) = loaded_app();
    let (events, _, _) = step(
        &mut app,
        &mut ui,
        GlimEvent::PipelinesLoaded(vec![pipeline(10, 2, PipelineStatus::Running), pipeline(11, 2, PipelineStatus::Failed)]),
    );
    assert!(matches!(events.as_slice(), [GlimEvent::JobsFetch(p, q), GlimEvent::ProjectUpdated(u)] if p.value() == 2 && q.value() == 10 && u.id.value() == 2 && u.pipelines.as_ref().is_some_and(|ps| ps.len() == 2 && ps[0].jobs.is_none())));

    let (_, actions, _) = step(&mut app, &mut ui, GlimEvent::JobsActiveFetch);
    assert!(matches!(actions.as_slice(), [AppAction::FetchJobs(p, q)] if p.value() == 2 && q.value() == 10));

    let (_, actions, _) = step(&mut app, &mut ui, GlimEvent::ProjectsFetch);
    assert!(matches!(actions.as_slice(), [AppAction::FetchProjects(Some(t))] if *t == NOW - DAY));

    step(&mut app, &mut ui, GlimEvent::JobsLoaded(ProjectId::new(2), PipelineId::new(11), vec![job(100, PipelineStatus::Success), job(101, PipelineStatus::Failed)]));
    let (_, actions, _) = step(&mut app, &mut ui, GlimEvent::JobLogFetch(ProjectId::new(2), PipelineId::new(11)));
    assert!(matches!(actions.as_slice(), [AppAction::DownloadJobLog(p, j)] if p.value() == 2 && j.value() == 101));

    let (_, actions, _) = step(&mut app, &mut ui, GlimEvent::JobOpenUrl(ProjectId::new(2), PipelineId::new(11), JobId::new(100)));
    assert!(matches!(actions.as_slice(), [AppAction::OpenUrl(u)] if u == "https://g/j/100"));
    let (_, actions, _) = step(&mut app, &mut ui, GlimEvent::PipelineOpenUrl(ProjectId::new(2), PipelineId::new(10)));
    assert!(matches!(actions.as_slice(), [AppAction::OpenUrl(u)] if u == "https://g/p/10"));
    let (_, actions, _) = step(&mut app, &mut ui, GlimEvent::ProjectOpenUrl(ProjectId::new(1)));
    assert!(matches!(actions.as_slice(), [AppAction::OpenUrl(u)] if u == "https://g/group/alpha"));
}

#[test]
fn pipeline_actions_offer_the_failed_job() {
    let (mut app, mut ui) = loaded_app();
    step(&mut app, &mut ui, GlimEvent::PipelinesLoaded(vec![pipeline(11, 2, PipelineStatus::Failed)]));
    step(&mut app, &mut ui, GlimEvent::JobsLoaded(ProjectId::new(2), PipelineId::new(11), vec![job(101, PipelineStatus::Failed)]));
    step(&mut app, &mut ui, GlimEvent::PipelineActionsOpen(ProjectId::new(2), PipelineId::new(11)));
    let actions = &ui.pipeline_actions.as_ref().unwrap().actions;
    assert_eq!(actions.len(), 4);
    // Down moves to the second action, Enter asks for it
    step(&mut app, &mut ui, key(KeyCode::Down));
    let (events, _, _) = step(&mut app, &mut ui, key(KeyCode::Enter));
    assert!(events.iter().any(|e| matches!(e, GlimEvent::PipelineOpenUrl(p, q) if p.value() == 2 && q.value() == 11)));
}

#[test]
fn exit_stops_the_app() {
    let (mut app, mut ui) = loaded_app();
    assert!(app.is_running());
    step(&mut app, &mut ui, key(KeyCode::Char('q')));
    assert!(app.is_running(), "the key only asks to exit");
    step(&mut app, &mut ui, GlimEvent::AppExit);
    assert!(!app.is_running());
}

#[test]
fn errors_show_before_information() {
    let (mut app, mut ui) = loaded_app();
    let (_, _, effects) = step(&mut app, &mut ui, GlimEvent::JobLogDownloaded(ProjectId::new(2), JobId::new(3), "log".to_string()));
    assert!(effects.contains(&FxRequest::ShowNotification));
    assert_eq!(ui.notice.as_ref().unwrap().level, NoticeLevel::Info);
    step(&mut app, &mut ui, GlimEvent::AppError(GlimError::GeneralError("boom".to_string())));
    // the information notice gives way to the waiting error
    assert_eq!(ui.notice.as_ref().unwrap().level, NoticeLevel::Error);
    step(&mut app, &mut ui, GlimEvent::NotificationDismiss);
    assert!(ui.notice.is_none());
    step(&mut app, &mut ui, GlimEvent::NotificationLast);
    assert_eq!(ui.notice.as_ref().unwrap().level, NoticeLevel::Error);
}

#[test]
fn job_log_goes_to_clipboard() {
    let (mut app, mut ui) = loaded_app();
    let (_, actions, _) = step(&mut app, &mut ui, GlimEvent::JobLogDownloaded(ProjectId::new(2), JobId::new(3), "trace".to_string()));
    assert!(matches!(actions.as_slice(), [AppAction::CopyJobLog(s)] if s == "trace"));
}

#[test]
fn filter_menu_and_screen_capture_flags() {
    let (mut app, mut ui) = loaded_app();
    step(&mut app, &mut ui, GlimEvent::ScreenCapture);
    assert!(ui.capture_screen_requested);
    step(&mut app, &mut ui, key(KeyCode::Char('/')));
    let (events, _, _) = step(&mut app, &mut ui, GlimEvent::FilterMenuShow);
    assert!(events.is_empty());
    assert!(ui.filter_input_active);
}

#[test]
fn typing_a_filter_narrows_the_projects() {
    let (mut app, mut ui) = loaded_app();
    step(&mut app, &mut ui, GlimEvent::FilterMenuShow);
    let (events, _, _) = step(&mut app, &mut ui, key(KeyCode::Char('L')));
    assert!(matches!(events.as_slice(), [GlimEvent::FilterInputChar(s)] if s == "L"));
    step(&mut app, &mut ui, GlimEvent::FilterInputChar("L".to_string()));
    assert_eq!(ui.temporary_filter.as_deref(), Some("L"));
    let (projects, indices) = app.filtered_projects(&ui.temporary_filter);
    assert_eq!(indices, vec![1]);
    assert_eq!(projects[0].id.value(), 1);
    let (all, indices) = app.filtered_projects(&Some("  ".to_string()));
    assert_eq!((all.len(), indices), (2, vec![0, 1]));
    let (_, none) = app.filtered_projects(&Some("zzz".to_string()));
    assert!(none.is_empty());
}

#[test]
fn config_popup_edits_and_applies() {
    let mut app = GlimApp::new();
    let mut ui = StatefulWidgets::new();
    let config = GlimConfig { gitlab_url: "https://g".to_string(), gitlab_token: "t".to_string(), search_filter: None, log_level: None };
    let (_, _) = ui.apply(&GlimEvent::ConfigOpen, app.store(), &config);
    let out = app.apply(GlimEvent::ConfigOpen, &mut ui, NOW);
    assert!(out.input_events.is_empty());
    // type into the url field
    for c in ['/', 'x'] {
        let out = app.apply(key(KeyCode::Char(c)), &mut ui, NOW);
        assert!(matches!(out.command, UiCommand::EditConfigInput(_)));
    }
    let out = app.apply(key(KeyCode::Backspace), &mut ui, NOW);
    assert!(matches!(out.command, UiCommand::EditConfigInput(_)));
    let out = app.apply(key(KeyCode::Enter), &mut ui, NOW);
    assert!(matches!(out.input_events.as_slice(), [GlimEvent::ConfigApply]));
    let out = app.apply(GlimEvent::ConfigApply, &mut ui, NOW);
    match out.actions.as_slice() {
        [AppAction::ApplyConfig(c)] => {
            assert_eq!(c.gitlab_url, "https://g/");
            assert_eq!(c.log_level.as_deref(), Some("Error"));
        },
        other => panic!("unexpected {other:?}"),
    }
}

#[test]
fn applying_config_outcomes() {
    let config = GlimConfig::default();
    let events = config_applied(config.clone(), Ok(()));
    assert!(matches!(events.as_slice(), [GlimEvent::ConfigUpdate(_), GlimEvent::ConfigClose]));
    let events = config_applied(config, Err(ClientError::invalid_url("x".to_string())));
    assert!(matches!(events.as_slice(), [GlimEvent::AppError(GlimError::GeneralError(m))] if m == "Invalid URL: x"));
}

#[test]
fn effects_of_events() {
    assert_eq!(effect_for_event(&GlimEvent::GlitchOverride(GlitchState::Active)), Some(FxRequest::RampedUpGlitch));
    assert_eq!(effect_for_event(&GlimEvent::GlitchOverride(GlitchState::Inactive)), Some(FxRequest::DefaultGlitch));
    assert_eq!(effect_for_event(&GlimEvent::ConfigClose), Some(FxRequest::ClosePopup(FxId::ConfigPopup)));
    assert_eq!(effect_for_event(&GlimEvent::AppTick), None);
}

#[test]
fn project_details_popup_follows_keys() {
    let (mut app, mut ui) = loaded_app();
    step(&mut app, &mut ui, GlimEvent::PipelinesLoaded(vec![pipeline(10, 2, PipelineStatus::Success), pipeline(11, 2, PipelineStatus::Failed)]));
    let (events, _, _) = step(&mut app, &mut ui, GlimEvent::ProjectDetailsOpen(ProjectId::new(2)));
    assert!(events.iter().any(|e| matches!(e, GlimEvent::PipelineSelected(id) if id.value() == 10)));
    let (events, _, _) = step(&mut app, &mut ui, key(KeyCode::Down));
    assert!(matches!(events.as_slice(), [GlimEvent::PipelineSelected(id)] if id.value() == 11));
    let (events, _, _) = step(&mut app, &mut ui, key(KeyCode::Down));
    assert!(matches!(events.as_slice(), [GlimEvent::PipelineSelected(id)] if id.value() == 10), "selection wraps around");
    let (events, _, effects) = step(&mut app, &mut ui, key(KeyCode::Esc));
    assert!(matches!(events.as_slice(), [GlimEvent::ProjectDetailsClose]));
    assert!(effects.is_empty());
    let (_, _, effects) = step(&mut app, &mut ui, GlimEvent::ProjectDetailsClose);
    assert_eq!(effects, vec![FxRequest::ClosePopup(FxId::ProjectDetailsPopup)]);
    assert!(ui.project_details.is_none());
}

#[test]
fn notification_names_the_stored_project() {
    let mut app = GlimApp::new();
    let mut ui = StatefulWidgets::new();
    step(&mut app, &mut ui, GlimEvent::ProjectsLoaded(vec![project(7, "group/tool", NOW)]));
    let about = |p: u64| Notice {
        level: NoticeLevel::Error,
        message: NoticeMessage::GitlabGetJobsError(ProjectId::new(p), PipelineId::new(1), "boom".to_string()),
    };
    assert_eq!(Notification::project_name(&about(7), app.store()), Some("group/tool".to_string()));
    assert_eq!(Notification::project_name(&about(8), app.store()), None);
    let general = Notice { level: NoticeLevel::Info, message: NoticeMessage::GeneralMessage("hi".to_string()) };
    assert_eq!(Notification::project_name(&general, app.store()), None);
}

#[test]
fn selection_down_then_up_comes_back() {
    let (mut app, mut ui) = loaded_app();
    assert_eq!(ui.project_selected, Some(0));
    let (events, _, _) = step(&mut app, &mut ui, GlimEvent::ProjectNext);
    assert_eq!(ui.project_selected, Some(1));
    assert!(events.iter().any(|e| matches!(e, GlimEvent::ProjectSelected(id) if id.value() == 1)));
    // the last row stays selected when moving further down
    step(&mut app, &mut ui, GlimEvent::ProjectNext);
    assert_eq!(ui.project_selected, Some(1));
    let (events, _, _) = step(&mut app, &mut ui, GlimEvent::ProjectPrevious);
    assert_eq!(ui.project_selected, Some(0));
    assert!(events.iter().any(|e| matches!(e, GlimEvent::ProjectSelected(id) if id.value() == 2)));
}

#[test]
fn loaded_projects_are_announced_as_described() {
    let mut app = GlimApp::new();
    let mut ui = StatefulWidgets::new();
    let (events, _, _) = step(&mut app, &mut ui, GlimEvent::ProjectsLoaded(vec![project(3, "group/gamma", NOW)]));
    let announced: Vec<&glim::domain::Project> = events
        .iter()
        .filter_map(|e| match e {
            GlimEvent::ProjectUpdated(p) => Some(p.as_ref()),
            _ => None,
        })
        .collect();
    assert_eq!(announced.len(), 1);
    assert_eq!(announced[0].id.value(), 3);
    assert_eq!(announced[0].path, "group/gamma");
    // the announcement is the project as described, before its pipelines were requested
    assert!(announced[0].pipelines.is_none());
}
