use glim::domain::{Job, Pipeline, PipelineStatus, Project, ProjectDto, StatisticsDto};
use glim::error::{GlimError, JsonErrorCategory};
use glim::event::{jobs_loaded, pipelines_loaded, projects_loaded, should_deliver, GlimEvent, KeyCode, KeyEvent, NO_MODIFIERS};
use glim::ids::{JobId, PipelineId, ProjectId};
use glim::input::{
    config_process, pipeline_actions_process, InputContext, InputMultiplexer, InputProcessor,
    NormalModeProcessor, PipelineAction, ProjectDetailsProcessor, UiCommand,
};
use glim::modulo::{modulo, Modulo};
use glim::notice::{NoticeLevel, NoticeMessage, NoticeService};
use glim::store::{is_older_than_7d, ProjectStore};
use glim::text::{decimal_string, str_contains, trim_str};

fn key(code: KeyCode) -> KeyEvent {
    KeyEvent { code, modifiers: NO_MODIFIERS }
}

#[test]
fn modulo_wraps() {
    assert_eq!(modulo(7, 3), 1);
    assert_eq!(modulo(3, 3), 0);
    assert_eq!(modulo(5, 0), 0);
    assert_eq!((-1i32).modulo(4), 3);
    assert_eq!((-5i32).modulo(4), 3);
    assert_eq!(4i32.modulo(4), 0);
    assert_eq!((-1isize).modulo(3), 2);
    assert_eq!(7u32.modulo(5), 2);
    assert_eq!(7usize.modulo(5), 2);
    assert_eq!(3i32.modulo(0), 0);
}

#[test]
fn notices_errors_first_then_in_order() {
    let mut notices = NoticeService::new();
    assert!(notices.pop_notice().is_none());
    notices.push_notice(NoticeLevel::Info, NoticeMessage::GeneralMessage("i1".to_string()));
    notices.push_notice(NoticeLevel::Info, NoticeMessage::GeneralMessage("i2".to_string()));
    notices.push_notice(NoticeLevel::Error, NoticeMessage::ConfigError("e1".to_string()));
    assert!(notices.has_error());
    let order: Vec<String> = std::iter::from_fn(|| notices.pop_notice())
        .map(|n| match n.message {
            NoticeMessage::GeneralMessage(s) | NoticeMessage::ConfigError(s) => s,
            _ => String::new(),
        })
        .collect();
    assert_eq!(order, vec!["e1", "i1", "i2"]);
    assert!(!notices.has_error());
    assert!(matches!(notices.last_notification(), Some(n) if n.level == NoticeLevel::Info));
}

#[test]
fn errors_become_notices() {
    let mut notices = NoticeService::new();
    notices.apply(&GlimEvent::AppError(GlimError::InvalidGitlabToken));
    assert!(!notices.has_error(), "token errors are not shown as notices");
    notices.apply(&GlimEvent::AppError(GlimError::JsonDeserializeError(JsonErrorCategory::Data, "x".to_string())));
    assert!(notices.has_error());
    notices.apply(&GlimEvent::JobLogDownloaded(ProjectId::new(1), JobId::new(2), "log".to_string()));
    let first = notices.pop_notice().unwrap();
    assert_eq!(first.level, NoticeLevel::Error);
    let second = notices.pop_notice().unwrap();
    assert!(matches!(second.message, NoticeMessage::GeneralMessage(s) if s == "Job log downloaded"));
}

#[test]
fn error_messages() {
    assert_eq!(GlimError::InvalidGitlabToken.message(), "The provided Gitlab token is invalid.");
    assert_eq!(GlimError::GeneralError("x".to_string()).message(), "x");
    assert_eq!(
        GlimError::GitlabGetJobsError(ProjectId::new(1), PipelineId::new(2), "e".to_string()).message(),
        "project_id=1/pipeline_id=2: e"
    );
}

#[test]
fn normal_mode_keys() {
    let p = NormalModeProcessor { selected: Some(ProjectId::new(4)) };
    assert!(matches!(p.process(&key(KeyCode::Enter)), Some(GlimEvent::ProjectDetailsOpen(id)) if id.value() == 4));
    assert!(matches!(p.process(&key(KeyCode::Char('q'))), Some(GlimEvent::AppExit)));
    assert!(matches!(p.process(&key(KeyCode::Char('j'))), Some(GlimEvent::ProjectNext)));
    assert!(matches!(p.process(&key(KeyCode::F(12))), Some(GlimEvent::ScreenCapture)));
    assert!(p.process(&key(KeyCode::Char('z'))).is_none());
    let none = NormalModeProcessor::new();
    assert!(none.process(&key(KeyCode::Enter)).is_none());
    let events = p.process_filter_input(&key(KeyCode::Esc));
    assert!(matches!(events.as_slice(), [GlimEvent::ApplyTemporaryFilter(None), GlimEvent::FilterMenuClose]));
}

#[test]
fn details_and_actions_keys() {
    let d = ProjectDetailsProcessor { project_id: ProjectId::new(1), selected: Some(PipelineId::new(2)) };
    assert!(matches!(d.process(&key(KeyCode::Down)), (None, UiCommand::SelectPipeline(1))));
    assert!(matches!(d.process(&key(KeyCode::Enter)), (Some(GlimEvent::PipelineActionsOpen(p, q)), UiCommand::Nothing) if p.value() == 1 && q.value() == 2));
    let (events, cmd) = pipeline_actions_process(Some(PipelineAction::ProjectOpenUrl(ProjectId::new(3))), &key(KeyCode::Enter));
    assert!(matches!(events.as_slice(), [GlimEvent::ProjectOpenUrl(_), GlimEvent::PipelineActionsClose]));
    assert_eq!(cmd, UiCommand::Nothing);
    assert!(matches!(config_process(true, &key(KeyCode::Left)), (None, UiCommand::ConfigCyclePrevious)));
    assert!(matches!(config_process(false, &key(KeyCode::Left)), (None, UiCommand::EditConfigInput(_))));
    assert!(matches!(config_process(false, &key(KeyCode::Tab)), (None, UiCommand::ConfigSelectNext)));
}

#[test]
fn mode_stack_follows_popups() {
    let ctx = InputContext { filter_input_active: false, config_field_is_dropdown: false, selected_pipeline_action: None };
    let mut input = InputMultiplexer::new();
    input.push(InputProcessor::Normal(NormalModeProcessor::new()));
    input.apply(&GlimEvent::ProjectSelected(ProjectId::new(5)), &ctx);
    input.apply(&GlimEvent::ConfigOpen, &ctx);
    let out = input.apply(&GlimEvent::InputKey(key(KeyCode::Esc)), &ctx);
    assert!(matches!(out.events.as_slice(), [GlimEvent::ConfigClose]));
    input.apply(&GlimEvent::ConfigClose, &ctx);
    let out = input.apply(&GlimEvent::InputKey(key(KeyCode::Char('o'))), &ctx);
    assert!(matches!(out.events.as_slice(), [GlimEvent::ProjectDetailsOpen(id)] if id.value() == 5));
    input.pop_processor();
    let out = input.apply(&GlimEvent::InputKey(key(KeyCode::Char('q'))), &ctx);
    assert!(out.events.is_empty(), "with no mode left keys do nothing");
}

#[test]
fn empty_loads_are_not_delivered() {
    assert!(!should_deliver(&GlimEvent::ProjectsLoaded(vec![])));
    assert!(!should_deliver(&GlimEvent::JobsLoaded(ProjectId::new(1), PipelineId::new(1), vec![])));
    assert!(should_deliver(&GlimEvent::AppTick));
}

#[test]
fn seven_day_boundary() {
    let day = 86_400_000i64;
    assert!(!is_older_than_7d(0, 7 * day));
    assert!(!is_older_than_7d(0, 8 * day - 1));
    assert!(is_older_than_7d(0, 8 * day));
}

fn sample_pipeline(status: PipelineStatus, jobs: Option<Vec<Job>>) -> Pipeline {
    Pipeline {
        id: PipelineId::new(1),
        project_id: ProjectId::new(1),
        status,
        branch: "main".to_string(),
        url: String::new(),
        updated_at: 0,
        commit: None,
        jobs,
    }
}

fn sample_job(id: u64, status: PipelineStatus) -> Job {
    Job { id: JobId::new(id), name: String::new(), status, url: String::new() }
}

#[test]
fn pipeline_queries() {
    let p = sample_pipeline(PipelineStatus::Success, Some(vec![sample_job(1, PipelineStatus::Success), sample_job(2, PipelineStatus::Failed), sample_job(3, PipelineStatus::Failed)]));
    assert_eq!(p.failed_job().map(|j| j.id.value()), Some(2));
    assert!(!p.has_active_jobs());
    assert_eq!(p.job(JobId::new(3)).map(|j| j.id.value()), Some(3));
    assert!(p.job(JobId::new(9)).is_none());
    let running = sample_pipeline(PipelineStatus::Success, Some(vec![sample_job(1, PipelineStatus::Pending)]));
    assert!(running.has_active_jobs());
    let project = Project {
        id: ProjectId::new(1),
        path: "a".to_string(),
        description: None,
        url: String::new(),
        last_activity_at: 0,
        commit_count: 0,
        repo_size_kb: 0,
        artifacts_size_kb: 0,
        pipelines: Some(vec![p, running]),
    };
    assert!(project.has_active_pipelines());
    assert!(project.pipeline(PipelineId::new(1)).is_some());
    assert!(PipelineStatus::WaitingForResource.is_active());
    assert!(!PipelineStatus::Manual.is_active());
}

#[test]
fn store_starts_empty() {
    let store = ProjectStore::new();
    assert!(store.sorted_projects().is_empty());
    assert!(store.find(ProjectId::new(1)).is_none());
}

#[test]
fn text_helpers() {
    assert_eq!(decimal_string(0), "0");
    assert_eq!(decimal_string(1234567890), "1234567890");
    assert_eq!(trim_str("  a b \t"), "a b");
    assert_eq!(trim_str(" \u{2003}x\u{2003}"), "x");
    assert!(str_contains("group/project", "p/p"));
    assert!(str_contains("abc", ""));
    assert!(!str_contains("ab", "abc"));
}

#[test]
fn ids_round_trip() {
    assert_eq!(ProjectId::new(9).value(), 9);
    assert_eq!(PipelineId::new(8).value(), 8);
    assert_eq!(JobId::new(7).value(), 7);
}

#[test]
fn test_loaded_events_wrap_their_data() {
    assert!(matches!(projects_loaded(Vec::new()), GlimEvent::ProjectsLoaded(p) if p.is_empty()));
    assert!(matches!(pipelines_loaded(Vec::new()), GlimEvent::PipelinesLoaded(p) if p.is_empty()));
    match jobs_loaded(ProjectId::new(3), PipelineId::new(4), Vec::new()) {
        GlimEvent::JobsLoaded(p, q, j) => {
            assert_eq!(p.value(), 3);
            assert_eq!(q.value(), 4);
            assert!(j.is_empty());
        },
        _ => panic!("expected JobsLoaded"),
    }
    assert!(!should_deliver(&projects_loaded(Vec::new())));
}

#[test]
fn project_from_api_data() {
    let dto = ProjectDto {
        id: ProjectId::new(5),
        path_with_namespace: "group/sub/tool".to_string(),
        description: Some("a tool".to_string()),
        default_branch: "main".to_string(),
        ssh_url_to_repo: String::new(),
        web_url: "https://g/group/sub/tool".to_string(),
        last_activity_at: 42,
        statistics: StatisticsDto { commit_count: 12, job_artifacts_size: 3 * 1024 * 1024, repository_size: 2048 + 100 },
    };
    let p = Project::from_dto(dto);
    assert_eq!(p.commit_count, 12);
    assert_eq!(p.repo_size_kb, 2);
    assert_eq!(p.artifacts_size_kb, 3 * 1024);
    assert!(p.pipelines.is_none());
    assert_eq!(p.path_and_name(), ("group/sub".to_string(), "tool".to_string()));
    let mut q = p.clone();
    q.path = "tool".to_string();
    assert_eq!(q.path_and_name(), (String::new(), "tool".to_string()));
    q.path = "group/".to_string();
    assert_eq!(q.path_and_name(), ("group".to_string(), String::new()));
}
