use glim::client::{
    build_pipelines_url, build_projects_url, job_log_fetched, job_trace_url, jobs_fetched,
    jobs_urls, merge_jobs, pipelines_fetched, poll_tick, projects_fetched, startup_event, config_replaced, ClientConfig,
    PipelineQuery, PollTimer, PollWork, ProjectQuery,
};
use glim::app::AppAction;
use glim::domain::{CommitDto, JobDto, PipelineStatus};
use glim::error::{classify_error_response, glim_error_from_client, ClientError, GitlabErrorBody, GlimError, HttpFailure};
use glim::event::GlimEvent;
use glim::ids::{JobId, PipelineId, ProjectId};

fn test_config() -> ClientConfig {
    ClientConfig::new("https://gitlab.example.com", "test-token")
}

fn job(id: u64, name: &str) -> JobDto {
    JobDto {
        id: JobId::new(id),
        name: name.to_string(),
        stage: "test".to_string(),
        commit: CommitDto { title: "t".to_string(), author_name: "a".to_string() },
        status: PipelineStatus::Success,
        created_at: 0,
        started_at: None,
        finished_at: None,
        web_url: format!("https://gitlab.example.com/jobs/{id}"),
    }
}

#[test]
fn test_api_creation() {
    let config = test_config();
    assert!(config.validate().is_ok());
}

#[test]
fn test_api_creation_invalid_config() {
    let config = ClientConfig::new("", "test-token");
    assert!(config.validate().is_err());
}

#[test]
fn test_config_validation_in_integration() {
    assert!(ClientConfig::new("not-a-url", "token").validate().is_err());
    assert!(ClientConfig::new("https://gitlab.com", "").validate().is_err());
    assert!(ClientConfig::new("https://gitlab.com", "token").validate().is_ok());
}

#[test]
fn validation_errors_name_the_problem() {
    match ClientConfig::new("", "t").validate() {
        Err(ClientError::ConfigValidation { field, .. }) => assert_eq!(field, "base_url"),
        other => panic!("unexpected {other:?}"),
    }
    match ClientConfig::new("ftp://x", "t").validate() {
        Err(ClientError::InvalidUrl { url }) => assert_eq!(url, "ftp://x"),
        other => panic!("unexpected {other:?}"),
    }
    match ClientConfig::new("http://x", "").validate() {
        Err(ClientError::ConfigValidation { field, .. }) => assert_eq!(field, "private_token"),
        other => panic!("unexpected {other:?}"),
    }
}

#[test]
fn test_build_projects_url() {
    let mut query = ProjectQuery::new()
        .with_search_filter(Some("frontend".to_string()))
        .with_per_page(50);
    query.include_statistics = true;
    query.membership = true;
    query.search_namespaces = true;

    let url = build_projects_url("https://gitlab.example.com", &query);

    assert!(url.contains("https://gitlab.example.com/projects?"));
    assert!(url.contains("search_namespaces=true"));
    assert!(url.contains("search=frontend"));
    assert!(url.contains("per_page=50"));
    assert!(url.contains("statistics=true"));
    assert!(url.contains("archived=false"));
    assert!(url.contains("membership=true"));
}

#[test]
fn projects_url_exact_text() {
    let query = ProjectQuery::new();
    let url = build_projects_url("https://g", &query);
    assert_eq!(
        url,
        "https://g/projects?search_namespaces=true&statistics=true&archived=false&membership=true&per_page=100"
    );
    let mut bare = ProjectQuery::new();
    bare.include_statistics = false;
    bare.archived = true;
    bare.membership = false;
    assert_eq!(build_projects_url("https://g", &bare), "https://g/projects?search_namespaces=true&per_page=100");
}

#[test]
fn projects_url_with_activity_date() {
    let query = ProjectQuery::new().with_updated_after(Some(1_672_531_200_000));
    let url = build_projects_url("https://g", &query);
    assert!(url.contains("&last_activity_after=2023-01-01T00:00:00+00:00"));
}

#[test]
fn test_build_pipelines_url() {
    let project_id = ProjectId::new(123);
    let query = PipelineQuery::new().with_per_page(60);
    let url = build_pipelines_url("https://gitlab.example.com", project_id, &query);
    assert_eq!(url, "https://gitlab.example.com/projects/123/pipelines?per_page=60");
}

#[test]
fn test_build_pipelines_url_with_date() {
    let project_id = ProjectId::new(123);
    let updated_after = chrono::DateTime::parse_from_rfc3339("2023-01-01T00:00:00Z")
        .unwrap()
        .with_timezone(&chrono::Utc);
    let query = PipelineQuery::new()
        .with_per_page(60)
        .with_updated_after(Some(updated_after.timestamp_millis()));
    let url = build_pipelines_url("https://gitlab.example.com", project_id, &query);
    assert!(url.contains("updated_after=2023-01-01T00:00:00"));
}

#[test]
fn job_urls() {
    let (jobs, bridges) = jobs_urls("https://g", ProjectId::new(1), PipelineId::new(2));
    assert_eq!(jobs, "https://g/projects/1/pipelines/2/jobs");
    assert_eq!(bridges, "https://g/projects/1/pipelines/2/bridges");
    assert_eq!(job_trace_url("https://g", ProjectId::new(1), JobId::new(9)), "https://g/projects/1/jobs/9/trace");
}

#[test]
fn default_queries_follow_the_config() {
    let config = test_config();
    let q = config.default_project_query();
    assert!(q.search_filter.is_none());
    assert_eq!(q.per_page, 100);
    let with_filter = ClientConfig { search_filter: Some("ops".to_string()), ..test_config() };
    assert_eq!(with_filter.default_project_query().search_filter, Some("ops".to_string()));
    assert_eq!(config.default_pipeline_query().per_page, 100);
}

#[test]
fn test_error_handling() {
    let error = classify_error_response(401, "", None, None);
    assert!(matches!(error, ClientError::Authentication));
    let error = classify_error_response(404, "", None, None);
    assert!(matches!(error, ClientError::NotFound { .. }));
    let error = classify_error_response(429, "", None, None);
    assert!(matches!(error, ClientError::RateLimit { .. }));
}

#[test]
fn error_body_formats() {
    let body = GitlabErrorBody { error: "invalid_token".to_string(), error_description: Some("Token is invalid".to_string()) };
    match classify_error_response(500, "{}", Some(body), None) {
        ClientError::GitlabApi { message } => assert_eq!(message, "HTTP 500: invalid_token Token is invalid"),
        other => panic!("unexpected {other:?}"),
    }
    match classify_error_response(500, "{}", None, Some("Project not found".to_string())) {
        ClientError::GitlabApi { message } => assert_eq!(message, "HTTP 500: Project not found"),
        other => panic!("unexpected {other:?}"),
    }
    match classify_error_response(502, "Bad Gateway", None, None) {
        ClientError::GitlabApi { message } => assert_eq!(message, "HTTP 502: Bad Gateway"),
        other => panic!("unexpected {other:?}"),
    }
}

#[test]
fn test_error_creation() {
    let err = ClientError::config("Invalid token".to_string());
    assert!(matches!(err, ClientError::Config(_)));
    assert_eq!(err.message(), "Configuration error: Invalid token");
}

#[test]
fn test_gitlab_api_error() {
    let err = ClientError::gitlab_api("Project not found".to_string());
    assert!(matches!(err, ClientError::GitlabApi { .. }));
    assert_eq!(err.message(), "GitLab API error: Project not found");
}

#[test]
fn test_retryable_errors() {
    assert!(ClientError::Timeout.is_retryable());
    assert!(ClientError::rate_limit(None).is_retryable());
    assert!(!ClientError::Authentication.is_retryable());
    assert!(!ClientError::config("test".to_string()).is_retryable());
}

#[test]
fn test_network_errors() {
    assert!(ClientError::Timeout.is_network_error());
    assert!(!ClientError::Authentication.is_network_error());
    assert!(!ClientError::config("test".to_string()).is_network_error());
}

#[test]
fn http_failures_by_kind() {
    let f = |t: bool, c: bool, r: bool| ClientError::Http(HttpFailure { message: "x".to_string(), is_timeout: t, is_connect: c, is_request: r });
    assert!(f(true, false, false).is_retryable());
    assert!(f(false, true, false).is_retryable());
    assert!(!f(false, false, true).is_retryable());
    assert!(f(false, false, true).is_network_error());
    assert!(!f(false, false, false).is_network_error());
}

#[test]
fn client_errors_reported_to_the_user() {
    let reported = |e: ClientError| match glim_error_from_client(&e) {
        GlimError::GeneralError(s) => s,
        other => panic!("unexpected {other:?}"),
    };
    assert_eq!(reported(ClientError::Authentication), "Authentication failed");
    assert_eq!(reported(ClientError::not_found("Resource".to_string())), "Not found: Resource");
    assert_eq!(reported(ClientError::rate_limit(Some(5))), "Rate limit exceeded");
    assert_eq!(reported(ClientError::invalid_url("u".to_string())), "Invalid URL: u");
    assert_eq!(reported(ClientError::Timeout), "Request timeout");
}

#[test]
fn merged_jobs_are_ordered_by_id() {
    let jobs = vec![job(5, "b"), job(1, "a"), job(3, "c")];
    let bridges = vec![job(4, "trigger"), job(3, "dup")];
    let merged = merge_jobs(jobs, bridges);
    let ids: Vec<u64> = merged.iter().map(|j| j.id.value()).collect();
    assert_eq!(ids, vec![1, 3, 3, 4, 5]);
    assert_eq!(merged[1].name, "c");
    assert_eq!(merged[2].name, "dup");
}

#[test]
fn fetch_outcomes_become_events() {
    assert!(matches!(projects_fetched(Ok(vec![])), GlimEvent::ProjectsLoaded(p) if p.is_empty()));
    assert!(matches!(pipelines_fetched(Err(ClientError::Timeout)), GlimEvent::AppError(GlimError::GeneralError(s)) if s == "Request timeout"));
    match jobs_fetched(ProjectId::new(1), PipelineId::new(2), Ok(vec![job(7, "x")])) {
        GlimEvent::JobsLoaded(p, q, js) => {
            assert_eq!((p, q, js.len()), (ProjectId::new(1), PipelineId::new(2), 1));
        },
        other => panic!("unexpected {other:?}"),
    }
    match job_log_fetched(ProjectId::new(1), JobId::new(2), Ok("log".to_string())) {
        GlimEvent::JobLogDownloaded(_, _, trace) => assert_eq!(trace, "log"),
        other => panic!("unexpected {other:?}"),
    }
}

#[test]
fn poller_ticks() {
    assert!(matches!(poll_tick(PollTimer::Projects), PollWork::Fetch(AppAction::FetchProjects(None))));
    assert!(matches!(poll_tick(PollTimer::ActiveJobs), PollWork::Dispatch(GlimEvent::JobsActiveFetch)));
}

#[test]
fn test_startup_asks_for_configuration() {
    let unset = glim::config::GlimConfig::default();
    assert!(matches!(startup_event(&unset), GlimEvent::ConfigOpen));

    let mut config = glim::config::GlimConfig::default();
    config.gitlab_url = "https://gitlab.example.com/api/v4".to_string();
    config.gitlab_token = "secret".to_string();
    assert!(matches!(startup_event(&config), GlimEvent::ProjectsFetch));

    config.gitlab_url = "gitlab.example.com".to_string();
    assert!(matches!(startup_event(&config), GlimEvent::ConfigOpen));
}

#[test]
fn test_error_conversion() {
    let client_error = ClientError::config("Test error".to_string());
    let glim_error = glim_error_from_client(&client_error);
    match glim_error {
        GlimError::GeneralError(msg) => assert!(msg.contains("Test error")),
        _ => panic!("Expected GeneralError"),
    }
}

#[test]
fn config_replaced_keeps_old_on_failure() {
    let old = ClientConfig::new("https://a.example", "t1");
    let (kept, result) = config_replaced(old.clone(), ClientConfig::new("", "t2"));
    assert!(matches!(result, Err(ClientError::ConfigValidation { .. })));
    assert_eq!(kept.base_url, "https://a.example");
    assert_eq!(kept.private_token, "t1");
    let (now, result) = config_replaced(old, ClientConfig::new("https://b.example", "t2"));
    assert!(result.is_ok());
    assert_eq!(now.base_url, "https://b.example");
}
