//! Events exchanged between the parts of the application.
use vstd::prelude::*;

use crate::config::GlimConfig;
use crate::domain::{JobDto, PipelineDto, Project, ProjectDto};
use crate::error::GlimError;
use crate::ids::{JobId, PipelineId, ProjectId};

verus! {

/// A key of the keyboard.
#[derive(Clone, Copy, Debug, PartialEq, Eq, Structural)]
pub enum KeyCode {
    Char(char),
    Enter,
    Esc,
    Up,
    Down,
    Left,
    Right,
    Tab,
    BackTab,
    Backspace,
    Delete,
    Home,
    End,
    F(u8),
    /// Any other key.
    Other,
}

/// No modifier key held.
pub const NO_MODIFIERS: u8 = 0;

/// The Shift key, as a bit of [`KeyEvent::modifiers`].
pub const SHIFT: u8 = 1;

/// The Control key, as a bit of [`KeyEvent::modifiers`].
pub const CONTROL: u8 = 2;

/// The Alt key, as a bit of [`KeyEvent::modifiers`].
pub const ALT: u8 = 4;

/// The Meta key, as a bit of [`KeyEvent::modifiers`].
pub const META: u8 = 32;

/// A key press.
#[derive(Clone, Copy, Debug, PartialEq, Eq, Structural)]
pub struct KeyEvent {
    pub code: KeyCode,
    /// The modifier keys held, as the terminal reports them: shift 1,
    /// control 2, alt 4, super 8, hyper 16, meta 32.
    pub modifiers: u8,
}

/// Intensity of the screen glitch effect.
#[derive(Clone, Copy, Debug, PartialEq, Eq, Structural)]
pub enum GlitchState {
    Active,
    Inactive,
}

/// Everything that happens in the application travels as one of these.
#[derive(Clone, Debug)]
pub enum GlimEvent {
    AppError(GlimError),
    AppExit,
    AppTick,
    ApplyTemporaryFilter(Option<String>),
    ConfigApply,
    ConfigClose,
    ConfigOpen,
    ConfigUpdate(GlimConfig),
    FilterClear,
    FilterInputBackspace,
    FilterInputChar(String),
    FilterMenuClose,
    FilterMenuShow,
    GlitchOverride(GlitchState),
    InputKey(KeyEvent),
    JobLogDownloaded(ProjectId, JobId, String),
    JobLogFetch(ProjectId, PipelineId),
    JobOpenUrl(ProjectId, PipelineId, JobId),
    JobsActiveFetch,
    JobsFetch(ProjectId, PipelineId),
    JobsLoaded(ProjectId, PipelineId, Vec<JobDto>),
    LogEntry(String),
    NotificationDismiss,
    NotificationLast,
    PipelineActionsClose,
    PipelineActionsOpen(ProjectId, PipelineId),
    PipelineOpenUrl(ProjectId, PipelineId),
    PipelineSelected(PipelineId),
    PipelinesFetch(ProjectId),
    PipelinesLoaded(Vec<PipelineDto>),
    ProjectDetailsClose,
    ProjectDetailsOpen(ProjectId),
    ProjectFetch(ProjectId),
    ProjectNext,
    ProjectOpenUrl(ProjectId),
    ProjectPrevious,
    ProjectSelected(ProjectId),
    /// A project changed; it carries the project as it now is.
    ProjectUpdated(Box<Project>),
    ProjectsFetch,
    ProjectsLoaded(Vec<ProjectDto>),
    ScreenCapture,
    ScreenCaptureToClipboard(String),
}

/// Loaded-data events with nothing in them are not delivered to the application.
pub open spec fn is_empty_load(e: GlimEvent) -> bool {
    match e {
        GlimEvent::ProjectsLoaded(p) => p@.len() == 0,
        GlimEvent::PipelinesLoaded(p) => p@.len() == 0,
        GlimEvent::JobsLoaded(_, _, j) => j@.len() == 0,
        _ => false,
    }
}

/// Whether the event loop hands the event on: empty loads are dropped.
pub fn should_deliver(e: &GlimEvent) -> (r: bool)
    ensures
        r == !is_empty_load(*e),
{
    match e {
        GlimEvent::ProjectsLoaded(p) => p.len() != 0,
        GlimEvent::PipelinesLoaded(p) => p.len() != 0,
        GlimEvent::JobsLoaded(_, _, j) => j.len() != 0,
        _ => true,
    }
}

/// The event announcing freshly loaded projects.
pub fn projects_loaded(projects: Vec<ProjectDto>) -> (r: GlimEvent)
    ensures
        r == GlimEvent::ProjectsLoaded(projects),
{
    GlimEvent::ProjectsLoaded(projects)
}

/// The event announcing freshly loaded pipelines.
pub fn pipelines_loaded(pipelines: Vec<PipelineDto>) -> (r: GlimEvent)
    ensures
        r == GlimEvent::PipelinesLoaded(pipelines),
{
    GlimEvent::PipelinesLoaded(pipelines)
}

/// The event announcing freshly loaded jobs of a pipeline.
pub fn jobs_loaded(project_id: ProjectId, pipeline_id: PipelineId, jobs: Vec<JobDto>) -> (r:
    GlimEvent)
    ensures
        r == GlimEvent::JobsLoaded(project_id, pipeline_id, jobs),
{
    GlimEvent::JobsLoaded(project_id, pipeline_id, jobs)
}

} // verus!
