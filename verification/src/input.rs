//! Keyboard handling: what each mode makes of a key press, and the stack of
//! modes that follows the popups as they open and close.
use vstd::prelude::*;

use crate::event::{GlimEvent, KeyCode, KeyEvent};
use crate::ids::{JobId, PipelineId, ProjectId};

verus! {

/// An action offered by the pipeline actions popup.
#[derive(Clone, Copy, Debug, PartialEq, Eq, Structural)]
pub enum PipelineAction {
    /// Open the failed job in the browser.
    JobOpenUrl(ProjectId, PipelineId, JobId),
    /// Open the pipeline in the browser.
    PipelineOpenUrl(ProjectId, PipelineId),
    /// Open the project in the browser.
    ProjectOpenUrl(ProjectId),
    /// Copy the log of the failed job to the clipboard.
    JobLogFetch(ProjectId, PipelineId),
}

/// The event that carries out a pipeline action.
pub open spec fn action_event(a: PipelineAction) -> GlimEvent {
    match a {
        PipelineAction::JobOpenUrl(p, q, j) => GlimEvent::JobOpenUrl(p, q, j),
        PipelineAction::PipelineOpenUrl(p, q) => GlimEvent::PipelineOpenUrl(p, q),
        PipelineAction::ProjectOpenUrl(p) => GlimEvent::ProjectOpenUrl(p),
        PipelineAction::JobLogFetch(p, q) => GlimEvent::JobLogFetch(p, q),
    }
}

impl PipelineAction {
    /// The event that carries out the action.
    pub fn to_event(&self) -> (r: GlimEvent)
        ensures
            r == action_event(*self),
    {
        match *self {
            PipelineAction::JobOpenUrl(p, q, j) => GlimEvent::JobOpenUrl(p, q, j),
            PipelineAction::PipelineOpenUrl(p, q) => GlimEvent::PipelineOpenUrl(p, q),
            PipelineAction::ProjectOpenUrl(p) => GlimEvent::ProjectOpenUrl(p),
            PipelineAction::JobLogFetch(p, q) => GlimEvent::JobLogFetch(p, q),
        }
    }
}

/// A change to the widgets that a key press asks for.
#[derive(Clone, Copy, Debug, PartialEq, Eq, Structural)]
pub enum UiCommand {
    Nothing,
    /// Move the pipeline selection of the project details popup by this step.
    SelectPipeline(i32),
    /// Move the selection of the pipeline actions popup by this step.
    SelectPipelineAction(i32),
    ConfigSelectNext,
    ConfigSelectPrevious,
    ConfigCycleNext,
    ConfigCyclePrevious,
    /// Hand the key to the text of the selected configuration field.
    EditConfigInput(KeyEvent),
}

/// What a key press or an event leads to: events to dispatch, in order, and
/// a change to the widgets.
pub struct InputOutcome {
    pub events: Vec<GlimEvent>,
    pub command: UiCommand,
}

/// The facts about the widgets that key handling depends on.
#[derive(Clone, Copy, Debug)]
pub struct InputContext {
    /// The project filter is being typed.
    pub filter_input_active: bool,
    /// The selected configuration field is a dropdown.
    pub config_field_is_dropdown: bool,
    /// The action selected in the pipeline actions popup.
    pub selected_pipeline_action: Option<PipelineAction>,
}

/// The event a key asks for in the main project list, given the selected project.
pub open spec fn normal_key_event(selected: Option<ProjectId>, code: KeyCode) -> Option<GlimEvent> {
    match code {
        KeyCode::Enter => match selected {
            Some(id) => Some(GlimEvent::ProjectDetailsOpen(id)),
            None => None,
        },
        KeyCode::Char('o') => match selected {
            Some(id) => Some(GlimEvent::ProjectDetailsOpen(id)),
            None => None,
        },
        KeyCode::Char('a') => Some(GlimEvent::NotificationLast),
        KeyCode::Char('c') => Some(GlimEvent::ConfigOpen),
        KeyCode::Char('f') => Some(GlimEvent::FilterMenuShow),
        KeyCode::Char('/') => Some(GlimEvent::FilterMenuShow),
        KeyCode::Char('p') => match selected {
            Some(id) => Some(GlimEvent::PipelinesFetch(id)),
            None => None,
        },
        KeyCode::Char('q') => Some(GlimEvent::AppExit),
        KeyCode::Char('r') => Some(GlimEvent::ProjectsFetch),
        KeyCode::Char('w') => match selected {
            Some(id) => Some(GlimEvent::ProjectOpenUrl(id)),
            None => None,
        },
        KeyCode::F(12) => Some(GlimEvent::ScreenCapture),
        KeyCode::Up => Some(GlimEvent::ProjectPrevious),
        KeyCode::Down => Some(GlimEvent::ProjectNext),
        KeyCode::Char('k') => Some(GlimEvent::ProjectPrevious),
        KeyCode::Char('j') => Some(GlimEvent::ProjectNext),
        KeyCode::Esc => Some(GlimEvent::FilterClear),
        _ => None,
    }
}

/// The events a key produces while the project filter is typed.
pub open spec fn filter_key_events(code: KeyCode, events: Seq<GlimEvent>) -> bool {
    match code {
        KeyCode::Enter => events == seq![GlimEvent::FilterMenuClose],
        KeyCode::Esc => events == seq![
            GlimEvent::ApplyTemporaryFilter(None),
            GlimEvent::FilterMenuClose,
        ],
        KeyCode::Backspace => events == seq![GlimEvent::FilterInputBackspace],
        KeyCode::Char(c) => events.len() == 1 && (events[0] matches GlimEvent::FilterInputChar(s)
            && s@ == seq![c]),
        _ => events.len() == 0,
    }
}

/// Key handling of the main project list.
#[derive(Clone, Copy, Debug)]
pub struct NormalModeProcessor {
    pub selected: Option<ProjectId>,
}

fn single_char_string(c: char) -> (r: String)
    ensures
        r@ == seq![c],
{
    let mut v: Vec<char> = Vec::new();
    v.push(c);
    crate::text::string_from_chars(&v)
}

impl NormalModeProcessor {
    pub fn new() -> (r: NormalModeProcessor)
        ensures
            r.selected is None,
    {
        NormalModeProcessor { selected: None }
    }

    /// The event a key asks for in the project list.
    pub fn process(&self, event: &KeyEvent) -> (r: Option<GlimEvent>)
        ensures
            r == normal_key_event(self.selected, event.code),
    {
        match event.code {
            KeyCode::Enter => match self.selected {
                Some(id) => Some(GlimEvent::ProjectDetailsOpen(id)),
                None => None,
            },
            KeyCode::Char('o') => match self.selected {
                Some(id) => Some(GlimEvent::ProjectDetailsOpen(id)),
                None => None,
            },
            KeyCode::Char('a') => Some(GlimEvent::NotificationLast),
            KeyCode::Char('c') => Some(GlimEvent::ConfigOpen),
            KeyCode::Char('f') => Some(GlimEvent::FilterMenuShow),
            KeyCode::Char('/') => Some(GlimEvent::FilterMenuShow),
            KeyCode::Char('p') => match self.selected {
                Some(id) => Some(GlimEvent::PipelinesFetch(id)),
                None => None,
            },
            KeyCode::Char('q') => Some(GlimEvent::AppExit),
            KeyCode::Char('r') => Some(GlimEvent::ProjectsFetch),
            KeyCode::Char('w') => match self.selected {
                Some(id) => Some(GlimEvent::ProjectOpenUrl(id)),
                None => None,
            },
            KeyCode::F(12) => Some(GlimEvent::ScreenCapture),
            KeyCode::Up => Some(GlimEvent::ProjectPrevious),
            KeyCode::Down => Some(GlimEvent::ProjectNext),
            KeyCode::Char('k') => Some(GlimEvent::ProjectPrevious),
            KeyCode::Char('j') => Some(GlimEvent::ProjectNext),
            KeyCode::Esc => Some(GlimEvent::FilterClear),
            _ => None,
        }
    }

    /// The events a key produces while the project filter is typed.
    pub fn process_filter_input(&self, event: &KeyEvent) -> (r: Vec<GlimEvent>)
        ensures
            filter_key_events(event.code, r@),
    {
        let mut out: Vec<GlimEvent> = Vec::new();
        match event.code {
            KeyCode::Enter => {
                out.push(GlimEvent::FilterMenuClose);
                assert(out@ =~= seq![GlimEvent::FilterMenuClose]);
            },
            KeyCode::Esc => {
                out.push(GlimEvent::ApplyTemporaryFilter(None));
                out.push(GlimEvent::FilterMenuClose);
                assert(out@ =~= seq![
                    GlimEvent::ApplyTemporaryFilter(None),
                    GlimEvent::FilterMenuClose,
                ]);
            },
            KeyCode::Backspace => {
                out.push(GlimEvent::FilterInputBackspace);
                assert(out@ =~= seq![GlimEvent::FilterInputBackspace]);
            },
            KeyCode::Char(c) => {
                out.push(GlimEvent::FilterInputChar(single_char_string(c)));
            },
            _ => {},
        }
        assert(filter_key_events(event.code, out@));
        out
    }

    /// Follows the selected project, and turns key presses into events.
    pub fn apply(&mut self, event: &GlimEvent, filter_input_active: bool) -> (r: Vec<GlimEvent>)
        ensures
            match *event {
                GlimEvent::ProjectSelected(id) => final(self).selected == Some(id) && r@.len() == 0,
                GlimEvent::InputKey(k) => final(self).selected == old(self).selected && (if filter_input_active {
                    filter_key_events(k.code, r@)
                } else {
                    r@ == opt_seq(normal_key_event(old(self).selected, k.code))
                }),
                _ => final(self).selected == old(self).selected && r@.len() == 0,
            },
    {
        match event {
            GlimEvent::ProjectSelected(id) => {
                self.selected = Some(*id);
                Vec::new()
            },
            GlimEvent::InputKey(k) => {
                if filter_input_active {
                    self.process_filter_input(k)
                } else {
                    let mut out: Vec<GlimEvent> = Vec::new();
                    match self.process(k) {
                        Some(e) => out.push(e),
                        None => {},
                    }
                    assert(out@ =~= opt_seq(normal_key_event(self.selected, k.code)));
                    out
                }
            },
            _ => Vec::new(),
        }
    }
}

/// What a key does in the project details popup.
pub open spec fn details_key(
    project_id: ProjectId,
    selected: Option<PipelineId>,
    code: KeyCode,
) -> (Option<GlimEvent>, UiCommand) {
    match code {
        KeyCode::Esc => (Some(GlimEvent::ProjectDetailsClose), UiCommand::Nothing),
        KeyCode::Char('q') => (Some(GlimEvent::ProjectDetailsClose), UiCommand::Nothing),
        KeyCode::Up => (None, UiCommand::SelectPipeline(-1i32)),
        KeyCode::Down => (None, UiCommand::SelectPipeline(1i32)),
        KeyCode::Char('k') => (None, UiCommand::SelectPipeline(-1i32)),
        KeyCode::Char('j') => (None, UiCommand::SelectPipeline(1i32)),
        KeyCode::Enter => match selected {
            Some(p) => (Some(GlimEvent::PipelineActionsOpen(project_id, p)), UiCommand::Nothing),
            None => (None, UiCommand::Nothing),
        },
        KeyCode::Char('o') => match selected {
            Some(p) => (Some(GlimEvent::PipelineActionsOpen(project_id, p)), UiCommand::Nothing),
            None => (None, UiCommand::Nothing),
        },
        KeyCode::F(12) => (Some(GlimEvent::ScreenCapture), UiCommand::Nothing),
        _ => (None, UiCommand::Nothing),
    }
}

/// Key handling of the project details popup.
#[derive(Clone, Copy, Debug)]
pub struct ProjectDetailsProcessor {
    pub project_id: ProjectId,
    pub selected: Option<PipelineId>,
}

impl ProjectDetailsProcessor {
    pub fn new(project_id: ProjectId) -> (r: ProjectDetailsProcessor)
        ensures
            r.project_id == project_id,
            r.selected is None,
    {
        ProjectDetailsProcessor { project_id, selected: None }
    }

    /// What a key does in the popup.
    pub fn process(&self, event: &KeyEvent) -> (r: (Option<GlimEvent>, UiCommand))
        ensures
            r == details_key(self.project_id, self.selected, event.code),
    {
        match event.code {
            KeyCode::Esc => (Some(GlimEvent::ProjectDetailsClose), UiCommand::Nothing),
            KeyCode::Char('q') => (Some(GlimEvent::ProjectDetailsClose), UiCommand::Nothing),
            KeyCode::Up => (None, UiCommand::SelectPipeline(-1i32)),
            KeyCode::Down => (None, UiCommand::SelectPipeline(1i32)),
            KeyCode::Char('k') => (None, UiCommand::SelectPipeline(-1i32)),
            KeyCode::Char('j') => (None, UiCommand::SelectPipeline(1i32)),
            KeyCode::Enter => match self.selected {
                Some(p) => (
                    Some(GlimEvent::PipelineActionsOpen(self.project_id, p)),
                    UiCommand::Nothing,
                ),
                None => (None, UiCommand::Nothing),
            },
            KeyCode::Char('o') => match self.selected {
                Some(p) => (
                    Some(GlimEvent::PipelineActionsOpen(self.project_id, p)),
                    UiCommand::Nothing,
                ),
                None => (None, UiCommand::Nothing),
            },
            KeyCode::F(12) => (Some(GlimEvent::ScreenCapture), UiCommand::Nothing),
            _ => (None, UiCommand::Nothing),
        }
    }
}

/// What a key does in the pipeline actions popup, given the selected action.
pub open spec fn actions_key(selected: Option<PipelineAction>, code: KeyCode) -> (Seq<GlimEvent>, UiCommand) {
    match code {
        KeyCode::Esc => (seq![GlimEvent::PipelineActionsClose], UiCommand::Nothing),
        KeyCode::Char('q') => (seq![GlimEvent::PipelineActionsClose], UiCommand::Nothing),
        KeyCode::Up => (Seq::empty(), UiCommand::SelectPipelineAction(-1i32)),
        KeyCode::Down => (Seq::empty(), UiCommand::SelectPipelineAction(1i32)),
        KeyCode::Char('k') => (Seq::empty(), UiCommand::SelectPipelineAction(-1i32)),
        KeyCode::Char('j') => (Seq::empty(), UiCommand::SelectPipelineAction(1i32)),
        KeyCode::Enter | KeyCode::Char('o') => (
            match selected {
                Some(a) => seq![action_event(a), GlimEvent::PipelineActionsClose],
                None => seq![GlimEvent::PipelineActionsClose],
            },
            UiCommand::Nothing,
        ),
        _ => (Seq::empty(), UiCommand::Nothing),
    }
}

/// Key handling of the pipeline actions popup.
pub fn pipeline_actions_process(selected: Option<PipelineAction>, event: &KeyEvent) -> (r: (
    Vec<GlimEvent>,
    UiCommand,
))
    ensures
        (r.0@, r.1) == actions_key(selected, event.code),
{
    let mut out: Vec<GlimEvent> = Vec::new();
    let command = match event.code {
        KeyCode::Esc | KeyCode::Char('q') => {
            out.push(GlimEvent::PipelineActionsClose);
            UiCommand::Nothing
        },
        KeyCode::Up | KeyCode::Char('k') => UiCommand::SelectPipelineAction(-1i32),
        KeyCode::Down | KeyCode::Char('j') => UiCommand::SelectPipelineAction(1i32),
        KeyCode::Enter | KeyCode::Char('o') => {
            match selected {
                Some(a) => out.push(a.to_event()),
                None => {},
            }
            out.push(GlimEvent::PipelineActionsClose);
            UiCommand::Nothing
        },
        _ => UiCommand::Nothing,
    };
    assert(out@ =~= actions_key(selected, event.code).0);
    (out, command)
}

/// What a key does in the configuration popup, given whether the selected
/// field is a dropdown.
pub open spec fn config_key(dropdown: bool, key: KeyEvent) -> (Option<GlimEvent>, UiCommand) {
    match key.code {
        KeyCode::Enter => (Some(GlimEvent::ConfigApply), UiCommand::Nothing),
        KeyCode::Esc => (Some(GlimEvent::ConfigClose), UiCommand::Nothing),
        KeyCode::Down | KeyCode::Char('j') | KeyCode::Tab => (None, UiCommand::ConfigSelectNext),
        KeyCode::Up | KeyCode::Char('k') | KeyCode::BackTab => (
            None,
            UiCommand::ConfigSelectPrevious,
        ),
        KeyCode::Left => if dropdown {
            (None, UiCommand::ConfigCyclePrevious)
        } else {
            (None, UiCommand::EditConfigInput(key))
        },
        KeyCode::Right => if dropdown {
            (None, UiCommand::ConfigCycleNext)
        } else {
            (None, UiCommand::EditConfigInput(key))
        },
        KeyCode::F(12) => (Some(GlimEvent::ScreenCapture), UiCommand::Nothing),
        _ => if dropdown {
            (None, UiCommand::Nothing)
        } else {
            (None, UiCommand::EditConfigInput(key))
        },
    }
}

/// Key handling of the configuration popup.
pub fn config_process(dropdown: bool, key: &KeyEvent) -> (r: (Option<GlimEvent>, UiCommand))
    ensures
        r == config_key(dropdown, *key),
{
    match key.code {
        KeyCode::Enter => (Some(GlimEvent::ConfigApply), UiCommand::Nothing),
        KeyCode::Esc => (Some(GlimEvent::ConfigClose), UiCommand::Nothing),
        KeyCode::Down | KeyCode::Char('j') | KeyCode::Tab => (None, UiCommand::ConfigSelectNext),
        KeyCode::Up | KeyCode::Char('k') | KeyCode::BackTab => (
            None,
            UiCommand::ConfigSelectPrevious,
        ),
        KeyCode::Left => if dropdown {
            (None, UiCommand::ConfigCyclePrevious)
        } else {
            (None, UiCommand::EditConfigInput(*key))
        },
        KeyCode::Right => if dropdown {
            (None, UiCommand::ConfigCycleNext)
        } else {
            (None, UiCommand::EditConfigInput(*key))
        },
        KeyCode::F(12) => (Some(GlimEvent::ScreenCapture), UiCommand::Nothing),
        _ => if dropdown {
            (None, UiCommand::Nothing)
        } else {
            (None, UiCommand::EditConfigInput(*key))
        },
    }
}

/// One mode of key handling.
#[derive(Clone, Copy, Debug)]
pub enum InputProcessor {
    Normal(NormalModeProcessor),
    ProjectDetails(ProjectDetailsProcessor),
    PipelineActions,
    Config,
}

/// `Some(e)` as a one-event sequence, `None` as none.
pub open spec fn opt_seq(e: Option<GlimEvent>) -> Seq<GlimEvent> {
    match e {
        Some(x) => seq![x],
        None => Seq::empty(),
    }
}

/// How a mode reacts to an event: its new state, the events it dispatches,
/// and the change to the widgets.
pub open spec fn processor_step(
    p: InputProcessor,
    e: GlimEvent,
    ctx: InputContext,
    next: InputProcessor,
    events: Seq<GlimEvent>,
    command: UiCommand,
) -> bool {
    match p {
        InputProcessor::Normal(n) => (next matches InputProcessor::Normal(m) && command
            == UiCommand::Nothing && match e {
            GlimEvent::ProjectSelected(id) => m.selected == Some(id) && events.len() == 0,
            GlimEvent::InputKey(k) => m.selected == n.selected && (if ctx.filter_input_active {
                filter_key_events(k.code, events)
            } else {
                events == opt_seq(normal_key_event(n.selected, k.code))
            }),
            _ => m == n && events.len() == 0,
        }),
        InputProcessor::ProjectDetails(d) => match e {
            GlimEvent::PipelineSelected(id) => next == InputProcessor::ProjectDetails(
                ProjectDetailsProcessor { selected: Some(id), ..d },
            ) && events.len() == 0 && command == UiCommand::Nothing,
            GlimEvent::InputKey(k) => next == p && events == opt_seq(
                details_key(d.project_id, d.selected, k.code).0,
            ) && command == details_key(d.project_id, d.selected, k.code).1,
            _ => next == p && events.len() == 0 && command == UiCommand::Nothing,
        },
        InputProcessor::PipelineActions => next == p && (match e {
            GlimEvent::InputKey(k) => (events, command) == actions_key(
                ctx.selected_pipeline_action,
                k.code,
            ),
            _ => events.len() == 0 && command == UiCommand::Nothing,
        }),
        InputProcessor::Config => next == p && (match e {
            GlimEvent::InputKey(k) => events == opt_seq(config_key(ctx.config_field_is_dropdown, k).0)
                && command == config_key(ctx.config_field_is_dropdown, k).1,
            _ => events.len() == 0 && command == UiCommand::Nothing,
        }),
    }
}

impl InputProcessor {
    /// The mode reacts to an event.
    pub fn apply(&mut self, event: &GlimEvent, ctx: &InputContext) -> (r: InputOutcome)
        ensures
            processor_step(*old(self), *event, *ctx, *final(self), r.events@, r.command),
    {
        match self {
            InputProcessor::Normal(n) => {
                let events = n.apply(event, ctx.filter_input_active);
                InputOutcome { events, command: UiCommand::Nothing }
            },
            InputProcessor::ProjectDetails(d) => match event {
                GlimEvent::PipelineSelected(id) => {
                    d.selected = Some(*id);
                    InputOutcome { events: Vec::new(), command: UiCommand::Nothing }
                },
                GlimEvent::InputKey(k) => {
                    let (e, command) = d.process(k);
                    let mut events: Vec<GlimEvent> = Vec::new();
                    match e {
                        Some(x) => events.push(x),
                        None => {},
                    }
                    assert(events@ =~= opt_seq(details_key(d.project_id, d.selected, k.code).0));
                    InputOutcome { events, command }
                },
                _ => InputOutcome { events: Vec::new(), command: UiCommand::Nothing },
            },
            InputProcessor::PipelineActions => match event {
                GlimEvent::InputKey(k) => {
                    let (events, command) = pipeline_actions_process(
                        ctx.selected_pipeline_action,
                        k,
                    );
                    InputOutcome { events, command }
                },
                _ => InputOutcome { events: Vec::new(), command: UiCommand::Nothing },
            },
            InputProcessor::Config => match event {
                GlimEvent::InputKey(k) => {
                    let (e, command) = config_process(ctx.config_field_is_dropdown, k);
                    let mut events: Vec<GlimEvent> = Vec::new();
                    match e {
                        Some(x) => events.push(x),
                        None => {},
                    }
                    assert(events@ =~= opt_seq(config_key(ctx.config_field_is_dropdown, *k).0));
                    InputOutcome { events, command }
                },
                _ => InputOutcome { events: Vec::new(), command: UiCommand::Nothing },
            },
        }
    }
}

/// The mode stack after an event: a popup opening pushes its mode, a popup
/// closing pops the top mode.
pub open spec fn stack_after(stack: Seq<InputProcessor>, e: GlimEvent) -> Seq<InputProcessor> {
    match e {
        GlimEvent::ProjectDetailsOpen(id) => stack.push(
            InputProcessor::ProjectDetails(ProjectDetailsProcessor { project_id: id, selected: None }),
        ),
        GlimEvent::PipelineActionsOpen(_, _) => stack.push(InputProcessor::PipelineActions),
        GlimEvent::ConfigOpen => stack.push(InputProcessor::Config),
        GlimEvent::ProjectDetailsClose | GlimEvent::PipelineActionsClose | GlimEvent::ConfigClose =>
            if stack.len() > 0 {
            stack.drop_last()
        } else {
            stack
        },
        _ => stack,
    }
}

/// How the mode stack handles an event: popups opening and closing push and
/// pop modes, then the top mode reacts; with no mode left nothing happens.
pub open spec fn input_stepped(
    stack: Seq<InputProcessor>,
    e: GlimEvent,
    ctx: InputContext,
    new_stack: Seq<InputProcessor>,
    events: Seq<GlimEvent>,
    command: UiCommand,
) -> bool {
    let s = stack_after(stack, e);
    if s.len() == 0 {
        new_stack.len() == 0 && events.len() == 0 && command == UiCommand::Nothing
    } else {
        &&& new_stack.len() == s.len()
        &&& new_stack.drop_last() == s.drop_last()
        &&& processor_step(s.last(), e, ctx, new_stack.last(), events, command)
    }
}

/// The stack of key-handling modes; the top one handles each event.
#[derive(Debug)]
pub struct InputMultiplexer {
    processors: Vec<InputProcessor>,
}

impl View for InputMultiplexer {
    type V = Seq<InputProcessor>;

    closed spec fn view(&self) -> Seq<InputProcessor> {
        self.processors@
    }
}

impl InputMultiplexer {
    pub fn new() -> (r: InputMultiplexer)
        ensures
            r@.len() == 0,
    {
        InputMultiplexer { processors: Vec::new() }
    }

    /// Puts a mode on top.
    pub fn push(&mut self, processor: InputProcessor)
        ensures
            final(self)@ == old(self)@.push(processor),
    {
        self.processors.push(processor);
    }

    /// Removes the top mode, if any.
    pub fn pop_processor(&mut self)
        ensures
            final(self)@ == if old(self)@.len() > 0 {
                old(self)@.drop_last()
            } else {
                old(self)@
            },
    {
        self.processors.pop();
    }

    /// Follows popups opening and closing, then lets the top mode handle the event.
    pub fn apply(&mut self, event: &GlimEvent, ctx: &InputContext) -> (r: InputOutcome)
        ensures
            input_stepped(old(self)@, *event, *ctx, final(self)@, r.events@, r.command),
    {
        match event {
            GlimEvent::ProjectDetailsOpen(id) => {
                self.push(InputProcessor::ProjectDetails(ProjectDetailsProcessor::new(*id)));
            },
            GlimEvent::ProjectDetailsClose => self.pop_processor(),
            GlimEvent::PipelineActionsOpen(_, _) => self.push(InputProcessor::PipelineActions),
            GlimEvent::PipelineActionsClose => self.pop_processor(),
            GlimEvent::ConfigOpen => self.push(InputProcessor::Config),
            GlimEvent::ConfigClose => self.pop_processor(),
            _ => {},
        }
        let ghost s = self.processors@;
        assert(s == stack_after(old(self)@, *event));
        match self.processors.pop() {
            Some(mut top) => {
                let out = top.apply(event, ctx);
                self.processors.push(top);
                assert(self.processors@.drop_last() =~= s.drop_last());
                out
            },
            None => InputOutcome { events: Vec::new(), command: UiCommand::Nothing },
        }
    }
}

/// Closing a popup gives back the key-handling modes that were in place
/// before it opened.
pub proof fn lemma_close_restores_modes(stack: Seq<InputProcessor>, open: GlimEvent, close: GlimEvent)
    requires
        (open matches GlimEvent::ProjectDetailsOpen(_) && close is ProjectDetailsClose) || (
        open matches GlimEvent::PipelineActionsOpen(_, _) && close is PipelineActionsClose) || (
        open is ConfigOpen && close is ConfigClose),
    ensures
        stack_after(stack_after(stack, open), close) == stack,
{
    assert(stack_after(stack, open).drop_last() =~= stack);
}

/// The keys of the project list, whatever project is selected: 'q' quits,
/// 'r' fetches the projects again, 'c' opens the configuration, 'a' shows
/// the last notification, 'f' and '/' open the filter, Esc clears it, the
/// arrows and 'k' / 'j' move the selection, F12 captures the screen. With a
/// project selected, Enter and 'o' open its details, 'w' opens it in the
/// browser and 'p' fetches its pipelines; with none selected those keys do
/// nothing. No other key does anything.
pub proof fn lemma_normal_keys(selected: Option<ProjectId>)
    ensures
        forall|code: KeyCode|
            !(code is Enter || code is Esc || code is Up || code is Down || code == KeyCode::F(12)
                || (code matches KeyCode::Char(c) && (c == 'q' || c == 'r' || c == 'c' || c == 'a'
                || c == 'f' || c == '/' || c == 'k' || c == 'j' || c == 'o' || c == 'w' || c
                == 'p'))) ==> #[trigger] normal_key_event(selected, code) is None,
        normal_key_event(selected, KeyCode::Char('q')) == Some(GlimEvent::AppExit),
        normal_key_event(selected, KeyCode::Char('r')) == Some(GlimEvent::ProjectsFetch),
        normal_key_event(selected, KeyCode::Char('c')) == Some(GlimEvent::ConfigOpen),
        normal_key_event(selected, KeyCode::Char('a')) == Some(GlimEvent::NotificationLast),
        normal_key_event(selected, KeyCode::Char('f')) == Some(GlimEvent::FilterMenuShow),
        normal_key_event(selected, KeyCode::Char('/')) == Some(GlimEvent::FilterMenuShow),
        normal_key_event(selected, KeyCode::Esc) == Some(GlimEvent::FilterClear),
        normal_key_event(selected, KeyCode::Up) == Some(GlimEvent::ProjectPrevious),
        normal_key_event(selected, KeyCode::Char('k')) == Some(GlimEvent::ProjectPrevious),
        normal_key_event(selected, KeyCode::Down) == Some(GlimEvent::ProjectNext),
        normal_key_event(selected, KeyCode::Char('j')) == Some(GlimEvent::ProjectNext),
        normal_key_event(selected, KeyCode::F(12)) == Some(GlimEvent::ScreenCapture),
        selected matches Some(id) ==> normal_key_event(selected, KeyCode::Enter) == Some(
            GlimEvent::ProjectDetailsOpen(id),
        ) && normal_key_event(selected, KeyCode::Char('o')) == Some(
            GlimEvent::ProjectDetailsOpen(id),
        ) && normal_key_event(selected, KeyCode::Char('w')) == Some(GlimEvent::ProjectOpenUrl(id))
            && normal_key_event(selected, KeyCode::Char('p')) == Some(
            GlimEvent::PipelinesFetch(id),
        ),
        selected is None ==> normal_key_event(selected, KeyCode::Enter) is None
            && normal_key_event(selected, KeyCode::Char('o')) is None && normal_key_event(
            selected,
            KeyCode::Char('w'),
        ) is None && normal_key_event(selected, KeyCode::Char('p')) is None,
{
}

} // verus!
