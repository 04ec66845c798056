//! State of the widgets on screen: table selections, the popups, the
//! notification, and the project filter being typed.
use vstd::prelude::*;

use crate::config::GlimConfig;
use crate::config_popup::{cycled_next, cycled_prev, key_edited, ConfigPopupState};
use crate::event::GlimEvent;
use crate::ids::{JobId, PipelineId, ProjectId};
use crate::input::{PipelineAction, UiCommand};
use crate::modulo::{modulo_spec, Modulo, lemma_modulo_positive};
use crate::notice::Notice;
use crate::text::{chars_of, push_str, string_from_chars};
use crate::domain::{jobs_view, pipelines_view, Job, JobView, PipelineStatus, PipelineView, Project, ProjectView};
use crate::store::{find_index, find_pipeline, pipeline_index_of, ProjectStore};

verus! {

/// The project details popup: the project, its recent pipelines (by id,
/// newest first) and the selected row.
#[derive(Debug)]
pub struct ProjectDetailsState {
    pub project_id: ProjectId,
    pub pipeline_ids: Vec<PipelineId>,
    pub selected: Option<usize>,
}

/// The pipeline actions popup: the actions offered and the selected row.
#[derive(Debug)]
pub struct PipelineActionsState {
    pub actions: Vec<PipelineAction>,
    pub selected: Option<usize>,
}

/// What the widgets keep between frames.
#[derive(Debug)]
pub struct StatefulWidgets {
    /// Selected row of the projects table.
    pub project_selected: Option<usize>,
    pub config_popup_state: Option<ConfigPopupState>,
    pub project_details: Option<ProjectDetailsState>,
    pub pipeline_actions: Option<PipelineActionsState>,
    pub notice: Option<Notice>,
    pub filter_input_active: bool,
    pub filter_input_text: String,
    pub temporary_filter: Option<String>,
    pub capture_screen_requested: bool,
    /// Indices into the full project list of the rows shown; empty when no
    /// filter restricts the list.
    pub current_filtered_indices: Vec<usize>,
}

/// The filter that applies to the projects list: the one being typed, else
/// the configured one.
pub open spec fn effective_filter_spec(
    temporary: Option<String>,
    configured: Option<String>,
) -> Option<String> {
    match temporary {
        Some(t) => Some(t),
        None => configured,
    }
}

/// The filter as typed so far: none while nothing is typed.
pub open spec fn typed_filter(text: Seq<char>, filter: Option<String>) -> bool {
    if text.len() == 0 {
        filter is None
    } else {
        filter matches Some(f) && f@ == text
    }
}

/// The row a step of `direction` moves the project selection to, among
/// `count` rows: one up or down, kept inside the table.
pub open spec fn stepped_row(current: int, direction: int, count: int) -> int {
    let moved = if direction == 1 {
        current + 1
    } else if current > 0 {
        current - 1
    } else {
        0
    };
    if moved < count - 1 {
        moved
    } else if count > 0 {
        count - 1
    } else {
        0
    }
}

/// The actions offered for a pipeline: with a failed job, opening that job,
/// the pipeline and the project, and fetching the job's log; else opening
/// the pipeline and the project.
pub open spec fn pipeline_actions_for(
    project: ProjectId,
    pipeline: PipelineId,
    failed_job: Option<JobId>,
) -> Seq<PipelineAction> {
    match failed_job {
        Some(job) => seq![
            PipelineAction::JobOpenUrl(project, pipeline, job),
            PipelineAction::PipelineOpenUrl(project, pipeline),
            PipelineAction::ProjectOpenUrl(project),
            PipelineAction::JobLogFetch(project, pipeline),
        ],
        None => seq![
            PipelineAction::PipelineOpenUrl(project, pipeline),
            PipelineAction::ProjectOpenUrl(project),
        ],
    }
}

/// How a step of the project selection goes: among the rows shown (the
/// filtered indices, or all projects when there are none), the selected row
/// moves by `direction` and the project now selected is named; with no
/// selection, the first row becomes selected; with no rows, nothing happens.
pub open spec fn selection_moved(
    selected: Option<usize>,
    indices: Seq<usize>,
    ids: Seq<ProjectId>,
    direction: int,
    new_selected: Option<usize>,
    r: Option<GlimEvent>,
) -> bool {
    let count = if indices.len() == 0 {
        ids.len() as int
    } else {
        indices.len() as int
    };
    if count == 0 {
        r is None && new_selected == selected
    } else {
        match selected {
            Some(current) => {
                let row = stepped_row(current as int, direction, count);
                let index = if indices.len() == 0 {
                    row
                } else {
                    indices[row] as int
                };
                &&& new_selected == Some(row as usize)
                &&& r == Some(GlimEvent::ProjectSelected(ids[index]))
            },
            None => new_selected == Some(0usize) && r is None,
        }
    }
}

/// Everything but the three popups is as it was.
pub open spec fn rest_unchanged(o: StatefulWidgets, n: StatefulWidgets) -> bool {
    &&& n.project_selected == o.project_selected
    &&& n.notice == o.notice
    &&& n.filter_input_active == o.filter_input_active
    &&& n.filter_input_text == o.filter_input_text
    &&& n.temporary_filter == o.temporary_filter
    &&& n.capture_screen_requested == o.capture_screen_requested
    &&& n.current_filtered_indices == o.current_filtered_indices
}

impl StatefulWidgets {
    /// The widgets' invariant: an open configuration popup is well formed.
    pub open spec fn wf(&self) -> bool {
        self.config_popup_state matches Some(c) ==> c.wf()
    }

    pub fn new() -> (r: StatefulWidgets)
        ensures
            r.wf(),
            r.project_selected == Some(0usize),
            r.config_popup_state is None,
            r.project_details is None,
            r.pipeline_actions is None,
            r.notice is None,
            !r.filter_input_active,
            r.filter_input_text@.len() == 0,
            r.temporary_filter is None,
            !r.capture_screen_requested,
            r.current_filtered_indices@.len() == 0,
    {
        StatefulWidgets {
            project_selected: Some(0),
            config_popup_state: None,
            project_details: None,
            pipeline_actions: None,
            notice: None,
            filter_input_active: false,
            filter_input_text: String::new(),
            temporary_filter: None,
            capture_screen_requested: false,
            current_filtered_indices: Vec::new(),
        }
    }

    /// Moves the project selection one row up (`-1`) or down (`1`) among the
    /// rows shown, and names the project now selected. `project_ids` lists
    /// all projects in table order.
    pub fn handle_project_selection(&mut self, direction: i32, project_ids: &Vec<ProjectId>) -> (r:
        Option<GlimEvent>)
        requires
            direction == 1 || direction == -1,
            forall|k: int|
                0 <= k < old(self).current_filtered_indices@.len()
                    ==> #[trigger] old(self).current_filtered_indices@[k] < project_ids@.len(),
        ensures
            selection_moved(
                old(self).project_selected,
                old(self).current_filtered_indices@,
                project_ids@,
                direction as int,
                final(self).project_selected,
                r,
            ),
            *final(self) == (StatefulWidgets {
                project_selected: final(self).project_selected,
                ..*old(self)
            }),
    {
        let count = if self.current_filtered_indices.len() == 0 {
            project_ids.len()
        } else {
            self.current_filtered_indices.len()
        };
        if count == 0 {
            return None;
        }
        match self.project_selected {
            Some(current) => {
                let moved = if direction == 1 {
                    current.saturating_add(1)
                } else {
                    current.saturating_sub(1)
                };
                let last = count - 1;
                let row = if moved < last {
                    moved
                } else {
                    last
                };
                proof {
                    if direction == 1 {
                        assert(current < usize::MAX ==> moved == current + 1);
                        assert(current + 1 >= count - 1 ==> row == count - 1) by {
                            if current == usize::MAX {
                                assert(moved == usize::MAX);
                            }
                        }
                    }
                }
                self.project_selected = Some(row);
                let index = if self.current_filtered_indices.len() == 0 {
                    row
                } else {
                    self.current_filtered_indices[row]
                };
                Some(GlimEvent::ProjectSelected(project_ids[index]))
            },
            None => {
                self.project_selected = Some(0);
                None
            },
        }
    }

    /// Shows the project filter input, starting from the filter in effect.
    pub fn show_filter_input(&mut self)
        ensures
            final(self).filter_input_active,
            final(self).filter_input_text@ == match old(self).temporary_filter {
                Some(t) => t@,
                None => Seq::empty(),
            },
            *final(self) == (StatefulWidgets {
                filter_input_active: true,
                filter_input_text: final(self).filter_input_text,
                ..*old(self)
            }),
    {
        self.filter_input_active = true;
        self.filter_input_text = match &self.temporary_filter {
            Some(t) => t.clone(),
            None => String::new(),
        };
    }

    /// Hides the project filter input; the filter stays in effect.
    pub fn close_filter_input(&mut self)
        ensures
            *final(self) == (StatefulWidgets { filter_input_active: false, ..*old(self) }),
    {
        self.filter_input_active = false;
    }

    /// Appends typed text to the filter, applies it at once and selects the
    /// first row; nothing happens while the input is hidden.
    pub fn add_filter_char(&mut self, c: &str)
        ensures
            old(self).filter_input_active ==> {
                &&& final(self).filter_input_text@ == old(self).filter_input_text@ + c@
                &&& typed_filter(final(self).filter_input_text@, final(self).temporary_filter)
                &&& final(self).project_selected == Some(0usize)
                &&& final(self).filter_input_active
            },
            !old(self).filter_input_active ==> *final(self) == *old(self),
            *final(self) == (StatefulWidgets {
                filter_input_text: final(self).filter_input_text,
                temporary_filter: final(self).temporary_filter,
                project_selected: final(self).project_selected,
                ..*old(self)
            }),
    {
        if self.filter_input_active {
            let mut v = chars_of(self.filter_input_text.as_str());
            push_str(&mut v, c);
            let n = v.len();
            self.filter_input_text = string_from_chars(&v);
            self.temporary_filter = if n == 0 {
                None
            } else {
                Some(self.filter_input_text.clone())
            };
            self.project_selected = Some(0);
        }
    }

    /// Removes the last typed character of the filter, applies the filter at
    /// once and selects the first row; nothing happens while the input is hidden.
    pub fn remove_filter_char(&mut self)
        ensures
            old(self).filter_input_active ==> {
                &&& final(self).filter_input_text@ == if old(self).filter_input_text@.len() > 0 {
                    old(self).filter_input_text@.drop_last()
                } else {
                    old(self).filter_input_text@
                }
                &&& typed_filter(final(self).filter_input_text@, final(self).temporary_filter)
                &&& final(self).project_selected == Some(0usize)
                &&& final(self).filter_input_active
            },
            !old(self).filter_input_active ==> *final(self) == *old(self),
            *final(self) == (StatefulWidgets {
                filter_input_text: final(self).filter_input_text,
                temporary_filter: final(self).temporary_filter,
                project_selected: final(self).project_selected,
                ..*old(self)
            }),
    {
        if self.filter_input_active {
            let v = chars_of(self.filter_input_text.as_str());
            let n = v.len();
            let keep = if n > 0 {
                n - 1
            } else {
                0
            };
            let mut w: Vec<char> = Vec::new();
            let mut i: usize = 0;
            while i < keep
                invariant
                    keep <= v@.len(),
                    i <= keep,
                    w@ == v@.subrange(0, i as int),
                decreases keep - i,
            {
                w.push(v[i]);
                i = i + 1;
                assert(v@.subrange(0, i as int) == v@.subrange(0, i - 1).push(v@[i - 1]));
            }
            assert(n > 0 ==> w@ =~= v@.drop_last());
            assert(n == 0 ==> w@ =~= v@);
            self.filter_input_text = string_from_chars(&w);
            self.temporary_filter = if keep == 0 {
                None
            } else {
                Some(self.filter_input_text.clone())
            };
            self.project_selected = Some(0);
        }
    }

    /// Puts a filter into effect, hides the filter input and selects the first row.
    pub fn apply_temporary_filter(&mut self, filter: Option<String>)
        ensures
            final(self).temporary_filter == filter,
            !final(self).filter_input_active,
            final(self).project_selected == Some(0usize),
            *final(self) == (StatefulWidgets {
                temporary_filter: filter,
                filter_input_active: false,
                project_selected: Some(0usize),
                ..*old(self)
            }),
    {
        self.temporary_filter = filter;
        self.filter_input_active = false;
        self.project_selected = Some(0);
    }

    /// Drops the typed filter, and asks for it to be removed everywhere.
    pub fn clear_filter(&mut self) -> (r: GlimEvent)
        ensures
            final(self).filter_input_text@.len() == 0,
            !final(self).filter_input_active,
            final(self).temporary_filter is None,
            r == GlimEvent::ApplyTemporaryFilter(None),
            *final(self) == (StatefulWidgets {
                filter_input_text: final(self).filter_input_text,
                filter_input_active: false,
                temporary_filter: None,
                ..*old(self)
            }),
    {
        self.filter_input_text = String::new();
        self.filter_input_active = false;
        self.temporary_filter = None;
        GlimEvent::ApplyTemporaryFilter(None)
    }

    /// The filter that applies to the projects list.
    pub fn effective_filter(&self, config_filter: &Option<String>) -> (r: Option<String>)
        ensures
            r == effective_filter_spec(self.temporary_filter, *config_filter),
    {
        match &self.temporary_filter {
            Some(t) => Some(t.clone()),
            None => match config_filter {
                Some(c) => Some(c.clone()),
                None => None,
            },
        }
    }

    /// Records which projects the table shows.
    pub fn update_filtered_indices(&mut self, indices: Vec<usize>)
        ensures
            *final(self) == (StatefulWidgets { current_filtered_indices: indices, ..*old(self) }),
    {
        self.current_filtered_indices = indices;
    }

    /// Opens the actions popup for a pipeline, with the first action selected.
    pub fn open_pipeline_actions(
        &mut self,
        project: ProjectId,
        pipeline: PipelineId,
        failed_job: Option<JobId>,
    )
        ensures
            final(self).pipeline_actions matches Some(s) && s.actions@ == pipeline_actions_for(
                project,
                pipeline,
                failed_job,
            ) && s.selected == Some(0usize),
            *final(self) == (StatefulWidgets {
                pipeline_actions: final(self).pipeline_actions,
                ..*old(self)
            }),
    {
        let mut actions: Vec<PipelineAction> = Vec::new();
        match failed_job {
            Some(job) => {
                actions.push(PipelineAction::JobOpenUrl(project, pipeline, job));
                actions.push(PipelineAction::PipelineOpenUrl(project, pipeline));
                actions.push(PipelineAction::ProjectOpenUrl(project));
                actions.push(PipelineAction::JobLogFetch(project, pipeline));
            },
            None => {
                actions.push(PipelineAction::PipelineOpenUrl(project, pipeline));
                actions.push(PipelineAction::ProjectOpenUrl(project));
            },
        }
        assert(actions@ =~= pipeline_actions_for(project, pipeline, failed_job));
        self.pipeline_actions = Some(PipelineActionsState { actions, selected: Some(0) });
    }

    /// The action selected in the actions popup, if it is open.
    pub fn selected_pipeline_action(&self) -> (r: Option<PipelineAction>)
        ensures
            r == match self.pipeline_actions {
                Some(s) => match s.selected {
                    Some(i) => if i < s.actions@.len() {
                        Some(s.actions@[i as int])
                    } else {
                        None
                    },
                    None => None,
                },
                None => None,
            },
    {
        match &self.pipeline_actions {
            Some(s) => match s.selected {
                Some(i) => if i < s.actions.len() {
                    Some(s.actions[i])
                } else {
                    None
                },
                None => None,
            },
            None => None,
        }
    }

    /// Moves the selection of the actions popup by `direction` rows,
    /// wrapping around.
    pub fn handle_pipeline_action_selection(&mut self, direction: i32)
        requires
            old(self).pipeline_actions matches Some(s) ==> (s.selected matches Some(c)
                ==> step_in_range(c as int, s.actions@.len() as int, direction as int)),
        ensures
            match old(self).pipeline_actions {
                Some(s) => final(self).pipeline_actions matches Some(t) && t.actions == s.actions
                    && t.selected == match s.selected {
                    Some(c) => Some(modulo_spec(c + direction, s.actions@.len() as int) as usize),
                    None => None,
                },
                None => final(self).pipeline_actions is None,
            },
            *final(self) == (StatefulWidgets {
                pipeline_actions: final(self).pipeline_actions,
                ..*old(self)
            }),
    {
        if let Some(state) = &mut self.pipeline_actions {
            if let Some(current) = state.selected {
                let n = state.actions.len() as i32;
                let step = current as i32 + direction;
                proof {
                    if n > 0 {
                        lemma_modulo_positive(step as int, n as int);
                    }
                }
                let new_index = step.modulo(n);
                state.selected = Some(new_index as usize);
            }
        }
    }

    /// Moves the pipeline selection of the details popup by `direction`
    /// rows, wrapping around, and names the pipeline now selected.
    pub fn handle_pipeline_selection(&mut self, direction: i32) -> (r: Option<GlimEvent>)
        requires
            old(self).project_details matches Some(d) ==> (d.selected matches Some(c)
                ==> step_in_range(c as int, d.pipeline_ids@.len() as int, direction as int)),
        ensures
            match old(self).project_details {
                Some(d) => final(self).project_details matches Some(t) && t.project_id
                    == d.project_id && t.pipeline_ids == d.pipeline_ids && match d.selected {
                    Some(c) => if d.pipeline_ids@.len() == 0 {
                        t.selected is None && r is None
                    } else {
                        let i = modulo_spec(c + direction, d.pipeline_ids@.len() as int);
                        &&& t.selected == Some(i as usize)
                        &&& r == Some(GlimEvent::PipelineSelected(d.pipeline_ids@[i]))
                    },
                    None => t.selected is None && r is None,
                },
                None => final(self).project_details is None && r is None,
            },
            *final(self) == (StatefulWidgets {
                project_details: final(self).project_details,
                ..*old(self)
            }),
    {
        if let Some(d) = &mut self.project_details {
            if let Some(current) = d.selected {
                let n = d.pipeline_ids.len() as i32;
                let step = current as i32 + direction;
                if n == 0 {
                    d.selected = None;
                    return None;
                }
                proof {
                    lemma_modulo_positive(step as int, n as int);
                }
                let new_index = step.modulo(n) as usize;
                d.selected = Some(new_index);
                return Some(GlimEvent::PipelineSelected(d.pipeline_ids[new_index]));
            }
        }
        None
    }

    /// Opens the details popup on a project whose recent pipelines are
    /// given, newest first; the newest is selected and named.
    pub fn open_project_details(&mut self, project_id: ProjectId, pipeline_ids: Vec<PipelineId>) -> (r:
        Option<GlimEvent>)
        ensures
            final(self).project_details matches Some(d) && d.project_id == project_id
                && d.pipeline_ids == pipeline_ids && d.selected == Some(0usize),
            r == if pipeline_ids@.len() > 0 {
                Some(GlimEvent::PipelineSelected(pipeline_ids@[0]))
            } else {
                None
            },
            *final(self) == (StatefulWidgets {
                project_details: final(self).project_details,
                ..*old(self)
            }),
    {
        let r = if pipeline_ids.len() > 0 {
            Some(GlimEvent::PipelineSelected(pipeline_ids[0]))
        } else {
            None
        };
        self.project_details = Some(
            ProjectDetailsState { project_id, pipeline_ids, selected: Some(0) },
        );
        r
    }

    /// Refreshes the details popup when it shows the updated project: its
    /// pipelines are replaced and the first row selected.
    pub fn refresh_project_details(&mut self, project_id: ProjectId, pipeline_ids: Vec<PipelineId>)
        ensures
            match old(self).project_details {
                Some(d) => if d.project_id == project_id {
                    final(self).project_details == Some(
                        ProjectDetailsState { project_id, pipeline_ids, selected: Some(0usize) },
                    )
                } else {
                    final(self).project_details == old(self).project_details
                },
                None => final(self).project_details is None,
            },
            *final(self) == (StatefulWidgets {
                project_details: final(self).project_details,
                ..*old(self)
            }),
    {
        let refresh = match &self.project_details {
            Some(d) => d.project_id == project_id,
            None => false,
        };
        if refresh {
            self.project_details = Some(
                ProjectDetailsState { project_id, pipeline_ids, selected: Some(0) },
            );
        }
    }

    /// Opens the configuration popup on a configuration.
    pub fn open_config(&mut self, config: &GlimConfig)
        requires
            old(self).wf(),
        ensures
            final(self).wf(),
            final(self).config_popup_state matches Some(c) && c.active() == 0
                && crate::config_popup::fields_of(*config, c.fields()),
            *final(self) == (StatefulWidgets {
                config_popup_state: final(self).config_popup_state,
                ..*old(self)
            }),
    {
        self.config_popup_state = Some(ConfigPopupState::new(config));
    }
}


/// Visual effects the widgets ask for when popups open or data arrives.
#[derive(Clone, Copy, Debug, PartialEq, Eq, Structural)]
pub enum WidgetEffect {
    FadeInProjectsTable,
    OpenProjectDetails,
    OpenPipelineActions,
    OpenConfig,
}

/// The recent pipelines of a stored project, by id: its loaded pipelines in
/// stored order.
pub open spec fn recent_pipeline_ids(p: ProjectView) -> Seq<PipelineId> {
    match p.pipelines {
        Some(ps) => ps.map_values(|q: PipelineView| q.id),
        None => Seq::empty(),
    }
}

/// Index of the first failed job of a list, or `-1`.
pub open spec fn first_failed_index(js: Seq<JobView>) -> int
    decreases js.len(),
{
    if js.len() == 0 {
        -1
    } else {
        let k = first_failed_index(js.drop_last());
        if k >= 0 {
            k
        } else if js.last().status == PipelineStatus::Failed {
            js.len() - 1
        } else {
            -1
        }
    }
}

proof fn lemma_first_failed(js: Seq<JobView>)
    ensures
        -1 <= first_failed_index(js) < js.len(),
        first_failed_index(js) >= 0 ==> js[first_failed_index(js)].status == PipelineStatus::Failed
            && forall|k: int| 0 <= k < first_failed_index(js) ==> #[trigger] js[k].status != PipelineStatus::Failed,
        first_failed_index(js) == -1 ==> forall|k: int| 0 <= k < js.len() ==> #[trigger] js[k].status != PipelineStatus::Failed,
    decreases js.len(),
{
    if js.len() > 0 {
        lemma_first_failed(js.drop_last());
        assert forall|k: int| 0 <= k < js.len() - 1 implies #[trigger] js[k] == js.drop_last()[k] by {}
    }
}

/// The first failed job of a pipeline of a stored project.
pub open spec fn failed_job_of(p: ProjectView, pipeline: PipelineId) -> Option<JobId> {
    match p.pipelines {
        Some(ps) => {
            let j = find_pipeline(ps, pipeline);
            if j >= 0 {
                match ps[j].jobs {
                    Some(js) => if first_failed_index(js) >= 0 {
                        Some(js[first_failed_index(js)].id)
                    } else {
                        None
                    },
                    None => None,
                }
            } else {
                None
            }
        },
        None => None,
    }
}

/// The widgets can take the event: the projects it names are stored.
pub open spec fn widget_event_acceptable(ps: Seq<ProjectView>, e: GlimEvent) -> bool {
    match e {
        GlimEvent::ProjectDetailsOpen(id) => find_index(ps, id) >= 0,
        GlimEvent::PipelineActionsOpen(id, _) => find_index(ps, id) >= 0,
        _ => true,
    }
}

/// Ids of the loaded pipelines of a project.
fn pipeline_ids_of(p: &Project) -> (r: Vec<PipelineId>)
    ensures
        r@ == recent_pipeline_ids(p@),
{
    let mut out: Vec<PipelineId> = Vec::new();
    match &p.pipelines {
        Some(ps) => {
            let mut i: usize = 0;
            while i < ps.len()
                invariant
                    i <= ps@.len(),
                    out@ == pipelines_view(ps@).take(i as int).map_values(|q: PipelineView| q.id),
                decreases ps@.len() - i,
            {
                out.push(ps[i].id);
                proof {
                    let v = pipelines_view(ps@);
                    assert(out@ =~= v.take(i + 1).map_values(|q: PipelineView| q.id));
                }
                i = i + 1;
            }
            assert(pipelines_view(ps@).take(ps@.len() as int) =~= pipelines_view(ps@));
        },
        None => {
            assert(out@ =~= Seq::<PipelineId>::empty());
        },
    }
    out
}

/// Id of the first failed job of a list.
fn first_failed_job(js: &Vec<Job>) -> (r: Option<JobId>)
    ensures
        r == (if first_failed_index(jobs_view(js@)) >= 0 {
            Some(jobs_view(js@)[first_failed_index(jobs_view(js@))].id)
        } else {
            None::<JobId>
        }),
{
    let ghost jv = jobs_view(js@);
    proof {
        lemma_first_failed(jv);
    }
    let mut i: usize = 0;
    while i < js.len()
        invariant
            i <= js@.len(),
            jv == jobs_view(js@),
            forall|k: int| 0 <= k < i ==> #[trigger] js@[k].status != PipelineStatus::Failed,
        decreases js@.len() - i,
    {
        if js[i].status == PipelineStatus::Failed {
            proof {
                lemma_first_failed(jv);
                let f = first_failed_index(jv);
                assert(jv[i as int].status == PipelineStatus::Failed);
                if f >= 0 && f < i {
                    assert(jv[f].status == js@[f].status);
                } else if f != i {
                    assert(jv[i as int].status != PipelineStatus::Failed);
                }
            }
            return Some(js[i].id);
        }
        i = i + 1;
    }
    proof {
        lemma_first_failed(jv);
        let f = first_failed_index(jv);
        if f >= 0 {
            assert(jv[f].status == js@[f].status);
        }
    }
    None
}

/// Id of the first failed job of a pipeline of a project.
pub(crate) fn failed_job_id(p: &Project, pipeline: PipelineId) -> (r: Option<JobId>)
    ensures
        r == failed_job_of(p@, pipeline),
{
    match &p.pipelines {
        Some(ps) => {
            match pipeline_index_of(ps, pipeline) {
                Some(j) => {
                    let q = &ps[j];
                    proof {
                        assert(pipelines_view(ps@)[j as int] == q@);
                    }
                    match &q.jobs {
                        Some(js) => first_failed_job(js),
                        None => None,
                    }
                },
                None => None,
            }
        },
        None => None,
    }
}

/// Ids of the projects in table order: most recently active first.
pub open spec fn table_ids(ps: Seq<ProjectView>, order: Seq<usize>) -> Seq<ProjectId> {
    order.map_values(|i: usize| ps[i as int].id)
}

/// Ids of the stored projects, most recently active first.
fn sorted_ids(store: &ProjectStore) -> (r: Vec<ProjectId>)
    requires
        store.wf(),
    ensures
        r@ == table_ids(store.view(), store.order()),
{
    let projects = store.sorted_projects();
    let mut out: Vec<ProjectId> = Vec::new();
    let mut i: usize = 0;
    while i < projects.len()
        invariant
            i <= projects@.len(),
            projects@.len() == store.order().len(),
            forall|k: int| 0 <= k < projects@.len() ==> #[trigger] projects@[k]@ == store.view()[store.order()[k] as int],
            out@ == table_ids(store.view(), store.order()).take(i as int),
        decreases projects@.len() - i,
    {
        out.push(projects[i].id);
        proof {
            assert(projects@[i as int]@ == store.view()[store.order()[i as int] as int]);
            assert(out@ =~= table_ids(store.view(), store.order()).take(i + 1));
        }
        i = i + 1;
    }
    assert(table_ids(store.view(), store.order()).take(i as int) =~= table_ids(store.view(), store.order()));
    out
}

impl StatefulWidgets {
    /// Moves the project selection among the stored projects in table order.
    fn step_project_selection(&mut self, direction: i32, store: &ProjectStore) -> (r: Vec<GlimEvent>)
        requires
            direction == 1 || direction == -1,
            store.wf(),
            forall|k: int|
                0 <= k < old(self).current_filtered_indices@.len()
                    ==> #[trigger] old(self).current_filtered_indices@[k] < store.view().len(),
        ensures
            r@.len() <= 1,
            selection_moved(
                old(self).project_selected,
                old(self).current_filtered_indices@,
                table_ids(store.view(), store.order()),
                direction as int,
                final(self).project_selected,
                if r@.len() == 1 {
                    Some(r@[0])
                } else {
                    None
                },
            ),
            *final(self) == (StatefulWidgets {
                project_selected: final(self).project_selected,
                ..*old(self)
            }),
    {
        let ids = sorted_ids(store);
        proof {
            store.lemma_wf();
        }
        let e = self.handle_project_selection(direction, &ids);
        let mut events: Vec<GlimEvent> = Vec::new();
        match e {
            Some(x) => events.push(x),
            None => {},
        }
        events
    }

    /// Reacts to an event: moves selections, opens and closes popups, and
    /// edits the project filter. Returns the events to dispatch and the
    /// visual effect to start. `config` is the configuration a configuration
    /// popup opens on.
    #[verifier::spinoff_prover]
    pub fn apply(&mut self, event: &GlimEvent, store: &ProjectStore, config: &GlimConfig) -> (r: (
        Vec<GlimEvent>,
        Option<WidgetEffect>,
    ))
        requires
            old(self).wf(),
            store.wf(),
            widget_event_acceptable(store.view(), *event),
            forall|k: int|
                0 <= k < old(self).current_filtered_indices@.len()
                    ==> #[trigger] old(self).current_filtered_indices@[k] < store.view().len(),
        ensures
            final(self).wf(),
            final(self).current_filtered_indices == old(self).current_filtered_indices,
            match *event {
                GlimEvent::ProjectNext => {
                    &&& r.1 is None
                    &&& r.0@.len() <= 1
                    &&& selection_moved(
                        old(self).project_selected,
                        old(self).current_filtered_indices@,
                        table_ids(store.view(), store.order()),
                        1,
                        final(self).project_selected,
                        if r.0@.len() == 1 {
                            Some(r.0@[0])
                        } else {
                            None
                        },
                    )
               
                    &&& *final(self) == (StatefulWidgets {
                        project_selected: final(self).project_selected,
                        ..*old(self)
                    })
                },
                GlimEvent::ProjectPrevious => {
                    &&& r.1 is None
                    &&& r.0@.len() <= 1
                    &&& selection_moved(
                        old(self).project_selected,
                        old(self).current_filtered_indices@,
                        table_ids(store.view(), store.order()),
                        -1,
                        final(self).project_selected,
                        if r.0@.len() == 1 {
                            Some(r.0@[0])
                        } else {
                            None
                        },
                    )
               
                    &&& *final(self) == (StatefulWidgets {
                        project_selected: final(self).project_selected,
                        ..*old(self)
                    })
                },
                GlimEvent::ProjectsLoaded(_) => {
                    &&& *final(self) == *old(self)
                    &&& r.0@.len() == 0
                    &&& r.1 == Some(WidgetEffect::FadeInProjectsTable)
                },
                GlimEvent::ProjectDetailsOpen(id) => {
                    let ids = recent_pipeline_ids(store.view()[find_index(store.view(), id)]);
                    &&& final(self).project_details matches Some(d) && d.project_id == id
                        && d.pipeline_ids@ == ids && d.selected == Some(0usize)
                    &&& r.0@ == if ids.len() > 0 {
                        seq![GlimEvent::PipelineSelected(ids[0])]
                    } else {
                        Seq::empty()
                    }
                    &&& r.1 == Some(WidgetEffect::OpenProjectDetails)
                    &&& *final(self) == (StatefulWidgets {
                        project_details: final(self).project_details,
                        ..*old(self)
                    })
                },
                GlimEvent::ProjectDetailsClose => {
                    &&& *final(self) == (StatefulWidgets { project_details: None, ..*old(self) })
                    &&& r.0@.len() == 0 && r.1 is None
                },
                GlimEvent::ProjectUpdated(p) => {
                    &&& if old(self).project_details matches Some(d) && d.project_id == p.id {
                        final(self).project_details matches Some(t) && t.project_id == p.id
                            && t.pipeline_ids@ == recent_pipeline_ids((*p)@)
                            && t.selected == Some(0usize)
                    } else {
                        final(self).project_details == old(self).project_details
                    }
                    &&& *final(self) == (StatefulWidgets {
                        project_details: final(self).project_details,
                        ..*old(self)
                    })
                    &&& r.0@.len() == 0 && r.1 is None
                },
                GlimEvent::PipelineActionsClose => {
                    &&& *final(self) == (StatefulWidgets { pipeline_actions: None, ..*old(self) })
                    &&& r.0@.len() == 0 && r.1 is None
                },
                GlimEvent::PipelineActionsOpen(project, pipeline) => {
                    let p = store.view()[find_index(store.view(), project)];
                    &&& final(self).pipeline_actions matches Some(s) && s.actions@
                        == pipeline_actions_for(project, pipeline, failed_job_of(p, pipeline))
                        && s.selected == Some(0usize)
                    &&& *final(self) == (StatefulWidgets {
                        pipeline_actions: final(self).pipeline_actions,
                        ..*old(self)
                    })
                    &&& r.0@.len() == 0
                    &&& r.1 == Some(WidgetEffect::OpenPipelineActions)
                },
                GlimEvent::ConfigOpen => {
                    &&& final(self).config_popup_state matches Some(c) && c.active() == 0
                        && crate::config_popup::fields_of(*config, c.fields())
                    &&& *final(self) == (StatefulWidgets {
                        config_popup_state: final(self).config_popup_state,
                        ..*old(self)
                    })
                    &&& r.0@.len() == 0
                    &&& r.1 == Some(WidgetEffect::OpenConfig)
                },
                GlimEvent::ConfigClose => {
                    &&& *final(self) == (StatefulWidgets { config_popup_state: None, ..*old(self) })
                    &&& r.0@.len() == 0 && r.1 is None
                },
                GlimEvent::FilterMenuShow => {
                    &&& final(self).filter_input_active
                    &&& final(self).filter_input_text@ == match old(self).temporary_filter {
                        Some(t) => t@,
                        None => Seq::empty(),
                    }
                    &&& *final(self) == (StatefulWidgets {
                        filter_input_active: true,
                        filter_input_text: final(self).filter_input_text,
                        ..*old(self)
                    })
                    &&& r.0@.len() == 0 && r.1 is None
                },
                GlimEvent::FilterMenuClose => {
                    &&& *final(self) == (StatefulWidgets { filter_input_active: false, ..*old(self) })
                    &&& r.0@.len() == 0 && r.1 is None
                },
                GlimEvent::FilterInputChar(c) => {
                    &&& old(self).filter_input_active ==> {
                        &&& final(self).filter_input_text@ == old(self).filter_input_text@ + c@
                        &&& typed_filter(
                            final(self).filter_input_text@,
                            final(self).temporary_filter,
                        )
                        &&& final(self).project_selected == Some(0usize)
                        &&& final(self).filter_input_active
                    }
                    &&& !old(self).filter_input_active ==> *final(self) == *old(self)
                    &&& *final(self) == (StatefulWidgets {
                        filter_input_text: final(self).filter_input_text,
                        temporary_filter: final(self).temporary_filter,
                        project_selected: final(self).project_selected,
                        ..*old(self)
                    })
                    &&& r.0@.len() == 0 && r.1 is None
                },
                GlimEvent::FilterInputBackspace => {
                    &&& old(self).filter_input_active ==> {
                        &&& final(self).filter_input_text@ == if old(
                            self,
                        ).filter_input_text@.len() > 0 {
                            old(self).filter_input_text@.drop_last()
                        } else {
                            old(self).filter_input_text@
                        }
                        &&& typed_filter(
                            final(self).filter_input_text@,
                            final(self).temporary_filter,
                        )
                        &&& final(self).project_selected == Some(0usize)
                        &&& final(self).filter_input_active
                    }
                    &&& !old(self).filter_input_active ==> *final(self) == *old(self)
                    &&& *final(self) == (StatefulWidgets {
                        filter_input_text: final(self).filter_input_text,
                        temporary_filter: final(self).temporary_filter,
                        project_selected: final(self).project_selected,
                        ..*old(self)
                    })
                    &&& r.0@.len() == 0 && r.1 is None
                },
                GlimEvent::FilterClear => {
                    &&& final(self).filter_input_text@.len() == 0
                    &&& !final(self).filter_input_active
                    &&& final(self).temporary_filter is None
                    &&& *final(self) == (StatefulWidgets {
                        filter_input_text: final(self).filter_input_text,
                        filter_input_active: false,
                        temporary_filter: None,
                        ..*old(self)
                    })
                    &&& r.0@ == seq![GlimEvent::ApplyTemporaryFilter(None)]
                    &&& r.1 is None
                },
                GlimEvent::ApplyTemporaryFilter(f) => {
                    &&& *final(self) == (StatefulWidgets {
                        temporary_filter: f,
                        filter_input_active: false,
                        project_selected: Some(0usize),
                        ..*old(self)
                    })
                    &&& r.0@.len() == 0 && r.1 is None
                },
                _ => *final(self) == *old(self) && r.0@.len() == 0 && r.1 is None,
            },
    {
        let mut events: Vec<GlimEvent> = Vec::new();
        match event {
            GlimEvent::ProjectNext => {
                let e = self.step_project_selection(1, store);
                (e, None)
            },
            GlimEvent::ProjectPrevious => {
                let e = self.step_project_selection(-1, store);
                (e, None)
            },
            GlimEvent::ProjectsLoaded(_) => (events, Some(WidgetEffect::FadeInProjectsTable)),
            GlimEvent::ProjectDetailsOpen(id) => {
                let p = store.find(*id).unwrap();
                let ids = pipeline_ids_of(p);
                let e = self.open_project_details(*id, ids);
                match e {
                    Some(x) => events.push(x),
                    None => {},
                }
                assert(events@ =~= crate::input::opt_seq(e));
                (events, Some(WidgetEffect::OpenProjectDetails))
            },
            GlimEvent::ProjectDetailsClose => {
                self.project_details = None;
                (events, None)
            },
            GlimEvent::ProjectUpdated(p) => {
                let ids = pipeline_ids_of(p);
                self.refresh_project_details(p.id, ids);
                (events, None)
            },
            GlimEvent::PipelineActionsClose => {
                self.pipeline_actions = None;
                (events, None)
            },
            GlimEvent::PipelineActionsOpen(project, pipeline) => {
                let p = store.find(*project).unwrap();
                let failed = failed_job_id(p, *pipeline);
                self.open_pipeline_actions(*project, *pipeline, failed);
                (events, Some(WidgetEffect::OpenPipelineActions))
            },
            GlimEvent::ConfigOpen => {
                self.open_config(config);
                (events, Some(WidgetEffect::OpenConfig))
            },
            GlimEvent::ConfigClose => {
                self.config_popup_state = None;
                (events, None)
            },
            GlimEvent::FilterMenuShow => {
                self.show_filter_input();
                (events, None)
            },
            GlimEvent::FilterMenuClose => {
                self.close_filter_input();
                (events, None)
            },
            GlimEvent::FilterInputChar(c) => {
                self.add_filter_char(c.as_str());
                (events, None)
            },
            GlimEvent::FilterInputBackspace => {
                self.remove_filter_char();
                (events, None)
            },
            GlimEvent::FilterClear => {
                let e = self.clear_filter();
                events.push(e);
                (events, None)
            },
            GlimEvent::ApplyTemporaryFilter(f) => {
                self.apply_temporary_filter(f.clone());
                (events, None)
            },
            _ => (events, None),
        }
    }
}

/// Stepping the selection `current` by `step` in a list of `len` rows stays
/// within the 32-bit index arithmetic of the selection code.
pub open spec fn step_in_range(current: int, len: int, step: int) -> bool {
    &&& len <= i32::MAX
    &&& current < i32::MAX
    &&& i32::MIN <= current + step <= i32::MAX
    &&& crate::modulo::modulo_fits(current + step, len, i32::MIN as int, i32::MAX as int)
}

/// Whether stepping a selection stays within the 32-bit index arithmetic.
fn step_fits(current: usize, len: usize, step: i32) -> (r: bool)
    ensures
        r == step_in_range(current as int, len as int, step as int),
{
    if len > 2147483647usize || current >= 2147483647usize {
        return false;
    }
    let a: i64 = current as i64 + step as i64;
    if a < -2147483648i64 || a > 2147483647i64 {
        return false;
    }
    if len == 0 {
        return true;
    }
    let l: i64 = len as i64;
    proof {
        crate::modulo::lemma_signed_rem(a as int, l as int);
    }
    let t: i64 = a % l;
    proof {
        assert(t == crate::modulo::trunc_rem(a as int, l as int));
    }
    t + l <= 2147483647i64 && t + l >= -2147483648i64
}

/// How a change asked for by a key press leaves the widgets, and the
/// events it dispatches. Selection steps wrap around their list and name
/// the pipeline now selected; a step beyond the 32-bit index arithmetic is
/// ignored. Configuration commands act on the configuration popup when it
/// is open. Nothing but the popup a command is for changes.
pub open spec fn command_applied(
    o: StatefulWidgets,
    cmd: UiCommand,
    n: StatefulWidgets,
    events: Seq<GlimEvent>,
) -> bool {
    &&& rest_unchanged(o, n)
    &&& match cmd {
        UiCommand::Nothing => n == o && events.len() == 0,
        UiCommand::SelectPipeline(step) => {
            &&& n.pipeline_actions == o.pipeline_actions
            &&& n.config_popup_state == o.config_popup_state
            &&& match o.project_details {
                Some(d) => match d.selected {
                    Some(c) => if step_in_range(c as int, d.pipeline_ids@.len() as int, step as int) {
                        &&& n.project_details matches Some(t) && t.project_id == d.project_id
                            && t.pipeline_ids == d.pipeline_ids && if d.pipeline_ids@.len() == 0 {
                            t.selected is None && events.len() == 0
                        } else {
                            let i = modulo_spec(c + step, d.pipeline_ids@.len() as int);
                            &&& t.selected == Some(i as usize)
                            &&& events == seq![GlimEvent::PipelineSelected(d.pipeline_ids@[i])]
                        }
                    } else {
                        n.project_details == o.project_details && events.len() == 0
                    },
                    None => n.project_details == o.project_details && events.len() == 0,
                },
                None => n.project_details is None && events.len() == 0,
            }
        },
        UiCommand::SelectPipelineAction(step) => {
            &&& n.project_details == o.project_details
            &&& n.config_popup_state == o.config_popup_state
            &&& events.len() == 0
            &&& match o.pipeline_actions {
                Some(s) => match s.selected {
                    Some(c) => if step_in_range(c as int, s.actions@.len() as int, step as int) {
                        n.pipeline_actions matches Some(t) && t.actions == s.actions && t.selected
                            == Some(modulo_spec(c + step, s.actions@.len() as int) as usize)
                    } else {
                        n.pipeline_actions == o.pipeline_actions
                    },
                    None => n.pipeline_actions == o.pipeline_actions,
                },
                None => n.pipeline_actions is None,
            }
        },
        _ => {
            &&& n.project_details == o.project_details
            &&& n.pipeline_actions == o.pipeline_actions
            &&& events.len() == 0
            &&& match o.config_popup_state {
                Some(c) => n.config_popup_state matches Some(m) && match cmd {
                    UiCommand::ConfigSelectNext => m.active() == (c.active() + 1) % 4
                        && m.fields() == c.fields() && m.error() == c.error(),
                    UiCommand::ConfigSelectPrevious => m.active() == (if c.active() == 0 {
                        3
                    } else {
                        c.active() - 1
                    }) && m.fields() == c.fields() && m.error() == c.error(),
                    UiCommand::ConfigCycleNext => cycled_next(c, m),
                    UiCommand::ConfigCyclePrevious => cycled_prev(c, m),
                    UiCommand::EditConfigInput(k) => key_edited(c, k, m),
                    _ => false,
                },
                None => n.config_popup_state is None,
            }
        },
    }
}

impl StatefulWidgets {
    /// Carries out a change asked for by a key press, returning the events
    /// to dispatch.
    pub fn apply_command(&mut self, cmd: UiCommand) -> (r: Vec<GlimEvent>)
        requires
            old(self).wf(),
            old(self).config_popup_state matches Some(c) ==> c.fields()[c.active()].value@.len()
                < usize::MAX,
        ensures
            final(self).wf(),
            command_applied(*old(self), cmd, *final(self), r@),
    {
        let mut events: Vec<GlimEvent> = Vec::new();
        match cmd {
            UiCommand::Nothing => {},
            UiCommand::SelectPipeline(step) => {
                let fits = match &self.project_details {
                    Some(d) => match d.selected {
                        Some(c) => step_fits(c, d.pipeline_ids.len(), step),
                        None => true,
                    },
                    None => true,
                };
                if fits {
                    match self.handle_pipeline_selection(step) {
                        Some(e) => events.push(e),
                        None => {},
                    }
                }
            },
            UiCommand::SelectPipelineAction(step) => {
                let fits = match &self.pipeline_actions {
                    Some(s) => match s.selected {
                        Some(c) => step_fits(c, s.actions.len(), step),
                        None => true,
                    },
                    None => true,
                };
                if fits {
                    self.handle_pipeline_action_selection(step);
                }
            },
            UiCommand::ConfigSelectNext => {
                if let Some(c) = &mut self.config_popup_state {
                    c.select_next_input();
                }
            },
            UiCommand::ConfigSelectPrevious => {
                if let Some(c) = &mut self.config_popup_state {
                    c.select_previous_input();
                }
            },
            UiCommand::ConfigCycleNext => {
                if let Some(c) = &mut self.config_popup_state {
                    c.cycle_dropdown_next();
                }
            },
            UiCommand::ConfigCyclePrevious => {
                if let Some(c) = &mut self.config_popup_state {
                    c.cycle_dropdown_prev();
                }
            },
            UiCommand::EditConfigInput(k) => {
                if let Some(c) = &mut self.config_popup_state {
                    c.edit_input(k);
                }
            },
        }
        events
    }
}

/// A step of the project selection keeps it inside the rows shown, and the
/// project it names is one of the rows shown.
pub proof fn lemma_selection_in_rows(
    selected: Option<usize>,
    indices: Seq<usize>,
    ids: Seq<ProjectId>,
    direction: int,
    new_selected: Option<usize>,
    r: Option<GlimEvent>,
)
    requires
        selection_moved(selected, indices, ids, direction, new_selected, r),
        indices.len() > 0 || ids.len() > 0,
        selected matches Some(c) ==> c < (if indices.len() == 0 {
            ids.len()
        } else {
            indices.len()
        }),
    ensures
        new_selected matches Some(i) && i < (if indices.len() == 0 {
            ids.len()
        } else {
            indices.len()
        }),
{
}

/// Moving the project selection down and then up comes back to the row it
/// started on, unless that was the last row shown.
pub proof fn lemma_down_then_up(
    selected: usize,
    indices: Seq<usize>,
    ids: Seq<ProjectId>,
    middle: Option<usize>,
    first: Option<GlimEvent>,
    last: Option<usize>,
    second: Option<GlimEvent>,
)
    requires
        selection_moved(Some(selected), indices, ids, 1, middle, first),
        selection_moved(middle, indices, ids, -1, last, second),
        indices.len() <= usize::MAX,
        ids.len() <= usize::MAX,
        selected + 1 < (if indices.len() == 0 {
            ids.len()
        } else {
            indices.len()
        }),
    ensures
        last == Some(selected),
{
    let count = if indices.len() == 0 {
        ids.len() as int
    } else {
        indices.len() as int
    };
    assert(stepped_row(selected as int, 1, count) == selected + 1);
}

/// Typing a character into the project filter and then removing it gives
/// back the filter text.
pub proof fn lemma_type_then_remove(text: Seq<char>, c: char)
    ensures
        (text + seq![c]).drop_last() == text,
{
    assert((text + seq![c]).drop_last() =~= text);
}

/// The pipeline actions popup always offers opening the pipeline and opening
/// its project in the browser; with a failed job it also offers, first,
/// opening that job, and downloading its log: four actions, else two.
pub proof fn lemma_pipeline_actions_offered(
    project: ProjectId,
    pipeline: PipelineId,
    failed_job: Option<JobId>,
)
    ensures
        pipeline_actions_for(project, pipeline, failed_job).contains(
            PipelineAction::PipelineOpenUrl(project, pipeline),
        ),
        pipeline_actions_for(project, pipeline, failed_job).contains(
            PipelineAction::ProjectOpenUrl(project),
        ),
        failed_job matches Some(job) ==> pipeline_actions_for(project, pipeline, failed_job).len()
            == 4 && pipeline_actions_for(project, pipeline, failed_job)[0]
            == PipelineAction::JobOpenUrl(project, pipeline, job) && pipeline_actions_for(
            project,
            pipeline,
            failed_job,
        ).contains(PipelineAction::JobLogFetch(project, pipeline)),
        failed_job is None ==> pipeline_actions_for(project, pipeline, failed_job).len() == 2,
{
    let a = pipeline_actions_for(project, pipeline, failed_job);
    match failed_job {
        Some(job) => {
            assert(a[1] == PipelineAction::PipelineOpenUrl(project, pipeline));
            assert(a[2] == PipelineAction::ProjectOpenUrl(project));
            assert(a[3] == PipelineAction::JobLogFetch(project, pipeline));
        },
        None => {
            assert(a[0] == PipelineAction::PipelineOpenUrl(project, pipeline));
            assert(a[1] == PipelineAction::ProjectOpenUrl(project));
        },
    }
}

} // verus!
