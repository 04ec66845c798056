//! Notices for the user: errors and information waiting to be shown.
use std::collections::VecDeque;

use vstd::prelude::*;

use crate::error::{GlimError, JsonErrorCategory};
use crate::event::GlimEvent;
use crate::ids::{JobId, PipelineId, ProjectId};

verus! {

/// Severity of a notice.
#[derive(Clone, Copy, Debug, PartialEq, Eq, Structural)]
pub enum NoticeLevel {
    Info,
    Error,
}

/// What a notice says.
#[derive(Debug)]
pub enum NoticeMessage {
    GeneralMessage(String),
    JobLogDownloaded(ProjectId, PipelineId, JobId),
    ConfigError(String),
    JsonDeserializeError(JsonErrorCategory, String),
    GitlabGetJobsError(ProjectId, PipelineId, String),
    GitlabGetTriggerJobsError(ProjectId, PipelineId, String),
    GitlabGetPipelinesError(ProjectId, PipelineId, String),
}

/// A message with its severity.
#[derive(Debug)]
pub struct Notice {
    pub level: NoticeLevel,
    pub message: NoticeMessage,
}

impl Clone for NoticeMessage {
    fn clone(&self) -> (r: NoticeMessage)
        ensures
            r == *self,
    {
        match self {
            NoticeMessage::GeneralMessage(s) => NoticeMessage::GeneralMessage(s.clone()),
            NoticeMessage::JobLogDownloaded(p, q, j) => NoticeMessage::JobLogDownloaded(*p, *q, *j),
            NoticeMessage::ConfigError(s) => NoticeMessage::ConfigError(s.clone()),
            NoticeMessage::JsonDeserializeError(c, s) => NoticeMessage::JsonDeserializeError(
                *c,
                s.clone(),
            ),
            NoticeMessage::GitlabGetJobsError(p, q, s) => NoticeMessage::GitlabGetJobsError(
                *p,
                *q,
                s.clone(),
            ),
            NoticeMessage::GitlabGetTriggerJobsError(p, q, s) =>
                NoticeMessage::GitlabGetTriggerJobsError(*p, *q, s.clone()),
            NoticeMessage::GitlabGetPipelinesError(p, q, s) =>
                NoticeMessage::GitlabGetPipelinesError(*p, *q, s.clone()),
        }
    }
}

impl Clone for Notice {
    fn clone(&self) -> (r: Notice)
        ensures
            r == *self,
    {
        Notice { level: self.level, message: self.message.clone() }
    }
}

/// The project a notice is about, when it names one.
pub open spec fn notice_project(m: NoticeMessage) -> Option<ProjectId> {
    match m {
        NoticeMessage::JobLogDownloaded(p, _, _) => Some(p),
        NoticeMessage::GitlabGetJobsError(p, _, _) => Some(p),
        NoticeMessage::GitlabGetTriggerJobsError(p, _, _) => Some(p),
        NoticeMessage::GitlabGetPipelinesError(p, _, _) => Some(p),
        _ => None,
    }
}

/// The project a notice is about, when it names one; the notification shows
/// that project's title.
pub fn notice_project_id(m: &NoticeMessage) -> (r: Option<ProjectId>)
    ensures
        r == notice_project(*m),
{
    match m {
        NoticeMessage::JobLogDownloaded(p, _, _) => Some(*p),
        NoticeMessage::GitlabGetJobsError(p, _, _) => Some(*p),
        NoticeMessage::GitlabGetTriggerJobsError(p, _, _) => Some(*p),
        NoticeMessage::GitlabGetPipelinesError(p, _, _) => Some(*p),
        _ => None,
    }
}

/// The notice message an application error is shown as; token errors are not shown.
pub open spec fn error_notice(e: GlimError) -> Option<NoticeMessage> {
    match e {
        GlimError::ConfigError(s) => Some(NoticeMessage::ConfigError(s)),
        GlimError::GeneralError(s) => Some(NoticeMessage::GeneralMessage(s)),
        GlimError::JsonDeserializeError(c, s) => Some(NoticeMessage::JsonDeserializeError(c, s)),
        GlimError::GitlabGetJobsError(p, q, s) => Some(NoticeMessage::GitlabGetJobsError(p, q, s)),
        GlimError::GitlabGetTriggerJobsError(p, q, s) => Some(
            NoticeMessage::GitlabGetTriggerJobsError(p, q, s),
        ),
        GlimError::GitlabGetPipelinesError(p, q, s) => Some(
            NoticeMessage::GitlabGetPipelinesError(p, q, s),
        ),
        _ => None,
    }
}

/// The notice message for an application error, if it is shown at all.
pub fn notice_for_error(e: &GlimError) -> (r: Option<NoticeMessage>)
    ensures
        r == error_notice(*e),
{
    match e {
        GlimError::ConfigError(s) => Some(NoticeMessage::ConfigError(s.clone())),
        GlimError::GeneralError(s) => Some(NoticeMessage::GeneralMessage(s.clone())),
        GlimError::JsonDeserializeError(c, s) => Some(
            NoticeMessage::JsonDeserializeError(*c, s.clone()),
        ),
        GlimError::GitlabGetJobsError(p, q, s) => Some(
            NoticeMessage::GitlabGetJobsError(*p, *q, s.clone()),
        ),
        GlimError::GitlabGetTriggerJobsError(p, q, s) => Some(
            NoticeMessage::GitlabGetTriggerJobsError(*p, *q, s.clone()),
        ),
        GlimError::GitlabGetPipelinesError(p, q, s) => Some(
            NoticeMessage::GitlabGetPipelinesError(*p, *q, s.clone()),
        ),
        _ => None,
    }
}

/// The waiting notices of both levels, and the notice shown last.
pub struct NoticeQueues {
    pub infos: Seq<Notice>,
    pub errors: Seq<Notice>,
    pub most_recent: Option<Notice>,
}

/// Each queue holds notices of its own level.
pub open spec fn queues_wf(q: NoticeQueues) -> bool {
    &&& forall|i: int| 0 <= i < q.errors.len() ==> (#[trigger] q.errors[i]).level == NoticeLevel::Error
    &&& forall|i: int| 0 <= i < q.infos.len() ==> (#[trigger] q.infos[i]).level == NoticeLevel::Info
}

/// The queues after a notice of the given level was queued.
pub open spec fn queued(q: NoticeQueues, level: NoticeLevel, message: NoticeMessage) -> NoticeQueues {
    let n = Notice { level, message };
    match level {
        NoticeLevel::Info => NoticeQueues { infos: q.infos.push(n), ..q },
        NoticeLevel::Error => NoticeQueues { errors: q.errors.push(n), ..q },
    }
}

/// The notice to show next: the oldest error, else the oldest information.
pub open spec fn next_notice(q: NoticeQueues) -> Option<Notice> {
    if q.errors.len() > 0 {
        Some(q.errors[0])
    } else if q.infos.len() > 0 {
        Some(q.infos[0])
    } else {
        None
    }
}

/// The queues after the next notice was taken.
pub open spec fn popped(q: NoticeQueues) -> NoticeQueues {
    if q.errors.len() > 0 {
        NoticeQueues { errors: q.errors.drop_first(), most_recent: Some(q.errors[0]), ..q }
    } else if q.infos.len() > 0 {
        NoticeQueues { infos: q.infos.drop_first(), most_recent: Some(q.infos[0]), ..q }
    } else {
        q
    }
}

/// `new` is what the queues become after an event: errors that are shown
/// become error notices, a downloaded job log becomes an information notice
/// reading "Job log downloaded", other events change nothing.
pub open spec fn applied(q: NoticeQueues, e: GlimEvent, new: NoticeQueues) -> bool {
    match e {
        GlimEvent::AppError(err) => match error_notice(err) {
            Some(m) => new == queued(q, NoticeLevel::Error, m),
            None => new == q,
        },
        GlimEvent::JobLogDownloaded(_, _, _) => {
            &&& new.errors == q.errors
            &&& new.most_recent == q.most_recent
            &&& new.infos.len() == q.infos.len() + 1
            &&& new.infos.drop_last() == q.infos
            &&& new.infos.last().level == NoticeLevel::Info
            &&& new.infos.last().message matches NoticeMessage::GeneralMessage(s)
            &&& s@ == "Job log downloaded"@
        },
        _ => new == q,
    }
}

/// Queues of notices waiting to be shown, errors ahead of information.
#[derive(Debug)]
pub struct NoticeService {
    info_notices: VecDeque<Notice>,
    error_notices: VecDeque<Notice>,
    most_recent: Option<Notice>,
}

impl View for NoticeService {
    type V = NoticeQueues;

    closed spec fn view(&self) -> NoticeQueues {
        NoticeQueues {
            infos: self.info_notices@,
            errors: self.error_notices@,
            most_recent: self.most_recent,
        }
    }
}

impl NoticeService {
    pub fn new() -> (r: NoticeService)
        ensures
            r@.infos.len() == 0,
            r@.errors.len() == 0,
            r@.most_recent is None,
            queues_wf(r@),
    {
        NoticeService {
            info_notices: VecDeque::new(),
            error_notices: VecDeque::new(),
            most_recent: None,
        }
    }

    /// Records the notice an event calls for.
    pub fn apply(&mut self, event: &GlimEvent)
        ensures
            applied(old(self)@, *event, final(self)@),
            queues_wf(old(self)@) ==> queues_wf(final(self)@),
    {
        match event {
            GlimEvent::AppError(e) => {
                match notice_for_error(e) {
                    Some(m) => self.push_notice(NoticeLevel::Error, m),
                    None => {},
                }
            },
            GlimEvent::JobLogDownloaded(_, _, _) => {
                self.push_notice(
                    NoticeLevel::Info,
                    NoticeMessage::GeneralMessage(String::from_str("Job log downloaded")),
                );
                assert(self@.infos.drop_last() =~= old(self)@.infos);
            },
            _ => {},
        }
    }

    /// An error notice is waiting.
    pub fn has_error(&self) -> (r: bool)
        ensures
            r == (self@.errors.len() > 0),
    {
        self.error_notices.len() != 0
    }

    /// The notice shown last, if any.
    pub fn last_notification(&self) -> (r: Option<&Notice>)
        ensures
            r == match self@.most_recent {
                Some(n) => Some(&n),
                None => None,
            },
    {
        self.most_recent.as_ref()
    }

    /// Takes the next notice to show: the oldest error, else the oldest
    /// information; it becomes the most recent notice.
    pub fn pop_notice(&mut self) -> (r: Option<Notice>)
        ensures
            r == next_notice(old(self)@),
            final(self)@ == popped(old(self)@),
            queues_wf(old(self)@) ==> queues_wf(final(self)@),
    {
        let notice = match self.error_notices.pop_front() {
            Some(n) => Some(n),
            None => self.info_notices.pop_front(),
        };
        match &notice {
            Some(n) => {
                self.most_recent = Some(n.clone());
            },
            None => {},
        }
        notice
    }

    /// Queues a notice behind those of its level.
    pub fn push_notice(&mut self, level: NoticeLevel, message: NoticeMessage)
        ensures
            final(self)@ == queued(old(self)@, level, message),
            queues_wf(old(self)@) ==> queues_wf(final(self)@),
    {
        let notice = Notice { level, message };
        match level {
            NoticeLevel::Info => self.info_notices.push_back(notice),
            NoticeLevel::Error => self.error_notices.push_back(notice),
        }
    }
}

/// A newly queued notice does not overtake the one waiting to be shown,
/// unless it is the first error to wait, which goes ahead of information.
pub proof fn lemma_queue_keeps_next(q: NoticeQueues, level: NoticeLevel, message: NoticeMessage)
    requires
        next_notice(q) is Some,
        !(level == NoticeLevel::Error && q.errors.len() == 0),
    ensures
        next_notice(queued(q, level, message)) == next_notice(q),
{
}

/// The first error to wait is the next notice shown, ahead of any information.
pub proof fn lemma_first_error_goes_first(q: NoticeQueues, message: NoticeMessage)
    requires
        q.errors.len() == 0,
    ensures
        next_notice(queued(q, NoticeLevel::Error, message)) == Some(
            Notice { level: NoticeLevel::Error, message },
        ),
{
}

/// Notices of one level are shown in the order they were queued: taking
/// the next one leaves the rest of its queue in order, and it becomes the
/// most recent notice.
pub proof fn lemma_pop_in_order(q: NoticeQueues)
    ensures
        q.errors.len() > 0 ==> popped(q).errors == q.errors.drop_first() && popped(q).infos
            == q.infos && popped(q).most_recent == Some(q.errors[0]),
        q.errors.len() == 0 && q.infos.len() > 0 ==> popped(q).infos == q.infos.drop_first()
            && popped(q).errors == q.errors && popped(q).most_recent == Some(q.infos[0]),
        q.errors.len() == 0 && q.infos.len() == 0 ==> popped(q) == q && next_notice(q) is None,
{
}

/// One call on the notice queues: queueing a notice, taking the next one,
/// or recording an event.
pub enum NoticeStep {
    Push(NoticeLevel, NoticeMessage),
    Pop,
    Event(GlimEvent),
}

/// `new` is what the queues `q` become after the call `step`.
pub open spec fn step_taken(q: NoticeQueues, step: NoticeStep, new: NoticeQueues) -> bool {
    match step {
        NoticeStep::Push(level, message) => new == queued(q, level, message),
        NoticeStep::Pop => new == popped(q),
        NoticeStep::Event(e) => applied(q, e, new),
    }
}

/// The call queues an error notice.
pub open spec fn queues_error(step: NoticeStep) -> bool {
    match step {
        NoticeStep::Push(level, _) => level == NoticeLevel::Error,
        NoticeStep::Event(GlimEvent::AppError(err)) => error_notice(err) is Some,
        _ => false,
    }
}

/// The call takes an error notice off the queues `q`.
pub open spec fn pops_error(q: NoticeQueues, step: NoticeStep) -> bool {
    step is Pop && (next_notice(q) matches Some(n) && n.level == NoticeLevel::Error)
}

/// How many of the first `k` calls queued an error.
pub open spec fn errors_queued(steps: Seq<NoticeStep>, k: int) -> int
    decreases k,
{
    if k <= 0 || k > steps.len() {
        0
    } else {
        errors_queued(steps, k - 1) + if queues_error(steps[k - 1]) {
            1int
        } else {
            0int
        }
    }
}

/// How many of the first `k` calls took an error, the queues before each
/// call being `qs`.
pub open spec fn errors_popped(qs: Seq<NoticeQueues>, steps: Seq<NoticeStep>, k: int) -> int
    decreases k,
{
    if k <= 0 || k > steps.len() {
        0
    } else {
        errors_popped(qs, steps, k - 1) + if pops_error(qs[k - 1], steps[k - 1]) {
            1int
        } else {
            0int
        }
    }
}

/// Over any history of calls starting from queues with no error, an error
/// waits exactly while more errors have been queued than taken; and taking
/// a notice gives information only when no error waits.
pub proof fn lemma_error_history(qs: Seq<NoticeQueues>, steps: Seq<NoticeStep>)
    requires
        qs.len() == steps.len() + 1,
        queues_wf(qs[0]),
        qs[0].errors.len() == 0,
        forall|i: int| 0 <= i < steps.len() ==> step_taken(#[trigger] qs[i], steps[i], qs[i + 1]),
    ensures
        qs.last().errors.len() == errors_queued(steps, steps.len() as int) - errors_popped(
            qs,
            steps,
            steps.len() as int,
        ),
        (qs.last().errors.len() > 0) == (errors_queued(steps, steps.len() as int) > errors_popped(
            qs,
            steps,
            steps.len() as int,
        )),
        forall|i: int|
            0 <= i < steps.len() && #[trigger] steps[i] is Pop && (next_notice(qs[i]) matches Some(n)
                && n.level == NoticeLevel::Info) ==> qs[i].errors.len() == 0,
{
    lemma_error_count(qs, steps, steps.len() as int);
    assert(qs.last() == qs[steps.len() as int]);
    assert forall|i: int|
        0 <= i < steps.len() && #[trigger] steps[i] is Pop && (next_notice(qs[i]) matches Some(n)
            && n.level == NoticeLevel::Info) implies qs[i].errors.len() == 0 by {
        if qs[i].errors.len() > 0 {
            assert(next_notice(qs[i]) == Some(qs[i].errors[0]));
            lemma_error_count(qs, steps, i);
        }
    }
}

proof fn lemma_error_count(qs: Seq<NoticeQueues>, steps: Seq<NoticeStep>, k: int)
    requires
        qs.len() == steps.len() + 1,
        queues_wf(qs[0]),
        qs[0].errors.len() == 0,
        forall|i: int| 0 <= i < steps.len() ==> step_taken(#[trigger] qs[i], steps[i], qs[i + 1]),
        0 <= k <= steps.len(),
    ensures
        queues_wf(qs[k]),
        qs[k].errors.len() == errors_queued(steps, k) - errors_popped(qs, steps, k),
    decreases k,
{
    if k > 0 {
        lemma_error_count(qs, steps, k - 1);
        let q = qs[k - 1];
        let step = steps[k - 1];
        assert(step_taken(q, step, qs[k]));
        match step {
            NoticeStep::Push(level, message) => {},
            NoticeStep::Pop => {
                if q.errors.len() > 0 {
                    assert(q.errors[0].level == NoticeLevel::Error);
                }
                assert forall|i: int| 0 <= i < qs[k].errors.len() implies (#[trigger] qs[k].errors[i]).level
                    == NoticeLevel::Error by {
                    if q.errors.len() > 0 {
                        assert(qs[k].errors[i] == q.errors[i + 1]);
                    }
                }
                assert forall|i: int| 0 <= i < qs[k].infos.len() implies (#[trigger] qs[k].infos[i]).level
                    == NoticeLevel::Info by {
                    if q.errors.len() == 0 && q.infos.len() > 0 {
                        assert(qs[k].infos[i] == q.infos[i + 1]);
                    }
                }
            },
            NoticeStep::Event(e) => {
                match e {
                    GlimEvent::JobLogDownloaded(_, _, _) => {
                        let new = qs[k];
                        assert forall|i: int| 0 <= i < new.infos.len() implies (#[trigger] new.infos[i]).level
                            == NoticeLevel::Info by {
                            if i < new.infos.len() - 1 {
                                assert(new.infos[i] == new.infos.drop_last()[i]);
                            }
                        }
                    },
                    _ => {},
                }
            },
        }
    }
}

/// Every application error but a token error queues exactly one error notice
/// carrying the same data, behind the errors already waiting; the
/// information queue and the notice shown last stay as they were. Token
/// errors queue nothing.
pub proof fn lemma_errors_become_notices(q: NoticeQueues, e: GlimError, new: NoticeQueues)
    requires
        applied(q, GlimEvent::AppError(e), new),
    ensures
        e is InvalidGitlabToken || e is ExpiredGitlabToken ==> new == q,
        !(e is InvalidGitlabToken || e is ExpiredGitlabToken) ==> new.infos == q.infos
            && new.most_recent == q.most_recent && new.errors.len() == q.errors.len() + 1
            && new.errors.drop_last() == q.errors && new.errors.last().level
            == NoticeLevel::Error,
        e matches GlimError::ConfigError(s) ==> new.errors.last().message
            == NoticeMessage::ConfigError(s),
        e matches GlimError::GeneralError(s) ==> new.errors.last().message
            == NoticeMessage::GeneralMessage(s),
        e matches GlimError::JsonDeserializeError(c, s) ==> new.errors.last().message
            == NoticeMessage::JsonDeserializeError(c, s),
        e matches GlimError::GitlabGetJobsError(p, pl, s) ==> new.errors.last().message
            == NoticeMessage::GitlabGetJobsError(p, pl, s),
        e matches GlimError::GitlabGetTriggerJobsError(p, pl, s) ==> new.errors.last().message
            == NoticeMessage::GitlabGetTriggerJobsError(p, pl, s),
        e matches GlimError::GitlabGetPipelinesError(p, pl, s) ==> new.errors.last().message
            == NoticeMessage::GitlabGetPipelinesError(p, pl, s),
{
    if !(e is InvalidGitlabToken || e is ExpiredGitlabToken) {
        assert(new.errors.drop_last() =~= q.errors);
    }
}

} // verus!
