//! Where popups and the notification are drawn on screen, and what text
//! they show.
use vstd::prelude::*;

use crate::error::category_text;
use crate::input::PipelineAction;
use crate::notice::{notice_project, notice_project_id, Notice, NoticeMessage};
use crate::store::{find_index, ProjectStore};
use crate::modulo::abs;
use crate::text::{
    chars_of, contains_chars, contains_seq, decimal, decimal2, display_width, occurs_at,
    push_decimal, push_decimal2, push_str, string_from_chars, unicode_width,
};

verus! {

/// A rectangle of terminal cells.
#[derive(Clone, Copy, Debug, PartialEq, Eq, Structural)]
pub struct Rect {
    pub x: u16,
    pub y: u16,
    pub width: u16,
    pub height: u16,
}

impl Rect {
    /// The rectangle lies within the terminal's coordinate range.
    pub open spec fn fits(&self) -> bool {
        self.x + self.width <= u16::MAX && self.y + self.height <= u16::MAX
    }

    /// A rectangle of at most the given size, centered within this one.
    pub fn inner_centered(&self, width: u16, height: u16) -> (r: Rect)
        requires
            self.fits(),
        ensures
            r == centered_in(*self, width as int, height as int),
            r.fits(),
    {
        let dw = if self.width > width {
            self.width - width
        } else {
            0
        };
        let dh = if self.height > height {
            self.height - height
        } else {
            0
        };
        Rect {
            x: self.x + dw / 2,
            y: self.y + dh / 2,
            width: if width < self.width {
                width
            } else {
                self.width
            },
            height: if height < self.height {
                height
            } else {
                self.height
            },
        }
    }
}

/// The rectangle of at most `width` by `height` centered in `outer`: the
/// space left over is split in half, the odd cell going after.
pub open spec fn centered_in(outer: Rect, width: int, height: int) -> Rect {
    let dw = if outer.width > width {
        outer.width - width
    } else {
        0
    };
    let dh = if outer.height > height {
        outer.height - height
    } else {
        0
    };
    Rect {
        x: (outer.x + dw / 2) as u16,
        y: (outer.y + dh / 2) as u16,
        width: if width < outer.width {
            width as u16
        } else {
            outer.width
        },
        height: if height < outer.height {
            height as u16
        } else {
            outer.height
        },
    }
}

/// The popup that shows an alert message.
#[derive(Clone, Debug)]
pub struct AlertPopup {
    pub message: String,
}

impl AlertPopup {
    pub fn new(message: String) -> (r: AlertPopup)
        ensures
            r.message == message,
    {
        AlertPopup { message }
    }

    /// Where the alert is drawn: centered, four columns wider than the
    /// message (counted in characters, as a 16-bit number) and five rows high.
    pub fn area(&self, screen: Rect) -> (r: Rect)
        requires
            screen.fits(),
            (self.message@.len() as u16) + 4 <= u16::MAX,
        ensures
            r == centered_in(screen, (self.message@.len() as u16) + 4, 5),
    {
        let n = chars_of(self.message.as_str()).len() as u16;
        screen.inner_centered(n + 4, 5)
    }
}

/// The configuration popup.
#[derive(Clone, Copy, Debug)]
pub struct ConfigPopup {}

impl ConfigPopup {
    pub fn new() -> (r: ConfigPopup) {
        ConfigPopup {  }
    }

    /// Where the popup is drawn: 80 by 15 cells, centered.
    pub fn area(screen: Rect) -> (r: Rect)
        requires
            screen.fits(),
        ensures
            r == centered_in(screen, 80, 15),
    {
        screen.inner_centered(80, 15)
    }
}

/// The popup listing the actions for a pipeline.
#[derive(Clone, Copy, Debug)]
pub struct PipelineActionsPopup {}

impl PipelineActionsPopup {
    pub fn new() -> (r: PipelineActionsPopup) {
        PipelineActionsPopup {  }
    }

    /// Where the popup is drawn: 40 columns wide, one row per action plus
    /// the border, centered.
    pub fn area(screen: Rect, actions: usize) -> (r: Rect)
        requires
            screen.fits(),
            2 + (actions as u16) <= u16::MAX,
        ensures
            r == centered_in(screen, 40, 2 + (actions as u16)),
    {
        screen.inner_centered(40, 2 + actions as u16)
    }

    /// The text of an action in the list.
    pub fn label(action: PipelineAction) -> (r: &'static str)
        ensures
            r@ == action_label(action),
    {
        match action {
            PipelineAction::JobOpenUrl(_, _, _) => "browse to failed job",
            PipelineAction::PipelineOpenUrl(_, _) => "browse to pipeline",
            PipelineAction::ProjectOpenUrl(_) => "browse to project",
            PipelineAction::JobLogFetch(_, _) => "download failed job log to clipboard",
        }
    }
}

/// The text of a pipeline action in the actions popup.
pub open spec fn action_label(action: PipelineAction) -> Seq<char> {
    match action {
        PipelineAction::JobOpenUrl(_, _, _) => "browse to failed job"@,
        PipelineAction::PipelineOpenUrl(_, _) => "browse to pipeline"@,
        PipelineAction::ProjectOpenUrl(_) => "browse to project"@,
        PipelineAction::JobLogFetch(_, _) => "download failed job log to clipboard"@,
    }
}

/// The popup with a project's details and recent pipelines.
#[derive(Clone, Copy, Debug)]
pub struct ProjectDetailsPopup {}

impl ProjectDetailsPopup {
    pub fn new() -> (r: ProjectDetailsPopup) {
        ProjectDetailsPopup {  }
    }

    /// Where the popup is drawn: the screen's full width; the border, four
    /// rows of details and two rows per pipeline high; centered.
    pub fn area(screen: Rect, pipelines: usize) -> (r: Rect)
        requires
            screen.fits(),
            2 * (pipelines as u16) + 6 <= u16::MAX,
        ensures
            r == centered_in(screen, screen.width as int, 2 * (pipelines as u16) + 6),
    {
        let table_h: u16 = 2 * (pipelines as u16);
        screen.inner_centered(screen.width, 2 + 4 + table_h)
    }
}

/// The one-line notification at the top of the screen.
#[derive(Clone, Copy, Debug)]
pub struct Notification {}

impl Notification {
    pub fn new() -> (r: Notification) {
        Notification {  }
    }
}

impl Notification {
    /// The project name a notification shows for a notice: the path of the
    /// stored project the notice is about, if it names one that is stored.
    pub fn project_name(notice: &Notice, store: &ProjectStore) -> (r: Option<String>)
        requires
            store.wf(),
        ensures
            match notice_project(notice.message) {
                Some(id) => if find_index(store.view(), id) >= 0 {
                    r matches Some(name) && name@ == store.view()[find_index(store.view(), id)].path
                } else {
                    r is None
                },
                None => r is None,
            },
    {
        match notice_project_id(&notice.message) {
            Some(id) => match store.find(id) {
                Some(p) => Some(p.path.clone()),
                None => None,
            },
            None => None,
        }
    }
}

/// The pieces of text a notice shows, in order; `project` names the project
/// it is about, when known.
pub open spec fn notice_parts(m: NoticeMessage, project: Option<Seq<char>>) -> Seq<Seq<char>> {
    let name = match project {
        Some(p) => p,
        None => "<unknown project>"@,
    };
    match m {
        NoticeMessage::GeneralMessage(s) => seq![s@],
        NoticeMessage::ConfigError(s) => seq!["Config error: "@, s@],
        NoticeMessage::JsonDeserializeError(c, s) => seq![
            "Failed to parse JSON ("@,
            category_text(c),
            ")"@,
            s@,
        ],
        NoticeMessage::GitlabGetJobsError(_, _, s) => seq![
            "Failed to get jobs for "@,
            name,
            ": "@,
            s@,
        ],
        NoticeMessage::GitlabGetTriggerJobsError(_, _, s) => seq![
            "Failed to get trigger jobs for "@,
            name,
            ": "@,
            s@,
        ],
        NoticeMessage::GitlabGetPipelinesError(_, _, s) => seq![
            "Failed to get pipelines for "@,
            name,
            ": "@,
            s@,
        ],
        NoticeMessage::JobLogDownloaded(_, _, _) => seq!["Finished downloading job log for "@, name],
    }
}

/// The text of a notice: its pieces one after the other.
pub open spec fn notice_text(m: NoticeMessage, project: Option<Seq<char>>) -> Seq<char> {
    notice_parts(m, project).flatten()
}

/// The display width of pieces of text, each measured on its own.
pub open spec fn parts_width(parts: Seq<Seq<char>>) -> int
    decreases parts.len(),
{
    if parts.len() == 0 {
        0
    } else {
        parts_width(parts.drop_last()) + unicode_width(parts.last())
    }
}

/// `n`, or the largest machine word when `n` is larger.
pub open spec fn capped(n: int) -> int {
    if n > usize::MAX {
        usize::MAX as int
    } else {
        n
    }
}

proof fn lemma_parts_width_nonneg(parts: Seq<Seq<char>>)
    ensures
        parts_width(parts) >= 0,
    decreases parts.len(),
{
    if parts.len() > 0 {
        lemma_parts_width_nonneg(parts.drop_last());
    }
}

fn category_name(c: crate::error::JsonErrorCategory) -> (r: &'static str)
    ensures
        r@ == category_text(c),
{
    match c {
        crate::error::JsonErrorCategory::Io => "Io",
        crate::error::JsonErrorCategory::Syntax => "Syntax",
        crate::error::JsonErrorCategory::Data => "Data",
        crate::error::JsonErrorCategory::Eof => "Eof",
    }
}

fn owned(s: &str) -> (r: String)
    ensures
        r@ == s@,
{
    String::from_str(s)
}

impl Notification {
    /// The pieces of text shown for a notice.
    pub fn parts(notice: &Notice, project: &Option<String>) -> (r: Vec<String>)
        ensures
            r@.map_values(|s: String| s@) == notice_parts(
                notice.message,
                match project {
                    Some(p) => Some(p@),
                    None => None,
                },
            ),
    {
        let name: String = match project {
            Some(p) => p.clone(),
            None => owned("<unknown project>"),
        };
        let mut v: Vec<String> = Vec::new();
        match &notice.message {
            NoticeMessage::GeneralMessage(s) => v.push(s.clone()),
            NoticeMessage::ConfigError(s) => {
                v.push(owned("Config error: "));
                v.push(s.clone());
            },
            NoticeMessage::JsonDeserializeError(c, s) => {
                v.push(owned("Failed to parse JSON ("));
                v.push(owned(category_name(*c)));
                v.push(owned(")"));
                v.push(s.clone());
            },
            NoticeMessage::GitlabGetJobsError(_, _, s) => {
                v.push(owned("Failed to get jobs for "));
                v.push(name);
                v.push(owned(": "));
                v.push(s.clone());
            },
            NoticeMessage::GitlabGetTriggerJobsError(_, _, s) => {
                v.push(owned("Failed to get trigger jobs for "));
                v.push(name);
                v.push(owned(": "));
                v.push(s.clone());
            },
            NoticeMessage::GitlabGetPipelinesError(_, _, s) => {
                v.push(owned("Failed to get pipelines for "));
                v.push(name);
                v.push(owned(": "));
                v.push(s.clone());
            },
            NoticeMessage::JobLogDownloaded(_, _, _) => {
                v.push(owned("Finished downloading job log for "));
                v.push(name);
            },
        }
        assert(v@.map_values(|s: String| s@) =~= notice_parts(
            notice.message,
            match project {
                Some(p) => Some(p@),
                None => None,
            },
        ));
        v
    }

    /// The text shown for a notice.
    pub fn text(notice: &Notice, project: &Option<String>) -> (r: String)
        ensures
            r@ == notice_text(
                notice.message,
                match project {
                    Some(p) => Some(p@),
                    None => None,
                },
            ),
    {
        let parts = Notification::parts(notice, project);
        let ghost views = parts@.map_values(|s: String| s@);
        let mut v: Vec<char> = Vec::new();
        let mut i: usize = 0;
        while i < parts.len()
            invariant
                i <= parts@.len(),
                views == parts@.map_values(|s: String| s@),
                v@ == views.take(i as int).flatten(),
            decreases parts@.len() - i,
        {
            push_str(&mut v, parts[i].as_str());
            proof {
                assert(views.take(i + 1).drop_last() =~= views.take(i as int));
                views.take(i as int).lemma_flatten_push(views[i as int]);
                assert(views.take(i + 1) =~= views.take(i as int).push(views[i as int]));
            }
            i = i + 1;
        }
        assert(views.take(parts@.len() as int) =~= views);
        string_from_chars(&v)
    }

    /// The display width of the text shown for a notice, as the terminal
    /// library measures it: the widths of its pieces added up (a sum beyond
    /// the machine word stops at its largest value).
    pub fn text_width(notice: &Notice, project: &Option<String>) -> (r: usize)
        ensures
            r == capped(
                parts_width(
                    notice_parts(
                        notice.message,
                        match project {
                            Some(p) => Some(p@),
                            None => None,
                        },
                    ),
                ),
            ),
    {
        let parts = Notification::parts(notice, project);
        let ghost views = parts@.map_values(|s: String| s@);
        let mut w: usize = 0;
        let mut i: usize = 0;
        while i < parts.len()
            invariant
                i <= parts@.len(),
                views == parts@.map_values(|s: String| s@),
                w == capped(parts_width(views.take(i as int))),
            decreases parts@.len() - i,
        {
            let pw = display_width(parts[i].as_str());
            assert(views.take(i + 1).drop_last() =~= views.take(i as int));
            proof {
                lemma_parts_width_nonneg(views.take(i as int));
            }
            w = w.saturating_add(pw);
            i = i + 1;
        }
        assert(views.take(parts@.len() as int) =~= views);
        w
    }

    /// Where the notification is drawn in `area` for a text `text_width`
    /// cells wide.
    pub fn content_area(area: Rect, text_width: u16) -> (r: Rect)
        requires
            area.fits(),
            area.width >= 2,
        ensures
            r == notification_spot(area, text_width),
    {
        let len = if text_width < area.width - 2 {
            text_width
        } else {
            area.width - 2
        };
        Rect { x: area.x + (area.width - len) / 2 - 1, y: area.y, width: len + 2, height: 1 }
    }

    /// Where the notification for a notice is drawn in `area`; its width is
    /// measured in cells and taken as a 16-bit number.
    pub fn area(area: Rect, notice: &Notice, project: &Option<String>) -> (r: Rect)
        requires
            area.fits(),
            area.width >= 2,
        ensures
            r == notification_spot(
                area,
                capped(
                    parts_width(
                        notice_parts(
                            notice.message,
                            match project {
                                Some(p) => Some(p@),
                                None => None,
                            },
                        ),
                    ),
                ) as u16,
            ),
    {
        let w = Notification::text_width(notice, project);
        Notification::content_area(area, w as u16)
    }
}

/// Where a notification `text_width` cells wide is drawn in `area`: on the
/// first row, centered, with one cell of padding on each side, cut to the
/// area's width.
pub open spec fn notification_spot(area: Rect, text_width: u16) -> Rect {
    let len = if text_width < area.width - 2 {
        text_width as int
    } else {
        area.width - 2
    };
    Rect {
        x: (area.x + (area.width - len) / 2 - 1) as u16,
        y: area.y,
        width: (len + 2) as u16,
        height: 1,
    }
}

/// A duration of `seconds` as the tables show it: `h:mm:ss` from an hour
/// on, `m:ss` from a minute on, else `0:ss`.
pub open spec fn duration_text(seconds: nat) -> Seq<char> {
    let hours = seconds / 3600;
    let minutes = (seconds % 3600) / 60;
    let secs = seconds % 60;
    if hours > 0 {
        decimal(hours) + ":"@ + decimal2(minutes) + ":"@ + decimal2(secs)
    } else if minutes > 0 {
        decimal(minutes) + ":"@ + decimal2(secs)
    } else {
        "0:"@ + decimal2(secs)
    }
}

/// Formats a duration given in milliseconds; its sign is ignored and
/// partial seconds are dropped.
pub fn format_duration(millis: i64) -> (r: String)
    requires
        millis > i64::MIN,
    ensures
        r@ == duration_text((abs(millis as int) / 1000) as nat),
{
    let a: u64 = if millis < 0 {
        (-millis) as u64
    } else {
        millis as u64
    };
    let total: u64 = a / 1000;
    let hours = total / 3600;
    let minutes = (total % 3600) / 60;
    let seconds = total % 60;
    let mut v: Vec<char> = Vec::new();
    if hours > 0 {
        push_decimal(&mut v, hours);
        push_str(&mut v, ":");
        push_decimal2(&mut v, minutes);
        push_str(&mut v, ":");
        push_decimal2(&mut v, seconds);
    } else if minutes > 0 {
        push_decimal(&mut v, minutes);
        push_str(&mut v, ":");
        push_decimal2(&mut v, seconds);
    } else {
        push_str(&mut v, "0:");
        push_decimal2(&mut v, seconds);
    }
    assert(v@ =~= duration_text(total as nat));
    string_from_chars(&v)
}

/// Which of the two alternating row styles a table row takes: even rows
/// the first, odd rows the second.
pub fn table_row_style(idx: usize) -> (r: usize)
    ensures
        r == idx % 2,
{
    idx % 2
}

/// How a shortcut is shown: a label containing its key shows the key
/// highlighted inside the label, at the first occurrence of the key's first
/// character; other labels show the key, then the label.
#[derive(Debug)]
pub enum ShortcutParts {
    /// The label around its highlighted character.
    Mnemonic { before: String, key: char, after: String },
    /// The key, then the label.
    Plain { key: String, label: String },
}

/// Position of the first occurrence of `c` in `s`.
pub open spec fn first_index_of(s: Seq<char>, c: char, i: int) -> bool {
    0 <= i < s.len() && s[i] == c && forall|k: int| 0 <= k < i ==> #[trigger] s[k] != c
}

/// How a shortcut with `key` and `label` is shown.
pub open spec fn shortcut_shown(key: Seq<char>, label: Seq<char>, p: ShortcutParts) -> bool {
    if key.len() > 0 && contains_seq(label, key) {
        p matches ShortcutParts::Mnemonic { before, key: k, after } && exists|i: int|
            first_index_of(label, key[0], i) && before@ == label.take(i) && k == label[i]
                && after@ == label.skip(i + 1)
    } else {
        p matches ShortcutParts::Plain { key: k, label: l } && k@ == key && l@ == label
    }
}

impl ShortcutParts {
    /// How a shortcut with `key` and `label` is shown.
    pub fn of(key: &str, label: &str) -> (r: ShortcutParts)
        ensures
            shortcut_shown(key@, label@, r),
    {
        let k = chars_of(key);
        let l = chars_of(label);
        if k.len() > 0 && contains_chars(&l, &k) {
            let c = k[0];
            proof {
                let j = choose|j: int| occurs_at(l@, k@, j);
                assert(l@[j] == c);
            }
            let mut i: usize = 0;
            while i < l.len() && l[i] != c
                invariant
                    i <= l@.len(),
                    c == k@[0],
                    exists|j: int| i <= j < l@.len() && l@[j] == c,
                    forall|m: int| 0 <= m < i ==> #[trigger] l@[m] != c,
                decreases l@.len() - i,
            {
                i = i + 1;
            }
            let mut before: Vec<char> = Vec::new();
            let mut j: usize = 0;
            while j < i
                invariant
                    j <= i < l@.len(),
                    before@ == l@.take(j as int),
                decreases i - j,
            {
                before.push(l[j]);
                j = j + 1;
                assert(before@ =~= l@.take(j as int));
            }
            let mut after: Vec<char> = Vec::new();
            let mut m: usize = i + 1;
            while m < l.len()
                invariant
                    i + 1 <= m <= l@.len(),
                    after@ == l@.subrange(i + 1, m as int),
                decreases l@.len() - m,
            {
                after.push(l[m]);
                m = m + 1;
                assert(after@ =~= l@.subrange(i + 1, m as int));
            }
            assert(first_index_of(l@, k@[0], i as int));
            assert(after@ =~= l@.skip(i + 1));
            ShortcutParts::Mnemonic {
                before: string_from_chars(&before),
                key: l[i],
                after: string_from_chars(&after),
            }
        } else {
            ShortcutParts::Plain { key: String::from_str(key), label: String::from_str(label) }
        }
    }
}

/// A centered rectangle lies inside the rectangle it is centered in.
pub proof fn lemma_centered_inside(outer: Rect, width: int, height: int)
    requires
        outer.fits(),
        width >= 0,
        height >= 0,
    ensures
        ({
            let r = centered_in(outer, width, height);
            &&& outer.x <= r.x
            &&& r.x + r.width <= outer.x + outer.width
            &&& outer.y <= r.y
            &&& r.y + r.height <= outer.y + outer.height
        }),
{
}

} // verus!
