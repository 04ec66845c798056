//! State of the configuration popup: its input fields, the selected field,
//! the log-level dropdown, and the configuration the fields describe.
use vstd::prelude::*;

use crate::config::GlimConfig;
use crate::event::KeyEvent;
use crate::text_input::{edit_request, edited, input_handle, key_edit};
use crate::text::{chars_of, push_str, string_from_chars, trim, trim_str, unicode_alphanumeric};

verus! {

/// An editable text field of a form, optionally masked or restricted to a
/// list of options.
#[derive(Debug)]
pub struct InputField {
    pub label: String,
    /// The text typed into the field.
    pub value: String,
    /// Where the text cursor stands, in characters.
    pub cursor: usize,
    pub mask_input: bool,
    pub dropdown_options: Option<Vec<String>>,
    pub selected_option_index: usize,
}

/// A freshly filled field: it holds the value, with the cursor after its last character.
pub open spec fn fresh_input(f: InputField, value: Seq<char>) -> bool {
    f.value@ == value && f.cursor == value.len()
}

/// A dropdown field has at least one option.
pub open spec fn field_wf(f: InputField) -> bool {
    f.dropdown_options matches Some(opts) ==> opts@.len() > 0
}

/// What a field shows: stars for a masked field, the selected option for a
/// dropdown, else its text.
pub open spec fn display_text(f: InputField) -> Seq<char> {
    if f.mask_input {
        Seq::new(f.value@.len(), |i: int| '*')
    } else {
        match f.dropdown_options {
            Some(opts) => if f.selected_option_index < opts@.len() {
                opts@[f.selected_option_index as int]@ + " (←→ to change)"@
            } else {
                "Invalid selection"@
            },
            None => f.value@,
        }
    }
}

/// Index of the first option equal to `value`.
pub open spec fn first_option_index(opts: Seq<String>, value: Seq<char>, i: int) -> bool {
    0 <= i < opts.len() && opts[i]@ == value && forall|k: int|
        0 <= k < i ==> #[trigger] opts[k]@ != value
}

fn input_value(value: String) -> (r: (String, usize))
    ensures
        r.0 == value,
        r.1 == value@.len(),
{
    let n = chars_of(value.as_str()).len();
    (value, n)
}

impl InputField {
    /// A plain text field holding `value`, with the cursor after its end.
    pub fn text(label: String, value: String, mask_input: bool) -> (r: InputField)
        ensures
            r.label == label,
            fresh_input(r, value@),
            r.mask_input == mask_input,
            r.dropdown_options is None,
            r.selected_option_index == 0,
    {
        let (value, cursor) = input_value(value);
        InputField {
            label,
            value,
            cursor,
            mask_input,
            dropdown_options: None,
            selected_option_index: 0,
        }
    }

    /// What the field shows.
    pub fn sanitized_input_display(&self) -> (r: String)
        ensures
            r@ == display_text(*self),
    {
        if self.mask_input {
            let n = chars_of(self.value.as_str()).len();
            let mut v: Vec<char> = Vec::new();
            let mut i: usize = 0;
            while i < n
                invariant
                    i <= n,
                    n == self.value@.len(),
                    v@ == Seq::new(i as nat, |k: int| '*'),
                decreases n - i,
            {
                v.push('*');
                i = i + 1;
                assert(v@ =~= Seq::new(i as nat, |k: int| '*'));
            }
            string_from_chars(&v)
        } else {
            match &self.dropdown_options {
                Some(options) => {
                    if self.selected_option_index < options.len() {
                        let mut v: Vec<char> = Vec::new();
                        push_str(&mut v, options[self.selected_option_index].as_str());
                        push_str(&mut v, " (←→ to change)");
                        string_from_chars(&v)
                    } else {
                        String::from_str("Invalid selection")
                    }
                },
                None => self.value.clone(),
            }
        }
    }

    /// The field offers a list of options.
    pub fn is_dropdown(&self) -> (r: bool)
        ensures
            r == self.dropdown_options is Some,
    {
        self.dropdown_options.is_some()
    }

    /// Selects the next option, wrapping around, and puts it into the field.
    pub fn cycle_dropdown_next(&mut self)
        requires
            field_wf(*old(self)),
        ensures
            field_wf(*final(self)),
            final(self).label == old(self).label,
            final(self).mask_input == old(self).mask_input,
            final(self).dropdown_options == old(self).dropdown_options,
            match old(self).dropdown_options {
                Some(opts) => {
                    let i = (old(self).selected_option_index + 1) % (opts@.len() as int);
                    &&& final(self).selected_option_index == i
                    &&& fresh_input(*final(self), opts@[i]@)
                },
                None => *final(self) == *old(self),
            },
    {
        if let Some(options) = &self.dropdown_options {
            let i = ((self.selected_option_index as u128 + 1) % (options.len() as u128)) as usize;
            let (value, cursor) = input_value(options[i].clone());
            self.selected_option_index = i;
            self.value = value;
            self.cursor = cursor;
        }
    }

    /// Selects the previous option, wrapping around, and puts it into the field.
    pub fn cycle_dropdown_prev(&mut self)
        requires
            field_wf(*old(self)),
        ensures
            field_wf(*final(self)),
            final(self).label == old(self).label,
            final(self).mask_input == old(self).mask_input,
            final(self).dropdown_options == old(self).dropdown_options,
            match old(self).dropdown_options {
                Some(opts) => {
                    let i = if old(self).selected_option_index == 0 {
                        opts@.len() - 1
                    } else {
                        old(self).selected_option_index - 1
                    };
                    &&& final(self).selected_option_index == i
                    &&& 0 <= i < opts@.len() ==> fresh_input(*final(self), opts@[i]@)
                    &&& !(0 <= i < opts@.len()) ==> final(self).value == old(self).value
                        && final(self).cursor == old(self).cursor
                },
                None => *final(self) == *old(self),
            },
    {
        if let Some(options) = &self.dropdown_options {
            let i = if self.selected_option_index == 0 {
                options.len() - 1
            } else {
                self.selected_option_index - 1
            };
            if i < options.len() {
                let (value, cursor) = input_value(options[i].clone());
                self.value = value;
                self.cursor = cursor;
            }
            self.selected_option_index = i;
        }
    }

    /// Selects the first option equal to `value`, if there is one, and puts
    /// it into the field.
    pub fn set_dropdown_value(&mut self, value: &str)
        ensures
            final(self).label == old(self).label,
            final(self).mask_input == old(self).mask_input,
            final(self).dropdown_options == old(self).dropdown_options,
            match old(self).dropdown_options {
                Some(opts) => if exists|i: int| first_option_index(opts@, value@, i) {
                    &&& first_option_index(opts@, value@, final(self).selected_option_index as int)
                    &&& fresh_input(*final(self), value@)
                } else {
                    *final(self) == *old(self)
                },
                None => *final(self) == *old(self),
            },
    {
        if let Some(options) = &self.dropdown_options {
            let target = String::from_str(value);
            let mut i: usize = 0;
            while i < options.len()
                invariant
                    *self == *old(self),
                    target@ == value@,
                    self.dropdown_options == Some(*options),
                    i <= options@.len(),
                    forall|k: int| 0 <= k < i ==> #[trigger] options@[k]@ != value@,
                decreases options@.len() - i,
            {
                if options[i] == target {
                    assert(first_option_index(options@, value@, i as int));
                    let (v, cursor) = input_value(String::from_str(value));
                    self.selected_option_index = i;
                    self.value = v;
                    self.cursor = cursor;
                    return;
                }
                i = i + 1;
            }
            assert forall|k: int| !first_option_index(options@, value@, k) by {
                if 0 <= k < options@.len() {
                    assert(options@[k]@ != value@);
                }
            }
        }
    }
}

/// The options of the log-level dropdown, most verbose first.
pub open spec fn log_level_options() -> Seq<Seq<char>> {
    seq!["Trace"@, "Debug"@, "Info"@, "Warn"@, "Error"@]
}

/// The dropdown index of a log level: its position among the options, else
/// that of "Error".
pub open spec fn log_level_index(level: Seq<char>) -> int {
    if level == "Trace"@ {
        0
    } else if level == "Debug"@ {
        1
    } else if level == "Info"@ {
        2
    } else if level == "Warn"@ {
        3
    } else {
        4
    }
}

/// State of the configuration popup.
#[derive(Debug)]
pub struct ConfigPopupState {
    active_input_idx: u16,
    input_fields: Vec<InputField>,
    error_message: Option<String>,
}

/// The configured log level, "Error" when there is none.
pub open spec fn configured_level(config: GlimConfig) -> Seq<char> {
    match config.log_level {
        Some(l) => l@,
        None => "Error"@,
    }
}

/// The four fields of the popup, in order: url, token, search filter, log level.
pub open spec fn fields_of(config: GlimConfig, fields: Seq<InputField>) -> bool {
    &&& fields.len() == 4
    &&& fields[0].label@ == "gitlab url"@ && fresh_input(fields[0], config.gitlab_url@)
    &&& !fields[0].mask_input && fields[0].dropdown_options is None
    &&& fields[1].label@ == "gitlab token"@ && fresh_input(fields[1], config.gitlab_token@)
    &&& fields[1].mask_input && fields[1].dropdown_options is None
    &&& fields[2].label@ == "search filter"@ && fresh_input(
        fields[2],
        match config.search_filter {
            Some(f) => f@,
            None => Seq::empty(),
        },
    )
    &&& !fields[2].mask_input && fields[2].dropdown_options is None
    &&& fields[3].label@ == "log level"@ && !fields[3].mask_input
    &&& fields[3].dropdown_options matches Some(opts) && opts@.len() == 5 && forall|k: int|
        0 <= k < 5 ==> #[trigger] opts@[k]@ == log_level_options()[k]
    &&& {
        let level = configured_level(config);
        &&& fresh_input(fields[3], level)
        &&& fields[3].selected_option_index == log_level_index(level)
    }
}

/// The configuration the field texts describe: each text trimmed, an empty
/// filter as none, an empty log level as "Error".
pub open spec fn config_from_values(
    url: Seq<char>,
    token: Seq<char>,
    filter: Seq<char>,
    level: Seq<char>,
    config: GlimConfig,
) -> bool {
    &&& config.gitlab_url@ == trim(url)
    &&& config.gitlab_token@ == trim(token)
    &&& if trim(filter).len() == 0 {
        config.search_filter is None
    } else {
        config.search_filter matches Some(f) && f@ == trim(filter)
    }
    &&& config.log_level matches Some(l) && l@ == if trim(level).len() == 0 {
        "Error"@
    } else {
        trim(level)
    }
}

fn option_list(names: &[&str]) -> (r: Vec<String>)
    ensures
        r@.len() == names@.len(),
        forall|k: int| 0 <= k < names@.len() ==> #[trigger] r@[k]@ == names@[k]@,
{
    let mut v: Vec<String> = Vec::new();
    let mut i: usize = 0;
    while i < names.len()
        invariant
            i <= names@.len(),
            v@.len() == i,
            forall|k: int| 0 <= k < i ==> #[trigger] v@[k]@ == names@[k]@,
        decreases names@.len() - i,
    {
        v.push(String::from_str(names[i]));
        i = i + 1;
    }
    v
}

/// The selected dropdown moved to its next option, wrapping around: the
/// field shows that option; nothing else changed.
pub open spec fn cycled_next(o: ConfigPopupState, n: ConfigPopupState) -> bool {
    &&& n.active() == o.active()
    &&& n.error() == o.error()
    &&& n.fields().len() == 4
    &&& forall|k: int|
        0 <= k < 4 && k != o.active() ==> #[trigger] n.fields()[k] == o.fields()[k]
    &&& {
        let (a, b) = (o.fields()[o.active()], n.fields()[o.active()]);
        match a.dropdown_options {
            Some(opts) => {
                let i = (a.selected_option_index + 1) % (opts@.len() as int);
                &&& b.selected_option_index == i
                &&& fresh_input(b, opts@[i]@)
                &&& b.dropdown_options == a.dropdown_options
                &&& b.label == a.label
                &&& b.mask_input == a.mask_input
            },
            None => b == a,
        }
    }
}

/// The selected dropdown moved to its previous option, wrapping around:
/// the field shows that option; nothing else changed.
pub open spec fn cycled_prev(o: ConfigPopupState, n: ConfigPopupState) -> bool {
    &&& n.active() == o.active()
    &&& n.error() == o.error()
    &&& n.fields().len() == 4
    &&& forall|k: int|
        0 <= k < 4 && k != o.active() ==> #[trigger] n.fields()[k] == o.fields()[k]
    &&& {
        let (a, b) = (o.fields()[o.active()], n.fields()[o.active()]);
        match a.dropdown_options {
            Some(opts) => {
                let i = if a.selected_option_index == 0 {
                    opts@.len() - 1
                } else {
                    a.selected_option_index - 1
                };
                &&& b.selected_option_index == i
                &&& b.dropdown_options == a.dropdown_options
                &&& b.label == a.label
                &&& b.mask_input == a.mask_input
                &&& 0 <= i < opts@.len() ==> fresh_input(b, opts@[i]@)
            },
            None => b == a,
        }
    }
}

/// The selected field took the edit a key asks for; keys that edit
/// nothing change nothing.
pub open spec fn key_edited(o: ConfigPopupState, key: KeyEvent, n: ConfigPopupState) -> bool {
    &&& n.active() == o.active()
    &&& n.error() == o.error()
    &&& match key_edit(key.code, key.modifiers) {
        Some(req) => {
            let a = o.active();
            let f = o.fields()[a];
            let (text, cursor) = edited(f.value@, f.cursor as nat, req, |ch: char| unicode_alphanumeric(ch));
            &&& n.fields().len() == 4
            &&& forall|k: int|
                0 <= k < 4 && k != a ==> #[trigger] n.fields()[k] == o.fields()[k]
            &&& n.fields()[a].value@ == text
            &&& n.fields()[a].cursor == cursor
            &&& n.fields()[a].label == f.label
            &&& n.fields()[a].mask_input == f.mask_input
            &&& n.fields()[a].dropdown_options == f.dropdown_options
            &&& n.fields()[a].selected_option_index == f.selected_option_index
        },
        None => n.fields() == o.fields(),
    }
}

impl ConfigPopupState {
    /// The popup's invariant: four fields, the selection among them, and a
    /// non-empty option list on each dropdown.
    pub closed spec fn wf(&self) -> bool {
        &&& self.input_fields@.len() == 4
        &&& self.active_input_idx < 4
        &&& forall|k: int| 0 <= k < 4 ==> field_wf(#[trigger] self.input_fields@[k])
    }

    /// A well-formed popup has its four fields, one of them selected, and
    /// each dropdown field has options.
    pub proof fn lemma_wf(&self)
        requires
            self.wf(),
        ensures
            0 <= self.active() < 4,
            self.fields().len() == 4,
            forall|k: int| 0 <= k < 4 ==> field_wf(#[trigger] self.fields()[k]),
    {
    }

    /// The error shown under the fields, if any.
    pub closed spec fn error(&self) -> Option<String> {
        self.error_message
    }

    /// Index of the selected field.
    pub closed spec fn active(&self) -> int {
        self.active_input_idx as int
    }

    /// The fields, in order.
    pub closed spec fn fields(&self) -> Seq<InputField> {
        self.input_fields@
    }

    /// The popup filled in from a configuration, with the first field selected.
    pub fn new(config: &GlimConfig) -> (r: ConfigPopupState)
        ensures
            r.wf(),
            r.active() == 0,
            fields_of(*config, r.fields()),
            r.error() is None,
    {
        let options = option_list(&["Trace", "Debug", "Info", "Warn", "Error"]);
        proof {
            reveal_strlit("Trace");
            reveal_strlit("Debug");
            reveal_strlit("Info");
            reveal_strlit("Warn");
            reveal_strlit("Error");
        }
        let current_log_level = match &config.log_level {
            Some(l) => l.clone(),
            None => String::from_str("Error"),
        };
        let mut index: usize = 4;
        let mut found = false;
        let mut i: usize = 0;
        while i < options.len()
            invariant
                options@.len() == 5,
                forall|k: int| 0 <= k < 5 ==> #[trigger] options@[k]@ == log_level_options()[k],
                i <= 5,
                found ==> index < i && options@[index as int]@ == current_log_level@,
                !found ==> index == 4 && forall|k: int|
                    0 <= k < i ==> #[trigger] options@[k]@ != current_log_level@,
            decreases 5 - i,
        {
            if !found && options[i] == current_log_level {
                index = i;
                found = true;
            }
            i = i + 1;
        }
        proof {
            assert(log_level_options()[0] == "Trace"@);
            assert(log_level_options()[1] == "Debug"@);
            assert(log_level_options()[2] == "Info"@);
            assert(log_level_options()[3] == "Warn"@);
            assert(log_level_options()[4] == "Error"@);
            let cur = current_log_level@;
            if !found {
                assert(options@[0]@ != cur);
                assert(options@[1]@ != cur);
                assert(options@[2]@ != cur);
                assert(options@[3]@ != cur);
                assert(options@[4]@ != cur);
            }
            assert("Trace"@[0] == 'T' && "Debug"@[0] == 'D' && "Info"@[0] == 'I');
            assert("Warn"@[0] == 'W' && "Error"@[0] == 'E');
            assert("Trace"@.len() > 0 && "Debug"@.len() > 0 && "Info"@.len() > 0);
            assert("Warn"@.len() > 0 && "Error"@.len() > 0);
            if found {
                assert(cur == log_level_options()[index as int]);
                assert(cur[0] == log_level_options()[index as int][0]);
            }
            assert(log_level_index(cur) == index);
        }
        let (value, cursor) = input_value(current_log_level);
        let log_level_field = InputField {
            label: String::from_str("log level"),
            value,
            cursor,
            mask_input: false,
            dropdown_options: Some(options),
            selected_option_index: index,
        };
        let filter = match &config.search_filter {
            Some(f) => f.clone(),
            None => String::new(),
        };
        let mut fields: Vec<InputField> = Vec::new();
        fields.push(InputField::text(String::from_str("gitlab url"), config.gitlab_url.clone(), false));
        fields.push(
            InputField::text(String::from_str("gitlab token"), config.gitlab_token.clone(), true),
        );
        fields.push(InputField::text(String::from_str("search filter"), filter, false));
        fields.push(log_level_field);
        let r = ConfigPopupState { active_input_idx: 0, input_fields: fields, error_message: None };
        proof {
            let fs = r.input_fields@;
            let level = configured_level(*config);
            assert(level == current_log_level@);
            assert(fresh_input(fs[3], level));
            assert(fs[3].selected_option_index == log_level_index(level));
            assert(fields_of(*config, fs));
        }
        r
    }

    /// Selects the next field, wrapping around.
    pub fn select_next_input(&mut self)
        requires
            old(self).wf(),
        ensures
            final(self).wf(),
            final(self).active() == (old(self).active() + 1) % 4,
            final(self).fields() == old(self).fields(),
            final(self).error() == old(self).error(),
    {
        self.active_input_idx = (self.active_input_idx + 1) % 4;
    }

    /// Selects the previous field, wrapping around.
    pub fn select_previous_input(&mut self)
        requires
            old(self).wf(),
        ensures
            final(self).wf(),
            final(self).active() == if old(self).active() == 0 {
                3
            } else {
                old(self).active() - 1
            },
            final(self).fields() == old(self).fields(),
            final(self).error() == old(self).error(),
    {
        self.active_input_idx = if self.active_input_idx == 0 {
            3
        } else {
            self.active_input_idx - 1
        };
    }

    /// The selected field offers a list of options.
    pub fn is_current_field_dropdown(&self) -> (r: bool)
        requires
            self.wf(),
        ensures
            r == self.fields()[self.active()].dropdown_options is Some,
    {
        self.input_fields[self.active_input_idx as usize].is_dropdown()
    }

    /// Moves the selected dropdown to its next option.
    pub fn cycle_dropdown_next(&mut self)
        requires
            old(self).wf(),
        ensures
            final(self).wf(),
            cycled_next(*old(self), *final(self)),
    {
        let idx = self.active_input_idx as usize;
        let mut field = self.input_fields.remove(idx);
        field.cycle_dropdown_next();
        self.input_fields.insert(idx, field);
        proof {
            assert forall|k: int| 0 <= k < 4 implies field_wf(#[trigger] self.input_fields@[k]) by {
                if k != idx {
                    assert(self.input_fields@[k] == old(self).input_fields@[k]);
                }
            }
        }
    }

    /// Moves the selected dropdown to its previous option.
    pub fn cycle_dropdown_prev(&mut self)
        requires
            old(self).wf(),
        ensures
            final(self).wf(),
            cycled_prev(*old(self), *final(self)),
    {
        let idx = self.active_input_idx as usize;
        let mut field = self.input_fields.remove(idx);
        field.cycle_dropdown_prev();
        self.input_fields.insert(idx, field);
        proof {
            assert forall|k: int| 0 <= k < 4 implies field_wf(#[trigger] self.input_fields@[k]) by {
                if k != idx {
                    assert(self.input_fields@[k] == old(self).input_fields@[k]);
                }
            }
        }
    }

    /// The error shown under the fields, if any.
    pub fn error_message(&self) -> (r: &Option<String>)
        ensures
            *r == self.error(),
    {
        &self.error_message
    }

    /// Sets the error shown under the fields.
    pub fn set_error_message(&mut self, message: Option<String>)
        requires
            old(self).wf(),
        ensures
            final(self).wf(),
            final(self).error() == message,
            final(self).active() == old(self).active(),
            final(self).fields() == old(self).fields(),
    {
        self.error_message = message;
    }

    /// All fields, in order, as the popup draws them.
    pub fn input_fields(&self) -> (r: &Vec<InputField>)
        ensures
            r@ == self.fields(),
    {
        &self.input_fields
    }

    /// Index of the selected field.
    pub fn active_input_idx(&self) -> (r: u16)
        ensures
            r == self.active(),
    {
        self.active_input_idx
    }

    /// The text and cursor of the selected field.
    pub fn input(&self) -> (r: &InputField)
        requires
            self.wf(),
        ensures
            *r == self.fields()[self.active()],
    {
        &self.input_fields[self.active_input_idx as usize]
    }

    /// Replaces the text and cursor of the selected field, after an edit.
    pub fn set_input(&mut self, value: String, cursor: usize)
        requires
            old(self).wf(),
        ensures
            final(self).wf(),
            final(self).active() == old(self).active(),
            final(self).fields().len() == 4,
            forall|k: int|
                0 <= k < 4 && k != old(self).active() ==> #[trigger] final(self).fields()[k]
                    == old(self).fields()[k],
            final(self).fields()[old(self).active()] == (InputField {
                value,
                cursor,
                ..old(self).fields()[old(self).active()]
            }),
            final(self).error() == old(self).error(),
    {
        let idx = self.active_input_idx as usize;
        let mut field = self.input_fields.remove(idx);
        field.value = value;
        field.cursor = cursor;
        self.input_fields.insert(idx, field);
        proof {
            assert forall|k: int| 0 <= k < 4 implies field_wf(#[trigger] self.input_fields@[k]) by {
                if k != idx {
                    assert(self.input_fields@[k] == old(self).input_fields@[k]);
                }
            }
        }
    }

    /// Hands a key to the text of the selected field: the edit it asks for
    /// is applied to the text and cursor; other keys change nothing.
    pub fn edit_input(&mut self, key: KeyEvent)
        requires
            old(self).wf(),
            old(self).fields()[old(self).active()].value@.len() < usize::MAX,
        ensures
            final(self).wf(),
            key_edited(*old(self), key, *final(self)),
    {
        match edit_request(key.code, key.modifiers) {
            Some(req) => {
                let field = self.input();
                let (value, cursor) = input_handle(field.value.clone(), field.cursor, req);
                self.set_input(value, cursor);
            },
            None => {},
        }
    }

    /// The configuration the fields describe.
    pub fn to_config(&self) -> (r: GlimConfig)
        requires
            self.wf(),
        ensures
            config_from_values(
                self.fields()[0].value@,
                self.fields()[1].value@,
                self.fields()[2].value@,
                self.fields()[3].value@,
                r,
            ),
    {
        let gitlab_url = trim_str(self.input_fields[0].value.as_str());
        let gitlab_token = trim_str(self.input_fields[1].value.as_str());
        let filter = trim_str(self.input_fields[2].value.as_str());
        let level = trim_str(self.input_fields[3].value.as_str());
        let filter_len = chars_of(filter.as_str()).len();
        let level_len = chars_of(level.as_str()).len();
        let search_filter = if filter_len == 0 {
            None
        } else {
            Some(filter)
        };
        let log_level = if level_len == 0 {
            Some(String::from_str("Error"))
        } else {
            Some(level)
        };
        GlimConfig { gitlab_url, gitlab_token, search_filter, log_level }
    }
}

/// Where the text cursor of the selected field appears, for a popup drawn at
/// (`area_x`, `area_y`): one column in, three rows per field.
pub open spec fn cursor_spot(area_x: int, area_y: int, cursor: int, active: int) -> (int, int) {
    (area_x + 1 + cursor, area_y + 3 + active * 3)
}

impl ConfigPopupState {
    /// Screen position of the text cursor.
    pub fn cursor_position(&self, area_x: u16, area_y: u16) -> (r: (u16, u16))
        requires
            self.wf(),
            area_x + 1 + self.fields()[self.active()].cursor <= u16::MAX,
            area_y + 3 + self.active() * 3 <= u16::MAX,
        ensures
            (r.0 as int, r.1 as int) == cursor_spot(
                area_x as int,
                area_y as int,
                self.fields()[self.active()].cursor as int,
                self.active(),
            ),
    {
        let c = self.input_fields[self.active_input_idx as usize].cursor;
        (area_x + 1 + c as u16, area_y + 3 + self.active_input_idx * 3)
    }
}

/// Selecting the next field and then the previous one comes back to the
/// same field, and the other way round.
pub proof fn lemma_next_previous_inverse(a: int)
    requires
        0 <= a < 4,
    ensures
        ({
            let n = (a + 1) % 4;
            (if n == 0 {
                3
            } else {
                n - 1
            }) == a
        }),
        ({
            let p = if a == 0 {
                3
            } else {
                a - 1
            };
            (p + 1) % 4 == a
        }),
{
}

} // verus!
