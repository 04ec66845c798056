use glim::cli::Args;
use glim::config::GlimConfig;
use glim::config_popup::{ConfigPopupState, InputField};
use glim::error::JsonErrorCategory;
use glim::event::{KeyCode, KeyEvent, ALT, CONTROL, META, NO_MODIFIERS};
use glim::ids::{JobId, PipelineId, ProjectId};
use glim::input::PipelineAction;
use glim::layout::{
    format_duration, table_row_style, AlertPopup, ConfigPopup, Notification, PipelineActionsPopup,
    ProjectDetailsPopup, Rect, ShortcutParts,
};
use glim::logging::{LogLevel, LoggingConfig};
use glim::notice::{Notice, NoticeLevel, NoticeMessage};
use glim::text_input::{edit_request, EditRequest};
use glim::widgets::StatefulWidgets;

fn screen() -> Rect {
    Rect { x: 0, y: 0, width: 100, height: 40 }
}

#[test]
fn durations_are_formatted() {
    assert_eq!(format_duration(0), "0:00");
    assert_eq!(format_duration(59_999), "0:59");
    assert_eq!(format_duration(61_000), "1:01");
    assert_eq!(format_duration(-61_000), "1:01");
    assert_eq!(format_duration(3_723_000), "1:02:03");
    assert_eq!(format_duration(36_000_000), "10:00:00");
}

#[test]
fn centered_rectangles() {
    let r = screen().inner_centered(40, 10);
    assert_eq!(r, Rect { x: 30, y: 15, width: 40, height: 10 });
    let r = screen().inner_centered(200, 50);
    assert_eq!(r, screen());
    let r = Rect { x: 5, y: 5, width: 11, height: 4 }.inner_centered(4, 1);
    assert_eq!(r, Rect { x: 8, y: 6, width: 4, height: 1 });
}

#[test]
fn popup_areas() {
    assert_eq!(ConfigPopup::area(screen()), Rect { x: 10, y: 12, width: 80, height: 15 });
    assert_eq!(PipelineActionsPopup::area(screen(), 4), Rect { x: 30, y: 17, width: 40, height: 6 });
    assert_eq!(ProjectDetailsPopup::area(screen(), 3), Rect { x: 0, y: 14, width: 100, height: 12 });
    let alert = AlertPopup::new("hello".to_string());
    assert_eq!(alert.area(screen()), Rect { x: 45, y: 17, width: 9, height: 5 });
    let _ = (ConfigPopup::new(), PipelineActionsPopup::new(), ProjectDetailsPopup::new(), Notification::new());
}

#[test]
fn action_labels() {
    let p = ProjectId::new(1);
    let q = PipelineId::new(2);
    assert_eq!(PipelineActionsPopup::label(PipelineAction::JobOpenUrl(p, q, JobId::new(3))), "browse to failed job");
    assert_eq!(PipelineActionsPopup::label(PipelineAction::PipelineOpenUrl(p, q)), "browse to pipeline");
    assert_eq!(PipelineActionsPopup::label(PipelineAction::ProjectOpenUrl(p)), "browse to project");
    assert_eq!(PipelineActionsPopup::label(PipelineAction::JobLogFetch(p, q)), "download failed job log to clipboard");
}

#[test]
fn notification_texts() {
    let n = |message| Notice { level: NoticeLevel::Error, message };
    let name = Some("group/app".to_string());
    assert_eq!(Notification::text(&n(NoticeMessage::ConfigError("bad".to_string())), &None), "Config error: bad");
    assert_eq!(
        Notification::text(&n(NoticeMessage::GitlabGetJobsError(ProjectId::new(1), PipelineId::new(2), "x".to_string())), &name),
        "Failed to get jobs for group/app: x"
    );
    assert_eq!(
        Notification::text(&n(NoticeMessage::GitlabGetPipelinesError(ProjectId::new(1), PipelineId::new(2), "x".to_string())), &None),
        "Failed to get pipelines for <unknown project>: x"
    );
    assert_eq!(
        Notification::text(&n(NoticeMessage::JsonDeserializeError(JsonErrorCategory::Syntax, " at 1".to_string())), &None),
        "Failed to parse JSON (Syntax) at 1"
    );
    assert_eq!(
        Notification::text(&n(NoticeMessage::JobLogDownloaded(ProjectId::new(1), PipelineId::new(2), JobId::new(3))), &name),
        "Finished downloading job log for group/app"
    );
    let general = n(NoticeMessage::GeneralMessage("héllo".to_string()));
    assert_eq!(Notification::text_width(&general, &None), 5);
}

#[test]
fn notification_area() {
    let area = Rect { x: 0, y: 0, width: 20, height: 3 };
    assert_eq!(Notification::content_area(area, 6), Rect { x: 6, y: 0, width: 8, height: 1 });
    assert_eq!(Notification::content_area(area, 50), Rect { x: 0, y: 0, width: 20, height: 1 });
    let notice = Notice { level: NoticeLevel::Info, message: NoticeMessage::GeneralMessage("abcdef".to_string()) };
    assert_eq!(Notification::area(area, &notice, &None), Rect { x: 6, y: 0, width: 8, height: 1 });
}

#[test]
fn shortcut_parts() {
    match ShortcutParts::of("c", "config") {
        ShortcutParts::Mnemonic { before, key, after } => {
            assert_eq!((before.as_str(), key, after.as_str()), ("", 'c', "onfig"));
        },
        other => panic!("unexpected {other:?}"),
    }
    match ShortcutParts::of("f", "filter projects") {
        ShortcutParts::Mnemonic { before, key, after } => {
            assert_eq!((before.as_str(), key, after.as_str()), ("", 'f', "ilter projects"));
        },
        other => panic!("unexpected {other:?}"),
    }
    match ShortcutParts::of("ESC", "close") {
        ShortcutParts::Plain { key, label } => assert_eq!((key.as_str(), label.as_str()), ("ESC", "close")),
        other => panic!("unexpected {other:?}"),
    }
    match ShortcutParts::of("lo", "hello") {
        ShortcutParts::Mnemonic { before, key, after } => {
            assert_eq!((before.as_str(), key, after.as_str()), ("he", 'l', "lo"));
        },
        other => panic!("unexpected {other:?}"),
    }
}

#[test]
fn row_styles_alternate() {
    assert_eq!(table_row_style(0), 0);
    assert_eq!(table_row_style(1), 1);
    assert_eq!(table_row_style(6), 0);
}

#[test]
fn logging_from_environment() {
    let c = LoggingConfig::from_env_values("/cache".to_string(), None, None, false, false);
    assert_eq!(c.file_level, LogLevel::Debug);
    assert_eq!(c.log_dir.as_deref(), Some("/cache"));
    assert!(!c.json_format);
    assert_eq!(c.max_files, Some(10));
    let c = LoggingConfig::from_env_values("/cache".to_string(), Some("WARN".to_string()), Some("/logs".to_string()), false, true);
    assert_eq!(c.file_level, LogLevel::Warn);
    assert_eq!(c.log_dir.as_deref(), Some("/logs"));
    assert!(c.json_format);
    let c = LoggingConfig::from_env_values("/cache".to_string(), Some("5".to_string()), Some("/logs".to_string()), true, false);
    assert_eq!(c.file_level, LogLevel::Trace);
    assert_eq!(c.log_dir, None);
    let c = LoggingConfig::from_env_values("/cache".to_string(), Some("loud".to_string()), None, false, false);
    assert_eq!(c.file_level, LogLevel::Debug);
    let c = LoggingConfig::from_env_values("/cache".to_string(), Some("+1".to_string()), None, false, false);
    assert_eq!(c.file_level, LogLevel::Error);
}

#[test]
fn config_path_from_args() {
    let args = Args { config: None, print_config_path: false };
    assert_eq!(args.config_path("/default.toml".to_string()), "/default.toml");
    let args = Args { config: Some("/mine.toml".to_string()), print_config_path: true };
    assert_eq!(args.config_path("/default.toml".to_string()), "/mine.toml");
}

#[test]
fn text_field_keys() {
    assert_eq!(edit_request(KeyCode::Char('x'), NO_MODIFIERS), Some(EditRequest::InsertChar('x')));
    assert_eq!(edit_request(KeyCode::Backspace, NO_MODIFIERS), Some(EditRequest::DeletePrevChar));
    assert_eq!(edit_request(KeyCode::Delete, NO_MODIFIERS), Some(EditRequest::DeleteNextChar));
    assert_eq!(edit_request(KeyCode::Home, NO_MODIFIERS), Some(EditRequest::GoToStart));
    assert_eq!(edit_request(KeyCode::End, NO_MODIFIERS), Some(EditRequest::GoToEnd));
    assert_eq!(edit_request(KeyCode::Tab, NO_MODIFIERS), None);
    assert_eq!(edit_request(KeyCode::Char('X'), glim::event::SHIFT), Some(EditRequest::InsertChar('X')));
    assert_eq!(edit_request(KeyCode::Char('w'), CONTROL), Some(EditRequest::DeletePrevWord));
    assert_eq!(edit_request(KeyCode::Char('d'), META), Some(EditRequest::DeletePrevWord));
    assert_eq!(edit_request(KeyCode::Char('u'), CONTROL), Some(EditRequest::DeleteLine));
    assert_eq!(edit_request(KeyCode::Right, CONTROL), Some(EditRequest::GoToNextWord));
    assert_eq!(edit_request(KeyCode::Home, CONTROL), None);
}

fn key(code: KeyCode) -> KeyEvent {
    KeyEvent { code, modifiers: NO_MODIFIERS }
}

#[test]
fn config_popup_fields() {
    let config = GlimConfig {
        gitlab_url: "https://gitlab.com/api/v4".to_string(),
        gitlab_token: "secret".to_string(),
        search_filter: Some("ops".to_string()),
        log_level: Some("Info".to_string()),
    };
    let mut popup = ConfigPopupState::new(&config);
    assert_eq!(popup.input().label, "gitlab url");
    popup.select_next_input();
    assert_eq!(popup.input().sanitized_input_display(), "******");
    popup.select_previous_input();
    popup.select_previous_input();
    assert!(popup.is_current_field_dropdown());
    assert_eq!(popup.input().sanitized_input_display(), "Info (←→ to change)");
    popup.cycle_dropdown_next();
    assert_eq!(popup.input().value, "Warn");
    popup.cycle_dropdown_prev();
    popup.cycle_dropdown_prev();
    assert_eq!(popup.input().value, "Debug");
    let out = popup.to_config();
    assert_eq!(out.log_level.as_deref(), Some("Debug"));
    assert_eq!(out.search_filter.as_deref(), Some("ops"));
    assert_eq!(out.gitlab_token, "secret");
}

#[test]
fn config_popup_editing() {
    let mut popup = ConfigPopupState::new(&GlimConfig::default());
    for c in "  my.host ".chars() {
        popup.edit_input(key(KeyCode::Char(c)));
    }
    popup.edit_input(key(KeyCode::Home));
    popup.edit_input(key(KeyCode::Delete));
    assert_eq!(popup.input().value, " my.host ");
    assert_eq!(popup.input().cursor, 0);
    popup.edit_input(key(KeyCode::End));
    popup.edit_input(key(KeyCode::Left));
    popup.edit_input(key(KeyCode::Backspace));
    assert_eq!(popup.input().value, " my.hos ");
    assert_eq!(popup.cursor_position(10, 5), (10 + 1 + 7, 5 + 3));
    let out = popup.to_config();
    assert_eq!(out.gitlab_url, "my.hos");
    assert_eq!(out.search_filter, None);
    assert_eq!(out.log_level.as_deref(), Some("Error"));
}

#[test]
fn masked_field_shows_stars() {
    let f = InputField::text("token".to_string(), "abc".to_string(), true);
    assert_eq!(f.sanitized_input_display(), "***");
    assert_eq!(f.cursor, 3);
    assert!(!f.is_dropdown());
}

#[test]
fn widgets_filter_typing() {
    let mut ui = StatefulWidgets::new();
    ui.add_filter_char("x");
    assert_eq!(ui.temporary_filter, None, "nothing is typed while the input is hidden");
    ui.show_filter_input();
    ui.add_filter_char("a");
    ui.add_filter_char("b");
    assert_eq!(ui.temporary_filter.as_deref(), Some("ab"));
    ui.remove_filter_char();
    assert_eq!(ui.filter_input_text, "a");
    ui.remove_filter_char();
    assert_eq!(ui.temporary_filter, None);
    ui.apply_temporary_filter(Some("ops".to_string()));
    assert!(!ui.filter_input_active);
    assert_eq!(ui.effective_filter(&Some("cfg".to_string())).as_deref(), Some("ops"));
    let _ = ui.clear_filter();
    assert_eq!(ui.effective_filter(&Some("cfg".to_string())).as_deref(), Some("cfg"));
}

#[test]
fn project_selection_steps() {
    let mut ui = StatefulWidgets::new();
    let ids = vec![ProjectId::new(7), ProjectId::new(8), ProjectId::new(9)];
    let e = ui.handle_project_selection(1, &ids);
    assert!(matches!(e, Some(glim::event::GlimEvent::ProjectSelected(id)) if id.value() == 8));
    ui.handle_project_selection(1, &ids);
    let e = ui.handle_project_selection(1, &ids);
    assert_eq!(ui.project_selected, Some(2), "the selection stops at the last row");
    assert!(matches!(e, Some(glim::event::GlimEvent::ProjectSelected(id)) if id.value() == 9));
    ui.update_filtered_indices(vec![0, 2]);
    let e = ui.handle_project_selection(-1, &ids);
    assert_eq!(ui.project_selected, Some(1), "kept inside the two rows shown");
    assert!(matches!(e, Some(glim::event::GlimEvent::ProjectSelected(id)) if id.value() == 9));
    let e = ui.handle_project_selection(-1, &ids);
    assert_eq!(ui.project_selected, Some(0));
    assert!(matches!(e, Some(glim::event::GlimEvent::ProjectSelected(id)) if id.value() == 7));
}

fn chord(code: KeyCode, modifiers: u8) -> KeyEvent {
    KeyEvent { code, modifiers }
}

#[test]
fn config_popup_word_editing() {
    let mut popup = ConfigPopupState::new(&GlimConfig::default());
    for c in "https://gitlab.example.com".chars() {
        popup.edit_input(key(KeyCode::Char(c)));
    }
    // Ctrl+W removes the word before the cursor
    popup.edit_input(chord(KeyCode::Char('w'), CONTROL));
    assert_eq!(popup.input().value, "https://gitlab.example.");
    assert_eq!(popup.input().cursor, 23);
    // Ctrl+Left goes to the start of the previous word
    popup.edit_input(chord(KeyCode::Left, CONTROL));
    assert_eq!(popup.input().cursor, 15);
    // Meta+B as well
    popup.edit_input(chord(KeyCode::Char('b'), META));
    assert_eq!(popup.input().cursor, 8);
    // Ctrl+Right goes to the start of the next word
    popup.edit_input(chord(KeyCode::Right, CONTROL));
    assert_eq!(popup.input().cursor, 15);
    // Ctrl+K deletes to the end
    popup.edit_input(chord(KeyCode::Char('k'), CONTROL));
    assert_eq!(popup.input().value, "https://gitlab.");
    // Ctrl+A and Ctrl+E move to either end; Ctrl+H deletes a character
    popup.edit_input(chord(KeyCode::Char('a'), CONTROL));
    assert_eq!(popup.input().cursor, 0);
    popup.edit_input(chord(KeyCode::Char('e'), CONTROL));
    popup.edit_input(chord(KeyCode::Char('h'), CONTROL));
    assert_eq!(popup.input().value, "https://gitlab");
    // Alt+Backspace removes the word before the cursor
    popup.edit_input(chord(KeyCode::Backspace, ALT));
    assert_eq!(popup.input().value, "https://");
    // Ctrl+Delete removes up to the next word
    popup.edit_input(key(KeyCode::Home));
    popup.edit_input(chord(KeyCode::Delete, CONTROL));
    assert_eq!(popup.input().value, "");
    // Ctrl with another letter inserts nothing
    popup.edit_input(chord(KeyCode::Char('x'), CONTROL));
    assert_eq!(popup.input().value, "");
    // Ctrl+U clears the field
    for c in "abc".chars() {
        popup.edit_input(key(KeyCode::Char(c)));
    }
    popup.edit_input(chord(KeyCode::Char('u'), CONTROL));
    assert_eq!(popup.input().value, "");
    assert_eq!(popup.input().cursor, 0);
}
