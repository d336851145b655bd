use khepri::editor::{EditorSession, SavePromptAction};
use khepri::hub::{project_display_name, HubResult, HubState};
use khepri::paths::PathRules;

#[test]
fn display_names() {
    assert_eq!(project_display_name(&PathRules::current(), "/home/u/MyGame"), "MyGame");
    assert_eq!(project_display_name(&PathRules::current(), "/"), "Unknown");
}

#[test]
fn new_project_popup_flow() {
    let mut hub = HubState::new();
    assert!(!hub.show_popup);
    hub.project_name = "stale".to_string();
    hub.git_init = true;
    hub.open_new_project_popup();
    assert!(hub.show_popup && hub.popup_just_opened);
    assert!(hub.project_name.is_empty() && !hub.git_init && hub.chosen_folder.is_none());
    assert!(!hub.can_create());
    assert_eq!(hub.new_project_root(), None);
    hub.end_popup_frame(true);
    assert!(hub.show_popup, "the opening frame's click does not close the popup");
    hub.project_name = "MyGame".to_string();
    assert!(!hub.can_create());
    hub.chosen_folder = Some("/home/u".to_string());
    assert!(hub.can_create());
    assert_eq!(hub.new_project_root(), Some("/home/u/MyGame".to_string()));
    hub.end_popup_frame(false);
    assert!(hub.show_popup);
    hub.end_popup_frame(true);
    assert!(!hub.show_popup);
    hub.open_new_project_popup();
    hub.close_new_project_popup();
    assert!(!hub.show_popup);
}

#[test]
fn context_menu_rename_and_delete() {
    let mut hub = HubState::new();
    assert_eq!(hub.context_menu_step(true, true, true), None);
    hub.open_context_menu("/home/u/MyGame".to_string());
    assert_eq!(hub.context_menu_step(false, false, true), None);
    assert_eq!(hub.ctx_menu_project, Some("/home/u/MyGame".to_string()));
    assert_eq!(hub.context_menu_step(true, false, true), None);
    assert_eq!(hub.ctx_menu_project, None);
    assert_eq!(hub.rename_project, Some("/home/u/MyGame".to_string()));
    assert_eq!(hub.rename_text, "MyGame");
    assert!(hub.rename_just_opened);

    hub.open_context_menu("/home/u/Other".to_string());
    assert_eq!(hub.context_menu_step(false, true, false), Some("/home/u/Other".to_string()));
    assert_eq!(hub.ctx_menu_project, None);

    hub.open_context_menu("/home/u/Other".to_string());
    hub.context_menu_step(false, false, false);
    hub.context_menu_step(false, false, true);
    assert_eq!(hub.ctx_menu_project, None);
}

#[test]
fn rename_popup_flow() {
    let mut hub = HubState::new();
    hub.open_context_menu("/home/u/MyGame".to_string());
    hub.context_menu_step(true, false, false);
    assert!(hub.rename_step(false, false, true).is_none());
    assert!(hub.rename_project.is_some(), "the opening frame's click does not close the popup");
    hub.rename_text = String::new();
    assert!(!hub.can_rename());
    assert!(hub.rename_step(true, false, false).is_none());
    assert!(hub.rename_project.is_some());
    hub.rename_text = "Renamed".to_string();
    let req = hub.rename_step(true, false, false).unwrap();
    assert_eq!(req.from, "/home/u/MyGame");
    assert_eq!(req.to, "/home/u/Renamed");
    assert_eq!(hub.rename_project, None);
    assert!(hub.rename_step(true, false, false).is_none());

    hub.rename_project = Some("/".to_string());
    hub.rename_text = "x".to_string();
    assert!(hub.rename_step(true, false, false).is_none());
    assert_eq!(hub.rename_project, None);

    hub.rename_project = Some("/a/b".to_string());
    hub.rename_step(false, true, false);
    assert_eq!(hub.rename_project, None);
}

#[test]
fn hub_results() {
    let r = HubResult::OpenProject("/p".to_string());
    match r {
        HubResult::OpenProject(p) => assert_eq!(p, "/p"),
        HubResult::Quit => panic!("expected a project"),
    }
}

#[test]
fn unsaved_changes_go_through_the_prompt() {
    let mut s = EditorSession::new();
    assert!(!s.close_requested());
    s.record_changes(false);
    assert!(!s.dirty);
    s.record_changes(true);
    assert!(s.dirty);
    assert!(s.close_requested());
    assert!(s.show_save_prompt);
    assert!(!s.close_requested(), "a second request while the prompt is up is not cancelled");
    assert!(!s.apply_prompt_action(SavePromptAction::NoAnswer));
    assert!(s.show_save_prompt);
    assert!(!s.take_close());
    assert!(!s.apply_prompt_action(SavePromptAction::Cancel));
    assert!(!s.show_save_prompt && !s.wants_close);
    assert!(s.close_requested());
    assert!(s.apply_prompt_action(SavePromptAction::SaveAndClose));
    s.record_save(true);
    assert!(!s.dirty);
    assert!(s.take_close());
    assert!(!s.take_close());
}

#[test]
fn closing_without_saving() {
    let mut s = EditorSession::new();
    s.record_changes(true);
    s.close_requested();
    assert!(!s.apply_prompt_action(SavePromptAction::Close));
    assert!(s.dirty);
    assert!(s.take_close());
    s.record_save(false);
    assert!(s.dirty);
}
