use std::path::{Path, PathBuf};

use khepri::hub::{project_display_name, HubState};
use khepri::paths::{default_scene_path, home_folder, project_config_path, project_layout, user_config_path, PathRules};
use khepri::project::{chrono_stamp, new_project_config};
use khepri::recent::{add_recent_project, get_recent_projects, remove_recent_project, UserConfig, MAX_RECENT_PROJECTS};
use khepri::text::decimal_string;

#[test]
fn test_default_scene_path() {
    let root = "/tmp/MyGame";
    let p = default_scene_path(&PathRules::current(), root);
    assert_eq!(PathBuf::from(p), PathBuf::from("/tmp/MyGame/scenes/main_scene.ron"));
}

#[test]
fn test_user_config_default() {
    let config = UserConfig::default();
    assert!(config.recent_projects.is_empty());
}

fn joined(base: &str, seg: &str) -> String {
    let mut hub = HubState::new();
    hub.chosen_folder = Some(base.to_string());
    hub.project_name = seg.to_string();
    hub.new_project_root().unwrap()
}

#[test]
fn join_follows_pathbuf_push() {
    for (base, seg) in [("/tmp/a", "b"), ("/tmp/a/", "b"), ("", "b"), ("/tmp/a", "/etc"), ("a", "b/c")] {
        let expected = Path::new(base).join(seg);
        assert_eq!(joined(base, seg), expected.to_str().unwrap());
    }
    assert_eq!(joined("/tmp/a", "b"), "/tmp/a/b");
    assert_eq!(joined("/tmp/a/", "b"), "/tmp/a/b");
    assert_eq!(joined("/tmp/a", "/etc"), "/etc");
}

#[test]
fn project_paths() {
    assert_eq!(project_config_path(&PathRules::current(), "/p"), "/p/.khepri/project.ron");
    let l = project_layout(&PathRules::current(), "/home/u/MyGame");
    assert_eq!(l.khepri_dir, "/home/u/MyGame/.khepri");
    assert_eq!(l.scenes_dir, "/home/u/MyGame/scenes");
    assert_eq!(l.assets_dir, "/home/u/MyGame/assets");
    assert_eq!(l.config_path, "/home/u/MyGame/.khepri/project.ron");
    assert_eq!(l.main_scene_path, "/home/u/MyGame/scenes/main_scene.ron");
}

#[test]
fn user_config_location() {
    assert_eq!(home_folder(Some("C:/Users/E".to_string()), Some("/home/e".to_string())), "C:/Users/E");
    assert_eq!(home_folder(None, Some("/home/e".to_string())), "/home/e");
    assert_eq!(home_folder(None, None), ".");
    assert_eq!(user_config_path(&PathRules::current(), "/home/e"), "/home/e/.khepri/user.ron");
    assert_eq!(user_config_path(&PathRules::current(), "."), "./.khepri/user.ron");
}

fn same_path(a: &str, b: &str) -> bool {
    let mut config = UserConfig { recent_projects: vec![a.to_string()] };
    remove_recent_project(&PathRules::current(), &mut config, b);
    config.recent_projects.is_empty()
}

fn file_name(path: &str) -> Option<String> {
    let name = project_display_name(&PathRules::current(), path);
    if name == "Unknown" { None } else { Some(name) }
}

/// Where renaming the folder `path` to `x` moves it: next to itself, under its parent.
fn renamed_to_x(path: &str) -> Option<String> {
    let mut hub = HubState::new();
    hub.rename_project = Some(path.to_string());
    hub.rename_text = "x".to_string();
    hub.rename_step(true, false, false).map(|req| req.to)
}

#[test]
fn paths_compare_by_component() {
    assert!(same_path("/tmp/a/b", "/tmp/a/b/"));
    assert!(same_path("/tmp//a/./b", "/tmp/a/b"));
    assert!(!same_path("/tmp/a/b", "/tmp/a/c"));
    assert!(!same_path("/tmp/a", "tmp/a"));
    assert!(!same_path("/tmp/a/..", "/tmp"));
    assert!(same_path("/a/b/", "/a//./b"));
    assert!(same_path("./a", ".//a/."));
    assert!(!same_path("./a", "a"));
    assert!(same_path("/./a", "/a"));
    assert!(same_path("//a", "/a"));
}

#[test]
fn file_names_and_parents() {
    assert_eq!(file_name("/tmp/MyGame"), Some("MyGame".to_string()));
    assert_eq!(file_name("/tmp/MyGame/"), Some("MyGame".to_string()));
    assert_eq!(file_name("/"), None);
    assert_eq!(file_name("/tmp/.."), None);
    assert_eq!(file_name(""), None);
    assert_eq!(file_name("/tmp/MyGame/."), Some("MyGame".to_string()));
    assert_eq!(file_name("."), None);
    assert_eq!(file_name("./"), None);
    assert_eq!(renamed_to_x("/tmp/MyGame"), Some("/tmp/x".to_string()));
    assert_eq!(renamed_to_x("/"), None);
    assert_eq!(renamed_to_x("MyGame"), Some("x".to_string()));
    assert_eq!(renamed_to_x("/tmp/MyGame/"), Some("/tmp/x".to_string()));
    assert_eq!(renamed_to_x(""), None);
    assert_eq!(renamed_to_x("."), Some("x".to_string()));
    assert_eq!(renamed_to_x("/tmp/a/.."), Some("/tmp/a/x".to_string()));
    assert_eq!(renamed_to_x("/tmp"), Some("/x".to_string()));
}

#[test]
fn decimal_rendering() {
    assert_eq!(decimal_string(0), "0");
    assert_eq!(decimal_string(7), "7");
    assert_eq!(decimal_string(1725029869), "1725029869");
    assert_eq!(decimal_string(u64::MAX), u64::MAX.to_string());
}

#[test]
fn project_config_for_new_project() {
    assert_eq!(chrono_stamp(1748692800), "2025-05-31T12:00:00Z");
    let c = new_project_config("MyGame", 42);
    assert_eq!(c.name, "MyGame");
    assert_eq!(c.version, "0.1.0");
    assert_eq!(c.created_at, "1970-01-01T00:00:42Z");
}

fn config_of(paths: &[&str]) -> UserConfig {
    UserConfig { recent_projects: paths.iter().map(|p| p.to_string()).collect() }
}

#[test]
fn adding_a_recent_project_moves_it_to_the_front() {
    let mut config = config_of(&["/a", "/b", "/c"]);
    add_recent_project(&PathRules::current(), &mut config, "/b".to_string());
    assert_eq!(config.recent_projects, vec!["/b", "/a", "/c"]);
    add_recent_project(&PathRules::current(), &mut config, "/d".to_string());
    assert_eq!(config.recent_projects, vec!["/d", "/b", "/a", "/c"]);
    add_recent_project(&PathRules::current(), &mut config, "/a/".to_string());
    assert_eq!(config.recent_projects, vec!["/a/", "/d", "/b", "/c"]);
}

#[test]
fn adding_twice_is_like_adding_once() {
    let mut once = config_of(&["/a", "/b"]);
    add_recent_project(&PathRules::current(), &mut once, "/b".to_string());
    let mut twice = config_of(&["/a", "/b"]);
    add_recent_project(&PathRules::current(), &mut twice, "/b".to_string());
    add_recent_project(&PathRules::current(), &mut twice, "/b".to_string());
    assert_eq!(once.recent_projects, twice.recent_projects);
}

#[test]
fn recent_list_is_capped() {
    let mut config = UserConfig::default();
    for i in 0..25 {
        add_recent_project(&PathRules::current(), &mut config, format!("/p{}", i));
    }
    assert_eq!(config.recent_projects.len(), MAX_RECENT_PROJECTS);
    assert_eq!(config.recent_projects[0], "/p24");
    assert_eq!(config.recent_projects[19], "/p5");
}

#[test]
fn removing_recent_projects() {
    let mut config = config_of(&["/a", "/b", "/a/", "/c"]);
    remove_recent_project(&PathRules::current(), &mut config, "/a");
    assert_eq!(config.recent_projects, vec!["/b", "/c"]);
    remove_recent_project(&PathRules::current(), &mut config, "/zzz");
    assert_eq!(config.recent_projects, vec!["/b", "/c"]);
    let mut after_add = config_of(&["/a", "/b"]);
    add_recent_project(&PathRules::current(), &mut after_add, "/c".to_string());
    remove_recent_project(&PathRules::current(), &mut after_add, "/c");
    assert_eq!(after_add.recent_projects, vec!["/a", "/b"]);
    assert_eq!(get_recent_projects(after_add), vec!["/a".to_string(), "/b".to_string()]);
}

#[test]
fn creation_stamps_are_iso8601_utc() {
    assert_eq!(chrono_stamp(1780228800), "2026-05-31T12:00:00Z");
    assert_eq!(chrono_stamp(0), "1970-01-01T00:00:00Z");
    assert_eq!(chrono_stamp(951782400), "2000-02-29T00:00:00Z");
    assert_eq!(chrono_stamp(951782399), "2000-02-28T23:59:59Z");
    assert_eq!(chrono_stamp(4102444800), "2100-01-01T00:00:00Z");
    assert_eq!(chrono_stamp(4107542399), "2100-02-28T23:59:59Z");
    assert_eq!(chrono_stamp(4107542400), "2100-03-01T00:00:00Z");
    assert_eq!(chrono_stamp(1735689599), "2024-12-31T23:59:59Z");
}
