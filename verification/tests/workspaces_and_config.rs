use katac::config::{global_config_path, local_config_path, share_dir, Config};
use katac::args::Args;
use katac::global_config_file::GlobalConfigFile;
use katac::global_katas_file::GlobalKatasFile;
use katac::workspaces::{
    days_dir, get_kata_path, katas_dir, workspace_name, workspace_relative_path, Workspace,
};
use katac::Kata;

fn ws(name: &str) -> Workspace {
    Workspace::new_with(
        name,
        format!("/home/me/{}", name),
        "katas".to_string(),
        "days".to_string(),
        "me".to_string(),
        Vec::new(),
    )
}

fn no_args() -> Args {
    Args {
        katas_dir: None,
        days_dir: None,
        config_file: None,
        kata_names_args: None,
        subcommand: None,
    }
}

#[test]
fn workspace_add_existing_kata_changes_nothing() {
    let mut w = ws("proj");
    let before = w.katas.len();
    match w.add("foo", true) {
        Err(message) => assert_eq!(message.as_str(), "Kata foo already exists"),
        Ok(_) => panic!("an existing kata is reported"),
    }
    assert_eq!(w.katas.len(), before);
}

#[test]
fn workspace_add_appends_kata() {
    let mut w = ws("proj");
    let kata = w.add("foo", false).expect("a fresh kata");
    assert_eq!(kata.name.as_str(), "foo");
    assert_eq!(kata.path.as_str(), "katas/foo");
    assert_eq!(w.katas.len(), 1);
    assert!(w.contains("foo"));
    assert!(!w.contains("bar"));
}

#[test]
fn workspace_kata_names_and_paths() {
    let mut w = ws("proj");
    w.add("a", false).unwrap();
    w.add("b", false).unwrap();
    let names: Vec<String> = w.get_kata_names();
    assert_eq!(names, vec!["a".to_string(), "b".to_string()]);
    let katas = w.get_katas(&vec!["x".to_string()]);
    assert_eq!(katas[0].path.as_str(), "katas/x");
}

#[test]
fn workspace_day_paths() {
    let w = ws("proj");
    assert_eq!(w.curday_path(2).as_str(), "days/day2");
    assert_eq!(w.nextday_path(2).as_str(), "days/day3");
    assert_eq!(w.curday_kata_path(2, &"foo".to_string()).as_str(), "days/day2/foo");
}

#[test]
fn workspace_name_is_last_component() {
    assert_eq!(workspace_name("/home/me/proj").as_str(), "proj");
    assert_eq!(workspace_name("proj").as_str(), "proj");
    assert_eq!(workspace_name("days/day1/").as_str(), "day1");
}

#[test]
fn directory_resolution_priority_and_cleaning() {
    let arg = Some("custom/./days".to_string());
    let env = Some("env_days".to_string());
    let cfg = Some("cfg_days".to_string());
    assert_eq!(days_dir(&arg, &env, &cfg, "/root").as_str(), "/root/custom/days");
    assert_eq!(days_dir(&None, &env, &cfg, "/root").as_str(), "/root/env_days");
    assert_eq!(days_dir(&None, &None, &cfg, "/root").as_str(), "/root/cfg_days");
    assert_eq!(days_dir(&None, &None, &None, "/root").as_str(), "/root/days");
    assert_eq!(
        days_dir(&Some("/abs/../days".to_string()), &env, &None, "/root").as_str(),
        "/days"
    );
    assert_eq!(katas_dir(&Some("x/../k".to_string()), &None, &None, "/root").as_str(), "/root/k");
    assert_eq!(katas_dir(&None, &None, &None, "/root").as_str(), "/root/katas");
    let resolved = katas_dir(&None, &Some("deep/./k".to_string()), &None, "/root");
    assert!(resolved.starts_with('/'));
}

#[test]
fn kata_path_in_workspace() {
    assert_eq!(get_kata_path("foo", "katas").as_str(), "katas/foo");
    assert_eq!(get_kata_path("a/b", "katas").as_str(), "a/b");
}

#[test]
fn relative_path_below_workspace() {
    let rel = workspace_relative_path("proj", "/home/me/proj/katas/foo");
    assert_eq!(rel.as_str(), "katas/foo");
}

#[test]
fn global_config_workspace_round_trip() {
    let mut g = GlobalConfigFile::new("/tmp/katac.json".to_string(), Vec::new());
    assert!(!g.contains_workspace("proj"));
    g.add_workspace(&ws("proj")).expect("a fresh workspace");
    assert!(g.contains_workspace("proj"));
    match g.add_workspace(&ws("proj")) {
        Err(message) => assert_eq!(message.as_str(), "Workspace already exists"),
        Ok(_) => panic!("a duplicate workspace is reported"),
    }
    g.add_workspace(&ws("other")).expect("a fresh workspace");
    assert_eq!(
        g.list_workspaces(),
        vec!["proj".to_string(), "other".to_string()]
    );
    let found = g.find_workspace("other").expect("a recorded workspace");
    assert_eq!(found.path.as_str(), "/home/me/other");
    g.remove_workspace("proj");
    assert_eq!(g.list_workspaces(), vec!["other".to_string()]);
    assert!(g.find_workspace("proj").is_none());
}

#[test]
fn global_config_update_workspace_replaces_first_match() {
    let mut g = GlobalConfigFile::new("p".to_string(), Vec::new());
    g.add_workspace(&ws("proj")).unwrap();
    let mut changed = ws("proj");
    changed.days_dir = "elsewhere".to_string();
    g.update_workspace(&changed);
    let found = g.find_workspace("proj").unwrap();
    assert_eq!(found.days_dir.as_str(), "elsewhere");
}

#[test]
fn global_config_all_katas_flattens() {
    let mut a = ws("a");
    a.add("k1", false).unwrap();
    let mut b = ws("b");
    b.add("k2", false).unwrap();
    b.add("k3", false).unwrap();
    let mut g = GlobalConfigFile::new("p".to_string(), Vec::new());
    g.add_workspace(&a).unwrap();
    g.add_workspace(&b).unwrap();
    let names: Vec<String> = g.all_katas().into_iter().map(|k| k.name).collect();
    assert_eq!(names, vec!["k1".to_string(), "k2".to_string(), "k3".to_string()]);
}

#[test]
fn config_delegates_to_global_record() {
    let g = GlobalConfigFile::new("p".to_string(), Vec::new());
    let mut c = Config::new(g, None);
    assert!(c.is_new_workspace("proj"));
    c.add_workspace(&ws("proj")).unwrap();
    assert!(!c.is_new_workspace("proj"));
    assert_eq!(c.list_workspaces(), vec!["proj".to_string()]);
    c.remove_workspace("proj");
    assert!(c.find_workspace("proj").is_none());
}

#[test]
fn config_carries_directory_overrides_into_workspace() {
    let g = GlobalConfigFile::new("p".to_string(), Vec::new());
    let mut c = Config::new(g, None);
    c.add_workspace(&ws("proj")).unwrap();
    let mut w = ws("proj");
    let args = Args { katas_dir: Some("kk".to_string()), ..no_args() };
    c.update_cfg_if_given_args(&args, &mut w);
    assert_eq!(w.katas_dir.as_str(), "kk");
    assert_eq!(w.days_dir.as_str(), "days");
    let stored = c.find_workspace("proj").unwrap();
    assert_eq!(stored.katas_dir.as_str(), "kk");
}

#[test]
fn config_paths() {
    assert_eq!(local_config_path(&no_args()).as_str(), "katac.json");
    let named = Args { config_file: Some("my.json".to_string()), ..no_args() };
    assert_eq!(local_config_path(&named).as_str(), "my.json");
    assert_eq!(share_dir("/home/me", false).as_str(), "/home/me/.local/share/katac");
    assert_eq!(share_dir("C:/Users/me", true).as_str(), "C:/Users/me/katac");
    assert_eq!(
        global_config_path("/home/me", false).as_str(),
        "/home/me/.local/share/katac/katac.json"
    );
}

#[test]
fn global_katas_save_and_lookup() {
    let mut g = GlobalKatasFile { filepath: "p".to_string(), katas: None };
    assert!(!g.is_saved("foo"));
    g.save("foo", "katas/foo".to_string());
    assert!(g.is_saved("foo"));
    g.save("bar", "katas/bar".to_string());
    let all: Vec<Kata> = g.global_katas();
    let names: Vec<String> = all.into_iter().map(|k| k.name).collect();
    assert_eq!(names, vec!["foo".to_string(), "bar".to_string()]);
}
