use katac::init::{
    filter_katas_by_language, format_option, get_available_languages, init_dest_name, init_step,
    init_summary_message, is_embedded_kata, select_indices, sort_kata_pairs, InitStep,
};
use katac::repos::{repo_clone_destination, username_as_repo_name, DEFAULT_REPO};
use katac::text::{split_char, str_contains, str_le, trim};
use katac::upgrade::{
    classify_arch, classify_os, download_url, get_rust_target, is_version_newer, parse_tag_name,
    release_filename, strip_v_prefix, upgrade_decision, UpgradeDecision,
};

fn pairs(items: &[(&str, &str)]) -> Vec<(String, String)> {
    items.iter().map(|(a, b)| (a.to_string(), b.to_string())).collect()
}

fn strings(items: &[&str]) -> Vec<String> {
    items.iter().map(|s| s.to_string()).collect()
}

#[test]
fn pairs_sort_by_kata_then_language() {
    let input = pairs(&[("python", "Queue"), ("go", "Map"), ("go", "Queue"), ("python", "Map")]);
    let sorted = sort_kata_pairs(&input);
    let expect = pairs(&[("go", "Map"), ("python", "Map"), ("go", "Queue"), ("python", "Queue")]);
    assert_eq!(sorted, expect);
}

#[test]
fn embedded_kata_lookup_finds_first_match() {
    let all = pairs(&[("go", "Map"), ("go", "Queue"), ("python", "Queue")]);
    let hit = is_embedded_kata(&all, "Queue").expect("a bundled kata");
    assert_eq!(hit, ("go".to_string(), "Queue".to_string()));
    assert!(is_embedded_kata(&all, "Stack").is_none());
}

#[test]
fn languages_are_sorted_and_unique() {
    let all = pairs(&[("python", "Q"), ("go", "M"), ("python", "M"), ("c", "Q")]);
    let langs = get_available_languages(&all);
    assert_eq!(langs, strings(&["c", "go", "python"]));
}

#[test]
fn katas_filtered_by_language_keep_order() {
    let all = pairs(&[("go", "Map"), ("python", "Queue"), ("go", "Queue")]);
    assert_eq!(filter_katas_by_language(&all, "go"), strings(&["Map", "Queue"]));
    assert_eq!(filter_katas_by_language(&all, "rust"), Vec::<String>::new());
}

#[test]
fn option_lines_and_selection() {
    assert_eq!(format_option("go", "Queue").as_str(), "[go] Queue");
    let options = strings(&["[go] Map", "[go] Queue", "[python] Queue"]);
    let picked = select_indices(&options, "Queue,Map");
    assert_eq!(picked, vec![0, 1, 2]);
    let picked = select_indices(&options, " Queue ");
    assert_eq!(picked, vec![1, 2]);
    let picked = select_indices(&options, "Stack");
    assert_eq!(picked, Vec::<usize>::new());
}

#[test]
fn duplicate_selection_gets_language_prefix() {
    let seen = strings(&["Queue"]);
    assert_eq!(init_dest_name(&seen, "python", "Queue").as_str(), "python_Queue");
    assert_eq!(init_dest_name(&seen, "go", "Map").as_str(), "Map");
}

#[test]
fn init_step_skips_existing_destination() {
    let seen: Vec<String> = Vec::new();
    let step = init_step(&seen, "go", "Queue", "katas", true);
    match step {
        InitStep::SkipExisting { message } => {
            assert_eq!(message.as_str(), "Note: Queue already exists, skipping [go] Queue");
        }
        _ => panic!("an existing destination is skipped"),
    }
}

#[test]
fn init_step_copies_with_rename_note() {
    let seen = strings(&["Queue"]);
    let step = init_step(&seen, "python", "Queue", "katas", false);
    match step {
        InitStep::CopyTo {
            dest_name,
            note,
            copied_message,
        } => {
            assert_eq!(dest_name.as_str(), "python_Queue");
            assert_eq!(
                note.map(|n| n.to_string()),
                Some(
                    "Note: Queue was already selected, creating [python] Queue as python_Queue"
                        .to_string()
                )
            );
            assert_eq!(copied_message.as_str(), "Copied [python] Queue to katas/python_Queue");
        }
        _ => panic!("a fresh destination is copied to"),
    }
}

#[test]
fn init_step_copies_plain_name_without_note() {
    let seen: Vec<String> = Vec::new();
    let step = init_step(&seen, "go", "Map", "katas", false);
    match step {
        InitStep::CopyTo {
            dest_name, note, ..
        } => {
            assert_eq!(dest_name.as_str(), "Map");
            assert!(note.is_none());
        }
        _ => panic!("a fresh destination is copied to"),
    }
}

#[test]
fn init_summary_line() {
    assert_eq!(init_summary_message(2).as_str(), "\nSuccessfully initialized 2 kata(s)!");
}

#[test]
fn version_comparison() {
    assert_eq!(is_version_newer("1.10.0", "1.9.3"), Some(true));
    assert_eq!(is_version_newer("1.2.0", "1.2.0"), Some(false));
    assert_eq!(is_version_newer("1.2", "1.2.0"), Some(false));
    assert_eq!(is_version_newer("1.2.0", "1.2"), Some(true));
    assert_eq!(is_version_newer("1.x", "1.2"), None);
}

#[test]
fn upgrade_decisions() {
    assert!(matches!(upgrade_decision(false, "v1.2.0", "v1.2.0"), UpgradeDecision::AlreadyLatest));
    assert!(matches!(upgrade_decision(false, "1.3.0", "1.2.0"), UpgradeDecision::CurrentNewer));
    assert!(matches!(upgrade_decision(false, "1.2.0", "1.3.0"), UpgradeDecision::Upgrade));
    assert!(matches!(upgrade_decision(true, "1.2.0", "1.2.0"), UpgradeDecision::Upgrade));
    assert_eq!(strip_v_prefix("v1.2.0").as_str(), "1.2.0");
}

#[test]
fn system_classification() {
    assert_eq!(classify_os("linux").map(|s| s.to_string()), Some("linux".to_string()));
    assert_eq!(classify_os("darwin21.0").map(|s| s.to_string()), Some("darwin".to_string()));
    assert_eq!(classify_os("mingw64_nt").map(|s| s.to_string()), Some("windows".to_string()));
    assert!(classify_os("plan9").is_none());
    assert_eq!(classify_arch("amd64").map(|s| s.to_string()), Some("x86_64".to_string()));
    assert_eq!(classify_arch("arm64").map(|s| s.to_string()), Some("aarch64".to_string()));
    assert_eq!(classify_arch("armv7l").map(|s| s.to_string()), Some("armv7".to_string()));
    assert!(classify_arch("mips").is_none());
}

#[test]
fn release_names_and_addresses() {
    assert_eq!(get_rust_target("linux", "x86_64").as_str(), "x86_64-unknown-linux-gnu");
    assert_eq!(get_rust_target("darwin", "aarch64").as_str(), "aarch64-apple-darwin");
    assert_eq!(get_rust_target("windows", "i686").as_str(), "i686-pc-windows-msvc");
    assert_eq!(get_rust_target("plan9", "mips").as_str(), "x86_64-unknown-linux-gnu");
    let file = release_filename("x86_64-unknown-linux-gnu", false);
    assert_eq!(file.as_str(), "katac-x86_64-unknown-linux-gnu.tar.gz");
    let url = download_url("aldevv/katac", "v1.2.0", file.as_str());
    assert_eq!(
        url.as_str(),
        "https://github.com/aldevv/katac/releases/download/v1.2.0/katac-x86_64-unknown-linux-gnu.tar.gz"
    );
}

#[test]
fn release_tag_is_read_from_answer() {
    let body = "{\n  \"url\": \"x\",\n  \"tag_name\": \"v1.4.2\",\n  \"name\": \"v1.4.2\"\n}";
    assert_eq!(parse_tag_name(body).map(|s| s.to_string()), Some("v1.4.2".to_string()));
    assert_eq!(parse_tag_name("no tag here").map(|s| s.to_string()), None);
}

#[test]
fn repository_user_names() {
    assert_eq!(username_as_repo_name("git@github.com:someone/katas.git").as_str(), "someone");
    assert_eq!(username_as_repo_name(DEFAULT_REPO).as_str(), "aldevv");
    assert_eq!(username_as_repo_name("ftp://x").as_str(), "");
    let dst = repo_clone_destination("/home/me", false, DEFAULT_REPO);
    assert_eq!(dst.as_str(), "/home/me/.cache/katac-repos/aldevv");
}

#[test]
fn text_helpers() {
    assert_eq!(trim("  a b \t\n").as_str(), "a b");
    assert!(str_contains("hello world", "lo wo"));
    assert!(!str_contains("hello", "world"));
    assert!(str_le("abc", "abd"));
    assert!(str_le("ab", "abc"));
    assert!(!str_le("b", "ab"));
    let parts: Vec<String> = split_char("a,b,,c", ',');
    assert_eq!(parts, strings(&["a", "b", "", "c"]));
}
