use katac::commands::{choose_runner, dash_line, get_embedded_run_command, run_header, Runner};
use katac::config_file::ConfigFile;
use katac::local_config_file::LocalConfigFile;
use katac::random::{random_katas, RandomError};
use katac::state_file::{read_random_katas_from_config_file, StateFile};

fn strings(items: &[&str]) -> Vec<String> {
    items.iter().map(|s| s.to_string()).collect()
}

#[test]
fn makefile_wins_when_make_is_available() {
    let r = choose_runner("days/day1/baz", None, true, true, None, false, false);
    assert!(matches!(r, Runner::Make));
}

#[test]
fn missing_makefile_reports_and_goes_on() {
    let r = choose_runner("days/day1/foo", None, true, false, None, false, false);
    match r {
        Runner::NoRunner { message } => {
            assert_eq!(message.as_str(), "No Makefile found in days/day1/foo");
        }
        _ => panic!("without a Makefile there is nothing to run"),
    }
}

#[test]
fn embedded_command_is_used_without_makefile() {
    let cmd = "go run main.go".to_string();
    let r = choose_runner("days/day1/q", None, true, false, Some(&cmd), false, false);
    match r {
        Runner::Embedded { command } => assert_eq!(command.as_str(), "go run main.go"),
        _ => panic!("the recorded command runs the bundled kata"),
    }
}

#[test]
fn os_script_runs_without_make() {
    let r = choose_runner("days/day1/foo", None, false, false, None, false, true);
    assert!(matches!(r, Runner::Script { windows: false }));
    let missing = choose_runner("days/day1/foo", None, false, false, None, false, false);
    match missing {
        Runner::NoRunner { message } => {
            assert_eq!(message.as_str(), "No run.sh file found in days/day1/foo");
        }
        _ => panic!("without a script there is nothing to run"),
    }
    let win = choose_runner("days/day1/foo", None, false, false, None, true, false);
    match win {
        Runner::NoRunner { message } => {
            assert_eq!(message.as_str(), "No run.bat file found in days/day1/foo");
        }
        _ => panic!("without a script there is nothing to run"),
    }
}

#[test]
fn custom_command_wins_over_everything() {
    let cmd = "cargo test".to_string();
    let r = choose_runner("days/day1/foo", Some(&cmd), true, true, None, false, true);
    match r {
        Runner::Custom { command } => assert_eq!(command.as_str(), "cargo test"),
        _ => panic!("a custom command is preferred"),
    }
}

#[test]
fn blank_custom_command_is_reported() {
    let cmd = "   ".to_string();
    let r = choose_runner("days/day1/foo", Some(&cmd), true, true, None, false, true);
    match r {
        Runner::EmptyCommand { message } => {
            assert_eq!(message.as_str(), "Error: empty command provided");
        }
        _ => panic!("a blank command is reported"),
    }
}

#[test]
fn run_header_and_dashes() {
    let header = run_header("baz", 1, 1);
    assert_eq!(header.as_str(), "\n> Running baz [1/1]");
    let line = dash_line(header.chars().count());
    assert_eq!(line.as_str(), "--------------------");
}

#[test]
fn run_command_is_read_from_makefile_text() {
    let content = "run:\n\tgo run main.go\n";
    let cmd = get_embedded_run_command(content);
    assert_eq!(cmd.map(|c| c.to_string()), Some("go run main.go".to_string()));
    assert_eq!(get_embedded_run_command("run:\nno tab here\n").map(|c| c.to_string()), None);
    assert_eq!(get_embedded_run_command("run:\n\t   \n").map(|c| c.to_string()), None);
}

#[test]
fn random_selection_returns_distinct_names_from_list() {
    let names = strings(&["foo", "bar", "baz", "qux"]);
    for _ in 0..20 {
        let picked = random_katas(names.clone(), 3).expect("three of four katas");
        assert_eq!(picked.len(), 3);
        for p in &picked {
            assert!(names.contains(p));
        }
        for a in 0..picked.len() {
            for b in 0..picked.len() {
                if a != b {
                    assert_ne!(picked[a], picked[b]);
                }
            }
        }
    }
}

#[test]
fn random_selection_too_many_is_an_error() {
    let names = strings(&["foo", "bar"]);
    match random_katas(names, 5) {
        Err(RandomError::NotEnough { available }) => assert_eq!(available, 2),
        _ => panic!("asking for more katas than there are fails"),
    }
}

#[test]
fn random_selection_zero_and_empty_are_errors() {
    assert!(matches!(random_katas(strings(&["a"]), 0), Err(RandomError::Zero)));
    assert!(matches!(random_katas(Vec::new(), 2), Err(RandomError::Empty)));
}

#[test]
fn local_config_shuffle_is_a_permutation() {
    let cfg = LocalConfigFile::new("katac.json".to_string(), strings(&["a", "b", "c", "d", "e"]));
    let out = cfg.get_random_katas_from_config().expect("a nonempty list");
    let mut sorted = out.clone();
    sorted.sort();
    assert_eq!(sorted, strings(&["a", "b", "c", "d", "e"]));
}

#[test]
fn local_config_empty_list_is_reported() {
    let cfg = LocalConfigFile::new("katac.json".to_string(), Vec::new());
    match cfg.get_random_katas_from_config() {
        Err(message) => assert_eq!(message.as_str(), "config file's random setting is empty"),
        Ok(_) => panic!("an empty random list fails"),
    }
}

#[test]
fn config_file_record_shuffles_or_reports() {
    let missing = ConfigFile::new(None);
    assert!(missing.get_random_katas_from_config().is_err());
    let empty = ConfigFile::new(Some(Vec::new()));
    assert!(empty.get_random_katas_from_config().is_err());
    let full = ConfigFile::new(Some(strings(&["x", "y"])));
    let out = full.get_random_katas_from_config().expect("two katas");
    let mut sorted = out.clone();
    sorted.sort();
    assert_eq!(sorted, strings(&["x", "y"]));
}

#[test]
fn state_file_random_list_shuffles_or_reports() {
    let state = StateFile { random: None, katas: None };
    match read_random_katas_from_config_file(&state) {
        Err(message) => assert_eq!(message.as_str(), "config file is empty"),
        Ok(_) => panic!("a missing random list fails"),
    }
    let state = StateFile { random: Some(strings(&["foo", "bar", "baz"])), katas: None };
    let out = read_random_katas_from_config_file(&state).expect("three katas");
    let mut sorted = out.clone();
    sorted.sort();
    assert_eq!(sorted, strings(&["bar", "baz", "foo"]));
}
