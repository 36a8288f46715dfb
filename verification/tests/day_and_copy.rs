use katac::actions::{copy_step, copying_message, new_kata_plan, CopyStep, NewKataStep, RunnerFile};
use katac::days::{curday, curday_kata_path, curday_path, day_number, nextday_path};
use katac::paths::{basename, dirname, kata_path};
use katac::text::{parse_u32, u32_to_string};

fn strings(items: &[&str]) -> Vec<String> {
    items.iter().map(|s| s.to_string()).collect()
}

#[test]
fn day_numbering_max_of_entries() {
    let entries = strings(&["day1", "day3", "dayX"]);
    assert_eq!(curday(&entries), 3);
}

#[test]
fn day_numbering_empty_is_zero() {
    let entries: Vec<String> = Vec::new();
    assert_eq!(curday(&entries), 0);
}

#[test]
fn day_numbering_ignores_unrelated_names() {
    let entries = strings(&["notes", "day", "day07", "other2"]);
    assert_eq!(curday(&entries), 7);
}

#[test]
fn day_number_strips_repeated_prefix() {
    assert_eq!(day_number("dayday3"), Some(3));
    assert_eq!(day_number("day12"), Some(12));
    assert_eq!(day_number("dayX"), None);
    assert_eq!(day_number("day"), None);
}

#[test]
fn next_day_path_is_current_plus_one() {
    let entries = strings(&["day1", "day3"]);
    let cur = curday(&entries);
    assert_eq!(nextday_path("days", cur).as_str(), "days/day4");
}

#[test]
fn day_paths_are_formatted() {
    assert_eq!(curday_path("days", 0).as_str(), "days/day0");
    assert_eq!(curday_path("my/days", 12).as_str(), "my/days/day12");
    assert_eq!(curday_kata_path("days", 3, "foo").as_str(), "days/day3/foo");
}

#[test]
fn copy_into_empty_days_dir_goes_to_day1() {
    let entries: Vec<String> = Vec::new();
    let dst = nextday_path("days", curday(&entries));
    assert_eq!(dst.as_str(), "days/day1");
    let base = basename(dst.as_str());
    assert_eq!(base.as_str(), "day1");
    let step = copy_step("foo", "katas", base.as_str(), true);
    match step {
        CopyStep::Copy { src, message } => {
            assert_eq!(src.as_str(), "katas/foo");
            assert_eq!(message.as_str(), "Copying foo to day1...");
        }
        _ => panic!("a kata that exists is copied"),
    }
}

#[test]
fn copy_of_missing_kata_reports_error() {
    let step = copy_step("foo", "katas", "day1", false);
    match step {
        CopyStep::Missing { message } => {
            assert_eq!(message.as_str(), "Error: Kata 'foo' does not exist");
        }
        _ => panic!("a missing kata is reported"),
    }
}

#[test]
fn copy_rejects_dot_dot_names() {
    let step = copy_step("a..b", "katas", "day1", true);
    assert!(matches!(step, CopyStep::RejectName { .. }));
    let ok = copy_step("sub/dir..name", "katas", "day1", true);
    assert!(matches!(ok, CopyStep::Copy { .. }));
}

#[test]
fn copying_message_is_exact() {
    assert_eq!(copying_message("baz", "day2").as_str(), "Copying baz to day2...");
}

#[test]
fn kata_path_resolution() {
    assert_eq!(kata_path("foo", "katas").as_str(), "katas/foo");
    assert_eq!(kata_path("some/path", "katas").as_str(), "some/path");
}

#[test]
fn basename_and_dirname() {
    assert_eq!(basename("days/day1").as_str(), "day1");
    assert_eq!(basename("days/day1/").as_str(), "day1");
    assert_eq!(basename("day1").as_str(), "day1");
    assert_eq!(basename("a/..").as_str(), ".");
    assert_eq!(basename("/").as_str(), ".");
    assert_eq!(dirname("tests/new_katas/foo2").as_str(), "tests/new_katas");
    assert_eq!(dirname("days/day1/").as_str(), "days");
    assert_eq!(dirname("foo").as_str(), "");
    assert_eq!(dirname("foo/").as_str(), "");
    assert_eq!(dirname("/foo").as_str(), "/");
    assert_eq!(dirname("/").as_str(), ".");
}

#[test]
fn new_kata_already_exists_changes_nothing() {
    let step = new_kata_plan("foo", "katas", true, true, false);
    match step {
        NewKataStep::AlreadyExists { message } => {
            assert_eq!(message.as_str(), "Kata foo already exists");
        }
        _ => panic!("an existing kata is reported"),
    }
}

#[test]
fn new_kata_creates_with_makefile_when_make_is_there() {
    let step = new_kata_plan("foo2", "tests/new_katas", false, true, false);
    match step {
        NewKataStep::Create { path, message, file } => {
            assert_eq!(path.as_str(), "tests/new_katas/foo2");
            assert_eq!(message.as_str(), "foo2 created in tests/new_katas.");
            assert!(matches!(file, RunnerFile::Makefile));
        }
        _ => panic!("a fresh kata is created"),
    }
}

#[test]
fn new_kata_without_make_uses_os_script() {
    let unix = new_kata_plan("k", "katas", false, false, false);
    match unix {
        NewKataStep::Create { file, .. } => assert!(matches!(file, RunnerFile::RunSh)),
        _ => panic!("a fresh kata is created"),
    }
    let win = new_kata_plan("k", "katas", false, false, true);
    match win {
        NewKataStep::Create { file, .. } => assert!(matches!(file, RunnerFile::RunBat)),
        _ => panic!("a fresh kata is created"),
    }
}

#[test]
fn new_kata_rejects_bad_names() {
    assert!(matches!(
        new_kata_plan("", "katas", false, true, false),
        NewKataStep::InvalidName { .. }
    ));
    assert!(matches!(
        new_kata_plan("a..b", "katas", false, true, false),
        NewKataStep::InvalidName { .. }
    ));
    assert!(matches!(
        new_kata_plan(".hidden", "katas", false, true, false),
        NewKataStep::InvalidName { .. }
    ));
    match new_kata_plan("", "katas", false, true, false) {
        NewKataStep::InvalidName { message } => {
            assert_eq!(message.as_str(), "Error: kata name cannot be empty");
        }
        _ => panic!("an empty name is rejected"),
    }
}

#[test]
fn decimal_parse_and_print() {
    assert_eq!(parse_u32("1234"), Some(1234));
    assert_eq!(parse_u32("0"), Some(0));
    assert_eq!(parse_u32(""), None);
    assert_eq!(parse_u32("12a"), None);
    assert_eq!(parse_u32("4294967295"), Some(u32::MAX));
    assert_eq!(parse_u32("4294967296"), None);
    assert_eq!(u32_to_string(0).as_str(), "0");
    assert_eq!(u32_to_string(1234).as_str(), "1234");
    assert_eq!(u32_to_string(u32::MAX).as_str(), "4294967295");
}
