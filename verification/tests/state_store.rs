use binman::fuzzy_semver::Version;
use binman::state::{State, StateEntry};
use binman::Cause;

fn entry(name: &str, artifacts: &[&str]) -> StateEntry {
    StateEntry {
        name: String::from(name),
        artifacts: artifacts.iter().map(|a| String::from(*a)).collect(),
        url: String::from("github.com/owner/tool"),
        version: Version::new(1, 0, 0),
    }
}

#[test]
fn insert_then_get_round_trips() {
    let mut state = State::new("/tmp/state.json");
    state.insert(entry("tool", &["/bin/tool"])).unwrap();
    let got = state.get("tool").unwrap();
    assert_eq!(got.name, "tool");
    assert_eq!(got.artifacts, vec![String::from("/bin/tool")]);
    assert!(state.get("other").is_none());
}

#[test]
fn duplicate_insert_rejected_and_state_unchanged() {
    let mut state = State::new("/tmp/state.json");
    state.insert(entry("tool", &["/bin/tool"])).unwrap();
    let e = state.insert(entry("tool", &["/bin/elsewhere"])).unwrap_err();
    assert_eq!(e.cause, Cause::AlreadyExists);
    // the original record is still the one recorded
    let got = state.get("tool").unwrap();
    assert_eq!(got.artifacts, vec![String::from("/bin/tool")]);
    assert_eq!(state.list().len(), 1);
}

#[test]
fn insert_dedups_artifacts_keeping_first_order() {
    let mut state = State::new("/tmp/state.json");
    state.insert(entry("tool", &["a", "a", "b"])).unwrap();
    let got = state.get("tool").unwrap();
    assert_eq!(got.artifacts, vec![String::from("a"), String::from("b")]);
}

#[test]
fn remove_deletes_record_and_tolerates_absence() {
    let mut state = State::new("/tmp/state.json");
    state.insert(entry("one", &["/bin/one"])).unwrap();
    state.insert(entry("two", &["/bin/two"])).unwrap();
    state.remove("one").unwrap();
    assert!(state.get("one").is_none());
    assert!(state.get("two").is_some());
    // removing an absent name is a no-op, not an error
    state.remove("one").unwrap();
    assert_eq!(state.list().len(), 1);
}

#[test]
fn list_reports_every_record() {
    let mut state = State::new("/tmp/state.json");
    state.insert(entry("one", &["/bin/one"])).unwrap();
    state.insert(entry("two", &["/bin/two"])).unwrap();
    let listed = state.list();
    assert_eq!(listed.len(), 2);
    assert_eq!(listed[0].name, "one");
    assert_eq!(listed[1].name, "two");
}

#[test]
fn get_copy_matches_get() {
    let mut state = State::new("/tmp/state.json");
    state.insert(entry("tool", &["/bin/tool"])).unwrap();
    let copy = state.get_copy("tool").unwrap();
    assert_eq!(copy.name, "tool");
    assert_eq!(copy.url, "github.com/owner/tool");
    assert!(state.get_copy("missing").is_none());
}

#[test]
fn state_remembers_its_path() {
    let state = State::new("/tmp/some/state.json");
    assert_eq!(state.path(), "/tmp/some/state.json");
}
