use vendman::types::{Config, Dependencies, Dependency, Entry, VERSION};

fn tracking(source: &str) -> Dependency {
    Dependency::Tracking { source: source.to_string() }
}

fn pinned(source: &str, branch: &str) -> Dependency {
    Dependency::Pinned { source: source.to_string(), branch: branch.to_string() }
}

fn entry(name: &str, dependency: Dependency) -> Entry {
    Entry { name: name.to_string(), dependency }
}

#[test]
fn declare_without_branch_is_tracking() {
    let dependency = Dependency::declare("/w/repo/.git/".to_string(), None);
    assert_eq!(dependency, tracking("/w/repo/.git/"));
    assert_eq!(dependency.source(), "/w/repo/.git/");
    assert_eq!(dependency.branch(), None);
}

#[test]
fn declare_with_branch_is_pinned_to_that_branch() {
    let dependency = Dependency::declare("/w/repo/.git/".to_string(), Some("dev".to_string()));
    assert_eq!(dependency, pinned("/w/repo/.git/", "dev"));
    assert_eq!(dependency.source(), "/w/repo/.git/");
    assert_eq!(dependency.branch(), Some(&"dev".to_string()));
}

#[test]
fn declare_keeps_the_branch_name_exactly() {
    let dependency = Dependency::declare("s".to_string(), Some(" Feature/ä ".to_string()));
    assert_eq!(dependency.branch(), Some(&" Feature/ä ".to_string()));
}

#[test]
fn new_dependencies_are_empty() {
    let dependencies = Dependencies::new();
    assert_eq!(dependencies.len(), 0);
    assert!(dependencies.is_empty());
    assert!(dependencies.entries().is_empty());
    assert_eq!(dependencies.get("repo"), None);
    assert!(!dependencies.contains_key("repo"));
    assert_eq!(Dependencies::default(), dependencies);
}

#[test]
fn insert_declares_under_the_name() {
    let mut dependencies = Dependencies::new();
    assert_eq!(dependencies.insert("repo".to_string(), tracking("a")), None);
    assert_eq!(dependencies.len(), 1);
    assert!(!dependencies.is_empty());
    assert!(dependencies.contains_key("repo"));
    assert!(!dependencies.contains_key("rep"));
    assert!(!dependencies.contains_key("repos"));
    assert_eq!(dependencies.get("repo"), Some(&tracking("a")));
}

#[test]
fn insert_under_a_taken_name_overwrites() {
    let mut dependencies = Dependencies::new();
    dependencies.insert("repo".to_string(), tracking("a"));
    dependencies.insert("other".to_string(), tracking("o"));
    let previous = dependencies.insert("repo".to_string(), pinned("b", "dev"));
    assert_eq!(previous, Some(tracking("a")));
    assert_eq!(dependencies.len(), 2);
    assert_eq!(dependencies.get("repo"), Some(&pinned("b", "dev")));
    assert_eq!(dependencies.get("other"), Some(&tracking("o")));
    let names: Vec<String> = dependencies.entries().into_iter().map(|e| e.name).collect();
    assert_eq!(names, vec!["other".to_string(), "repo".to_string()]);
}

#[test]
fn entries_ascend_by_name_whatever_the_order_of_insertion() {
    let mut dependencies = Dependencies::new();
    for name in ["m", "z", "a", "mm", "B", "é", "b", ""] {
        dependencies.insert(name.to_string(), tracking(name));
    }
    let names: Vec<String> = dependencies.entries().into_iter().map(|e| e.name).collect();
    assert_eq!(names, vec!["", "B", "a", "b", "m", "mm", "z", "é"]);
    let mut sorted = names.clone();
    sorted.sort();
    assert_eq!(names, sorted);
    assert_eq!(dependencies.len(), 8);
    for name in ["m", "z", "a", "mm", "B", "é", "b", ""] {
        assert_eq!(dependencies.get(name), Some(&tracking(name)));
    }
}

#[test]
fn into_entries_gives_what_entries_gives() {
    let mut dependencies = Dependencies::new();
    dependencies.insert("b".to_string(), pinned("s", "dev"));
    dependencies.insert("a".to_string(), tracking("t"));
    let listed = dependencies.entries();
    assert_eq!(listed, vec![entry("a", tracking("t")), entry("b", pinned("s", "dev"))]);
    assert_eq!(dependencies.into_entries(), listed);
}

#[test]
fn from_entries_lets_a_later_entry_replace_an_earlier_one() {
    let dependencies = Dependencies::from_entries(vec![
        entry("b", tracking("first")),
        entry("a", tracking("x")),
        entry("b", pinned("second", "dev")),
    ]);
    assert_eq!(dependencies.len(), 2);
    assert_eq!(dependencies.get("b"), Some(&pinned("second", "dev")));
    assert_eq!(
        dependencies.entries(),
        vec![entry("a", tracking("x")), entry("b", pinned("second", "dev"))]
    );
}

#[test]
fn from_entries_of_entries_is_the_same_dependencies() {
    let mut dependencies = Dependencies::new();
    dependencies.insert("tool".to_string(), pinned("/w/tool/.git/", "dev"));
    dependencies.insert("lib".to_string(), tracking("/w/lib/.git/"));
    dependencies.insert("app".to_string(), tracking("/w/app/.git/"));
    let again = Dependencies::from_entries(dependencies.entries());
    assert_eq!(again, dependencies);
    assert_eq!(again.entries(), dependencies.entries());
}

#[test]
fn clone_of_dependencies_is_equal() {
    let mut dependencies = Dependencies::new();
    dependencies.insert("tool".to_string(), pinned("/w/tool/.git/", "dev"));
    dependencies.insert("lib".to_string(), tracking("/w/lib/.git/"));
    assert_eq!(dependencies.clone(), dependencies);
    let one = entry("x", pinned("s", "b"));
    assert_eq!(one.clone(), one);
}

#[test]
fn new_manifest_is_tagged_and_empty() {
    let manifest = Config::new();
    assert_eq!(VERSION, "0.1.0");
    assert_eq!(manifest.version, "0.1.0");
    assert!(manifest.dependencies.is_empty());
    assert_eq!(manifest.clone(), manifest);
}

#[test]
fn default_manifest_has_no_version_and_no_dependencies() {
    let manifest = Config::default();
    assert_eq!(manifest.version, "");
    assert_eq!(manifest.dependencies.len(), 0);
}
