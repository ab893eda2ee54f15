use psync::reconcile::Item;
use psync::run::{category_supported, Action, Category, CategoryKind, Run, RunError};

fn simple(name: &str) -> Item {
    Item { name: name.to_string(), on: None, flag: false }
}

fn strings(v: &[&str]) -> Vec<String> {
    v.iter().map(|s| s.to_string()).collect()
}

fn run_over(categories: Vec<Category>, os: &str, distro: &str) -> Run {
    Run::new(categories, os.to_string(), distro.to_string())
}

#[test]
fn category_support_gates() {
    assert!(category_supported(CategoryKind::BrewTaps, "linux", "ubuntu"));
    assert!(category_supported(CategoryKind::BrewFormulae, "macos", ""));
    assert!(category_supported(CategoryKind::CargoCrates, "linux", "debian"));
    assert!(category_supported(CategoryKind::BrewCasks, "macos", ""));
    assert!(!category_supported(CategoryKind::BrewCasks, "linux", "ubuntu"));
    assert!(category_supported(CategoryKind::Snaps, "linux", "ubuntu"));
    assert!(!category_supported(CategoryKind::Snaps, "linux", "debian"));
    assert!(!category_supported(CategoryKind::Snaps, "macos", ""));
}

#[test]
fn full_run_installs_in_order() {
    let categories = vec![
        Category { kind: CategoryKind::BrewFormulae, desired: vec![simple("git"), simple("jq")] },
        Category { kind: CategoryKind::CargoCrates, desired: vec![simple("ripgrep")] },
    ];
    let mut run = run_over(categories, "linux", "ubuntu");

    assert!(matches!(run.next(), Action::Probe { category: CategoryKind::BrewFormulae }));
    let names = run.probed_ok(strings(&["jq"]));
    assert_eq!(names, strings(&["git"]));

    match run.next() {
        Action::Install { category, name, flag } => {
            assert!(matches!(category, CategoryKind::BrewFormulae));
            assert_eq!(name, "git");
            assert!(!flag);
        },
        _ => panic!("expected an install action"),
    }
    run.install_result(true);

    assert!(matches!(run.next(), Action::Probe { category: CategoryKind::CargoCrates }));
    let names = run.probed_ok(Vec::new());
    assert_eq!(names, strings(&["ripgrep"]));
    match run.next() {
        Action::Install { name, .. } => assert_eq!(name, "ripgrep"),
        _ => panic!("expected an install action"),
    }
    run.install_result(true);

    assert!(matches!(run.next(), Action::Done));
    assert!(run.error().is_none());
}

// A failed probe stops the whole run at once: no install for that category,
// and the later category is never probed.
#[test]
fn probe_failure_stops_everything() {
    let categories = vec![
        Category { kind: CategoryKind::BrewTaps, desired: vec![simple("homebrew/cask")] },
        Category { kind: CategoryKind::CargoCrates, desired: vec![simple("ripgrep")] },
    ];
    let mut run = run_over(categories, "linux", "ubuntu");

    assert!(matches!(run.next(), Action::Probe { category: CategoryKind::BrewTaps }));
    run.probe_failed();

    assert!(matches!(run.next(), Action::Fail));
    assert!(matches!(run.next(), Action::Fail));
    match run.error() {
        Some(RunError::ProbeFailure { category }) => {
            assert!(matches!(category, CategoryKind::BrewTaps));
        },
        _ => panic!("expected a probe failure"),
    }
}

// A failed install stops the run referencing the failing identity; the
// second planned entry is never offered.
#[test]
fn install_failure_is_fail_fast() {
    let categories = vec![
        Category { kind: CategoryKind::Snaps, desired: vec![simple("go"), simple("lxd")] },
        Category { kind: CategoryKind::CargoCrates, desired: vec![simple("ripgrep")] },
    ];
    let mut run = run_over(categories, "linux", "ubuntu");

    assert!(matches!(run.next(), Action::Probe { category: CategoryKind::Snaps }));
    let names = run.probed_ok(Vec::new());
    assert_eq!(names, strings(&["go", "lxd"]));

    match run.next() {
        Action::Install { name, .. } => assert_eq!(name, "go"),
        _ => panic!("expected an install action"),
    }
    run.install_result(false);

    assert!(matches!(run.next(), Action::Fail));
    match run.error() {
        Some(RunError::InstallFailure { category, name }) => {
            assert!(matches!(category, CategoryKind::Snaps));
            assert_eq!(name, "go");
        },
        _ => panic!("expected an install failure"),
    }
}

// Unsupported categories are skipped without ever being probed.
#[test]
fn unsupported_categories_are_skipped() {
    let categories = vec![
        Category { kind: CategoryKind::BrewCasks, desired: vec![simple("firefox")] },
        Category { kind: CategoryKind::CargoCrates, desired: vec![simple("ripgrep")] },
        Category { kind: CategoryKind::Snaps, desired: vec![simple("go")] },
    ];
    // not on macos, not on the supported distribution: only crates remain
    let mut run = run_over(categories, "linux", "debian");

    assert!(matches!(run.next(), Action::Probe { category: CategoryKind::CargoCrates }));
    let names = run.probed_ok(strings(&["ripgrep"]));
    assert!(names.is_empty());
    assert!(matches!(run.next(), Action::Done));
}

// A category whose plan is empty finishes at once and the run moves on.
#[test]
fn empty_plan_moves_on() {
    let categories = vec![
        Category { kind: CategoryKind::BrewFormulae, desired: vec![simple("git")] },
        Category { kind: CategoryKind::CargoCrates, desired: vec![simple("ripgrep")] },
    ];
    let mut run = run_over(categories, "macos", "");

    assert!(matches!(run.next(), Action::Probe { category: CategoryKind::BrewFormulae }));
    let names = run.probed_ok(strings(&["git"]));
    assert!(names.is_empty());

    assert!(matches!(run.next(), Action::Probe { category: CategoryKind::CargoCrates }));
    run.probe_failed();
    assert!(matches!(run.next(), Action::Fail));
}

// Platform filtering happens inside the machine's planning too: a
// linux-qualified formula is not planned when the run is on macos.
#[test]
fn machine_plans_respect_platform() {
    let desired = vec![
        Item { name: "docker".to_string(), on: Some("linux".to_string()), flag: false },
        Item { name: "jq".to_string(), on: None, flag: false },
    ];
    let categories = vec![Category { kind: CategoryKind::BrewFormulae, desired }];
    let mut run = run_over(categories, "macos", "");

    assert!(matches!(run.next(), Action::Probe { .. }));
    let names = run.probed_ok(Vec::new());
    assert_eq!(names, strings(&["jq"]));
}

// The classic-confinement flag rides along to the install action.
#[test]
fn install_action_carries_flag() {
    let desired = vec![Item { name: "go".to_string(), on: None, flag: true }];
    let categories = vec![Category { kind: CategoryKind::Snaps, desired }];
    let mut run = run_over(categories, "linux", "ubuntu");

    assert!(matches!(run.next(), Action::Probe { .. }));
    run.probed_ok(Vec::new());
    match run.next() {
        Action::Install { name, flag, .. } => {
            assert_eq!(name, "go");
            assert!(flag);
        },
        _ => panic!("expected an install action"),
    }
}
