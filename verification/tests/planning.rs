use psync::cargo;
use psync::config::Config;
use psync::homebrew::{self, Formula};
use psync::reconcile::{names_to_items, plan_items, Item};
use psync::run::CategoryKind;
use psync::snap::{self, Snap};
use psync::strutil::{contains_str, first_token, str_eq};

fn simple(name: &str) -> Item {
    Item { name: name.to_string(), on: None, flag: false }
}

fn on_os(name: &str, os: &str) -> Item {
    Item { name: name.to_string(), on: Some(os.to_string()), flag: false }
}

fn strings(v: &[&str]) -> Vec<String> {
    v.iter().map(|s| s.to_string()).collect()
}

fn plan_names(plan: &[Item]) -> Vec<String> {
    plan.iter().map(|i| i.name.clone()).collect()
}

#[test]
fn str_eq_basics() {
    assert!(str_eq("", ""));
    assert!(str_eq("ripgrep", "ripgrep"));
    assert!(!str_eq("ripgrep", "ripgre"));
    assert!(!str_eq("ripgrep", "ripgrepx"));
    assert!(!str_eq("a", "b"));
}

#[test]
fn first_token_basics() {
    assert_eq!(first_token("core22 20230703 864"), Some("core22".to_string()));
    assert_eq!(first_token("   leading"), Some("leading".to_string()));
    assert_eq!(first_token("single"), Some("single".to_string()));
    assert_eq!(first_token(""), None);
    assert_eq!(first_token(" \t "), None);
}

#[test]
fn contains_str_basics() {
    let items = strings(&["fd", "ripgrep"]);
    assert!(contains_str(&items, "fd"));
    assert!(!contains_str(&items, "bat"));
}

// An unqualified entry installs on every platform; a qualified entry only on
// an exactly matching one; an unrecognised tag never matches (fails closed).
#[test]
fn platform_filtering_items() {
    let bare = simple("htop");
    assert!(bare.should_install("linux"));
    assert!(bare.should_install("macos"));
    assert!(bare.should_install("anything"));

    let linux_only = on_os("docker", "linux");
    assert!(linux_only.should_install("linux"));
    assert!(!linux_only.should_install("macos"));

    let macos_only = on_os("alacritty", "macos");
    assert!(macos_only.should_install("macos"));
    assert!(!macos_only.should_install("linux"));

    let typoed = on_os("tmux", "linx");
    assert!(!typoed.should_install("linux"));
    assert!(!typoed.should_install("macos"));
}

#[test]
fn platform_filtering_formulas() {
    let bare = Formula::Simple("htop".to_string());
    assert!(bare.should_install("linux"));
    assert!(bare.should_install("macos"));
    assert_eq!(bare.name(), "htop");

    let qualified = Formula::Detailed { name: "docker".to_string(), on: "linux".to_string() };
    assert!(qualified.should_install("linux"));
    assert!(!qualified.should_install("macos"));
    assert_eq!(qualified.name(), "docker");
}

// Scenario: two desired crates, one already installed.
#[test]
fn plan_scenario_missing_one() {
    let desired = vec![simple("ripgrep"), simple("fd")];
    let installed = strings(&["fd"]);
    let plan = plan_items(&desired, &installed, "linux");
    assert_eq!(plan_names(&plan), vec!["ripgrep".to_string()]);
}

// Scenario: a linux-only entry is filtered out on macos before the
// installed-set check even applies.
#[test]
fn plan_scenario_filtered_out() {
    let desired = vec![on_os("docker", "linux")];
    let installed: Vec<String> = Vec::new();
    let plan = plan_items(&desired, &installed, "macos");
    assert!(plan.is_empty());
}

// The plan never holds an identity that is already installed.
#[test]
fn plan_misses_installed() {
    let desired = vec![simple("a"), simple("b"), simple("c")];
    let installed = strings(&["a", "c"]);
    let plan = plan_items(&desired, &installed, "linux");
    assert_eq!(plan_names(&plan), vec!["b".to_string()]);
    for it in &plan {
        assert!(!installed.contains(&it.name));
    }
}

// The plan never invents identities: every planned name is desired.
#[test]
fn plan_from_desired_only() {
    let desired = vec![simple("x"), on_os("y", "linux")];
    let installed: Vec<String> = Vec::new();
    let plan = plan_items(&desired, &installed, "linux");
    let desired_names = strings(&["x", "y"]);
    for it in &plan {
        assert!(desired_names.contains(&it.name));
    }
    assert_eq!(plan.len(), 2);
}

// Idempotence: executing a plan (adding its names to the installed set) and
// replanning yields the empty plan.
#[test]
fn plan_idempotent() {
    let desired = vec![simple("a"), simple("b"), on_os("c", "linux"), simple("a")];
    let mut installed = strings(&["b"]);
    let plan = plan_items(&desired, &installed, "linux");
    assert_eq!(plan_names(&plan), vec!["a".to_string(), "c".to_string()]);
    for it in &plan {
        installed.push(it.name.clone());
    }
    let replanned = plan_items(&desired, &installed, "linux");
    assert!(replanned.is_empty());
}

// Deduplication: two desired entries with the same identity but different
// variant metadata yield exactly one planned entry for that identity.
#[test]
fn plan_dedups_by_identity() {
    let desired = vec![
        Item { name: "juju".to_string(), on: None, flag: false },
        Item { name: "juju".to_string(), on: None, flag: true },
    ];
    let installed: Vec<String> = Vec::new();
    let plan = plan_items(&desired, &installed, "linux");
    assert_eq!(plan.len(), 1);
    assert_eq!(plan[0].name, "juju");
}

#[test]
fn parse_crate_listing() {
    let lines = strings(&[
        "ripgrep v13.0.0:",
        "    rg",
        "fd-find v8.7.0:",
        "    fd",
    ]);
    let installed = cargo::parse_installed_crates(&lines);
    assert_eq!(installed, strings(&["ripgrep", "fd-find"]));
}

#[test]
fn parse_crate_listing_skips_tokenless_heading() {
    let lines = strings(&["  : odd", "bat v0.23.0:"]);
    let installed = cargo::parse_installed_crates(&lines);
    assert_eq!(installed, strings(&["bat"]));
}

#[test]
fn parse_snap_listing() {
    let lines = strings(&[
        "Name    Version   Rev",
        "core22  20230703  864",
        "",
        "lxd     5.0.2     24322",
    ]);
    let installed = snap::parse_installed_snaps(&lines);
    assert_eq!(installed, strings(&["Name", "core22", "lxd"]));
}

#[test]
fn cargo_state_plans_missing_only() {
    let mut state = cargo::State::new(strings(&["ripgrep"]));
    assert!(state.is_installed("ripgrep"));
    assert!(!state.is_installed("fd-find"));
    state.plan_install("ripgrep".to_string());
    state.plan_install("fd-find".to_string());
    state.plan_install("fd-find".to_string());
    assert_eq!(state.planned(), &strings(&["fd-find"]));
}

#[test]
fn homebrew_state_three_categories() {
    let mut state = homebrew::State::new(
        strings(&["homebrew/core"]),
        strings(&["git"]),
        strings(&["firefox"]),
    );
    assert!(state.is_installed_tap("homebrew/core"));
    assert!(state.is_installed_formula("git"));
    assert!(state.is_installed_cask("firefox"));

    state.plan_install_tap(Formula::Simple("homebrew/cask".to_string()));
    state.plan_install_tap(Formula::Simple("homebrew/core".to_string()));
    assert_eq!(state.planned_taps().len(), 1);
    assert_eq!(state.planned_taps()[0].name(), "homebrew/cask");

    state.plan_install_formula(Formula::Simple("jq".to_string()));
    state.plan_install_formula(Formula::Detailed {
        name: "jq".to_string(),
        on: "macos".to_string(),
    });
    assert_eq!(state.planned_formulae().len(), 1);
    assert_eq!(state.planned_formulae()[0].name(), "jq");

    state.plan_install_cask("firefox".to_string());
    state.plan_install_cask("iterm2".to_string());
    assert_eq!(state.planned_casks(), &strings(&["iterm2"]));
}

#[test]
fn snap_entry_accessors() {
    let bare = Snap::Simple("core22".to_string());
    assert_eq!(bare.name(), "core22");
    assert!(!bare.is_classic());

    let classic = Snap::Detailed { name: "go".to_string(), classic: true };
    assert_eq!(classic.name(), "go");
    assert!(classic.is_classic());
}

#[test]
fn snap_state_plans_missing_only() {
    let mut state = snap::State::new(strings(&["core22"]));
    assert!(state.is_installed("core22"));
    state.plan_install(Snap::Simple("core22".to_string()));
    state.plan_install(Snap::Detailed { name: "go".to_string(), classic: true });
    state.plan_install(Snap::Simple("go".to_string()));
    assert_eq!(state.planned().len(), 1);
    assert_eq!(state.planned()[0].name(), "go");
    assert!(state.planned()[0].is_classic());
}

#[test]
fn converters_carry_variants() {
    let names = names_to_items(&strings(&["a", "b"]));
    assert_eq!(names.len(), 2);
    assert_eq!(names[0].name, "a");
    assert!(names[0].on.is_none());
    assert!(!names[0].flag);

    let fs = vec![
        Formula::Simple("git".to_string()),
        Formula::Detailed { name: "docker".to_string(), on: "linux".to_string() },
    ];
    let items = homebrew::formulas_to_items(&fs);
    assert_eq!(items.len(), 2);
    assert!(items[0].should_install("macos"));
    assert!(items[1].should_install("linux"));
    assert!(!items[1].should_install("macos"));

    let sn = vec![Snap::Detailed { name: "go".to_string(), classic: true }];
    let items = snap::snaps_to_items(&sn);
    assert_eq!(items[0].name, "go");
    assert!(items[0].flag);
}

#[test]
fn config_sections_are_optional() {
    let config = Config { homebrew: None, cargo: None, snap: None };
    assert!(config.homebrew.is_none());
    assert!(config.cargo.is_none());
    assert!(config.snap.is_none());

    let config = Config {
        homebrew: Some(psync::homebrew::Homebrew {
            taps: None,
            formulae: Some(vec![Formula::Simple("git".to_string())]),
            casks: None,
        }),
        cargo: Some(psync::cargo::Cargo { crates: Some(strings(&["ripgrep"])) }),
        snap: None,
    };
    assert!(config.homebrew.is_some());
    assert!(config.cargo.is_some());
}

#[test]
fn categories_follow_manifest_order() {
    let config = Config {
        homebrew: Some(psync::homebrew::Homebrew {
            taps: Some(vec![Formula::Simple("homebrew/cask".to_string())]),
            formulae: Some(vec![Formula::Simple("git".to_string())]),
            casks: Some(vec!["firefox".to_string()]),
        }),
        cargo: Some(psync::cargo::Cargo { crates: Some(strings(&["ripgrep"])) }),
        snap: Some(psync::snap::Snaps {
            snaps: Some(vec![Snap::Detailed { name: "go".to_string(), classic: true }]),
        }),
    };
    let categories = config.categories();
    assert_eq!(categories.len(), 5);
    assert!(matches!(categories[0].kind, CategoryKind::BrewTaps));
    assert!(matches!(categories[1].kind, CategoryKind::BrewFormulae));
    assert!(matches!(categories[2].kind, CategoryKind::BrewCasks));
    assert!(matches!(categories[3].kind, CategoryKind::CargoCrates));
    assert!(matches!(categories[4].kind, CategoryKind::Snaps));
    assert_eq!(categories[0].desired[0].name, "homebrew/cask");
    assert_eq!(categories[2].desired[0].name, "firefox");
    assert_eq!(categories[3].desired[0].name, "ripgrep");
    assert_eq!(categories[4].desired[0].name, "go");
    assert!(categories[4].desired[0].flag);
}

#[test]
fn categories_skip_absent_sections() {
    let config = Config {
        homebrew: Some(psync::homebrew::Homebrew {
            taps: None,
            formulae: Some(vec![Formula::Simple("git".to_string())]),
            casks: None,
        }),
        cargo: None,
        snap: None,
    };
    let categories = config.categories();
    assert_eq!(categories.len(), 1);
    assert!(matches!(categories[0].kind, CategoryKind::BrewFormulae));

    let empty = Config { homebrew: None, cargo: None, snap: None };
    assert!(empty.categories().is_empty());
}
