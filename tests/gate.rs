use fixnames::gate::{classify_with, default_rule_list, Config, EntryState, RuleError};

fn dry() -> Config {
    Config::new(false).unwrap()
}

fn forced() -> Config {
    Config::new(true).unwrap()
}

#[test]
fn default_rules_compile() {
    assert_eq!(default_rule_list(), vec!["^Cargo.*", "^Makefile$", "^\\..*"]);
    let c = dry();
    assert!(!c.enable_rename);
    assert_eq!(c.skip_list.patterns().len(), 3);
}

#[test]
fn cargo_files_are_protected() {
    let c = dry();
    assert!(c.is_protected(Some("Cargo.toml")));
    assert!(c.is_protected(Some("Cargo.lock")));
    assert!(c.is_protected(Some("Cargo")));
    assert!(!c.is_protected(Some("MyCargo.toml")));
    assert!(!c.is_protected(Some("cargo.toml")));
    assert_eq!(c.classify(true, Some("Cargo.toml")), EntryState::Skipped);
}

#[test]
fn makefile_is_protected_only_exactly() {
    let c = dry();
    assert!(c.is_protected(Some("Makefile")));
    assert!(!c.is_protected(Some("Makefile.bak")));
    assert!(!c.is_protected(Some("My Makefile")));
}

#[test]
fn dotfiles_are_protected() {
    let c = dry();
    assert!(c.is_protected(Some(".hidden")));
    assert!(c.is_protected(Some(".")));
    assert!(c.is_protected(Some("..")));
    assert_eq!(c.classify(true, Some(".Hidden File")), EntryState::Skipped);
}

#[test]
fn unreadable_name_fails_closed() {
    let c = forced();
    assert!(c.is_protected(None));
    assert_eq!(c.classify(true, None), EntryState::Skipped);
}

#[test]
fn non_files_are_ignored() {
    let c = forced();
    assert_eq!(c.classify(false, Some("My Dir")), EntryState::Ignored);
    assert_eq!(c.classify(false, None), EntryState::Ignored);
}

#[test]
fn dry_run_plans_without_renaming() {
    let c = dry();
    let s = c.classify(true, Some("My Book_Title.pdf"));
    assert_eq!(
        s,
        EntryState::Planned {
            from: "My Book_Title.pdf".to_string(),
            to: "my-book-title.pdf".to_string(),
            apply: false
        }
    );
    assert!(!s.rename_due());
}

#[test]
fn forced_mode_renames_and_settles() {
    let c = forced();
    let s = c.classify(true, Some("My Book_Title.pdf"));
    assert!(s.rename_due());
    let done = s.settle(true);
    assert_eq!(
        done,
        EntryState::Applied {
            from: "My Book_Title.pdf".to_string(),
            to: "my-book-title.pdf".to_string()
        }
    );
    let s = c.classify(true, Some("Book-(z-lib.org).pdf"));
    assert_eq!(
        s.settle(false),
        EntryState::Failed { from: "Book-(z-lib.org).pdf".to_string(), to: "book.pdf".to_string() }
    );
}

#[test]
fn canonical_names_are_unchanged() {
    let c = forced();
    assert_eq!(c.classify(true, Some("already-lowercase.txt")), EntryState::Unchanged);
    assert!(!c.classify(true, Some("already-lowercase.txt")).rename_due());
}

#[test]
fn protection_wins_over_normalizer() {
    let c = forced();
    assert_eq!(c.classify(true, Some("Cargo Notes_V2.txt")), EntryState::Skipped);
    assert_eq!(
        classify_with(true, true, Some("Some File"), true, "some file"),
        EntryState::Skipped
    );
}

#[test]
fn classify_with_given_results() {
    assert_eq!(
        classify_with(true, true, Some("A B"), false, "a b"),
        EntryState::Planned { from: "A B".to_string(), to: "a-b".to_string(), apply: true }
    );
    assert_eq!(classify_with(false, true, Some("a-b"), false, "a-b"), EntryState::Unchanged);
    assert_eq!(classify_with(false, true, None, false, ""), EntryState::Skipped);
    assert_eq!(classify_with(false, false, Some("A B"), false, "a b"), EntryState::Ignored);
}

#[test]
fn custom_rules() {
    let rules = vec!["^keep".to_string(), "\\.bak$".to_string()];
    let c = Config::with_rules(true, &rules).unwrap();
    assert!(c.is_protected(Some("keep me")));
    assert!(c.is_protected(Some("x.bak")));
    assert!(!c.is_protected(Some("Cargo.toml")));
    let none: Vec<String> = vec![];
    let c = Config::with_rules(false, &none).unwrap();
    assert!(!c.is_protected(Some(".hidden")));
    assert!(c.is_protected(None));
}

#[test]
fn bad_pattern_is_refused() {
    let rules = vec!["(".to_string()];
    assert!(matches!(Config::with_rules(true, &rules), Err(RuleError::BadPattern)));
}

#[test]
fn matching_follows_the_set_as_built() {
    let set = regex::RegexSetBuilder::new(["^Cargo.*"]).case_insensitive(true).build().unwrap();
    let c = Config { enable_rename: false, skip_list: set };
    assert!(c.is_protected(Some("cargo.toml")));
    assert_eq!(c.classify(true, Some("cargo Notes.txt")), EntryState::Skipped);
    let plain = Config::with_rules(false, &vec!["^Cargo.*".to_string()]).unwrap();
    assert!(!plain.is_protected(Some("cargo.toml")));
}

#[test]
fn scenario_entries_under_both_modes() {
    for enable in [false, true] {
        let c = Config::new(enable).unwrap();
        let s = c.classify(true, Some("My Book_Title.pdf"));
        assert_eq!(s.rename_due(), enable);
        assert_eq!(c.classify(true, Some("already-lowercase.txt")), EntryState::Unchanged);
    }
}
