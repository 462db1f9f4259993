use minigrep::config::{Config, EnvFlags, PathKind};
use minigrep::render::{annotate_line, decimal_string, render_matches};
use minigrep::utils::is_hidden;
use minigrep::walk::{
    entry_action, should_visit, symlink_target_qualifies, EntryKind, WalkAction,
};

#[test]
fn dot_names_are_hidden() {
    assert!(is_hidden(".secret"));
    assert!(!is_hidden("visible.txt"));
    assert!(!is_hidden(""));
}

#[test]
fn hidden_entries_are_skipped_unless_included() {
    assert_eq!(
        WalkAction::Skip,
        entry_action(EntryKind::File, ".secret", false, false)
    );
    assert_eq!(
        WalkAction::SearchThis,
        entry_action(EntryKind::File, "visible.txt", false, false)
    );
    assert_eq!(
        WalkAction::SearchThis,
        entry_action(EntryKind::File, ".secret", true, false)
    );
    assert_eq!(
        WalkAction::SearchThis,
        entry_action(EntryKind::File, "visible.txt", true, false)
    );
}

#[test]
fn hidden_directories_are_pruned_before_descent() {
    assert_eq!(
        WalkAction::Skip,
        entry_action(EntryKind::Dir, ".cache", false, true)
    );
    assert!(!should_visit(".cache", false));
    assert!(should_visit(".cache", true));
    assert!(should_visit("src", false));
    assert_eq!(
        WalkAction::Descend,
        entry_action(EntryKind::Dir, "src", false, false)
    );
}

#[test]
fn symlinks_follow_the_symlink_flag() {
    assert_eq!(
        WalkAction::Skip,
        entry_action(EntryKind::Symlink, "link", false, false)
    );
    assert_eq!(
        WalkAction::SearchTarget,
        entry_action(EntryKind::Symlink, "link", false, true)
    );
    assert!(symlink_target_qualifies(EntryKind::File));
    assert!(!symlink_target_qualifies(EntryKind::Dir));
    assert!(!symlink_target_qualifies(EntryKind::Symlink));
}

#[test]
fn decimal_rendering_is_exact() {
    assert_eq!("0", decimal_string(0));
    assert_eq!("7", decimal_string(7));
    assert_eq!("10", decimal_string(10));
    assert_eq!("10450", decimal_string(10450));
}

#[test]
fn annotation_orders_filename_then_number() {
    assert_eq!("f.txt:7:hello", annotate_line("f.txt", 7, "hello", true, true));
    assert_eq!("f.txt:hello", annotate_line("f.txt", 7, "hello", true, false));
    assert_eq!("7:hello", annotate_line("f.txt", 7, "hello", false, true));
    assert_eq!("hello", annotate_line("f.txt", 7, "hello", false, false));
}

fn config(query: &str, ignore_case: bool, label: bool, numbers: bool) -> Config {
    let tokens = vec![query.to_string()];
    let kinds = vec![PathKind::Other];
    let env = EnvFlags {
        ignore_case,
        label_files: label,
        include_symlinks: false,
        include_hidden: false,
        include_line_numbers: numbers,
    };
    Config::build(&tokens, &kinds, env).unwrap()
}

#[test]
fn rendered_matches_carry_the_requested_prefixes() {
    let contents = "Rust:\nsafe, fast, productive.\nPick three.\nTrust me.";
    let c = config("rust", true, true, true);
    let out = render_matches("poem.txt", contents, &c);
    assert_eq!(vec!["poem.txt:1:Rust:".to_string(), "poem.txt:4:Trust me.".to_string()], out);

    let c = config("Pick", false, false, false);
    let out = render_matches("poem.txt", contents, &c);
    assert_eq!(vec!["Pick three.".to_string()], out);
}
