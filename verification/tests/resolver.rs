//! Context inference on concrete flag and existence combinations.

use stash::errors::{Ambiguity, StashError};
use stash::inference::{Cli, OperationMode, infer_operation, infer_from_context, split_rename};

fn base_cli(items: &[&str]) -> Cli {
    Cli {
        items: items.iter().map(|s| s.to_string()).collect(),
        name: None,
        push: false,
        pop: false,
        copy: false,
        link: false,
        peek: false,
        delete: false,
        allow_dirs: false,
        list: false,
        search: None,
        info: false,
        history: false,
        undo: false,
        clean: None,
        rename: None,
        tar: None,
        import: None,
        restore: false,
        dump: false,
    }
}

#[test]
fn all_existing_paths_infer_push() {
    let cli = base_cli(&["a.txt", "b.txt"]);
    let r = infer_operation(&cli, &vec![true, true]).expect("resolved");
    assert!(matches!(r, OperationMode::Push { copy: false, link: false }));
}

#[test]
fn single_missing_path_infers_pop_by_identifier() {
    let cli = base_cli(&["work"]);
    let r = infer_operation(&cli, &vec![false]).expect("resolved");
    match r {
        OperationMode::Pop { identifier } => assert_eq!(identifier.as_deref(), Some("work")),
        other => panic!("expected a pop, got {:?}", other),
    }
}

#[test]
fn mixed_existence_is_ambiguous_with_both_partitions() {
    let cli = base_cli(&["here.txt", "gone", "also.txt"]);
    let e = infer_operation(&cli, &vec![true, false, true]).expect_err("ambiguous");
    match e {
        StashError::AmbiguousOperation {
            ambiguity: Ambiguity::MixedExistence { existing, missing },
        } => {
            assert_eq!(existing, vec!["here.txt".to_string(), "also.txt".to_string()]);
            assert_eq!(missing, vec!["gone".to_string()]);
        },
        other => panic!("expected mixed existence, got {:?}", other),
    }
}

#[test]
fn several_missing_paths_are_ambiguous() {
    let cli = base_cli(&["gone1", "gone2"]);
    let e = infer_from_context(&cli, &vec![false, false]).expect_err("ambiguous");
    match e {
        StashError::AmbiguousOperation { ambiguity: Ambiguity::MultipleMissing { missing } } => {
            assert_eq!(missing, vec!["gone1".to_string(), "gone2".to_string()]);
        },
        other => panic!("expected multiple missing, got {:?}", other),
    }
}

#[test]
fn no_items_restores_most_recent() {
    let cli = base_cli(&[]);
    let r = infer_operation(&cli, &Vec::new()).expect("resolved");
    assert!(matches!(r, OperationMode::PopRecent));
}

#[test]
fn informational_intents_win_over_paths() {
    let mut cli = base_cli(&["a.txt"]);
    cli.list = true;
    let r = infer_operation(&cli, &vec![true]).expect("resolved");
    assert!(matches!(r, OperationMode::List));

    let mut cli = base_cli(&["a.txt"]);
    cli.search = Some("rep".to_string());
    match infer_operation(&cli, &vec![true]).expect("resolved") {
        OperationMode::Search(p) => assert_eq!(p, "rep"),
        other => panic!("expected search, got {:?}", other),
    }

    let mut cli = base_cli(&[]);
    cli.history = true;
    assert!(matches!(infer_operation(&cli, &Vec::new()).expect("resolved"), OperationMode::History));
}

#[test]
fn clean_takes_the_documented_default() {
    let mut cli = base_cli(&[]);
    cli.clean = Some(None);
    match infer_operation(&cli, &Vec::new()).expect("resolved") {
        OperationMode::Clean(days) => assert_eq!(days, 30),
        other => panic!("expected clean, got {:?}", other),
    }
    cli.clean = Some(Some(7));
    match infer_operation(&cli, &Vec::new()).expect("resolved") {
        OperationMode::Clean(days) => assert_eq!(days, 7),
        other => panic!("expected clean, got {:?}", other),
    }
}

#[test]
fn explicit_flags_beat_the_heuristic() {
    let mut cli = base_cli(&["exists.txt"]);
    cli.pop = true;
    match infer_operation(&cli, &vec![true]).expect("resolved") {
        OperationMode::Pop { identifier } => assert_eq!(identifier.as_deref(), Some("exists.txt")),
        other => panic!("expected pop, got {:?}", other),
    }
    let mut cli = base_cli(&["gone"]);
    cli.push = true;
    cli.copy = true;
    assert!(matches!(
        infer_operation(&cli, &vec![false]).expect("resolved"),
        OperationMode::Push { copy: true, link: false }
    ));
}

#[test]
fn rename_spec_is_split_at_the_first_colon() {
    assert_eq!(split_rename("old:new"), Some(("old".to_string(), "new".to_string())));
    assert_eq!(split_rename("a:b:c"), Some(("a".to_string(), "b:c".to_string())));
    assert!(split_rename("nocolon").is_none());
    let mut cli = base_cli(&[]);
    cli.rename = Some("old:new".to_string());
    match infer_operation(&cli, &Vec::new()).expect("resolved") {
        OperationMode::Rename { old, new } => {
            assert_eq!(old, "old");
            assert_eq!(new, "new");
        },
        other => panic!("expected rename, got {:?}", other),
    }
    cli.rename = Some("broken".to_string());
    let e = infer_operation(&cli, &Vec::new()).expect_err("malformed");
    assert!(matches!(e, StashError::InvalidInput { .. }));
}
