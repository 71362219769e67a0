use std::collections::HashMap;

use name_exchange::exchange::exchange_paths;
use name_exchange::exchange::select_strategy;
use name_exchange::sequencer::Sequencer;
use name_exchange::types::ExchangeDecision;
use name_exchange::types::RenameError;
use name_exchange::types::RenameOp;

fn run(
    path1: &str,
    path2: &str,
    exists1: bool,
    exists2: bool,
    is_file1: bool,
    is_file2: bool,
    existing: &[&str],
) -> Result<ExchangeDecision, RenameError> {
    let existing: Vec<String> = existing.iter().map(|s| s.to_string()).collect();
    exchange_paths(
        &path1.to_string(),
        &path2.to_string(),
        exists1,
        exists2,
        is_file1,
        is_file2,
        &existing,
    )
}

fn simulate(fs: &mut HashMap<String, String>, ops: &[RenameOp]) {
    for op in ops {
        if let Some(content) = fs.remove(&op.from) {
            fs.insert(op.to.clone(), content);
        }
    }
}

#[test]
fn missing_entry_is_rejected_untouched() {
    let r = run("/tmp/a.txt", "/tmp/b.md", false, true, true, true, &[]);
    assert!(matches!(r, Err(RenameError::NotExists)));
    let r = run("/tmp/a.txt", "/tmp/b.md", true, false, true, true, &[]);
    assert!(matches!(r, Err(RenameError::NotExists)));
}

#[test]
fn identical_paths_are_rejected_untouched() {
    let r = run("/tmp/a.txt", "/tmp/a.txt", true, true, true, true, &["/tmp/a.txt"]);
    assert!(matches!(r, Err(RenameError::SamePath)));
}

#[test]
fn missing_entry_wins_over_identical_paths() {
    let r = run("/tmp/a.txt", "/tmp/a.txt", false, false, true, true, &[]);
    assert!(matches!(r, Err(RenameError::NotExists)));
}

#[test]
fn destination_collision_across_directories_is_rejected() {
    let r = run(
        "/x/a.txt",
        "/y/b.txt",
        true,
        true,
        true,
        true,
        &["/x/a.txt", "/y/b.txt", "/x/b.txt"],
    );
    assert!(matches!(r, Err(RenameError::AlreadyExists)));
}

#[test]
fn same_directory_collision_is_resolved_by_the_strategy() {
    let d = run(
        "/tmp/a.txt",
        "/tmp/b.md",
        true,
        true,
        true,
        true,
        &["/tmp/a.txt", "/tmp/b.md"],
    )
    .unwrap();
    assert!(!d.is_nested);
    assert!(d.file1_first);
    assert_eq!(d.info.f1.exchange.new_path, "/tmp/b.txt");
    assert_eq!(d.info.f2.exchange.new_path, "/tmp/a.md");
}

#[test]
fn same_directory_exchange_swaps_contents_and_spares_the_rest() {
    let d = run(
        "/tmp/a.txt",
        "/tmp/b.md",
        true,
        true,
        true,
        true,
        &["/tmp/a.txt", "/tmp/b.md", "/tmp/other"],
    )
    .unwrap();
    assert_eq!(d.ops.len(), 3);
    let mut fs = HashMap::new();
    fs.insert("/tmp/a.txt".to_string(), "first bytes".to_string());
    fs.insert("/tmp/b.md".to_string(), "second bytes".to_string());
    fs.insert("/tmp/other".to_string(), "untouched".to_string());
    simulate(&mut fs, &d.ops);
    assert_eq!(fs.len(), 3);
    assert_eq!(fs["/tmp/b.txt"], "first bytes");
    assert_eq!(fs["/tmp/a.md"], "second bytes");
    assert_eq!(fs["/tmp/other"], "untouched");
}

#[test]
fn cross_directory_exchange_swaps_base_names() {
    let d = run(
        "/x/alpha.txt",
        "/y/beta.md",
        true,
        true,
        true,
        true,
        &["/x/alpha.txt", "/y/beta.md"],
    )
    .unwrap();
    assert_eq!(d.info.f1.exchange.new_path, "/x/beta.txt");
    assert_eq!(d.info.f2.exchange.new_path, "/y/alpha.md");
    let mut fs = HashMap::new();
    fs.insert("/x/alpha.txt".to_string(), "A".to_string());
    fs.insert("/y/beta.md".to_string(), "B".to_string());
    simulate(&mut fs, &d.ops);
    assert_eq!(fs.len(), 2);
    assert_eq!(fs["/x/beta.txt"], "A");
    assert_eq!(fs["/y/alpha.md"], "B");
}

#[test]
fn nested_entries_take_the_direct_strategy() {
    let d = run(
        "/data",
        "/data/child.txt",
        true,
        true,
        false,
        true,
        &["/data", "/data/child.txt"],
    )
    .unwrap();
    assert!(d.is_nested, "a nested pair must take the direct strategy, never the temp-mediated one");
    assert!(!d.file1_first, "the contained entry must move first");
    assert_eq!(d.ops.len(), 2);
    assert_eq!((d.ops[0].from.as_str(), d.ops[0].to.as_str()), ("/data/child.txt", "/data/data.txt"));
    assert_eq!((d.ops[1].from.as_str(), d.ops[1].to.as_str()), ("/data", "/child"));
}

#[test]
fn double_exchange_restores_both_names() {
    let existing = &["/tmp/a.txt", "/tmp/b.md", "/tmp/other"];
    let d1 = run("/tmp/a.txt", "/tmp/b.md", true, true, true, true, existing).unwrap();
    let n1 = d1.info.f1.exchange.new_path.clone();
    let n2 = d1.info.f2.exchange.new_path.clone();
    assert_eq!(n1, "/tmp/b.txt");
    assert_eq!(n2, "/tmp/a.md");
    let after = &[n1.as_str(), n2.as_str(), "/tmp/other"];
    let d2 = run(&n1, &n2, true, true, true, true, after).unwrap();
    assert_eq!(d2.info.f1.exchange.new_path, "/tmp/a.txt");
    assert_eq!(d2.info.f2.exchange.new_path, "/tmp/b.md");
}

#[test]
fn extensionless_file_borrowing_a_dotted_name_shifts_its_extension_slot() {
    // A file without an extension that borrows a dotted base name re-splits
    // differently on the way back, so the double exchange does not restore
    // the original names for this pair.
    let existing = &["/x/noext", "/y/d.e"];
    let d1 = run("/x/noext", "/y/d.e", true, true, true, false, existing).unwrap();
    assert_eq!(d1.info.f1.exchange.new_path, "/x/d.e");
    assert_eq!(d1.info.f2.exchange.new_path, "/y/noext");
    let after = &["/x/d.e", "/y/noext"];
    let d2 = run("/x/d.e", "/y/noext", true, true, true, false, after).unwrap();
    assert_eq!(d2.info.f1.exchange.new_path, "/x/noext.e");
    assert_eq!(d2.info.f2.exchange.new_path, "/y/d");
}

#[test]
fn strategy_table_is_followed_row_by_row() {
    assert_eq!(select_strategy(true, true, 0), (false, true));
    assert_eq!(select_strategy(true, true, 1), (false, true));
    assert_eq!(select_strategy(false, false, 1), (true, false));
    assert_eq!(select_strategy(false, false, 2), (true, true));
    assert_eq!(select_strategy(false, false, 0), (false, true));
    assert_eq!(select_strategy(true, false, 2), (true, true));
    assert_eq!(select_strategy(true, false, 0), (false, true));
    assert_eq!(select_strategy(true, false, 1), (false, true));
    assert_eq!(select_strategy(false, true, 1), (true, false));
    assert_eq!(select_strategy(false, true, 0), (false, false));
    assert_eq!(select_strategy(false, true, 2), (false, false));
}

#[test]
fn error_codes_are_stable() {
    assert_eq!(RenameError::NotExists.to_code(), 1);
    assert_eq!(RenameError::SamePath.to_code(), 2);
    assert_eq!(RenameError::PermissionDenied.to_code(), 2);
    assert_eq!(RenameError::AlreadyExists.to_code(), 3);
    assert_eq!(RenameError::InvalidPath.to_code(), 255);
    assert_eq!(RenameError::Unknown("boom".to_string()).to_code(), 255);
}

#[test]
fn error_messages_describe_the_kind() {
    assert_eq!(RenameError::NotExists.message(), "File does not exist");
    assert_eq!(RenameError::AlreadyExists.message(), "File already exists");
    assert_eq!(RenameError::PermissionDenied.message(), "Permission denied");
    assert_eq!(RenameError::Unknown("boom".to_string()).message(), "Unknown error: boom");
}

fn two_step_plan() -> Vec<RenameOp> {
    vec![
        RenameOp { from: "/a/one".to_string(), to: "/a/two".to_string() },
        RenameOp { from: "/b/three".to_string(), to: "/b/four".to_string() },
    ]
}

#[test]
fn sequencer_walks_the_plan_to_completion() {
    let mut seq = Sequencer::new(two_step_plan());
    let op = seq.next_op().unwrap();
    assert_eq!(op.from, "/a/one");
    seq.record_success();
    let op = seq.next_op().unwrap();
    assert_eq!(op.from, "/b/three");
    seq.record_success();
    assert!(seq.next_op().is_none());
    assert!(!seq.has_failed());
}

#[test]
fn sequencer_rolls_back_completed_steps_in_reverse() {
    let mut seq = Sequencer::new(two_step_plan());
    seq.record_success();
    seq.record_failure();
    assert!(seq.has_failed());
    assert!(seq.next_op().is_none());
    let rollback = seq.rollback_ops();
    assert_eq!(rollback.len(), 1);
    assert_eq!((rollback[0].from.as_str(), rollback[0].to.as_str()), ("/a/two", "/a/one"));
}

#[test]
fn rollback_of_a_partial_temp_plan_restores_the_namespace() {
    let d = run(
        "/tmp/a.txt",
        "/tmp/b.md",
        true,
        true,
        true,
        true,
        &["/tmp/a.txt", "/tmp/b.md"],
    )
    .unwrap();
    let mut fs = HashMap::new();
    fs.insert("/tmp/a.txt".to_string(), "A".to_string());
    fs.insert("/tmp/b.md".to_string(), "B".to_string());
    let before = fs.clone();
    let mut seq = Sequencer::new(d.ops);
    for _ in 0..2 {
        let op = seq.next_op().unwrap();
        simulate(&mut fs, &[op]);
        seq.record_success();
    }
    seq.record_failure();
    let rollback = seq.rollback_ops();
    simulate(&mut fs, &rollback);
    assert_eq!(fs, before);
}
