use autocracker::backup::{
    backup_name, needs_backup, reconcile_step, signatures_from_backup, unpacked_name, CopyRetry,
    ReconcileStep, RetryAction,
};
use autocracker::unpack::{exit_outcome, unpack_args, unpack_summary, AfterTool, UnpackError, UnpackPhase};

fn run_copy(budget: u32, failures: u32) -> RetryAction {
    let mut r = CopyRetry::new(budget);
    let mut seen = 0u32;
    loop {
        let copied = seen >= failures;
        seen += 1;
        match r.on_attempt(copied) {
            RetryAction::WaitAndRetry => continue,
            other => return other,
        }
    }
}

#[test]
fn retry_succeeds_after_transient_failures() {
    assert!(matches!(run_copy(5, 0), RetryAction::Succeeded { attempts: 1 }));
    assert!(matches!(run_copy(5, 2), RetryAction::Succeeded { attempts: 3 }));
    assert!(matches!(run_copy(5, 4), RetryAction::Succeeded { attempts: 5 }));
}

#[test]
fn retry_gives_up_after_budget() {
    assert!(matches!(run_copy(5, 6), RetryAction::GaveUp { attempts: 6 }));
    assert!(matches!(run_copy(5, 100), RetryAction::GaveUp { attempts: 6 }));
    assert!(matches!(run_copy(0, 1), RetryAction::GaveUp { attempts: 1 }));
}

#[test]
fn backup_names_use_reserved_extension() {
    assert_eq!(backup_name("steam_api64.dll"), "steam_api64.svrn");
    assert_eq!(backup_name("steam_api.dll"), "steam_api.svrn");
    assert_eq!(backup_name("Game.exe"), "Game.svrn");
    assert_eq!(backup_name("archive.tar.gz"), "archive.tar.svrn");
    assert_eq!(backup_name(".profile"), ".profile.svrn");
    assert_eq!(backup_name("README"), "README.svrn");
    assert_eq!(unpacked_name("Game.exe"), "Game.exe.unpacked.exe");
}

#[test]
fn backup_only_for_a_differing_original() {
    assert!(!needs_backup(false, None, Some(100)));
    assert!(!needs_backup(true, Some(100), Some(100)));
    assert!(needs_backup(true, Some(99), Some(100)));
    assert!(needs_backup(true, None, Some(100)));
    assert!(needs_backup(true, Some(100), None));
}

#[test]
fn absent_original_is_copied_without_backup() {
    // No original: no backup, and the copy goes straight through.
    assert!(!needs_backup(false, None, Some(4096)));
    assert!(matches!(run_copy(5, 0), RetryAction::Succeeded { attempts: 1 }));
}

#[test]
fn reconcile_chooses_by_what_exists() {
    assert!(matches!(reconcile_step(false, false), ReconcileStep::NoWrapper));
    assert!(matches!(reconcile_step(false, true), ReconcileStep::NoWrapper));
    assert!(matches!(reconcile_step(true, false), ReconcileStep::BackupThenReplace));
    assert!(matches!(reconcile_step(true, true), ReconcileStep::DiscardThenReplace));
}

#[test]
fn unpack_arguments_and_missing_tool() {
    let args = match unpack_args(true, "C:\\g\\Game.exe") {
        Ok(a) => a,
        Err(_) => panic!("tool present"),
    };
    assert_eq!(args, vec!["--quiet", "--keep-bind-section", "--unpacked-name", "--all-plugins", "C:\\g\\Game.exe"]);
    assert!(matches!(unpack_args(false, "Game.exe"), Err(UnpackError::ToolMissing)));
}

#[test]
fn unpack_exit_codes() {
    assert!(exit_outcome(true, Some(0)).is_ok());
    assert!(matches!(exit_outcome(false, Some(3)), Err(UnpackError::ToolExitNonZero(3))));
    assert!(matches!(exit_outcome(false, None), Err(UnpackError::ToolExitNonZero(-1))));
}

#[test]
fn failing_tool_on_one_of_three_does_not_stop_the_phase() {
    let mut phase = UnpackPhase::new(3);
    let mut reconciled = Vec::new();
    let mut events = Vec::new();
    for (i, tool_ok) in [true, false, true].into_iter().enumerate() {
        events.push(phase.start_exe());
        match phase.after_tool(tool_ok) {
            AfterTool::Reconcile => {
                reconciled.push(i);
                events.push(phase.after_reconcile(true));
            }
            AfterTool::Skip => {}
        }
    }
    assert_eq!(reconciled, vec![0, 2]);
    assert_eq!(events, vec![0, 16, 16, 33, 50]);
    assert_eq!(phase.processed, 2);
    assert_eq!(phase.warnings, 1);
    assert_eq!(phase.done, 3);
    assert_eq!(phase.closing(), None);
}

#[test]
fn failing_last_tool_gets_a_closing_event() {
    let mut phase = UnpackPhase::new(2);
    phase.start_exe();
    assert!(matches!(phase.after_tool(true), AfterTool::Reconcile));
    assert_eq!(phase.after_reconcile(false), 25);
    assert_eq!(phase.start_exe(), 25);
    assert!(matches!(phase.after_tool(false), AfterTool::Skip));
    assert_eq!(phase.percent(), 50);
    assert_eq!(phase.warnings, 2);
    assert_eq!(phase.closing(), Some(50));
}

#[test]
fn signatures_come_from_the_pristine_original() {
    // First run: the library is the original; read it.
    assert!(!signatures_from_backup(false, true, Some(10), Some(20)));
    // A stale backup beside a genuine original: still the library.
    assert!(!signatures_from_backup(true, true, Some(10), Some(20)));
    // Second run: the library was replaced; read the backup.
    assert!(signatures_from_backup(true, true, Some(20), Some(20)));
    // Replaced but no backup was ever made: the library.
    assert!(!signatures_from_backup(false, true, Some(20), Some(20)));
}

#[test]
fn empty_unpack_phase_is_complete() {
    let phase = UnpackPhase::new(0);
    assert_eq!(phase.percent(), 50);
    assert_eq!(unpack_summary("D:\\Games\\X"), "Steamless DRM removal completed for: D:\\Games\\X");
}

/// One replacement over an in-memory file map, as the library decides it.
fn replace_in(files: &mut std::collections::BTreeMap<String, Vec<u8>>, name: &str, replacement: &[u8]) {
    let original = files.get(name).cloned();
    let len = original.as_ref().map(|o| o.len() as u64);
    if needs_backup(original.is_some(), len, Some(replacement.len() as u64)) {
        files.insert(backup_name(name), original.unwrap_or_default());
    }
    files.insert(name.to_string(), replacement.to_vec());
}

#[test]
fn second_run_changes_nothing_and_backup_keeps_original() {
    let mut files = std::collections::BTreeMap::new();
    files.insert("steam_api.dll".to_string(), vec![7u8; 10]);
    let emulator = vec![1u8; 20];
    replace_in(&mut files, "steam_api.dll", &emulator);
    assert_eq!(files.get("steam_api.svrn"), Some(&vec![7u8; 10]));
    assert_eq!(files.get("steam_api.dll"), Some(&emulator));
    let after_first = files.clone();
    replace_in(&mut files, "steam_api.dll", &emulator);
    assert_eq!(files, after_first);
    assert_eq!(files.len(), 2);
}
