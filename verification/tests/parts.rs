//! The worker model, the assembler, and the id-list helpers.

use download_engine::assembler::{assemble, select_target, PostDownloadAction, TargetChoice};
use download_engine::seqs::{vec_contains, vec_remove_all};
use download_engine::worker::{
    apply_increment, poll_control, resume_offset, StepDecision, ThreadMessages,
};

#[test]
fn poll_control_decisions() {
    assert_eq!(poll_control(false, None), StepDecision::AbortSilently);
    assert_eq!(
        poll_control(false, Some(ThreadMessages::Pause)),
        StepDecision::AbortSilently
    );
    assert_eq!(
        poll_control(true, Some(ThreadMessages::Cancel)),
        StepDecision::StopDeletePartial
    );
    assert_eq!(
        poll_control(true, Some(ThreadMessages::Pause)),
        StepDecision::StopKeepPartial
    );
    assert_eq!(poll_control(true, None), StepDecision::Proceed);
}

#[test]
fn increments_accumulate() {
    let mut buf: Vec<u8> = vec![1, 2];
    assert_eq!(resume_offset(&buf), 2);
    apply_increment(&mut buf, &vec![3, 4, 5]);
    assert_eq!(buf, vec![1, 2, 3, 4, 5]);
    apply_increment(&mut buf, &Vec::new());
    assert_eq!(buf, vec![1, 2, 3, 4, 5]);
    assert_eq!(resume_offset(&buf), 5);
}

#[test]
fn assemble_concatenates_in_order() {
    let pieces: Vec<Vec<u8>> = vec![vec![10, 11], vec![], vec![12], vec![13, 14, 15]];
    assert_eq!(assemble(&pieces), vec![10, 11, 12, 13, 14, 15]);
    let none: Vec<Vec<u8>> = Vec::new();
    assert_eq!(assemble(&none), Vec::<u8>::new());
}

#[test]
fn target_selection_order() {
    let copy = PostDownloadAction::Copy(String::from("/elsewhere"), false);
    let none = PostDownloadAction::NoVault;
    assert_eq!(select_target(true, &copy), TargetChoice::FirstVault);
    assert_eq!(select_target(true, &none), TargetChoice::FirstVault);
    assert_eq!(select_target(false, &copy), TargetChoice::OverrideTarget);
    assert_eq!(select_target(false, &none), TargetChoice::TempDir);
}

#[test]
fn id_list_helpers() {
    let v: Vec<u64> = vec![4, 7, 4, 9];
    assert!(vec_contains(&v, 7));
    assert!(!vec_contains(&v, 8));
    assert_eq!(vec_remove_all(&v, 4), vec![7, 9]);
    assert_eq!(vec_remove_all(&v, 8), vec![4, 7, 4, 9]);
    assert_eq!(vec_remove_all(&Vec::new(), 1), Vec::<u64>::new());
}
