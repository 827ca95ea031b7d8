use freepass_cli::commit::{next_step, plan_commit, CommitStep};

#[test]
fn temp_file_sits_beside_the_vault() {
    let p = plan_commit("/home/me/vault.fpass");
    assert_eq!(p.target, "/home/me/vault.fpass");
    assert_eq!(p.temp, "/home/me/vault.fpass.tmp");
}

#[test]
fn steps_run_in_order() {
    assert_eq!(next_step(CommitStep::Apply, true), CommitStep::WriteTemp);
    assert_eq!(next_step(CommitStep::WriteTemp, true), CommitStep::Rename);
    assert_eq!(next_step(CommitStep::Rename, true), CommitStep::Done);
}

#[test]
fn any_failure_ends_the_commit() {
    assert_eq!(next_step(CommitStep::Apply, false), CommitStep::Failed);
    assert_eq!(next_step(CommitStep::WriteTemp, false), CommitStep::Failed);
    assert_eq!(next_step(CommitStep::Rename, false), CommitStep::Failed);
    assert_eq!(next_step(CommitStep::Failed, true), CommitStep::Failed);
}
