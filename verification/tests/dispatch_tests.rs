use bench_server::dispatch::{create, results_dir, run_plan, Payload};

fn payload(branch: &str, pull_request: bool) -> Payload {
    Payload {
        pull_request_title: "Faster rendering".to_string(),
        pull_request_number: 42,
        pull_request,
        head_commit: "feedface".to_string(),
        commit: "abc123".to_string(),
        branch: branch.to_string(),
    }
}

#[test]
fn non_master_branch_produces_no_run() {
    // Commits to other branches are acknowledged but dispatch nothing.
    assert!(run_plan(&payload("develop", false), "2024-01-02T03:04:05Z").is_none());
    assert!(create(&payload("develop", false)).is_none());
    assert!(create(&payload("Master", false)).is_none());
}

#[test]
fn master_commit_planned() {
    let run = run_plan(&payload("master", false), "2024-01-02T03:04:05Z").unwrap();
    assert_eq!(run.commit, "abc123");
    assert_eq!(run.path, "./results/Master/2024-01-02T03:04:05Z-abc123");
}

#[test]
fn pull_request_uses_head_commit() {
    // Under a pull request the head commit is dispatched, not the merge
    // target, and the label carries title and number.
    let run = run_plan(&payload("master", true), "2024-01-02T03:04:05Z").unwrap();
    assert_eq!(run.commit, "feedface");
    assert_eq!(
        run.path,
        "./results/Faster rendering (#42)/2024-01-02T03:04:05Z-feedface"
    );
}

#[test]
fn create_plans_at_current_time() {
    let run = create(&payload("master", false)).unwrap();
    assert_eq!(run.commit, "abc123");
    assert!(run.path.starts_with("./results/Master/"));
    assert!(run.path.ends_with("-abc123"));
}

#[test]
fn results_dir_fixed() {
    assert_eq!(results_dir(), "./results");
}
