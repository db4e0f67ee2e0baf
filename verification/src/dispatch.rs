use vstd::prelude::*;

use crate::strutil::TIMESTAMP_LEN;
use crate::strutil::dec_digits;
use crate::strutil::push_decimal;
use crate::strutil::str_eq;

verus! {

// Deciding, for one verified notification, whether a benchmark run is due,
// and where its results will be stored. Only commits to the primary branch
// are benchmarked; the run is described by the commit to check out and the
// result path to write to. Launching the run itself is process work that the
// caller performs.

/// A decoded continuous-integration notification.
pub struct Payload {
    pub pull_request_title: String,
    pub pull_request_number: usize,
    pub pull_request: bool,
    pub head_commit: String,
    pub commit: String,
    pub branch: String,
}

/// Mathematical model of `Payload`.
#[verifier::ext_equal]
pub ghost struct PayloadView {
    pub pull_request_title: Seq<char>,
    pub pull_request_number: int,
    pub pull_request: bool,
    pub head_commit: Seq<char>,
    pub commit: Seq<char>,
    pub branch: Seq<char>,
}

impl View for Payload {
    type V = PayloadView;

    open spec fn view(&self) -> PayloadView {
        PayloadView {
            pull_request_title: self.pull_request_title@,
            pull_request_number: self.pull_request_number as int,
            pull_request: self.pull_request,
            head_commit: self.head_commit@,
            commit: self.commit@,
            branch: self.branch@,
        }
    }
}

/// The directory all results are stored under.
pub open spec fn results_dir_spec() -> Seq<char> {
    "./results"@
}

/// The directory all results are stored under.
pub fn results_dir() -> (r: &'static str)
    ensures
        r@ == results_dir_spec(),
{
    "./results"
}

/// The commit a run checks out: the head commit when the notification is for
/// a pull request, the direct commit otherwise.
pub open spec fn plan_commit(p: PayloadView) -> Seq<char> {
    if p.pull_request {
        p.head_commit
    } else {
        p.commit
    }
}

/// For a pull-request notification the dispatched commit is the head commit,
/// never the merge-target commit.
pub proof fn lemma_pull_request_commit(p: PayloadView)
    requires
        p.pull_request,
    ensures
        plan_commit(p) == p.head_commit,
{
}

/// The human-readable branch label a run stores its results under: the
/// pull-request title and number for a pull request, a fixed label for the
/// primary branch itself.
pub open spec fn branch_label(p: PayloadView) -> Seq<char> {
    if p.pull_request {
        p.pull_request_title + " (#"@ + dec_digits(p.pull_request_number as nat) + ")"@
    } else {
        "Master"@
    }
}

/// The result path of a run dispatched at `ts`:
/// `<results dir>/<branch label>/<timestamp>-<commit>`.
pub open spec fn plan_path(p: PayloadView, ts: Seq<char>) -> Seq<char> {
    results_dir_spec() + "/"@ + branch_label(p) + "/"@ + ts + "-"@ + plan_commit(p)
}

/// One benchmark run to launch: the commit to check out and the path its
/// results are written to.
pub struct BenchRun {
    pub commit: String,
    pub path: String,
}

/// Decides the run for a verified notification, against the given dispatch
/// timestamp: commits to branches other than the primary one produce no run.
pub fn run_plan(payload: &Payload, timestamp: &str) -> (r: Option<BenchRun>)
    ensures
        (r is Some) == (payload@.branch == "master"@),
        (match r {
            Some(run) => run.commit@ == plan_commit(payload@) && run.path@ == plan_path(
                payload@,
                timestamp@,
            ),
            None => true,
        }),
{
    if !str_eq(payload.branch.as_str(), "master") {
        return None;
    }
    let (label, commit) = if payload.pull_request {
        let mut label = payload.pull_request_title.clone();
        label.append(" (#");
        push_decimal(&mut label, payload.pull_request_number as u64);
        label.append(")");
        proof {
            assert(label@ =~= branch_label(payload@));
        }
        (label, payload.head_commit.clone())
    } else {
        (String::from_str("Master"), payload.commit.clone())
    };
    let mut path = results_dir().to_owned();
    path.append("/");
    path.append(label.as_str());
    path.append("/");
    path.append(timestamp);
    path.append("-");
    path.append(commit.as_str());
    proof {
        assert(path@ =~= plan_path(payload@, timestamp@));
    }
    Some(BenchRun { commit: commit, path: path })
}

/// Relies on chrono's `Utc::now` formatted as `%Y-%m-%dT%H:%M:%SZ`: a UTC
/// wall-clock timestamp whose fields are zero-padded, so at least 20
/// characters long. The clock's value itself is promised nothing.
#[verifier::external_body]
fn now_timestamp() -> (r: String)
    ensures
        r@.len() >= TIMESTAMP_LEN,
{
    chrono::offset::Utc::now().format("%Y-%m-%dT%H:%M:%SZ").to_string()
}

/// Decides the run for a verified notification at the present moment: the
/// result path is the plan for some dispatch timestamp, and the commit does
/// not depend on the clock.
pub fn create(payload: &Payload) -> (r: Option<BenchRun>)
    ensures
        (r is Some) == (payload@.branch == "master"@),
        (match r {
            Some(run) => run.commit@ == plan_commit(payload@) && exists|ts: Seq<char>|
                run.path@ == plan_path(payload@, ts),
            None => true,
        }),
{
    let ts = now_timestamp();
    let r = run_plan(payload, ts.as_str());
    proof {
        if r is Some {
            assert(r.unwrap().path@ == plan_path(payload@, ts@));
        }
    }
    r
}

} // verus!
