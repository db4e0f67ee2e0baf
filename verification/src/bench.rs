use vstd::prelude::*;

use crate::measure::Measurement;
use crate::measure::MeasurementView;
use crate::measure::parse_measurement;
use crate::measure::parse_measurement_spec;
use crate::strutil::TIMESTAMP_LEN;
use crate::strutil::has_timestamp_prefix;
use crate::strutil::is_timestamp;
use crate::strutil::lemma_lex_le_antisym;
use crate::strutil::lemma_lex_le_total;
use crate::strutil::lemma_lex_le_trans;
use crate::strutil::lex_le;
use crate::strutil::str_le;

verus! {

// The three-level aggregate rebuilt from the result store on every read:
// benchmark -> branch -> time-ordered results. Within a branch the results
// are ordered by their timestamp string; the fixed `YYYY-MM-DDTHH:MM:SSZ`
// format makes lexical order chronological order.

/// One measurement taken at one commit.
pub struct BenchResult {
    pub timestamp: String,
    pub measurement: Measurement,
}

/// Mathematical model of `BenchResult`.
#[verifier::ext_equal]
pub ghost struct ResultView {
    pub timestamp: Seq<char>,
    pub measurement: MeasurementView,
}

impl View for BenchResult {
    type V = ResultView;

    open spec fn view(&self) -> ResultView {
        ResultView { timestamp: self.timestamp@, measurement: self.measurement@ }
    }
}

/// One branch of one benchmark, its results ordered by timestamp.
pub struct Branch {
    pub name: String,
    pub results: Vec<BenchResult>,
}

/// Mathematical model of `Branch`.
#[verifier::ext_equal]
pub ghost struct BranchView {
    pub name: Seq<char>,
    pub results: Seq<ResultView>,
}

/// The models of a sequence of results.
pub open spec fn results_view(rs: Seq<BenchResult>) -> Seq<ResultView> {
    rs.map_values(|r: BenchResult| r@)
}

impl View for Branch {
    type V = BranchView;

    open spec fn view(&self) -> BranchView {
        BranchView { name: self.name@, results: results_view(self.results@) }
    }
}

/// One benchmark with all branches it was measured on.
pub struct Bench {
    pub name: String,
    pub branches: Vec<Branch>,
}

/// Mathematical model of `Bench`.
#[verifier::ext_equal]
pub ghost struct BenchView {
    pub name: Seq<char>,
    pub branches: Seq<BranchView>,
}

/// The models of a sequence of branches.
pub open spec fn branches_view(bs: Seq<Branch>) -> Seq<BranchView> {
    bs.map_values(|b: Branch| b@)
}

impl View for Bench {
    type V = BenchView;

    open spec fn view(&self) -> BenchView {
        BenchView { name: self.name@, branches: branches_view(self.branches@) }
    }
}

/// The models of a sequence of benchmarks.
pub open spec fn benches_view(bs: Seq<Bench>) -> Seq<BenchView> {
    bs.map_values(|b: Bench| b@)
}

/// Results ordered by timestamp, earliest first.
pub open spec fn results_sorted(rs: Seq<ResultView>) -> bool {
    forall|i: int, j: int|
        0 <= i < j < rs.len() ==> lex_le(#[trigger] rs[i].timestamp, #[trigger] rs[j].timestamp)
}

/// A well-formed branch: its results are ordered by timestamp.
pub open spec fn branch_wf(b: BranchView) -> bool {
    results_sorted(b.results)
}

/// A well-formed benchmark: branch names are unique and every branch is
/// well-formed.
pub open spec fn bench_wf(b: BenchView) -> bool {
    &&& forall|i: int| 0 <= i < b.branches.len() ==> branch_wf(#[trigger] b.branches[i])
    &&& forall|i: int, j: int|
        0 <= i < j < b.branches.len() ==> (#[trigger] b.branches[i]).name != (
        #[trigger] b.branches[j]).name
}

/// A well-formed aggregate: benchmark names are unique and every benchmark is
/// well-formed.
pub open spec fn benches_wf(bs: Seq<BenchView>) -> bool {
    &&& forall|i: int| 0 <= i < bs.len() ==> bench_wf(#[trigger] bs[i])
    &&& forall|i: int, j: int|
        0 <= i < j < bs.len() ==> (#[trigger] bs[i]).name != (#[trigger] bs[j]).name
}

/// A benchmark carrying exactly one branch with exactly one result: the form
/// a scanned store entry takes before it is merged.
pub open spec fn single_record(b: BenchView) -> bool {
    b.branches.len() == 1 && b.branches[0].results.len() == 1
}

/// Where a result with timestamp `ts` lands in `rs`: after every result that
/// does not come later, so equal timestamps keep their insertion order.
pub open spec fn insert_pos(rs: Seq<ResultView>, ts: Seq<char>) -> int
    decreases rs.len(),
{
    if rs.len() == 0 {
        0
    } else if lex_le(rs[0].timestamp, ts) {
        1 + insert_pos(rs.skip(1), ts)
    } else {
        0
    }
}

pub proof fn lemma_insert_pos_range(rs: Seq<ResultView>, ts: Seq<char>)
    ensures
        0 <= insert_pos(rs, ts) <= rs.len(),
        forall|j: int| 0 <= j < insert_pos(rs, ts) ==> lex_le(#[trigger] rs[j].timestamp, ts),
        insert_pos(rs, ts) < rs.len() ==> !lex_le(rs[insert_pos(rs, ts)].timestamp, ts),
    decreases rs.len(),
{
    if rs.len() != 0 && lex_le(rs[0].timestamp, ts) {
        lemma_insert_pos_range(rs.skip(1), ts);
        let p = insert_pos(rs, ts);
        assert forall|j: int| 0 <= j < p implies lex_le(#[trigger] rs[j].timestamp, ts) by {
            if j > 0 {
                assert(rs.skip(1)[j - 1] == rs[j]);
            }
        }
        if p < rs.len() {
            assert(rs.skip(1)[p - 1] == rs[p]);
        }
    }
}

/// `rs` with `r` inserted at its position.
pub open spec fn insert_result(rs: Seq<ResultView>, r: ResultView) -> Seq<ResultView> {
    let p = insert_pos(rs, r.timestamp);
    rs.subrange(0, p) + seq![r] + rs.subrange(p, rs.len() as int)
}

/// Inserting into an ordered result sequence keeps it ordered.
pub proof fn lemma_insert_result_sorted(rs: Seq<ResultView>, r: ResultView)
    requires
        results_sorted(rs),
    ensures
        results_sorted(insert_result(rs, r)),
        insert_result(rs, r).len() == rs.len() + 1,
{
    lemma_insert_pos_range(rs, r.timestamp);
    let p = insert_pos(rs, r.timestamp);
    let out = insert_result(rs, r);
    assert forall|i: int, j: int|
        0 <= i < j < out.len() implies lex_le(
        #[trigger] out[i].timestamp,
        #[trigger] out[j].timestamp,
    ) by {
        if p < rs.len() {
            lemma_lex_le_total(rs[p].timestamp, r.timestamp);
        }
        if i < p && j == p {
            // out[i] is rs[i], out[j] is r
        } else if i == p && j > p {
            // out[i] is r, out[j] is rs[j-1]; r.timestamp <= rs[p] <= rs[j-1]
            if j - 1 > p {
                lemma_lex_le_trans(r.timestamp, rs[p].timestamp, rs[j - 1].timestamp);
            }
        } else if i < p && j > p {
            if j - 1 > i {
                // both from rs
            } else {
                lemma_lex_le_trans(rs[i].timestamp, r.timestamp, rs[j - 1].timestamp);
            }
        }
    }
}

/// The first index in `bs` of a branch called `name`, or `bs.len()` when
/// there is none.
pub open spec fn branch_pos(bs: Seq<BranchView>, name: Seq<char>) -> int
    decreases bs.len(),
{
    if bs.len() == 0 {
        0
    } else if bs[0].name == name {
        0
    } else {
        1 + branch_pos(bs.skip(1), name)
    }
}

pub proof fn lemma_branch_pos_range(bs: Seq<BranchView>, name: Seq<char>)
    ensures
        0 <= branch_pos(bs, name) <= bs.len(),
        forall|j: int| 0 <= j < branch_pos(bs, name) ==> (#[trigger] bs[j]).name != name,
        branch_pos(bs, name) < bs.len() ==> bs[branch_pos(bs, name)].name == name,
    decreases bs.len(),
{
    if bs.len() != 0 && bs[0].name != name {
        lemma_branch_pos_range(bs.skip(1), name);
        let p = branch_pos(bs, name);
        assert forall|j: int| 0 <= j < p implies (#[trigger] bs[j]).name != name by {
            if j > 0 {
                assert(bs.skip(1)[j - 1] == bs[j]);
            }
        }
        if p < bs.len() {
            assert(bs.skip(1)[p - 1] == bs[p]);
        }
    }
}

/// The first index in `bs` of a benchmark called `name`, or `bs.len()` when
/// there is none.
pub open spec fn bench_pos(bs: Seq<BenchView>, name: Seq<char>) -> int
    decreases bs.len(),
{
    if bs.len() == 0 {
        0
    } else if bs[0].name == name {
        0
    } else {
        1 + bench_pos(bs.skip(1), name)
    }
}

pub proof fn lemma_bench_pos_range(bs: Seq<BenchView>, name: Seq<char>)
    ensures
        0 <= bench_pos(bs, name) <= bs.len(),
        forall|j: int| 0 <= j < bench_pos(bs, name) ==> (#[trigger] bs[j]).name != name,
        bench_pos(bs, name) < bs.len() ==> bs[bench_pos(bs, name)].name == name,
    decreases bs.len(),
{
    if bs.len() != 0 && bs[0].name != name {
        lemma_bench_pos_range(bs.skip(1), name);
        let p = bench_pos(bs, name);
        assert forall|j: int| 0 <= j < p implies (#[trigger] bs[j]).name != name by {
            if j > 0 {
                assert(bs.skip(1)[j - 1] == bs[j]);
            }
        }
        if p < bs.len() {
            assert(bs.skip(1)[p - 1] == bs[p]);
        }
    }
}

/// A single-record benchmark merged into an existing aggregate for the same
/// benchmark name: the record joins its branch at its timestamp position, or
/// opens a new branch at the end.
pub open spec fn merge_spec(b: BenchView, nb: BenchView) -> BenchView {
    let br = nb.branches[0];
    let p = branch_pos(b.branches, br.name);
    if p < b.branches.len() {
        BenchView {
            name: b.name,
            branches: b.branches.update(
                p,
                BranchView {
                    name: b.branches[p].name,
                    results: insert_result(b.branches[p].results, br.results[0]),
                },
            ),
        }
    } else {
        BenchView { name: b.name, branches: b.branches.push(br) }
    }
}

/// Merging preserves well-formedness.
pub proof fn lemma_merge_wf(b: BenchView, nb: BenchView)
    requires
        bench_wf(b),
        single_record(nb),
    ensures
        bench_wf(merge_spec(b, nb)),
        merge_spec(b, nb).name == b.name,
{
    let br = nb.branches[0];
    lemma_branch_pos_range(b.branches, br.name);
    let p = branch_pos(b.branches, br.name);
    if p < b.branches.len() {
        lemma_insert_result_sorted(b.branches[p].results, br.results[0]);
    }
}

/// Merges a single-record benchmark into the aggregate of the same name: the
/// record joins the branch of its name at its timestamp position, or opens a
/// new branch.
pub fn merge_benchmarks(benches: &mut Bench, bench: Bench)
    requires
        bench_wf(old(benches)@),
        single_record(bench@),
    ensures
        final(benches)@ == merge_spec(old(benches)@, bench@),
        bench_wf(final(benches)@),
{
    let ghost b0 = benches@;
    let ghost nb = bench@;
    proof {
        lemma_merge_wf(b0, nb);
        lemma_branch_pos_range(b0.branches, nb.branches[0].name);
    }
    let ghost spec_p = branch_pos(b0.branches, nb.branches[0].name);
    let mut bench = bench;
    let mut new_branch = bench.branches.remove(0);
    let new_name = new_branch.name.clone();
    let record = new_branch.results.remove(0);
    proof {
        assert(record@ == nb.branches[0].results[0]);
        assert(new_name@ == nb.branches[0].name);
    }
    let n = benches.branches.len();
    let mut i: usize = 0;
    while i < n && !string_eq(&benches.branches[i].name, &new_name)
        invariant
            i <= n,
            n == benches.branches.len(),
            benches@ == b0,
            forall|j: int| 0 <= j < i ==> (#[trigger] b0.branches[j]).name != new_name@,
            new_name@ == nb.branches[0].name,
        decreases n - i,
    {
        i = i + 1;
    }
    proof {
        // i is the first index whose branch carries the record's name, or n.
        assert(spec_p == i as int) by {
            if spec_p < i as int {
                assert(b0.branches[spec_p].name == new_name@);
            }
            if (i as int) < spec_p && (i as int) < n as int {
                assert(b0.branches[i as int].name != new_name@);
            }
        }
    }
    if i < n {
        let mut target = benches.branches.remove(i);
        proof {
            assert(target@ == b0.branches[i as int]);
        }
        let pos = result_insert_index(&target.results, &record.timestamp);
        let ghost before = results_view(target.results@);
        target.results.insert(pos, record);
        proof {
            lemma_insert_pos_range(before, record@.timestamp);
            assert(results_view(target.results@) =~~= insert_result(
                b0.branches[i as int].results,
                record@,
            ));
        }
        benches.branches.insert(i, target);
    } else {
        let rebuilt = Branch { name: new_branch.name, results: vec_of_one(record) };
        proof {
            assert(rebuilt@.results =~~= nb.branches[0].results);
            assert(rebuilt@ =~~= nb.branches[0]);
        }
        benches.branches.push(rebuilt);
    }
    proof {
        assert(benches@ =~~= merge_spec(b0, nb));
        lemma_merge_wf(b0, nb);
    }
}

/// One entry found by scanning the result store: the branch directory name,
/// the `timestamp-commit` directory name, the leaf file name, and the leaf
/// file content.
pub struct ScanEntry {
    pub branch: String,
    pub dir: String,
    pub name: String,
    pub content: String,
}

/// Mathematical model of `ScanEntry`.
#[verifier::ext_equal]
pub ghost struct EntryView {
    pub branch: Seq<char>,
    pub dir: Seq<char>,
    pub name: Seq<char>,
    pub content: Seq<char>,
}

impl View for ScanEntry {
    type V = EntryView;

    open spec fn view(&self) -> EntryView {
        EntryView {
            branch: self.branch@,
            dir: self.dir@,
            name: self.name@,
            content: self.content@,
        }
    }
}

/// The models of a sequence of scan entries.
pub open spec fn entries_view(es: Seq<ScanEntry>) -> Seq<EntryView> {
    es.map_values(|e: ScanEntry| e@)
}

/// The single-record benchmark one scanned entry stands for: its benchmark
/// name is the leaf file name, its branch the grandparent directory, its
/// timestamp the first 20 characters of the parent directory, its measurement
/// the parsed file content. An entry whose parent directory carries no
/// well-formed timestamp prefix, or whose content parses as no measurement,
/// stands for nothing and is skipped.
pub open spec fn parse_entry_spec(e: EntryView) -> Option<BenchView> {
    if e.dir.len() >= TIMESTAMP_LEN && is_timestamp(e.dir.subrange(0, TIMESTAMP_LEN as int)) {
        match parse_measurement_spec(e.content) {
            Some(m) => Some(
                BenchView {
                    name: e.name,
                    branches: seq![
                        BranchView {
                            name: e.branch,
                            results: seq![
                                ResultView {
                                    timestamp: e.dir.subrange(0, TIMESTAMP_LEN as int),
                                    measurement: m,
                                },
                            ],
                        },
                    ],
                },
            ),
            None => None,
        }
    } else {
        None
    }
}

/// Derives the single-record benchmark of one scanned entry.
pub fn parse_entry(e: &ScanEntry) -> (r: Option<Bench>)
    ensures
        (match r {
            Some(b) => parse_entry_spec(e@) == Some(b@) && single_record(b@) && bench_wf(b@),
            None => parse_entry_spec(e@) is None,
        }),
{
    if !has_timestamp_prefix(e.dir.as_str()) {
        return None;
    }
    let m = match parse_measurement(e.content.as_str()) {
        Some(m) => m,
        None => {
            return None;
        },
    };
    let timestamp = e.dir.as_str().substring_char(0, TIMESTAMP_LEN).to_owned();
    let result = BenchResult { timestamp: timestamp, measurement: m };
    let branch = Branch { name: e.branch.clone(), results: vec_of_one(result) };
    let mut branches: Vec<Branch> = Vec::new();
    branches.push(branch);
    let b = Bench { name: e.name.clone(), branches: branches };
    proof {
        assert(b@.branches =~~= parse_entry_spec(e@).unwrap().branches);
        assert(b@ =~~= parse_entry_spec(e@).unwrap());
    }
    Some(b)
}

/// A single-record benchmark joined to the aggregate sequence: merged into
/// the benchmark of its name, or appended as a new benchmark.
pub open spec fn insert_bench_spec(bs: Seq<BenchView>, nb: BenchView) -> Seq<BenchView> {
    let p = bench_pos(bs, nb.name);
    if p < bs.len() {
        bs.update(p, merge_spec(bs[p], nb))
    } else {
        bs.push(nb)
    }
}

/// Joining a well-formed single record preserves well-formedness of the
/// aggregate sequence.
pub proof fn lemma_insert_bench_wf(bs: Seq<BenchView>, nb: BenchView)
    requires
        benches_wf(bs),
        single_record(nb),
        bench_wf(nb),
    ensures
        benches_wf(insert_bench_spec(bs, nb)),
{
    lemma_bench_pos_range(bs, nb.name);
    let p = bench_pos(bs, nb.name);
    if p < bs.len() {
        lemma_merge_wf(bs[p], nb);
    }
}

/// The aggregate of a sequence of scanned entries, one entry joined after the
/// other, in scan order.
pub open spec fn load_spec(es: Seq<EntryView>) -> Seq<BenchView>
    decreases es.len(),
{
    if es.len() == 0 {
        Seq::empty()
    } else {
        let prev = load_spec(es.drop_last());
        match parse_entry_spec(es.last()) {
            Some(nb) => insert_bench_spec(prev, nb),
            None => prev,
        }
    }
}

/// The aggregate of any entry sequence is well-formed.
pub proof fn lemma_load_spec_wf(es: Seq<EntryView>)
    ensures
        benches_wf(load_spec(es)),
    decreases es.len(),
{
    if es.len() != 0 {
        lemma_load_spec_wf(es.drop_last());
        match parse_entry_spec(es.last()) {
            Some(nb) => {
                lemma_insert_bench_wf(load_spec(es.drop_last()), nb);
            },
            None => {},
        }
    }
}

/// Rebuilds the whole aggregate from the scanned store entries: each entry
/// that stands for a record is merged in scan order; entries that stand for
/// nothing are skipped and affect nothing else.
pub fn load(entries: &Vec<ScanEntry>) -> (r: Vec<Bench>)
    ensures
        benches_view(r@) == load_spec(entries_view(entries@)),
        benches_wf(benches_view(r@)),
{
    let mut acc: Vec<Bench> = Vec::new();
    let n = entries.len();
    proof {
        assert(entries_view(entries@.subrange(0, 0)) =~= Seq::<EntryView>::empty());
        assert(benches_view(acc@) =~= Seq::<BenchView>::empty());
    }
    let mut idx: usize = 0;
    while idx < n
        invariant
            idx <= n,
            n == entries.len(),
            benches_view(acc@) == load_spec(entries_view(entries@.subrange(0, idx as int))),
            benches_wf(benches_view(acc@)),
        decreases n - idx,
    {
        let ghost prefix = entries_view(entries@.subrange(0, idx as int));
        let ghost prefix1 = entries_view(entries@.subrange(0, idx as int + 1));
        proof {
            assert(prefix1.drop_last() =~= prefix);
            assert(prefix1.last() == entries@[idx as int]@);
        }
        let parsed = parse_entry(&entries[idx]);
        match parsed {
            Some(nb) => {
                let ghost bs = benches_view(acc@);
                let ghost nbv = nb@;
                proof {
                    lemma_bench_pos_range(bs, nbv.name);
                    lemma_insert_bench_wf(bs, nbv);
                }
                let ghost spec_p = bench_pos(bs, nbv.name);
                let m = acc.len();
                let mut i: usize = 0;
                while i < m && !string_eq(&acc[i].name, &nb.name)
                    invariant
                        i <= m,
                        m == acc.len(),
                        benches_view(acc@) == bs,
                        nb@ == nbv,
                        forall|j: int| 0 <= j < i ==> (#[trigger] bs[j]).name != nbv.name,
                    decreases m - i,
                {
                    i = i + 1;
                }
                proof {
                    assert(spec_p == i as int) by {
                        if spec_p < i as int {
                            assert(bs[spec_p].name == nbv.name);
                        }
                        if (i as int) < spec_p && (i as int) < m as int {
                            assert(bs[i as int].name != nbv.name);
                        }
                    }
                }
                if i < m {
                    let mut target = acc.remove(i);
                    proof {
                        assert(target@ == bs[i as int]);
                    }
                    merge_benchmarks(&mut target, nb);
                    acc.insert(i, target);
                    proof {
                        assert(benches_view(acc@) =~~= insert_bench_spec(bs, nbv));
                    }
                } else {
                    acc.push(nb);
                    proof {
                        assert(benches_view(acc@) =~~= insert_bench_spec(bs, nbv));
                    }
                }
            },
            None => {},
        }
        idx = idx + 1;
    }
    proof {
        assert(entries@.subrange(0, n as int) =~= entries@);
    }
    acc
}

/// Compares two strings for equality.
pub fn string_eq(a: &String, b: &String) -> (r: bool)
    ensures
        r == (a@ == b@),
{
    *a == *b
}

/// A vector holding exactly `r`.
pub fn vec_of_one(r: BenchResult) -> (v: Vec<BenchResult>)
    ensures
        v@ == seq![r],
{
    let mut v: Vec<BenchResult> = Vec::new();
    v.push(r);
    proof {
        assert(v@ =~= seq![r]);
    }
    v
}

/// The index at which a result with timestamp `ts` is inserted.
pub fn result_insert_index(rs: &Vec<BenchResult>, ts: &String) -> (r: usize)
    ensures
        r as int == insert_pos(results_view(rs@), ts@),
        r <= rs.len(),
{
    proof {
        lemma_insert_pos_range(results_view(rs@), ts@);
    }
    let ghost spec_p = insert_pos(results_view(rs@), ts@);
    let n = rs.len();
    let mut i: usize = 0;
    while i < n && str_le(rs[i].timestamp.as_str(), ts.as_str())
        invariant
            i <= n,
            n == rs.len(),
            forall|j: int|
                0 <= j < i ==> lex_le((#[trigger] results_view(rs@)[j]).timestamp, ts@),
        decreases n - i,
    {
        i = i + 1;
    }
    proof {
        assert(spec_p == i as int) by {
            if spec_p < i as int {
                assert(!lex_le(results_view(rs@)[spec_p].timestamp, ts@));
                assert(lex_le(results_view(rs@)[spec_p].timestamp, ts@));
            }
            if (i as int) < spec_p {
                assert(lex_le(results_view(rs@)[i as int].timestamp, ts@));
            }
        }
    }
    i
}

/// Three results with strictly increasing timestamps, merged in the order
/// second, first, third, come out in timestamp order: first, second, third.
pub proof fn lemma_out_of_order_inserts_sorted(r1: ResultView, r2: ResultView, r3: ResultView)
    requires
        lex_le(r1.timestamp, r2.timestamp),
        r1.timestamp != r2.timestamp,
        lex_le(r2.timestamp, r3.timestamp),
        r2.timestamp != r3.timestamp,
    ensures
        insert_result(insert_result(insert_result(Seq::empty(), r2), r1), r3) == seq![
            r1,
            r2,
            r3,
        ],
{
    let s0 = Seq::<ResultView>::empty();
    assert(insert_pos(s0, r2.timestamp) == 0);
    let s1 = insert_result(s0, r2);
    assert(s1 =~= seq![r2]);
    if lex_le(r2.timestamp, r1.timestamp) {
        lemma_lex_le_antisym(r1.timestamp, r2.timestamp);
    }
    assert(!lex_le(r2.timestamp, r1.timestamp));
    assert(insert_pos(s1, r1.timestamp) == 0);
    let s2 = insert_result(s1, r1);
    assert(s2 =~= seq![r1, r2]);
    lemma_lex_le_trans(r1.timestamp, r2.timestamp, r3.timestamp);
    assert(insert_pos(seq![r2], r3.timestamp) == 1) by {
        assert(seq![r2].skip(1) =~= Seq::<ResultView>::empty());
        assert(insert_pos(Seq::<ResultView>::empty(), r3.timestamp) == 0);
    }
    assert(insert_pos(s2, r3.timestamp) == 2) by {
        assert(s2[0] == r1);
        assert(s2.skip(1) =~= seq![r2]);
    }
    let s3 = insert_result(s2, r3);
    assert(s3 =~= seq![r1, r2, r3]);
}

/// Store entries for one benchmark and one branch with strictly increasing
/// timestamps, scanned in the order second, first, third, aggregate to that
/// branch with its results in timestamp order: first, second, third.
pub proof fn lemma_aggregate_orders_entries(
    e1: EntryView,
    e2: EntryView,
    e3: EntryView,
    b1: BenchView,
    b2: BenchView,
    b3: BenchView,
)
    requires
        parse_entry_spec(e1) == Some(b1),
        parse_entry_spec(e2) == Some(b2),
        parse_entry_spec(e3) == Some(b3),
        single_record(b1),
        single_record(b2),
        single_record(b3),
        b1.name == b2.name && b2.name == b3.name,
        b1.branches[0].name == b2.branches[0].name && b2.branches[0].name == b3.branches[0].name,
        lex_le(b1.branches[0].results[0].timestamp, b2.branches[0].results[0].timestamp),
        b1.branches[0].results[0].timestamp != b2.branches[0].results[0].timestamp,
        lex_le(b2.branches[0].results[0].timestamp, b3.branches[0].results[0].timestamp),
        b2.branches[0].results[0].timestamp != b3.branches[0].results[0].timestamp,
    ensures
        load_spec(seq![e2, e1, e3]) == seq![
            BenchView {
                name: b2.name,
                branches: seq![
                    BranchView {
                        name: b2.branches[0].name,
                        results: seq![
                            b1.branches[0].results[0],
                            b2.branches[0].results[0],
                            b3.branches[0].results[0],
                        ],
                    },
                ],
            },
        ],
{
    let r1 = b1.branches[0].results[0];
    let r2 = b2.branches[0].results[0];
    let r3 = b3.branches[0].results[0];
    let name = b2.name;
    let bn = b2.branches[0].name;
    let es = seq![e2, e1, e3];
    lemma_out_of_order_inserts_sorted(r1, r2, r3);
    let s1 = insert_result(Seq::empty(), r2);
    let s2 = insert_result(s1, r1);
    let s3 = insert_result(s2, r3);
    // the aggregate after the first entry: one branch holding one result
    assert(es.subrange(0, 1).drop_last() =~= Seq::<EntryView>::empty());
    assert(es.subrange(0, 1).last() == e2);
    assert(load_spec(es.subrange(0, 1)) == insert_bench_spec(Seq::empty(), b2)) by {
        assert(load_spec(Seq::<EntryView>::empty()) == Seq::<BenchView>::empty());
    }
    let a1 = insert_bench_spec(Seq::empty(), b2);
    assert(a1 =~= seq![b2]) by {
        lemma_bench_pos_range(Seq::empty(), b2.name);
    }
    // the second entry joins the same benchmark and the same branch
    let a2 = insert_bench_spec(seq![b2], b1);
    assert(bench_pos(seq![b2], name) == 0);
    let merged1 = merge_spec(b2, b1);
    assert(branch_pos(b2.branches, bn) == 0);
    assert(b2.branches[0].results =~= Seq::<ResultView>::empty().subrange(0, 0) + seq![r2]
        + Seq::<ResultView>::empty().subrange(0, 0)) by {
        assert(insert_pos(Seq::<ResultView>::empty(), r2.timestamp) == 0);
    }
    assert(b2.branches[0].results == s1) by {
        assert(s1 =~= seq![r2]);
        assert(b2.branches[0].results =~= seq![r2]);
    }
    assert(merged1.branches =~= seq![BranchView { name: bn, results: s2 }]);
    assert(a2 =~= seq![BenchView { name: name, branches: seq![BranchView { name: bn, results: s2 }] }]) by {
        assert(seq![b2].update(0, merged1)[0] == merged1);
        assert(merged1 =~~= BenchView { name: name, branches: seq![BranchView { name: bn, results: s2 }] });
    }
    // the third entry appends at the end of the ordered results
    let mb = BenchView { name: name, branches: seq![BranchView { name: bn, results: s2 }] };
    let a3 = insert_bench_spec(a2, b3);
    assert(bench_pos(a2, name) == 0) by {
        assert(a2[0].name == name);
    }
    assert(branch_pos(mb.branches, bn) == 0);
    let merged2 = merge_spec(mb, b3);
    assert(merged2.branches =~= seq![BranchView { name: bn, results: s3 }]);
    assert(a3 =~= seq![BenchView { name: name, branches: seq![BranchView { name: bn, results: s3 }] }]) by {
        assert(a2.update(0, merged2)[0] == merged2);
        assert(merged2 =~~= BenchView { name: name, branches: seq![BranchView { name: bn, results: s3 }] });
    }
    // the fold over the three entries takes exactly these three steps
    assert(es.subrange(0, 2).drop_last() =~= es.subrange(0, 1));
    assert(es.subrange(0, 2).last() == e1);
    assert(load_spec(es.subrange(0, 2)) == a2) by {
        assert(a1 == seq![b2]);
    }
    assert(es.drop_last() =~= es.subrange(0, 2));
    assert(es.last() == e3);
    assert(load_spec(es) == a3);
    assert(s3 == seq![r1, r2, r3]);
    assert(a3 == seq![
        BenchView {
            name: name,
            branches: seq![BranchView { name: bn, results: seq![r1, r2, r3] }],
        },
    ]) by {
        assert(a3 =~~= seq![
            BenchView {
                name: name,
                branches: seq![BranchView { name: bn, results: seq![r1, r2, r3] }],
            },
        ]);
    }
}

/// A scan in which no entry stands for a record aggregates to nothing.
pub proof fn lemma_load_nothing(es: Seq<EntryView>)
    requires
        forall|i: int| 0 <= i < es.len() ==> parse_entry_spec(#[trigger] es[i]) is None,
    ensures
        load_spec(es) == Seq::<BenchView>::empty(),
    decreases es.len(),
{
    if es.len() != 0 {
        assert(es.last() == es[es.len() - 1]);
        assert forall|i: int| 0 <= i < es.drop_last().len() implies parse_entry_spec(
            #[trigger] es.drop_last()[i],
        ) is None by {
            assert(es.drop_last()[i] == es[i]);
        }
        lemma_load_nothing(es.drop_last());
    }
}

/// One entry that stands for no record leaves the aggregate exactly as it
/// was; in particular it touches no sibling entry's record.
pub proof fn lemma_malformed_entry_skipped(es: Seq<EntryView>, e: EntryView)
    requires
        parse_entry_spec(e) is None,
    ensures
        load_spec(es.push(e)) == load_spec(es),
{
    assert(es.push(e).len() == es.len() + 1);
    assert(es.push(e).drop_last() =~= es);
    assert(es.push(e).last() == e);
}

} // verus!
