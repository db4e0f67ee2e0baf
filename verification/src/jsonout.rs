use vstd::prelude::*;

use crate::bench::Bench;
use crate::bench::BenchView;
use crate::bench::Branch;
use crate::bench::BranchView;
use crate::bench::BenchResult;
use crate::bench::ResultView;
use crate::bench::ScanEntry;
use crate::bench::benches_view;
use crate::bench::branches_view;
use crate::bench::entries_view;
use crate::bench::load;
use crate::bench::load_spec;
use crate::bench::results_view;
use crate::measure::ConfidenceInterval;
use crate::measure::CiView;
use crate::measure::Estimates;
use crate::measure::EstimatesView;
use crate::measure::Metric;
use crate::measure::MetricView;
use crate::measure::MeasurementView;
use crate::strutil::digit_char;

verus! {

// Rendering the aggregate as the JSON document the read endpoint serves:
// an array of benchmarks, each with its branches, each with its time-ordered
// results. Number texts are emitted verbatim, so nothing of their precision
// is lost; names pass through JSON string escaping.

/// The hexadecimal digit character for `d`.
pub open spec fn hex_char(d: int) -> char {
    if d < 10 {
        digit_char(d)
    } else if d == 10 {
        'a'
    } else if d == 11 {
        'b'
    } else if d == 12 {
        'c'
    } else if d == 13 {
        'd'
    } else if d == 14 {
        'e'
    } else {
        'f'
    }
}

/// Maps a value below 16 to its hexadecimal digit character.
pub fn hex_char_exec(d: u32) -> (r: char)
    requires
        d < 16,
    ensures
        r == hex_char(d as int),
{
    if d == 0 {
        '0'
    } else if d == 1 {
        '1'
    } else if d == 2 {
        '2'
    } else if d == 3 {
        '3'
    } else if d == 4 {
        '4'
    } else if d == 5 {
        '5'
    } else if d == 6 {
        '6'
    } else if d == 7 {
        '7'
    } else if d == 8 {
        '8'
    } else if d == 9 {
        '9'
    } else if d == 10 {
        'a'
    } else if d == 11 {
        'b'
    } else if d == 12 {
        'c'
    } else if d == 13 {
        'd'
    } else if d == 14 {
        'e'
    } else {
        'f'
    }
}

/// How one character is written inside a JSON string: quote and backslash
/// get a backslash escape, the common control characters their short escape,
/// other control characters a `\u00XX` escape, everything else itself.
pub open spec fn json_escape_char(c: char) -> Seq<char> {
    if c == '"' {
        seq!['\\', '"']
    } else if c == '\\' {
        seq!['\\', '\\']
    } else if c == '\n' {
        seq!['\\', 'n']
    } else if c == '\r' {
        seq!['\\', 'r']
    } else if c == '\t' {
        seq!['\\', 't']
    } else if (c as int) < 0x20 {
        seq!['\\', 'u', '0', '0', hex_char((c as int) / 16), hex_char((c as int) % 16)]
    } else {
        seq![c]
    }
}

/// The body of a JSON string: each character escaped in order.
pub open spec fn json_escaped(s: Seq<char>) -> Seq<char>
    decreases s.len(),
{
    if s.len() == 0 {
        Seq::empty()
    } else {
        json_escaped(s.drop_last()) + json_escape_char(s.last())
    }
}

/// A JSON string: the escaped body between quotes.
pub open spec fn json_string_of(s: Seq<char>) -> Seq<char> {
    seq!['"'] + json_escaped(s) + seq!['"']
}

/// Appends the escape of one character.
pub fn push_escaped_char(out: &mut String, c: char)
    ensures
        final(out)@ == old(out)@ + json_escape_char(c),
{
    if c == '"' {
        out.push('\\');
        out.push('"');
    } else if c == '\\' {
        out.push('\\');
        out.push('\\');
    } else if c == '\n' {
        out.push('\\');
        out.push('n');
    } else if c == '\r' {
        out.push('\\');
        out.push('r');
    } else if c == '\t' {
        out.push('\\');
        out.push('t');
    } else if (c as u32) < 0x20 {
        out.push('\\');
        out.push('u');
        out.push('0');
        out.push('0');
        out.push(hex_char_exec((c as u32) / 16));
        out.push(hex_char_exec((c as u32) % 16));
    } else {
        out.push(c);
    }
    proof {
        assert(out@ =~= old(out)@ + json_escape_char(c));
    }
}

/// Appends `s` as a JSON string.
pub fn push_json_string(out: &mut String, s: &str)
    ensures
        final(out)@ == old(out)@ + json_string_of(s@),
{
    out.push('"');
    let len = s.unicode_len();
    let mut i: usize = 0;
    proof {
        assert(s@.subrange(0, 0) =~= Seq::<char>::empty());
        assert(out@ =~= old(out)@ + seq!['"'] + json_escaped(s@.subrange(0, 0)));
    }
    while i < len
        invariant
            i <= len,
            len == s@.len(),
            out@ == old(out)@ + seq!['"'] + json_escaped(s@.subrange(0, i as int)),
        decreases len - i,
    {
        let c = s.get_char(i);
        push_escaped_char(out, c);
        proof {
            assert(s@.subrange(0, i as int + 1).drop_last() =~= s@.subrange(0, i as int));
            assert(s@.subrange(0, i as int + 1).last() == c);
            assert(out@ =~= old(out)@ + seq!['"'] + json_escaped(s@.subrange(0, i as int + 1)));
        }
        i = i + 1;
    }
    out.push('"');
    proof {
        assert(s@.subrange(0, len as int) =~= s@);
        assert(out@ =~= old(out)@ + json_string_of(s@));
    }
}

/// The JSON object of a confidence interval.
pub open spec fn json_of_ci(ci: CiView) -> Seq<char> {
    "{\"confidence_level\":"@ + ci.confidence_level + ",\"lower_bound\":"@ + ci.lower_bound
        + ",\"upper_bound\":"@ + ci.upper_bound + "}"@
}

/// Appends the JSON object of a confidence interval.
pub fn push_ci_json(out: &mut String, ci: &ConfidenceInterval)
    ensures
        final(out)@ == old(out)@ + json_of_ci(ci@),
{
    out.append("{\"confidence_level\":");
    out.append(ci.confidence_level.as_str());
    out.append(",\"lower_bound\":");
    out.append(ci.lower_bound.as_str());
    out.append(",\"upper_bound\":");
    out.append(ci.upper_bound.as_str());
    out.append("}");
    proof {
        assert(out@ =~= old(out)@ + json_of_ci(ci@));
    }
}

/// The JSON object of a metric.
pub open spec fn json_of_metric(m: MetricView) -> Seq<char> {
    "{\"confidence_interval\":"@ + json_of_ci(m.confidence_interval) + ",\"point_estimate\":"@
        + m.point_estimate + ",\"standard_error\":"@ + m.standard_error + "}"@
}

/// Appends the JSON object of a metric.
pub fn push_metric_json(out: &mut String, m: &Metric)
    ensures
        final(out)@ == old(out)@ + json_of_metric(m@),
{
    out.append("{\"confidence_interval\":");
    push_ci_json(out, &m.confidence_interval);
    out.append(",\"point_estimate\":");
    out.append(m.point_estimate.as_str());
    out.append(",\"standard_error\":");
    out.append(m.standard_error.as_str());
    out.append("}");
    proof {
        assert(out@ =~= old(out)@ + json_of_metric(m@));
    }
}

/// The members of the estimate document: the five metrics, keyed and in
/// fixed order.
pub open spec fn json_of_estimates_fields(e: EstimatesView) -> Seq<char> {
    "\"Mean\":"@ + json_of_metric(e.mean) + ",\"Median\":"@ + json_of_metric(e.median)
        + ",\"MedianAbsDev\":"@ + json_of_metric(e.median_abs_dev) + ",\"Slope\":"@
        + json_of_metric(e.slope) + ",\"StdDev\":"@ + json_of_metric(e.std_dev)
}

/// Appends the members of the estimate document.
pub fn push_estimates_fields(out: &mut String, e: &Estimates)
    ensures
        final(out)@ == old(out)@ + json_of_estimates_fields(e@),
{
    out.append("\"Mean\":");
    push_metric_json(out, &e.mean);
    out.append(",\"Median\":");
    push_metric_json(out, &e.median);
    out.append(",\"MedianAbsDev\":");
    push_metric_json(out, &e.median_abs_dev);
    out.append(",\"Slope\":");
    push_metric_json(out, &e.slope);
    out.append(",\"StdDev\":");
    push_metric_json(out, &e.std_dev);
    proof {
        assert(out@ =~= old(out)@ + json_of_estimates_fields(e@));
    }
}

/// The whole structured estimate document, as the result store holds it.
pub open spec fn json_of_estimates_doc(e: EstimatesView) -> Seq<char> {
    "{"@ + json_of_estimates_fields(e) + "}"@
}

/// Renders the structured estimate document a store leaf file holds.
pub fn estimates_to_json(e: &Estimates) -> (r: String)
    ensures
        r@ == json_of_estimates_doc(e@),
{
    let mut out = String::new();
    out.append("{");
    push_estimates_fields(&mut out, e);
    out.append("}");
    proof {
        assert(out@ =~= json_of_estimates_doc(e@));
    }
    out
}

/// The JSON object of one result: its timestamp, then either the estimate
/// members spliced in beside it, or the flat mean.
pub open spec fn json_of_result(r: ResultView) -> Seq<char> {
    match r.measurement {
        MeasurementView::Estimate(e) => "{\"timestamp\":"@ + json_string_of(r.timestamp) + ","@
            + json_of_estimates_fields(e) + "}"@,
        MeasurementView::ScalarMean(m) => "{\"timestamp\":"@ + json_string_of(r.timestamp)
            + ",\"mean\":"@ + m + "}"@,
    }
}

/// Appends the JSON object of one result.
pub fn push_result_json(out: &mut String, r: &BenchResult)
    ensures
        final(out)@ == old(out)@ + json_of_result(r@),
{
    out.append("{\"timestamp\":");
    push_json_string(out, r.timestamp.as_str());
    match &r.measurement {
        crate::measure::Measurement::Estimate(e) => {
            out.append(",");
            push_estimates_fields(out, e);
            out.append("}");
        },
        crate::measure::Measurement::ScalarMean(m) => {
            out.append(",\"mean\":");
            out.append(m.as_str());
            out.append("}");
        },
    }
    proof {
        assert(out@ =~= old(out)@ + json_of_result(r@));
    }
}

/// The comma-joined JSON objects of a result sequence.
pub open spec fn json_of_results(rs: Seq<ResultView>) -> Seq<char>
    decreases rs.len(),
{
    if rs.len() == 0 {
        Seq::empty()
    } else if rs.len() == 1 {
        json_of_result(rs[0])
    } else {
        json_of_results(rs.drop_last()) + ","@ + json_of_result(rs.last())
    }
}

/// Appends the comma-joined JSON objects of all results.
pub fn push_results_json(out: &mut String, rs: &Vec<BenchResult>)
    ensures
        final(out)@ == old(out)@ + json_of_results(results_view(rs@)),
{
    let ghost rv = results_view(rs@);
    let n = rs.len();
    let mut i: usize = 0;
    proof {
        assert(rv.subrange(0, 0) =~= Seq::<ResultView>::empty());
    }
    while i < n
        invariant
            i <= n,
            n == rs.len(),
            rv == results_view(rs@),
            out@ == old(out)@ + json_of_results(rv.subrange(0, i as int)),
        decreases n - i,
    {
        if i > 0 {
            out.append(",");
        }
        push_result_json(out, &rs[i]);
        proof {
            assert(rv.subrange(0, i as int + 1).drop_last() =~= rv.subrange(0, i as int));
            assert(rv.subrange(0, i as int + 1).last() == rv[i as int]);
            assert(rv[i as int] == rs@[i as int]@);
            assert(out@ =~= old(out)@ + json_of_results(rv.subrange(0, i as int + 1)));
        }
        i = i + 1;
    }
    proof {
        assert(rv.subrange(0, n as int) =~= rv);
    }
}

/// The JSON object of one branch.
pub open spec fn json_of_branch(b: BranchView) -> Seq<char> {
    "{\"name\":"@ + json_string_of(b.name) + ",\"results\":["@ + json_of_results(b.results)
        + "]}"@
}

/// Appends the JSON object of one branch.
pub fn push_branch_json(out: &mut String, b: &Branch)
    ensures
        final(out)@ == old(out)@ + json_of_branch(b@),
{
    out.append("{\"name\":");
    push_json_string(out, b.name.as_str());
    out.append(",\"results\":[");
    push_results_json(out, &b.results);
    out.append("]}");
    proof {
        assert(out@ =~= old(out)@ + json_of_branch(b@));
    }
}

/// The comma-joined JSON objects of a branch sequence.
pub open spec fn json_of_branches(bs: Seq<BranchView>) -> Seq<char>
    decreases bs.len(),
{
    if bs.len() == 0 {
        Seq::empty()
    } else if bs.len() == 1 {
        json_of_branch(bs[0])
    } else {
        json_of_branches(bs.drop_last()) + ","@ + json_of_branch(bs.last())
    }
}

/// Appends the comma-joined JSON objects of all branches.
pub fn push_branches_json(out: &mut String, bs: &Vec<Branch>)
    ensures
        final(out)@ == old(out)@ + json_of_branches(branches_view(bs@)),
{
    let ghost bv = branches_view(bs@);
    let n = bs.len();
    let mut i: usize = 0;
    proof {
        assert(bv.subrange(0, 0) =~= Seq::<BranchView>::empty());
    }
    while i < n
        invariant
            i <= n,
            n == bs.len(),
            bv == branches_view(bs@),
            out@ == old(out)@ + json_of_branches(bv.subrange(0, i as int)),
        decreases n - i,
    {
        if i > 0 {
            out.append(",");
        }
        push_branch_json(out, &bs[i]);
        proof {
            assert(bv.subrange(0, i as int + 1).drop_last() =~= bv.subrange(0, i as int));
            assert(bv.subrange(0, i as int + 1).last() == bv[i as int]);
            assert(bv[i as int] == bs@[i as int]@);
            assert(out@ =~= old(out)@ + json_of_branches(bv.subrange(0, i as int + 1)));
        }
        i = i + 1;
    }
    proof {
        assert(bv.subrange(0, n as int) =~= bv);
    }
}

/// The JSON object of one benchmark.
pub open spec fn json_of_bench(b: BenchView) -> Seq<char> {
    "{\"name\":"@ + json_string_of(b.name) + ",\"branches\":["@ + json_of_branches(b.branches)
        + "]}"@
}

/// Appends the JSON object of one benchmark.
pub fn push_bench_json(out: &mut String, b: &Bench)
    ensures
        final(out)@ == old(out)@ + json_of_bench(b@),
{
    out.append("{\"name\":");
    push_json_string(out, b.name.as_str());
    out.append(",\"branches\":[");
    push_branches_json(out, &b.branches);
    out.append("]}");
    proof {
        assert(out@ =~= old(out)@ + json_of_bench(b@));
    }
}

/// The comma-joined JSON objects of all benchmarks; between brackets it is
/// the whole response document.
pub open spec fn json_of_benches_inner(bs: Seq<BenchView>) -> Seq<char>
    decreases bs.len(),
{
    if bs.len() == 0 {
        Seq::empty()
    } else if bs.len() == 1 {
        json_of_bench(bs[0])
    } else {
        json_of_benches_inner(bs.drop_last()) + ","@ + json_of_bench(bs.last())
    }
}

/// Renders the whole aggregate as the JSON array the read endpoint serves.
pub fn benches_to_json(benches: &Vec<Bench>) -> (r: String)
    ensures
        r@ == "["@ + json_of_benches_inner(benches_view(benches@)) + "]"@,
{
    let ghost bv = benches_view(benches@);
    let mut out = String::new();
    out.append("[");
    let n = benches.len();
    let mut i: usize = 0;
    proof {
        assert(bv.subrange(0, 0) =~= Seq::<BenchView>::empty());
        assert(out@ =~= "["@ + json_of_benches_inner(bv.subrange(0, 0)));
    }
    while i < n
        invariant
            i <= n,
            n == benches.len(),
            bv == benches_view(benches@),
            out@ == "["@ + json_of_benches_inner(bv.subrange(0, i as int)),
        decreases n - i,
    {
        if i > 0 {
            out.append(",");
        }
        push_bench_json(&mut out, &benches[i]);
        proof {
            assert(bv.subrange(0, i as int + 1).drop_last() =~= bv.subrange(0, i as int));
            assert(bv.subrange(0, i as int + 1).last() == bv[i as int]);
            assert(bv[i as int] == benches@[i as int]@);
            assert(out@ =~= "["@ + json_of_benches_inner(bv.subrange(0, i as int + 1)));
        }
        i = i + 1;
    }
    out.append("]");
    proof {
        assert(bv.subrange(0, n as int) =~= bv);
        assert(out@ =~= "["@ + json_of_benches_inner(bv) + "]"@);
    }
    out
}

/// A confidence-interval object embedded verbatim at `i` parses back to the
/// very same interval.
#[verifier::rlimit(100)]
pub proof fn lemma_parse_ci_at(s: Seq<char>, i: int, ci: CiView)
    requires
        crate::measure::ci_wf(ci),
        0 <= i,
        i + json_of_ci(ci).len() <= s.len(),
        s.subrange(i, i + json_of_ci(ci).len()) == json_of_ci(ci),
    ensures
        crate::measure::parse_ci_spec(s, i) == Some((ci, i + json_of_ci(ci).len())),
{
    reveal_strlit("{\"confidence_level\":");
    reveal_strlit(",\"lower_bound\":");
    reveal_strlit(",\"upper_bound\":");
    reveal_strlit("}");
    let j = json_of_ci(ci);
    let len = j.len() as int;
    let l1 = "{\"confidence_level\":"@;
    let l2 = ",\"lower_bound\":"@;
    let l3 = ",\"upper_bound\":"@;
    let rb = "}"@;
    let cl = ci.confidence_level;
    let lb = ci.lower_bound;
    let ub = ci.upper_bound;
    assert forall|k: int| 0 <= k < len implies s[i + k] == j[k] by {
        assert(s.subrange(i, i + len)[k] == s[i + k]);
    }
    crate::strutil::lemma_concat7(l1, cl, l2, lb, l3, ub, rb);
    assert(j == l1 + cl + l2 + lb + l3 + ub + rb);
    let p1 = i + l1.len() as int;
    let p2 = p1 + cl.len() as int;
    let p3 = p2 + l2.len() as int;
    let p4 = p3 + lb.len() as int;
    let p5 = p4 + l3.len() as int;
    let p6 = p5 + ub.len() as int;
    assert(s.subrange(i, p1) =~= l1);
    crate::measure::lemma_lit_end_here(s, i, l1);
    assert forall|k: int| 0 <= k < cl.len() implies s.subrange(p1, p2)[k] == cl[k] by {
        assert(j[l1.len() + k] == cl[k]);
        assert(s[i + (l1.len() + k)] == j[l1.len() + k]);
    }
    assert(s.subrange(p1, p2) =~= cl);
    assert(s[p2] == l2[0]) by {
        assert(j[l1.len() + cl.len() + (0 as int)] == l2[0]);
    }
    crate::measure::lemma_number_end_local(s, p1, cl);
    assert forall|k: int| 0 <= k < l2.len() implies s.subrange(p2, p3)[k] == l2[k] by {
        assert(j[l1.len() + cl.len() + k] == l2[k]);
        assert(s[i + (l1.len() + cl.len() + k)] == j[l1.len() + cl.len() + k]);
    }
    assert(s.subrange(p2, p3) =~= l2);
    crate::measure::lemma_lit_end_here(s, p2, l2);
    assert forall|k: int| 0 <= k < lb.len() implies s.subrange(p3, p4)[k] == lb[k] by {
        assert(j[l1.len() + cl.len() + l2.len() + k] == lb[k]);
        assert(s[i + (l1.len() + cl.len() + l2.len() + k)] == j[l1.len() + cl.len() + l2.len()
            + k]);
    }
    assert(s.subrange(p3, p4) =~= lb);
    assert(s[p4] == l3[0]) by {
        assert(j[l1.len() + cl.len() + l2.len() + lb.len() + (0 as int)] == l3[0]);
    }
    crate::measure::lemma_number_end_local(s, p3, lb);
    assert forall|k: int| 0 <= k < l3.len() implies s.subrange(p4, p5)[k] == l3[k] by {
        assert(j[l1.len() + cl.len() + l2.len() + lb.len() + k] == l3[k]);
        assert(s[i + (l1.len() + cl.len() + l2.len() + lb.len() + k)] == j[l1.len() + cl.len()
            + l2.len() + lb.len() + k]);
    }
    assert(s.subrange(p4, p5) =~= l3);
    crate::measure::lemma_lit_end_here(s, p4, l3);
    assert forall|k: int| 0 <= k < ub.len() implies s.subrange(p5, p6)[k] == ub[k] by {
        assert(j[l1.len() + cl.len() + l2.len() + lb.len() + l3.len() + k] == ub[k]);
        assert(s[i + (l1.len() + cl.len() + l2.len() + lb.len() + l3.len() + k)] == j[l1.len()
            + cl.len() + l2.len() + lb.len() + l3.len() + k]);
    }
    assert(s.subrange(p5, p6) =~= ub);
    assert(s[p6] == rb[0]) by {
        assert(j[l1.len() + cl.len() + l2.len() + lb.len() + l3.len() + ub.len() + (0 as int)] == rb[0]);
    }
    crate::measure::lemma_number_end_local(s, p5, ub);
    assert forall|k: int| 0 <= k < rb.len() implies s.subrange(p6, i + len)[k] == rb[k] by {
        assert(j[l1.len() + cl.len() + l2.len() + lb.len() + l3.len() + ub.len() + k] == rb[k]);
        assert(s[i + (l1.len() + cl.len() + l2.len() + lb.len() + l3.len() + ub.len() + k)]
            == j[l1.len() + cl.len() + l2.len() + lb.len() + l3.len() + ub.len() + k]);
    }
    assert(s.subrange(p6, i + len) =~= rb);
    crate::measure::lemma_lit_end_here(s, p6, rb);
    assert(crate::measure::parse_ci_spec(s, i) == Some((ci, i + len)));
}

/// A metric object embedded verbatim at `i` parses back to the very same
/// metric.
#[verifier::rlimit(100)]
pub proof fn lemma_parse_metric_at(s: Seq<char>, i: int, m: MetricView)
    requires
        crate::measure::metric_wf(m),
        0 <= i,
        i + json_of_metric(m).len() <= s.len(),
        s.subrange(i, i + json_of_metric(m).len()) == json_of_metric(m),
    ensures
        crate::measure::parse_metric_spec(s, i) == Some((m, i + json_of_metric(m).len())),
{
    reveal_strlit("{\"confidence_interval\":");
    reveal_strlit(",\"point_estimate\":");
    reveal_strlit(",\"standard_error\":");
    reveal_strlit("}");
    let j = json_of_metric(m);
    let len = j.len() as int;
    let l1 = "{\"confidence_interval\":"@;
    let l2 = ",\"point_estimate\":"@;
    let l3 = ",\"standard_error\":"@;
    let rb = "}"@;
    let jci = json_of_ci(m.confidence_interval);
    let pe = m.point_estimate;
    let se = m.standard_error;
    assert forall|k: int| 0 <= k < len implies s[i + k] == j[k] by {
        assert(s.subrange(i, i + len)[k] == s[i + k]);
    }
    crate::strutil::lemma_concat7(l1, jci, l2, pe, l3, se, rb);
    assert(j == l1 + jci + l2 + pe + l3 + se + rb);
    let p1 = i + l1.len() as int;
    let p2 = p1 + jci.len() as int;
    let p3 = p2 + l2.len() as int;
    let p4 = p3 + pe.len() as int;
    let p5 = p4 + l3.len() as int;
    let p6 = p5 + se.len() as int;
    assert(s.subrange(i, p1) =~= l1);
    crate::measure::lemma_lit_end_here(s, i, l1);
    assert forall|k: int| 0 <= k < jci.len() implies s.subrange(p1, p2)[k] == jci[k] by {
        assert(j[l1.len() + k] == jci[k]);
        assert(s[i + (l1.len() + k)] == j[l1.len() + k]);
    }
    assert(s.subrange(p1, p2) =~= jci);
    lemma_parse_ci_at(s, p1, m.confidence_interval);
    assert forall|k: int| 0 <= k < l2.len() implies s.subrange(p2, p3)[k] == l2[k] by {
        assert(j[l1.len() + jci.len() + k] == l2[k]);
        assert(s[i + (l1.len() + jci.len() + k)] == j[l1.len() + jci.len() + k]);
    }
    assert(s.subrange(p2, p3) =~= l2);
    crate::measure::lemma_lit_end_here(s, p2, l2);
    assert forall|k: int| 0 <= k < pe.len() implies s.subrange(p3, p4)[k] == pe[k] by {
        assert(j[l1.len() + jci.len() + l2.len() + k] == pe[k]);
        assert(s[i + (l1.len() + jci.len() + l2.len() + k)] == j[l1.len() + jci.len() + l2.len()
            + k]);
    }
    assert(s.subrange(p3, p4) =~= pe);
    assert(s[p4] == l3[0]) by {
        assert(j[l1.len() + jci.len() + l2.len() + pe.len() + (0 as int)] == l3[0]);
    }
    crate::measure::lemma_number_end_local(s, p3, pe);
    assert forall|k: int| 0 <= k < l3.len() implies s.subrange(p4, p5)[k] == l3[k] by {
        assert(j[l1.len() + jci.len() + l2.len() + pe.len() + k] == l3[k]);
        assert(s[i + (l1.len() + jci.len() + l2.len() + pe.len() + k)] == j[l1.len() + jci.len()
            + l2.len() + pe.len() + k]);
    }
    assert(s.subrange(p4, p5) =~= l3);
    crate::measure::lemma_lit_end_here(s, p4, l3);
    assert forall|k: int| 0 <= k < se.len() implies s.subrange(p5, p6)[k] == se[k] by {
        assert(j[l1.len() + jci.len() + l2.len() + pe.len() + l3.len() + k] == se[k]);
        assert(s[i + (l1.len() + jci.len() + l2.len() + pe.len() + l3.len() + k)] == j[l1.len()
            + jci.len() + l2.len() + pe.len() + l3.len() + k]);
    }
    assert(s.subrange(p5, p6) =~= se);
    assert(s[p6] == rb[0]) by {
        assert(j[l1.len() + jci.len() + l2.len() + pe.len() + l3.len() + se.len() + (0 as int)]
            == rb[0]);
    }
    crate::measure::lemma_number_end_local(s, p5, se);
    assert forall|k: int| 0 <= k < rb.len() implies s.subrange(p6, i + len)[k] == rb[k] by {
        assert(j[l1.len() + jci.len() + l2.len() + pe.len() + l3.len() + se.len() + k] == rb[k]);
        assert(s[i + (l1.len() + jci.len() + l2.len() + pe.len() + l3.len() + se.len() + k)]
            == j[l1.len() + jci.len() + l2.len() + pe.len() + l3.len() + se.len() + k]);
    }
    assert(s.subrange(p6, i + len) =~= rb);
    crate::measure::lemma_lit_end_here(s, p6, rb);
    assert(crate::measure::parse_metric_spec(s, i) == Some((m, i + len)));
}

/// A scan in which no entry stands for a record renders as the empty array.
pub proof fn lemma_empty_scan_renders_empty_array(es: Seq<crate::bench::EntryView>)
    requires
        forall|i: int| 0 <= i < es.len() ==> crate::bench::parse_entry_spec(#[trigger] es[i]) is None,
    ensures
        "["@ + json_of_benches_inner(load_spec(es)) + "]"@ == "[]"@,
{
    reveal_strlit("[");
    reveal_strlit("]");
    reveal_strlit("[]");
    crate::bench::lemma_load_nothing(es);
    assert(json_of_benches_inner(load_spec(es)) =~= Seq::<char>::empty());
    assert("["@ + json_of_benches_inner(load_spec(es)) + "]"@ =~= "[]"@);
}

/// Round trip of the store's document format: a well-formed estimate
/// document, rendered and parsed back, is preserved exactly.
#[verifier::rlimit(100)]
pub proof fn lemma_estimates_round_trip(e: EstimatesView)
    requires
        crate::measure::estimates_wf(e),
    ensures
        crate::measure::parse_estimates_spec(json_of_estimates_doc(e)) == Some(e),
{
    reveal_strlit("{");
    reveal_strlit("}");
    reveal_strlit("{\"Mean\":");
    reveal_strlit("\"Mean\":");
    reveal_strlit(",\"Median\":");
    reveal_strlit(",\"MedianAbsDev\":");
    reveal_strlit(",\"Slope\":");
    reveal_strlit(",\"StdDev\":");
    let d = json_of_estimates_doc(e);
    let f = json_of_estimates_fields(e);
    let lb = "{"@;
    let rb = "}"@;
    let f1 = "\"Mean\":"@;
    let f2 = ",\"Median\":"@;
    let f3 = ",\"MedianAbsDev\":"@;
    let f4 = ",\"Slope\":"@;
    let f5 = ",\"StdDev\":"@;
    let m1 = json_of_metric(e.mean);
    let m2 = json_of_metric(e.median);
    let m3 = json_of_metric(e.median_abs_dev);
    let m4 = json_of_metric(e.slope);
    let m5 = json_of_metric(e.std_dev);
    crate::strutil::lemma_concat3(lb, f, rb);
    assert(d == lb + f + rb);
    crate::strutil::lemma_concat10(f1, m1, f2, m2, f3, m3, f4, m4, f5, m5);
    assert(f == f1 + m1 + f2 + m2 + f3 + m3 + f4 + m4 + f5 + m5);
    assert forall|k: int| 0 <= k < f.len() implies d[1 + k] == f[k] by {
        assert((lb + f + rb)[lb.len() + k] == f[k]);
    }
    assert(d[0] == '{') by {
        assert((lb + f + rb)[(0 as int) + (0 as int)] == lb[0]);
    }
    assert(d.len() == 1 + f.len() + 1);
    // no whitespace opens the document
    assert(crate::measure::ws_end(d, 0) == 0);
    // the opening brace and the first key form the first literal
    let l0 = "{\"Mean\":"@;
    assert(l0.len() == 1 + f1.len());
    assert forall|k: int| 0 <= k < l0.len() implies d.subrange(0, l0.len() as int)[k] == l0[k] by {
        if k >= 1 {
            assert(f[(0 as int) + (k - 1)] == f1[k - 1]);
            assert(d[1 + (k - 1)] == f[k - 1]);
        }
    }
    assert(d.subrange(0, l0.len() as int) =~= l0);
    crate::measure::lemma_lit_end_here(d, 0, l0);
    let q1 = l0.len() as int;
    let q2 = q1 + m1.len() as int;
    let q3 = q2 + f2.len() as int;
    let q4 = q3 + m2.len() as int;
    let q5 = q4 + f3.len() as int;
    let q6 = q5 + m3.len() as int;
    let q7 = q6 + f4.len() as int;
    let q8 = q7 + m4.len() as int;
    let q9 = q8 + f5.len() as int;
    let q10 = q9 + m5.len() as int;
    // each metric and each key stands verbatim at its position
    assert forall|k: int| 0 <= k < m1.len() implies d.subrange(q1, q2)[k] == m1[k] by {
        assert(f[f1.len() + k] == m1[k]);
        assert(d[1 + (f1.len() + k)] == f[f1.len() + k]);
    }
    assert(d.subrange(q1, q2) =~= m1);
    lemma_parse_metric_at(d, q1, e.mean);
    assert forall|k: int| 0 <= k < f2.len() implies d.subrange(q2, q3)[k] == f2[k] by {
        assert(f[f1.len() + m1.len() + k] == f2[k]);
        assert(d[1 + (f1.len() + m1.len() + k)] == f[f1.len() + m1.len() + k]);
    }
    assert(d.subrange(q2, q3) =~= f2);
    crate::measure::lemma_lit_end_here(d, q2, f2);
    assert forall|k: int| 0 <= k < m2.len() implies d.subrange(q3, q4)[k] == m2[k] by {
        assert(f[f1.len() + m1.len() + f2.len() + k] == m2[k]);
        assert(d[1 + (f1.len() + m1.len() + f2.len() + k)] == f[f1.len() + m1.len() + f2.len()
            + k]);
    }
    assert(d.subrange(q3, q4) =~= m2);
    lemma_parse_metric_at(d, q3, e.median);
    assert forall|k: int| 0 <= k < f3.len() implies d.subrange(q4, q5)[k] == f3[k] by {
        assert(f[f1.len() + m1.len() + f2.len() + m2.len() + k] == f3[k]);
        assert(d[1 + (f1.len() + m1.len() + f2.len() + m2.len() + k)] == f[f1.len() + m1.len()
            + f2.len() + m2.len() + k]);
    }
    assert(d.subrange(q4, q5) =~= f3);
    crate::measure::lemma_lit_end_here(d, q4, f3);
    assert forall|k: int| 0 <= k < m3.len() implies d.subrange(q5, q6)[k] == m3[k] by {
        assert(f[f1.len() + m1.len() + f2.len() + m2.len() + f3.len() + k] == m3[k]);
        assert(d[1 + (f1.len() + m1.len() + f2.len() + m2.len() + f3.len() + k)] == f[f1.len()
            + m1.len() + f2.len() + m2.len() + f3.len() + k]);
    }
    assert(d.subrange(q5, q6) =~= m3);
    lemma_parse_metric_at(d, q5, e.median_abs_dev);
    assert forall|k: int| 0 <= k < f4.len() implies d.subrange(q6, q7)[k] == f4[k] by {
        assert(f[f1.len() + m1.len() + f2.len() + m2.len() + f3.len() + m3.len() + k] == f4[k]);
        assert(d[1 + (f1.len() + m1.len() + f2.len() + m2.len() + f3.len() + m3.len() + k)]
            == f[f1.len() + m1.len() + f2.len() + m2.len() + f3.len() + m3.len() + k]);
    }
    assert(d.subrange(q6, q7) =~= f4);
    crate::measure::lemma_lit_end_here(d, q6, f4);
    assert forall|k: int| 0 <= k < m4.len() implies d.subrange(q7, q8)[k] == m4[k] by {
        assert(f[f1.len() + m1.len() + f2.len() + m2.len() + f3.len() + m3.len() + f4.len() + k]
            == m4[k]);
        assert(d[1 + (f1.len() + m1.len() + f2.len() + m2.len() + f3.len() + m3.len() + f4.len()
            + k)] == f[f1.len() + m1.len() + f2.len() + m2.len() + f3.len() + m3.len() + f4.len()
            + k]);
    }
    assert(d.subrange(q7, q8) =~= m4);
    lemma_parse_metric_at(d, q7, e.slope);
    assert forall|k: int| 0 <= k < f5.len() implies d.subrange(q8, q9)[k] == f5[k] by {
        assert(f[f1.len() + m1.len() + f2.len() + m2.len() + f3.len() + m3.len() + f4.len()
            + m4.len() + k] == f5[k]);
        assert(d[1 + (f1.len() + m1.len() + f2.len() + m2.len() + f3.len() + m3.len() + f4.len()
            + m4.len() + k)] == f[f1.len() + m1.len() + f2.len() + m2.len() + f3.len() + m3.len()
            + f4.len() + m4.len() + k]);
    }
    assert(d.subrange(q8, q9) =~= f5);
    crate::measure::lemma_lit_end_here(d, q8, f5);
    assert forall|k: int| 0 <= k < m5.len() implies d.subrange(q9, q10)[k] == m5[k] by {
        assert(f[f1.len() + m1.len() + f2.len() + m2.len() + f3.len() + m3.len() + f4.len()
            + m4.len() + f5.len() + k] == m5[k]);
        assert(d[1 + (f1.len() + m1.len() + f2.len() + m2.len() + f3.len() + m3.len() + f4.len()
            + m4.len() + f5.len() + k)] == f[f1.len() + m1.len() + f2.len() + m2.len() + f3.len()
            + m3.len() + f4.len() + m4.len() + f5.len() + k]);
    }
    assert(d.subrange(q9, q10) =~= m5);
    lemma_parse_metric_at(d, q9, e.std_dev);
    assert(q10 == 1 + f.len());
    assert forall|k: int| 0 <= k < rb.len() implies d.subrange(q10, q10 + rb.len() as int)[k]
        == rb[k] by {
        assert((lb + f + rb)[lb.len() + f.len() + k] == rb[k]);
    }
    assert(d.subrange(q10, q10 + rb.len() as int) =~= rb);
    crate::measure::lemma_lit_end_here(d, q10, rb);
    // nothing follows the closing brace
    assert(crate::measure::ws_end(d, q10 + 1) == d.len());
    assert(EstimatesView {
        mean: e.mean,
        median: e.median,
        median_abs_dev: e.median_abs_dev,
        slope: e.slope,
        std_dev: e.std_dev,
    } =~= e);
    assert(crate::measure::parse_estimates_spec(d) == Some(e));
}

/// The full measurement round trip: a rendered well-formed estimate document
/// parses back as the very same structured measurement.
pub proof fn lemma_measurement_round_trip(e: EstimatesView)
    requires
        crate::measure::estimates_wf(e),
    ensures
        crate::measure::parse_measurement_spec(json_of_estimates_doc(e)) == Some(
            MeasurementView::Estimate(e),
        ),
{
    lemma_estimates_round_trip(e);
}

/// Serves the read endpoint: aggregates the scanned entries and renders the
/// JSON document.
pub fn results(entries: &Vec<ScanEntry>) -> (r: String)
    ensures
        r@ == "["@ + json_of_benches_inner(load_spec(entries_view(entries@))) + "]"@,
{
    let benches = load(entries);
    benches_to_json(&benches)
}

} // verus!
