use vstd::prelude::*;

use crate::strutil::is_digit;
use crate::strutil::is_digit_exec;

verus! {

// A measurement file holds one benchmark measurement. Two formats exist: the
// structured estimate document (compact JSON, fixed key order, as the
// benchmark runner writes it) and a legacy flat form whose leading numeric
// field is the mean. Numbers are kept verbatim as their source text, so the
// aggregate loses no precision.

/// A confidence interval; each field holds a number verbatim.
pub struct ConfidenceInterval {
    pub confidence_level: String,
    pub lower_bound: String,
    pub upper_bound: String,
}

/// One statistical metric: a point estimate with its standard error and
/// confidence interval, each number verbatim.
pub struct Metric {
    pub confidence_interval: ConfidenceInterval,
    pub point_estimate: String,
    pub standard_error: String,
}

/// The structured estimate document: one metric per summary statistic.
pub struct Estimates {
    pub mean: Metric,
    pub median: Metric,
    pub median_abs_dev: Metric,
    pub slope: Metric,
    pub std_dev: Metric,
}

/// A parsed measurement: either a structured estimate document or a flat
/// numeric mean.
pub enum Measurement {
    Estimate(Estimates),
    ScalarMean(String),
}

/// Mathematical model of `ConfidenceInterval`.
#[verifier::ext_equal]
pub ghost struct CiView {
    pub confidence_level: Seq<char>,
    pub lower_bound: Seq<char>,
    pub upper_bound: Seq<char>,
}

/// Mathematical model of `Metric`.
#[verifier::ext_equal]
pub ghost struct MetricView {
    pub confidence_interval: CiView,
    pub point_estimate: Seq<char>,
    pub standard_error: Seq<char>,
}

/// Mathematical model of `Estimates`.
#[verifier::ext_equal]
pub ghost struct EstimatesView {
    pub mean: MetricView,
    pub median: MetricView,
    pub median_abs_dev: MetricView,
    pub slope: MetricView,
    pub std_dev: MetricView,
}

/// Mathematical model of `Measurement`.
#[verifier::ext_equal]
pub ghost enum MeasurementView {
    Estimate(EstimatesView),
    ScalarMean(Seq<char>),
}

impl View for ConfidenceInterval {
    type V = CiView;

    open spec fn view(&self) -> CiView {
        CiView {
            confidence_level: self.confidence_level@,
            lower_bound: self.lower_bound@,
            upper_bound: self.upper_bound@,
        }
    }
}

impl View for Metric {
    type V = MetricView;

    open spec fn view(&self) -> MetricView {
        MetricView {
            confidence_interval: self.confidence_interval@,
            point_estimate: self.point_estimate@,
            standard_error: self.standard_error@,
        }
    }
}

impl View for Estimates {
    type V = EstimatesView;

    open spec fn view(&self) -> EstimatesView {
        EstimatesView {
            mean: self.mean@,
            median: self.median@,
            median_abs_dev: self.median_abs_dev@,
            slope: self.slope@,
            std_dev: self.std_dev@,
        }
    }
}

impl View for Measurement {
    type V = MeasurementView;

    open spec fn view(&self) -> MeasurementView {
        match self {
            Measurement::Estimate(e) => MeasurementView::Estimate(e@),
            Measurement::ScalarMean(m) => MeasurementView::ScalarMean(m@),
        }
    }
}

/// JSON insignificant whitespace.
pub open spec fn is_ws(c: char) -> bool {
    c == ' ' || c == '\t' || c == '\n' || c == '\r'
}

/// Decides `is_ws`.
pub fn is_ws_exec(c: char) -> (r: bool)
    ensures
        r == is_ws(c),
{
    c == ' ' || c == '\t' || c == '\n' || c == '\r'
}

/// The first position at or after `i` holding no whitespace.
pub open spec fn ws_end(s: Seq<char>, i: int) -> int
    decreases s.len() - i,
{
    if 0 <= i < s.len() && is_ws(s[i]) {
        ws_end(s, i + 1)
    } else {
        i
    }
}

pub proof fn lemma_ws_end_bounds(s: Seq<char>, i: int)
    requires
        0 <= i <= s.len(),
    ensures
        i <= ws_end(s, i) <= s.len(),
    decreases s.len() - i,
{
    if i < s.len() && is_ws(s[i]) {
        lemma_ws_end_bounds(s, i + 1);
    }
}

/// Advances past whitespace.
pub fn skip_ws(s: &str, i: usize) -> (r: usize)
    requires
        i <= s@.len(),
    ensures
        r as int == ws_end(s@, i as int),
        i <= r <= s@.len(),
{
    let len = s.unicode_len();
    let mut j = i;
    while j < len && is_ws_exec(s.get_char(j))
        invariant
            i <= j <= len,
            len == s@.len(),
            ws_end(s@, i as int) == ws_end(s@, j as int),
        decreases len - j,
    {
        j = j + 1;
    }
    proof {
        lemma_ws_end_bounds(s@, j as int);
    }
    j
}

/// The first position at or after `i` holding no decimal digit.
pub open spec fn digits_end(s: Seq<char>, i: int) -> int
    decreases s.len() - i,
{
    if 0 <= i < s.len() && is_digit(s[i]) {
        digits_end(s, i + 1)
    } else {
        i
    }
}

pub proof fn lemma_digits_end_bounds(s: Seq<char>, i: int)
    requires
        0 <= i <= s.len(),
    ensures
        i <= digits_end(s, i) <= s.len(),
    decreases s.len() - i,
{
    if i < s.len() && is_digit(s[i]) {
        lemma_digits_end_bounds(s, i + 1);
    }
}

/// Advances past decimal digits.
pub fn skip_digits(s: &str, i: usize) -> (r: usize)
    requires
        i <= s@.len(),
    ensures
        r as int == digits_end(s@, i as int),
        i <= r <= s@.len(),
{
    let len = s.unicode_len();
    let mut j = i;
    while j < len && is_digit_exec(s.get_char(j))
        invariant
            i <= j <= len,
            len == s@.len(),
            digits_end(s@, i as int) == digits_end(s@, j as int),
        decreases len - j,
    {
        j = j + 1;
    }
    proof {
        lemma_digits_end_bounds(s@, j as int);
    }
    j
}

/// The position just past `lit` when `s` carries `lit` verbatim at `i`.
pub open spec fn lit_end(s: Seq<char>, i: int, lit: Seq<char>) -> Option<int> {
    if 0 <= i && i + lit.len() <= s.len() && s.subrange(i, i + lit.len()) == lit {
        Some(i + lit.len())
    } else {
        None
    }
}

/// Matches `lit` verbatim at position `i` of `s`.
pub fn match_lit(s: &str, i: usize, lit: &str) -> (r: Option<usize>)
    requires
        i <= s@.len(),
    ensures
        (match r {
            Some(j) => lit_end(s@, i as int, lit@) == Some(j as int) && i <= j <= s@.len(),
            None => lit_end(s@, i as int, lit@) is None,
        }),
{
    let s_len = s.unicode_len();
    let lit_len = lit.unicode_len();
    if s_len - i < lit_len {
        return None;
    }
    let mut j: usize = 0;
    while j < lit_len
        invariant
            0 <= j <= lit_len,
            i + lit_len <= s_len,
            s_len == s@.len(),
            lit_len == lit@.len(),
            forall|k: int| 0 <= k < j ==> s@[i + k] == lit@[k],
        decreases lit_len - j,
    {
        if s.get_char(i + j) != lit.get_char(j) {
            assert(s@[i as int + j as int] != lit@[j as int]);
            assert(s@.subrange(i as int, i as int + lit@.len()) != lit@) by {
                let sub = s@.subrange(i as int, i as int + lit@.len());
                assert(sub[j as int] == s@[i as int + j as int]);
            }
            return None;
        }
        j = j + 1;
    }
    assert(s@.subrange(i as int, i as int + lit@.len()) =~= lit@);
    Some(i + lit_len)
}

/// The position just past the JSON number starting at `i`, when there is one:
/// an optional minus sign, an integer part, an optional fraction, an optional
/// exponent.
pub open spec fn number_end(s: Seq<char>, i: int) -> Option<int> {
    let start = if 0 <= i < s.len() && s[i] == '-' {
        i + 1
    } else {
        i
    };
    let ip_end = digits_end(s, start);
    if ip_end == start {
        None
    } else {
        let frac_end = if ip_end < s.len() && s[ip_end] == '.' {
            if digits_end(s, ip_end + 1) > ip_end + 1 {
                digits_end(s, ip_end + 1)
            } else {
                -1
            }
        } else {
            ip_end
        };
        if frac_end < 0 {
            None
        } else {
            if frac_end < s.len() && (s[frac_end] == 'e' || s[frac_end] == 'E') {
                let exp_start = if frac_end + 1 < s.len() && (s[frac_end + 1] == '+' || s[frac_end
                    + 1] == '-') {
                    frac_end + 2
                } else {
                    frac_end + 1
                };
                if digits_end(s, exp_start) > exp_start {
                    Some(digits_end(s, exp_start))
                } else {
                    None
                }
            } else {
                Some(frac_end)
            }
        }
    }
}

pub proof fn lemma_number_end_bounds(s: Seq<char>, i: int)
    requires
        0 <= i <= s.len(),
        number_end(s, i) is Some,
    ensures
        i <= number_end(s, i).unwrap() <= s.len(),
{
    let start = if i < s.len() && s[i] == '-' {
        i + 1
    } else {
        i
    };
    lemma_digits_end_bounds(s, start);
    let ip_end = digits_end(s, start);
    if ip_end < s.len() && s[ip_end] == '.' {
        lemma_digits_end_bounds(s, ip_end + 1);
    }
    let frac_end = if ip_end < s.len() && s[ip_end] == '.' {
        if digits_end(s, ip_end + 1) > ip_end + 1 {
            digits_end(s, ip_end + 1)
        } else {
            -1
        }
    } else {
        ip_end
    };
    if 0 <= frac_end && frac_end < s.len() && (s[frac_end] == 'e' || s[frac_end] == 'E') {
        let exp_start = if frac_end + 1 < s.len() && (s[frac_end + 1] == '+' || s[frac_end + 1]
            == '-') {
            frac_end + 2
        } else {
            frac_end + 1
        };
        lemma_digits_end_bounds(s, exp_start);
    }
}

/// The text of the JSON number starting at `i`, with the position just past
/// it.
pub open spec fn number_span(s: Seq<char>, i: int) -> Option<(Seq<char>, int)> {
    match number_end(s, i) {
        Some(e) => Some((s.subrange(i, e), e)),
        None => None,
    }
}

/// Parses the JSON number starting at `i`, returning its verbatim text and
/// the position just past it.
pub fn parse_number(s: &str, i: usize) -> (r: Option<(String, usize)>)
    requires
        i <= s@.len(),
    ensures
        (match r {
            Some(p) => number_span(s@, i as int) == Some((p.0@, p.1 as int)) && i <= p.1
                <= s@.len(),
            None => number_span(s@, i as int) is None,
        }),
{
    let s_len = s.unicode_len();
    let start = if i < s_len && s.get_char(i) == '-' {
        i + 1
    } else {
        i
    };
    let ip_end = skip_digits(s, start);
    if ip_end == start {
        return None;
    }
    let frac_end = if ip_end < s_len && s.get_char(ip_end) == '.' {
        let f = skip_digits(s, ip_end + 1);
        if f > ip_end + 1 {
            f
        } else {
            return None;
        }
    } else {
        ip_end
    };
    let e: usize;
    if frac_end < s_len && (s.get_char(frac_end) == 'e' || s.get_char(frac_end) == 'E') {
        let exp_start = if frac_end + 1 < s_len && (s.get_char(frac_end + 1) == '+' || s.get_char(
            frac_end + 1,
        ) == '-') {
            frac_end + 2
        } else {
            frac_end + 1
        };
        let exp_end = skip_digits(s, exp_start);
        if exp_end > exp_start {
            e = exp_end;
        } else {
            return None;
        }
    } else {
        e = frac_end;
    }
    let text = s.substring_char(i, e).to_owned();
    Some((text, e))
}

/// The confidence-interval object starting at `i`: compact JSON, fixed key
/// order.
pub open spec fn parse_ci_spec(s: Seq<char>, i: int) -> Option<(CiView, int)> {
    match lit_end(s, i, "{\"confidence_level\":"@) {
        None => None,
        Some(p1) => match number_span(s, p1) {
            None => None,
            Some((cl, p2)) => match lit_end(s, p2, ",\"lower_bound\":"@) {
                None => None,
                Some(p3) => match number_span(s, p3) {
                    None => None,
                    Some((lb, p4)) => match lit_end(s, p4, ",\"upper_bound\":"@) {
                        None => None,
                        Some(p5) => match number_span(s, p5) {
                            None => None,
                            Some((ub, p6)) => match lit_end(s, p6, "}"@) {
                                None => None,
                                Some(p7) => Some(
                                    (
                                        CiView {
                                            confidence_level: cl,
                                            lower_bound: lb,
                                            upper_bound: ub,
                                        },
                                        p7,
                                    ),
                                ),
                            },
                        },
                    },
                },
            },
        },
    }
}

/// Parses the confidence-interval object starting at `i`.
pub fn parse_ci(s: &str, i: usize) -> (r: Option<(ConfidenceInterval, usize)>)
    requires
        i <= s@.len(),
    ensures
        (match r {
            Some(p) => parse_ci_spec(s@, i as int) == Some((p.0@, p.1 as int)) && p.1 <= s@.len(),
            None => parse_ci_spec(s@, i as int) is None,
        }),
{
    let p1 = match match_lit(s, i, "{\"confidence_level\":") {
        Some(p) => p,
        None => {
            return None;
        },
    };
    let (cl, p2) = match parse_number(s, p1) {
        Some(p) => p,
        None => {
            return None;
        },
    };
    let p3 = match match_lit(s, p2, ",\"lower_bound\":") {
        Some(p) => p,
        None => {
            return None;
        },
    };
    let (lb, p4) = match parse_number(s, p3) {
        Some(p) => p,
        None => {
            return None;
        },
    };
    let p5 = match match_lit(s, p4, ",\"upper_bound\":") {
        Some(p) => p,
        None => {
            return None;
        },
    };
    let (ub, p6) = match parse_number(s, p5) {
        Some(p) => p,
        None => {
            return None;
        },
    };
    let p7 = match match_lit(s, p6, "}") {
        Some(p) => p,
        None => {
            return None;
        },
    };
    Some((ConfidenceInterval { confidence_level: cl, lower_bound: lb, upper_bound: ub }, p7))
}

/// The metric object starting at `i`: compact JSON, fixed key order.
pub open spec fn parse_metric_spec(s: Seq<char>, i: int) -> Option<(MetricView, int)> {
    match lit_end(s, i, "{\"confidence_interval\":"@) {
        None => None,
        Some(p1) => match parse_ci_spec(s, p1) {
            None => None,
            Some((ci, p2)) => match lit_end(s, p2, ",\"point_estimate\":"@) {
                None => None,
                Some(p3) => match number_span(s, p3) {
                    None => None,
                    Some((pe, p4)) => match lit_end(s, p4, ",\"standard_error\":"@) {
                        None => None,
                        Some(p5) => match number_span(s, p5) {
                            None => None,
                            Some((se, p6)) => match lit_end(s, p6, "}"@) {
                                None => None,
                                Some(p7) => Some(
                                    (
                                        MetricView {
                                            confidence_interval: ci,
                                            point_estimate: pe,
                                            standard_error: se,
                                        },
                                        p7,
                                    ),
                                ),
                            },
                        },
                    },
                },
            },
        },
    }
}

/// Parses the metric object starting at `i`.
pub fn parse_metric(s: &str, i: usize) -> (r: Option<(Metric, usize)>)
    requires
        i <= s@.len(),
    ensures
        (match r {
            Some(p) => parse_metric_spec(s@, i as int) == Some((p.0@, p.1 as int)) && p.1
                <= s@.len(),
            None => parse_metric_spec(s@, i as int) is None,
        }),
{
    let p1 = match match_lit(s, i, "{\"confidence_interval\":") {
        Some(p) => p,
        None => {
            return None;
        },
    };
    let (ci, p2) = match parse_ci(s, p1) {
        Some(p) => p,
        None => {
            return None;
        },
    };
    let p3 = match match_lit(s, p2, ",\"point_estimate\":") {
        Some(p) => p,
        None => {
            return None;
        },
    };
    let (pe, p4) = match parse_number(s, p3) {
        Some(p) => p,
        None => {
            return None;
        },
    };
    let p5 = match match_lit(s, p4, ",\"standard_error\":") {
        Some(p) => p,
        None => {
            return None;
        },
    };
    let (se, p6) = match parse_number(s, p5) {
        Some(p) => p,
        None => {
            return None;
        },
    };
    let p7 = match match_lit(s, p6, "}") {
        Some(p) => p,
        None => {
            return None;
        },
    };
    Some((Metric { confidence_interval: ci, point_estimate: pe, standard_error: se }, p7))
}

/// The whole structured estimate document: edge whitespace, then one compact
/// JSON object holding the five metrics in fixed order, then edge whitespace
/// to the end of the content.
pub open spec fn parse_estimates_spec(s: Seq<char>) -> Option<EstimatesView> {
    let i0 = ws_end(s, 0);
    match lit_end(s, i0, "{\"Mean\":"@) {
        None => None,
        Some(p1) => match parse_metric_spec(s, p1) {
            None => None,
            Some((mean, p2)) => match lit_end(s, p2, ",\"Median\":"@) {
                None => None,
                Some(p3) => match parse_metric_spec(s, p3) {
                    None => None,
                    Some((median, p4)) => match lit_end(s, p4, ",\"MedianAbsDev\":"@) {
                        None => None,
                        Some(p5) => match parse_metric_spec(s, p5) {
                            None => None,
                            Some((mad, p6)) => match lit_end(s, p6, ",\"Slope\":"@) {
                                None => None,
                                Some(p7) => match parse_metric_spec(s, p7) {
                                    None => None,
                                    Some((slope, p8)) => match lit_end(s, p8, ",\"StdDev\":"@) {
                                        None => None,
                                        Some(p9) => match parse_metric_spec(s, p9) {
                                            None => None,
                                            Some((sd, p10)) => match lit_end(s, p10, "}"@) {
                                                None => None,
                                                Some(p11) => if ws_end(s, p11) == s.len() {
                                                    Some(
                                                        EstimatesView {
                                                            mean: mean,
                                                            median: median,
                                                            median_abs_dev: mad,
                                                            slope: slope,
                                                            std_dev: sd,
                                                        },
                                                    )
                                                } else {
                                                    None
                                                },
                                            },
                                        },
                                    },
                                },
                            },
                        },
                    },
                },
            },
        },
    }
}

/// Parses a whole structured estimate document.
pub fn parse_estimates(s: &str) -> (r: Option<Estimates>)
    ensures
        (match r {
            Some(e) => parse_estimates_spec(s@) == Some(e@),
            None => parse_estimates_spec(s@) is None,
        }),
{
    let i0 = skip_ws(s, 0);
    let p1 = match match_lit(s, i0, "{\"Mean\":") {
        Some(p) => p,
        None => {
            return None;
        },
    };
    let (mean, p2) = match parse_metric(s, p1) {
        Some(p) => p,
        None => {
            return None;
        },
    };
    let p3 = match match_lit(s, p2, ",\"Median\":") {
        Some(p) => p,
        None => {
            return None;
        },
    };
    let (median, p4) = match parse_metric(s, p3) {
        Some(p) => p,
        None => {
            return None;
        },
    };
    let p5 = match match_lit(s, p4, ",\"MedianAbsDev\":") {
        Some(p) => p,
        None => {
            return None;
        },
    };
    let (mad, p6) = match parse_metric(s, p5) {
        Some(p) => p,
        None => {
            return None;
        },
    };
    let p7 = match match_lit(s, p6, ",\"Slope\":") {
        Some(p) => p,
        None => {
            return None;
        },
    };
    let (slope, p8) = match parse_metric(s, p7) {
        Some(p) => p,
        None => {
            return None;
        },
    };
    let p9 = match match_lit(s, p8, ",\"StdDev\":") {
        Some(p) => p,
        None => {
            return None;
        },
    };
    let (sd, p10) = match parse_metric(s, p9) {
        Some(p) => p,
        None => {
            return None;
        },
    };
    let p11 = match match_lit(s, p10, "}") {
        Some(p) => p,
        None => {
            return None;
        },
    };
    let tail = skip_ws(s, p11);
    if tail != s.unicode_len() {
        return None;
    }
    Some(
        Estimates {
            mean: mean,
            median: median,
            median_abs_dev: mad,
            slope: slope,
            std_dev: sd,
        },
    )
}

/// The flat legacy form: after edge whitespace, the leading numeric field is
/// the mean; anything after the number is ignored.
pub open spec fn parse_flat_spec(s: Seq<char>) -> Option<Seq<char>> {
    let i0 = ws_end(s, 0);
    match number_span(s, i0) {
        Some((t, _)) => Some(t),
        None => None,
    }
}

/// Parses the flat legacy form.
pub fn parse_flat(s: &str) -> (r: Option<String>)
    ensures
        (match r {
            Some(t) => parse_flat_spec(s@) == Some(t@),
            None => parse_flat_spec(s@) is None,
        }),
{
    let i0 = skip_ws(s, 0);
    match parse_number(s, i0) {
        Some((t, _)) => Some(t),
        None => None,
    }
}

/// The measurement held by a leaf file: the structured estimate document is
/// attempted first, then the flat form; content matching neither is rejected.
pub open spec fn parse_measurement_spec(s: Seq<char>) -> Option<MeasurementView> {
    match parse_estimates_spec(s) {
        Some(e) => Some(MeasurementView::Estimate(e)),
        None => match parse_flat_spec(s) {
            Some(t) => Some(MeasurementView::ScalarMean(t)),
            None => None,
        },
    }
}

/// A complete number text: the number grammar consumes it exactly.
pub open spec fn is_number_text(t: Seq<char>) -> bool {
    number_end(t, 0) == Some(t.len() as int)
}

/// A number text begins with a minus sign or a digit.
pub proof fn lemma_number_text_head(m: Seq<char>)
    requires
        is_number_text(m),
    ensures
        m.len() > 0,
        is_digit(m[0]) || m[0] == '-',
{
    if m.len() == 0 {
        assert(digits_end(m, 0) == 0);
    }
    if !(is_digit(m[0]) || m[0] == '-') {
        assert(digits_end(m, 0) == 0);
    }
}

/// A well-formed confidence interval: every field is a complete number text.
pub open spec fn ci_wf(ci: CiView) -> bool {
    &&& is_number_text(ci.confidence_level)
    &&& is_number_text(ci.lower_bound)
    &&& is_number_text(ci.upper_bound)
}

/// A well-formed metric: every field is a complete number text.
pub open spec fn metric_wf(m: MetricView) -> bool {
    &&& ci_wf(m.confidence_interval)
    &&& is_number_text(m.point_estimate)
    &&& is_number_text(m.standard_error)
}

/// A well-formed estimate document: every metric is well-formed.
pub open spec fn estimates_wf(e: EstimatesView) -> bool {
    &&& metric_wf(e.mean)
    &&& metric_wf(e.median)
    &&& metric_wf(e.median_abs_dev)
    &&& metric_wf(e.slope)
    &&& metric_wf(e.std_dev)
}

/// A literal that stands verbatim at `i` matches there.
pub proof fn lemma_lit_end_here(s: Seq<char>, i: int, lit: Seq<char>)
    requires
        0 <= i,
        i + lit.len() <= s.len(),
        s.subrange(i, i + lit.len()) == lit,
    ensures
        lit_end(s, i, lit) == Some(i + lit.len()),
{
}

/// A character that could extend a number text to its right.
pub open spec fn extends_number(c: char) -> bool {
    is_digit(c) || c == '.' || c == 'e' || c == 'E'
}

/// Digit runs are local: a digit scan inside an embedded text stops where
/// the text's own scan stops, provided no digit follows the text.
pub proof fn lemma_digits_end_local(s: Seq<char>, i: int, t: Seq<char>, k: int)
    requires
        0 <= i,
        i + t.len() <= s.len(),
        s.subrange(i, i + t.len()) == t,
        0 <= k <= t.len(),
        i + t.len() == s.len() || !is_digit(s[i + t.len()]),
    ensures
        digits_end(s, i + k) == i + digits_end(t, k),
    decreases t.len() - k,
{
    if k < t.len() {
        assert(s[i + k] == t[k]) by {
            assert(s.subrange(i, i + t.len())[k] == s[i + k]);
        }
        if is_digit(t[k]) {
            lemma_digits_end_local(s, i, t, k + 1);
        }
    }
}

/// Number parsing is local: a complete number text embedded in a larger
/// text, followed by nothing that could extend it, parses to exactly its own
/// span.
pub proof fn lemma_number_end_local(s: Seq<char>, i: int, t: Seq<char>)
    requires
        is_number_text(t),
        0 <= i,
        i + t.len() <= s.len(),
        s.subrange(i, i + t.len()) == t,
        i + t.len() == s.len() || !extends_number(s[i + t.len()]),
    ensures
        number_end(s, i) == Some(i + t.len()),
        number_span(s, i) == Some((t, i + t.len())),
{
    let n = t.len() as int;
    assert forall|k: int| 0 <= k < n implies s[i + k] == t[k] by {
        assert(s.subrange(i, i + n)[k] == s[i + k]);
    }
    lemma_number_text_head(t);
    let start_t: int = if t[0] == '-' {
        1
    } else {
        0
    };
    assert(s[i] == t[0]);
    lemma_digits_end_local(s, i, t, start_t);
    let ip_t = digits_end(t, start_t);
    lemma_digits_end_bounds(t, start_t);
    assert(ip_t != start_t);
    assert(digits_end(s, i + start_t) == i + ip_t);
    let frac_t: int = if ip_t < n && t[ip_t] == '.' {
        if digits_end(t, ip_t + 1) > ip_t + 1 {
            digits_end(t, ip_t + 1)
        } else {
            -1
        }
    } else {
        ip_t
    };
    assert(frac_t >= 0);
    if ip_t < n && t[ip_t] == '.' {
        lemma_digits_end_local(s, i, t, ip_t + 1);
        lemma_digits_end_bounds(t, ip_t + 1);
    }
    // the fraction decision is the same on both sides
    if ip_t == n {
        assert(frac_t == n);
        assert(i + n == s.len() || !(s[i + n] == '.'));
    } else {
        assert(s[i + ip_t] == t[ip_t]);
    }
    if frac_t == n {
        // the text ends after the fraction; nothing on the outside starts an
        // exponent
        assert(i + n == s.len() || !(s[i + n] == 'e' || s[i + n] == 'E'));
        assert(number_end(t, 0) == Some(frac_t));
        assert(number_end(s, i) == Some(i + frac_t));
    } else {
        // the text goes on with an exponent, or it would have ended early
        assert(frac_t < n);
        assert(s[i + frac_t] == t[frac_t]);
        assert(t[frac_t] == 'e' || t[frac_t] == 'E');
        let exp_start_t: int = if frac_t + 1 < n && (t[frac_t + 1] == '+' || t[frac_t + 1]
            == '-') {
            frac_t + 2
        } else {
            frac_t + 1
        };
        if frac_t + 1 == n {
            lemma_digits_end_bounds(t, exp_start_t);
            assert(false);
        }
        assert(frac_t + 1 < n);
        assert(s[i + frac_t + 1] == t[frac_t + 1]);
        lemma_digits_end_local(s, i, t, exp_start_t);
        lemma_digits_end_bounds(t, exp_start_t);
        let de_t = digits_end(t, exp_start_t);
        assert(de_t > exp_start_t && de_t == n);
        assert(number_end(s, i) == Some(i + n));
    }
    assert(s.subrange(i, i + n) == t);
}

/// A document holding exactly one number text parses back to the very same
/// scalar mean.
pub proof fn lemma_scalar_round_trip(m: Seq<char>)
    requires
        is_number_text(m),
    ensures
        parse_measurement_spec(m) == Some(MeasurementView::ScalarMean(m)),
{
    reveal_strlit("{\"Mean\":");
    lemma_number_text_head(m);
    assert(ws_end(m, 0) == 0);
    assert(parse_estimates_spec(m) is None) by {
        let lit = "{\"Mean\":"@;
        assert(lit.len() == 8);
        assert(lit[0] == '{');
        if lit_end(m, 0, lit) is Some {
            assert(m.subrange(0, 8)[0] == m[0]);
        }
    }
    assert(number_span(m, 0) == Some((m.subrange(0, m.len() as int), m.len() as int)));
    assert(m.subrange(0, m.len() as int) =~= m);
}

/// Parses the content of a leaf measurement file.
pub fn parse_measurement(s: &str) -> (r: Option<Measurement>)
    ensures
        (match r {
            Some(m) => parse_measurement_spec(s@) == Some(m@),
            None => parse_measurement_spec(s@) is None,
        }),
{
    match parse_estimates(s) {
        Some(e) => Some(Measurement::Estimate(e)),
        None => match parse_flat(s) {
            Some(t) => Some(Measurement::ScalarMean(t)),
            None => None,
        },
    }
}

} // verus!
