use bench_server::bench::{load, ScanEntry};
use bench_server::jsonout::{benches_to_json, estimates_to_json, results};
use bench_server::measure::{
    parse_measurement, ConfidenceInterval, Estimates, Measurement, Metric,
};

fn entry(branch: &str, dir: &str, name: &str, content: &str) -> ScanEntry {
    ScanEntry {
        branch: branch.to_string(),
        dir: dir.to_string(),
        name: name.to_string(),
        content: content.to_string(),
    }
}

fn metric(pe: &str, se: &str, cl: &str, lb: &str, ub: &str) -> Metric {
    Metric {
        confidence_interval: ConfidenceInterval {
            confidence_level: cl.to_string(),
            lower_bound: lb.to_string(),
            upper_bound: ub.to_string(),
        },
        point_estimate: pe.to_string(),
        standard_error: se.to_string(),
    }
}

fn sample_estimates() -> Estimates {
    Estimates {
        mean: metric("3.141592653589793", "0.01", "0.95", "3.13", "3.15"),
        median: metric("3.14", "0.02", "0.95", "3.10", "3.18"),
        median_abs_dev: metric("0.05", "0.005", "0.95", "0.04", "0.06"),
        slope: metric("3.142", "0.015", "0.95", "3.12", "3.16"),
        std_dev: metric("0.08", "0.008", "0.95", "0.07", "0.09"),
    }
}

#[test]
fn merge_orders_timestamps() {
    // Files inserted in the order T2, T1, T3 come out ordered T1, T2, T3.
    let entries = vec![
        entry("Master", "2024-01-02T00:00:00Z-c2", "fib", "2.0"),
        entry("Master", "2024-01-01T00:00:00Z-c1", "fib", "1.0"),
        entry("Master", "2024-01-03T00:00:00Z-c3", "fib", "3.0"),
    ];
    let benches = load(&entries);
    assert_eq!(benches.len(), 1);
    assert_eq!(benches[0].name, "fib");
    assert_eq!(benches[0].branches.len(), 1);
    let results = &benches[0].branches[0].results;
    assert_eq!(results.len(), 3);
    assert_eq!(results[0].timestamp, "2024-01-01T00:00:00Z");
    assert_eq!(results[1].timestamp, "2024-01-02T00:00:00Z");
    assert_eq!(results[2].timestamp, "2024-01-03T00:00:00Z");
    match &results[0].measurement {
        Measurement::ScalarMean(m) => assert_eq!(m, "1.0"),
        _ => panic!("expected a flat mean"),
    }
}

#[test]
fn empty_store_renders_empty_array() {
    let entries: Vec<ScanEntry> = Vec::new();
    assert_eq!(results(&entries), "[]");
    let benches = load(&entries);
    assert!(benches.is_empty());
}

#[test]
fn malformed_leaf_skipped() {
    // The unparseable middle file affects neither sibling.
    let entries = vec![
        entry("Master", "2024-01-01T00:00:00Z-c1", "fib", "1.5"),
        entry("Master", "2024-01-02T00:00:00Z-c2", "fib", "no measurement here"),
        entry("Master", "2024-01-03T00:00:00Z-c3", "fib", "3.5"),
    ];
    let benches = load(&entries);
    assert_eq!(benches.len(), 1);
    let results = &benches[0].branches[0].results;
    assert_eq!(results.len(), 2);
    assert_eq!(results[0].timestamp, "2024-01-01T00:00:00Z");
    assert_eq!(results[1].timestamp, "2024-01-03T00:00:00Z");
}

#[test]
fn misshapen_directory_skipped() {
    let entries = vec![
        entry("Master", "short", "fib", "1.0"),
        entry("Master", "2024-01+01T00:00:00Z-c1", "fib", "1.0"),
        entry("Master", "2024-01-02T00:00:00Z-c2", "fib", "2.0"),
    ];
    let benches = load(&entries);
    assert_eq!(benches.len(), 1);
    assert_eq!(benches[0].branches[0].results.len(), 1);
    assert_eq!(benches[0].branches[0].results[0].timestamp, "2024-01-02T00:00:00Z");
}

#[test]
fn separate_branches_kept_apart() {
    let entries = vec![
        entry("Master", "2024-01-01T00:00:00Z-c1", "fib", "1.0"),
        entry("Feature (#3)", "2024-01-02T00:00:00Z-c2", "fib", "2.0"),
        entry("Master", "2024-01-03T00:00:00Z-c3", "fact", "3.0"),
    ];
    let benches = load(&entries);
    assert_eq!(benches.len(), 2);
    assert_eq!(benches[0].name, "fib");
    assert_eq!(benches[0].branches.len(), 2);
    assert_eq!(benches[0].branches[0].name, "Master");
    assert_eq!(benches[0].branches[1].name, "Feature (#3)");
    assert_eq!(benches[1].name, "fact");
}

#[test]
fn equal_timestamps_keep_insertion_order() {
    let entries = vec![
        entry("Master", "2024-01-01T00:00:00Z-c1", "fib", "1.0"),
        entry("Master", "2024-01-01T00:00:00Z-c2", "fib", "2.0"),
    ];
    let benches = load(&entries);
    let results = &benches[0].branches[0].results;
    assert_eq!(results.len(), 2);
    match (&results[0].measurement, &results[1].measurement) {
        (Measurement::ScalarMean(a), Measurement::ScalarMean(b)) => {
            assert_eq!(a, "1.0");
            assert_eq!(b, "2.0");
        }
        _ => panic!("expected flat means"),
    }
}

#[test]
fn estimates_document_parsed() {
    let content = estimates_to_json(&sample_estimates());
    let entries = vec![entry("Master", "2024-01-01T00:00:00Z-c1", "fib", &content)];
    let benches = load(&entries);
    assert_eq!(benches.len(), 1);
    match &benches[0].branches[0].results[0].measurement {
        Measurement::Estimate(e) => {
            assert_eq!(e.mean.point_estimate, "3.141592653589793");
            assert_eq!(e.std_dev.confidence_interval.upper_bound, "0.09");
        }
        _ => panic!("expected a structured estimate"),
    }
}

#[test]
fn measurement_round_trip() {
    // Serializing the estimate document and parsing it back loses nothing.
    let original = sample_estimates();
    let rendered = estimates_to_json(&original);
    match parse_measurement(&rendered) {
        Some(Measurement::Estimate(e)) => {
            assert_eq!(e.mean.point_estimate, original.mean.point_estimate);
            assert_eq!(e.mean.standard_error, original.mean.standard_error);
            assert_eq!(
                e.mean.confidence_interval.confidence_level,
                original.mean.confidence_interval.confidence_level
            );
            assert_eq!(
                e.mean.confidence_interval.lower_bound,
                original.mean.confidence_interval.lower_bound
            );
            assert_eq!(
                e.mean.confidence_interval.upper_bound,
                original.mean.confidence_interval.upper_bound
            );
            assert_eq!(e.median.point_estimate, original.median.point_estimate);
            assert_eq!(e.median_abs_dev.point_estimate, original.median_abs_dev.point_estimate);
            assert_eq!(e.slope.point_estimate, original.slope.point_estimate);
            assert_eq!(e.std_dev.point_estimate, original.std_dev.point_estimate);
        }
        _ => panic!("expected the structured estimate back"),
    }
}

#[test]
fn flat_mean_with_trailing_unit_parsed() {
    match parse_measurement("12.5 ns") {
        Some(Measurement::ScalarMean(m)) => assert_eq!(m, "12.5"),
        _ => panic!("expected a flat mean"),
    }
}

#[test]
fn whitespace_edges_tolerated() {
    let content = format!("\n  {}\n", estimates_to_json(&sample_estimates()));
    assert!(matches!(parse_measurement(&content), Some(Measurement::Estimate(_))));
}

#[test]
fn bench_json_round_trip() {
    // The rendered document parses as JSON and preserves benchmark name,
    // branch name, timestamp and the numeric mean to full precision.
    let content = estimates_to_json(&sample_estimates());
    let entries = vec![entry("Master", "2024-01-01T00:00:00Z-c1", "fib \"fast\"", &content)];
    let benches = load(&entries);
    let rendered = benches_to_json(&benches);
    let parsed: serde_json::Value = serde_json::from_str(&rendered).unwrap();
    let bench = &parsed.as_array().unwrap()[0];
    assert_eq!(bench["name"].as_str().unwrap(), "fib \"fast\"");
    let branch = &bench["branches"].as_array().unwrap()[0];
    assert_eq!(branch["name"].as_str().unwrap(), "Master");
    let result = &branch["results"].as_array().unwrap()[0];
    assert_eq!(result["timestamp"].as_str().unwrap(), "2024-01-01T00:00:00Z");
    assert_eq!(
        result["Mean"]["point_estimate"].as_f64().unwrap(),
        3.141592653589793_f64
    );
    assert_eq!(result["Mean"]["confidence_interval"]["confidence_level"].as_f64().unwrap(), 0.95);
}

#[test]
fn names_with_special_characters_escaped() {
    let entries = vec![entry("br\\anch\t\"x\"", "2024-01-01T00:00:00Z-c1", "na\nme", "1.0")];
    let rendered = results(&entries);
    let parsed: serde_json::Value = serde_json::from_str(&rendered).unwrap();
    assert_eq!(parsed[0]["name"].as_str().unwrap(), "na\nme");
    assert_eq!(
        parsed[0]["branches"][0]["name"].as_str().unwrap(),
        "br\\anch\t\"x\""
    );
}

#[test]
fn scalar_mean_rendered_as_mean_member() {
    let entries = vec![entry("Master", "2024-01-01T00:00:00Z-c1", "fib", "2.5")];
    let rendered = results(&entries);
    let parsed: serde_json::Value = serde_json::from_str(&rendered).unwrap();
    let result = &parsed[0]["branches"][0]["results"][0];
    assert_eq!(result["timestamp"].as_str().unwrap(), "2024-01-01T00:00:00Z");
    assert_eq!(result["mean"].as_f64().unwrap(), 2.5);
}
