use backyard::bench::{bench_extra, bench_iterations, percentile_index, Attempt, BenchTally, Stat};
use backyard::memory::vmrss_kb_text;
use backyard::orchestrator::engine_spec;
use backyard::text::{
    first_lines, hex_encode, lines_of, parse_unsigned_upto, runs_of, split_by_class, trimmed,
    trimmed_class, u64_to_decimal, CharClass,
};

#[test]
fn iterations_are_clamped() {
    assert_eq!(bench_iterations(0), 1);
    assert_eq!(bench_iterations(1), 1);
    assert_eq!(bench_iterations(5), 5);
    assert_eq!(bench_iterations(100), 100);
    assert_eq!(bench_iterations(1000), 100);
}

#[test]
fn tally_counts_outcomes() {
    let mut t = BenchTally::new(4);
    t.record(Attempt::HttpError);
    t.record(Attempt::Streamed { first_chunk: true });
    t.record(Attempt::Completed { completion_tokens: 10, positive_latency: true });
    t.record(Attempt::Completed { completion_tokens: 0, positive_latency: true });
    assert_eq!((t.attempts, t.failures, t.latencies, t.ttfts, t.rates), (4, 1, 3, 1, 1));
    assert_eq!(t.successes(), 3);
    let names: Vec<&str> = t.report().iter().map(|r| r.metric).collect();
    assert_eq!(
        names,
        vec!["latency_ms", "latency_p50_ms", "latency_p95_ms", "tg_tps", "ttft_ms", "ttft_p50_ms", "tps", "success_rate"]
    );
}

#[test]
fn all_failed_reports_only_success_rate() {
    let mut t = BenchTally::new(2);
    t.record(Attempt::RequestError);
    t.record(Attempt::HttpError);
    assert_eq!(t.successes(), 0);
    let r = t.report();
    assert_eq!(r.len(), 1);
    assert_eq!(r[0].metric, "success_rate");
    assert_eq!(r[0].unit, None);
    assert_eq!(r[0].stat, Stat::SuccessRate);
}

#[test]
fn stream_without_chunks_reports_latency_only() {
    let mut t = BenchTally::new(1);
    t.record(Attempt::Streamed { first_chunk: false });
    let r = t.report();
    let names: Vec<&str> = r.iter().map(|x| x.metric).collect();
    assert_eq!(names, vec!["latency_ms", "latency_p50_ms", "latency_p95_ms", "tg_tps", "success_rate"]);
    assert_eq!(r[3].unit, Some("tok/s"));
    assert_eq!(r[3].stat, Stat::RateLegacy);
}

#[test]
fn percentile_matches_rounded_position() {
    assert_eq!(percentile_index(1, 50), 0);
    assert_eq!(percentile_index(2, 50), 1);
    assert_eq!(percentile_index(5, 50), 2);
    assert_eq!(percentile_index(5, 95), 4);
    assert_eq!(percentile_index(11, 95), 10);
    for n in 1usize..=100 {
        for p in [0u64, 50, 95, 100] {
            let float_index = ((p as f64 / 100.0) * (n as f64 - 1.0)).round() as usize;
            assert_eq!(percentile_index(n, p), float_index.min(n - 1), "n={} p={}", n, p);
        }
    }
}

#[test]
fn bench_extra_json() {
    assert_eq!(
        bench_extra("m", "lab", 5, 4, 1),
        "{\"endpoint\":\"lab\",\"failures\":1,\"iterations\":5,\"model\":\"m\",\"success\":4}"
    );
}

#[test]
fn engine_for_nvidia() {
    let s = engine_spec(3, "qwen.gguf", "/lib", "nvidia");
    assert_eq!(s.container_name, "backyard-engine-3");
    assert_eq!(s.image, "backyard:llama-cuda");
    assert_eq!(s.binds, vec!["/lib:/models:ro"]);
    assert_eq!(s.gpu_requests.len(), 1);
    assert_eq!(s.gpu_requests[0].driver, "nvidia");
    assert_eq!(s.gpu_requests[0].count, -1);
    assert_eq!(s.gpu_requests[0].capabilities, vec![vec!["gpu".to_string()]]);
    assert!(s.devices.is_empty());
    assert_eq!(s.cmd, vec!["-m", "/models/qwen.gguf", "--host", "0.0.0.0", "--port", "8080"]);
}

#[test]
fn engine_for_amd_and_cpu() {
    let s = engine_spec(-1, "m.gguf", "/l", "amd");
    assert_eq!(s.container_name, "backyard-engine--1");
    assert_eq!(s.image, "backyard:llama-rocm");
    assert!(s.gpu_requests.is_empty());
    let devs: Vec<(&str, &str, &str)> = s
        .devices
        .iter()
        .map(|d| (d.path_on_host.as_str(), d.path_in_container.as_str(), d.cgroup_permissions.as_str()))
        .collect();
    assert_eq!(devs, vec![("/dev/kfd", "/dev/kfd", "rwm"), ("/dev/dri", "/dev/dri", "rwm")]);
    let c = engine_spec(2, "m.gguf", "/l", "cpu");
    assert_eq!(c.image, "backyard:llama-cuda");
    assert!(c.gpu_requests.is_empty());
    assert!(c.devices.is_empty());
}

#[test]
fn vmrss_line() {
    assert_eq!(vmrss_kb_text("VmRSS:\t  12345 kB"), Some("12345".to_string()));
    assert_eq!(vmrss_kb_text("VmRSS:"), None);
    assert_eq!(vmrss_kb_text("VmHWM:  1 kB"), None);
    assert_eq!(vmrss_kb_text(" VmRSS: 1 kB"), None);
}

#[test]
fn text_helpers() {
    assert_eq!(lines_of("a\r\nb\n\nc\n"), vec!["a", "b", "", "c"]);
    assert_eq!(lines_of(""), Vec::<String>::new());
    assert_eq!(first_lines("1\n2\n3", 2), "1\n2");
    assert_eq!(first_lines("1\n2\n3", 5), "1\n2\n3");
    assert_eq!(parse_unsigned_upto("+42", 100), Some(42));
    assert_eq!(parse_unsigned_upto("101", 100), None);
    assert_eq!(parse_unsigned_upto("", 100), None);
    assert_eq!(parse_unsigned_upto("-1", 100), None);
    assert_eq!(parse_unsigned_upto("007", 100), Some(7));
    assert_eq!(u64_to_decimal(0), "0");
    assert_eq!(u64_to_decimal(u64::MAX), "18446744073709551615");
    assert_eq!(hex_encode(&[0xde, 0xad, 0x01]), "dead01");
    assert_eq!(trimmed("  a b \n"), "a b");
    assert_eq!(runs_of(" a  bc\td ", CharClass::Space), vec!["a", "bc", "d"]);
    assert_eq!(split_by_class("a:b=,c", CharClass::FieldSep), vec!["a", "b", "", "c"]);
    assert_eq!(trimmed_class("(0.5)%", CharClass::NonNumeric), "0.5");
}

#[test]
fn percentile_beyond_hundred_is_the_last() {
    assert_eq!(percentile_index(10, 150), 9);
    assert_eq!(percentile_index(1, u64::MAX), 0);
    assert_eq!(percentile_index(usize::MAX, u64::MAX), usize::MAX - 1);
}
