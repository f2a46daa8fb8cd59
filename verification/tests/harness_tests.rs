use backyard::harness::{
    deepswe_args, deepswe_task, deepswe_task_path, driver_output_source, driver_results_name,
    find_harbor, find_pier, frontier_line_tokens, frontier_swe_args, harness_for_task, int_setting,
    job_results, lcb_file_metric, lcb_line_values, livecodebench_args, micro_swe_args, newest_index,
    osworld_refusal, parse_micro_swe, perf_takehome_args,
    perf_takehome_results, reward_line, swebench_args, swebench_line_tokens, task_extra, tasks_extra,
    tau2_args, tau2_command, tau2_llm_args, tau2_no_rewards, tau2_simulation_metrics, tbench_args,
    tbench_task, toolathlon_args, toolathlon_line_tokens, Harness, JobKind, Metric, MetricValue,
    Tau2Domain,
};
use backyard::json::{parse_config, JsonNumber};
use backyard::harness::{micro_swe_metrics, perf_takehome_metrics, tau2_average, tau2_doc_metrics, tau2_simulation_results};
use backyard::state::EvalEndpoint;

fn endpoint(base: &str, key: Option<&str>, model: Option<&str>) -> EvalEndpoint {
    EvalEndpoint {
        id: 1,
        name: "lab".to_string(),
        base_url: base.to_string(),
        api_key: key.map(|s| s.to_string()),
        model: model.map(|s| s.to_string()),
        provider: None,
        created_at: String::new(),
    }
}

fn show(m: &Metric) -> String {
    let value = match &m.value {
        MetricValue::Number(JsonNumber::PosInt(u)) => u.to_string(),
        MetricValue::Number(JsonNumber::NegInt(i)) => i.to_string(),
        MetricValue::Number(JsonNumber::Float(t)) => t.clone(),
        MetricValue::Ratio(a, b) => format!("{}/{}", a, b),
        MetricValue::MeanOfNext(n) => format!("mean of {}", n),
    };
    format!(
        "{}|{}|{}|{}",
        m.metric,
        value,
        m.unit.clone().unwrap_or_else(|| "-".to_string()),
        m.extra.clone().unwrap_or_else(|| "-".to_string())
    )
}

fn shown(v: &[Metric]) -> Vec<String> {
    v.iter().map(show).collect()
}

#[test]
fn harness_dispatch_by_task() {
    assert_eq!(harness_for_task("micro_swe"), Ok(Harness::MicroSwe));
    assert_eq!(harness_for_task("tbench"), Ok(Harness::Tbench));
    assert_eq!(harness_for_task("deepswe"), Ok(Harness::DeepSwe));
    assert_eq!(harness_for_task("tau2_telecom"), Ok(Harness::Tau2(Tau2Domain::Telecom)));
    assert_eq!(harness_for_task("tau2_retail"), Ok(Harness::Tau2(Tau2Domain::Retail)));
    assert_eq!(harness_for_task("tau2_airline"), Ok(Harness::Tau2(Tau2Domain::Airline)));
    assert_eq!(harness_for_task("tau2_mock"), Ok(Harness::Tau2(Tau2Domain::Mock)));
    assert_eq!(harness_for_task("livecodebench"), Ok(Harness::LiveCodeBench));
    assert_eq!(harness_for_task("perf_takehome"), Ok(Harness::PerfTakehome));
    assert_eq!(harness_for_task("swebench"), Ok(Harness::SweBench));
    assert_eq!(harness_for_task("toolathlon"), Ok(Harness::Toolathlon));
    assert_eq!(harness_for_task("frontierswe"), Ok(Harness::FrontierSwe));
    assert_eq!(harness_for_task("osworld"), Err(osworld_refusal().to_string()));
    assert_eq!(harness_for_task("mmlu"), Err("Unknown eval harness: mmlu".to_string()));
    assert_eq!(harness_for_task("opencode"), Err("Unknown eval harness: opencode".to_string()));
    assert!(osworld_refusal().starts_with("osworld requires VM/desktop snapshot"));
    assert_eq!(Tau2Domain::Airline.name(), "airline");
}

#[test]
fn program_lookup_prefers_first_present() {
    assert_eq!(find_harbor(&vec![false, true, true]), "/root/.local/bin/harbor");
    assert_eq!(find_harbor(&vec![true, true, true]), "/home/quynn/.local/bin/harbor");
    assert_eq!(find_harbor(&vec![false, false, false]), "harbor");
    assert_eq!(find_pier(&vec![false, false, true]), "/usr/local/bin/pier");
    assert_eq!(find_pier(&vec![false, false, false]), "pier");
    let (p, a) = tau2_command(None, None);
    assert_eq!((p.as_str(), a), ("uv", vec!["run".to_string(), "tau2".to_string()]));
    let (p, a) = tau2_command(None, Some("/t/.venv/bin/tau2".to_string()));
    assert_eq!((p.as_str(), a.len()), ("/t/.venv/bin/tau2", 0));
    let (p, _) = tau2_command(Some("w.exe".to_string()), Some("u".to_string()));
    assert_eq!(p, "w.exe");
}

#[test]
fn newest_is_first_latest() {
    assert_eq!(newest_index(&vec![3, 9, 9, 1]), Some(1));
    assert_eq!(newest_index(&vec![5]), Some(0));
    assert_eq!(newest_index(&vec![-4, -2, -9]), Some(1));
    assert_eq!(newest_index(&vec![]), None);
}

#[test]
fn task_settings_from_config() {
    assert_eq!(deepswe_task(&parse_config("{}")), "abs-stepped-slices");
    assert_eq!(deepswe_task(&parse_config("{\"task\":\"x/y\"}")), "x/y");
    assert_eq!(deepswe_task(&parse_config("not json")), "abs-stepped-slices");
    assert_eq!(tbench_task(&parse_config("{\"task\":3}")), "terminal-bench/break-filter-js-from-html");
    assert_eq!(deepswe_task_path("foo"), "tasks/foo");
    assert_eq!(deepswe_task_path("a/b"), "a/b");
    assert_eq!(int_setting(&parse_config("{\"max_rounds\": 3}"), "max_rounds", 10), "3");
    assert_eq!(int_setting(&parse_config("{}"), "max_rounds", 10), "10");
    assert_eq!(int_setting(&parse_config("{\"max_rounds\": \"3\"}"), "max_rounds", 10), "10");
    assert_eq!(int_setting(&parse_config("{\"max_rounds\": -2}"), "max_rounds", 10), "-2");
    assert_eq!(int_setting(&parse_config("{\"max_rounds\": 2.5}"), "max_rounds", 10), "10");
    assert_eq!(int_setting(&parse_config("{\"n\": 18446744073709551615}"), "n", 7), "7");
    assert_eq!(driver_results_name(12), "results/run-12.json");
    assert_eq!(task_extra("t/x"), "{\"task\":\"t/x\"}");
    assert_eq!(tasks_extra(3), "{\"tasks\":3}");
}

#[test]
fn job_command_lines() {
    let ep = endpoint("http://127.0.0.1:8081/v1", None, Some("qwen"));
    assert_eq!(
        deepswe_args("tasks/foo", &ep, "/e/ds-run-1.env", "/jobs"),
        vec!["run", "-p", "tasks/foo", "-a", "mini-swe-agent", "-m", "openai/qwen", "--env-file", "/e/ds-run-1.env", "-n", "1", "--jobs-dir", "/jobs"]
    );
    assert_eq!(
        tbench_args("tb/t", &ep, "/e/tb.env", "/jobs"),
        vec!["run", "-d", "terminal-bench/terminal-bench-2", "-a", "pi", "-m", "openai/qwen", "--env-file", "/e/tb.env", "-n", "1", "-k", "1", "-y", "--jobs-dir", "/jobs", "-i", "tb/t"]
    );
}

#[test]
fn driver_command_lines() {
    let ep = endpoint("http://h:1/v1/", Some("sk"), None);
    assert_eq!(
        micro_swe_args("/e/m.py", &ep, &parse_config("{\"max_tokens\": 256}"), "/e/results/run-1.json"),
        vec!["/e/m.py", "--base-url", "http://h:1/v1", "--model", "default", "--max-rounds", "10", "--max-tokens", "256", "--no-thinking", "--api-key", "sk", "--output", "/e/results/run-1.json"]
    );
    let ep = endpoint("http://h:1", None, Some("m"));
    assert_eq!(
        perf_takehome_args("/e/p.py", &ep, &parse_config("{}"), "/o.json"),
        vec!["/e/p.py", "--base-url", "http://h:1/v1", "--model", "m", "--max-rounds", "12", "--max-tokens", "4096", "--no-thinking", "--api-key", "", "--output", "/o.json"]
    );
}

#[test]
fn printed_score_command_lines() {
    assert_eq!(
        livecodebench_args(&parse_config("{}")),
        vec!["-m", "lcb_runner.runner.main", "--model", "gpt-4o-mini-2024-07-18", "--scenario", "codegeneration", "--release_version", "release_v6", "--n", "5", "--evaluate"]
    );
    assert_eq!(
        livecodebench_args(&parse_config("{\"scenario\":\"selfrepair\",\"n\":1}"))[5],
        "selfrepair"
    );
    let ep = endpoint("http://h/v1", None, Some("m"));
    assert_eq!(
        swebench_args(&parse_config("{\"n\":4}"), &ep),
        vec!["-m", "swebench.harness.run_evaluation", "--dataset_name", "princeton-nlp/SWE-bench_Verified", "--split", "test", "--model_name", "openai/m", "--max_workers", "4"]
    );
    assert_eq!(toolathlon_args(&ep), vec!["-m", "toolathlon.run", "--model", "openai/m", "--api_base", "http://h/v1"]);
    assert_eq!(frontier_swe_args(&ep), vec!["run.py", "--model", "openai/m", "--api_base", "http://h/v1"]);
}

#[test]
fn tbench_result_rows() {
    let text = "{\"stats\":{\"evals\":{\"e1\":{\"metrics\":[{\"mean\":0.5},{\"other\":1}]},\"e2\":{\"metrics\":[{\"mean\":1}]}}}}";
    let rows = job_results(&JobKind::Tbench, text, "t/x", "/j/result.json").expect("rows");
    assert_eq!(
        shown(&rows),
        vec![
            "tbench_reward|0.5|reward|{\"task\":\"t/x\"}",
            "tbench_reward|1|reward|{\"task\":\"t/x\"}",
        ]
    );
}

#[test]
fn deepswe_result_rows() {
    let text = "{\"stats\":{\"evals\":{\"a\":{\"metrics\":[{\"reward\":1,\"partial\":0.25,\"p2p\":1.0,\"f2p\":\"x\"}]}}}}";
    let rows = job_results(&JobKind::DeepSwe, text, "abs", "/j/result.json").expect("rows");
    assert_eq!(
        shown(&rows),
        vec![
            "deepswe_partial|0.25|score|{\"task\":\"abs\"}",
            "deepswe_reward|1|score|{\"task\":\"abs\"}",
            "deepswe_p2p|1.0|score|{\"task\":\"abs\"}",
        ]
    );
}

#[test]
fn job_result_errors() {
    assert_eq!(
        job_results(&JobKind::Tbench, "{\"stats\":{}}", "t", "/p/result.json").unwrap_err(),
        "no tbench metrics in /p/result.json"
    );
    assert_eq!(
        job_results(&JobKind::DeepSwe, "{\"stats\":{\"evals\":{\"a\":{\"metrics\":[{\"mean\":1}]}}}}", "t", "/q").unwrap_err(),
        "no deepswe metrics in /q"
    );
    let e = job_results(&JobKind::Tbench, "nope", "t", "/p").unwrap_err();
    assert!(!e.is_empty());
    assert!(!e.starts_with("no tbench metrics"));
}

#[test]
fn tau2_simulation_rows() {
    let text = "{\"simulations\":[{\"task_id\":\"t1\",\"reward\":1.0,\"termination_reason\":\"success\"},{\"task_id\":\"t2\",\"reward\":0,\"termination_reason\":\"user_stop\"},{\"reward\":0.5,\"termination_reason\":\"max_steps_reached\"},{\"task_id\":\"t4\",\"termination_reason\":\"success\"}]}";
    assert_eq!(
        shown(&tau2_simulation_metrics(text)),
        vec!["tau2@t1|1.0|reward|-", "tau2@?|0.5|reward|-", "tau2@t4|0/1|reward|-"]
    );
    assert!(tau2_simulation_metrics("not json").is_empty());
    assert!(tau2_simulation_metrics("{\"simulations\":{}}").is_empty());
}

#[test]
fn tau2_reward_lines() {
    assert_eq!(reward_line("REWARD task-1 0.75"), Some(("task-1".to_string(), "0.75".to_string())));
    assert_eq!(reward_line("REWARD a b c"), Some(("a".to_string(), "b c".to_string())));
    assert_eq!(reward_line("REWARD onlytask"), None);
    assert_eq!(reward_line("reward x 1"), None);
    assert_eq!(reward_line("xREWARD x 1"), None);
    assert_eq!(tau2_no_rewards("l1\nl2"), "no tau2 rewards parsed from output:\nl1\nl2");
    let many: Vec<String> = (0..30).map(|i| format!("line{}", i)).collect();
    let expected: Vec<String> = (0..25).map(|i| format!("line{}", i)).collect();
    assert_eq!(
        tau2_no_rewards(&many.join("\n")),
        format!("no tau2 rewards parsed from output:\n{}", expected.join("\n"))
    );
}

#[test]
fn tau2_command_arguments() {
    let ep = endpoint("http://localhost:8080/v1/", None, Some("m"));
    let llm = "{\"api_base\":\"http://localhost:8080/v1\",\"api_key\":\"none\"}";
    assert_eq!(tau2_llm_args(&ep), llm);
    let args = tau2_args(vec!["run".to_string(), "tau2".to_string()], Tau2Domain::Retail, &ep, &parse_config("{\"num_tasks\":2}"));
    assert_eq!(
        args,
        vec!["run", "tau2", "run", "--domain", "retail", "--agent-llm", "openai/m", "--user-llm", "openai/m", "--agent-llm-args", llm, "--user-llm-args", llm, "--num-tasks", "2", "--num-trials", "1"]
    );
}

#[test]
fn perf_takehome_valid_result() {
    let text = "{\"scoring\":{\"correct\":true,\"tests_untouched\":true,\"cycles\":1234,\"speedup\":2.5,\"thresholds_beaten\":[\"a\",\"b\"]}}";
    let extra = "{\"correct\":true,\"cycles\":1234,\"tests_untouched\":true,\"thresholds_beaten\":[\"a\",\"b\"]}";
    let rows = perf_takehome_results(text).expect("rows");
    assert_eq!(
        shown(&rows),
        vec![
            format!("perf_speedup|2.5|x|{}", extra),
            format!("perf_cycles|1234|cycles|{}", extra),
            format!("perf_thresholds|2/1|count|{}", extra),
        ]
    );
}

#[test]
fn perf_takehome_invalid_result_scores_zero() {
    let text = "{\"scoring\":{\"correct\":true,\"tests_untouched\":false,\"cycles\":99,\"speedup\":3,\"thresholds_beaten\":[1]}}";
    let extra = "{\"correct\":true,\"cycles\":99,\"tests_untouched\":false,\"thresholds_beaten\":[1]}";
    let rows = perf_takehome_results(text).expect("rows");
    assert_eq!(
        shown(&rows),
        vec![
            format!("perf_speedup|0/1|x|{}", extra),
            format!("perf_cycles|99|cycles|{}", extra),
            format!("perf_thresholds|0/1|count|{}", extra),
        ]
    );
    let rows = perf_takehome_results("{\"scoring\":{\"correct\":true}}").expect("rows");
    let extra = "{\"correct\":true,\"cycles\":null,\"tests_untouched\":false,\"thresholds_beaten\":null}";
    assert_eq!(shown(&rows)[1], format!("perf_cycles|0/1|cycles|{}", extra));
}

#[test]
fn perf_takehome_errors() {
    assert_eq!(perf_takehome_results("{}").unwrap_err(), "no scoring in perf_takehome output");
    assert!(perf_takehome_results("oops").unwrap_err().starts_with("bad perf_takehome JSON: "));
    assert_eq!(driver_output_source("  \n", "out"), "out");
    assert_eq!(driver_output_source("{}", "out"), "{}");
}

#[test]
fn micro_swe_pass_rate_first() {
    let text = "{\"cases\":[{\"case\":\"a\",\"passed\":true},{\"case\":\"b\",\"passed\":false},{\"passed\":true}]}";
    let rows = parse_micro_swe(text).expect("rows");
    assert_eq!(
        shown(&rows),
        vec![
            "mswe_pass_rate|2/3|pass|{\"total\":3,\"passed\":2}",
            "mswe@a|1/1|pass|-",
            "mswe@b|0/1|pass|-",
            "mswe@?|1/1|pass|-",
        ]
    );
}

#[test]
fn micro_swe_output_errors() {
    assert_eq!(
        parse_micro_swe("garbage").unwrap_err(),
        "bad harness JSON: no results JSON in harness output"
    );
    assert_eq!(parse_micro_swe("{\"other\":1}").unwrap_err(), "no cases array in harness output");
    assert_eq!(
        parse_micro_swe("{\"cases\": []}").unwrap_err(),
        "no micro_swe cases in output:\n{\"cases\": []}"
    );
}

#[test]
fn micro_swe_noisy_output_fallback() {
    assert_eq!(
        parse_micro_swe("starting\n{\"cases\": []}\n").unwrap_err(),
        "no micro_swe cases in output:\nstarting\n{\"cases\": []}"
    );
    let rows = parse_micro_swe("chatter\n{\"cases\":[{\"case\":\"x\",\"passed\":true}]}").expect("rows");
    assert_eq!(shown(&rows), vec!["mswe_pass_rate|1/1|pass|{\"total\":1,\"passed\":1}", "mswe@x|1/1|pass|-"]);
    let rows = parse_micro_swe("log\n{\"cases\":[{\"case\":\"a\",\"passed\":false}]}\ndone in 3s\n").expect("rows");
    assert_eq!(shown(&rows), vec!["mswe_pass_rate|0/1|pass|{\"total\":1,\"passed\":0}", "mswe@a|0/1|pass|-"]);
    assert_eq!(
        parse_micro_swe("log \"cases\" {\"x\":1}").unwrap_err(),
        "bad harness JSON: no results JSON in harness output"
    );
    assert_eq!(
        parse_micro_swe("log {\"cases\": [ oops").unwrap_err(),
        "bad harness JSON: no results JSON in harness output"
    );
}

#[test]
fn micro_swe_multibyte_chatter_is_read() {
    let mut s = "é".repeat(40);
    s.push('x');
    s.push_str("{\"cases\": [{\"case\":\"é\",\"passed\":true}]} tail");
    let rows = parse_micro_swe(&s).expect("rows");
    assert_eq!(shown(&rows)[1], "mswe@é|1/1|pass|-");
    let mut t = "é".repeat(40);
    t.push_str("\"cases\": []");
    assert_eq!(parse_micro_swe(&t).unwrap_err(), "bad harness JSON: no results JSON in harness output");
}

#[test]
fn livecodebench_line_values() {
    assert_eq!(lcb_line_values("LCB_PASS@1 0.42 "), (Some("0.42".to_string()), None));
    assert_eq!(lcb_line_values("  pass@1: 0.35 (n=5)"), (None, Some("0.35".to_string())));
    assert_eq!(lcb_line_values("pass@1 = abc"), (None, None));
    assert_eq!(lcb_line_values("pass@1 x pass@1 0.5"), (None, None));
    assert_eq!(lcb_line_values("nothing here"), (None, None));
    let m = lcb_file_metric("{\"pass@1\": 0.6}", "/o/x_eval.json").expect("row");
    assert_eq!(show(&m), "lcb_pass_at_1|0.6|pass|{\"file\":\"/o/x_eval.json\"}");
    assert!(lcb_file_metric("{\"pass@5\": 0.6}", "/f").is_none());
    assert!(lcb_file_metric("{", "/f").is_none());
}

#[test]
fn score_line_tokens() {
    assert_eq!(swebench_line_tokens("resolved: 12 (0.40)"), vec!["", "12", "0.40"]);
    assert_eq!(swebench_line_tokens("pass_rate=0.5"), vec!["0.5"]);
    assert!(swebench_line_tokens("total 0.5").is_empty());
    assert_eq!(toolathlon_line_tokens("Score: 0.8, total=10"), vec!["Score", "0.8", "total", "10"]);
    assert_eq!(toolathlon_line_tokens("SUCCESS rate"), vec!["SUCCESS rate"]);
    assert!(toolathlon_line_tokens("nothing: 0.5").is_empty());
    assert_eq!(frontier_line_tokens("task a dominance 0.7"), vec!["task", "a", "dominance", "0.7"]);
    assert!(frontier_line_tokens("score 0.7").is_empty());
}

#[test]
fn dispatchable_tasks_are_known_to_the_api() {
    for task in [
        "micro_swe", "tbench", "deepswe", "tau2_telecom", "tau2_retail", "tau2_airline", "tau2_mock",
        "livecodebench", "perf_takehome", "swebench", "toolathlon", "frontierswe",
    ] {
        assert!(harness_for_task(task).is_ok());
        assert!(backyard::server::is_known_harness(task), "{}", task);
    }
    assert!(backyard::server::is_known_harness("osworld"));
    assert!(harness_for_task("osworld").is_err());
    assert!(backyard::server::is_known_harness("opencode"));
    assert!(harness_for_task("opencode").is_err());
}

#[test]
fn parsed_documents_give_the_same_rows() {
    let text = "{\"cases\":[{\"case\":\"a\",\"passed\":true},{\"case\":\"b\",\"passed\":false}]}";
    let rows = micro_swe_metrics(&parse_config(text), text).expect("rows");
    assert_eq!(
        shown(&rows),
        vec!["mswe_pass_rate|1/2|pass|{\"total\":2,\"passed\":1}", "mswe@a|1/1|pass|-", "mswe@b|0/1|pass|-"]
    );
    assert_eq!(micro_swe_metrics(&parse_config("[]"), "[]").unwrap_err(), "no cases array in harness output");
    assert_eq!(
        micro_swe_metrics(&parse_config("{\"cases\":[]}"), "x\ny").unwrap_err(),
        "no micro_swe cases in output:\nx\ny"
    );
    assert_eq!(perf_takehome_metrics(&parse_config("{\"a\":1}")).unwrap_err(), "no scoring in perf_takehome output");
    let perf = perf_takehome_metrics(&parse_config("{\"scoring\":{\"cycles\":5}}")).expect("rows");
    assert_eq!(shown(&perf)[1], "perf_cycles|5|cycles|{\"correct\":false,\"cycles\":5,\"tests_untouched\":false,\"thresholds_beaten\":null}");
    let sims = tau2_doc_metrics(&parse_config("{\"simulations\":[{\"task_id\":\"t\",\"reward\":1,\"termination_reason\":\"success\"}]}"));
    assert_eq!(shown(&sims), vec!["tau2@t|1|reward|-"]);
}

#[test]
fn tau2_results_start_with_the_average() {
    let text = "{\"simulations\":[{\"task_id\":\"t1\",\"reward\":1.0,\"termination_reason\":\"success\"},{\"task_id\":\"t2\",\"reward\":0,\"termination_reason\":\"max_steps_reached\"},{\"task_id\":\"t3\",\"reward\":1,\"termination_reason\":\"user_stop\"}]}";
    let rows = tau2_simulation_results(text).expect("rows");
    assert_eq!(
        shown(&rows),
        vec!["tau2_avg_reward|mean of 2|reward|{\"tasks\":2}", "tau2@t1|1.0|reward|-", "tau2@t2|0|reward|-"]
    );
    assert!(tau2_simulation_results("{\"simulations\":[]}").is_none());
    assert!(tau2_simulation_results("nope").is_none());
    assert_eq!(show(&tau2_average(3)), "tau2_avg_reward|mean of 3|reward|{\"tasks\":3}");
}
