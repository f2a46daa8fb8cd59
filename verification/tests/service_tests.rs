use backyard::auth::{
    authenticate_row, clear_cookie, cookie_value, hash_password, new_session_token, session_cookie,
    session_expiry_modifier, session_token_from_bytes, verify_password, SESSION_COOKIE,
};
use backyard::cli::{
    daemon_reload_args, download_request_body, handle_service_action, journalctl_args, service_dir,
    service_path, service_unit_text, systemctl_args, systemctl_failure, ServiceAction, ServiceStep,
};
use backyard::server::{
    auth_disabled, benchmark_settings, default_iterations, default_prompt, endpoint_request_valid,
    is_known_harness, known_harness_names, leaderboard_metrics, provider_or_generic, runs_columns,
    runs_limit, runs_query, server_host, server_port, setup_check, SetupError,
};
use backyard::worker::{plan_run, run_location, Job};

#[test]
fn stored_password_verifies() {
    let h = hash_password("correct horse battery").expect("hashing succeeds");
    assert_ne!(h, "correct horse battery");
    assert!(h.starts_with("$argon2id$"));
    assert!(verify_password("correct horse battery", &h));
    assert!(!verify_password("correct horse battery!", &h));
}

#[test]
fn malformed_hash_is_refused() {
    assert!(!verify_password("pw", "not a hash"));
    assert!(!verify_password("pw", ""));
}

#[test]
fn login_decision_from_row() {
    let h = hash_password("s3cret-pass").unwrap();
    let u = authenticate_row(Some((4, "admin".to_string(), h.clone())), "s3cret-pass").expect("logs in");
    assert_eq!(u.id, 4);
    assert_eq!(u.username, "admin");
    assert!(authenticate_row(Some((4, "admin".to_string(), h)), "wrong-pass").is_none());
    assert!(authenticate_row(None, "s3cret-pass").is_none());
}

#[test]
fn session_tokens_are_hex_of_32_bytes() {
    assert_eq!(session_token_from_bytes(&[0x00, 0xff, 0x1a, 0x09]), "00ff1a09");
    assert_eq!(session_token_from_bytes(&[]), "");
    let t = new_session_token();
    assert_eq!(t.len(), 64);
    assert!(t.chars().all(|c| c.is_ascii_digit() || ('a'..='f').contains(&c)));
    assert_ne!(t, new_session_token());
}

#[test]
fn session_cookie_texts() {
    assert_eq!(SESSION_COOKIE, "backyard_session");
    assert_eq!(session_expiry_modifier(), "+30 days");
    assert_eq!(
        session_cookie("abc123"),
        "backyard_session=abc123; Path=/; HttpOnly; SameSite=Lax; Max-Age=2592000"
    );
    assert_eq!(clear_cookie(), "backyard_session=; Path=/; HttpOnly; Max-Age=0");
}

#[test]
fn cookie_header_lookup() {
    assert_eq!(cookie_value("a=1; backyard_session=tok; b=2", "backyard_session"), Some("tok".to_string()));
    assert_eq!(cookie_value(" backyard_session = tok2 ", "backyard_session"), Some("tok2".to_string()));
    assert_eq!(cookie_value("noeq; backyard_session=x=y", "backyard_session"), Some("x=y".to_string()));
    assert_eq!(cookie_value("a=1; a=2", "a"), Some("1".to_string()));
    assert_eq!(cookie_value("a=1; b=2", "c"), None);
    assert_eq!(cookie_value("", "a"), None);
    assert_eq!(cookie_value("a=", "a"), Some(String::new()));
}

#[test]
fn auth_switch_reading() {
    assert!(!auth_disabled(None));
    assert!(auth_disabled(Some("1")));
    assert!(auth_disabled(Some("true")));
    assert!(auth_disabled(Some("TrUe")));
    assert!(!auth_disabled(Some("yes")));
    assert!(!auth_disabled(Some("0")));
    assert!(!auth_disabled(Some(" true")));
}

#[test]
fn host_and_port_settings() {
    assert_eq!(server_host(None), "0.0.0.0");
    assert_eq!(server_host(Some("127.0.0.1")), "127.0.0.1");
    assert_eq!(server_port(None, None), 8080);
    assert_eq!(server_port(Some("9000"), Some("9100")), 9000);
    assert_eq!(server_port(None, Some("9100")), 9100);
    assert_eq!(server_port(Some("+81"), None), 81);
    assert_eq!(server_port(Some("70000"), Some("9100")), 8080);
    assert_eq!(server_port(Some("abc"), None), 8080);
    assert_eq!(server_port(Some("65535"), None), 65535);
}

#[test]
fn setup_rules() {
    assert_eq!(setup_check(1, "admin", "password1"), Err(SetupError::AlreadyConfigured));
    assert_eq!(setup_check(0, "ad", "password1"), Err(SetupError::TooShort));
    assert_eq!(setup_check(0, "admin", "short"), Err(SetupError::TooShort));
    assert_eq!(setup_check(0, "adm", "12345678"), Ok(()));
    assert_eq!(SetupError::AlreadyConfigured.message(), "Admin account already configured");
    assert_eq!(SetupError::TooShort.message(), "Username (3+ chars) and password (8+ chars) required");
}

#[test]
fn request_defaults() {
    assert!(endpoint_request_valid("n", "http://x"));
    assert!(!endpoint_request_valid("", "http://x"));
    assert!(!endpoint_request_valid("n", ""));
    assert_eq!(default_prompt(), "Write a short story about a robot learning to paint.");
    assert_eq!(default_iterations(), 5);
    let (p, n, t, s) = benchmark_settings(None, None, None, None);
    assert_eq!((p.as_str(), n, t, s), ("Write a short story about a robot learning to paint.", 5, 128, false));
    let (p, n, t, s) = benchmark_settings(Some("hi".to_string()), Some(3), Some(64), Some(true));
    assert_eq!((p.as_str(), n, t, s), ("hi", 3, 64, true));
    assert_eq!(provider_or_generic(None), "generic");
    assert_eq!(provider_or_generic(Some("ccgw")), "ccgw");
}

#[test]
fn harness_name_list() {
    let names = known_harness_names();
    assert_eq!(names.len(), 14);
    assert!(is_known_harness("micro_swe"));
    assert!(is_known_harness("opencode"));
    assert!(is_known_harness("perf_takehome"));
    assert!(!is_known_harness("mmlu"));
    assert!(!is_known_harness(""));
    let metrics = leaderboard_metrics();
    assert_eq!(metrics.len(), 22);
    assert_eq!(metrics[0], "tps");
    assert_eq!(metrics[21], "perf_thresholds");
}

#[test]
fn run_list_query() {
    assert_eq!(runs_limit(None), Some(50));
    assert_eq!(runs_limit(Some(7)), Some(7));
    let cols = runs_columns();
    assert!(cols.starts_with("SELECT id, machine_id, endpoint_id"));
    assert_eq!(runs_query(Some(50)), format!("{} ORDER BY id DESC LIMIT 50", cols));
    assert_eq!(runs_query(None), format!("{} ORDER BY id DESC", cols));
}

#[test]
fn worker_dispatch() {
    assert_eq!(plan_run(3, "bench", true), Ok(Job::HttpBench));
    assert_eq!(plan_run(3, "eval", true), Ok(Job::Harness));
    assert_eq!(
        plan_run(12, "bench", false),
        Err("Run #12 has no endpoint_id — legacy machine-based runs are no longer supported".to_string())
    );
    assert_eq!(run_location(5, Some("lab")), "endpoint lab");
    assert_eq!(run_location(5, None), "run #5");
}

#[test]
fn service_commands() {
    assert!(matches!(handle_service_action(ServiceAction::Install), ServiceStep::InstallUnit));
    assert!(matches!(handle_service_action(ServiceAction::Start), ServiceStep::Systemctl("start")));
    assert!(matches!(handle_service_action(ServiceAction::Stop), ServiceStep::Systemctl("stop")));
    assert!(matches!(handle_service_action(ServiceAction::Status), ServiceStep::Systemctl("status")));
    assert!(matches!(handle_service_action(ServiceAction::Log), ServiceStep::TailLogs));
    assert_eq!(systemctl_args("start"), vec!["--user", "start", "backyard.service"]);
    assert_eq!(systemctl_failure("stop"), "systemctl stop failed");
    assert_eq!(daemon_reload_args(), vec!["--user", "daemon-reload"]);
    assert_eq!(journalctl_args(), vec!["--user", "-u", "backyard.service", "-f"]);
    assert_eq!(service_dir("/home/u"), "/home/u/.config/systemd/user");
    assert_eq!(service_path("/d"), "/d/backyard.service");
    assert_eq!(
        service_unit_text("/bin/backyard", "/srv"),
        "[Unit]\nDescription=Backyard Backend Service\nAfter=network.target\n\n[Service]\nExecStart=/bin/backyard\nWorkingDirectory=/srv\nRestart=always\n\n[Install]\nWantedBy=default.target\n"
    );
}

#[test]
fn download_body_is_json() {
    assert_eq!(
        download_request_body("org/model", "m.gguf"),
        "{\"filename\":\"m.gguf\",\"repo_id\":\"org/model\"}"
    );
    assert_eq!(download_request_body("a\"b", "c"), "{\"filename\":\"c\",\"repo_id\":\"a\\\"b\"}");
}

#[test]
fn session_cookie_reads_back() {
    let t = new_session_token();
    assert_eq!(cookie_value(&session_cookie(&t), SESSION_COOKIE), Some(t.clone()));
    assert_eq!(cookie_value(&format!("{}={}", SESSION_COOKIE, t), SESSION_COOKIE), Some(t.clone()));
    assert_eq!(cookie_value(&format!("{}={}; theme=dark", SESSION_COOKIE, t), SESSION_COOKIE), Some(t));
}

#[test]
fn non_phc_strings_are_refused() {
    let h = hash_password("pw-12345").unwrap();
    assert!(h.starts_with('$'));
    assert!(!verify_password("pw-12345", ""));
    assert!(!verify_password("plain", "plain"));
    assert!(!verify_password("pw-12345", &h[1..]));
}
