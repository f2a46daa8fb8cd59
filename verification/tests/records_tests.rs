use backyard::endpoint::{
    api_root, endpoint_auth, endpoint_base_root, endpoint_chat_url, endpoint_driver_env,
    endpoint_env_file_text, endpoint_sandbox_url, env_file_name, model_name, run_model_label,
    text_or_else, AuthHeader,
};
use backyard::state::{data_dir_choice, database_path, finished_status, AppConfig, DataDir, EvalEndpoint, RunStatus};

fn endpoint(base: &str, key: Option<&str>, model: Option<&str>, provider: Option<&str>) -> EvalEndpoint {
    EvalEndpoint {
        id: 7,
        name: "lab".to_string(),
        base_url: base.to_string(),
        api_key: key.map(|s| s.to_string()),
        model: model.map(|s| s.to_string()),
        provider: provider.map(|s| s.to_string()),
        created_at: "2025-01-01 00:00:00".to_string(),
    }
}

#[test]
fn run_status_names() {
    assert_eq!(RunStatus::Queued.as_str(), "queued");
    assert_eq!(RunStatus::Running.as_str(), "running");
    assert_eq!(RunStatus::Done.as_str(), "done");
    assert_eq!(RunStatus::Failed.as_str(), "failed");
}

#[test]
fn run_status_round_trips_through_its_name() {
    for s in [RunStatus::Queued, RunStatus::Running, RunStatus::Done, RunStatus::Failed] {
        assert_eq!(RunStatus::from_str(s.as_str()), s);
    }
}

#[test]
fn unknown_status_reads_as_queued() {
    assert_eq!(RunStatus::from_str("cancelled"), RunStatus::Queued);
    assert_eq!(RunStatus::from_str(""), RunStatus::Queued);
    assert_eq!(RunStatus::from_str("Done"), RunStatus::Queued);
}

#[test]
fn finished_status_follows_success() {
    assert_eq!(finished_status(true), RunStatus::Done);
    assert_eq!(finished_status(false), RunStatus::Failed);
}

#[test]
fn database_path_drops_the_sqlite_scheme() {
    assert_eq!(database_path("sqlite://data/backyard.db"), "data/backyard.db");
    assert_eq!(database_path("backyard.db"), "backyard.db");
    assert_eq!(database_path("sqlite:/x.db"), "sqlite:/x.db");
}

#[test]
fn app_config_default_keeps_window() {
    assert!(!AppConfig::default().close_to_tray);
}

#[test]
fn api_root_drops_slashes_and_one_v1() {
    assert_eq!(api_root("http://localhost:8080/v1/"), "http://localhost:8080");
    assert_eq!(api_root("http://h:1"), "http://h:1");
    assert_eq!(api_root("http://h/v1//"), "http://h");
    assert_eq!(api_root("http://h/v1/v1"), "http://h/v1");
    assert_eq!(endpoint_base_root(&endpoint("https://api.example.com/v1", None, None, None)), "https://api.example.com");
}

#[test]
fn chat_url_of_endpoints() {
    assert_eq!(endpoint_chat_url(&endpoint("http://h:1/v1", None, None, None)), "http://h:1/v1/chat/completions");
    assert_eq!(endpoint_chat_url(&endpoint("http://h:1/", None, None, None)), "http://h:1/v1/chat/completions");
    assert_eq!(
        endpoint_chat_url(&endpoint("http://h/v1/chat/completions/", None, None, None)),
        "http://h/v1/chat/completions"
    );
    assert_eq!(
        endpoint_chat_url(&endpoint("http://ollama:11434", None, None, None)),
        "http://ollama:11434/v1/chat/completions"
    );
}

#[test]
fn model_name_defaults() {
    assert_eq!(model_name(&endpoint("http://h", None, None, None)), "default");
    assert_eq!(model_name(&endpoint("http://h", None, Some("qwen3"), None)), "qwen3");
    assert_eq!(run_model_label(&endpoint("http://h", None, None, None)), "lab");
    assert_eq!(run_model_label(&endpoint("http://h", None, Some("qwen3"), None)), "qwen3");
    assert_eq!(text_or_else(&None, "x"), "x");
    assert_eq!(text_or_else(&Some("y".to_string()), "x"), "y");
}

#[test]
fn sandbox_url_rewrites_loopback() {
    assert_eq!(
        endpoint_sandbox_url(&endpoint("http://127.0.0.1:8081/v1", None, None, None)),
        "http://172.17.0.1:8081/v1"
    );
    assert_eq!(
        endpoint_sandbox_url(&endpoint("http://localhost:9000/", None, None, None)),
        "http://172.17.0.1:9000/v1"
    );
    assert_eq!(
        endpoint_sandbox_url(&endpoint("http://localhost/v1", None, None, None)),
        "http://172.17.0.1:8095/v1"
    );
    assert_eq!(
        endpoint_sandbox_url(&endpoint("https://api.example.com/v1/", None, None, None)),
        "https://api.example.com/v1"
    );
}

#[test]
fn driver_env_defaults() {
    let env = endpoint_driver_env(&endpoint("http://h", None, None, None));
    assert_eq!(env, vec![("OPENAI_API_KEY", "none".to_string()), ("CCGW_PROVIDER", "generic".to_string())]);
    let env = endpoint_driver_env(&endpoint("http://h", Some("k1"), None, Some("ccgw")));
    assert_eq!(env, vec![("OPENAI_API_KEY", "k1".to_string()), ("CCGW_PROVIDER", "ccgw".to_string())]);
}

#[test]
fn auth_header_choice() {
    assert!(matches!(endpoint_auth(&endpoint("http://h", None, None, None)), AuthHeader::NoAuth));
    assert!(matches!(endpoint_auth(&endpoint("http://h", Some(""), None, Some("ccgw"))), AuthHeader::NoAuth));
    match endpoint_auth(&endpoint("http://h", Some("sk"), None, Some("ccgw"))) {
        AuthHeader::CcgwKey(k) => assert_eq!(k, "sk"),
        other => panic!("unexpected {:?}", other),
    }
    match endpoint_auth(&endpoint("http://h", Some("sk"), None, Some("openai"))) {
        AuthHeader::Bearer(k) => assert_eq!(k, "sk"),
        other => panic!("unexpected {:?}", other),
    }
    match endpoint_auth(&endpoint("http://h", Some("sk"), None, None)) {
        AuthHeader::Bearer(k) => assert_eq!(k, "sk"),
        other => panic!("unexpected {:?}", other),
    }
}

#[test]
fn env_file_contents_and_name() {
    assert_eq!(
        endpoint_env_file_text(&endpoint("http://127.0.0.1:8081/v1", None, None, None)),
        "OPENAI_API_KEY=none\nOPENAI_BASE_URL=http://172.17.0.1:8081/v1\n"
    );
    assert_eq!(
        endpoint_env_file_text(&endpoint("https://x.org", Some("abc"), None, None)),
        "OPENAI_API_KEY=abc\nOPENAI_BASE_URL=https://x.org/v1\n"
    );
    assert_eq!(env_file_name("tb", 42), "tb-run-42.env");
    assert_eq!(env_file_name("ds", -3), "ds-run--3.env");
}

#[test]
fn api_root_is_the_same_with_or_without_v1() {
    for base in ["http://127.0.0.1:8095", "https://gw.example.com/api"] {
        assert_eq!(api_root(base), base);
        assert_eq!(api_root(&format!("{}/v1", base)), base);
        assert_eq!(api_root(&format!("{}/v1/", base)), base);
    }
}

#[test]
fn chat_and_sandbox_urls_keep_their_suffixes() {
    for base in ["http://h", "http://h/v1", "http://h/chat/completions", "http://localhost:1/", ""] {
        let ep = endpoint(base, None, None, None);
        assert!(endpoint_chat_url(&ep).ends_with("/chat/completions"), "{}", base);
        assert!(endpoint_sandbox_url(&ep).ends_with("/v1"), "{}", base);
    }
}

#[test]
fn data_directory_choice() {
    assert!(matches!(data_dir_choice(Some("/d"), Some("/db"), Some("/home/u")), Some(DataDir::Given(d)) if d == "/d"));
    assert!(matches!(data_dir_choice(None, Some("/data"), Some("/home/u")), Some(DataDir::DatabaseDir(d)) if d == "/data"));
    assert!(matches!(data_dir_choice(None, Some(""), Some("/home/u")), Some(DataDir::UnderHome(h)) if h == "/home/u"));
    assert!(matches!(data_dir_choice(None, None, Some("/home/u")), Some(DataDir::UnderHome(h)) if h == "/home/u"));
    assert!(data_dir_choice(None, Some(""), None).is_none());
    assert!(data_dir_choice(None, None, None).is_none());
}
