use oxllm::config::{
    default_bind_family, default_host, default_port, default_upstream_timeout, Config,
    ProviderConfig, ServerConfig, VirtualModelTarget, VirtualModels,
};
use oxllm::error::OxllmError;
use oxllm::expand::{env_value, expand_env_vars, EnvVar};
use oxllm::source::{ConfigSource, LoadStep};
use oxllm::state::{build_app_state, build_reloadable_state, provider_state, CircuitState};

fn var(name: &str, value: &str) -> EnvVar {
    EnvVar { name: name.to_string(), value: value.to_string() }
}

fn provider(name: &str, url: &str) -> ProviderConfig {
    ProviderConfig {
        name: name.to_string(),
        enabled: true,
        base_url: url.to_string(),
        api_key: format!("key-{}", name),
        models: vec!["m".to_string()],
    }
}

fn target(provider: &str, model: &str) -> VirtualModelTarget {
    VirtualModelTarget { provider: provider.to_string(), model: model.to_string() }
}

fn config(providers: Vec<ProviderConfig>, models: Vec<(&str, Vec<VirtualModelTarget>)>) -> Config {
    let mut virtual_models = VirtualModels::new();
    for (name, targets) in models {
        virtual_models.insert(name.to_string(), targets);
    }
    Config { server: ServerConfig::default(), providers, virtual_models }
}

fn message<T>(r: Result<T, OxllmError>) -> String {
    match r {
        Ok(_) => panic!("no error"),
        Err(e) => e.message(),
    }
}

#[test]
fn test_expand_env_vars_success() {
    let env = vec![var("TEST_HOST", "127.0.0.1"), var("TEST_KEY", "groq-key-123")];
    let input = r#"
            host = "${TEST_HOST}"
            api_key = "${TEST_KEY}"
            other = "literal $10 string"
        "#;

    let result = expand_env_vars(input, &env).unwrap();
    assert!(result.contains("host = \"127.0.0.1\""));
    assert!(result.contains("api_key = \"groq-key-123\""));
    assert!(result.contains("other = \"literal $10 string\""));
}

#[test]
fn test_expand_env_vars_missing() {
    let input = r#"api_key = "${MISSING_VAR_XYZ}""#;
    let result = expand_env_vars(input, &vec![]);
    assert!(
        matches!(result, Err(OxllmError::EnvVarMissing(ref name)) if name == "MISSING_VAR_XYZ")
    );
}

#[test]
fn test_expand_env_vars_unclosed() {
    let input = r#"api_key = "${UNCLOSED"#;
    let result = expand_env_vars(input, &vec![]);
    assert!(matches!(result, Err(OxllmError::ConfigLoad(_))));
}

#[test]
fn expansion_edges() {
    let env = vec![var("A", "1"), var("A", "2"), var("", "empty"), var("B", "${A}")];
    assert_eq!(expand_env_vars("", &env).unwrap(), "");
    assert_eq!(expand_env_vars("$", &env).unwrap(), "$");
    assert_eq!(expand_env_vars("$$", &env).unwrap(), "$$");
    assert_eq!(expand_env_vars("a$b", &env).unwrap(), "a$b");
    assert_eq!(expand_env_vars("${}", &env).unwrap(), "empty");
    assert_eq!(expand_env_vars("$${A}x", &env).unwrap(), "$1x");
    // What is put in is not expanded again.
    assert_eq!(expand_env_vars("<${B}>", &env).unwrap(), "<${A}>");
    assert_eq!(expand_env_vars("plain text", &vec![]).unwrap(), "plain text");
    assert!(env_value(&env, "C").is_none());
}

#[test]
fn unclosed_placeholder_is_located_in_bytes() {
    let m = message(expand_env_vars("é${X", &vec![]));
    assert_eq!(
        m,
        "Configuration error: Unclosed environment variable placeholder starting at index 2"
    );
}

#[test]
fn error_messages() {
    assert_eq!(OxllmError::ConfigLoad("x".to_string()).message(), "Configuration error: x");
    assert_eq!(
        OxllmError::EnvVarMissing("X".to_string()).message(),
        "Missing environment variable: X"
    );
    assert_eq!(OxllmError::ConfigParse("y".to_string()).message(), "TOML parse error: y");
}

#[test]
fn test_server_config_defaults() {
    let server = ServerConfig::default();
    assert_eq!(server.host, "127.0.0.1");
    assert_eq!(server.port, 8080);
    assert_eq!(server.otel_endpoint, "");
    assert_eq!(server.api_key, "");
    assert_eq!(server.upstream_timeout_secs, 5);
    assert_eq!(server.bind_family, "ipv4");
    assert_eq!(default_host(), server.host);
    assert_eq!(default_port(), server.port);
    assert_eq!(default_upstream_timeout(), server.upstream_timeout_secs);
    assert_eq!(default_bind_family(), server.bind_family);
}

#[test]
fn test_from_env_toml_string() {
    // OXLLM_CONFIG_TOML wins over OXLLM_CONFIG
    let env = vec![
        var("TEST_KEY", "env-key-abc"),
        var(
            "OXLLM_CONFIG_TOML",
            r#"
            [server]
            api_key = "${TEST_KEY}"
            [[providers]]
            name = "p1"
            enabled = true
            base_url = "https://api.example.com/v1/"
            api_key = "k"
            models = ["m"]
            [virtual_models]
            vm = [{ provider = "p1", model = "m" }]
            "#,
        ),
        var("OXLLM_CONFIG", "/nonexistent/path.toml"),
    ];
    let text = match Config::from_env(&env).unwrap() {
        LoadStep::Parse(text) => text,
        _ => panic!("not the text"),
    };
    let cfg: toml::Table = toml::from_str(&text).unwrap();
    assert_eq!(cfg["server"]["api_key"].as_str(), Some("env-key-abc"));
    assert_eq!(cfg["providers"].as_array().unwrap().len(), 1);
    assert_eq!(cfg["virtual_models"]["vm"][0]["provider"].as_str(), Some("p1"));
}

#[test]
fn test_from_env_no_sources() {
    let err = match Config::from_env(&vec![]) {
        Ok(_) => panic!("a source"),
        Err(e) => e,
    };
    assert!(matches!(err, OxllmError::ConfigLoad(_)));
    assert_eq!(
        err.message(),
        "Configuration error: Neither OXLLM_CONFIG_TOML nor OXLLM_CONFIG is set"
    );
}

#[test]
fn from_env_falls_back_to_the_file() {
    let env = vec![var("OXLLM_CONFIG", "/etc/oxllm.toml")];
    assert!(matches!(Config::from_env(&env), Ok(LoadStep::ReadNamed(p)) if p == "/etc/oxllm.toml"));
    let env = vec![var("OXLLM_CONFIG_TOML", "${NOPE}"), var("OXLLM_CONFIG", "x")];
    assert!(matches!(Config::from_env(&env), Err(OxllmError::EnvVarMissing(n)) if n == "NOPE"));
}

#[test]
fn sources_say_what_to_read() {
    let path = std::path::PathBuf::from("config.toml");
    let file = ConfigSource::File(path.clone());
    let env = vec![];
    assert!(matches!(file.load(&env), Ok(LoadStep::ReadPath(p)) if *p == path));
    match ConfigSource::Env.load(&env) {
        Ok(_) => panic!("a source"),
        Err(m) => assert_eq!(
            m,
            "Configuration error: Neither OXLLM_CONFIG_TOML nor OXLLM_CONFIG is set"
        ),
    }
    let env = vec![var("OXLLM_CONFIG_TOML", "a = 1")];
    assert!(matches!(ConfigSource::Env.load(&env), Ok(LoadStep::Parse(t)) if t == "a = 1"));
}

#[test]
fn files_are_expanded() {
    let env = vec![var("K", "v")];
    assert_eq!(Config::load_from_file(Ok("k = \"${K}\"".to_string()), &env).unwrap(), "k = \"v\"");
    assert_eq!(
        message(Config::load_from_file(Err("gone".to_string()), &env)),
        "Configuration error: Failed to read config file: gone"
    );
    assert!(matches!(
        Config::load_from_file(Ok("${L}".to_string()), &env),
        Err(OxllmError::EnvVarMissing(_))
    ));
}

#[test]
fn validation() {
    let good = config(
        vec![provider("p1", "http://a/")],
        vec![("vm", vec![target("p1", "m")])],
    );
    assert!(good.validate().is_ok());

    let none = config(vec![], vec![]);
    assert_eq!(
        message(none.validate()),
        "Configuration error: At least one provider must be defined"
    );

    let empty = config(vec![provider("p1", "http://a/")], vec![("vm", vec![])]);
    assert_eq!(
        message(empty.validate()),
        "Configuration error: Virtual model 'vm' has no targets configured"
    );

    let dangling = config(
        vec![provider("p1", "http://a/")],
        vec![("vm", vec![target("p1", "m"), target("p2", "m")])],
    );
    assert_eq!(
        message(dangling.validate()),
        "Configuration error: Virtual model 'vm' targets undefined provider 'p2'"
    );
}

#[test]
fn virtual_models_have_one_entry_per_name() {
    let mut models = VirtualModels::new();
    models.insert("a".to_string(), vec![target("p", "1")]);
    models.insert("b".to_string(), vec![target("p", "2")]);
    models.insert("a".to_string(), vec![target("p", "3"), target("q", "4")]);
    assert_eq!(models.len(), 2);
    assert_eq!(models.get("a").unwrap().len(), 2);
    assert_eq!(models.get("a").unwrap()[0].model, "3");
    assert_eq!(models.at(1).name, "b");
    assert!(models.get("c").is_none());
    let copy = models.clone();
    assert_eq!(copy.get("b").unwrap()[0].model, "2");
}

#[test]
fn state_holds_the_enabled_providers() {
    let mut off = provider("off", "not a url");
    off.enabled = false;
    let mut c = config(
        vec![provider("p1", "https://api.example.com/v1/"), off, provider("p2", "http://b")],
        vec![("vm", vec![target("off", "x"), target("p2", "y"), target("p1", "z")])],
    );
    c.server.api_key = "secret".to_string();
    c.server.upstream_timeout_secs = 9;
    let state = build_reloadable_state(c).unwrap();
    assert_eq!(state.api_key, "secret");
    assert_eq!(state.upstream_timeout_secs, 9);
    assert_eq!(state.providers.len(), 2);
    assert_eq!(state.providers[0].name, "p1");
    assert_eq!(state.providers[0].base_url.as_str(), "https://api.example.com/v1/");
    assert_eq!(state.providers[0].api_key, "key-p1");
    assert_eq!(state.providers[0].health.circuit, CircuitState::Closed);
    assert_eq!(state.providers[0].usage.requests, 0);
    assert_eq!(state.providers[1].base_url.as_str(), "http://b/");
    // What serves a virtual model are its targets at enabled providers.
    let c = state.resolve_candidates("vm");
    assert_eq!(c.len(), 2);
    assert_eq!((c[0].provider.as_str(), c[0].model.as_str()), ("p2", "y"));
    assert_eq!((c[1].provider.as_str(), c[1].model.as_str()), ("p1", "z"));
    assert!(state.resolve_candidates("other").is_empty());
}

#[test]
fn bad_urls_are_named() {
    let c = config(vec![provider("p1", "http://ok/"), provider("p2", "nonsense")], vec![]);
    assert_eq!(
        message(build_app_state(c)),
        "Configuration error: Invalid base URL 'nonsense' for provider 'p2': relative URL without a base"
    );
    assert_eq!(
        message(provider_state(provider("p", "u"), Err("why".to_string()))),
        "Configuration error: Invalid base URL 'u' for provider 'p': why"
    );
}

#[test]
fn invalid_configurations_build_no_state() {
    assert!(build_reloadable_state(config(vec![], vec![])).is_err());
    // Validation comes before building.
    assert!(build_app_state(config(vec![], vec![])).is_ok());
}

#[test]
fn version_is_stated() {
    assert_eq!(oxllm::version(), "0.1.0");
}
