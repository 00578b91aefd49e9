use workbench_core::routing::{readiness_step, router_status_running, ReadinessStep};
use workbench_core::health::{
    after_failed_attempt, status_is_success, HealthMonitorConfig, HealthRecord, HealthStatus, HealthTracker,
    RetryDecision,
};
use workbench_core::routing::{
    ccr_config_info, get_default_router_config, managed_env_keys, models_from_providers, provider_env, router_providers_from,
    update_provider_models, validate_router_config, ConfigWarning, GlobalSettings, IntegrationSettings,
    ProviderConfig, RouterError, RouterProvider, RoutingMode, RoutingRules,
};

fn record(t: i64, status: HealthStatus, ms: Option<u64>) -> HealthRecord {
    HealthRecord { timestamp_ms: t, status, response_time_ms: ms, error_message: None }
}

#[test]
fn health_history_is_bounded() {
    let mut cfg = HealthMonitorConfig::default_config();
    assert_eq!((cfg.check_interval_secs, cfg.history_limit, cfg.failure_threshold, cfg.auto_restart_threshold), (30, 100, 3, 5));
    cfg.history_limit = 2;
    let mut h = HealthTracker::new(cfg, 0);
    h.record(record(1, HealthStatus::Healthy, Some(10)));
    h.record(record(2, HealthStatus::Healthy, Some(30)));
    h.record(record(3, HealthStatus::Unhealthy("down".to_string()), None));
    assert_eq!(h.history.len(), 2);
    assert_eq!(h.history[0].timestamp_ms, 2);
    assert_eq!(h.stats.total_checks, 3);
    assert_eq!(h.stats.healthy_checks, 2);
    assert_eq!(h.stats.unhealthy_checks, 1);
    assert_eq!(h.stats.response_time_total_ms, 40);
    assert_eq!(h.stats.timed_checks, 2);
    assert_eq!(h.stats.last_check_ms, Some(3));
    assert!(!h.current.is_healthy());
    assert_eq!(h.get_history(Some(1)).len(), 1);
    assert_eq!(h.get_history(None).len(), 2);
}

#[test]
fn failures_raise_warnings_and_success_resets() {
    let mut h = HealthTracker::new(HealthMonitorConfig::default_config(), 0);
    for t in 0..5 {
        h.record(record(t, HealthStatus::Unhealthy("x".to_string()), None));
        let a = h.check_auto_actions();
        assert_eq!(a.failing, t >= 2);
        assert_eq!(a.restart_suggested, t >= 4);
    }
    h.record(record(9, HealthStatus::Healthy, None));
    assert_eq!(h.stats.consecutive_failures, 0);
    assert!(h.current.is_healthy());
    h.reset_stats(50);
    assert_eq!(h.stats.total_checks, 0);
    assert_eq!(h.stats.monitoring_start_ms, 50);
    h.clear_history();
    assert!(h.history.is_empty());
}

#[test]
fn status_names() {
    assert_eq!(HealthStatus::Healthy.display_name(), "正常");
    assert_eq!(HealthStatus::Unhealthy("e".to_string()).display_name(), "异常");
    assert_eq!(HealthStatus::Starting.display_name(), "启动中");
    assert!(!HealthStatus::Unknown.is_healthy());
}

#[test]
fn retry_backoff_is_linear() {
    assert_eq!(after_failed_attempt(1, 3), RetryDecision::Retry { delay_ms: 1000 });
    assert_eq!(after_failed_attempt(2, 3), RetryDecision::Retry { delay_ms: 2000 });
    assert_eq!(after_failed_attempt(3, 3), RetryDecision::GiveUp);
    assert!(status_is_success(200) && status_is_success(299));
    assert!(!status_is_success(300) && !status_is_success(404));
}

#[test]
fn router_defaults() {
    let c = get_default_router_config();
    assert_eq!((c.enabled, c.port, c.timeout_ms, c.max_retries), (false, 3456, 30000, 3));
    let r = RoutingRules::default_rules("anthropic,primary-model", "anthropic,reasoning-model");
    assert_eq!(r.default, "anthropic,primary-model");
    assert_eq!(r.analysis.as_deref(), Some("anthropic,primary-model"));
    assert_eq!(r.think.as_deref(), Some("anthropic,reasoning-model"));
    assert_eq!(r.background.as_deref(), Some("deepseek,deepseek-chat"));
    assert!(r.dynamic_rules.is_empty());
    assert_eq!(GlobalSettings::default_settings().host, "127.0.0.1");
    assert_eq!(IntegrationSettings::default_settings().routing_mode, RoutingMode::SmartRouting);
    assert_eq!(RoutingMode::default_mode(), RoutingMode::SmartRouting);
}

fn wb(name: &str, token: Option<&str>) -> ProviderConfig {
    ProviderConfig {
        id: name.to_string(),
        name: name.to_string(),
        description: String::new(),
        base_url: format!("https://{}.example", name),
        auth_token: token.map(|t| t.to_string()),
        api_key: None,
        model: None,
    }
}

#[test]
fn sync_assigns_descending_priorities() {
    let wbs: Vec<ProviderConfig> = (0..12).map(|i| wb(&format!("p{}", i), if i == 0 { Some("tok") } else { None })).collect();
    let ps = router_providers_from(&wbs);
    let prios: Vec<u8> = ps.iter().map(|p| p.priority).collect();
    assert_eq!(prios, vec![10, 9, 8, 7, 6, 5, 4, 3, 2, 1, 1, 1]);
    assert_eq!(ps[0].api_key, "tok");
    assert_eq!(ps[1].api_key, "");
    assert!(ps.iter().all(|p| p.enabled && p.models.is_empty()));
    assert_eq!(ps[3].api_base_url, "https://p3.example");
}

fn provider(name: &str, url: &str, key: &str, models: &[&str]) -> RouterProvider {
    RouterProvider {
        name: name.to_string(),
        api_base_url: url.to_string(),
        api_key: key.to_string(),
        models: models.iter().map(|m| m.to_string()).collect(),
        priority: 5,
        enabled: true,
    }
}

#[test]
fn models_and_validation() {
    let mut ps = vec![provider("a", "https://a", "k", &["m1", "m2"]), provider("b", "ftp://b", "", &[])];
    let ms = models_from_providers(&ps);
    let names: Vec<&str> = ms.iter().map(|m| m.full_name.as_str()).collect();
    assert_eq!(names, vec!["a,m1", "a,m2"]);
    assert!(update_provider_models(&mut ps, "b", vec!["z".to_string()]).is_ok());
    assert_eq!(ps[1].models, vec!["z"]);
    assert!(update_provider_models(&mut ps, "c", vec![]).is_err());
    let mut cfg = get_default_router_config();
    cfg.port = 80;
    let w = validate_router_config(&cfg, &ps);
    assert_eq!(w.len(), 3);
    assert!(matches!(&w[0], ConfigWarning::PrivilegedPort));
    assert!(matches!(&w[1], ConfigWarning::MissingApiKey { provider } if provider == "b"));
    assert!(matches!(&w[2], ConfigWarning::SuspiciousUrl { provider } if provider == "b"));
    cfg.enabled = true;
    let w2 = validate_router_config(&cfg, &vec![]);
    assert!(matches!(&w2[0], ConfigWarning::EnabledWithoutProviders));
}

#[test]
fn provider_switch_env() {
    let mut c = wb("x", Some("tok"));
    c.model = Some(String::new());
    c.api_key = Some("key".to_string());
    let env = provider_env(&c);
    assert_eq!(
        env,
        vec![
            ("ANTHROPIC_BASE_URL".to_string(), "https://x.example".to_string()),
            ("ANTHROPIC_AUTH_TOKEN".to_string(), "tok".to_string()),
            ("ANTHROPIC_API_KEY".to_string(), "key".to_string()),
        ]
    );
    assert_eq!(managed_env_keys().len(), 4);
}

#[test]
fn router_error_messages() {
    assert_eq!(RouterError::NetworkError("HTTP 500".to_string()).message(), "网络错误: HTTP 500");
    assert_eq!(RouterError::ConfigError("x".to_string()).message(), "配置错误: x");
}

#[test]
fn router_readiness_polling() {
    assert!(router_status_running("Status: Running\nPort: 3456"));
    assert!(router_status_running("service running"));
    assert!(!router_status_running("stopped"));
    assert_eq!(readiness_step(1, true), ReadinessStep::Ready);
    assert_eq!(readiness_step(1, false), ReadinessStep::Wait { millis: 1000 });
    assert_eq!(readiness_step(29, false), ReadinessStep::Wait { millis: 1000 });
    assert_eq!(readiness_step(30, false), ReadinessStep::TimedOut);
}

#[test]
fn settings_screen_view() {
    let ps = vec![provider("a", "https://a", "k", &["m1"])];
    let mut rules = RoutingRules::default_rules("x,primary", "x,reason");
    rules.long_context = None;
    let mut settings = GlobalSettings::default_settings();
    let info = ccr_config_info(&get_default_router_config(), &ps, &rules, &settings);
    assert_eq!(info.providers.len(), 1);
    assert_eq!(info.providers[0].models, vec!["m1"]);
    assert_eq!(info.router_rules.default, "x,primary");
    assert_eq!(info.router_rules.web_search, "x,primary");
    assert_eq!(info.router_rules.long_context, "");
    assert_eq!(info.router_rules.long_context_threshold, 60000);
    assert_eq!((info.host.as_str(), info.port, info.api_timeout_ms), ("127.0.0.1", 3456, 30000));
    assert!(info.log_enabled);
    settings.log_level = "none".to_string();
    assert!(!ccr_config_info(&get_default_router_config(), &ps, &rules, &settings).log_enabled);
}
