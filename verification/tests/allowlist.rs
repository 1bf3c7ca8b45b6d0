use ip_allowlist::GateDecision;
use ip_allowlist::IpAllowlistConfig;
use ip_allowlist::IpAllowlistPlugin;
use ip_allowlist::PluginContext;
use ip_allowlist::PluginIdentity;
use serde_json::Value;

fn json(text: &str) -> Value {
    serde_json::from_str(text).unwrap()
}

fn test_ctx(tool: &str) -> PluginContext {
    PluginContext {
        surface: "tool".to_owned(),
        request_id: "req-1".into(),
        session_id: None,
        tool_name: tool.into(),
        identity: PluginIdentity {
            kind: "anonymous".into(),
            trust_level: "unauthenticated".into(),
            subject_id: None,
            auth_provider: None,
            issuer: None,
            roles: Vec::new(),
            groups: Vec::new(),
            scopes: Vec::new(),
            attributes: serde_json::Map::new(),
        },
        transport: "http".into(),
    }
}

fn config_with_headers(headers: &[(&str, &str)]) -> Value {
    let header_map: serde_json::Map<String, Value> = headers
        .iter()
        .map(|(k, v)| (k.to_string(), Value::String(v.to_string())))
        .collect();
    let mut config = serde_json::Map::new();
    config.insert("_request_headers".to_owned(), Value::Object(header_map));
    Value::Object(config)
}

#[test]
fn allows_ip_in_cidr() {
    let plugin = IpAllowlistPlugin::from_config(&json(r#"{"allow": ["10.0.0.0/8"]}"#)).unwrap();

    let ctx = test_ctx("tool");
    let config = config_with_headers(&[("x-forwarded-for", "10.1.2.3")]);
    let decision = plugin.evaluate_pre(&ctx, &json("{}"), None, &config);
    assert!(decision.is_allow());
}

#[test]
fn denies_ip_not_in_cidr() {
    let plugin = IpAllowlistPlugin::from_config(&json(r#"{"allow": ["10.0.0.0/8"]}"#)).unwrap();

    let ctx = test_ctx("tool");
    let config = config_with_headers(&[("x-forwarded-for", "192.168.1.1")]);
    let decision = plugin.evaluate_pre(&ctx, &json("{}"), None, &config);
    match decision {
        GateDecision::Deny { http_status, code, .. } => {
            assert_eq!(http_status, 403);
            assert_eq!(code, -32030);
        }
        _ => panic!("expected deny"),
    }
}

#[test]
fn denies_when_no_ip_header() {
    let plugin = IpAllowlistPlugin::from_config(&json(r#"{"allow": ["10.0.0.0/8"]}"#)).unwrap();

    let ctx = test_ctx("tool");
    let decision = plugin.evaluate_pre(&ctx, &json("{}"), None, &json("{}"));
    assert!(
        !decision.is_allow(),
        "should deny when no IP header present"
    );
}

#[test]
fn multiple_cidrs() {
    let plugin = IpAllowlistPlugin::from_config(&json(
        r#"{"allow": ["10.0.0.0/8", "172.16.0.0/12", "::1/128"]}"#,
    ))
    .unwrap();

    let ctx = test_ctx("tool");

    // 172.16.x.x allowed
    let config = config_with_headers(&[("x-forwarded-for", "172.20.0.1")]);
    assert!(plugin.evaluate_pre(&ctx, &json("{}"), None, &config).is_allow());

    // IPv6 loopback allowed
    let config = config_with_headers(&[("x-forwarded-for", "::1")]);
    assert!(plugin.evaluate_pre(&ctx, &json("{}"), None, &config).is_allow());

    // External denied
    let config = config_with_headers(&[("x-forwarded-for", "8.8.8.8")]);
    assert!(!plugin.evaluate_pre(&ctx, &json("{}"), None, &config).is_allow());
}

#[test]
fn x_forwarded_for_takes_first_ip() {
    let plugin = IpAllowlistPlugin::from_config(&json(r#"{"allow": ["10.0.0.0/8"]}"#)).unwrap();

    let ctx = test_ctx("tool");
    // First IP is the client, rest are proxies
    let config = config_with_headers(&[("x-forwarded-for", "10.1.2.3, 192.168.1.1, 172.16.0.1")]);
    assert!(plugin.evaluate_pre(&ctx, &json("{}"), None, &config).is_allow());
}

#[test]
fn tool_filtering() {
    let plugin = IpAllowlistPlugin::from_config(&json(
        r#"{"allow": ["10.0.0.0/8"], "tools": ["admin.*"]}"#,
    ))
    .unwrap();

    let config = config_with_headers(&[("x-forwarded-for", "192.168.1.1")]);

    // admin.delete is guarded and denied: the address is not listed
    let ctx = test_ctx("admin.delete");
    assert!(!plugin.evaluate_pre(&ctx, &json("{}"), None, &config).is_allow());

    // user.list is not guarded and passes through
    let ctx = test_ctx("user.list");
    assert!(plugin.evaluate_pre(&ctx, &json("{}"), None, &config).is_allow());
}

#[test]
fn custom_header_name() {
    let plugin = IpAllowlistPlugin::from_config(&json(
        r#"{"allow": ["10.0.0.0/8"], "ip_header": "cf-connecting-ip"}"#,
    ))
    .unwrap();

    let ctx = test_ctx("tool");
    let config = config_with_headers(&[("cf-connecting-ip", "10.1.2.3")]);
    assert!(plugin.evaluate_pre(&ctx, &json("{}"), None, &config).is_allow());
}

#[test]
fn invalid_cidr_rejected() {
    let result = IpAllowlistPlugin::from_config(&json(r#"{"allow": ["not-a-cidr"]}"#));
    assert!(result.is_err());
}

#[test]
fn config_deserialization() {
    let config = IpAllowlistConfig::from_value(&json(
        r#"{"allow": ["10.0.0.0/8", "::1/128"], "ip_header": "x-real-ip", "tools": ["admin.*"]}"#,
    ))
    .unwrap();
    assert_eq!(config.allow.len(), 2);
    assert_eq!(config.ip_header, "x-real-ip");
    assert_eq!(config.tools, vec!["admin.*"]);
}

#[test]
#[should_panic(expected = "config JSON failed to parse")]
fn malformed_config_json_panics_fail_closed() {
    // There is no plugin to go on with: whoever must have one can only give up.
    match IpAllowlistPlugin::try_from_config_json("{ not valid json") {
        Ok(_) => {}
        Err(words) => panic!("{words}"),
    }
}

#[test]
fn unknown_config_key_rejected_fail_closed() {
    // A misspelt key refuses the plugin instead of being passed over.
    let result = IpAllowlistPlugin::from_config(&json(
        r#"{"allow": ["10.0.0.0/8"], "ip_headre": "x-real-ip"}"#,
    ));
    assert!(
        result.is_err(),
        "unknown config key must be rejected (fail-closed)"
    );
}
