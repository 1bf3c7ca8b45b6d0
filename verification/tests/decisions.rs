use ip_allowlist::plugin::report_at;
use ip_allowlist::synthetic_system_identity;
use ip_allowlist::AuditOutcome;
use ip_allowlist::ConfigError;
use ip_allowlist::GateDecision;
use ip_allowlist::HostHandle;
use ip_allowlist::IpAddr;
use ip_allowlist::IpAllowlistConfig;
use ip_allowlist::IpAllowlistPlugin;
use ip_allowlist::Outcome;
use ip_allowlist::PluginClass;
use ip_allowlist::PluginContext;
use ip_allowlist::PluginIdentity;
use ip_allowlist::Reason;
use ip_allowlist::PLUGIN_ID;
use serde_json::Value;

fn json(text: &str) -> Value {
    serde_json::from_str(text).unwrap()
}

fn load(text: &str) -> IpAllowlistPlugin {
    IpAllowlistPlugin::from_config(&json(text)).unwrap()
}

fn refusal(text: &str) -> String {
    match IpAllowlistPlugin::from_config(&json(text)) {
        Ok(_) => panic!("loaded: {text}"),
        Err(words) => words,
    }
}

fn caller(tool: &str) -> PluginContext {
    let mut attributes = serde_json::Map::new();
    attributes.insert("team".to_owned(), Value::from("blue"));
    PluginContext {
        surface: "tool".to_owned(),
        request_id: "req-1".to_owned(),
        session_id: Some("s".to_owned()),
        tool_name: tool.to_owned(),
        identity: PluginIdentity {
            kind: "user".to_owned(),
            trust_level: "verified".to_owned(),
            subject_id: Some("alice".to_owned()),
            auth_provider: Some("idp".to_owned()),
            issuer: None,
            roles: vec!["r1".to_owned(), "r2".to_owned()],
            groups: vec!["g".to_owned()],
            scopes: Vec::new(),
            attributes,
        },
        transport: "http".to_owned(),
    }
}

fn denial(decision: &GateDecision) -> (String, Option<Value>) {
    match decision {
        GateDecision::Deny { http_status, code, message, error_data } => {
            assert_eq!((*http_status, *code), (403, -32030));
            (message.clone(), error_data.clone())
        }
        GateDecision::Allow => panic!("expected deny"),
    }
}

#[test]
fn configurations_are_refused() {
    assert_eq!(
        refusal(r#"{"allow": ["10.0.0.0/8", "not-a-cidr", "x"]}"#),
        "invalid CIDR 'not-a-cidr': invalid IP address syntax"
    );
    assert_eq!(
        refusal(r#"{"allow": ["10.0.0.0/8"], "ip_headre": "x-real-ip"}"#),
        "unknown field `ip_headre`, expected one of `allow`, `ip_header`, `tools`"
    );
    assert_eq!(refusal("{}"), "missing field `allow`");
    assert_eq!(refusal(r#"{"tools": []}"#), "missing field `allow`");
    assert_eq!(
        refusal(r#"{"allow": "10.0.0.0/8"}"#),
        "invalid type: string \"10.0.0.0/8\", expected a sequence"
    );
    assert_eq!(
        refusal(r#"{"allow": ["10.0.0.0/8", 1.5]}"#),
        "invalid type: floating point `1.5`, expected a string"
    );
    assert_eq!(
        refusal(r#"{"allow": [], "ip_header": null}"#),
        "invalid type: null, expected a string"
    );
    assert_eq!(
        refusal(r#"{"allow": [], "tools": {}}"#),
        "invalid type: map, expected a sequence"
    );
    assert_eq!(
        refusal("[]"),
        "invalid length 0, expected struct IpAllowlistConfig with 3 elements"
    );
    assert_eq!(
        refusal(r#"[[], "h", [], 1, 2]"#),
        "invalid length 5, expected fewer elements in array"
    );
    assert_eq!(refusal(r#"[["10.0.0.0/8"], 7]"#), "invalid type: integer `7`, expected a string");
    for (document, words) in [
        ("null", "null"),
        ("true", "boolean `true`"),
        ("5", "integer `5`"),
        ("-1.0", "floating point `-1.0`"),
        ("\"allow\"", "string \"allow\""),
    ] {
        assert_eq!(
            refusal(document),
            format!("invalid type: {words}, expected struct IpAllowlistConfig")
        );
    }
}

#[test]
fn first_fault_in_the_order_of_keys_is_named() {
    assert_eq!(
        refusal(r#"{"zeta": 1, "beta": 2, "tools": 3}"#),
        "unknown field `beta`, expected one of `allow`, `ip_header`, `tools`"
    );
    assert_eq!(
        refusal(r#"{"zeta": 1, "tools": 3}"#),
        "invalid type: integer `3`, expected a sequence"
    );
}

#[test]
fn refusals_are_told_apart() {
    let read = |text: &str| IpAllowlistConfig::from_value(&json(text)).err().unwrap();
    assert!(matches!(read("null"), ConfigError::NotAConfig(_)));
    assert!(matches!(read(r#"{"x": 1}"#), ConfigError::UnknownField(key) if key == "x"));
    assert!(matches!(read("{}"), ConfigError::MissingAllow));
    assert!(matches!(read(r#"{"allow": 1}"#), ConfigError::InvalidField(_)));
    assert!(matches!(read("[]"), ConfigError::TooFewItems));
    assert!(matches!(read(r#"[[], "", [], 0]"#), ConfigError::TooManyItems(4)));
    let error = ConfigError::InvalidCidr("a".to_owned(), "b".to_owned());
    assert_eq!(error.message(), "invalid CIDR 'a': b");
}

#[test]
fn configurations_have_defaults() {
    let config = IpAllowlistConfig::from_value(&json(r#"{"allow": ["a"]}"#)).unwrap();
    assert_eq!(config.allow, vec!["a"]);
    assert_eq!(config.ip_header, "x-forwarded-for");
    assert!(config.tools.is_empty());
    let config = IpAllowlistConfig::from_value(&json(r#"[["a"], "h"]"#)).unwrap();
    assert_eq!(config.allow, vec!["a"]);
    assert_eq!(config.ip_header, "h");
    assert!(config.tools.is_empty());
    let config = IpAllowlistConfig::from_value(&json(r#"[["a"], "h", ["t"]]"#)).unwrap();
    assert_eq!(config.tools, vec!["t"]);
}

#[test]
fn texts_are_loaded() {
    let good = r#"{"allow": ["10.0.0.0/8"]}"#;
    assert!(IpAllowlistPlugin::try_from_config_json(good).is_ok());
    assert!(IpAllowlistPlugin::from_config_json(good).is_allowed(&IpAddr::V4(0x0a01_0203)));
    let words = IpAllowlistPlugin::try_from_config_json("{ not valid json").err().unwrap();
    assert_eq!(
        words,
        "ip-allowlist: config JSON failed to parse: key must be a string at line 1 column 3"
    );
    let words = IpAllowlistPlugin::try_from_config_json("{}").err().unwrap();
    assert_eq!(words, "ip-allowlist: config invalid: missing field `allow`");
}

#[test]
fn client_address_of_a_call() {
    let plugin = load(r#"{"allow": []}"#);
    let client = |headers: &str| {
        plugin.extract_client_ip(&json(&format!("{{\"_request_headers\": {headers}}}")))
    };
    let ten = Some(IpAddr::V4(0x0a00_0001));
    assert_eq!(client(r#"{"x-forwarded-for": "10.0.0.1"}"#), ten);
    assert_eq!(client(r#"{"x-forwarded-for": " \t10.0.0.1  ,8.8.8.8"}"#), ten);
    assert_eq!(client(r#"{"x-forwarded-for": "::ffff:10.0.0.1"}"#), ten);
    assert_eq!(client(r#"{"x-forwarded-for": "::1"}"#), Some(IpAddr::V6(1)));
    assert_eq!(client(r#"{"x-forwarded-for": "10.0.0.1", "x-real-ip": "8.8.8.8"}"#), ten);
    assert_eq!(client(r#"{"x-forwarded-for": "unknown", "x-real-ip": " 10.0.0.1 "}"#), ten);
    assert_eq!(client(r#"{"x-forwarded-for": 5, "x-real-ip": "::ffff:10.0.0.1"}"#), ten);
    assert_eq!(client(r#"{"x-real-ip": "10.0.0.1"}"#), ten);
    // The fallback header holds one address, no list.
    assert_eq!(client(r#"{"x-real-ip": "10.0.0.1, 8.8.8.8"}"#), None);
    assert_eq!(client(r#"{"x-forwarded-for": ""}"#), None);
    assert_eq!(client(r#"{"X-Forwarded-For": "10.0.0.1"}"#), None);
    assert_eq!(client("{}"), None);
    assert_eq!(client("[]"), None);
    assert_eq!(plugin.extract_client_ip(&json("{}")), None);
    assert_eq!(plugin.extract_client_ip(&json("null")), None);

    let plugin = load(r#"{"allow": [], "ip_header": "x-real-ip"}"#);
    assert_eq!(
        plugin.extract_client_ip(&json(r#"{"_request_headers": {"x-real-ip": "10.0.0.1, ::1"}}"#)),
        ten
    );
    assert_eq!(
        plugin.extract_client_ip(&json(r#"{"_request_headers": {"x-real-ip": "no"}}"#)),
        None
    );
}

#[test]
fn fallback_is_not_read_where_it_is_the_configured_header() {
    let plugin = load(r#"{"allow": ["0.0.0.0/0", "::/0"], "ip_header": "x-real-ip"}"#);
    // The first hop is empty, and the header is not read a second time.
    let config = json(r#"{"_request_headers": {"x-real-ip": ",10.0.0.1"}}"#);
    assert_eq!(plugin.extract_client_ip(&config), None);
    let (message, data) =
        denial(&plugin.evaluate_pre(&caller("tool"), &Value::Null, None, &config));
    assert_eq!(message, "Access denied: client IP not available");
    assert_eq!(data, None);
}

#[test]
fn white_space_around_an_address_is_dropped() {
    let plugin = load(r#"{"allow": []}"#);
    let client = |header: &str, value: String| {
        let mut headers = serde_json::Map::new();
        headers.insert(header.to_string(), Value::String(value));
        let mut config = serde_json::Map::new();
        config.insert("_request_headers".to_string(), Value::Object(headers));
        plugin.extract_client_ip(&Value::Object(config))
    };
    for code in 0..=0x1_0000_u32 {
        let Some(c) = char::from_u32(code) else {
            continue;
        };
        let dropped = matches!(
            code,
            0x9..=0xd | 0x20 | 0x85 | 0xa0 | 0x1680 | 0x2000..=0x200a | 0x2028 | 0x2029 | 0x202f
                | 0x205f | 0x3000
        );
        let expected = if dropped { Some(IpAddr::V4(0x0a00_0001)) } else { None };
        // A digit would make another address.
        if !c.is_ascii_digit() {
            let value = format!("{c}10.0.0.1{c}");
            assert_eq!(client("x-forwarded-for", value.clone()), expected, "{code:x}");
            assert_eq!(client("x-real-ip", value), expected, "{code:x}");
        }
    }
}

#[test]
fn mapped_clients_are_covered_by_ipv4_networks() {
    let plugin = load(r#"{"allow": ["10.0.0.0/8"]}"#);
    let ctx = caller("tool");
    let config = json(r#"{"_request_headers": {"x-forwarded-for": "::ffff:10.0.0.1"}}"#);
    assert!(plugin.evaluate_pre(&ctx, &Value::Null, None, &config).is_allow());
    let config = json(r#"{"_request_headers": {"x-forwarded-for": "::ffff:11.0.0.1"}}"#);
    let (message, _) = denial(&plugin.evaluate_pre(&ctx, &Value::Null, None, &config));
    assert_eq!(message, "Access denied: 11.0.0.1 not in IP allowlist");
}

#[test]
fn denial_of_a_foreign_address() {
    let plugin = load(r#"{"allow": ["10.0.0.0/8"]}"#);
    let config = json(r#"{"_request_headers": {"x-forwarded-for": "2001:DB8:0::1"}}"#);
    let result = plugin.evaluate_pre_inner_with_outcome(&caller("t"), &config);
    let (message, data) = denial(&result.decision);
    assert_eq!(message, "Access denied: 2001:db8::1 not in IP allowlist");
    assert_eq!(data, Some(json(r#"{"client_ip": "2001:db8::1"}"#)));
    assert_eq!(result.outcome, Outcome::DenyNotAllowlisted);
    assert_eq!(result.reason, Some(Reason::NotInAllowlist));
    assert_eq!(
        result.audit_payload,
        json(
            r#"{"tool": "t", "reason": "not_in_allowlist", "ip_header": "x-forwarded-for",
                "client_ip": "2001:db8::1", "subject": "alice"}"#
        )
    );
}

#[test]
fn denial_without_an_address() {
    let plugin = load(r#"{"allow": ["0.0.0.0/0", "::/0"], "ip_header": "h"}"#);
    let mut ctx = caller("t");
    ctx.identity.subject_id = None;
    let result = plugin.evaluate_pre_inner_with_outcome(&ctx, &json("{}"));
    let (message, data) = denial(&result.decision);
    assert_eq!(message, "Access denied: client IP not available");
    assert_eq!(data, None);
    assert_eq!(result.outcome, Outcome::DenyNotAllowlisted);
    assert_eq!(result.reason, Some(Reason::NoIp));
    assert_eq!(
        result.audit_payload,
        json(r#"{"tool": "t", "reason": "no_client_ip", "ip_header": "h", "subject": ""}"#)
    );
}

#[test]
fn admission_leaves_nothing_to_audit() {
    let plugin = load(r#"{"allow": ["10.0.0.0/8"], "tools": ["admin.?"]}"#);
    let config = json(r#"{"_request_headers": {"x-forwarded-for": "10.0.0.1"}}"#);
    let result = plugin.evaluate_pre_inner_with_outcome(&caller("admin.x"), &config);
    assert!(result.decision.is_allow());
    assert_eq!(result.outcome, Outcome::Allow);
    assert_eq!(result.reason, Some(Reason::InAllowlist));
    assert_eq!(result.audit_payload, Value::Null);
    let result = plugin.evaluate_pre_inner_with_outcome(&caller("admin.xy"), &Value::Null);
    assert!(result.decision.is_allow());
    assert_eq!(result.outcome, Outcome::Allow);
    assert_eq!(result.reason, None);
    assert_eq!(result.audit_payload, Value::Null);
}

#[test]
fn decisions_by_address_alone() {
    let plugin = load(r#"{"allow": ["10.0.0.0/8"]}"#);
    let ctx = caller("t");
    assert!(plugin.decide(&ctx, Some(IpAddr::V4(0x0a00_0001))).decision.is_allow());
    let (message, _) = denial(&plugin.decide(&ctx, Some(IpAddr::V4(0x0808_0808))).decision);
    assert_eq!(message, "Access denied: 8.8.8.8 not in IP allowlist");
    denial(&plugin.decide(&ctx, None).decision);
    let (message, _) = denial(&plugin.deny_address(&ctx, "nowhere").decision);
    assert_eq!(message, "Access denied: nowhere not in IP allowlist");
    denial(&plugin.deny_without_address(&ctx).decision);
    assert!(!load(r#"{"allow": []}"#).decide(&ctx, Some(IpAddr::V4(1))).decision.is_allow());
}

#[test]
fn the_caller_does_not_matter() {
    let plugin = load(r#"{"allow": ["10.0.0.0/8"]}"#);
    let config = json(r#"{"_request_headers": {"x-forwarded-for": "8.8.8.8"}}"#);
    let mut other = caller("t");
    other.identity = synthetic_system_identity();
    other.transport = "stdio".to_owned();
    let one = plugin.evaluate_pre(&caller("t"), &Value::Null, None, &config);
    let two = plugin.evaluate_pre(&other, &Value::Null, Some(&Value::Null), &config);
    assert_eq!(denial(&one), denial(&two));
}

#[test]
fn results_are_never_held_back() {
    let plugin = load(r#"{"allow": []}"#);
    let decision = plugin.evaluate_post(&caller("t"), &Value::Null, &Value::Null, 5, &Value::Null);
    assert!(decision.is_allow());
}

#[test]
fn labels() {
    assert_eq!(Outcome::Allow.label(), "allow");
    assert_eq!(Outcome::DenyNotAllowlisted.label(), "deny_not_allowlisted");
    assert_eq!(Outcome::Error.label(), "error");
    assert_eq!(
        (Reason::InAllowlist.decision_label(), Reason::InAllowlist.label()),
        ("allow", "in_allowlist")
    );
    assert_eq!(
        (Reason::NotInAllowlist.decision_label(), Reason::NotInAllowlist.label()),
        ("deny", "not_in_allowlist")
    );
    assert_eq!((Reason::NoIp.decision_label(), Reason::NoIp.label()), ("deny", "no_ip"));
}

#[test]
fn manifest_of_the_plugin() {
    let plugin = load(r#"{"allow": []}"#);
    let manifest = plugin.manifest();
    assert_eq!(manifest.id, PLUGIN_ID);
    assert_eq!(manifest.id, "dev.mcpg.ip-allowlist");
    assert_eq!(manifest.name, "IP Allowlist");
    assert_eq!(manifest.plugin_class, PluginClass::ToolGate);
    assert_eq!(manifest.protocol_version, "1.0");
    assert_eq!(manifest.module_path_prefix, "mcpg_plugin_security_ip_allowlist");
    assert_eq!(manifest.license, None);
    assert!(manifest.required_capabilities.is_empty());
}

#[test]
fn the_first_host_stays() {
    let mut plugin = load(r#"{"allow": []}"#);
    assert!(plugin.host_handle().is_none());
    assert!(plugin.set_host_handle(HostHandle { alias: "one".to_owned() }));
    assert!(!plugin.set_host_handle(HostHandle { alias: "two".to_owned() }));
    assert_eq!(plugin.host_handle().unwrap().alias, "one");
}

#[test]
fn span_attributes_of_a_call() {
    let plugin = load(r#"{"allow": [], "ip_header": "h"}"#);
    assert_eq!(
        plugin.span_attributes(&caller("t")),
        json(r#"{"tool": "t", "request_id": "req-1", "ip_header": "h"}"#)
    );
}

#[test]
fn reports_need_a_host() {
    let mut plugin = load(r#"{"allow": []}"#);
    let ctx = caller("t");
    assert!(plugin.emit_host_observability(&ctx, Outcome::Allow, 5, Value::Null).is_none());
    plugin.set_host_handle(HostHandle { alias: "edge".to_owned() });
    let report = plugin.emit_host_observability(&ctx, Outcome::Allow, 5, Value::Null).unwrap();
    assert_eq!(report.histogram, "mcpg_ip_allowlist_decision_seconds");
    assert_eq!(report.counter, "mcpg_ip_allowlist_decisions_total");
    assert_eq!(report.increment, 1);
    assert_eq!(report.labels, vec![("outcome", "allow")]);
    assert!(report.audit.is_none());

    let result = plugin.evaluate_pre_inner_with_outcome(&ctx, &json("{}"));
    let report = plugin
        .emit_host_observability(&ctx, result.outcome, 2_500_000, result.audit_payload)
        .unwrap();
    assert_eq!(report.labels, vec![("outcome", "deny_not_allowlisted")]);
    let event = report.audit.unwrap();
    assert_eq!(event.occurred_at.len(), 24);
    assert_eq!(
        event.details,
        json(
            r#"{"tool": "t", "reason": "no_client_ip", "ip_header": "x-forwarded-for",
                "subject": "alice", "alias": "edge", "duration_ms": 2}"#
        )
    );
}

#[test]
fn audit_events() {
    let ctx = caller("t");
    let payload = json(r#"{"tool": "t", "alias": "old"}"#);
    let report = report_at(
        "edge",
        &ctx,
        Outcome::DenyNotAllowlisted,
        12_345_678_901,
        payload,
        "now".to_owned(),
    );
    let event = report.audit.unwrap();
    assert_eq!(event.event_id, "ip-allowlist-req-1-12345678901");
    assert_eq!(event.occurred_at, "now");
    assert_eq!(event.action, "dev.mcpg.ip_allowlist.rejected");
    assert_eq!(event.resource.as_deref(), Some("tool://t"));
    assert_eq!(event.outcome, AuditOutcome::Denied);
    assert_eq!(event.request_id.as_deref(), Some("req-1"));
    assert_eq!(event.upstream_request_id, None);
    assert_eq!(event.node_id, None);
    assert_eq!(event.prev_event_hash, None);
    assert_eq!(event.details, json(r#"{"tool": "t", "alias": "edge", "duration_ms": 12345}"#));
    assert_eq!(event.actor.kind, "user");
    assert_eq!(event.actor.subject_id.as_deref(), Some("alice"));
    assert_eq!(event.actor.auth_provider.as_deref(), Some("idp"));
    assert_eq!(event.actor.issuer, None);
    assert_eq!(event.actor.roles, vec!["r1", "r2"]);
    assert_eq!(event.actor.groups, vec!["g"]);
    assert!(event.actor.scopes.is_empty());
    assert_eq!(event.actor.attributes, ctx.identity.attributes);
}

#[test]
fn audit_events_without_a_caller() {
    let mut ctx = caller("t");
    ctx.identity.kind = String::new();
    let report = report_at("edge", &ctx, Outcome::Error, u128::MAX, Value::Null, String::new());
    assert_eq!(report.labels, vec![("outcome", "error")]);
    let event = report.audit.unwrap();
    assert_eq!(event.event_id, "ip-allowlist-req-1-340282366920938463463374607431768211455");
    assert_eq!(event.action, "dev.mcpg.ip_allowlist.error");
    assert_eq!(event.outcome, AuditOutcome::Failure);
    assert_eq!(event.details, Value::Null);
    assert_eq!(event.actor.kind, "system");
    assert_eq!(event.actor.trust_level, "verified");
    assert_eq!(event.actor.subject_id.as_deref(), Some("dev.mcpg.ip-allowlist"));
    assert!(event.actor.roles.is_empty() && event.actor.attributes.is_empty());
}

#[test]
fn long_durations_keep_their_low_bits() {
    let ctx = caller("t");
    let nanos = ((1u128 << 64) + 7) * 1_000_000;
    let report =
        report_at("a", &ctx, Outcome::DenyNotAllowlisted, nanos, json("{}"), String::new());
    assert_eq!(report.audit.unwrap().details, json(r#"{"alias": "a", "duration_ms": 7}"#));
}
