//! The plugin: loading it from a configuration, deciding calls, and reporting
//! decisions to the host.

use serde_json::Value;
use vstd::prelude::*;

use crate::address::network_contains;
use crate::address::normalize_mapped_ipv4;
use crate::address::parse_address;
use crate::address::parse_network;
use crate::address::show_address;
use crate::address::IpAddr;
use crate::address::Network;
use crate::calendar::is_reading;
use crate::calendar::reading_text;
use crate::calendar::rfc3339_now;
use crate::config::fault_message;
use crate::config::ConfigError;
use crate::config::IpAllowlistConfig;
use crate::glob::glob_match;
use crate::glob::glob_matches;
use crate::json::as_object;
use crate::json::as_object_mut;
use crate::json::as_str;
use crate::json::get;
use crate::json::get_field;
use crate::json::insert;
use crate::json::json_of;
use crate::json::new_object;
use crate::json::null_value;
use crate::json::number_value;
use crate::json::object_value;
use crate::json::parse_json;
use crate::json::parsed_json;
use crate::json::put_text;
use crate::json::text_value;
use crate::json::Json;
use crate::policy::all_valid;
use crate::policy::client_address;
use crate::policy::denied_address;
use crate::policy::denied_without_address;
use crate::policy::evaluation;
use crate::policy::event_details;
use crate::policy::fresh_plugin;
use crate::policy::guarded_evaluation;
use crate::policy::hop_address;
use crate::policy::host_report;
use crate::policy::is_admitted;
use crate::policy::is_guarded;
use crate::policy::load_plugin;
use crate::policy::plugin_manifest;
use crate::policy::preferred_address;
use crate::policy::read_networks;
use crate::policy::span_fields;
use crate::policy::system_identity;
use crate::policy::whole_address;
use crate::policy::with_host;
use crate::policy::DENY_CODE;
use crate::policy::DENY_STATUS;
use crate::policy::EvaluationView;
use crate::policy::Outcome;
use crate::policy::PluginView;
use crate::policy::Reason;
use crate::policy::ReportView;
use crate::protocol::AuditEvent;
use crate::protocol::AuditOutcome;
use crate::protocol::GateDecision;
use crate::protocol::HostHandle;
use crate::protocol::PluginClass;
use crate::protocol::PluginContext;
use crate::protocol::PluginIdentity;
use crate::protocol::PluginManifest;
use crate::text::decimal;
use crate::text::first_hop;
use crate::text::same_text;
use crate::text::texts;
use crate::text::trim;

verus! {

/// The identifier of the plugin.
pub const PLUGIN_ID: &'static str = "dev.mcpg.ip-allowlist";

/// The version of the plugin.
pub const PLUGIN_VERSION: &'static str = "0.1.0";

/// Admits calls of guarded tools from listed networks and denies all others.
pub struct IpAllowlistPlugin {
    manifest: PluginManifest,
    networks: Vec<Network>,
    ip_header: String,
    tool_patterns: Vec<String>,
    host_handle: Option<HostHandle>,
}

impl View for IpAllowlistPlugin {
    type V = PluginView;

    closed spec fn view(&self) -> PluginView {
        PluginView {
            manifest: self.manifest@,
            networks: self.networks@,
            ip_header: self.ip_header@,
            tool_patterns: texts(self.tool_patterns@),
            host: match self.host_handle {
                Some(host) => Some(host.alias@),
                None => None,
            },
        }
    }
}

/// A decision with what is reported of it.
#[derive(Debug)]
pub struct Evaluation {
    pub decision: GateDecision,
    pub outcome: Outcome,
    /// The details of an audit event; null where there is nothing to audit.
    pub audit_payload: Value,
    /// Why the call was decided so, where it was guarded.
    pub reason: Option<Reason>,
}

impl View for Evaluation {
    type V = EvaluationView;

    open spec fn view(&self) -> EvaluationView {
        EvaluationView {
            decision: self.decision@,
            outcome: self.outcome,
            audit_payload: json_of(self.audit_payload),
            reason: self.reason,
        }
    }
}

/// What is to be reported to the host of an evaluation.
#[derive(Debug)]
pub struct HostReport {
    pub histogram: &'static str,
    pub counter: &'static str,
    pub increment: u64,
    pub labels: Vec<(&'static str, &'static str)>,
    pub audit: Option<AuditEvent>,
}

impl View for HostReport {
    type V = ReportView;

    open spec fn view(&self) -> ReportView {
        ReportView {
            histogram: self.histogram@,
            counter: self.counter@,
            increment: self.increment,
            labels: self.labels@.map_values(|label: (&'static str, &'static str)| (label.0@, label.1@)),
            audit: match self.audit {
                Some(event) => Some(event@),
                None => None,
            },
        }
    }
}

impl IpAllowlistPlugin {
    #[verifier::type_invariant]
    closed spec fn networks_are_valid(self) -> bool {
        all_valid(self.networks@)
    }

    /// A plugin with the given networks, header and tool globs, which reports
    /// to no host yet.
    pub fn with_networks(
        networks: Vec<Network>,
        ip_header: String,
        tool_patterns: Vec<String>,
    ) -> (plugin: IpAllowlistPlugin)
        requires
            all_valid(networks@),
        ensures
            plugin@ == fresh_plugin(networks@, ip_header@, texts(tool_patterns@)),
    {
        let manifest = PluginManifest {
            id: PLUGIN_ID.to_owned(),
            version: PLUGIN_VERSION.to_owned(),
            name: "IP Allowlist".to_owned(),
            plugin_class: PluginClass::ToolGate,
            protocol_version: "1.0".to_owned(),
            license: None,
            required_capabilities: Vec::new(),
            tags: Vec::new(),
            provides: Vec::new(),
            provides_schemes: Vec::new(),
            module_path_prefix: "mcpg_plugin_security_ip_allowlist".to_owned(),
            backend_profile: None,
        };
        proof {
            let none = Seq::<String>::empty();
            assert(texts(none) =~= Seq::<Seq<char>>::empty());
            assert(manifest@ == plugin_manifest());
        }
        IpAllowlistPlugin { manifest, networks, ip_header, tool_patterns, host_handle: None }
    }

    /// Loads the plugin from a configuration document. A document that is no
    /// configuration and an entry of `allow` that is no network are refused,
    /// with words for the operator.
    pub fn from_config(config_value: &Value) -> (loaded: Result<IpAllowlistPlugin, String>)
        ensures
            match load_plugin(json_of(*config_value)) {
                Ok(view) => loaded is Ok && loaded->Ok_0@ == view && all_valid(view.networks),
                Err(fault) => loaded is Err && loaded->Err_0@ == fault_message(fault),
            },
    {
        let config = match IpAllowlistConfig::from_value(config_value) {
            Ok(config) => config,
            Err(error) => return Err(error.message()),
        };
        let networks = match parse_networks(&config.allow) {
            Ok(networks) => networks,
            Err(error) => return Err(error.message()),
        };
        Ok(IpAllowlistPlugin::with_networks(networks, config.ip_header, config.tools))
    }
}

impl IpAllowlistPlugin {
    /// Loads the plugin from the text of a configuration that is known to be
    /// good.
    pub fn from_config_json(config_json: &str) -> (plugin: IpAllowlistPlugin)
        requires
            parsed_json(config_json@) is Ok,
            load_plugin(parsed_json(config_json@)->Ok_0) is Ok,
        ensures
            load_plugin(parsed_json(config_json@)->Ok_0) == Ok::<
                PluginView,
                crate::config::ConfigFault,
            >(plugin@),
            all_valid(plugin@.networks),
    {
        let config_value = parse_json(config_json).unwrap();
        IpAllowlistPlugin::from_config(&config_value).unwrap()
    }

    /// Loads the plugin from the text of a configuration. A text that is no
    /// JSON document and a document that is no good configuration are refused:
    /// there is no plugin with a part of its allowlist.
    pub fn try_from_config_json(config_json: &str) -> (loaded: Result<IpAllowlistPlugin, String>)
        ensures
            match parsed_json(config_json@) {
                Ok(document) => match load_plugin(document) {
                    Ok(view) => loaded is Ok && loaded->Ok_0@ == view && all_valid(view.networks),
                    Err(fault) => loaded is Err && loaded->Err_0@
                        == "ip-allowlist: config invalid: "@ + fault_message(fault),
                },
                Err(words) => loaded is Err && loaded->Err_0@
                    == "ip-allowlist: config JSON failed to parse: "@ + words,
            },
    {
        match parse_json(config_json) {
            Ok(config_value) => match IpAllowlistPlugin::from_config(&config_value) {
                Ok(_) => Ok(IpAllowlistPlugin::from_config_json(config_json)),
                Err(words) => Err(
                    "ip-allowlist: config invalid: ".to_owned().concat(words.as_str()),
                ),
            },
            Err(words) => Err(
                "ip-allowlist: config JSON failed to parse: ".to_owned().concat(words.as_str()),
            ),
        }
    }

    /// How the plugin presents itself to the host.
    pub fn manifest(&self) -> (manifest: &PluginManifest)
        ensures
            manifest@ == self@.manifest,
    {
        &self.manifest
    }

    /// Installs the host that decisions are reported to. The first host stays:
    /// installing another changes nothing and returns false.
    pub fn set_host_handle(&mut self, host: HostHandle) -> (installed: bool)
        ensures
            installed == (old(self)@.host is None),
            final(self)@ == (PluginView {
                host: if old(self)@.host is None {
                    Some(host.alias@)
                } else {
                    old(self)@.host
                },
                ..old(self)@
            }),
            final(self)@ == with_host(old(self)@, host.alias@),
    {
        proof {
            use_type_invariant(&*self);
        }
        if self.host_handle.is_none() {
            self.host_handle = Some(host);
            true
        } else {
            false
        }
    }

    /// The host that decisions are reported to, once there is one.
    pub fn host_handle(&self) -> (host: Option<&HostHandle>)
        ensures
            match host {
                Some(host) => self@.host == Some(host.alias@),
                None => self@.host is None,
            },
    {
        self.host_handle.as_ref()
    }

    /// The client address of a call, read from the request headers in its
    /// evaluation config.
    pub fn extract_client_ip(&self, config: &Value) -> (client: Option<IpAddr>)
        ensures
            client == client_address(self@.ip_header, json_of(*config)),
    {
        let headers = match get(config, "_request_headers") {
            Some(value) => match as_object(value) {
                Some(headers) => headers,
                None => return None,
            },
            None => return None,
        };
        let hop = parse_first_hop(get_field(headers, self.ip_header.as_str()));
        if hop.is_some() {
            return choose_address(hop, None);
        }
        let fallback = if same_text(self.ip_header.as_str(), "x-real-ip") {
            None
        } else {
            parse_whole(get_field(headers, "x-real-ip"))
        };
        choose_address(hop, fallback)
    }

    /// Whether an address lies in a listed network.
    pub fn is_allowed(&self, ip: &IpAddr) -> (allowed: bool)
        ensures
            allowed == is_admitted(self@.networks, *ip),
            all_valid(self@.networks),
    {
        proof {
            use_type_invariant(self);
        }
        let mut i: usize = 0;
        while i < self.networks.len()
            invariant
                i <= self.networks@.len(),
                self.networks_are_valid(),
                forall|j: int| 0 <= j < i ==> !(#[trigger] self.networks@[j]).covers(*ip),
            decreases self.networks@.len() - i,
        {
            if network_contains(&self.networks[i], ip) {
                return true;
            }
            i = i + 1;
        }
        false
    }

    /// Whether calls of a tool are guarded.
    pub fn applies_to_tool(&self, tool_name: &str) -> (applies: bool)
        ensures
            applies == is_guarded(self@.tool_patterns, tool_name@),
    {
        let ghost patterns = texts(self.tool_patterns@);
        if self.tool_patterns.len() == 0 {
            return true;
        }
        let mut i: usize = 0;
        while i < self.tool_patterns.len()
            invariant
                i <= self.tool_patterns@.len(),
                self.tool_patterns@.len() > 0,
                patterns == texts(self.tool_patterns@),
                forall|j: int| 0 <= j < i ==> !glob_matches(#[trigger] patterns[j], tool_name@),
            decreases self.tool_patterns@.len() - i,
        {
            assert(patterns[i as int] == self.tool_patterns@[i as int]@);
            if glob_match(self.tool_patterns[i].as_str(), tool_name) {
                return true;
            }
            i = i + 1;
        }
        false
    }

    /// The evaluation of a guarded call without a client address.
    pub fn deny_without_address(&self, ctx: &PluginContext) -> (evaluation: Evaluation)
        ensures
            evaluation@ == denied_without_address(self@.ip_header, ctx@),
    {
        let mut details = new_object();
        put_text(&mut details, "tool", ctx.tool_name.as_str());
        put_text(&mut details, "reason", "no_client_ip");
        put_text(&mut details, "ip_header", self.ip_header.as_str());
        put_text(&mut details, "subject", subject(&ctx.identity));
        Evaluation {
            decision: GateDecision::Deny {
                http_status: DENY_STATUS,
                code: DENY_CODE,
                message: "Access denied: client IP not available".to_owned(),
                error_data: None,
            },
            outcome: Outcome::DenyNotAllowlisted,
            audit_payload: object_value(details),
            reason: Some(Reason::NoIp),
        }
    }

    /// The evaluation of a guarded call from an address, given as text, that
    /// is not admitted.
    pub fn deny_address(&self, ctx: &PluginContext, address: &str) -> (evaluation: Evaluation)
        ensures
            evaluation@ == denied_address(self@.ip_header, ctx@, address@),
    {
        let mut details = new_object();
        put_text(&mut details, "tool", ctx.tool_name.as_str());
        put_text(&mut details, "reason", "not_in_allowlist");
        put_text(&mut details, "ip_header", self.ip_header.as_str());
        put_text(&mut details, "client_ip", address);
        put_text(&mut details, "subject", subject(&ctx.identity));
        let mut data = new_object();
        put_text(&mut data, "client_ip", address);
        Evaluation {
            decision: GateDecision::Deny {
                http_status: DENY_STATUS,
                code: DENY_CODE,
                message: "Access denied: ".to_owned().concat(address).concat(
                    " not in IP allowlist",
                ),
                error_data: Some(object_value(data)),
            },
            outcome: Outcome::DenyNotAllowlisted,
            audit_payload: object_value(details),
            reason: Some(Reason::NotInAllowlist),
        }
    }

    /// The evaluation of a guarded call, by its client address.
    pub fn decide(&self, ctx: &PluginContext, client: Option<IpAddr>) -> (evaluation: Evaluation)
        ensures
            evaluation@ == guarded_evaluation(self@, ctx@, client),
    {
        match client {
            None => self.deny_without_address(ctx),
            Some(ip) => if self.is_allowed(&ip) {
                Evaluation {
                    decision: GateDecision::Allow,
                    outcome: Outcome::Allow,
                    audit_payload: null_value(),
                    reason: Some(Reason::InAllowlist),
                }
            } else {
                self.deny_address(ctx, show_address(ip).as_str())
            },
        }
    }

    /// The decision of a call before it is dispatched, with what is reported of
    /// it.
    pub fn evaluate_pre_inner_with_outcome(&self, ctx: &PluginContext, config: &Value) -> (
    evaluation: Evaluation)
        ensures
            evaluation@ == crate::policy::evaluation(self@, ctx@, json_of(*config)),
    {
        if !self.applies_to_tool(ctx.tool_name.as_str()) {
            return Evaluation {
                decision: GateDecision::Allow,
                outcome: Outcome::Allow,
                audit_payload: null_value(),
                reason: None,
            };
        }
        self.decide(ctx, self.extract_client_ip(config))
    }

    /// Decides a call before it is dispatched.
    pub fn evaluate_pre(
        &self,
        ctx: &PluginContext,
        _arguments: &Value,
        _meta: Option<&Value>,
        config: &Value,
    ) -> (decision: GateDecision)
        ensures
            decision@ == evaluation(self@, ctx@, json_of(*config)).decision,
    {
        self.evaluate_pre_inner_with_outcome(ctx, config).decision
    }

    /// Decides a call after it was dispatched: results are never held back.
    pub fn evaluate_post(
        &self,
        _ctx: &PluginContext,
        _arguments: &Value,
        _result: &Value,
        _duration_ms: u64,
        _config: &Value,
    ) -> (decision: GateDecision)
        ensures
            decision@ is Allow,
    {
        GateDecision::Allow
    }

    /// The attributes of the span that the host opens around an evaluation.
    pub fn span_attributes(&self, ctx: &PluginContext) -> (attributes: Value)
        ensures
            json_of(attributes) == Json::Object(span_fields(self@, ctx@)),
    {
        let mut attributes = new_object();
        put_text(&mut attributes, "tool", ctx.tool_name.as_str());
        put_text(&mut attributes, "request_id", ctx.request_id.as_str());
        put_text(&mut attributes, "ip_header", self.ip_header.as_str());
        object_value(attributes)
    }

    /// What is to be reported to the host of an evaluation that took
    /// `duration_nanos` nanoseconds; nothing where there is no host. Audit
    /// events carry the time of the clock.
    pub fn emit_host_observability(
        &self,
        ctx: &PluginContext,
        outcome: Outcome,
        duration_nanos: u128,
        audit_payload: Value,
    ) -> (report: Option<HostReport>)
        ensures
            report is Some <==> self@.host is Some,
            report matches Some(report) ==> exists|reading: Option<(u64, u32)>|
                is_reading(reading) && report@ == host_report(
                    self@.host->Some_0,
                    ctx@,
                    outcome,
                    duration_nanos as nat,
                    json_of(audit_payload),
                    #[trigger] reading_text(reading),
                ),
    {
        match self.host_handle() {
            Some(host) => {
                let occurred_at = rfc3339_now();
                Some(
                    report_at(
                        host.alias.as_str(),
                        ctx,
                        outcome,
                        duration_nanos,
                        audit_payload,
                        occurred_at,
                    ),
                )
            },
            None => None,
        }
    }
}

fn parse_first_hop(value: Option<&Value>) -> (parsed: Option<IpAddr>)
    ensures
        parsed == match value {
            Some(value) => hop_address(Some(json_of(*value))),
            None => None,
        },
{
    match value {
        Some(value) => match as_str(value) {
            Some(text) => parse_address(trim(first_hop(text))),
            None => None,
        },
        None => None,
    }
}

fn parse_whole(value: Option<&Value>) -> (parsed: Option<IpAddr>)
    ensures
        parsed == match value {
            Some(value) => whole_address(Some(json_of(*value))),
            None => None,
        },
{
    match value {
        Some(value) => match as_str(value) {
            Some(text) => parse_address(trim(text)),
            None => None,
        },
        None => None,
    }
}

/// Of the address in the configured header and the one in the fallback header,
/// the one that counts, in the form in which it is matched.
pub fn choose_address(hop: Option<IpAddr>, fallback: Option<IpAddr>) -> (chosen: Option<IpAddr>)
    ensures
        chosen == preferred_address(hop, fallback),
{
    match hop {
        Some(ip) => Some(normalize_mapped_ipv4(ip)),
        None => match fallback {
            Some(ip) => Some(normalize_mapped_ipv4(ip)),
            None => None,
        },
    }
}

fn subject(identity: &PluginIdentity) -> (text: &str)
    ensures
        text@ == crate::policy::subject_text(identity@),
{
    match &identity.subject_id {
        Some(subject) => subject.as_str(),
        None => {
            proof {
                reveal_strlit("");
                assert(""@ =~= Seq::<char>::empty());
            }
            ""
        },
    }
}

/// Who audit events of calls without caller attribution are attributed to.
pub fn synthetic_system_identity() -> (identity: PluginIdentity)
    ensures
        identity@ == system_identity(),
{
    let identity = PluginIdentity {
        kind: "system".to_owned(),
        trust_level: "verified".to_owned(),
        subject_id: Some(PLUGIN_ID.to_owned()),
        auth_provider: None,
        issuer: None,
        roles: Vec::new(),
        groups: Vec::new(),
        scopes: Vec::new(),
        attributes: new_object(),
    };
    proof {
        let none = Seq::<String>::empty();
        assert(texts(none) =~= Seq::<Seq<char>>::empty());
    }
    identity
}

/// The details of an audit event: those of the evaluation, and for an object
/// also the plugin's alias and how long the evaluation took.
fn complete_details(alias: &str, duration_nanos: u128, audit_payload: Value) -> (details: Value)
    ensures
        json_of(details) == event_details(
            alias@,
            duration_nanos as nat,
            json_of(audit_payload),
        ),
{
    let mut details = audit_payload;
    let millis: u128 = duration_nanos / 1_000_000;
    let duration_ms: u64 = (millis % 0x1_0000_0000_0000_0000) as u64;
    if let Some(fields) = as_object_mut(&mut details) {
        insert(fields, "alias".to_owned(), text_value(alias.to_owned()));
        insert(fields, "duration_ms".to_owned(), number_value(duration_ms));
    }
    details
}

/// What is to be reported to a host, known by its alias for the plugin, of an
/// evaluation that took `duration_nanos` nanoseconds and ended at
/// `occurred_at`.
pub fn report_at(
    alias: &str,
    ctx: &PluginContext,
    outcome: Outcome,
    duration_nanos: u128,
    audit_payload: Value,
    occurred_at: String,
) -> (report: HostReport)
    ensures
        report@ == host_report(
            alias@,
            ctx@,
            outcome,
            duration_nanos as nat,
            json_of(audit_payload),
            occurred_at@,
        ),
{
    let mut labels: Vec<(&'static str, &'static str)> = Vec::new();
    labels.push(("outcome", outcome.label()));
    let action = match outcome {
        Outcome::DenyNotAllowlisted => Some("dev.mcpg.ip_allowlist.rejected"),
        Outcome::Error => Some("dev.mcpg.ip_allowlist.error"),
        Outcome::Allow => None,
    };
    let audit = match action {
        Some(action) => {
            let actor = if ctx.identity.kind.as_str().is_empty() {
                synthetic_system_identity()
            } else {
                ctx.identity.clone()
            };
            Some(
                AuditEvent {
                    event_id: "ip-allowlist-".to_owned().concat(ctx.request_id.as_str()).concat(
                        "-",
                    ).concat(decimal(duration_nanos).as_str()),
                    occurred_at,
                    actor,
                    action: action.to_owned(),
                    resource: Some("tool://".to_owned().concat(ctx.tool_name.as_str())),
                    outcome: match outcome {
                        Outcome::Error => AuditOutcome::Failure,
                        _ => AuditOutcome::Denied,
                    },
                    request_id: Some(ctx.request_id.clone()),
                    upstream_request_id: None,
                    node_id: None,
                    details: complete_details(alias, duration_nanos, audit_payload),
                    prev_event_hash: None,
                },
            )
        },
        None => None,
    };
    let report = HostReport {
        histogram: "mcpg_ip_allowlist_decision_seconds",
        counter: "mcpg_ip_allowlist_decisions_total",
        increment: 1,
        labels,
        audit,
    };
    proof {
        assert(report@.labels =~= seq![("outcome"@, crate::policy::outcome_label(outcome))]);
    }
    report
}

/// Reads the entries of an allowlist, up to the first that is no network.
fn parse_networks(allow: &Vec<String>) -> (parsed: Result<Vec<Network>, ConfigError>)
    ensures
        match parsed {
            Ok(networks) => {
                &&& read_networks(texts(allow@)) == Ok::<Seq<Network>, crate::config::ConfigFault>(
                    networks@,
                )
                &&& all_valid(networks@)
            },
            Err(error) => read_networks(texts(allow@)) == Err::<
                Seq<Network>,
                crate::config::ConfigFault,
            >(error@),
        },
{
    let ghost entries = texts(allow@);
    let mut networks: Vec<Network> = Vec::with_capacity(allow.len());
    let mut i: usize = 0;
    assert(entries.take(0) =~= Seq::<Seq<char>>::empty());
    while i < allow.len()
        invariant
            i <= allow@.len(),
            entries == texts(allow@),
            read_networks(entries.take(i as int)) == Ok::<Seq<Network>, crate::config::ConfigFault>(
                networks@,
            ),
            forall|j: int| 0 <= j < networks@.len() ==> (#[trigger] networks@[j]).valid(),
        decreases allow@.len() - i,
    {
        let cidr = allow[i].as_str();
        proof {
            assert(entries.take(i + 1).drop_last() =~= entries.take(i as int));
            assert(entries.take(i + 1).last() == cidr@);
        }
        match parse_network(cidr) {
            Ok(network) => {
                networks.push(network);
            },
            Err(words) => {
                proof {
                    refusal_stands(entries, i + 1);
                }
                return Err(ConfigError::InvalidCidr(cidr.to_owned(), words));
            },
        }
        i = i + 1;
    }
    assert(entries.take(i as int) =~= entries);
    Ok(networks)
}

/// A refused beginning of an allowlist is refused in the same words however the
/// allowlist goes on.
proof fn refusal_stands(allow: Seq<Seq<char>>, n: int)
    requires
        0 <= n <= allow.len(),
        read_networks(allow.take(n)) is Err,
    ensures
        read_networks(allow) == read_networks(allow.take(n)),
    decreases allow.len(),
{
    if n == allow.len() {
        assert(allow.take(n) =~= allow);
    } else {
        assert(allow.drop_last().take(n) =~= allow.take(n));
        refusal_stands(allow.drop_last(), n);
    }
}

/// Contracts speak of every part of an evaluation.
pub proof fn evaluation_is_seen_whole(evaluation: Evaluation)
    ensures
        evaluation@.decision == evaluation.decision@,
        evaluation@.outcome == evaluation.outcome,
        evaluation@.audit_payload == json_of(evaluation.audit_payload),
        evaluation@.reason == evaluation.reason,
{
}

/// Contracts speak of every part of a report.
pub proof fn report_is_seen_whole(report: HostReport)
    ensures
        report@.histogram == report.histogram@,
        report@.counter == report.counter@,
        report@.increment == report.increment,
        report@.labels.len() == report.labels@.len(),
        forall|i: int|
            0 <= i < report.labels@.len() ==> report@.labels[i] == (
                (#[trigger] report.labels@[i]).0@,
                report.labels@[i].1@,
            ),
        report.audit is Some <==> report@.audit is Some,
        report.audit matches Some(event) ==> report@.audit == Some(event@),
{
}

}
