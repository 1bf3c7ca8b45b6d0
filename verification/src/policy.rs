//! What the allowlist decides: which calls are guarded, whose address counts,
//! who is admitted, and what is reported of it.

use vstd::prelude::*;

use crate::address::address_text;
use crate::address::normalized;
use crate::address::parsed_address;
use crate::address::parsed_network;
use crate::address::IpAddr;
use crate::address::Network;
use crate::config::read_config;
use crate::config::ConfigFault;
use crate::glob::glob_matches;
use crate::json::field_of;
use crate::json::no_fields;
use crate::json::Json;
use crate::protocol::ContextView;
use crate::protocol::DecisionView;
use crate::protocol::EventView;
use crate::protocol::IdentityView;
use crate::protocol::ManifestView;
use crate::text::before_comma;
use crate::text::decimal_text;
use crate::text::trimmed;

verus! {

/// The HTTP status of every denial.
pub const DENY_STATUS: u16 = 403;

/// The JSON-RPC error code of every denial.
pub const DENY_CODE: i32 = -32030;

/// What a loaded plugin goes by.
pub ghost struct PluginView {
    pub manifest: ManifestView,
    pub networks: Seq<Network>,
    pub ip_header: Seq<char>,
    pub tool_patterns: Seq<Seq<char>>,
    /// The alias of the host that the plugin reports to, once there is one.
    pub host: Option<Seq<char>>,
}

/// How an evaluation ended, as it is reported to the host.
#[derive(Clone, Copy, Debug, PartialEq, Eq, Structural)]
pub enum Outcome {
    Allow,
    DenyNotAllowlisted,
    /// Kept for failures of the evaluation itself, which cannot fail today.
    Error,
}

/// Why a guarded call was decided as it was.
#[derive(Clone, Copy, Debug, PartialEq, Eq, Structural)]
pub enum Reason {
    InAllowlist,
    NotInAllowlist,
    NoIp,
}

/// The label of an outcome in the host's metrics.
pub open spec fn outcome_label(outcome: Outcome) -> Seq<char> {
    match outcome {
        Outcome::Allow => "allow"@,
        Outcome::DenyNotAllowlisted => "deny_not_allowlisted"@,
        Outcome::Error => "error"@,
    }
}

/// The `reason` label of a decision in the plugin's own metrics.
pub open spec fn reason_label(reason: Reason) -> Seq<char> {
    match reason {
        Reason::InAllowlist => "in_allowlist"@,
        Reason::NotInAllowlist => "not_in_allowlist"@,
        Reason::NoIp => "no_ip"@,
    }
}

/// The `decision` label of a decision in the plugin's own metrics.
pub open spec fn decision_label(reason: Reason) -> Seq<char> {
    match reason {
        Reason::InAllowlist => "allow"@,
        _ => "deny"@,
    }
}

impl Outcome {
    /// The label of the outcome in the host's metrics.
    pub fn label(self) -> (label: &'static str)
        ensures
            label@ == outcome_label(self),
    {
        match self {
            Outcome::Allow => "allow",
            Outcome::DenyNotAllowlisted => "deny_not_allowlisted",
            Outcome::Error => "error",
        }
    }
}

impl Reason {
    /// The `reason` label in the plugin's own metrics.
    pub fn label(self) -> (label: &'static str)
        ensures
            label@ == reason_label(self),
    {
        match self {
            Reason::InAllowlist => "in_allowlist",
            Reason::NotInAllowlist => "not_in_allowlist",
            Reason::NoIp => "no_ip",
        }
    }

    /// The `decision` label in the plugin's own metrics.
    pub fn decision_label(self) -> (label: &'static str)
        ensures
            label@ == decision_label(self),
    {
        match self {
            Reason::InAllowlist => "allow",
            _ => "deny",
        }
    }
}

/// The networks that the entries of an allowlist stand for, in their order, or
/// the first entry that stands for none.
pub open spec fn read_networks(allow: Seq<Seq<char>>) -> Result<Seq<Network>, ConfigFault>
    decreases allow.len(),
{
    if allow.len() == 0 {
        Ok(Seq::empty())
    } else {
        match read_networks(allow.drop_last()) {
            Ok(networks) => match parsed_network(allow.last()) {
                Some(network) => Ok(networks.push(network)),
                None => Err(
                    ConfigFault::InvalidCidr(allow.last(), "invalid IP address syntax"@),
                ),
            },
            Err(fault) => Err(fault),
        }
    }
}

/// How the plugin presents itself to the host.
pub open spec fn plugin_manifest() -> ManifestView {
    ManifestView {
        id: "dev.mcpg.ip-allowlist"@,
        version: "0.1.0"@,
        name: "IP Allowlist"@,
        plugin_class: crate::protocol::PluginClass::ToolGate,
        protocol_version: "1.0"@,
        license: None,
        required_capabilities: Seq::empty(),
        tags: Seq::empty(),
        provides: Seq::empty(),
        provides_schemes: Seq::empty(),
        module_path_prefix: "mcpg_plugin_security_ip_allowlist"@,
        backend_profile: None,
    }
}

/// A plugin with the given networks, header and tool globs that reports to no
/// host yet.
pub open spec fn fresh_plugin(
    networks: Seq<Network>,
    ip_header: Seq<char>,
    tool_patterns: Seq<Seq<char>>,
) -> PluginView {
    PluginView { manifest: plugin_manifest(), networks, ip_header, tool_patterns, host: None }
}

/// A plugin after a host was offered to it: the first host stays.
pub open spec fn with_host(plugin: PluginView, alias: Seq<char>) -> PluginView {
    match plugin.host {
        Some(_) => plugin,
        None => PluginView { host: Some(alias), ..plugin },
    }
}

/// The plugin that a configuration document describes, or why there is none.
pub open spec fn load_plugin(document: Json) -> Result<PluginView, ConfigFault> {
    match read_config(document) {
        Ok(config) => match read_networks(config.allow) {
            Ok(networks) => Ok(fresh_plugin(networks, config.ip_header, config.tools)),
            Err(fault) => Err(fault),
        },
        Err(fault) => Err(fault),
    }
}

/// Whether calls of a tool are guarded.
pub open spec fn is_guarded(tool_patterns: Seq<Seq<char>>, tool: Seq<char>) -> bool {
    ||| tool_patterns.len() == 0
    ||| exists|i: int| 0 <= i < tool_patterns.len() && glob_matches(#[trigger] tool_patterns[i], tool)
}

/// Whether every one of the networks has a prefix that its address has room
/// for.
pub open spec fn all_valid(networks: Seq<Network>) -> bool {
    forall|i: int| 0 <= i < networks.len() ==> (#[trigger] networks[i]).valid()
}

/// Whether an address lies in one of the networks.
pub open spec fn is_admitted(networks: Seq<Network>, ip: IpAddr) -> bool {
    exists|i: int| 0 <= i < networks.len() && (#[trigger] networks[i]).covers(ip)
}

/// The address in the first hop of a header value.
pub open spec fn hop_address(value: Option<Json>) -> Option<IpAddr> {
    match value {
        Some(Json::Text(text)) => parsed_address(trimmed(before_comma(text))),
        _ => None,
    }
}

/// The address that a whole header value is.
pub open spec fn whole_address(value: Option<Json>) -> Option<IpAddr> {
    match value {
        Some(Json::Text(text)) => parsed_address(trimmed(text)),
        _ => None,
    }
}

/// Of the address in the configured header and the one in the fallback header,
/// the one that counts, in the form in which it is matched.
pub open spec fn preferred_address(hop: Option<IpAddr>, fallback: Option<IpAddr>) -> Option<
    IpAddr,
> {
    match hop {
        Some(ip) => Some(normalized(ip)),
        None => match fallback {
            Some(ip) => Some(normalized(ip)),
            None => None,
        },
    }
}

/// The client address of a call, read from the request headers in its
/// evaluation config: the first hop of the configured header, else the header
/// `x-real-ip`.
pub open spec fn client_address(ip_header: Seq<char>, config: Json) -> Option<IpAddr> {
    match config.field("_request_headers"@) {
        Some(Json::Object(headers)) => preferred_address(
            hop_address(field_of(headers, ip_header)),
            if ip_header == "x-real-ip"@ {
                None
            } else {
                whole_address(field_of(headers, "x-real-ip"@))
            },
        ),
        _ => None,
    }
}

/// What an evaluation comes to.
pub ghost struct EvaluationView {
    pub decision: DecisionView,
    pub outcome: Outcome,
    pub audit_payload: Json,
    pub reason: Option<Reason>,
}

/// The evaluation of a call that is not guarded.
pub open spec fn unguarded() -> EvaluationView {
    EvaluationView {
        decision: DecisionView::Allow,
        outcome: Outcome::Allow,
        audit_payload: Json::Null,
        reason: None,
    }
}

/// The evaluation of a guarded call from an admitted address.
pub open spec fn admitted() -> EvaluationView {
    EvaluationView {
        decision: DecisionView::Allow,
        outcome: Outcome::Allow,
        audit_payload: Json::Null,
        reason: Some(Reason::InAllowlist),
    }
}

/// The subject of a caller, as it is written into audit details.
pub open spec fn subject_text(identity: IdentityView) -> Seq<char> {
    match identity.subject_id {
        Some(subject) => subject,
        None => Seq::empty(),
    }
}

/// The audit details of a call without a client address.
pub open spec fn no_address_details(ip_header: Seq<char>, ctx: ContextView) -> Map<
    Seq<char>,
    Json,
> {
    no_fields().insert("tool"@, Json::Text(ctx.tool_name)).insert(
        "reason"@,
        Json::Text("no_client_ip"@),
    ).insert("ip_header"@, Json::Text(ip_header)).insert(
        "subject"@,
        Json::Text(subject_text(ctx.identity)),
    )
}

/// The evaluation of a guarded call without a client address.
pub open spec fn denied_without_address(ip_header: Seq<char>, ctx: ContextView) -> EvaluationView {
    EvaluationView {
        decision: DecisionView::Deny {
            http_status: DENY_STATUS,
            code: DENY_CODE,
            message: "Access denied: client IP not available"@,
            error_data: None,
        },
        outcome: Outcome::DenyNotAllowlisted,
        audit_payload: Json::Object(no_address_details(ip_header, ctx)),
        reason: Some(Reason::NoIp),
    }
}

/// The audit details of a call from an address that is not admitted.
pub open spec fn foreign_address_details(
    ip_header: Seq<char>,
    ctx: ContextView,
    address: Seq<char>,
) -> Map<Seq<char>, Json> {
    no_fields().insert("tool"@, Json::Text(ctx.tool_name)).insert(
        "reason"@,
        Json::Text("not_in_allowlist"@),
    ).insert("ip_header"@, Json::Text(ip_header)).insert("client_ip"@, Json::Text(address)).insert(
        "subject"@,
        Json::Text(subject_text(ctx.identity)),
    )
}

/// The evaluation of a guarded call from an address that is not admitted,
/// given as text.
pub open spec fn denied_address(
    ip_header: Seq<char>,
    ctx: ContextView,
    address: Seq<char>,
) -> EvaluationView {
    EvaluationView {
        decision: DecisionView::Deny {
            http_status: DENY_STATUS,
            code: DENY_CODE,
            message: "Access denied: "@ + address + " not in IP allowlist"@,
            error_data: Some(
                Json::Object(no_fields().insert("client_ip"@, Json::Text(address))),
            ),
        },
        outcome: Outcome::DenyNotAllowlisted,
        audit_payload: Json::Object(foreign_address_details(ip_header, ctx, address)),
        reason: Some(Reason::NotInAllowlist),
    }
}

/// The evaluation of a guarded call, by its client address.
pub open spec fn guarded_evaluation(
    plugin: PluginView,
    ctx: ContextView,
    client: Option<IpAddr>,
) -> EvaluationView {
    match client {
        None => denied_without_address(plugin.ip_header, ctx),
        Some(ip) => if is_admitted(plugin.networks, ip) {
            admitted()
        } else {
            denied_address(plugin.ip_header, ctx, address_text(ip))
        },
    }
}

/// The evaluation of a call.
pub open spec fn evaluation(plugin: PluginView, ctx: ContextView, config: Json) -> EvaluationView {
    if is_guarded(plugin.tool_patterns, ctx.tool_name) {
        guarded_evaluation(plugin, ctx, client_address(plugin.ip_header, config))
    } else {
        unguarded()
    }
}

/// The attributes of the span that the host opens around an evaluation.
pub open spec fn span_fields(plugin: PluginView, ctx: ContextView) -> Map<Seq<char>, Json> {
    no_fields().insert("tool"@, Json::Text(ctx.tool_name)).insert(
        "request_id"@,
        Json::Text(ctx.request_id),
    ).insert("ip_header"@, Json::Text(plugin.ip_header))
}

/// Who audit events of calls without caller attribution are attributed to.
pub open spec fn system_identity() -> IdentityView {
    IdentityView {
        kind: "system"@,
        trust_level: "verified"@,
        subject_id: Some("dev.mcpg.ip-allowlist"@),
        auth_provider: None,
        issuer: None,
        roles: Seq::empty(),
        groups: Seq::empty(),
        scopes: Seq::empty(),
        attributes: no_fields(),
    }
}

/// The audited action of an outcome, where the outcome is audited.
pub open spec fn audit_action(outcome: Outcome) -> Option<Seq<char>> {
    match outcome {
        Outcome::DenyNotAllowlisted => Some("dev.mcpg.ip_allowlist.rejected"@),
        Outcome::Error => Some("dev.mcpg.ip_allowlist.error"@),
        Outcome::Allow => None,
    }
}

/// The details of an audit event: those of the evaluation, and for an object
/// also the plugin's alias and how long the evaluation took.
pub open spec fn event_details(alias: Seq<char>, nanos: nat, payload: Json) -> Json {
    match payload {
        Json::Object(fields) => Json::Object(
            fields.insert("alias"@, Json::Text(alias)).insert(
                "duration_ms"@,
                Json::Number(decimal_text((nanos / 1_000_000) % 0x1_0000_0000_0000_0000)),
            ),
        ),
        _ => payload,
    }
}

/// The audit event of an evaluation.
pub open spec fn audit_event(
    alias: Seq<char>,
    ctx: ContextView,
    outcome: Outcome,
    nanos: nat,
    payload: Json,
    occurred_at: Seq<char>,
) -> EventView
    recommends
        audit_action(outcome) is Some,
{
    EventView {
        event_id: "ip-allowlist-"@ + ctx.request_id + "-"@ + decimal_text(nanos),
        occurred_at,
        actor: if ctx.identity.kind.len() == 0 {
            system_identity()
        } else {
            ctx.identity
        },
        action: audit_action(outcome)->Some_0,
        resource: Some("tool://"@ + ctx.tool_name),
        outcome: if outcome == Outcome::Error {
            crate::protocol::AuditOutcome::Failure
        } else {
            crate::protocol::AuditOutcome::Denied
        },
        request_id: Some(ctx.request_id),
        upstream_request_id: None,
        node_id: None,
        details: event_details(alias, nanos, payload),
        prev_event_hash: None,
    }
}

/// What is reported to the host of an evaluation: a sample of a histogram and
/// an increment of a counter, both under the same labels, and an audit event
/// where the outcome is audited.
pub ghost struct ReportView {
    pub histogram: Seq<char>,
    pub counter: Seq<char>,
    pub increment: u64,
    pub labels: Seq<(Seq<char>, Seq<char>)>,
    pub audit: Option<EventView>,
}

/// The report of an evaluation at a given time.
pub open spec fn host_report(
    alias: Seq<char>,
    ctx: ContextView,
    outcome: Outcome,
    nanos: nat,
    payload: Json,
    occurred_at: Seq<char>,
) -> ReportView {
    ReportView {
        histogram: "mcpg_ip_allowlist_decision_seconds"@,
        counter: "mcpg_ip_allowlist_decisions_total"@,
        increment: 1,
        labels: seq![("outcome"@, outcome_label(outcome))],
        audit: match audit_action(outcome) {
            Some(_) => Some(audit_event(alias, ctx, outcome, nanos, payload, occurred_at)),
            None => None,
        },
    }
}

}
