//! The values that the plugin and its host exchange.

use serde_json::Value;
use vstd::prelude::*;

use crate::json::clone_object;
use crate::json::fields_of;
use crate::json::json_of;
use crate::json::Json;
use crate::text::optional_text;
use crate::text::texts;

verus! {

/// The kind of a plugin.
#[derive(Clone, Copy, Debug, PartialEq, Eq, Structural)]
pub enum PluginClass {
    /// Decides before a tool call whether it may proceed.
    ToolGate,
}

/// How a plugin presents itself to the host.
#[derive(Clone, Debug)]
pub struct PluginManifest {
    pub id: String,
    pub version: String,
    pub name: String,
    pub plugin_class: PluginClass,
    pub protocol_version: String,
    pub license: Option<String>,
    pub required_capabilities: Vec<String>,
    pub tags: Vec<String>,
    pub provides: Vec<String>,
    pub provides_schemes: Vec<String>,
    pub module_path_prefix: String,
    pub backend_profile: Option<String>,
}

/// What a manifest holds.
pub ghost struct ManifestView {
    pub id: Seq<char>,
    pub version: Seq<char>,
    pub name: Seq<char>,
    pub plugin_class: PluginClass,
    pub protocol_version: Seq<char>,
    pub license: Option<Seq<char>>,
    pub required_capabilities: Seq<Seq<char>>,
    pub tags: Seq<Seq<char>>,
    pub provides: Seq<Seq<char>>,
    pub provides_schemes: Seq<Seq<char>>,
    pub module_path_prefix: Seq<char>,
    pub backend_profile: Option<Seq<char>>,
}

impl View for PluginManifest {
    type V = ManifestView;

    open spec fn view(&self) -> ManifestView {
        ManifestView {
            id: self.id@,
            version: self.version@,
            name: self.name@,
            plugin_class: self.plugin_class,
            protocol_version: self.protocol_version@,
            license: optional_text(self.license),
            required_capabilities: texts(self.required_capabilities@),
            tags: texts(self.tags@),
            provides: texts(self.provides@),
            provides_schemes: texts(self.provides_schemes@),
            module_path_prefix: self.module_path_prefix@,
            backend_profile: optional_text(self.backend_profile),
        }
    }
}

/// Who a call is attributed to.
#[derive(Debug)]
pub struct PluginIdentity {
    pub kind: String,
    pub trust_level: String,
    pub subject_id: Option<String>,
    pub auth_provider: Option<String>,
    pub issuer: Option<String>,
    pub roles: Vec<String>,
    pub groups: Vec<String>,
    pub scopes: Vec<String>,
    pub attributes: serde_json::Map<String, Value>,
}

/// What an identity holds.
pub ghost struct IdentityView {
    pub kind: Seq<char>,
    pub trust_level: Seq<char>,
    pub subject_id: Option<Seq<char>>,
    pub auth_provider: Option<Seq<char>>,
    pub issuer: Option<Seq<char>>,
    pub roles: Seq<Seq<char>>,
    pub groups: Seq<Seq<char>>,
    pub scopes: Seq<Seq<char>>,
    pub attributes: Map<Seq<char>, Json>,
}

impl View for PluginIdentity {
    type V = IdentityView;

    open spec fn view(&self) -> IdentityView {
        IdentityView {
            kind: self.kind@,
            trust_level: self.trust_level@,
            subject_id: optional_text(self.subject_id),
            auth_provider: optional_text(self.auth_provider),
            issuer: optional_text(self.issuer),
            roles: texts(self.roles@),
            groups: texts(self.groups@),
            scopes: texts(self.scopes@),
            attributes: fields_of(self.attributes),
        }
    }
}

fn clone_text(text: &Option<String>) -> (copy: Option<String>)
    ensures
        optional_text(copy) == optional_text(*text),
{
    match text {
        Some(text) => Some(text.clone()),
        None => None,
    }
}

fn clone_texts(list: &Vec<String>) -> (copy: Vec<String>)
    ensures
        texts(copy@) == texts(list@),
{
    let mut copy: Vec<String> = Vec::new();
    let mut i: usize = 0;
    while i < list.len()
        invariant
            i <= list@.len(),
            copy@.len() == i,
            forall|j: int| 0 <= j < i ==> (#[trigger] copy@[j])@ == list@[j]@,
        decreases list@.len() - i,
    {
        copy.push(list[i].clone());
        i = i + 1;
    }
    assert(texts(copy@) =~= texts(list@));
    copy
}

impl Clone for PluginIdentity {
    fn clone(&self) -> (copy: PluginIdentity)
        ensures
            copy@ == self@,
    {
        PluginIdentity {
            kind: self.kind.clone(),
            trust_level: self.trust_level.clone(),
            subject_id: clone_text(&self.subject_id),
            auth_provider: clone_text(&self.auth_provider),
            issuer: clone_text(&self.issuer),
            roles: clone_texts(&self.roles),
            groups: clone_texts(&self.groups),
            scopes: clone_texts(&self.scopes),
            attributes: clone_object(&self.attributes),
        }
    }
}

/// A tool call that is to be decided.
#[derive(Debug)]
pub struct PluginContext {
    pub surface: String,
    pub request_id: String,
    pub session_id: Option<String>,
    pub tool_name: String,
    pub identity: PluginIdentity,
    pub transport: String,
}

/// What a tool call holds.
pub ghost struct ContextView {
    pub surface: Seq<char>,
    pub request_id: Seq<char>,
    pub session_id: Option<Seq<char>>,
    pub tool_name: Seq<char>,
    pub identity: IdentityView,
    pub transport: Seq<char>,
}

impl View for PluginContext {
    type V = ContextView;

    open spec fn view(&self) -> ContextView {
        ContextView {
            surface: self.surface@,
            request_id: self.request_id@,
            session_id: optional_text(self.session_id),
            tool_name: self.tool_name@,
            identity: self.identity@,
            transport: self.transport@,
        }
    }
}

/// Whether a tool call may proceed.
#[derive(Debug)]
pub enum GateDecision {
    Allow,
    Deny { http_status: u16, code: i32, message: String, error_data: Option<Value> },
}

/// What a decision holds.
pub ghost enum DecisionView {
    Allow,
    Deny { http_status: u16, code: i32, message: Seq<char>, error_data: Option<Json> },
}

impl View for GateDecision {
    type V = DecisionView;

    open spec fn view(&self) -> DecisionView {
        match *self {
            GateDecision::Allow => DecisionView::Allow,
            GateDecision::Deny { http_status, code, message, error_data } => DecisionView::Deny {
                http_status,
                code,
                message: message@,
                error_data: match error_data {
                    Some(data) => Some(json_of(data)),
                    None => None,
                },
            },
        }
    }
}

impl GateDecision {
    /// Whether the call may proceed.
    pub fn is_allow(&self) -> (allowed: bool)
        ensures
            allowed == (self@ is Allow),
    {
        match self {
            GateDecision::Allow => true,
            GateDecision::Deny { .. } => false,
        }
    }
}

/// How an audited call ended.
#[derive(Clone, Copy, Debug, PartialEq, Eq, Structural)]
pub enum AuditOutcome {
    Denied,
    Failure,
}

/// An entry of the audit log.
#[derive(Debug)]
pub struct AuditEvent {
    pub event_id: String,
    pub occurred_at: String,
    pub actor: PluginIdentity,
    pub action: String,
    pub resource: Option<String>,
    pub outcome: AuditOutcome,
    pub request_id: Option<String>,
    pub upstream_request_id: Option<String>,
    pub node_id: Option<String>,
    pub details: Value,
    pub prev_event_hash: Option<String>,
}

/// What an entry of the audit log holds.
pub ghost struct EventView {
    pub event_id: Seq<char>,
    pub occurred_at: Seq<char>,
    pub actor: IdentityView,
    pub action: Seq<char>,
    pub resource: Option<Seq<char>>,
    pub outcome: AuditOutcome,
    pub request_id: Option<Seq<char>>,
    pub upstream_request_id: Option<Seq<char>>,
    pub node_id: Option<Seq<char>>,
    pub details: Json,
    pub prev_event_hash: Option<Seq<char>>,
}

impl View for AuditEvent {
    type V = EventView;

    open spec fn view(&self) -> EventView {
        EventView {
            event_id: self.event_id@,
            occurred_at: self.occurred_at@,
            actor: self.actor@,
            action: self.action@,
            resource: optional_text(self.resource),
            outcome: self.outcome,
            request_id: optional_text(self.request_id),
            upstream_request_id: optional_text(self.upstream_request_id),
            node_id: optional_text(self.node_id),
            details: json_of(self.details),
            prev_event_hash: optional_text(self.prev_event_hash),
        }
    }
}

/// What the plugin knows of the host that it reports to: the alias under which
/// the host runs it.
#[derive(Debug)]
pub struct HostHandle {
    pub alias: String,
}

/// Whether a sequence holds the characters of the strings of a list, one for
/// one.
pub open spec fn spells(list: Seq<String>, characters: Seq<Seq<char>>) -> bool {
    &&& list.len() == characters.len()
    &&& forall|i: int| 0 <= i < list.len() ==> (#[trigger] list[i])@ == characters[i]
}

/// Whether a sequence holds the characters of an optional string, where there is
/// one.
pub open spec fn spells_optional(text: Option<String>, characters: Option<Seq<char>>) -> bool {
    &&& text is Some <==> characters is Some
    &&& text is Some ==> text->Some_0@ == characters->Some_0
}

/// Contracts speak of every field of an identity, character for character.
pub proof fn identity_is_seen_whole(identity: PluginIdentity)
    ensures
        identity@.kind == identity.kind@,
        identity@.trust_level == identity.trust_level@,
        spells_optional(identity.subject_id, identity@.subject_id),
        spells_optional(identity.auth_provider, identity@.auth_provider),
        spells_optional(identity.issuer, identity@.issuer),
        spells(identity.roles@, identity@.roles),
        spells(identity.groups@, identity@.groups),
        spells(identity.scopes@, identity@.scopes),
        identity@.attributes == fields_of(identity.attributes),
{
}

/// Contracts speak of every field of a call, character for character.
pub proof fn call_is_seen_whole(ctx: PluginContext)
    ensures
        ctx@.surface == ctx.surface@,
        ctx@.request_id == ctx.request_id@,
        spells_optional(ctx.session_id, ctx@.session_id),
        ctx@.tool_name == ctx.tool_name@,
        ctx@.identity == ctx.identity@,
        ctx@.transport == ctx.transport@,
{
}

/// Contracts speak of every part of a decision: an admission is no denial, and
/// a denial has its status, code, words and data.
pub proof fn decision_is_seen_whole(decision: GateDecision)
    ensures
        match decision {
            GateDecision::Allow => decision@ == DecisionView::Allow,
            GateDecision::Deny { http_status, code, message, error_data } => {
                &&& decision@ is Deny
                &&& decision@->http_status == http_status
                &&& decision@->code == code
                &&& decision@->message == message@
                &&& error_data is Some <==> decision@->error_data is Some
                &&& error_data matches Some(data) ==> decision@->error_data == Some(json_of(data))
            },
        },
{
}

/// Contracts speak of every field of an audit event, character for character.
pub proof fn event_is_seen_whole(event: AuditEvent)
    ensures
        event@.event_id == event.event_id@,
        event@.occurred_at == event.occurred_at@,
        event@.actor == event.actor@,
        event@.action == event.action@,
        spells_optional(event.resource, event@.resource),
        event@.outcome == event.outcome,
        spells_optional(event.request_id, event@.request_id),
        spells_optional(event.upstream_request_id, event@.upstream_request_id),
        spells_optional(event.node_id, event@.node_id),
        event@.details == json_of(event.details),
        spells_optional(event.prev_event_hash, event@.prev_event_hash),
{
}

/// Contracts speak of every field of a manifest, character for character.
pub proof fn manifest_is_seen_whole(manifest: PluginManifest)
    ensures
        manifest@.id == manifest.id@,
        manifest@.version == manifest.version@,
        manifest@.name == manifest.name@,
        manifest@.plugin_class == manifest.plugin_class,
        manifest@.protocol_version == manifest.protocol_version@,
        spells_optional(manifest.license, manifest@.license),
        spells(manifest.required_capabilities@, manifest@.required_capabilities),
        spells(manifest.tags@, manifest@.tags),
        spells(manifest.provides@, manifest@.provides),
        spells(manifest.provides_schemes@, manifest@.provides_schemes),
        manifest@.module_path_prefix == manifest.module_path_prefix@,
        spells_optional(manifest.backend_profile, manifest@.backend_profile),
{
}

}
