//! What holds of the allowlist as a whole, whatever its configuration and
//! whatever calls it decides.

use vstd::prelude::*;

use crate::address::address_text;
use crate::address::mapped;
use crate::address::mapped_address_is_plain;
use crate::address::network_is_a_range;
use crate::address::normalized;
use crate::address::normalizing_settles;
use crate::address::parsed_address;
use crate::address::parsed_cidr;
use crate::address::parsed_network;
use crate::address::IpAddr;
use crate::address::Network;
use crate::config::fault_message;
use crate::config::is_fault;
use crate::config::list_document;
use crate::config::read_config;
use crate::config::read_fields;
use crate::config::written_object_reads_back;
use crate::glob::glob_matches;
use crate::json::field_of;
use crate::json::Json;
use crate::policy::all_valid;
use crate::policy::client_address;
use crate::policy::decision_label;
use crate::policy::denied_address;
use crate::policy::denied_without_address;
use crate::policy::evaluation;
use crate::policy::event_details;
use crate::policy::fresh_plugin;
use crate::policy::guarded_evaluation;
use crate::policy::hop_address;
use crate::policy::host_report;
use crate::policy::is_admitted;
use crate::policy::is_guarded;
use crate::policy::load_plugin;
use crate::policy::outcome_label;
use crate::policy::preferred_address;
use crate::policy::read_networks;
use crate::policy::reason_label;
use crate::policy::span_fields;
use crate::policy::system_identity;
use crate::policy::unguarded;
use crate::policy::whole_address;
use crate::policy::with_host;
use crate::policy::DENY_CODE;
use crate::policy::Outcome;
use crate::policy::PluginView;
use crate::policy::Reason;
use crate::protocol::ContextView;
use crate::protocol::DecisionView;
use crate::text::before_comma;
use crate::text::decimal_text;
use crate::text::is_white_space;
use crate::text::trimmed;

verus! {

/// A guarded call may proceed exactly if it has a client address and one of the
/// networks covers that address.
pub proof fn guarded_call_proceeds_iff_listed(plugin: PluginView, ctx: ContextView, config: Json)
    requires
        is_guarded(plugin.tool_patterns, ctx.tool_name),
    ensures
        evaluation(plugin, ctx, config).decision is Allow <==> {
            &&& client_address(plugin.ip_header, config) is Some
            &&& exists|i: int|
                0 <= i < plugin.networks.len() && (#[trigger] plugin.networks[i]).covers(
                    client_address(plugin.ip_header, config)->Some_0,
                )
        },
{
}

/// A guarded call without a client address is denied.
pub proof fn missing_address_is_denied(plugin: PluginView, ctx: ContextView, config: Json)
    requires
        is_guarded(plugin.tool_patterns, ctx.tool_name),
        client_address(plugin.ip_header, config) is None,
    ensures
        evaluation(plugin, ctx, config).decision == (DecisionView::Deny {
            http_status: 403,
            code: DENY_CODE,
            message: "Access denied: client IP not available"@,
            error_data: None,
        }),
        DENY_CODE == -32030,
{
}

/// A call has no client address exactly if its evaluation config holds no
/// request headers, or if there is no address in the configured header nor, where
/// that is another header, in `x-real-ip`.
pub proof fn address_is_missing_iff_no_header_holds_one(ip_header: Seq<char>, config: Json)
    ensures
        client_address(ip_header, config) is None <==> match config.field("_request_headers"@) {
            Some(Json::Object(headers)) => {
                &&& hop_address(field_of(headers, ip_header)) is None
                &&& ip_header == "x-real-ip"@ || whole_address(
                    field_of(headers, "x-real-ip"@),
                ) is None
            },
            _ => true,
        },
{
}

/// An address is admitted exactly if it lies between the first and the last
/// address of a network of its family, both included.
pub proof fn admission_is_by_range(networks: Seq<Network>, ip: IpAddr)
    requires
        all_valid(networks),
    ensures
        is_admitted(networks, ip) <==> exists|i: int|
            0 <= i < networks.len() && (#[trigger] networks[i]).addr.width() == ip.width()
                && networks[i].first() <= ip.number() <= networks[i].last(),
{
    assert forall|i: int| 0 <= i < networks.len() implies (#[trigger] networks[i]).covers(ip)
        == (networks[i].addr.width() == ip.width() && networks[i].first() <= ip.number()
        <= networks[i].last()) by {
        network_is_a_range(networks[i], ip);
    }
}

/// Every denial has the HTTP status 403 and the JSON-RPC code -32030.
pub proof fn denials_are_uniform(plugin: PluginView, ctx: ContextView, config: Json)
    ensures
        evaluation(plugin, ctx, config).decision matches DecisionView::Deny {
            http_status,
            code,
            ..
        } ==> http_status == 403 && code == -32030,
{
}

/// A call of a tool that is not guarded proceeds, whatever its config, and
/// leaves nothing to audit or count.
pub proof fn unguarded_call_proceeds(plugin: PluginView, ctx: ContextView, config: Json)
    requires
        !is_guarded(plugin.tool_patterns, ctx.tool_name),
    ensures
        evaluation(plugin, ctx, config) == unguarded(),
        evaluation(plugin, ctx, config).decision is Allow,
        evaluation(plugin, ctx, config).reason is None,
{
}

/// Without tool globs every tool is guarded.
pub proof fn no_globs_guard_every_tool(tool: Seq<char>)
    ensures
        is_guarded(Seq::empty(), tool),
{
}

/// A decision rests on the tool and the client address alone: who the caller
/// claims to be, over which session and transport, changes nothing.
pub proof fn decision_ignores_the_caller(
    plugin: PluginView,
    ctx: ContextView,
    other: ContextView,
    config: Json,
)
    requires
        ctx.tool_name == other.tool_name,
    ensures
        evaluation(plugin, ctx, config).decision == evaluation(plugin, other, config).decision,
        evaluation(plugin, ctx, config).outcome == evaluation(plugin, other, config).outcome,
        evaluation(plugin, ctx, config).reason == evaluation(plugin, other, config).reason,
{
}

/// An evaluation reads two request headers at most, the configured one and
/// `x-real-ip`: configs that agree on these are evaluated alike.
pub proof fn two_headers_decide(
    plugin: PluginView,
    ctx: ContextView,
    headers: Map<Seq<char>, Json>,
    other: Map<Seq<char>, Json>,
    config: Json,
    other_config: Json,
)
    requires
        config.field("_request_headers"@) == Some(Json::Object(headers)),
        other_config.field("_request_headers"@) == Some(Json::Object(other)),
        field_of(headers, plugin.ip_header) == field_of(other, plugin.ip_header),
        field_of(headers, "x-real-ip"@) == field_of(other, "x-real-ip"@),
    ensures
        evaluation(plugin, ctx, config) == evaluation(plugin, ctx, other_config),
{
}

/// An empty allowlist denies every guarded call.
pub proof fn empty_allowlist_denies(plugin: PluginView, ctx: ContextView, config: Json)
    requires
        plugin.networks.len() == 0,
        is_guarded(plugin.tool_patterns, ctx.tool_name),
    ensures
        evaluation(plugin, ctx, config).decision is Deny,
{
}

/// A further network takes admission from no call.
pub proof fn further_network_admits_no_less(
    plugin: PluginView,
    network: Network,
    ctx: ContextView,
    config: Json,
)
    requires
        evaluation(plugin, ctx, config).decision is Allow,
    ensures
        evaluation(
            PluginView { networks: plugin.networks.push(network), ..plugin },
            ctx,
            config,
        ).decision is Allow,
{
    if is_guarded(plugin.tool_patterns, ctx.tool_name) {
        let ip = client_address(plugin.ip_header, config)->Some_0;
        let i = choose|i: int|
            0 <= i < plugin.networks.len() && (#[trigger] plugin.networks[i]).covers(ip);
        assert(plugin.networks.push(network)[i] == plugin.networks[i]);
    }
}

/// The order of the networks does not matter, nor does one that is listed
/// twice: allowlists with the same networks admit the same addresses.
pub proof fn order_of_networks_is_free(networks: Seq<Network>, other: Seq<Network>, ip: IpAddr)
    requires
        forall|network: Network| networks.contains(network) <==> other.contains(network),
    ensures
        is_admitted(networks, ip) <==> is_admitted(other, ip),
{
    if is_admitted(networks, ip) {
        let i = choose|i: int| 0 <= i < networks.len() && (#[trigger] networks[i]).covers(ip);
        assert(networks.contains(networks[i]));
        let j = choose|j: int| 0 <= j < other.len() && other[j] == networks[i];
        assert(other[j].covers(ip));
    }
    if is_admitted(other, ip) {
        let i = choose|i: int| 0 <= i < other.len() && (#[trigger] other[i]).covers(ip);
        assert(other.contains(other[i]));
        let j = choose|j: int| 0 <= j < networks.len() && networks[j] == other[i];
        assert(networks[j].covers(ip));
    }
}

/// A client address in the form `::ffff:a.b.c.d` is decided as the IPv4 address
/// `a.b.c.d` is, in whichever header it arrives.
pub proof fn mapped_client_is_decided_as_ipv4(
    plugin: PluginView,
    ctx: ContextView,
    v4: u32,
    fallback: Option<IpAddr>,
)
    ensures
        ({
            let dual = IpAddr::V6(mapped(v4) as u128);
            let plain = IpAddr::V4(v4);
            &&& guarded_evaluation(plugin, ctx, preferred_address(Some(dual), fallback))
                == guarded_evaluation(plugin, ctx, Some(plain))
            &&& guarded_evaluation(plugin, ctx, preferred_address(Some(plain), fallback))
                == guarded_evaluation(plugin, ctx, Some(plain))
            &&& guarded_evaluation(plugin, ctx, preferred_address(None, Some(dual)))
                == guarded_evaluation(plugin, ctx, Some(plain))
            &&& guarded_evaluation(plugin, ctx, preferred_address(None, Some(plain)))
                == guarded_evaluation(plugin, ctx, Some(plain))
        }),
{
    mapped_address_is_plain(v4);
}

/// No address in the form `::ffff:a.b.c.d` is ever matched against the
/// networks.
pub proof fn client_address_is_plain(ip_header: Seq<char>, config: Json)
    ensures
        client_address(ip_header, config) matches Some(ip) ==> {
            &&& normalized(ip) == ip
            &&& forall|v4: u32| !(ip is V6 && ip.number() == #[trigger] mapped(v4))
        },
{
    if let Some(ip) = client_address(ip_header, config) {
        let headers = config.field("_request_headers"@)->Some_0->Object_0;
        if let Some(hop) = hop_address(field_of(headers, ip_header)) {
            normalizing_settles(hop);
        } else if let Some(whole) = whole_address(field_of(headers, "x-real-ip"@)) {
            normalizing_settles(whole);
        }
        normalizing_settles(ip);
    }
}

/// The first hop of the configured header is the client, and `x-real-ip` only
/// where that hop is no address.
pub proof fn configured_header_comes_first(
    ip_header: Seq<char>,
    headers: Map<Seq<char>, Json>,
    config: Json,
)
    requires
        config.field("_request_headers"@) == Some(Json::Object(headers)),
    ensures
        hop_address(field_of(headers, ip_header)) matches Some(ip) ==> client_address(
            ip_header,
            config,
        ) == Some(normalized(ip)),
        hop_address(field_of(headers, ip_header)) is None && ip_header != "x-real-ip"@ ==> (
        client_address(ip_header, config) == match whole_address(
            field_of(headers, "x-real-ip"@),
        ) {
            Some(ip) => Some(normalized(ip)),
            None => None,
        }),
        hop_address(field_of(headers, ip_header)) is None && ip_header == "x-real-ip"@
            ==> client_address(ip_header, config) is None,
{
}

/// What proxies append behind the first hop of the configured header changes
/// no evaluation.
pub proof fn appended_hops_change_nothing(
    plugin: PluginView,
    ctx: ContextView,
    headers: Map<Seq<char>, Json>,
    hop: Seq<char>,
    rest: Seq<char>,
    config: Json,
    appended: Json,
)
    requires
        !hop.contains(','),
        config.field("_request_headers"@) == Some(
            Json::Object(headers.insert(plugin.ip_header, Json::Text(hop))),
        ),
        appended.field("_request_headers"@) == Some(
            Json::Object(
                headers.insert(plugin.ip_header, Json::Text(hop + seq![','] + rest)),
            ),
        ),
    ensures
        evaluation(plugin, ctx, config) == evaluation(plugin, ctx, appended),
{
    crate::text::first_hop_ignores_the_rest(hop, rest);
}

/// A configuration object with a field that no configuration has loads no
/// plugin.
pub proof fn unknown_field_is_refused(fields: Map<Seq<char>, Json>, key: Seq<char>)
    requires
        fields.contains_key(key),
        key != "allow"@,
        key != "ip_header"@,
        key != "tools"@,
    ensures
        read_config(Json::Object(fields)) is Err,
        load_plugin(Json::Object(fields)) is Err,
{
    assert(is_fault(fields, key));
}

/// A configuration object without `allow` loads no plugin.
pub proof fn missing_allow_is_refused(fields: Map<Seq<char>, Json>)
    requires
        !fields.contains_key("allow"@),
    ensures
        read_config(Json::Object(fields)) is Err,
        load_plugin(Json::Object(fields)) is Err,
{
}

/// A configuration object that gives `allow` alone reads `x-forwarded-for` and
/// guards every tool.
pub proof fn defaults_apply(allow: Json, tool: Seq<char>)
    requires
        allow.is_string_list(),
    ensures
        ({
            let fields = crate::json::no_fields().insert("allow"@, allow);
            &&& read_fields(fields) is Ok
            &&& read_fields(fields)->Ok_0.allow == allow.string_list()
            &&& read_fields(fields)->Ok_0.ip_header == "x-forwarded-for"@
            &&& is_guarded(read_fields(fields)->Ok_0.tools, tool)
        }),
{
    let fields = crate::json::no_fields().insert("allow"@, allow);
    reveal_strlit("allow");
    reveal_strlit("ip_header");
    reveal_strlit("tools");
    assert("allow"@[0] != "tools"@[0]);
    assert("allow"@.len() != "ip_header"@.len());
    assert forall|key: Seq<char>| !is_fault(fields, key) by {
        if fields.contains_key(key) {
            assert(key == "allow"@);
        }
    }
}

/// A plugin has one network for each entry of its allowlist, in their order: no
/// entry is lost on the way.
pub proof fn networks_are_the_entries(allow: Seq<Seq<char>>)
    ensures
        read_networks(allow) matches Ok(networks) ==> {
            &&& networks.len() == allow.len()
            &&& forall|i: int|
                0 <= i < allow.len() ==> parsed_network(#[trigger] allow[i]) == Some(networks[i])
        },
        read_networks(allow) is Ok <==> forall|i: int|
            0 <= i < allow.len() ==> parsed_network(#[trigger] allow[i]) is Some,
    decreases allow.len(),
{
    if allow.len() > 0 {
        let rest = allow.drop_last();
        networks_are_the_entries(rest);
        assert forall|i: int| 0 <= i < rest.len() implies rest[i] == allow[i] by {}
        if read_networks(rest) is Ok {
            if let Some(network) = parsed_network(allow.last()) {
                let networks = read_networks(allow)->Ok_0;
                assert forall|i: int| 0 <= i < allow.len() implies parsed_network(
                    #[trigger] allow[i],
                ) == Some(networks[i]) by {
                    if i < rest.len() {
                        assert(rest[i] == allow[i]);
                    }
                }
            }
        } else {
            let i = choose|i: int| 0 <= i < rest.len() && parsed_network(#[trigger] rest[i]) is None;
            assert(allow[i] == rest[i]);
        }
    }
}

/// One entry of `allow` that is no network refuses the whole configuration.
pub proof fn invalid_network_is_refused(document: Json, i: int)
    requires
        read_config(document) is Ok,
        0 <= i < read_config(document)->Ok_0.allow.len(),
        parsed_network(read_config(document)->Ok_0.allow[i]) is None,
    ensures
        load_plugin(document) is Err,
{
    networks_are_the_entries(read_config(document)->Ok_0.allow);
}

/// A call is audited exactly if it is denied, as a rejection.
pub proof fn denials_are_audited(
    plugin: PluginView,
    ctx: ContextView,
    config: Json,
    alias: Seq<char>,
    nanos: nat,
    occurred_at: Seq<char>,
)
    ensures
        ({
            let result = evaluation(plugin, ctx, config);
            let report = host_report(
                alias,
                ctx,
                result.outcome,
                nanos,
                result.audit_payload,
                occurred_at,
            );
            &&& report.audit is Some <==> result.decision is Deny
            &&& report.audit matches Some(event) ==> {
                &&& event.action == "dev.mcpg.ip_allowlist.rejected"@
                &&& event.outcome == crate::protocol::AuditOutcome::Denied
                &&& event.details is Object
            }
        }),
{
}

/// The audit event of a denial names the tool, the reason, the configured
/// header and the caller's subject, and the client address exactly if there was
/// one.
pub proof fn audit_details_are_complete(
    plugin: PluginView,
    ctx: ContextView,
    config: Json,
    alias: Seq<char>,
    nanos: nat,
)
    requires
        evaluation(plugin, ctx, config).decision is Deny,
    ensures
        ({
            let payload = evaluation(plugin, ctx, config).audit_payload;
            let details = event_details(alias, nanos, payload);
            &&& details.field("tool"@) == Some(Json::Text(ctx.tool_name))
            &&& details.field("reason"@) == Some(
                Json::Text(
                    if client_address(plugin.ip_header, config) is Some {
                        "not_in_allowlist"@
                    } else {
                        "no_client_ip"@
                    },
                ),
            )
            &&& details.field("ip_header"@) == Some(Json::Text(plugin.ip_header))
            &&& details.field("subject"@) == Some(
                Json::Text(crate::policy::subject_text(ctx.identity)),
            )
            &&& details.field("client_ip"@) == match client_address(plugin.ip_header, config) {
                Some(ip) => Some(Json::Text(crate::address::address_text(ip))),
                None => None,
            }
            &&& details.field("alias"@) == Some(Json::Text(alias))
        }),
{
    reveal_strlit("tool");
    reveal_strlit("reason");
    reveal_strlit("ip_header");
    reveal_strlit("subject");
    reveal_strlit("client_ip");
    reveal_strlit("alias");
    reveal_strlit("duration_ms");
    assert("tool"@.len() == 4 && "alias"@.len() == 5 && "reason"@.len() == 6);
    assert("subject"@.len() == 7 && "duration_ms"@.len() == 11);
    assert("ip_header"@.len() == 9 && "client_ip"@.len() == 9);
    assert("ip_header"@[0] != "client_ip"@[0]);
}

/// The labels of metrics come from a fixed set, so that no caller can multiply
/// them: the host's outcome is one of two, and the plugin's own labels are
/// `in_allowlist`, `not_in_allowlist` and `no_ip`, counted for guarded calls
/// only.
pub proof fn labels_are_few(
    plugin: PluginView,
    ctx: ContextView,
    config: Json,
    alias: Seq<char>,
    nanos: nat,
    occurred_at: Seq<char>,
)
    ensures
        ({
            let result = evaluation(plugin, ctx, config);
            let report = host_report(
                alias,
                ctx,
                result.outcome,
                nanos,
                result.audit_payload,
                occurred_at,
            );
            &&& result.outcome == Outcome::Allow || result.outcome == Outcome::DenyNotAllowlisted
            &&& report.labels == seq![("outcome"@, "allow"@)] || report.labels
                == seq![("outcome"@, "deny_not_allowlisted"@)]
            &&& result.reason is Some <==> is_guarded(plugin.tool_patterns, ctx.tool_name)
            &&& result.reason matches Some(reason) ==> {
                let label = crate::policy::reason_label(reason);
                &&& label == "in_allowlist"@ || label == "not_in_allowlist"@ || label == "no_ip"@
                &&& crate::policy::decision_label(reason) == if result.decision is Allow {
                    "allow"@
                } else {
                    "deny"@
                }
            }
        }),
{
}

/// The span around an evaluation carries the tool, the request and the
/// configured header, and nothing else: the client address stays out of it.
pub proof fn span_holds_no_address(plugin: PluginView, ctx: ContextView, key: Seq<char>)
    ensures
        span_fields(plugin, ctx).contains_key(key) <==> key == "tool"@ || key == "request_id"@
            || key == "ip_header"@,
{
}

/// The client of a call is the address that the first hop of the configured
/// header is, of whatever family and however long it is written.
pub proof fn first_hop_is_the_client(
    ip_header: Seq<char>,
    config: Map<Seq<char>, Json>,
    headers: Map<Seq<char>, Json>,
    text: Seq<char>,
    ip: IpAddr,
)
    requires
        config.contains_key("_request_headers"@),
        config["_request_headers"@] == Json::Object(headers),
        headers.contains_key(ip_header),
        headers[ip_header] == Json::Text(text),
        parsed_address(trimmed(before_comma(text))) == Some(ip),
    ensures
        client_address(ip_header, Json::Object(config)) == Some(normalized(ip)),
{
}

/// A header that begins with an address is read for that address, whatever white
/// space stands around it and whatever follows behind a comma.
pub proof fn address_at_the_start_of_a_header_is_the_client(
    ip_header: Seq<char>,
    config: Map<Seq<char>, Json>,
    headers: Map<Seq<char>, Json>,
    before: Seq<char>,
    address: Seq<char>,
    after: Seq<char>,
    rest: Seq<char>,
    ip: IpAddr,
)
    requires
        config.contains_key("_request_headers"@),
        config["_request_headers"@] == Json::Object(headers),
        headers.contains_key(ip_header),
        headers[ip_header] == Json::Text(before + address + after) || headers[ip_header]
            == Json::Text(before + address + after + seq![','] + rest),
        forall|i: int| 0 <= i < before.len() ==> is_white_space(#[trigger] before[i]),
        forall|i: int| 0 <= i < after.len() ==> is_white_space(#[trigger] after[i]),
        address.len() > 0,
        !address.contains(','),
        !is_white_space(address[0]),
        !is_white_space(address.last()),
        parsed_address(address) == Some(ip),
    ensures
        client_address(ip_header, Json::Object(config)) == Some(normalized(ip)),
{
    let hop = before + address + after;
    assert(!hop.contains(',')) by {
        if hop.contains(',') {
            let i = choose|i: int| 0 <= i < hop.len() && hop[i] == ',';
            if i < before.len() {
                assert(is_white_space(before[i]));
            } else if i < before.len() + address.len() {
                assert(address.contains(address[i - before.len()]));
            } else {
                assert(is_white_space(after[i - before.len() - address.len()]));
            }
        }
    }
    crate::text::first_hop_ignores_the_rest(hop, rest);
    crate::text::surrounding_white_space_is_trimmed(before, address, after);
    crate::text::inner_white_space_stays(address);
}

/// Where the configured header holds no address, the client of a call is the
/// address that the whole of `x-real-ip` is.
pub proof fn x_real_ip_is_the_fallback(
    ip_header: Seq<char>,
    config: Map<Seq<char>, Json>,
    headers: Map<Seq<char>, Json>,
    text: Seq<char>,
    ip: IpAddr,
)
    requires
        ip_header != "x-real-ip"@,
        config.contains_key("_request_headers"@),
        config["_request_headers"@] == Json::Object(headers),
        headers.contains_key(ip_header) ==> (headers[ip_header] matches Json::Text(value)
            ==> parsed_address(trimmed(before_comma(value))) is None),
        headers.contains_key("x-real-ip"@),
        headers["x-real-ip"@] == Json::Text(text),
        parsed_address(trimmed(text)) == Some(ip),
    ensures
        client_address(ip_header, Json::Object(config)) == Some(normalized(ip)),
{
}

/// A call whose evaluation config has no request headers, or has them without
/// an address in the configured header and in `x-real-ip`, has no client
/// address; nothing else stands in for one.
pub proof fn no_other_place_holds_the_client(ip_header: Seq<char>, config: Json)
    requires
        config matches Json::Object(fields) ==> fields.contains_key("_request_headers"@) ==> (
        fields["_request_headers"@] matches Json::Object(headers) ==> {
            &&& headers.contains_key(ip_header) ==> (headers[ip_header] matches Json::Text(value)
                ==> parsed_address(trimmed(before_comma(value))) is None)
            &&& ip_header == "x-real-ip"@ || (headers.contains_key("x-real-ip"@) ==> (
            headers["x-real-ip"@] matches Json::Text(value) ==> parsed_address(
                trimmed(value),
            ) is None))
        }),
    ensures
        client_address(ip_header, config) is None,
{
}

/// Of an address in the configured header and one in the fallback header the
/// first counts, and it counts in the form in which it is matched.
pub proof fn first_address_counts(hop: IpAddr, fallback: Option<IpAddr>, other: IpAddr)
    ensures
        preferred_address(Some(hop), fallback) == Some(normalized(hop)),
        preferred_address(None, Some(other)) == Some(normalized(other)),
        preferred_address(None, None) is None,
{
}

/// Any glob that a tool matches guards the tool, wherever it stands in the list;
/// a tool that matches none of the globs is not guarded.
pub proof fn any_glob_guards(globs: Seq<Seq<char>>, tool: Seq<char>, i: int)
    ensures
        0 <= i < globs.len() && glob_matches(globs[i], tool) ==> is_guarded(globs, tool),
        globs.len() > 0 && (forall|j: int|
            0 <= j < globs.len() ==> !glob_matches(#[trigger] globs[j], tool)) ==> !is_guarded(
            globs,
            tool,
        ),
        globs.len() == 0 ==> is_guarded(globs, tool),
{
}

/// A further glob takes the guard from no tool that was guarded by a glob, and
/// adds the tools that match it.
pub proof fn further_glob_guards_no_less(globs: Seq<Seq<char>>, glob: Seq<char>, tool: Seq<char>)
    requires
        globs.len() > 0,
    ensures
        is_guarded(globs.push(glob), tool) <==> is_guarded(globs, tool) || glob_matches(glob, tool),
{
    let more = globs.push(glob);
    if is_guarded(globs, tool) {
        let i = choose|i: int| 0 <= i < globs.len() && glob_matches(#[trigger] globs[i], tool);
        assert(more[i] == globs[i]);
    }
    assert(more[globs.len() as int] == glob);
    if is_guarded(more, tool) && !glob_matches(glob, tool) {
        let i = choose|i: int| 0 <= i < more.len() && glob_matches(#[trigger] more[i], tool);
        assert(more[i] == globs[i]);
    }
}

/// Any network that covers an address admits it, wherever it stands in the
/// list; an address that no network covers is not admitted.
pub proof fn any_network_admits(networks: Seq<Network>, ip: IpAddr, i: int)
    ensures
        0 <= i < networks.len() && networks[i].covers(ip) ==> is_admitted(networks, ip),
        (forall|j: int| 0 <= j < networks.len() ==> !(#[trigger] networks[j]).covers(ip))
            ==> !is_admitted(networks, ip),
{
}

/// A loaded plugin is the configuration that was read: it has one network per
/// entry of `allow`, each the one that the entry stands for, and the header and
/// the globs of the configuration.
pub proof fn loaded_plugin_is_the_configuration(document: Json)
    ensures
        load_plugin(document) matches Ok(plugin) ==> {
            &&& read_config(document) is Ok
            &&& plugin.networks.len() == read_config(document)->Ok_0.allow.len()
            &&& forall|i: int|
                0 <= i < plugin.networks.len() ==> parsed_cidr(
                    #[trigger] read_config(document)->Ok_0.allow[i],
                ) == Some((plugin.networks[i].addr, plugin.networks[i].prefix_len))
            &&& plugin.ip_header == read_config(document)->Ok_0.ip_header
            &&& plugin.tool_patterns == read_config(document)->Ok_0.tools
            &&& plugin.host is None
        },
        read_config(document) is Ok && (forall|i: int|
            0 <= i < read_config(document)->Ok_0.allow.len() ==> parsed_cidr(
                #[trigger] read_config(document)->Ok_0.allow[i],
            ) is Some) ==> load_plugin(document) is Ok,
        read_config(document) matches Err(fault) ==> load_plugin(document) == Err::<
            PluginView,
            crate::config::ConfigFault,
        >(fault),
{
    if read_config(document) is Ok {
        let allow = read_config(document)->Ok_0.allow;
        networks_are_the_entries(allow);
        assert forall|i: int| 0 <= i < allow.len() implies (parsed_cidr(#[trigger] allow[i]) is Some
            <==> parsed_network(allow[i]) is Some) by {}
    }
}

/// What an operator is told of an allowlist with an entry that is no network:
/// the first such entry, as it stands in the configuration.
pub proof fn first_bad_entry_is_named(document: Json, bad: int)
    requires
        read_config(document) is Ok,
        0 <= bad < read_config(document)->Ok_0.allow.len(),
        parsed_cidr(read_config(document)->Ok_0.allow[bad]) is None,
        forall|i: int|
            0 <= i < bad ==> parsed_cidr(#[trigger] read_config(document)->Ok_0.allow[i]) is Some,
    ensures
        load_plugin(document) is Err,
        fault_message(load_plugin(document)->Err_0) == "invalid CIDR '"@ + read_config(
            document,
        )->Ok_0.allow[bad] + "': "@ + "invalid IP address syntax"@,
{
    let allow = read_config(document)->Ok_0.allow;
    entries_before_are_good(allow, bad);
}

proof fn entries_before_are_good(allow: Seq<Seq<char>>, bad: int)
    requires
        0 <= bad < allow.len(),
        parsed_cidr(allow[bad]) is None,
        forall|i: int| 0 <= i < bad ==> parsed_cidr(#[trigger] allow[i]) is Some,
    ensures
        read_networks(allow) == Err::<Seq<Network>, crate::config::ConfigFault>(
            crate::config::ConfigFault::InvalidCidr(allow[bad], "invalid IP address syntax"@),
        ),
    decreases allow.len(),
{
    let rest = allow.drop_last();
    assert forall|i: int| 0 <= i < rest.len() implies rest[i] == allow[i] by {}
    if bad == rest.len() {
        networks_are_the_entries(rest);
        assert forall|i: int| 0 <= i < rest.len() implies parsed_network(
            #[trigger] rest[i],
        ) is Some by {
            assert(parsed_cidr(allow[i]) is Some);
        }
    } else {
        entries_before_are_good(rest, bad);
    }
}

/// A configuration that lists networks, names a header and gives globs is loaded
/// with all of them: a client is admitted by any network that is listed, and a
/// tool is guarded by any glob that is given, or by there being none.
pub proof fn written_configuration_takes_effect(
    allow: Seq<Seq<char>>,
    ip_header: Seq<char>,
    tools: Seq<Seq<char>>,
    ip: IpAddr,
    tool: Seq<char>,
)
    requires
        forall|i: int| 0 <= i < allow.len() ==> parsed_cidr(#[trigger] allow[i]) is Some,
    ensures
        ({
            let fields = crate::json::no_fields().insert("allow"@, list_document(allow)).insert(
                "ip_header"@,
                Json::Text(ip_header),
            ).insert("tools"@, list_document(tools));
            let loaded = load_plugin(Json::Object(fields));
            &&& loaded is Ok
            &&& loaded->Ok_0.ip_header == ip_header
            &&& is_guarded(loaded->Ok_0.tool_patterns, tool) <==> tools.len() == 0 || exists|
                i: int,
            |
                0 <= i < tools.len() && glob_matches(#[trigger] tools[i], tool)
            &&& is_admitted(loaded->Ok_0.networks, ip) <==> exists|i: int|
                0 <= i < allow.len() && (Network {
                    addr: parsed_cidr(#[trigger] allow[i])->Some_0.0,
                    prefix_len: parsed_cidr(allow[i])->Some_0.1,
                }).covers(ip)
        }),
{
    let fields = crate::json::no_fields().insert("allow"@, list_document(allow)).insert(
        "ip_header"@,
        Json::Text(ip_header),
    ).insert("tools"@, list_document(tools));
    reveal_strlit("allow");
    reveal_strlit("ip_header");
    reveal_strlit("tools");
    assert("allow"@[0] != "tools"@[0]);
    assert("allow"@.len() != "ip_header"@.len());
    assert("tools"@.len() != "ip_header"@.len());
    written_object_reads_back(allow, Some(ip_header), Some(tools), fields);
    loaded_plugin_is_the_configuration(Json::Object(fields));
    let networks = load_plugin(Json::Object(fields))->Ok_0.networks;
    assert forall|i: int| 0 <= i < allow.len() implies #[trigger] networks[i] == (Network {
        addr: parsed_cidr(allow[i])->Some_0.0,
        prefix_len: parsed_cidr(allow[i])->Some_0.1,
    }) by {
        assert(parsed_cidr(read_config(Json::Object(fields))->Ok_0.allow[i]) is Some);
    }
    if is_admitted(networks, ip) {
        let i = choose|i: int| 0 <= i < networks.len() && (#[trigger] networks[i]).covers(ip);
        assert(parsed_cidr(allow[i]) is Some);
    }
}

/// A loaded plugin presents itself under its identifier, as a gate of tools that
/// asks for nothing.
pub proof fn loaded_plugin_presents_itself(document: Json)
    ensures
        load_plugin(document) matches Ok(plugin) ==> {
            let manifest = plugin.manifest;
            &&& manifest.id == "dev.mcpg.ip-allowlist"@
            &&& manifest.version == crate::plugin::PLUGIN_VERSION@
            &&& manifest.name == "IP Allowlist"@
            &&& manifest.plugin_class == crate::protocol::PluginClass::ToolGate
            &&& manifest.protocol_version == "1.0"@
            &&& manifest.license is None
            &&& manifest.required_capabilities.len() == 0
            &&& manifest.tags.len() == 0
            &&& manifest.provides.len() == 0
            &&& manifest.provides_schemes.len() == 0
            &&& manifest.module_path_prefix == "mcpg_plugin_security_ip_allowlist"@
            &&& manifest.backend_profile is None
        },
{
}

/// A plugin that is put together from networks, a header and globs has these,
/// and no host.
pub proof fn fresh_plugin_has_what_it_is_given(
    networks: Seq<Network>,
    ip_header: Seq<char>,
    globs: Seq<Seq<char>>,
)
    ensures
        ({
            let plugin = fresh_plugin(networks, ip_header, globs);
            &&& plugin.networks == networks
            &&& plugin.ip_header == ip_header
            &&& plugin.tool_patterns == globs
            &&& plugin.host is None
            &&& plugin.manifest.id == "dev.mcpg.ip-allowlist"@
        }),
{
}

/// A call of a tool that is not guarded is allowed and reported as allowed, and
/// there is nothing to audit.
pub proof fn unguarded_call_leaves_nothing(plugin: PluginView, ctx: ContextView, config: Json)
    requires
        !is_guarded(plugin.tool_patterns, ctx.tool_name),
    ensures
        ({
            let result = evaluation(plugin, ctx, config);
            &&& result.decision == DecisionView::Allow
            &&& result.outcome == Outcome::Allow
            &&& result.audit_payload == Json::Null
            &&& result.reason is None
        }),
{
}

/// A guarded call is decided by its client address, and is decided the same way
/// wherever that address came from.
pub proof fn guarded_call_is_decided_by_its_client(
    plugin: PluginView,
    ctx: ContextView,
    config: Json,
)
    requires
        is_guarded(plugin.tool_patterns, ctx.tool_name),
    ensures
        evaluation(plugin, ctx, config) == guarded_evaluation(
            plugin,
            ctx,
            client_address(plugin.ip_header, config),
        ),
{
}

/// A client that a network covers is allowed in, and there is nothing to audit.
pub proof fn covered_client_is_allowed(plugin: PluginView, ctx: ContextView, ip: IpAddr, i: int)
    requires
        0 <= i < plugin.networks.len(),
        plugin.networks[i].covers(ip),
    ensures
        ({
            let result = guarded_evaluation(plugin, ctx, Some(ip));
            &&& result.decision == DecisionView::Allow
            &&& result.outcome == Outcome::Allow
            &&& result.audit_payload == Json::Null
            &&& result.reason == Some(Reason::InAllowlist)
        }),
{
}

/// A client that no network covers is denied by the text of its address.
pub proof fn foreign_client_is_denied(plugin: PluginView, ctx: ContextView, ip: IpAddr)
    requires
        forall|i: int| 0 <= i < plugin.networks.len() ==> !(#[trigger] plugin.networks[i]).covers(
            ip,
        ),
    ensures
        guarded_evaluation(plugin, ctx, Some(ip)) == denied_address(
            plugin.ip_header,
            ctx,
            address_text(ip),
        ),
{
}

/// What a denial of an address says: the address stands in the words, in the
/// error data and in the audit details. These hold also the tool, the reason,
/// the configured header and the caller's subject, and nothing else.
pub proof fn denial_names_the_address(ip_header: Seq<char>, ctx: ContextView, address: Seq<char>)
    ensures
        ({
            let result = denied_address(ip_header, ctx, address);
            let details = result.audit_payload->Object_0;
            &&& result.decision matches DecisionView::Deny {
                http_status,
                code,
                message,
                error_data,
            }
            &&& http_status == 403
            &&& code == -32030
            &&& message == "Access denied: "@ + address + " not in IP allowlist"@
            &&& error_data matches Some(Json::Object(data))
            &&& data.contains_key("client_ip"@)
            &&& data["client_ip"@] == Json::Text(address)
            &&& forall|key: Seq<char>| #[trigger] data.contains_key(key) ==> key == "client_ip"@
            &&& result.outcome == Outcome::DenyNotAllowlisted
            &&& result.reason == Some(Reason::NotInAllowlist)
            &&& result.audit_payload is Object
            &&& forall|key: Seq<char>| #[trigger]
                details.contains_key(key) <==> key == "tool"@ || key == "reason"@ || key
                    == "ip_header"@ || key == "client_ip"@ || key == "subject"@
            &&& details["tool"@] == Json::Text(ctx.tool_name)
            &&& details["reason"@] == Json::Text("not_in_allowlist"@)
            &&& details["ip_header"@] == Json::Text(ip_header)
            &&& details["client_ip"@] == Json::Text(address)
            &&& ctx.identity.subject_id matches Some(subject) ==> details["subject"@]
                == Json::Text(subject)
            &&& ctx.identity.subject_id is None ==> details["subject"@] == Json::Text(Seq::empty())
        }),
{
    detail_names_differ();
}

/// What a denial for want of an address says; its audit details hold the tool,
/// the reason, the configured header and the caller's subject, and nothing
/// else.
pub proof fn denial_without_address_says_so(
    plugin: PluginView,
    ip_header: Seq<char>,
    ctx: ContextView,
)
    ensures
        guarded_evaluation(plugin, ctx, None) == denied_without_address(plugin.ip_header, ctx),
        ({
            let result = denied_without_address(ip_header, ctx);
            let details = result.audit_payload->Object_0;
            &&& result.decision matches DecisionView::Deny {
                http_status,
                code,
                message,
                error_data,
            }
            &&& http_status == 403
            &&& code == -32030
            &&& message == "Access denied: client IP not available"@
            &&& error_data is None
            &&& result.outcome == Outcome::DenyNotAllowlisted
            &&& result.reason == Some(Reason::NoIp)
            &&& result.audit_payload is Object
            &&& forall|key: Seq<char>| #[trigger]
                details.contains_key(key) <==> key == "tool"@ || key == "reason"@ || key
                    == "ip_header"@ || key == "subject"@
            &&& details["tool"@] == Json::Text(ctx.tool_name)
            &&& details["reason"@] == Json::Text("no_client_ip"@)
            &&& details["ip_header"@] == Json::Text(ip_header)
            &&& ctx.identity.subject_id matches Some(subject) ==> details["subject"@]
                == Json::Text(subject)
            &&& ctx.identity.subject_id is None ==> details["subject"@] == Json::Text(Seq::empty())
        }),
{
    detail_names_differ();
}

proof fn detail_names_differ()
    ensures
        "tool"@.len() == 4,
        "alias"@.len() == 5,
        "reason"@.len() == 6,
        "subject"@.len() == 7,
        "ip_header"@.len() == 9,
        "client_ip"@.len() == 9,
        "request_id"@.len() == 10,
        "duration_ms"@.len() == 11,
        "ip_header"@ != "client_ip"@,
{
    reveal_strlit("tool");
    reveal_strlit("alias");
    reveal_strlit("reason");
    reveal_strlit("subject");
    reveal_strlit("ip_header");
    reveal_strlit("client_ip");
    reveal_strlit("request_id");
    reveal_strlit("duration_ms");
    assert("ip_header"@[0] != "client_ip"@[0]);
}

/// The span around an evaluation carries the tool, the request and the
/// configured header.
pub proof fn span_names_the_call(plugin: PluginView, ctx: ContextView)
    ensures
        span_fields(plugin, ctx)["tool"@] == Json::Text(ctx.tool_name),
        span_fields(plugin, ctx)["request_id"@] == Json::Text(ctx.request_id),
        span_fields(plugin, ctx)["ip_header"@] == Json::Text(plugin.ip_header),
{
    detail_names_differ();
}

/// An audit event is attributed to the caller whenever the caller is of some
/// kind, and to the plugin itself exactly where the caller is of none.
pub proof fn caller_is_the_actor(
    alias: Seq<char>,
    ctx: ContextView,
    outcome: Outcome,
    nanos: nat,
    payload: Json,
    occurred_at: Seq<char>,
)
    ensures
        host_report(alias, ctx, outcome, nanos, payload, occurred_at).audit matches Some(event)
            ==> {
            &&& ctx.identity.kind.len() > 0 ==> event.actor == ctx.identity
            &&& ctx.identity.kind.len() == 0 ==> event.actor == system_identity()
        },
{
}

/// The plugin itself acts as a verified system, under its identifier, without
/// roles, groups, scopes or attributes.
pub proof fn system_acts_under_the_identifier()
    ensures
        ({
            let identity = system_identity();
            &&& identity.kind == "system"@
            &&& identity.trust_level == "verified"@
            &&& identity.subject_id == Some(crate::plugin::PLUGIN_ID@)
            &&& identity.auth_provider is None
            &&& identity.issuer is None
            &&& identity.roles.len() == 0
            &&& identity.groups.len() == 0
            &&& identity.scopes.len() == 0
            &&& forall|key: Seq<char>| !#[trigger] identity.attributes.contains_key(key)
        }),
{
}

/// Every evaluation is counted once and timed, under a label that tells how it
/// ended; allowed calls leave no audit event, and others leave one.
pub proof fn report_counts_and_audits(
    alias: Seq<char>,
    ctx: ContextView,
    outcome: Outcome,
    nanos: nat,
    payload: Json,
    occurred_at: Seq<char>,
)
    ensures
        ({
            let report = host_report(alias, ctx, outcome, nanos, payload, occurred_at);
            &&& report.histogram == "mcpg_ip_allowlist_decision_seconds"@
            &&& report.counter == "mcpg_ip_allowlist_decisions_total"@
            &&& report.increment == 1
            &&& report.labels.len() == 1
            &&& report.labels[0].0 == "outcome"@
            &&& report.labels[0].1 == outcome_label(outcome)
            &&& outcome == Outcome::Allow <==> report.audit is None
            &&& outcome == Outcome::DenyNotAllowlisted ==> report.audit->Some_0.action
                == "dev.mcpg.ip_allowlist.rejected"@ && report.audit->Some_0.outcome
                == crate::protocol::AuditOutcome::Denied
            &&& outcome == Outcome::Error ==> report.audit->Some_0.action
                == "dev.mcpg.ip_allowlist.error"@ && report.audit->Some_0.outcome
                == crate::protocol::AuditOutcome::Failure
        }),
{
}

/// An audit event names the request, the tool and the time, and has an
/// identifier made of the request and of how long the evaluation took.
pub proof fn event_names_the_call(
    alias: Seq<char>,
    ctx: ContextView,
    outcome: Outcome,
    nanos: nat,
    payload: Json,
    occurred_at: Seq<char>,
)
    ensures
        host_report(alias, ctx, outcome, nanos, payload, occurred_at).audit matches Some(event)
            ==> {
            &&& event.event_id == "ip-allowlist-"@ + ctx.request_id + "-"@ + decimal_text(nanos)
            &&& event.occurred_at == occurred_at
            &&& event.resource == Some("tool://"@ + ctx.tool_name)
            &&& event.request_id == Some(ctx.request_id)
            &&& event.upstream_request_id is None
            &&& event.node_id is None
            &&& event.prev_event_hash is None
        },
{
}

/// The details of an audit event are those of the evaluation, none left out and
/// none changed, with the alias of the plugin and the whole milliseconds that
/// the evaluation took, which are counted in 64 bits. Details that are no object
/// stay as they are.
pub proof fn details_are_kept(
    alias: Seq<char>,
    ctx: ContextView,
    outcome: Outcome,
    nanos: nat,
    payload: Json,
    occurred_at: Seq<char>,
)
    ensures
        host_report(alias, ctx, outcome, nanos, payload, occurred_at).audit matches Some(event)
            ==> {
            &&& payload !is Object ==> event.details == payload
            &&& payload is Object ==> {
                let given = payload->Object_0;
                let details = event.details->Object_0;
                &&& event.details is Object
                &&& details.contains_key("alias"@)
                &&& details["alias"@] == Json::Text(alias)
                &&& details.contains_key("duration_ms"@)
                &&& details["duration_ms"@] == Json::Number(
                    decimal_text((nanos / 1_000_000) % 0x1_0000_0000_0000_0000),
                )
                &&& forall|key: Seq<char>|
                    key != "alias"@ && key != "duration_ms"@ ==> (#[trigger] details.contains_key(
                        key,
                    ) <==> given.contains_key(key)) && (given.contains_key(key) ==> details[key]
                        == given[key])
            }
        },
{
    detail_names_differ();
}

/// The labels of outcomes and reasons tell them apart, and the decision label
/// tells admission from denial.
pub proof fn labels_tell_apart(outcome: Outcome, reason: Reason)
    ensures
        outcome_label(outcome) == match outcome {
            Outcome::Allow => "allow"@,
            Outcome::DenyNotAllowlisted => "deny_not_allowlisted"@,
            Outcome::Error => "error"@,
        },
        reason_label(reason) == match reason {
            Reason::InAllowlist => "in_allowlist"@,
            Reason::NotInAllowlist => "not_in_allowlist"@,
            Reason::NoIp => "no_ip"@,
        },
        decision_label(reason) == "allow"@ <==> reason == Reason::InAllowlist,
        decision_label(reason) == "deny"@ <==> reason != Reason::InAllowlist,
{
    reveal_strlit("allow");
    reveal_strlit("deny");
    assert("allow"@.len() != "deny"@.len());
}

/// A guarded call is counted under the reason of its decision: `no_ip` where it
/// has no client address, `in_allowlist` where a network covers the address, and
/// `not_in_allowlist` where none does.
pub proof fn reason_tells_the_decision(plugin: PluginView, ctx: ContextView, config: Json)
    requires
        is_guarded(plugin.tool_patterns, ctx.tool_name),
    ensures
        ({
            let result = evaluation(plugin, ctx, config);
            let client = client_address(plugin.ip_header, config);
            &&& result.reason is Some
            &&& reason_label(result.reason->Some_0) == if client is None {
                "no_ip"@
            } else if exists|i: int|
                0 <= i < plugin.networks.len() && (#[trigger] plugin.networks[i]).covers(
                    client->Some_0,
                ) {
                "in_allowlist"@
            } else {
                "not_in_allowlist"@
            }
            &&& outcome_label(result.outcome) == if result.decision is Allow {
                "allow"@
            } else {
                "deny_not_allowlisted"@
            }
        }),
{
}

/// The first host that is installed stays, whatever host is offered later, and
/// installing a host changes nothing else of a plugin: every call is decided as
/// before.
pub proof fn first_host_stays(
    plugin: PluginView,
    first: Seq<char>,
    second: Seq<char>,
    ctx: ContextView,
    config: Json,
)
    ensures
        plugin.host is None ==> with_host(plugin, first).host == Some(first),
        with_host(with_host(plugin, first), second) == with_host(plugin, first),
        plugin.host is Some ==> with_host(plugin, first) == plugin,
        with_host(plugin, first).manifest == plugin.manifest,
        with_host(plugin, first).networks == plugin.networks,
        with_host(plugin, first).ip_header == plugin.ip_header,
        with_host(plugin, first).tool_patterns == plugin.tool_patterns,
        evaluation(with_host(plugin, first), ctx, config) == evaluation(plugin, ctx, config),
{
}

}
