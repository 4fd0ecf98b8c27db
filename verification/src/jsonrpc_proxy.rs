//! JSON-RPC proxy: which requests are forwarded and what clients are answered.

use serde_json::Value;
use std::time::Duration;
use vstd::prelude::*;
use vstd::slice::slice_to_vec;
use vstd::string::*;

use crate::families;
use crate::handlers;
use crate::handlers::{get_network, json_response, AppError, AppErrorView, HttpResponse, HttpView};
use crate::json;
use crate::json::{
    copy_json, find_member, json_array, json_null, json_object, json_signed, json_string,
    open_json, parse_json, render_json, text_bytes, Json, JsonParts,
};
use crate::metrics::{AppMetrics, MetricsView};
use crate::state;
use crate::state::AppState;
use crate::text;
use crate::text::{join, same_text};

verus! {

/// The methods that are forwarded.
pub open spec fn supported_methods() -> Seq<Seq<char>> {
    seq![
        "account_put_deploy"@,
        "account_put_transaction"@,
        "chain_get_block"@,
        "chain_get_block_transfers"@,
        "chain_get_era_info_by_switch_block"@,
        "chain_get_era_summary"@,
        "chain_get_state_root_hash"@,
        "info_get_chainspec"@,
        "info_get_deploy"@,
        "info_get_reward"@,
        "info_get_status"@,
        "info_get_transaction"@,
        "info_get_validator_changes"@,
        "query_balance"@,
        "query_balance_details"@,
        "query_global_state"@,
        "speculative_exec"@,
        "speculative_exec_txn"@,
        "state_get_account_info"@,
        "state_get_auction_info"@,
        "state_get_auction_info_v2"@,
        "state_get_balance"@,
        "state_get_dictionary_item"@,
        "state_get_entity"@,
        "state_get_item"@,
        "state_get_package"@,
        "state_get_trie"@,
    ]
}

/// The method whose answer holds peers.
pub const STATUS_METHOD: &'static str = "info_get_status";

/// Whether a method is forwarded.
pub fn is_supported_jsonrpc_method(method: &str) -> (r: bool)
    ensures
        r == supported_methods().contains(method@),
{
    let methods: Vec<&str> = vec![
        "account_put_deploy",
        "account_put_transaction",
        "chain_get_block",
        "chain_get_block_transfers",
        "chain_get_era_info_by_switch_block",
        "chain_get_era_summary",
        "chain_get_state_root_hash",
        "info_get_chainspec",
        "info_get_deploy",
        "info_get_reward",
        "info_get_status",
        "info_get_transaction",
        "info_get_validator_changes",
        "query_balance",
        "query_balance_details",
        "query_global_state",
        "speculative_exec",
        "speculative_exec_txn",
        "state_get_account_info",
        "state_get_auction_info",
        "state_get_auction_info_v2",
        "state_get_balance",
        "state_get_dictionary_item",
        "state_get_entity",
        "state_get_item",
        "state_get_package",
        "state_get_trie",
    ];
    let ghost known = families::texts(methods@);
    assert(known =~= supported_methods());
    for i in 0..methods.len()
        invariant
            known == families::texts(methods@),
            known == supported_methods(),
            forall|j: int| 0 <= j < i ==> #[trigger] known[j] != method@,
    {
        assert(known[i as int] == methods@[i as int]@);
        if same_text(methods[i], method) {
            return true;
        }
    }
    false
}

/// The request for connected peers is not forwarded.
pub proof fn law_peers_method_is_not_supported()
    ensures
        !supported_methods().contains("info_get_peers"@),
{
    reveal_strlit("info_get_peers");
    reveal_strlit("account_put_deploy");
    reveal_strlit("account_put_transaction");
    reveal_strlit("chain_get_block");
    reveal_strlit("chain_get_block_transfers");
    reveal_strlit("chain_get_era_info_by_switch_block");
    reveal_strlit("chain_get_era_summary");
    reveal_strlit("chain_get_state_root_hash");
    reveal_strlit("info_get_chainspec");
    reveal_strlit("info_get_deploy");
    reveal_strlit("info_get_reward");
    reveal_strlit("info_get_status");
    reveal_strlit("info_get_transaction");
    reveal_strlit("info_get_validator_changes");
    reveal_strlit("query_balance");
    reveal_strlit("query_balance_details");
    reveal_strlit("query_global_state");
    reveal_strlit("speculative_exec");
    reveal_strlit("speculative_exec_txn");
    reveal_strlit("state_get_account_info");
    reveal_strlit("state_get_auction_info");
    reveal_strlit("state_get_auction_info_v2");
    reveal_strlit("state_get_balance");
    reveal_strlit("state_get_dictionary_item");
    reveal_strlit("state_get_entity");
    reveal_strlit("state_get_item");
    reveal_strlit("state_get_package");
    reveal_strlit("state_get_trie");
    let methods = supported_methods();
    assert forall|i: int| 0 <= i < methods.len() implies methods[i].len() != 14 || methods[i][0]
        != 'i' by {}
    assert("info_get_peers"@.len() == 14 && "info_get_peers"@[0] == 'i');
}

/// What is done with a request.
pub enum RpcDecision {
    /// It is answered at once.
    Answer(HttpResponse),
    /// It is refused.
    Refuse(AppError),
    /// It is forwarded, and peers are taken out of the answer or not.
    Forward { method: String, sanitize_status: bool },
}

/// The view of [`RpcDecision`].
#[verifier::ext_equal]
pub enum DecisionView {
    Answer(HttpView),
    Refuse(AppErrorView),
    Forward { method: Seq<char>, sanitize_status: bool },
}

impl View for RpcDecision {
    type V = DecisionView;

    open spec fn view(&self) -> DecisionView {
        match self {
            RpcDecision::Answer(response) => DecisionView::Answer(response@),
            RpcDecision::Refuse(err) => DecisionView::Refuse(err@),
            RpcDecision::Forward { method, sanitize_status } => DecisionView::Forward {
                method: method@,
                sanitize_status: *sanitize_status,
            },
        }
    }
}

/// A JSON-RPC error.
pub open spec fn jsonrpc_error(id: Json, code: int, message: Seq<char>) -> Json {
    Json::Object(
        seq![
            ("jsonrpc"@, Json::Text("2.0"@)),
            ("id"@, id),
            (
                "error"@,
                Json::Object(
                    seq![
                        ("code"@, Json::Number(text::signed_decimal(code))),
                        ("message"@, Json::Text(message)),
                    ],
                ),
            ),
        ],
    )
}

/// The answer with a JSON-RPC error: a success as far as HTTP goes.
pub open spec fn error_answer(id: Json, code: int, message: Seq<char>) -> HttpView {
    handlers::json_answer(200, jsonrpc_error(id, code, message))
}

/// Answers with a JSON-RPC error.
pub fn jsonrpc_error_response(id: Value, code: i32, message: &str) -> (r: HttpResponse)
    ensures
        r@ == error_answer(json::json_tree(id), code as int, message@),
{
    let error: Vec<(String, Value)> = vec![
        ("code".to_owned(), json_signed(code as i64)),
        ("message".to_owned(), json_string(message)),
    ];
    proof {
        reveal_strlit("code");
        reveal_strlit("message");
        assert("code"@.len() == 4 && "message"@.len() == 7);
        json::lemma_keys_differ(error@);
        assert(json::member_trees(error@) =~= seq![
            ("code"@, Json::Number(text::signed_decimal(code as int))),
            ("message"@, Json::Text(message@)),
        ]);
    }
    let error = json_object(error);
    let members: Vec<(String, Value)> = vec![
        ("jsonrpc".to_owned(), json_string("2.0")),
        ("id".to_owned(), id),
        ("error".to_owned(), error),
    ];
    proof {
        reveal_strlit("jsonrpc");
        reveal_strlit("id");
        reveal_strlit("error");
        assert("jsonrpc"@.len() == 7 && "id"@.len() == 2 && "error"@.len() == 5);
        json::lemma_keys_differ(members@);
        assert(json::member_trees(members@) =~= jsonrpc_error(
            json::json_tree(id),
            code as int,
            message@,
        )->Object_0);
    }
    json_response(200, &json_object(members))
}

/// The identifier of a request, null where it has none.
pub open spec fn request_id(members: Seq<(Seq<char>, Json)>) -> Json {
    match json::member(members, "id"@) {
        Some(id) => id,
        None => Json::Null,
    }
}

/// What is done with the object that a client sent.
pub open spec fn object_decision(members: Seq<(Seq<char>, Json)>) -> DecisionView {
    match json::member(members, "method"@) {
        Some(Json::Text(method)) => if supported_methods().contains(method) {
            DecisionView::Forward { method, sanitize_status: method == STATUS_METHOD@ }
        } else {
            DecisionView::Answer(error_answer(request_id(members), -32601, "Method not found"@))
        },
        _ => DecisionView::Answer(error_answer(Json::Null, -32600, "Invalid Request"@)),
    }
}

/// What is done with what a client sent.
pub open spec fn decided(parsed: Result<Json, Seq<char>>) -> DecisionView {
    match parsed {
        Err(_) => DecisionView::Answer(error_answer(Json::Null, -32700, "Parse error"@)),
        Ok(Json::Object(members)) => object_decision(members),
        Ok(Json::Array(_)) => DecisionView::Refuse(
            AppErrorView { status: 400, message: "JSON-RPC batching is not supported"@ },
        ),
        Ok(_) => DecisionView::Answer(error_answer(Json::Null, -32600, "Invalid Request"@)),
    }
}

/// Decides what is done with what a client sent.
pub fn decide(parsed: Result<Value, String>) -> (r: RpcDecision)
    ensures
        r@ == decided(json::parse_view(parsed)),
{
    let value = match parsed {
        Ok(value) => value,
        Err(_) => {
            return RpcDecision::Answer(jsonrpc_error_response(json_null(), -32700, "Parse error"));
        },
    };
    match open_json(value) {
        JsonParts::Object(members) => decide_object(members),
        JsonParts::Array(_) => RpcDecision::Refuse(
            AppError::bad_request("JSON-RPC batching is not supported".to_owned()),
        ),
        _ => RpcDecision::Answer(jsonrpc_error_response(json_null(), -32600, "Invalid Request")),
    }
}

/// Decides what is done with the object that a client sent.
fn decide_object(members: Vec<(String, Value)>) -> (r: RpcDecision)
    requires
        json::keys_differ(json::member_trees(members@)),
    ensures
        r@ == object_decision(json::member_trees(members@)),
{
    let method = match find_member(&members, "method") {
        Some(i) => open_json(copy_json(&members[i].1)),
        None => {
            return RpcDecision::Answer(
                jsonrpc_error_response(json_null(), -32600, "Invalid Request"),
            );
        },
    };
    match method {
        JsonParts::Text(method) => {
            if !is_supported_jsonrpc_method(method.as_str()) {
                let id = match find_member(&members, "id") {
                    Some(i) => copy_json(&members[i].1),
                    None => json_null(),
                };
                return RpcDecision::Answer(jsonrpc_error_response(id, -32601, "Method not found"));
            }
            let sanitize_status = same_text(method.as_str(), STATUS_METHOD);
            RpcDecision::Forward { method, sanitize_status }
        },
        _ => RpcDecision::Answer(jsonrpc_error_response(json_null(), -32600, "Invalid Request")),
    }
}

/// What the proxy does with a request.
pub enum RpcStep {
    /// It is answered at once.
    Answer(HttpResponse),
    /// It is refused.
    Refuse(AppError),
    /// It is sent as it came to the given address, as JSON.
    Forward { url: String, sanitize_status: bool },
}

/// Whether a step is what was decided for a network with the given address.
pub open spec fn carries_out(step: RpcStep, decision: DecisionView, url: Seq<char>) -> bool {
    match (step, decision) {
        (RpcStep::Answer(response), DecisionView::Answer(expected)) => response@ == expected,
        (RpcStep::Refuse(err), DecisionView::Refuse(expected)) => err@ == expected,
        (
            RpcStep::Forward { url: to, sanitize_status },
            DecisionView::Forward { sanitize_status: expected, .. },
        ) => to@ == url && sanitize_status == expected,
        _ => false,
    }
}

/// The metrics after a decision.
pub open spec fn decision_metrics(
    metrics: MetricsView,
    network: Seq<char>,
    decision: DecisionView,
) -> MetricsView {
    match decision {
        DecisionView::Forward { method, .. } => metrics.jsonrpc_method_counted(network, method),
        _ => metrics,
    }
}

/// Takes a JSON-RPC request. Only one that is forwarded is counted, under its
/// method.
pub fn rpc_proxy<C>(state: &mut AppState<C>, network_name: &str, body: &[u8]) -> (r: RpcStep)
    requires
        old(state).wf(),
    ensures
        final(state).wf(),
        final(state).networks == old(state).networks,
        final(state).binary_rate_limit_per_min == old(state).binary_rate_limit_per_min,
        final(state).binary_rate_limit_burst == old(state).binary_rate_limit_burst,
        final(state).metrics.families() == old(state).metrics.families(),
        if state::network_map(old(state).networks@).contains_key(network_name@) {
            carries_out(
                r,
                decided(json::json_parse(body@)),
                state::network_map(old(state).networks@)[network_name@].config.rpc,
            ) && final(state).metrics@ == decision_metrics(
                old(state).metrics@,
                network_name@,
                decided(json::json_parse(body@)),
            )
        } else {
            (r matches RpcStep::Refuse(err) && err@ == handlers::unknown_network(network_name@))
                && final(state).metrics@ == old(state).metrics@
        },
        r@ == proxied(
            upstream_of(state::network_map(old(state).networks@), network_name@),
            network_name@,
            json::json_parse(body@),
        ),
{
    let i = match get_network(state, network_name) {
        Ok(i) => i,
        Err(err) => {
            return RpcStep::Refuse(err);
        },
    };
    match decide(parse_json(body)) {
        RpcDecision::Answer(response) => RpcStep::Answer(response),
        RpcDecision::Refuse(err) => RpcStep::Refuse(err),
        RpcDecision::Forward { method, sanitize_status } => {
            state.metrics.increment_jsonrpc_method(network_name, method.as_str());
            RpcStep::Forward { url: state.networks[i].config.rpc.clone(), sanitize_status }
        },
    }
}

/// Whether an HTTP status says success.
pub open spec fn is_success(status: u16) -> bool {
    200 <= status < 300
}

/// The metrics after the upstream answered or failed.
pub open spec fn upstream_metrics(
    metrics: MetricsView,
    network: Seq<char>,
    elapsed: Duration,
    status: Option<u16>,
) -> MetricsView {
    match status {
        None => metrics.rpc_upstream_error_counted(network).rpc_upstream_timed(network, elapsed),
        Some(status) => if is_success(status) {
            metrics.rpc_upstream_timed(network, elapsed)
        } else {
            metrics.rpc_upstream_timed(network, elapsed).rpc_upstream_non_success_counted(
                network,
                status,
            )
        },
    }
}

/// Takes the status with which the upstream answered, or the text of the error
/// with which it failed.
pub fn upstream_answered(
    metrics: &mut AppMetrics,
    network: &str,
    elapsed: Duration,
    outcome: Result<u16, String>,
) -> (r: Result<u16, AppError>)
    requires
        old(metrics).wf(),
    ensures
        final(metrics).wf(),
        final(metrics).families() == old(metrics).families(),
        match outcome {
            Ok(status) => r == Ok::<u16, AppError>(status) && final(metrics)@ == upstream_metrics(
                old(metrics)@,
                network@,
                elapsed,
                Some(status),
            ),
            Err(text) => (r matches Err(err) && err@ == (AppErrorView {
                status: 502,
                message: "upstream RPC error: "@ + text@,
            })) && final(metrics)@ == upstream_metrics(old(metrics)@, network@, elapsed, None),
        },
{
    match outcome {
        Ok(status) => {
            metrics.observe_rpc_upstream_duration(network, elapsed);
            if !(200 <= status && status < 300) {
                metrics.increment_rpc_upstream_non_success(network, status);
            }
            Ok(status)
        },
        Err(text) => {
            metrics.increment_rpc_upstream_error(network);
            metrics.observe_rpc_upstream_duration(network, elapsed);
            Err(AppError::bad_gateway(join("upstream RPC error: ", text.as_str())))
        },
    }
}

/// A status answer without peers, where it has a result that can hold them.
pub open spec fn without_peers(tree: Json) -> Option<Json> {
    match tree {
        Json::Object(members) => match json::member(members, "result"@) {
            Some(Json::Object(result)) => Some(
                Json::Object(
                    json::with_member(
                        members,
                        "result"@,
                        Json::Object(
                            json::with_member(result, "peers"@, Json::Array(Seq::empty())),
                        ),
                    ),
                ),
            ),
            _ => None,
        },
        _ => None,
    }
}

/// Takes the peers out of a status answer. `None` says that it has no result
/// that can hold them.
pub fn remove_peers(value: Value) -> (r: Option<Value>)
    ensures
        match r {
            Some(sanitized) => without_peers(json::json_tree(value)) == Some(
                json::json_tree(sanitized),
            ),
            None => without_peers(json::json_tree(value)) is None,
        },
{
    let mut members = match open_json(value) {
        JsonParts::Object(members) => members,
        _ => {
            return None;
        },
    };
    let i = match find_member(&members, "result") {
        Some(i) => i,
        None => {
            return None;
        },
    };
    match open_json(copy_json(&members[i].1)) {
        JsonParts::Object(result) => {
            let sanitized = with_empty_peers(result);
            let ghost before = json::member_trees(members@);
            members.set(i, ("result".to_owned(), sanitized));
            proof {
                let after = json::member_trees(members@);
                assert(after =~= before.update(i as int, ("result"@, json::json_tree(sanitized))));
                json::law_member_read_back(
                    before,
                    "result"@,
                    json::json_tree(sanitized),
                    "result"@,
                );
            }
            Some(json_object(members))
        },
        _ => None,
    }
}

/// The result of a status answer with no peers.
fn with_empty_peers(result: Vec<(String, Value)>) -> (r: Value)
    requires
        json::keys_differ(json::member_trees(result@)),
    ensures
        json::json_tree(r) == Json::Object(
            json::with_member(
                json::member_trees(result@),
                "peers"@,
                Json::Array(Seq::empty()),
            ),
        ),
{
    let ghost before = json::member_trees(result@);
    let mut result = result;
    let items: Vec<Value> = Vec::new();
    assert(json::item_trees(items@) =~= Seq::<Json>::empty());
    let none = json_array(items);
    match find_member(&result, "peers") {
        Some(i) => {
            result.set(i, ("peers".to_owned(), none));
            assert(json::member_trees(result@) =~= before.update(
                i as int,
                ("peers"@, json::json_tree(none)),
            ));
        },
        None => {
            result.push(("peers".to_owned(), none));
            assert(json::member_trees(result@) =~= before.push(
                ("peers"@, json::json_tree(none)),
            ));
        },
    }
    proof {
        json::law_member_read_back(before, "peers"@, json::json_tree(none), "peers"@);
    }
    json_object(result)
}

/// What a client gets for the body of a status answer.
pub open spec fn sanitized_body(parsed: Result<Json, Seq<char>>, body: Seq<u8>) -> Result<
    Seq<u8>,
    AppErrorView,
> {
    match parsed {
        Err(text) => Err(
            AppErrorView {
                status: 502,
                message: "upstream RPC response is not JSON: "@ + text,
            },
        ),
        Ok(tree) => match without_peers(tree) {
            Some(sanitized) => Ok(handlers::utf8(json::json_text(sanitized))),
            None => Ok(body),
        },
    }
}

/// The view of a body or an error.
pub open spec fn body_view(body: Result<Vec<u8>, AppError>) -> Result<Seq<u8>, AppErrorView> {
    match body {
        Ok(bytes) => Ok(bytes@),
        Err(err) => Err(err@),
    }
}

/// Takes the peers out of the body of a status answer, given what it parses to.
pub fn sanitize_parsed(parsed: Result<Value, String>, body: &[u8]) -> (r: Result<
    Vec<u8>,
    AppError,
>)
    ensures
        body_view(r) == sanitized_body(json::parse_view(parsed), body@),
{
    match parsed {
        Err(text) => Err(
            AppError::bad_gateway(join("upstream RPC response is not JSON: ", text.as_str())),
        ),
        Ok(value) => match remove_peers(value) {
            Some(sanitized) => Ok(text_bytes(render_json(&sanitized).as_str())),
            None => Ok(slice_to_vec(body)),
        },
    }
}

/// Takes the peers out of the body of a status answer.
pub fn sanitize_info_get_status_response(body: &[u8]) -> (r: Result<Vec<u8>, AppError>)
    ensures
        body_view(r) == sanitized_body(json::json_parse(body@), body@),
{
    sanitize_parsed(parse_json(body), body)
}

/// Answers a client with what the upstream answered: its status, its content
/// type and its body, or the text of the error with which the body failed.
pub fn upstream_response(
    sanitize_status: bool,
    status: u16,
    content_type: Option<Vec<u8>>,
    body: Result<Vec<u8>, String>,
) -> (r: Result<HttpResponse, AppError>)
    ensures
        match body {
            Err(text) => r matches Err(err) && err@ == (AppErrorView {
                status: 502,
                message: "upstream body error: "@ + text@,
            }),
            Ok(bytes) => match (if sanitize_status {
                sanitized_body(json::json_parse(bytes@), bytes@)
            } else {
                Ok(bytes@)
            }) {
                Ok(sent) => r matches Ok(response) && response@ == (HttpView {
                    status,
                    content_type: handlers::optional_bytes(content_type),
                    body: sent,
                }),
                Err(expected) => r matches Err(err) && err@ == expected,
            },
        },
        answer_view(r) == client_answer(
            sanitize_status,
            status,
            handlers::optional_bytes(content_type),
            match body {
                Ok(bytes) => Ok(bytes@),
                Err(text) => Err(text@),
            },
        ),
{
    let body = match body {
        Ok(body) => body,
        Err(text) => {
            return Err(AppError::bad_gateway(join("upstream body error: ", text.as_str())));
        },
    };
    let body = if sanitize_status {
        match sanitize_info_get_status_response(body.as_slice()) {
            Ok(body) => body,
            Err(err) => {
                return Err(err);
            },
        }
    } else {
        body
    };
    Ok(HttpResponse { status, content_type, body })
}

/// The members of an object.
pub open spec fn members_of(tree: Json) -> Seq<(Seq<char>, Json)> {
    match tree {
        Json::Object(members) => members,
        _ => Seq::empty(),
    }
}

/// A status answer that was sanitized holds an empty list of peers, and
/// everything else that it held before.
pub proof fn law_sanitized_status_has_no_peers(tree: Json, key: Seq<char>)
    requires
        json::keys_differ(members_of(tree)),
        json::keys_differ(members_of(json::member(members_of(tree), "result"@)->0)),
        without_peers(tree) is Some,
    ensures
        ({
            let sanitized = without_peers(tree)->0;
            let result = json::member(members_of(sanitized), "result"@)->0;
            let before = json::member(members_of(tree), "result"@)->0;
            &&& json::member(members_of(sanitized), "result"@) is Some
            &&& json::member(members_of(result), "peers"@) == Some(Json::Array(Seq::empty()))
            &&& key != "peers"@ ==> json::member(members_of(result), key) == json::member(
                members_of(before),
                key,
            )
            &&& key != "result"@ ==> json::member(members_of(sanitized), key) == json::member(
                members_of(tree),
                key,
            )
        }),
{
    let members = members_of(tree);
    let result = members_of(json::member(members, "result"@)->0);
    let none = Json::Array(Seq::empty());
    json::law_member_read_back(result, "peers"@, none, key);
    json::law_member_read_back(
        members,
        "result"@,
        Json::Object(json::with_member(result, "peers"@, none)),
        key,
    );
}

/// Taking the peers out twice is taking them out once.
pub proof fn law_sanitizing_twice_changes_nothing(tree: Json)
    requires
        json::keys_differ(members_of(tree)),
        json::keys_differ(members_of(json::member(members_of(tree), "result"@)->0)),
        without_peers(tree) is Some,
    ensures
        without_peers(without_peers(tree)->0) == without_peers(tree),
{
    let members = members_of(tree);
    let result = members_of(json::member(members, "result"@)->0);
    let none = Json::Array(Seq::empty());
    let sanitized_result = json::with_member(result, "peers"@, none);
    let sanitized = json::with_member(members, "result"@, Json::Object(sanitized_result));
    json::law_member_read_back(result, "peers"@, none, "peers"@);
    json::law_member_read_back(members, "result"@, Json::Object(sanitized_result), "result"@);
    json::lemma_with_member_again(sanitized_result, "peers"@, none);
    json::lemma_with_member_again(sanitized, "result"@, Json::Object(sanitized_result));
}

/// Only single requests with a supported method are forwarded, and the peers
/// are taken out of the answer exactly where the status was asked for.
pub proof fn law_only_supported_methods_are_forwarded(parsed: Result<Json, Seq<char>>)
    ensures
        decided(parsed) matches DecisionView::Forward { method, sanitize_status } ==> parsed
            matches Ok(Json::Object(members)) && json::member(members, "method"@) == Some(
            Json::Text(method),
        ) && supported_methods().contains(method) && sanitize_status == (method
            == "info_get_status"@),
{
}

/// A client that asks for peers, under any identifier and with any other
/// members, is told that there is no such method.
pub proof fn law_peers_are_refused(members: Seq<(Seq<char>, Json)>)
    requires
        json::member(members, "method"@) == Some(Json::Text("info_get_peers"@)),
    ensures
        decided(Ok(Json::Object(members))) == DecisionView::Answer(
            error_answer(request_id(members), -32601, "Method not found"@),
        ),
{
    law_peers_method_is_not_supported();
}

/// Exactly these methods are supported.
pub proof fn law_the_supported_methods(method: Seq<char>)
    ensures
        supported_methods().contains(method) <==> ({
            ||| method == "account_put_deploy"@
            ||| method == "account_put_transaction"@
            ||| method == "chain_get_block"@
            ||| method == "chain_get_block_transfers"@
            ||| method == "chain_get_era_info_by_switch_block"@
            ||| method == "chain_get_era_summary"@
            ||| method == "chain_get_state_root_hash"@
            ||| method == "info_get_chainspec"@
            ||| method == "info_get_deploy"@
            ||| method == "info_get_reward"@
            ||| method == "info_get_status"@
            ||| method == "info_get_transaction"@
            ||| method == "info_get_validator_changes"@
            ||| method == "query_balance"@
            ||| method == "query_balance_details"@
            ||| method == "query_global_state"@
            ||| method == "speculative_exec"@
            ||| method == "speculative_exec_txn"@
            ||| method == "state_get_account_info"@
            ||| method == "state_get_auction_info"@
            ||| method == "state_get_auction_info_v2"@
            ||| method == "state_get_balance"@
            ||| method == "state_get_dictionary_item"@
            ||| method == "state_get_entity"@
            ||| method == "state_get_item"@
            ||| method == "state_get_package"@
            ||| method == "state_get_trie"@
        }),
{
    let known = supported_methods();
    assert(known[0] == "account_put_deploy"@);
    assert(known[1] == "account_put_transaction"@);
    assert(known[2] == "chain_get_block"@);
    assert(known[3] == "chain_get_block_transfers"@);
    assert(known[4] == "chain_get_era_info_by_switch_block"@);
    assert(known[5] == "chain_get_era_summary"@);
    assert(known[6] == "chain_get_state_root_hash"@);
    assert(known[7] == "info_get_chainspec"@);
    assert(known[8] == "info_get_deploy"@);
    assert(known[9] == "info_get_reward"@);
    assert(known[10] == "info_get_status"@);
    assert(known[11] == "info_get_transaction"@);
    assert(known[12] == "info_get_validator_changes"@);
    assert(known[13] == "query_balance"@);
    assert(known[14] == "query_balance_details"@);
    assert(known[15] == "query_global_state"@);
    assert(known[16] == "speculative_exec"@);
    assert(known[17] == "speculative_exec_txn"@);
    assert(known[18] == "state_get_account_info"@);
    assert(known[19] == "state_get_auction_info"@);
    assert(known[20] == "state_get_auction_info_v2"@);
    assert(known[21] == "state_get_balance"@);
    assert(known[22] == "state_get_dictionary_item"@);
    assert(known[23] == "state_get_entity"@);
    assert(known[24] == "state_get_item"@);
    assert(known[25] == "state_get_package"@);
    assert(known[26] == "state_get_trie"@);
    if known.contains(method) {
        let i = known.index_of(method);
        assert(known[i] == method);
    }
}

/// What becomes of a request, whatever else it holds. One with a supported
/// method is forwarded under that method, and its answer is sanitized exactly
/// where the method is `info_get_status`. One with another method is answered
/// with code -32601 and its own identifier, null where it has none.
pub proof fn law_single_requests_are_decided_by_their_method(
    members: Seq<(Seq<char>, Json)>,
    method: Seq<char>,
)
    requires
        json::member(members, "method"@) == Some(Json::Text(method)),
    ensures
        supported_methods().contains(method) ==> decided(Ok(Json::Object(members)))
            == (DecisionView::Forward { method, sanitize_status: method == "info_get_status"@ }),
        !supported_methods().contains(method) ==> ({
            let id = json::member(members, "id"@);
            &&& decided(Ok(Json::Object(members))) is Answer
            &&& id is Some ==> decided(Ok(Json::Object(members))) == DecisionView::Answer(
                error_answer(id->0, -32601, "Method not found"@),
            )
            &&& id is None ==> decided(Ok(Json::Object(members))) == DecisionView::Answer(
                error_answer(Json::Null, -32601, "Method not found"@),
            )
        }),
{
}

/// What is no single request with a method is never forwarded: bytes that are no
/// JSON are answered with code -32700, a list of requests is refused with status
/// 400, and anything else, also an object whose method is missing or is no text,
/// is answered with code -32600 and no identifier.
pub proof fn law_nothing_else_is_forwarded(tree: Json, text: Seq<char>)
    ensures
        decided(Err(text)) == DecisionView::Answer(
            error_answer(Json::Null, -32700, "Parse error"@),
        ),
        tree is Array ==> decided(Ok(tree)) == DecisionView::Refuse(
            AppErrorView { status: 400, message: "JSON-RPC batching is not supported"@ },
        ),
        !(tree is Array) && !(tree is Object) ==> decided(Ok(tree)) == DecisionView::Answer(
            error_answer(Json::Null, -32600, "Invalid Request"@),
        ),
        tree is Object && !(json::member(tree->Object_0, "method"@) is Some && json::member(
            tree->Object_0,
            "method"@,
        )->0 is Text) ==> decided(Ok(tree)) == DecisionView::Answer(
            error_answer(Json::Null, -32600, "Invalid Request"@),
        ),
{
}

/// A JSON-RPC error is answered with status 200 and a JSON object that says
/// which protocol is spoken, which request is answered, and what went wrong.
pub proof fn law_errors_name_request_code_and_message(id: Json, code: int, message: Seq<char>)
    ensures
        ({
            let tree = jsonrpc_error(id, code, message);
            let members = tree->Object_0;
            let error = json::member(members, "error"@)->0->Object_0;
            let answer = error_answer(id, code, message);
            &&& answer.status == 200
            &&& answer.content_type == Some(handlers::utf8("application/json"@))
            &&& answer.body == handlers::utf8(json::json_text(tree))
            &&& tree is Object && members.len() == 3
            &&& json::member(members, "jsonrpc"@) == Some(Json::Text("2.0"@))
            &&& json::member(members, "id"@) == Some(id)
            &&& json::member(members, "error"@) == Some(Json::Object(error)) && error.len() == 2
            &&& json::member(error, "code"@) == Some(Json::Number(text::signed_decimal(code)))
            &&& json::member(error, "message"@) == Some(Json::Text(message))
        }),
{
    reveal_strlit("jsonrpc");
    reveal_strlit("id");
    reveal_strlit("error");
    reveal_strlit("code");
    reveal_strlit("message");
    let members = jsonrpc_error(id, code, message)->Object_0;
    assert("jsonrpc"@.len() == 7 && "id"@.len() == 2 && "error"@.len() == 5);
    assert(json::keys_differ(members));
    json::lemma_place_of(members, "jsonrpc"@, 0);
    json::lemma_place_of(members, "id"@, 1);
    json::lemma_place_of(members, "error"@, 2);
    let error = members[2].1->Object_0;
    assert("code"@.len() == 4 && "message"@.len() == 7);
    assert(json::keys_differ(error));
    json::lemma_place_of(error, "code"@, 0);
    json::lemma_place_of(error, "message"@, 1);
}

/// Only what is forwarded is counted, once and under its method.
pub proof fn law_only_forwarded_requests_are_counted(
    metrics: MetricsView,
    network: Seq<char>,
    decision: DecisionView,
)
    ensures
        decision is Forward ==> decision_metrics(metrics, network, decision)
            == metrics.jsonrpc_method_counted(network, decision->method),
        !(decision is Forward) ==> decision_metrics(metrics, network, decision) == metrics,
{
}

/// A status answer is sanitized whenever it has a result that can hold peers,
/// whatever else it holds, and an answer without one is not.
pub proof fn law_every_status_result_is_sanitized(tree: Json)
    ensures
        without_peers(tree) is Some <==> tree is Object && json::member(
            tree->Object_0,
            "result"@,
        ) is Some && json::member(tree->Object_0, "result"@)->0 is Object,
{
}

/// What a client gets for a status answer with a result: an answer whose result
/// has an empty list of peers, which holds everything else that it held before,
/// in the same places, and nothing more.
pub proof fn law_clients_see_no_peers(
    members: Seq<(Seq<char>, Json)>,
    result: Seq<(Seq<char>, Json)>,
    key: Seq<char>,
    body: Seq<u8>,
)
    requires
        json::keys_differ(members),
        json::keys_differ(result),
        json::member(members, "result"@) == Some(Json::Object(result)),
    ensures
        ({
            let sanitized = without_peers(Json::Object(members))->0;
            let after = sanitized->Object_0;
            let shown = json::member(after, "result"@)->0->Object_0;
            &&& without_peers(Json::Object(members)) is Some && sanitized is Object
            &&& sanitized_body(Ok(Json::Object(members)), body) == Ok::<Seq<u8>, AppErrorView>(
                handlers::utf8(json::json_text(sanitized)),
            )
            &&& json::member(after, "result"@) == Some(Json::Object(shown))
            &&& json::member(shown, "peers"@) == Some(Json::Array(Seq::empty()))
            &&& key != "result"@ ==> json::member(after, key) == json::member(members, key)
            &&& key != "peers"@ ==> json::member(shown, key) == json::member(result, key)
            &&& after.len() == members.len()
            &&& shown.len() == if json::member(result, "peers"@) is Some {
                result.len()
            } else {
                result.len() + 1
            }
            &&& forall|i: int| 0 <= i < members.len() ==> #[trigger] after[i].0 == members[i].0
            &&& forall|i: int| 0 <= i < result.len() ==> #[trigger] shown[i].0 == result[i].0
        }),
{
    let none = Json::Array(Seq::empty());
    let shown = json::with_member(result, "peers"@, none);
    json::law_member_read_back(result, "peers"@, none, key);
    json::law_member_read_back(members, "result"@, Json::Object(shown), key);
    assert(json::stands_at(members, "result"@, json::place_of(members, "result"@)));
    if json::has_key(result, "peers"@) {
        assert(json::stands_at(result, "peers"@, json::place_of(result, "peers"@)));
    }
}

/// A status answer without a result that can hold peers is passed on as it
/// came, and one that is no JSON is answered with status 502.
pub proof fn law_other_status_answers(tree: Json, text: Seq<char>, body: Seq<u8>)
    ensures
        !(tree is Object) ==> sanitized_body(Ok(tree), body) == Ok::<Seq<u8>, AppErrorView>(body),
        tree is Object && !(json::member(tree->Object_0, "result"@) is Some && json::member(
            tree->Object_0,
            "result"@,
        )->0 is Object) ==> sanitized_body(Ok(tree), body) == Ok::<Seq<u8>, AppErrorView>(body),
        sanitized_body(Err(text), body) == Err::<Seq<u8>, AppErrorView>(
            AppErrorView {
                status: 502,
                message: "upstream RPC response is not JSON: "@ + text,
            },
        ),
{
}

/// An answer of the upstream is timed once, and counted as an error where none
/// came, or under its status where that is not between 200 and 299.
pub proof fn law_upstream_answers_are_timed(
    metrics: MetricsView,
    network: Seq<char>,
    elapsed: Duration,
    status: u16,
)
    ensures
        200 <= status <= 299 ==> upstream_metrics(metrics, network, elapsed, Some(status))
            == metrics.rpc_upstream_timed(network, elapsed),
        status < 200 || status > 299 ==> upstream_metrics(metrics, network, elapsed, Some(status))
            == metrics.rpc_upstream_timed(network, elapsed).rpc_upstream_non_success_counted(
            network,
            status,
        ),
        upstream_metrics(metrics, network, elapsed, None) == metrics.rpc_upstream_error_counted(
            network,
        ).rpc_upstream_timed(network, elapsed),
{
}

/// The view of [`RpcStep`].
#[verifier::ext_equal]
pub enum StepView {
    Answer(HttpView),
    Refuse(AppErrorView),
    Forward { url: Seq<char>, sanitize_status: bool },
}

impl View for RpcStep {
    type V = StepView;

    open spec fn view(&self) -> StepView {
        match self {
            RpcStep::Answer(response) => StepView::Answer(response@),
            RpcStep::Refuse(err) => StepView::Refuse(err@),
            RpcStep::Forward { url, sanitize_status } => StepView::Forward {
                url: url@,
                sanitize_status: *sanitize_status,
            },
        }
    }
}

/// What is done with what a client sent to a network, given the address to
/// which that network's requests go, if there is such a network.
pub open spec fn proxied(
    url: Option<Seq<char>>,
    network: Seq<char>,
    parsed: Result<Json, Seq<char>>,
) -> StepView {
    match url {
        None => StepView::Refuse(handlers::unknown_network(network)),
        Some(url) => match decided(parsed) {
            DecisionView::Answer(response) => StepView::Answer(response),
            DecisionView::Refuse(err) => StepView::Refuse(err),
            DecisionView::Forward { sanitize_status, .. } => StepView::Forward {
                url,
                sanitize_status,
            },
        },
    }
}

/// The address to which the requests of a network go, if there is such a
/// network.
pub open spec fn upstream_of<C>(
    networks: Map<Seq<char>, state::NetworkView<C>>,
    network: Seq<char>,
) -> Option<Seq<char>> {
    if networks.contains_key(network) {
        Some(networks[network].config.rpc)
    } else {
        None
    }
}

/// A request with a supported method goes to the address of its network, as it
/// came, and its answer is sanitized exactly where the status was asked for.
/// Without such a network it is refused with status 404, whatever it is.
pub proof fn law_requests_go_to_their_network(
    url: Seq<char>,
    network: Seq<char>,
    members: Seq<(Seq<char>, Json)>,
    method: Seq<char>,
    parsed: Result<Json, Seq<char>>,
)
    requires
        json::member(members, "method"@) == Some(Json::Text(method)),
        supported_methods().contains(method),
    ensures
        proxied(Some(url), network, Ok(Json::Object(members))) == (StepView::Forward {
            url,
            sanitize_status: method == "info_get_status"@,
        }),
        proxied(None, network, parsed) == StepView::Refuse(
            AppErrorView { status: 404, message: "unknown network: "@ + network },
        ),
        decided(parsed) is Answer ==> proxied(Some(url), network, parsed) == StepView::Answer(
            decided(parsed)->Answer_0,
        ),
        decided(parsed) is Refuse ==> proxied(Some(url), network, parsed) == StepView::Refuse(
            decided(parsed)->Refuse_0,
        ),
{
}

/// What a client is answered, given what the upstream answered: its status, its
/// content type and its body, or the text of the error with which the body
/// failed.
pub open spec fn client_answer(
    sanitize_status: bool,
    status: u16,
    content_type: Option<Seq<u8>>,
    body: Result<Seq<u8>, Seq<char>>,
) -> Result<HttpView, AppErrorView> {
    match body {
        Err(text) => Err(
            AppErrorView { status: 502, message: "upstream body error: "@ + text },
        ),
        Ok(bytes) => if sanitize_status {
            match sanitized_body(json::json_parse(bytes), bytes) {
                Ok(sent) => Ok(HttpView { status, content_type, body: sent }),
                Err(err) => Err(err),
            }
        } else {
            Ok(HttpView { status, content_type, body: bytes })
        },
    }
}

/// The view of an answer or an error.
pub open spec fn answer_view(answer: Result<HttpResponse, AppError>) -> Result<
    HttpView,
    AppErrorView,
> {
    match answer {
        Ok(response) => Ok(response@),
        Err(err) => Err(err@),
    }
}

/// An answer of the upstream is passed on with its status and its content type,
/// whatever they are. Its body is passed on as it came, unless it answers for
/// the status; then it is passed on without peers, and as it came where it has
/// no result that can hold them. A body that could not be had, or a status
/// answer that is no JSON, is answered with status 502.
pub proof fn law_upstream_answers_are_passed_on(
    status: u16,
    content_type: Option<Seq<u8>>,
    body: Seq<u8>,
    sanitize_status: bool,
    text: Seq<char>,
)
    ensures
        client_answer(false, status, content_type, Ok(body)) == Ok::<HttpView, AppErrorView>(
            HttpView { status, content_type, body },
        ),
        client_answer(sanitize_status, status, content_type, Err(text)) == Err::<
            HttpView,
            AppErrorView,
        >(AppErrorView { status: 502, message: "upstream body error: "@ + text }),
        json::json_parse(body) matches Ok(tree) ==> ({
            let passed = client_answer(true, status, content_type, Ok(body));
            let has_result = tree is Object && json::member(tree->Object_0, "result"@) is Some
                && json::member(tree->Object_0, "result"@)->0 is Object;
            &&& passed is Ok
            &&& passed->Ok_0.status == status
            &&& passed->Ok_0.content_type == content_type
            &&& !has_result ==> passed->Ok_0.body == body
            &&& has_result ==> without_peers(tree) is Some && passed->Ok_0.body == handlers::utf8(
                json::json_text(without_peers(tree)->0),
            )
        }),
        json::json_parse(body) matches Err(reason) ==> client_answer(
            true,
            status,
            content_type,
            Ok(body),
        ) == Err::<HttpView, AppErrorView>(
            AppErrorView {
                status: 502,
                message: "upstream RPC response is not JSON: "@ + reason,
            },
        ),
{
}

} // verus!
