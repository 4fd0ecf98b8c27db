use casper_binary_port::{
    AccountInformation, AddressableEntityInformation, BalanceResponse, BinaryResponse,
    BinaryResponseAndRequest, Command, CommandHeader, ConsensusStatus, ConsensusValidatorChanges,
    ContractInformation, DictionaryQueryResult, ErrorCode, GetRequest, GetTrieFullResult,
    GlobalStateQueryResult, InformationRequest, LastProgress, NetworkName, NodeStatus,
    ReactorStateName, ResponseType, RewardResponse, SpeculativeExecutionResult,
    TransactionWithExecutionInfo, Uptime, ValueWithProof,
};
use casper_node_proxy::binary_proxy::{
    build_error_response, frame_request, is_retryable_io_error, BinaryError, BinaryPool,
    IoErrorKind, PendingSend, PoolStep, SendAction, SendEvent, MAX_MESSAGE_SIZE_BYTES,
};
use casper_node_proxy::calltable::check_offsets;
use casper_node_proxy::handlers::{
    binary_reply, rate_limited, receive_binary, BinaryFrame, BinarySession, BinaryStep, Inbound,
    SocketAction, SocketEvent,
};
use casper_node_proxy::metrics::AppMetrics;
use casper_node_proxy::request::{parse_request, RequestParseError};
use casper_node_proxy::response::{
    log_binary_response, parse_response_envelope, reported_peers, rewrite_response_bytes,
    sanitize_node_status_payload, serialize_response_envelope, ResponseEnvelope,
    ResponseRewriteError,
};
use casper_node_proxy::wire;
use casper_types::account::AccountHash;
use casper_types::bytesrepr::{Bytes, Error, FromBytes, ToBytes};
use casper_types::contracts::ContractPackage;
use casper_types::execution::{ExecutionResult, ExecutionResultV1};
use casper_types::{
    Approval, AvailableBlockRange, BlockBody, BlockBodyV1, BlockHeader, BlockHeaderV1,
    BlockSignatures, BlockSignaturesV1, BlockSynchronizerStatus, BlockWithSignatures,
    ChainspecRawBytes, Deploy, Digest, InitiatorAddr, NextUpgrade, Package, Peers, PricingMode,
    ProtocolVersion, StoredValue, TimeDiff, Timestamp, Transaction, TransactionV1Payload, Transfer,
};
use std::collections::BTreeMap;
use std::time::Duration;

fn metrics() -> AppMetrics {
    AppMetrics::new()
}

fn pool() -> BinaryPool<u32> {
    BinaryPool::new("local".to_string(), "127.0.0.1:28101".to_string(), 1)
}

fn build_request_payload(request_id: u16, info_request: InformationRequest) -> Vec<u8> {
    let get_request = GetRequest::try_from(info_request).expect("build GetRequest");
    let command = Command::Get(get_request);
    let header = CommandHeader::new(command.tag(), request_id);
    let mut bytes = Vec::new();
    header.write_bytes(&mut bytes).expect("serialize command header");
    command.write_bytes(&mut bytes).expect("serialize command");
    bytes
}

fn node_status() -> NodeStatus {
    let mut peers = BTreeMap::new();
    peers.insert("tls:0101".to_string(), "1.2.3.4:35000".to_string());
    peers.insert("tls:0202".to_string(), "5.6.7.8:35000".to_string());
    NodeStatus {
        protocol_version: ProtocolVersion::from_parts(2, 0, 0),
        peers: Peers::from(peers),
        build_version: "2.0.0-abc".to_string(),
        chainspec_name: "casper-test".to_string(),
        starting_state_root_hash: Digest::from([7u8; 32]),
        last_added_block_info: None,
        our_public_signing_key: None,
        round_length: Some(TimeDiff::from_millis(8192)),
        next_upgrade: None,
        uptime: TimeDiff::from_millis(1000),
        reactor_state: ReactorStateName::new("KeepUp"),
        last_progress: Timestamp::from(1234u64),
        available_block_range: AvailableBlockRange::RANGE_0_0,
        block_sync: BlockSynchronizerStatus::new(None, None),
        latest_switch_block_hash: None,
    }
}

fn alone(tag: u8, payload: Vec<u8>) -> Vec<u8> {
    let response_type = ResponseType::try_from(tag).expect("known tag");
    BinaryResponse::from_raw_bytes(response_type, payload).to_bytes().expect("response")
}

fn success(tag: u8, payload: Vec<u8>) -> Vec<u8> {
    let response_type = ResponseType::try_from(tag).expect("known tag");
    with_request(b"a request", BinaryResponse::from_raw_bytes(response_type, payload))
}

fn with_request(request: &[u8], response: BinaryResponse) -> Vec<u8> {
    BinaryResponseAndRequest::new(response, Bytes::from(request.to_vec()))
        .to_bytes()
        .expect("response")
}

fn pending(action: SendAction) -> PendingSend {
    match action {
        SendAction::Acquire(pending) => pending,
        SendAction::Exchange(pending) => pending,
        SendAction::Reconnect(pending) => pending,
        SendAction::Finish { .. } => panic!("request is finished"),
    }
}

fn finished(action: SendAction) -> (Result<Vec<u8>, BinaryError>, bool) {
    match action {
        SendAction::Finish { reply, keep_connection } => (reply, keep_connection),
        _ => panic!("request is not finished"),
    }
}

fn acquired() -> SendEvent {
    SendEvent::Acquired { waited: Duration::from_millis(1), outcome: Ok(()) }
}

fn io_error(kind: IoErrorKind) -> BinaryError {
    BinaryError::Io { kind, message: "lost".to_string() }
}

fn exchange(
    pool: &BinaryPool<u32>,
    metrics: &mut AppMetrics,
    request: Vec<u8>,
    response: Vec<u8>,
) -> (Result<Vec<u8>, BinaryError>, bool) {
    let request = pending(pool.send(metrics, request));
    let request = pending(pool.proceed(metrics, request, acquired()));
    finished(pool.proceed(metrics, request, SendEvent::Exchanged(Ok(response))))
}

#[test]
fn binary_ws_roundtrip() {
    let pool = pool();
    let mut metrics = metrics();
    let mut responses = 0;
    for request_id in 1..4u16 {
        let payload = build_request_payload(request_id, InformationRequest::NodeStatus);
        let status = node_status();
        let upstream = with_request(&payload, BinaryResponse::from_value(status));
        let (reply, keep) = exchange(&pool, &mut metrics, payload.clone(), upstream);
        assert!(keep);
        let response_bytes = match binary_reply(reply) {
            BinaryFrame::Binary(bytes) => bytes,
            other => panic!("unexpected websocket message: {other:?}"),
        };
        let (response, remainder) = BinaryResponseAndRequest::from_bytes(&response_bytes)
            .expect("binary response should decode");
        assert!(remainder.is_empty(), "binary response should not have trailing bytes");
        assert!(response.response().is_success(), "binary response indicates failure");
        assert!(
            !response.response().payload().is_empty(),
            "binary response payload should not be empty"
        );
        assert_eq!(response.request(), payload.as_slice());
        responses += 1;
    }
    assert!(responses >= 2, "expected multiple binary responses");
}

#[test]
fn binary_ws_filters_peers_and_sanitizes_node_status() {
    let pool = pool();
    let mut metrics = metrics();

    let peers_payload = build_request_payload(1, InformationRequest::Peers);
    let (reply, keep) = finished(pool.send(&mut metrics, peers_payload.clone()));
    assert!(!keep);
    let peers_response_bytes = reply.expect("peers response");
    let (peers_response, peers_remainder) =
        BinaryResponseAndRequest::from_bytes(&peers_response_bytes)
            .expect("peers response should decode");
    assert!(peers_remainder.is_empty(), "peers response should not have trailing bytes");
    assert!(!peers_response.response().is_success(), "peers response should indicate failure");
    assert_eq!(
        peers_response.response().error_code(),
        ErrorCode::FunctionDisabled as u16,
        "peers response should be blocked"
    );
    assert_eq!(peers_response.request(), peers_payload.as_slice());

    let status_payload = build_request_payload(2, InformationRequest::NodeStatus);
    let upstream = with_request(&status_payload, BinaryResponse::from_value(node_status()));
    let (reply, _) = exchange(&pool, &mut metrics, status_payload, upstream);
    let status_response_bytes = reply.expect("node status response");
    let (status_response, status_remainder) =
        BinaryResponseAndRequest::from_bytes(&status_response_bytes)
            .expect("node status response should decode");
    assert!(status_remainder.is_empty(), "node status response should not have trailing bytes");
    assert!(status_response.response().is_success(), "node status response indicates failure");
    let (status, status_payload_remainder) =
        NodeStatus::from_bytes(status_response.response().payload())
            .expect("node status payload should decode");
    assert!(
        status_payload_remainder.is_empty(),
        "node status payload should not have trailing bytes"
    );
    assert!(
        status.peers.clone().into_inner().is_empty(),
        "node status peers should be empty"
    );
    let mut expected = node_status();
    expected.peers = Peers::from(BTreeMap::<String, String>::new());
    assert_eq!(status, expected);
}

#[test]
fn peers_of_a_node_status() {
    let payload = node_status().to_bytes().expect("status");
    let peers = reported_peers(&payload).expect("peers");
    assert_eq!(
        peers,
        vec![
            ("tls:0101".to_string(), "1.2.3.4:35000".to_string()),
            ("tls:0202".to_string(), "5.6.7.8:35000".to_string()),
        ]
    );
    let sanitized = sanitize_node_status_payload(&payload).expect("status");
    assert_eq!(reported_peers(&sanitized), Some(Vec::new()));
    assert_eq!(reported_peers(&payload[..20]), None);
    let mut longer = payload.clone();
    longer.push(0);
    assert!(matches!(
        sanitize_node_status_payload(&longer),
        Err(ResponseRewriteError::Decode(Error::LeftOverBytes))
    ));
}

#[test]
fn success_response_with_peers_becomes_an_error() {
    let mut peers = BTreeMap::new();
    peers.insert("tls:0101".to_string(), "1.2.3.4:35000".to_string());
    let payload = Peers::from(peers).to_bytes().expect("peers");
    let sent = rewrite_response_bytes(&alone(ResponseType::Peers as u8, vec![5; 8]))
        .expect("rewritten");
    let expected = BinaryResponse::new_error(ErrorCode::FunctionDisabled).to_bytes().unwrap();
    assert_eq!(sent, expected);

    let upstream = with_request(
        b"abc",
        BinaryResponse::from_raw_bytes(ResponseType::Peers, payload),
    );
    let sent = rewrite_response_bytes(&upstream).expect("rewritten");
    let expected = with_request(b"abc", BinaryResponse::new_error(ErrorCode::FunctionDisabled));
    assert_eq!(sent, expected);
}

fn reencoded<T: FromBytes + ToBytes>(payload: &[u8]) -> Result<Vec<u8>, ()> {
    match T::from_bytes(payload) {
        Ok((value, rest)) if rest.is_empty() => value.to_bytes().map_err(|_| ()),
        _ => Err(()),
    }
}

fn expected_payload(tag: u8, payload: &[u8]) -> Result<Vec<u8>, ()> {
    match ResponseType::try_from(tag).expect("known tag") {
        ResponseType::BlockHeaderV1 => reencoded::<BlockHeaderV1>(payload),
        ResponseType::BlockHeader => reencoded::<BlockHeader>(payload),
        ResponseType::BlockBodyV1 => reencoded::<BlockBodyV1>(payload),
        ResponseType::BlockBody => reencoded::<BlockBody>(payload),
        ResponseType::ApprovalsHashesV1
        | ResponseType::ApprovalsHashes
        | ResponseType::WasmV1Result
        | ResponseType::HighestBlockSequenceCheckResult => Ok(payload.to_vec()),
        ResponseType::BlockSignaturesV1 => reencoded::<BlockSignaturesV1>(payload),
        ResponseType::BlockSignatures => reencoded::<BlockSignatures>(payload),
        ResponseType::Deploy => reencoded::<Deploy>(payload),
        ResponseType::Transaction => reencoded::<Transaction>(payload),
        ResponseType::ExecutionResultV1 => reencoded::<ExecutionResultV1>(payload),
        ResponseType::ExecutionResult => reencoded::<ExecutionResult>(payload),
        ResponseType::Transfers => reencoded::<Vec<Transfer>>(payload),
        ResponseType::FinalizedDeployApprovals | ResponseType::FinalizedApprovals => {
            reencoded::<Vec<Approval>>(payload)
        }
        ResponseType::BlockWithSignatures => reencoded::<BlockWithSignatures>(payload),
        ResponseType::TransactionWithExecutionInfo => {
            reencoded::<TransactionWithExecutionInfo>(payload)
        }
        ResponseType::Peers => Err(()),
        ResponseType::LastProgress => reencoded::<LastProgress>(payload),
        ResponseType::ReactorState => reencoded::<ReactorStateName>(payload),
        ResponseType::NetworkName => reencoded::<NetworkName>(payload),
        ResponseType::ConsensusValidatorChanges => {
            reencoded::<ConsensusValidatorChanges>(payload)
        }
        ResponseType::BlockSynchronizerStatus => reencoded::<BlockSynchronizerStatus>(payload),
        ResponseType::AvailableBlockRange => reencoded::<AvailableBlockRange>(payload),
        ResponseType::NextUpgrade => reencoded::<NextUpgrade>(payload),
        ResponseType::ConsensusStatus => reencoded::<ConsensusStatus>(payload),
        ResponseType::ChainspecRawBytes => reencoded::<ChainspecRawBytes>(payload),
        ResponseType::Uptime => reencoded::<Uptime>(payload),
        ResponseType::SpeculativeExecutionResult => {
            reencoded::<SpeculativeExecutionResult>(payload)
        }
        ResponseType::GlobalStateQueryResult => reencoded::<GlobalStateQueryResult>(payload),
        ResponseType::StoredValues => reencoded::<Vec<StoredValue>>(payload),
        ResponseType::GetTrieFullResult => reencoded::<GetTrieFullResult>(payload),
        ResponseType::NodeStatus => match NodeStatus::from_bytes(payload) {
            Ok((mut status, rest)) if rest.is_empty() => {
                status.peers = Peers::from(BTreeMap::<String, String>::new());
                status.to_bytes().map_err(|_| ())
            }
            _ => Err(()),
        },
        ResponseType::DictionaryQueryResult => reencoded::<DictionaryQueryResult>(payload),
        ResponseType::BalanceResponse => reencoded::<BalanceResponse>(payload),
        ResponseType::Reward => reencoded::<RewardResponse>(payload),
        ResponseType::ProtocolVersion => reencoded::<ProtocolVersion>(payload),
        ResponseType::ContractPackageWithProof => {
            reencoded::<ValueWithProof<ContractPackage>>(payload)
        }
        ResponseType::ContractInformation => reencoded::<ContractInformation>(payload),
        ResponseType::AccountInformation => reencoded::<AccountInformation>(payload),
        ResponseType::PackageWithProof => reencoded::<ValueWithProof<Package>>(payload),
        ResponseType::AddressableEntityInformation => {
            reencoded::<AddressableEntityInformation>(payload)
        }
    }
}

fn sample_payloads() -> Vec<Vec<u8>> {
    let text = "KeepUp".to_string().to_bytes().unwrap();
    let mut bad_text = text.clone();
    bad_text[4] = 0xff;
    let mut longer_text = text.clone();
    longer_text.push(1);
    let chainspec = ChainspecRawBytes::new(Bytes::from(vec![1u8, 2]), None, None);
    vec![
        vec![],
        vec![0],
        vec![1],
        vec![0; 2],
        vec![0; 4],
        vec![0; 5],
        vec![9; 8],
        vec![9; 7],
        vec![9; 9],
        vec![3; 12],
        vec![2; 16],
        vec![0; 16],
        vec![0xff; 7],
        vec![0xff; 40],
        vec![0; 64],
        vec![0; 200],
        text,
        bad_text,
        longer_text,
        Vec::<Transfer>::new().to_bytes().unwrap(),
        BlockSynchronizerStatus::new(None, None).to_bytes().unwrap(),
        AvailableBlockRange::RANGE_0_0.to_bytes().unwrap(),
        chainspec.to_bytes().unwrap(),
        node_status().to_bytes().unwrap(),
    ]
}

#[test]
fn payloads_of_every_type_are_decoded_and_encoded() {
    let mut refused = vec![0usize; 44];
    for tag in 0..44u8 {
        if tag == ResponseType::Peers as u8 {
            continue;
        }
        for payload in sample_payloads() {
            let sent = rewrite_response_bytes(&success(tag, payload.clone()));
            match expected_payload(tag, &payload) {
                Ok(expected) => assert_eq!(sent.expect("payload"), success(tag, expected)),
                Err(()) => {
                    refused[tag as usize] += 1;
                    assert!(matches!(sent, Err(ResponseRewriteError::Decode(_))), "{tag}");
                }
            }
        }
    }
    for tag in 0..44usize {
        let opaque = [4, 5, 12, 18, 29].contains(&tag);
        assert_eq!(refused[tag] == 0, opaque, "{tag}");
    }
}

#[test]
fn payloads_of_known_length() {
    let uptime = ResponseType::Uptime as u8;
    assert!(rewrite_response_bytes(&success(uptime, vec![1; 8])).is_ok());
    assert!(matches!(
        rewrite_response_bytes(&success(uptime, vec![1; 7])),
        Err(ResponseRewriteError::Decode(Error::EarlyEndOfStream))
    ));
    assert!(matches!(
        rewrite_response_bytes(&success(uptime, vec![1; 9])),
        Err(ResponseRewriteError::Decode(Error::LeftOverBytes))
    ));
    let trie = ResponseType::GetTrieFullResult as u8;
    assert!(rewrite_response_bytes(&success(trie, vec![0])).is_ok());
    assert!(rewrite_response_bytes(&success(trie, vec![1, 2, 0, 0, 0, 7, 8])).is_ok());
    assert!(matches!(
        rewrite_response_bytes(&success(trie, vec![2])),
        Err(ResponseRewriteError::Decode(Error::Formatting))
    ));
    assert!(matches!(
        rewrite_response_bytes(&success(trie, vec![1, 2, 0, 0, 0, 7])),
        Err(ResponseRewriteError::Decode(Error::EarlyEndOfStream))
    ));
    assert!(matches!(
        rewrite_response_bytes(&success(trie, vec![0, 0])),
        Err(ResponseRewriteError::Decode(Error::LeftOverBytes))
    ));
    let name = ResponseType::NetworkName as u8;
    assert!(matches!(
        rewrite_response_bytes(&success(name, vec![2, 0, 0, 0, b'a', 0xff])),
        Err(ResponseRewriteError::Decode(Error::Formatting))
    ));
}

#[test]
fn unknown_and_missing_types() {
    let mut unknown = alone(0, vec![1, 2, 3]);
    unknown[5] = 44;
    let err = rewrite_response_bytes(&unknown).expect_err("unknown type");
    assert!(matches!(err, ResponseRewriteError::UnknownTypeTag(44)));
    assert_eq!(err.error_code(), wire::ErrorCode::UnsupportedRequest);
    assert_eq!(err.message(), "unknown response type tag: 44");

    let missing = vec![1, 0, 0, 0, 0, 1, 0, 0, 0, 9];
    let err = rewrite_response_bytes(&missing).expect_err("missing type");
    assert!(matches!(err, ResponseRewriteError::MissingTypeTag));
    assert_eq!(err.error_code(), wire::ErrorCode::InternalError);
    assert_eq!(err.message(), "missing response type tag for success response");

    let empty = BinaryResponse::new_empty().to_bytes().unwrap();
    assert_eq!(rewrite_response_bytes(&empty).expect("empty"), empty);
}

#[test]
fn error_responses_pass_unchanged() {
    let response = BinaryResponse::new_error(ErrorCode::NotFound);
    let alone = response.to_bytes().unwrap();
    assert_eq!(rewrite_response_bytes(&alone).expect("error"), alone);
    let both = with_request(&[1, 2, 3, 4, 5], BinaryResponse::new_error(ErrorCode::NotFound));
    assert_eq!(rewrite_response_bytes(&both).expect("error"), both);
}

#[test]
fn responses_that_cannot_be_read() {
    let err = rewrite_response_bytes(&[1, 2]).expect_err("too short");
    assert!(matches!(err, ResponseRewriteError::Decode(Error::EarlyEndOfStream)));
    assert_eq!(err.message(), "decode error: Deserialization error: early end of stream");
    let mut longer = BinaryResponse::new_error(ErrorCode::NotFound).to_bytes().unwrap();
    longer.push(0);
    let err = rewrite_response_bytes(&longer).expect_err("too long");
    assert!(matches!(err, ResponseRewriteError::Decode(Error::LeftOverBytes)));
    assert_eq!(err.error_code(), wire::ErrorCode::InternalError);
    let err = ResponseRewriteError::Encode(Error::OutOfMemory);
    assert_eq!(err.message(), "encode error: Serialization error: out of memory");
    let err = ResponseRewriteError::Decode(Error::ExceededRecursionDepth);
    assert_eq!(err.message(), "decode error: exceeded recursion depth");
}

#[test]
fn envelopes_are_read_and_written() {
    let bytes = with_request(b"req", BinaryResponse::new_error(ErrorCode::BadRequest));
    let envelope = parse_response_envelope(&bytes).expect("envelope");
    match &envelope {
        ResponseEnvelope::WithRequest { request, response } => {
            assert_eq!(request, b"req");
            assert_eq!(response.parts.error_code, 8);
            assert_eq!(response.parts.type_tag, None);
        }
        ResponseEnvelope::Response { .. } => panic!("request is missing"),
    }
    assert_eq!(serialize_response_envelope(envelope).expect("bytes"), bytes);
    let bytes = alone(28, vec![5; 8]);
    let envelope = parse_response_envelope(&bytes).expect("envelope");
    assert_eq!(envelope.response().parts.type_tag, Some(28));
    assert_eq!(envelope.response().parts.payload, vec![5; 8]);
    assert!(matches!(envelope, ResponseEnvelope::Response { .. }));
    assert_eq!(serialize_response_envelope(envelope).expect("bytes"), bytes);
}

#[test]
fn summaries_of_responses() {
    let mut bytes = with_request(b"req", BinaryResponse::new_error(ErrorCode::BadRequest));
    bytes.extend([1, 2]);
    let summary = log_binary_response(&bytes).expect("summary");
    assert!(!summary.success);
    assert_eq!(summary.error_code, 8);
    assert_eq!(summary.payload_type, None);
    assert_eq!(summary.payload_len, 0);
    assert_eq!(summary.request_len, Some(3));
    assert_eq!(summary.trailing, 2);
    let summary = log_binary_response(&alone(28, vec![5; 8])).expect("summary");
    assert!(summary.success);
    assert_eq!(summary.payload_type, Some(28));
    assert_eq!(summary.payload_len, 8);
    assert_eq!(summary.request_len, None);
    assert_eq!(summary.trailing, 0);
    assert!(log_binary_response(&[0]).is_err());
}

#[test]
fn requests_are_understood() {
    let payload = build_request_payload(7, InformationRequest::Uptime);
    let parsed = parse_request(&payload).expect("request");
    assert_eq!(parsed.header.id, 7);
    assert_eq!(parsed.header.version, 1);
    assert_eq!(parsed.header.type_tag, 0);
    assert!(parsed.information_request.is_some());

    let state = GetRequest::Trie { trie_key: Digest::from([1u8; 32]) };
    let command = Command::Get(state);
    let mut payload = CommandHeader::new(command.tag(), 9).to_bytes().unwrap();
    command.write_bytes(&mut payload).unwrap();
    let parsed = parse_request(&payload).expect("request");
    assert_eq!(parsed.header.id, 9);
    assert!(parsed.information_request.is_none());
}

#[test]
fn requests_that_are_not_understood() {
    let good = build_request_payload(7, InformationRequest::Uptime);
    assert_eq!(parse_request(&[]).err(), Some(RequestParseError::InvalidRequest));
    assert_eq!(parse_request(&good[..4]).err(), Some(RequestParseError::InvalidRequest));
    let mut version = good.clone();
    version[0] = 2;
    assert_eq!(parse_request(&version).err(), Some(RequestParseError::UnsupportedVersion));
    let mut tag = good.clone();
    tag[2] = 3;
    assert_eq!(parse_request(&tag).err(), Some(RequestParseError::InvalidRequest));
    let mut body = good.clone();
    body.push(0);
    assert_eq!(parse_request(&body).err(), Some(RequestParseError::InvalidRequest));
    let mut info = good.clone();
    info[6] = 20;
    assert_eq!(parse_request(&info).err(), Some(RequestParseError::InvalidRequest));
    let mut peers = build_request_payload(7, InformationRequest::Peers);
    peers[8] = 1;
    peers.push(0);
    assert_eq!(parse_request(&peers).err(), Some(RequestParseError::InvalidRequest));
    assert_eq!(
        RequestParseError::UnsupportedVersion.error_code(),
        wire::ErrorCode::UnsupportedRequest
    );
    assert_eq!(RequestParseError::InvalidRequest.error_code(), wire::ErrorCode::BadRequest);
}

#[test]
fn refused_requests_are_answered_with_the_request() {
    let pool = pool();
    let mut metrics = metrics();
    let (reply, _) = finished(pool.send(&mut metrics, vec![1, 2, 3]));
    let expected = with_request(&[1, 2, 3], BinaryResponse::new_error(ErrorCode::BadRequest));
    assert_eq!(reply.expect("reply"), expected);
    let mut payload = build_request_payload(7, InformationRequest::Uptime);
    payload[1] = 9;
    let (reply, _) = finished(pool.send(&mut metrics, payload.clone()));
    let expected =
        with_request(&payload, BinaryResponse::new_error(ErrorCode::UnsupportedRequest));
    assert_eq!(reply.expect("reply"), expected);
    let text = metrics.render();
    assert!(text.contains("binary_responses_total{network=\"local\",outcome=\"error\"} 2"));
    assert!(text.contains("binary_inflight_requests{network=\"local\"} 0"));
}

#[test]
fn error_responses_are_built_with_the_request() {
    let bytes = build_error_response(wire::ErrorCode::InternalError, b"abc").expect("bytes");
    assert_eq!(bytes, with_request(b"abc", BinaryResponse::new_error(ErrorCode::InternalError)));
}

#[test]
fn too_large_requests_are_refused() {
    let pool = pool();
    let mut metrics = metrics();
    let key = vec![0u8; MAX_MESSAGE_SIZE_BYTES];
    let command = Command::Get(GetRequest::Record { record_type_tag: 0, key });
    let mut payload = CommandHeader::new(command.tag(), 9).to_bytes().unwrap();
    command.write_bytes(&mut payload).unwrap();
    let got = payload.len();
    let (reply, _) = finished(pool.send(&mut metrics, payload));
    let err = reply.expect_err("too large");
    assert!(matches!(err, BinaryError::RequestTooLarge { allowed: 4194304, .. }));
    assert_eq!(err.message(), format!("request too large (allowed 4194304, got {got})"));
}

#[test]
fn broken_connections_are_made_anew_once() {
    let pool = pool();
    let mut metrics = metrics();
    let payload = build_request_payload(7, InformationRequest::Uptime);
    let request = pending(pool.send(&mut metrics, payload.clone()));
    assert!(metrics.render().contains("binary_inflight_requests{network=\"local\"} 1"));
    assert_eq!(request.payload(), payload.as_slice());
    assert_eq!(request.request_id(), 7);
    let request = pending(pool.proceed(&mut metrics, request, acquired()));
    let lost = SendEvent::Exchanged(Err(io_error(IoErrorKind::UnexpectedEof)));
    let request = match pool.proceed(&mut metrics, request, lost) {
        SendAction::Reconnect(request) => request,
        _ => panic!("should reconnect"),
    };
    let request = match pool.proceed(&mut metrics, request, SendEvent::Reconnected(Ok(()))) {
        SendAction::Exchange(request) => request,
        _ => panic!("should try again"),
    };
    let lost = SendEvent::Exchanged(Err(io_error(IoErrorKind::UnexpectedEof)));
    let (reply, keep) = finished(pool.proceed(&mut metrics, request, lost));
    assert!(!keep);
    assert_eq!(reply.expect_err("lost").message(), "io error: lost");
    let text = metrics.render();
    assert!(text.contains("binary_responses_total{network=\"local\",outcome=\"error\"} 1"));
    assert!(text.contains("binary_inflight_requests{network=\"local\"} 0"));
    assert!(text.contains("binary_queue_wait_seconds_count{network=\"local\"} 1"));
}

#[test]
fn other_failures_end_a_request() {
    let pool = pool();
    let mut metrics = metrics();
    let payload = build_request_payload(7, InformationRequest::Uptime);
    let request = pending(pool.send(&mut metrics, payload.clone()));
    let refused = SendEvent::Acquired {
        waited: Duration::from_millis(1),
        outcome: Err(BinaryError::ConnectionUnavailable),
    };
    let (reply, _) = finished(pool.proceed(&mut metrics, request, refused));
    assert!(matches!(reply, Err(BinaryError::ConnectionUnavailable)));

    let request = pending(pool.send(&mut metrics, payload.clone()));
    let request = pending(pool.proceed(&mut metrics, request, acquired()));
    let lost = SendEvent::Exchanged(Err(io_error(IoErrorKind::Other)));
    let (reply, _) = finished(pool.proceed(&mut metrics, request, lost));
    assert!(matches!(reply, Err(BinaryError::Io { kind: IoErrorKind::Other, .. })));

    let request = pending(pool.send(&mut metrics, payload));
    let request = pending(pool.proceed(&mut metrics, request, acquired()));
    let lost = SendEvent::Exchanged(Err(io_error(IoErrorKind::BrokenPipe)));
    let request = pending(pool.proceed(&mut metrics, request, lost));
    let failed = SendEvent::Reconnected(Err(io_error(IoErrorKind::Other)));
    let (reply, _) = finished(pool.proceed(&mut metrics, request, failed));
    assert!(matches!(reply, Err(BinaryError::Io { kind: IoErrorKind::Other, .. })));
    let text = metrics.render();
    assert!(text.contains("binary_responses_total{network=\"local\",outcome=\"error\"} 3"));
}

#[test]
fn responses_that_cannot_be_rewritten_are_answered_with_an_error() {
    let pool = pool();
    let mut metrics = metrics();
    let payload = build_request_payload(7, InformationRequest::Uptime);
    let (reply, keep) = exchange(&pool, &mut metrics, payload.clone(), vec![1, 2, 3]);
    assert!(keep);
    let expected = with_request(&payload, BinaryResponse::new_error(ErrorCode::InternalError));
    assert_eq!(reply.expect("reply"), expected);
    let text = metrics.render();
    assert!(text.contains("binary_responses_total{network=\"local\",outcome=\"ok\"} 1"));
}

#[test]
fn abandoned_requests_are_no_longer_in_flight() {
    let pool = pool();
    let mut metrics = metrics();
    let payload = build_request_payload(7, InformationRequest::Uptime);
    let request = pending(pool.send(&mut metrics, payload));
    request.abandon(&mut metrics, "local");
    let text = metrics.render();
    assert!(text.contains("binary_inflight_requests{network=\"local\"} 0"));
    assert!(!text.contains("binary_responses_total{"));
}

#[test]
fn retryable_errors() {
    for kind in [
        IoErrorKind::UnexpectedEof,
        IoErrorKind::ConnectionReset,
        IoErrorKind::ConnectionAborted,
        IoErrorKind::BrokenPipe,
    ] {
        assert!(is_retryable_io_error(&Err(io_error(kind))));
    }
    assert!(!is_retryable_io_error(&Err(io_error(IoErrorKind::Other))));
    assert!(!is_retryable_io_error(&Err(BinaryError::ChannelClosed)));
    assert!(!is_retryable_io_error(&Ok(Vec::new())));
}

#[test]
fn error_texts() {
    assert_eq!(BinaryError::ChannelClosed.message(), "channel closed");
    assert_eq!(BinaryError::ConnectionUnavailable.message(), "connection unavailable");
    assert_eq!(
        BinaryError::ResponseEncoding("x".to_string()).message(),
        "response encoding error: x"
    );
}

#[test]
fn pool_hands_out_the_connection_returned_last() {
    let mut pool: BinaryPool<u32> = BinaryPool::new("n".to_string(), "a".to_string(), 2);
    assert_eq!(pool.network(), "n");
    assert_eq!(pool.address(), "a");
    assert_eq!(pool.get_connection(), None);
    assert!(pool.open_connection());
    assert!(pool.open_connection());
    assert!(!pool.open_connection());
    pool.return_connection(1);
    pool.return_connection(2);
    assert_eq!(pool.get_connection(), Some(2));
    pool.close_connection();
    assert_eq!(pool.get_connection(), Some(1));
    assert!(pool.open_connection());
    let pool: BinaryPool<u32> = BinaryPool::new("n".to_string(), "a".to_string(), 0);
    assert_eq!(pool.max_connections(), 1);
}

#[test]
fn frames_of_the_upstream() {
    assert_eq!(frame_request(&[7, 8]), vec![2, 0, 0, 0, 7, 8]);
    assert_eq!(wire::length_of(&[1, 2, 3, 4]), 0x0403_0201);
    for len in [0, 1, 255, 256, 65_536, u32::MAX] {
        assert_eq!(wire::length_bytes(len), len.to_le_bytes().to_vec());
        assert_eq!(wire::length_of(&wire::length_bytes(len)), len);
    }
}

#[test]
fn messages_over_the_limit_are_answered_at_once() {
    let mut metrics = metrics();
    for _ in 0..2 {
        match receive_binary(&mut metrics, "local", Inbound::Binary(vec![7])) {
            BinaryStep::CheckLimit(payload) => assert_eq!(payload, vec![7]),
            other => panic!("unexpected step: {other:?}"),
        }
    }
    let frame = rate_limited(&mut metrics, "local", 12);
    assert!(!frame.must_arrive());
    match frame {
        BinaryFrame::Text(text) => assert_eq!(
            text,
            "{\"error\":\"rate limit exceeded\",\"retry_after_secs\":12}"
        ),
        BinaryFrame::Binary(_) => panic!("should be text"),
    }
    let text = metrics.render();
    assert!(text.contains("binary_requests_total{network=\"local\"} 2"));
    assert!(text.contains("binary_responses_total{network=\"local\",outcome=\"rate_limited\"} 1"));
}

#[test]
fn binary_connections_are_counted_while_open() {
    let mut metrics = metrics();
    let session = BinarySession::open(&mut metrics, "local");
    assert!(metrics.render().contains("binary_connections{network=\"local\"} 1"));
    session.close(&mut metrics);
    assert!(metrics.render().contains("binary_connections{network=\"local\"} 0"));
}

#[test]
fn replies_become_frames() {
    let frame = binary_reply(Ok(vec![1, 2]));
    assert!(frame.must_arrive());
    assert!(matches!(frame, BinaryFrame::Binary(bytes) if bytes == vec![1, 2]));
    match binary_reply(Err(BinaryError::ChannelClosed)) {
        BinaryFrame::Text(text) => assert_eq!(text, "{\"error\":\"channel closed\"}"),
        BinaryFrame::Binary(_) => panic!("should be text"),
    }
}

#[test]
fn sessions_end_on_close_and_failure() {
    let mut metrics = metrics();
    for inbound in [Inbound::Close, Inbound::Failed, Inbound::Ended] {
        assert!(inbound.ends_session());
        assert!(matches!(receive_binary(&mut metrics, "local", inbound), BinaryStep::Stop));
    }
    assert!(!Inbound::Binary(vec![1]).ends_session());
    assert!(!Inbound::Other.ends_session());
    assert!(matches!(receive_binary(&mut metrics, "local", Inbound::Other), BinaryStep::Listen));
    assert!(!metrics.render().contains("binary_requests_total{"));
}

fn v1_payload(pricing_mode: PricingMode) -> Vec<u8> {
    let fields: BTreeMap<u16, Bytes> =
        (0..4u16).map(|key| (key, Bytes::from(vec![key as u8, 7]))).collect();
    TransactionV1Payload::new(
        "casper-test".to_string(),
        Timestamp::from(1234u64),
        TimeDiff::from_millis(1000),
        pricing_mode,
        InitiatorAddr::AccountHash(AccountHash::new([5; 32])),
        fields,
    )
    .to_bytes()
    .expect("payload")
}

/// A transaction whose fields are laid out in a call table.
fn v1_transaction(pricing_mode: PricingMode) -> Vec<u8> {
    let payload = v1_payload(pricing_mode);
    let mut bytes = vec![1];
    bytes.extend(3u32.to_le_bytes());
    for (index, offset) in [(0u16, 0u32), (1, 32), (2, 32 + payload.len() as u32)] {
        bytes.extend(index.to_le_bytes());
        bytes.extend(offset.to_le_bytes());
    }
    bytes.extend((32 + payload.len() as u32 + 4).to_le_bytes());
    bytes.extend([9; 32]);
    bytes.extend(payload);
    bytes.extend(0u32.to_le_bytes());
    bytes
}

const FIXED: PricingMode =
    PricingMode::Fixed { gas_price_tolerance: 1, additional_computation_factor: 0 };

/// Where the table of the payload, and that of the pricing mode, start.
fn nested_tables(bytes: &[u8]) -> (usize, usize) {
    let payload = 1 + 4 + 18 + 4 + 32;
    let at = payload + 4 + 4 * 6 + 2;
    let offset = u32::from_le_bytes([bytes[at], bytes[at + 1], bytes[at + 2], bytes[at + 3]]);
    (payload, payload + 4 + 36 + 4 + offset as usize)
}

fn with_offset(bytes: &[u8], table: usize, field: usize, offset: u32) -> Vec<u8> {
    let mut bytes = bytes.to_vec();
    let at = table + 4 + 6 * field + 2;
    bytes[at..at + 4].copy_from_slice(&offset.to_le_bytes());
    bytes
}

fn transaction_request(tag: u8, body: &[u8]) -> Vec<u8> {
    let mut request = vec![0, 0, tag, 42, 0];
    let header = build_request_payload(42, InformationRequest::NodeStatus);
    request[..2].copy_from_slice(&header[..2]);
    request.extend(body);
    request
}

#[test]
fn transactions_in_call_tables_are_understood() {
    for pricing_mode in [
        FIXED,
        PricingMode::PaymentLimited {
            payment_amount: 100,
            gas_price_tolerance: 1,
            standard_payment: true,
        },
        PricingMode::Prepaid { receipt: Digest::from([3u8; 32]) },
    ] {
        let transaction = v1_transaction(pricing_mode);
        assert!(check_offsets(&transaction));
        let request = transaction_request(1, &transaction);
        assert!(parse_request(&request).is_ok());
        let response = success(9, transaction);
        assert_eq!(rewrite_response_bytes(&response).expect("rewritten"), response);
    }
    assert!(check_offsets(&[]));
    assert!(check_offsets(&[1, 2]));
}

#[test]
fn first_offsets_are_read_by_no_one() {
    let transaction = with_offset(&v1_transaction(FIXED), 1, 0, 77);
    assert!(check_offsets(&transaction));
    assert!(parse_request(&transaction_request(2, &transaction)).is_ok());
}

#[test]
fn falling_offsets_are_refused() {
    let transaction = v1_transaction(FIXED);
    let (payload, pricing) = nested_tables(&transaction);
    let mut bare = vec![1];
    bare.extend(3u32.to_le_bytes());
    for (index, offset) in [(0u16, 0u32), (1, 32), (2, 0)] {
        bare.extend(index.to_le_bytes());
        bare.extend(offset.to_le_bytes());
    }
    bare.extend(32u32.to_le_bytes());
    bare.extend([0; 32]);
    for falling in [
        bare,
        with_offset(&transaction, 1, 2, 0),
        with_offset(&transaction, payload, 2, 0),
        with_offset(&transaction, payload, 5, 1),
        with_offset(&transaction, pricing, 2, 0),
    ] {
        assert!(!check_offsets(&falling));
        for tag in [1, 2] {
            assert_eq!(
                parse_request(&transaction_request(tag, &falling)).err(),
                Some(RequestParseError::InvalidRequest)
            );
        }
        for tag in [9, 17] {
            assert!(matches!(
                rewrite_response_bytes(&success(tag, falling.clone())),
                Err(ResponseRewriteError::Decode(Error::Formatting))
            ));
        }
    }
}

#[test]
fn a_request_waits_until_a_connection_is_given_back() {
    let mut pool: BinaryPool<u32> = BinaryPool::new("n".to_string(), "a".to_string(), 1);
    assert!(matches!(pool.acquire(), PoolStep::Open));
    assert!(matches!(pool.acquire(), PoolStep::Wait));
    pool.return_connection(7);
    assert!(matches!(pool.acquire(), PoolStep::Use(7)));
    assert!(matches!(pool.acquire(), PoolStep::Wait));
    pool.close_connection();
    assert!(matches!(pool.acquire(), PoolStep::Open));
}

#[test]
fn each_message_gets_one_frame() {
    let mut metrics = metrics();
    let mut session = BinarySession::open(&mut metrics, "local");
    let events = vec![
        SocketEvent::Received(Inbound::Binary(vec![1])),
        SocketEvent::Passed,
        SocketEvent::Answered(Ok(vec![11])),
        SocketEvent::Sent(true),
        SocketEvent::Received(Inbound::Other),
        SocketEvent::Received(Inbound::Binary(vec![2])),
        SocketEvent::Limited(5),
        SocketEvent::Sent(false),
        SocketEvent::Received(Inbound::Binary(vec![3])),
        SocketEvent::Passed,
        SocketEvent::Answered(Err(BinaryError::ChannelClosed)),
        SocketEvent::Sent(false),
        SocketEvent::Received(Inbound::Binary(vec![4])),
        SocketEvent::Passed,
        SocketEvent::Answered(Ok(vec![14])),
        SocketEvent::Sent(false),
    ];
    let count = events.len();
    let mut frames = Vec::new();
    let mut forwarded = Vec::new();
    for (i, event) in events.into_iter().enumerate() {
        match session.step(&mut metrics, "local", event) {
            SocketAction::Send(BinaryFrame::Binary(bytes)) => frames.push(format!("{bytes:?}")),
            SocketAction::Send(BinaryFrame::Text(text)) => frames.push(text),
            SocketAction::Forward(payload) => forwarded.push(payload),
            SocketAction::Stop => assert_eq!(i, count - 1),
            SocketAction::Listen | SocketAction::CheckLimit => {}
        }
    }
    assert_eq!(forwarded, vec![vec![1], vec![3], vec![4]]);
    assert_eq!(
        frames,
        vec![
            "[11]",
            "{\"error\":\"rate limit exceeded\",\"retry_after_secs\":5}",
            "{\"error\":\"channel closed\"}",
            "[14]",
        ]
    );
    let text = metrics.render();
    assert!(text.contains("binary_requests_total{network=\"local\"} 4"));
    assert!(text.contains("binary_responses_total{network=\"local\",outcome=\"rate_limited\"} 1"));
}

#[test]
fn node_statuses_that_differ_in_peers_are_answered_alike() {
    let with_peers = node_status();
    let mut without_peers = node_status();
    without_peers.peers = Peers::from(BTreeMap::<String, String>::new());
    let a = success(34, with_peers.to_bytes().expect("status"));
    let b = success(34, without_peers.to_bytes().expect("status"));
    assert_ne!(a, b);
    let answer = rewrite_response_bytes(&a).expect("rewritten");
    assert_eq!(rewrite_response_bytes(&b).expect("rewritten"), answer);
    assert_eq!(rewrite_response_bytes(&answer).expect("rewritten"), answer);
    assert_eq!(answer, b);
}

#[test]
fn a_cut_off_hash_is_an_early_end() {
    let mut bytes = vec![1];
    bytes.extend(3u32.to_le_bytes());
    for (index, offset) in [(0u16, 0u32), (1, 32), (2, 0)] {
        bytes.extend(index.to_le_bytes());
        bytes.extend(offset.to_le_bytes());
    }
    bytes.extend(5u32.to_le_bytes());
    bytes.extend([0; 5]);
    assert!(check_offsets(&bytes));
    assert!(matches!(
        rewrite_response_bytes(&success(9, bytes)),
        Err(ResponseRewriteError::Decode(Error::EarlyEndOfStream))
    ));
}

#[test]
fn chainspecs_and_upgrades_are_checked() {
    let chainspec = vec![1, 0, 0, 0, 7, 0, 1, 2, 0, 0, 0, 8, 9];
    let response = success(27, chainspec.clone());
    assert_eq!(rewrite_response_bytes(&response).expect("rewritten"), response);
    for end in 0..chainspec.len() {
        assert!(matches!(
            rewrite_response_bytes(&success(27, chainspec[..end].to_vec())),
            Err(ResponseRewriteError::Decode(Error::EarlyEndOfStream))
        ));
    }
    let mut flagged = chainspec.clone();
    flagged[5] = 2;
    assert!(matches!(
        rewrite_response_bytes(&success(27, flagged)),
        Err(ResponseRewriteError::Decode(Error::Formatting))
    ));
    let mut longer = chainspec;
    longer.push(0);
    assert!(matches!(
        rewrite_response_bytes(&success(27, longer)),
        Err(ResponseRewriteError::Decode(Error::LeftOverBytes))
    ));
    for tag in [0, 1] {
        let mut upgrade = vec![3; 21];
        upgrade[0] = tag;
        let response = success(25, upgrade.clone());
        assert_eq!(rewrite_response_bytes(&response).expect("rewritten"), response);
        assert!(matches!(
            rewrite_response_bytes(&success(25, upgrade[..20].to_vec())),
            Err(ResponseRewriteError::Decode(Error::EarlyEndOfStream))
        ));
    }
    assert!(matches!(
        rewrite_response_bytes(&success(25, vec![2])),
        Err(ResponseRewriteError::Decode(Error::Formatting))
    ));
}

#[test]
fn node_statuses_keep_all_but_their_peers() {
    let status = node_status();
    let payload = status.to_bytes().expect("status");
    let sanitized = sanitize_node_status_payload(&payload).expect("sanitized");
    let (kept, rest) = NodeStatus::from_bytes(&sanitized).expect("status");
    assert!(rest.is_empty());
    let mut expected = status;
    expected.peers = Peers::from(BTreeMap::<String, String>::new());
    assert_eq!(kept, expected);
    assert_eq!(sanitize_node_status_payload(&sanitized).expect("sanitized"), sanitized);
}
