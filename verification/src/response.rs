//! Responses of the binary port: how they are read, and what of them is passed
//! on to clients.

use vstd::prelude::*;
use vstd::slice::{slice_subrange, slice_to_vec};
use vstd::string::*;

use crate::calltable;
use crate::payload;
use crate::payload::{Recoded, RecodedView};
use crate::text;
use crate::text::{decimal_text, join};
use crate::wire;
use crate::wire::{
    codec_error_text, decode_response, decode_response_and_request, encode_error, encode_response,
    encode_response_and_request, encode_success, ErrorCode, ResponseFields, ResponseParts,
    RESPONSE_TYPES, RESPONSE_VERSION,
};

verus! {

/// A type of payload.
#[derive(Clone, Copy, Debug, PartialEq, Eq, Structural)]
pub enum ResponseType {
    BlockHeaderV1,
    BlockHeader,
    BlockBodyV1,
    BlockBody,
    ApprovalsHashesV1,
    ApprovalsHashes,
    BlockSignaturesV1,
    BlockSignatures,
    Deploy,
    Transaction,
    ExecutionResultV1,
    ExecutionResult,
    WasmV1Result,
    Transfers,
    FinalizedDeployApprovals,
    FinalizedApprovals,
    BlockWithSignatures,
    TransactionWithExecutionInfo,
    Peers,
    LastProgress,
    ReactorState,
    NetworkName,
    ConsensusValidatorChanges,
    BlockSynchronizerStatus,
    AvailableBlockRange,
    NextUpgrade,
    ConsensusStatus,
    ChainspecRawBytes,
    Uptime,
    HighestBlockSequenceCheckResult,
    SpeculativeExecutionResult,
    GlobalStateQueryResult,
    StoredValues,
    GetTrieFullResult,
    NodeStatus,
    DictionaryQueryResult,
    BalanceResponse,
    Reward,
    ProtocolVersion,
    ContractPackageWithProof,
    ContractInformation,
    AccountInformation,
    PackageWithProof,
    AddressableEntityInformation,
}

impl ResponseType {
    /// The tag that stands for the type.
    pub open spec fn tag(self) -> u8 {
        match self {
            ResponseType::BlockHeaderV1 => 0,
            ResponseType::BlockHeader => 1,
            ResponseType::BlockBodyV1 => 2,
            ResponseType::BlockBody => 3,
            ResponseType::ApprovalsHashesV1 => 4,
            ResponseType::ApprovalsHashes => 5,
            ResponseType::BlockSignaturesV1 => 6,
            ResponseType::BlockSignatures => 7,
            ResponseType::Deploy => 8,
            ResponseType::Transaction => 9,
            ResponseType::ExecutionResultV1 => 10,
            ResponseType::ExecutionResult => 11,
            ResponseType::WasmV1Result => 12,
            ResponseType::Transfers => 13,
            ResponseType::FinalizedDeployApprovals => 14,
            ResponseType::FinalizedApprovals => 15,
            ResponseType::BlockWithSignatures => 16,
            ResponseType::TransactionWithExecutionInfo => 17,
            ResponseType::Peers => 18,
            ResponseType::LastProgress => 19,
            ResponseType::ReactorState => 20,
            ResponseType::NetworkName => 21,
            ResponseType::ConsensusValidatorChanges => 22,
            ResponseType::BlockSynchronizerStatus => 23,
            ResponseType::AvailableBlockRange => 24,
            ResponseType::NextUpgrade => 25,
            ResponseType::ConsensusStatus => 26,
            ResponseType::ChainspecRawBytes => 27,
            ResponseType::Uptime => 28,
            ResponseType::HighestBlockSequenceCheckResult => 29,
            ResponseType::SpeculativeExecutionResult => 30,
            ResponseType::GlobalStateQueryResult => 31,
            ResponseType::StoredValues => 32,
            ResponseType::GetTrieFullResult => 33,
            ResponseType::NodeStatus => 34,
            ResponseType::DictionaryQueryResult => 35,
            ResponseType::BalanceResponse => 36,
            ResponseType::Reward => 37,
            ResponseType::ProtocolVersion => 38,
            ResponseType::ContractPackageWithProof => 39,
            ResponseType::ContractInformation => 40,
            ResponseType::AccountInformation => 41,
            ResponseType::PackageWithProof => 42,
            ResponseType::AddressableEntityInformation => 43,
        }
    }

    /// Reads a type tag.
    pub fn from_tag(tag: u8) -> (r: Option<ResponseType>)
        ensures
            r is Some <==> tag < RESPONSE_TYPES,
            r matches Some(kind) ==> kind.tag() == tag,
    {
        let kind = match tag {
            0 => ResponseType::BlockHeaderV1,
            1 => ResponseType::BlockHeader,
            2 => ResponseType::BlockBodyV1,
            3 => ResponseType::BlockBody,
            4 => ResponseType::ApprovalsHashesV1,
            5 => ResponseType::ApprovalsHashes,
            6 => ResponseType::BlockSignaturesV1,
            7 => ResponseType::BlockSignatures,
            8 => ResponseType::Deploy,
            9 => ResponseType::Transaction,
            10 => ResponseType::ExecutionResultV1,
            11 => ResponseType::ExecutionResult,
            12 => ResponseType::WasmV1Result,
            13 => ResponseType::Transfers,
            14 => ResponseType::FinalizedDeployApprovals,
            15 => ResponseType::FinalizedApprovals,
            16 => ResponseType::BlockWithSignatures,
            17 => ResponseType::TransactionWithExecutionInfo,
            18 => ResponseType::Peers,
            19 => ResponseType::LastProgress,
            20 => ResponseType::ReactorState,
            21 => ResponseType::NetworkName,
            22 => ResponseType::ConsensusValidatorChanges,
            23 => ResponseType::BlockSynchronizerStatus,
            24 => ResponseType::AvailableBlockRange,
            25 => ResponseType::NextUpgrade,
            26 => ResponseType::ConsensusStatus,
            27 => ResponseType::ChainspecRawBytes,
            28 => ResponseType::Uptime,
            29 => ResponseType::HighestBlockSequenceCheckResult,
            30 => ResponseType::SpeculativeExecutionResult,
            31 => ResponseType::GlobalStateQueryResult,
            32 => ResponseType::StoredValues,
            33 => ResponseType::GetTrieFullResult,
            34 => ResponseType::NodeStatus,
            35 => ResponseType::DictionaryQueryResult,
            36 => ResponseType::BalanceResponse,
            37 => ResponseType::Reward,
            38 => ResponseType::ProtocolVersion,
            39 => ResponseType::ContractPackageWithProof,
            40 => ResponseType::ContractInformation,
            41 => ResponseType::AccountInformation,
            42 => ResponseType::PackageWithProof,
            43 => ResponseType::AddressableEntityInformation,
            _ => return None,
        };
        Some(kind)
    }
}

/// A transaction whose fields are out of place.
pub open spec fn misplaced() -> RecodedView {
    RecodedView::Undecodable(casper_types::bytesrepr::Error::Formatting)
}

/// What decoding and encoding again makes of a payload of the given type. A
/// node status loses its peers; a payload of peers is passed on to no one.
pub open spec fn recoded_payload(kind: ResponseType, payload: Seq<u8>) -> RecodedView {
    match kind {
        ResponseType::BlockHeaderV1 => payload::block_header_v1_recoded(payload),
        ResponseType::BlockHeader => payload::block_header_recoded(payload),
        ResponseType::BlockBodyV1 => payload::block_body_v1_recoded(payload),
        ResponseType::BlockBody => payload::block_body_recoded(payload),
        ResponseType::ApprovalsHashesV1 => payload::kept(payload),
        ResponseType::ApprovalsHashes => payload::kept(payload),
        ResponseType::BlockSignaturesV1 => payload::block_signatures_v1_recoded(payload),
        ResponseType::BlockSignatures => payload::block_signatures_recoded(payload),
        ResponseType::Deploy => payload::deploy_recoded(payload),
        ResponseType::Transaction => if calltable::offsets_ascend(payload) {
            payload::transaction_recoded(payload)
        } else {
            misplaced()
        },
        ResponseType::ExecutionResultV1 => payload::execution_result_v1_recoded(payload),
        ResponseType::ExecutionResult => payload::execution_result_recoded(payload),
        ResponseType::WasmV1Result => payload::kept(payload),
        ResponseType::Transfers => payload::transfers_recoded(payload),
        ResponseType::FinalizedDeployApprovals => payload::approvals_recoded(payload),
        ResponseType::FinalizedApprovals => payload::approvals_recoded(payload),
        ResponseType::BlockWithSignatures => payload::block_with_signatures_recoded(payload),
        ResponseType::TransactionWithExecutionInfo => if calltable::offsets_ascend(payload) {
            payload::transaction_with_execution_info_recoded(payload)
        } else {
            misplaced()
        },
        ResponseType::Peers => payload::kept(payload),
        ResponseType::LastProgress => payload::fixed_recoded(8, payload),
        ResponseType::ReactorState => payload::text_recoded(payload),
        ResponseType::NetworkName => payload::text_recoded(payload),
        ResponseType::ConsensusValidatorChanges => payload::consensus_validator_changes_recoded(
            payload,
        ),
        ResponseType::BlockSynchronizerStatus => payload::block_synchronizer_status_recoded(
            payload,
        ),
        ResponseType::AvailableBlockRange => payload::fixed_recoded(16, payload),
        ResponseType::NextUpgrade => payload::upgrade_recoded(payload),
        ResponseType::ConsensusStatus => payload::consensus_status_recoded(payload),
        ResponseType::ChainspecRawBytes => payload::chainspec_recoded(payload),
        ResponseType::Uptime => payload::fixed_recoded(8, payload),
        ResponseType::HighestBlockSequenceCheckResult => payload::kept(payload),
        ResponseType::SpeculativeExecutionResult => payload::speculative_execution_result_recoded(
            payload,
        ),
        ResponseType::GlobalStateQueryResult => payload::global_state_query_result_recoded(payload),
        ResponseType::StoredValues => payload::stored_values_recoded(payload),
        ResponseType::GetTrieFullResult => payload::optional_bytes_recoded(payload),
        ResponseType::NodeStatus => payload::node_status_recoded(payload, no_peers()),
        ResponseType::DictionaryQueryResult => payload::dictionary_query_result_recoded(payload),
        ResponseType::BalanceResponse => payload::balance_response_recoded(payload),
        ResponseType::Reward => payload::reward_response_recoded(payload),
        ResponseType::ProtocolVersion => payload::fixed_recoded(12, payload),
        ResponseType::ContractPackageWithProof => payload::contract_package_with_proof_recoded(
            payload,
        ),
        ResponseType::ContractInformation => payload::contract_information_recoded(payload),
        ResponseType::AccountInformation => payload::account_information_recoded(payload),
        ResponseType::PackageWithProof => payload::package_with_proof_recoded(payload),
        ResponseType::AddressableEntityInformation => payload::addressable_entity_information_recoded(
            payload,
        ),
    }
}

/// Decodes a payload of the given type and encodes it again.
fn recode_payload(kind: ResponseType, payload: &[u8]) -> (r: Recoded)
    ensures
        r@ == recoded_payload(kind, payload@),
{
    match kind {
        ResponseType::BlockHeaderV1 => payload::recode_block_header_v1(payload),
        ResponseType::BlockHeader => payload::recode_block_header(payload),
        ResponseType::BlockBodyV1 => payload::recode_block_body_v1(payload),
        ResponseType::BlockBody => payload::recode_block_body(payload),
        ResponseType::ApprovalsHashesV1 => recode_opaque(payload),
        ResponseType::ApprovalsHashes => recode_opaque(payload),
        ResponseType::BlockSignaturesV1 => payload::recode_block_signatures_v1(payload),
        ResponseType::BlockSignatures => payload::recode_block_signatures(payload),
        ResponseType::Deploy => payload::recode_deploy(payload),
        ResponseType::Transaction => if calltable::check_offsets(payload) {
            payload::recode_transaction(payload)
        } else {
            Recoded::Undecodable(casper_types::bytesrepr::Error::Formatting)
        },
        ResponseType::ExecutionResultV1 => payload::recode_execution_result_v1(payload),
        ResponseType::ExecutionResult => payload::recode_execution_result(payload),
        ResponseType::WasmV1Result => recode_opaque(payload),
        ResponseType::Transfers => payload::recode_transfers(payload),
        ResponseType::FinalizedDeployApprovals => payload::recode_approvals(payload),
        ResponseType::FinalizedApprovals => payload::recode_approvals(payload),
        ResponseType::BlockWithSignatures => payload::recode_block_with_signatures(payload),
        ResponseType::TransactionWithExecutionInfo => if calltable::check_offsets(payload) {
            payload::recode_transaction_with_execution_info(payload)
        } else {
            Recoded::Undecodable(casper_types::bytesrepr::Error::Formatting)
        },
        ResponseType::Peers => recode_opaque(payload),
        ResponseType::LastProgress => payload::recode_last_progress(payload),
        ResponseType::ReactorState => payload::recode_reactor_state(payload),
        ResponseType::NetworkName => payload::recode_network_name(payload),
        ResponseType::ConsensusValidatorChanges => payload::recode_consensus_validator_changes(
            payload,
        ),
        ResponseType::BlockSynchronizerStatus => payload::recode_block_synchronizer_status(payload),
        ResponseType::AvailableBlockRange => payload::recode_available_block_range(payload),
        ResponseType::NextUpgrade => payload::recode_next_upgrade(payload),
        ResponseType::ConsensusStatus => payload::recode_consensus_status(payload),
        ResponseType::ChainspecRawBytes => payload::recode_chainspec_raw_bytes(payload),
        ResponseType::Uptime => payload::recode_uptime(payload),
        ResponseType::HighestBlockSequenceCheckResult => recode_opaque(payload),
        ResponseType::SpeculativeExecutionResult => payload::recode_speculative_execution_result(
            payload,
        ),
        ResponseType::GlobalStateQueryResult => payload::recode_global_state_query_result(payload),
        ResponseType::StoredValues => payload::recode_stored_values(payload),
        ResponseType::GetTrieFullResult => payload::recode_get_trie_full_result(payload),
        ResponseType::NodeStatus => recode_without_peers(payload),
        ResponseType::DictionaryQueryResult => payload::recode_dictionary_query_result(payload),
        ResponseType::BalanceResponse => payload::recode_balance_response(payload),
        ResponseType::Reward => payload::recode_reward_response(payload),
        ResponseType::ProtocolVersion => payload::recode_protocol_version(payload),
        ResponseType::ContractPackageWithProof => payload::recode_contract_package_with_proof(
            payload,
        ),
        ResponseType::ContractInformation => payload::recode_contract_information(payload),
        ResponseType::AccountInformation => payload::recode_account_information(payload),
        ResponseType::PackageWithProof => payload::recode_package_with_proof(payload),
        ResponseType::AddressableEntityInformation => payload::recode_addressable_entity_information(
            payload,
        ),
    }
}

/// Passes a payload on as it is.
fn recode_opaque(payload: &[u8]) -> (r: Recoded)
    ensures
        r@ == payload::kept(payload@),
{
    Recoded::Decoded { rest: 0, encoded: Ok(slice_to_vec(payload)) }
}

/// Decodes a node status and encodes it again without its peers.
fn recode_without_peers(payload: &[u8]) -> (r: Recoded)
    ensures
        r@ == payload::node_status_recoded(payload@, no_peers()),
        r matches Recoded::Decoded { rest, encoded: Ok(status) }
            ==> payload::node_status_peers(status@) == Some(no_peers())
            && payload::node_status_recoded(status@, no_peers()) == payload::kept(status@),
{
    let peers: Vec<(String, String)> = Vec::new();
    assert(peers.deep_view() =~= Seq::<(Seq<char>, Seq<char>)>::empty());
    payload::recode_node_status(payload, peers)
}

/// Why a response could not be rewritten.
#[derive(Debug)]
pub enum ResponseRewriteError {
    Decode(casper_types::bytesrepr::Error),
    Encode(casper_types::bytesrepr::Error),
    UnknownTypeTag(u8),
    MissingTypeTag,
}

/// The bytes of a result.
pub open spec fn bytes_of<E>(result: Result<Vec<u8>, E>) -> Result<Seq<u8>, E> {
    match result {
        Ok(bytes) => Ok(bytes@),
        Err(err) => Err(err),
    }
}

impl ResponseRewriteError {
    /// The error code with which a response that cannot be rewritten is
    /// answered.
    pub open spec fn code(self) -> ErrorCode {
        match self {
            ResponseRewriteError::UnknownTypeTag(_) => ErrorCode::UnsupportedRequest,
            _ => ErrorCode::InternalError,
        }
    }

    /// The error code to answer with.
    pub fn error_code(&self) -> (r: ErrorCode)
        ensures
            r == self.code(),
    {
        match self {
            ResponseRewriteError::UnknownTypeTag(_) => ErrorCode::UnsupportedRequest,
            ResponseRewriteError::MissingTypeTag => ErrorCode::InternalError,
            ResponseRewriteError::Decode(_) => ErrorCode::InternalError,
            ResponseRewriteError::Encode(_) => ErrorCode::InternalError,
        }
    }
}

/// A response and the bytes that it travels as.
#[derive(Debug)]
pub struct Response {
    pub parts: ResponseParts,
    pub wire: Vec<u8>,
}

impl Response {
    /// The response's fields.
    pub open spec fn fields(self) -> ResponseFields {
        self.parts.fields(wire::version_of(self.wire@))
    }

    /// The bytes are those of the fields.
    pub open spec fn wf(self) -> bool {
        &&& wire::fits(self.parts.payload@.len())
        &&& self.wire@ == wire::response_wire(self.fields())
    }
}

/// A response with or without the request that it answers.
#[derive(Debug)]
pub enum ResponseEnvelope {
    WithRequest { request: Vec<u8>, response: Response },
    Response { response: Response },
}

/// The view of [`ResponseEnvelope`].
pub enum EnvelopeView {
    WithRequest { request: Seq<u8>, response: ResponseFields },
    Response { response: ResponseFields },
}

impl View for ResponseEnvelope {
    type V = EnvelopeView;

    open spec fn view(&self) -> EnvelopeView {
        match self {
            ResponseEnvelope::WithRequest { request, response } => EnvelopeView::WithRequest {
                request: request@,
                response: response.fields(),
            },
            ResponseEnvelope::Response { response } => EnvelopeView::Response {
                response: response.fields(),
            },
        }
    }
}

impl EnvelopeView {
    /// The response of the envelope.
    pub open spec fn response(self) -> ResponseFields {
        match self {
            EnvelopeView::WithRequest { response, .. } => response,
            EnvelopeView::Response { response } => response,
        }
    }

    /// The envelope with another response.
    pub open spec fn with_response(self, response: ResponseFields) -> EnvelopeView {
        match self {
            EnvelopeView::WithRequest { request, .. } => EnvelopeView::WithRequest {
                request,
                response,
            },
            EnvelopeView::Response { .. } => EnvelopeView::Response { response },
        }
    }

    /// Whether two envelopes answer the same request, or both name none.
    pub open spec fn same_request(self, other: EnvelopeView) -> bool {
        self.with_response(other.response()) == other
    }

    /// The envelope as it travels.
    pub open spec fn wire(self) -> Seq<u8> {
        match self {
            EnvelopeView::WithRequest { request, response } => wire::envelope_wire(
                request,
                wire::response_wire(response),
            ),
            EnvelopeView::Response { response } => wire::response_wire(response),
        }
    }

    /// Its byte strings are no longer than their length can say.
    pub open spec fn fits(self) -> bool {
        match self {
            EnvelopeView::WithRequest { request, response } => wire::fits(request.len())
                && wire::fits(response.payload.len()),
            EnvelopeView::Response { response } => wire::fits(response.payload.len()),
        }
    }
}

impl ResponseEnvelope {
    /// The response that the envelope holds.
    pub open spec fn inner(self) -> Response {
        match self {
            ResponseEnvelope::WithRequest { response, .. } => response,
            ResponseEnvelope::Response { response } => response,
        }
    }

    /// The envelope's bytes are those of its fields.
    pub open spec fn wf(self) -> bool {
        self.inner().wf() && self@.fits()
    }

    /// The response of the envelope.
    pub fn response(&self) -> (r: &Response)
        ensures
            *r == self.inner(),
            r.fields() == self@.response(),
    {
        match self {
            ResponseEnvelope::WithRequest { response, .. } => response,
            ResponseEnvelope::Response { response } => response,
        }
    }

    /// The envelope with another response.
    pub fn set_response(self, response: Response) -> (r: ResponseEnvelope)
        ensures
            r@ == self@.with_response(response.fields()),
            r.inner() == response,
    {
        match self {
            ResponseEnvelope::WithRequest { request, .. } => ResponseEnvelope::WithRequest {
                request,
                response,
            },
            ResponseEnvelope::Response { .. } => ResponseEnvelope::Response { response },
        }
    }
}

/// Whether a request and a response stand at the start of `bytes`.
pub open spec fn starts_with_envelope(bytes: Seq<u8>) -> bool {
    exists|request: Seq<u8>, fields: ResponseFields, rest: Seq<u8>|
        wire::fits(request.len()) && wire::fits(fields.payload.len()) && bytes
            == #[trigger] (wire::envelope_wire(request, wire::response_wire(fields)) + rest)
}

/// Whether `bytes` are read as `envelope`: all of them, and as a response alone
/// only where no request and response stand at their start.
pub open spec fn reads_as(bytes: Seq<u8>, envelope: EnvelopeView) -> bool {
    &&& envelope.fits()
    &&& bytes == envelope.wire()
    &&& envelope is Response ==> !starts_with_envelope(bytes)
}

/// The envelope that `bytes` are read as.
pub open spec fn parsed_envelope(bytes: Seq<u8>) -> Option<EnvelopeView> {
    if exists|envelope: EnvelopeView| reads_as(bytes, envelope) {
        Some(choose|envelope: EnvelopeView| reads_as(bytes, envelope))
    } else {
        None
    }
}

/// Whether a response stands at the start of `bytes`.
pub open spec fn starts_with_response(bytes: Seq<u8>) -> bool {
    exists|fields: ResponseFields, rest: Seq<u8>|
        wire::fits(fields.payload.len()) && bytes == #[trigger] (wire::response_wire(fields)
            + rest)
}

/// Why bytes that are no envelope cannot be read: something follows what
/// stands at their start, or no response stands there.
pub open spec fn unreadable(bytes: Seq<u8>) -> casper_types::bytesrepr::Error {
    if starts_with_envelope(bytes) || starts_with_response(bytes) {
        casper_types::bytesrepr::Error::LeftOverBytes
    } else {
        wire::response_decode_error(bytes)
    }
}

/// Bytes are read as one envelope at most.
pub proof fn lemma_reads_once(bytes: Seq<u8>, a: EnvelopeView, b: EnvelopeView)
    requires
        reads_as(bytes, a),
        reads_as(bytes, b),
    ensures
        a == b,
{
    let none = Seq::<u8>::empty();
    match (a, b) {
        (
            EnvelopeView::WithRequest { request: ra, response: fa },
            EnvelopeView::WithRequest { request: rb, response: fb },
        ) => {
            assert(a.wire() + none =~= b.wire() + none);
            wire::lemma_envelope_prefix(ra, fa, none, rb, fb, none);
        },
        (EnvelopeView::Response { response: fa }, EnvelopeView::Response { response: fb }) => {
            assert(a.wire() + none =~= b.wire() + none);
            wire::lemma_response_prefix(fa, none, fb, none);
        },
        (EnvelopeView::WithRequest { request, response }, EnvelopeView::Response { .. }) => {
            assert(bytes =~= wire::envelope_wire(request, wire::response_wire(response)) + none);
        },
        (EnvelopeView::Response { .. }, EnvelopeView::WithRequest { request, response }) => {
            assert(bytes =~= wire::envelope_wire(request, wire::response_wire(response)) + none);
        },
    }
}

/// What `bytes` are read as, given one way to read them.
pub proof fn lemma_parsed(bytes: Seq<u8>, envelope: EnvelopeView)
    requires
        reads_as(bytes, envelope),
    ensures
        parsed_envelope(bytes) == Some(envelope),
{
    lemma_reads_once(bytes, parsed_envelope(bytes)->0, envelope);
}

/// Reads a response with or without the request that it answers. Bytes that
/// follow it are an error.
pub fn parse_response_envelope(response_bytes: &[u8]) -> (r: Result<
    ResponseEnvelope,
    ResponseRewriteError,
>)
    ensures
        match r {
            Ok(envelope) => envelope.wf() && parsed_envelope(response_bytes@) == Some(envelope@),
            Err(err) => parsed_envelope(response_bytes@) is None && err
                == ResponseRewriteError::Decode(unreadable(response_bytes@)),
        },
{
    let total = response_bytes.len();
    match decode_response_and_request(response_bytes) {
        Ok((request, parts, rest)) => {
            let ghost start = 4 + request@.len() as int;
            let ghost fields = parts.fields(wire::version_of(response_bytes@.skip(start)));
            let ghost tail = response_bytes@.skip(total - rest);
            proof {
                assert(response_bytes@ =~= wire::envelope_wire(
                    request@,
                    wire::response_wire(fields),
                ) + tail);
                assert(starts_with_envelope(response_bytes@));
            }
            if rest != 0 {
                proof {
                    assert forall|envelope: EnvelopeView| !reads_as(response_bytes@, envelope) by {
                        if reads_as(response_bytes@, envelope) {
                            let none = Seq::<u8>::empty();
                            let req = envelope->WithRequest_request;
                            let resp = envelope->WithRequest_response;
                            assert(response_bytes@ =~= wire::envelope_wire(
                                req,
                                wire::response_wire(resp),
                            ) + none);
                            wire::lemma_envelope_prefix(request@, fields, tail, req, resp, none);
                        }
                    }
                }
                return Err(
                    ResponseRewriteError::Decode(casper_types::bytesrepr::Error::LeftOverBytes),
                );
            }
            proof {
                assert(tail =~= Seq::<u8>::empty());
                assert(response_bytes@.take(total as int) =~= response_bytes@);
            }
            let bytes = slice_subrange(response_bytes, 4 + request.len(), total);
            let wire = slice_to_vec(bytes);
            proof {
                assert(wire@ =~= wire::response_wire(fields));
                assert(wire::version_of(wire@) == wire::version_of(response_bytes@.skip(start)));
            }
            let response = Response { parts, wire };
            let envelope = ResponseEnvelope::WithRequest { request, response };
            proof {
                lemma_parsed(response_bytes@, envelope@);
            }
            Ok(envelope)
        },
        Err(_) => {
            assert(!starts_with_envelope(response_bytes@));
            match decode_response(response_bytes) {
                Ok((parts, rest)) => {
                    let ghost fields = parts.fields(wire::version_of(response_bytes@));
                    let ghost tail = response_bytes@.skip(total - rest);
                    assert(response_bytes@ =~= wire::response_wire(fields) + tail);
                    if rest != 0 {
                        proof {
                            assert forall|envelope: EnvelopeView|
                                !reads_as(response_bytes@, envelope) by {
                                if reads_as(response_bytes@, envelope) {
                                    lemma_only_response(response_bytes@, envelope);
                                    let none = Seq::<u8>::empty();
                                    let resp = envelope->Response_response;
                                    assert(response_bytes@ =~= wire::response_wire(resp) + none);
                                    wire::lemma_response_prefix(fields, tail, resp, none);
                                }
                            }
                        }
                        return Err(
                            ResponseRewriteError::Decode(
                                casper_types::bytesrepr::Error::LeftOverBytes,
                            ),
                        );
                    }
                    assert(response_bytes@.take(total as int) =~= response_bytes@);
                    let response = Response { parts, wire: slice_to_vec(response_bytes) };
                    let envelope = ResponseEnvelope::Response { response };
                    proof {
                        lemma_parsed(response_bytes@, envelope@);
                    }
                    Ok(envelope)
                },
                Err(err) => {
                    proof {
                        assert forall|envelope: EnvelopeView| !reads_as(
                            response_bytes@,
                            envelope,
                        ) by {
                            if reads_as(response_bytes@, envelope) {
                                lemma_only_response(response_bytes@, envelope);
                                let resp = envelope->Response_response;
                                assert(response_bytes@ =~= wire::response_wire(resp)
                                    + Seq::<u8>::empty());
                            }
                        }
                    }
                    Err(ResponseRewriteError::Decode(err))
                },
            }
        },
    }
}

proof fn lemma_only_response(bytes: Seq<u8>, envelope: EnvelopeView)
    requires
        reads_as(bytes, envelope),
        !starts_with_envelope(bytes),
    ensures
        envelope is Response,
{
    if let EnvelopeView::WithRequest { request, response } = envelope {
        assert(bytes =~= wire::envelope_wire(request, wire::response_wire(response))
            + Seq::<u8>::empty());
    }
}

/// An envelope as it is sent, where it is not too long.
pub open spec fn serialized(envelope: EnvelopeView) -> Result<Seq<u8>, ResponseRewriteError> {
    if wire::fits(envelope.wire().len()) {
        Ok(envelope.wire())
    } else {
        Err(ResponseRewriteError::Encode(casper_types::bytesrepr::Error::OutOfMemory))
    }
}

/// Serializes an envelope.
pub fn serialize_response_envelope(envelope: ResponseEnvelope) -> (r: Result<
    Vec<u8>,
    ResponseRewriteError,
>)
    requires
        envelope.wf(),
    ensures
        bytes_of(r) == serialized(envelope@),
{
    match envelope {
        ResponseEnvelope::WithRequest { request, response } => {
            match encode_response_and_request(request.as_slice(), response.wire.as_slice()) {
                Ok(bytes) => Ok(bytes),
                Err(err) => Err(ResponseRewriteError::Encode(err)),
            }
        },
        ResponseEnvelope::Response { response } => {
            match encode_response(response.wire.as_slice()) {
                Ok(bytes) => Ok(bytes),
                Err(err) => Err(ResponseRewriteError::Encode(err)),
            }
        },
    }
}

/// What is left of a payload: its encoding, where it was decoded to its end.
pub open spec fn payload_outcome(recoded: RecodedView) -> Result<Seq<u8>, ResponseRewriteError> {
    match recoded {
        RecodedView::Undecodable(err) => Err(ResponseRewriteError::Decode(err)),
        RecodedView::Decoded { rest, encoded } => if rest != 0 {
            Err(ResponseRewriteError::Decode(casper_types::bytesrepr::Error::LeftOverBytes))
        } else {
            match encoded {
                Ok(bytes) => Ok(bytes),
                Err(err) => Err(ResponseRewriteError::Encode(err)),
            }
        },
    }
}

/// Takes the encoding of a payload that was decoded to its end.
pub fn roundtrip_payload(recoded: Recoded) -> (r: Result<Vec<u8>, ResponseRewriteError>)
    ensures
        bytes_of(r) == payload_outcome(recoded@),
{
    match recoded {
        Recoded::Undecodable(err) => Err(ResponseRewriteError::Decode(err)),
        Recoded::Decoded { rest, encoded } => {
            if rest != 0 {
                return Err(
                    ResponseRewriteError::Decode(casper_types::bytesrepr::Error::LeftOverBytes),
                );
            }
            match encoded {
                Ok(bytes) => Ok(bytes),
                Err(err) => Err(ResponseRewriteError::Encode(err)),
            }
        },
    }
}

/// A response that takes the place of a success response of the given type: an
/// error in place of peers, and elsewhere the payload encoded again.
pub open spec fn replaced(kind: ResponseType, payload: Seq<u8>) -> Result<
    ResponseFields,
    ResponseRewriteError,
> {
    if kind is Peers {
        Ok(wire::error_fields(ErrorCode::FunctionDisabled))
    } else {
        match payload_outcome(recoded_payload(kind, payload)) {
            Ok(bytes) => Ok(wire::success_fields(kind.tag(), bytes)),
            Err(err) => Err(err),
        }
    }
}

/// What a response of the upstream comes to. A failure is passed on as it is,
/// and so is an empty success.
pub open spec fn rewritten(bytes: Seq<u8>) -> Result<Seq<u8>, ResponseRewriteError> {
    match parsed_envelope(bytes) {
        None => Err(ResponseRewriteError::Decode(unreadable(bytes))),
        Some(envelope) => rewritten_envelope(envelope),
    }
}

/// What a response of the upstream, already read, comes to.
pub open spec fn rewritten_envelope(envelope: EnvelopeView) -> Result<
    Seq<u8>,
    ResponseRewriteError,
> {
    let response = envelope.response();
    if response.error_code != 0 {
        serialized(envelope)
    } else {
        match response.type_tag {
            None => if response.payload.len() == 0 {
                serialized(envelope)
            } else {
                Err(ResponseRewriteError::MissingTypeTag)
            },
            Some(tag) => if tag >= RESPONSE_TYPES {
                Err(ResponseRewriteError::UnknownTypeTag(tag))
            } else {
                match replaced(type_of(tag), response.payload) {
                    Ok(fields) => serialized(envelope.with_response(fields)),
                    Err(err) => Err(err),
                }
            },
        }
    }
}

/// The type that a known tag stands for.
pub open spec fn type_of(tag: u8) -> ResponseType {
    choose|kind: ResponseType| #[trigger] kind.tag() == tag
}

/// A tag stands for one type.
pub proof fn lemma_type_of(kind: ResponseType)
    ensures
        type_of(kind.tag()) == kind,
{
    let other = type_of(kind.tag());
    assert(other.tag() == kind.tag());
}

/// The response that takes the place of a success response.
fn replacement(kind: ResponseType, tag: u8, payload: &[u8]) -> (r: Result<
    Response,
    ResponseRewriteError,
>)
    requires
        tag == kind.tag(),
    ensures
        match (r, replaced(kind, payload@)) {
            (Ok(response), Ok(fields)) => response.wf() && response.fields() == fields,
            (Err(err), Err(expected)) => err == expected,
            (Err(err), Ok(fields)) => !wire::fits(wire::response_wire(fields).len()) && err
                == ResponseRewriteError::Encode(casper_types::bytesrepr::Error::OutOfMemory),
            (Ok(_), Err(_)) => false,
        },
        kind is NodeStatus ==> (replaced(kind, payload@) matches Ok(fields)
            ==> payload::node_status_peers(fields.payload) == Some(no_peers())
            && payload::node_status_recoded(fields.payload, no_peers()) == payload::kept(
            fields.payload,
        )),
{
    match kind {
        ResponseType::Peers => peers_disabled(),
        ResponseType::NodeStatus => {
            let payload = sanitize_node_status_payload(payload)?;
            success_response(tag, payload)
        },
        _ => roundtrip_response(kind, tag, payload),
    }
}

/// No peers.
pub open spec fn no_peers() -> Seq<(Seq<char>, Seq<char>)> {
    Seq::empty()
}

/// The response that answers for peers.
fn peers_disabled() -> (r: Result<Response, ResponseRewriteError>)
    ensures
        r is Ok,
        r matches Ok(response) ==> response.wf() && response.fields() == wire::error_fields(
            ErrorCode::FunctionDisabled,
        ),
{
    let code = ErrorCode::FunctionDisabled;
    match encode_error(code) {
        Ok(wire) => {
            let parts = ResponseParts {
                error_code: code.to_code(),
                type_tag: None,
                payload: Vec::new(),
            };
            proof {
                lemma_version(wire::error_fields(code));
                assert(parts.payload@ =~= Seq::<u8>::empty());
            }
            Ok(Response { parts, wire })
        },
        Err(err) => Err(ResponseRewriteError::Encode(err)),
    }
}

/// A success response with the given payload.
fn success_response(tag: u8, payload: Vec<u8>) -> (r: Result<Response, ResponseRewriteError>)
    requires
        tag < RESPONSE_TYPES,
    ensures
        match r {
            Ok(response) => response.wf() && response.fields() == wire::success_fields(
                tag,
                payload@,
            ),
            Err(err) => !wire::fits(
                wire::response_wire(wire::success_fields(tag, payload@)).len(),
            ) && err == ResponseRewriteError::Encode(casper_types::bytesrepr::Error::OutOfMemory),
        },
{
    let ghost fields = wire::success_fields(tag, payload@);
    assert(wire::response_wire(fields).len() == payload@.len() + 10);
    let parts = ResponseParts {
        error_code: 0,
        type_tag: Some(tag),
        payload: slice_to_vec(payload.as_slice()),
    };
    match encode_success(tag, payload) {
        Ok(wire) => {
            proof {
                lemma_version(fields);
            }
            Ok(Response { parts, wire })
        },
        Err(err) => Err(ResponseRewriteError::Encode(err)),
    }
}

/// A response starts with its version.
proof fn lemma_version(fields: ResponseFields)
    ensures
        wire::version_of(wire::response_wire(fields)) == fields.version,
{
    let bytes = wire::response_wire(fields);
    assert(bytes[0] == wire::le16(fields.version)[0]);
    assert(bytes[1] == wire::le16(fields.version)[1]);
}

/// Decodes a payload of the given type, encodes it again and answers with it.
fn roundtrip_response(kind: ResponseType, tag: u8, payload: &[u8]) -> (r: Result<
    Response,
    ResponseRewriteError,
>)
    requires
        tag == kind.tag(),
    ensures
        match (r, payload_outcome(recoded_payload(kind, payload@))) {
            (Ok(response), Ok(bytes)) => response.wf() && response.fields() == wire::success_fields(
                kind.tag(),
                bytes,
            ),
            (Err(err), Err(expected)) => err == expected,
            (Err(err), Ok(bytes)) => !wire::fits(
                wire::response_wire(wire::success_fields(kind.tag(), bytes)).len(),
            ) && err == ResponseRewriteError::Encode(casper_types::bytesrepr::Error::OutOfMemory),
            (Ok(_), Err(_)) => false,
        },
{
    let payload = roundtrip_payload(recode_payload(kind, payload))?;
    success_response(tag, payload)
}

/// Takes the peers out of a node status.
pub fn sanitize_node_status_payload(payload: &[u8]) -> (r: Result<Vec<u8>, ResponseRewriteError>)
    ensures
        bytes_of(r) == payload_outcome(payload::node_status_recoded(payload@, no_peers())),
        r matches Ok(status) ==> payload::node_status_peers(status@) == Some(no_peers())
            && payload::node_status_recoded(status@, no_peers()) == payload::kept(status@),
{
    let recoded = recode_without_peers(payload);
    roundtrip_payload(recoded)
}

/// The peers that a node status reports, as pairs of identifier and address.
pub fn reported_peers(payload: &[u8]) -> (r: Option<Vec<(String, String)>>)
    ensures
        r.deep_view() == payload::node_status_peers(payload@),
{
    payload::decode_node_status_peers(payload)
}

/// Rewrites a response of the upstream: peers are taken out, every other
/// payload is decoded and encoded again.
pub fn rewrite_response_bytes(response_bytes: &[u8]) -> (r: Result<Vec<u8>, ResponseRewriteError>)
    ensures
        bytes_of(r) == rewritten(response_bytes@),
        hides_peers(response_bytes@),
{
    let envelope = parse_response_envelope(response_bytes)?;
    let response = envelope.response();
    if response.parts.error_code != 0 {
        return serialize_response_envelope(envelope);
    }
    let response_type_tag: u8 = match response.parts.type_tag {
        Some(tag) => tag,
        None => {
            if response.parts.payload.len() == 0 {
                return serialize_response_envelope(envelope);
            }
            return Err(ResponseRewriteError::MissingTypeTag);
        },
    };
    let kind = match ResponseType::from_tag(response_type_tag) {
        Some(kind) => kind,
        None => {
            return Err(ResponseRewriteError::UnknownTypeTag(response_type_tag));
        },
    };
    proof {
        lemma_type_of(kind);
    }
    let payload = response.parts.payload.as_slice();
    let new_response = match replacement(kind, response_type_tag, payload) {
        Ok(new_response) => new_response,
        Err(err) => {
            return Err(err);
        },
    };
    let rewritten_envelope = envelope.set_response(new_response);
    serialize_response_envelope(rewritten_envelope)
}

/// Whether a node status among `bytes`, if it is passed on at all, is passed on
/// as a node status that reports no peers and is otherwise the same: without
/// peers, both are encoded alike.
pub open spec fn hides_peers(bytes: Seq<u8>) -> bool {
    match parsed_envelope(bytes) {
        None => true,
        Some(envelope) => is_node_status(envelope.response()) && rewritten(bytes) is Ok ==> ({
            let fields = replaced(ResponseType::NodeStatus, envelope.response().payload)->Ok_0;
            &&& rewritten(bytes) == Ok::<Seq<u8>, ResponseRewriteError>(
                envelope.with_response(fields).wire(),
            )
            &&& is_node_status(fields)
            &&& payload::node_status_peers(fields.payload) == Some(no_peers())
            &&& payload::node_status_recoded(fields.payload, no_peers())
                == payload::node_status_recoded(envelope.response().payload, no_peers())
            &&& settles(envelope)
        }),
    }
}

/// Whether a response is a success response with a node status.
pub open spec fn is_node_status(response: ResponseFields) -> bool {
    response.error_code == 0 && response.type_tag == Some(ResponseType::NodeStatus.tag())
}

impl ResponseRewriteError {
    /// The text of the error.
    pub open spec fn text(self) -> Seq<char> {
        match self {
            ResponseRewriteError::Decode(err) => "decode error: "@ + wire::codec_text(err),
            ResponseRewriteError::Encode(err) => "encode error: "@ + wire::codec_text(err),
            ResponseRewriteError::UnknownTypeTag(tag) => "unknown response type tag: "@
                + text::decimal(tag as nat),
            ResponseRewriteError::MissingTypeTag =>
                "missing response type tag for success response"@,
        }
    }

    /// The text of the error.
    pub fn message(&self) -> (r: String)
        ensures
            r@ == self.text(),
    {
        match self {
            ResponseRewriteError::Decode(err) => join(
                "decode error: ",
                codec_error_text(err).as_str(),
            ),
            ResponseRewriteError::Encode(err) => join(
                "encode error: ",
                codec_error_text(err).as_str(),
            ),
            ResponseRewriteError::UnknownTypeTag(tag) => join(
                "unknown response type tag: ",
                decimal_text(*tag as u64).as_str(),
            ),
            ResponseRewriteError::MissingTypeTag =>
                "missing response type tag for success response".to_owned(),
        }
    }
}

/// The envelope as which a response of the upstream is passed on, where it is.
pub open spec fn passed_on(envelope: EnvelopeView) -> Option<EnvelopeView> {
    let response = envelope.response();
    if response.error_code != 0 || (response.type_tag is None && response.payload.len() == 0) {
        Some(envelope)
    } else {
        match response.type_tag {
            None => None,
            Some(tag) => if tag >= RESPONSE_TYPES {
                None
            } else {
                match replaced(type_of(tag), response.payload) {
                    Ok(fields) => Some(envelope.with_response(fields)),
                    Err(_) => None,
                }
            },
        }
    }
}

/// Whatever the upstream answers, no success response with peers is passed on:
/// what is passed on is a response to the same request whose type is not that
/// of peers, unless it is an error.
pub proof fn law_peers_are_never_passed_on(bytes: Seq<u8>)
    ensures
        rewritten(bytes) matches Ok(sent) ==> parsed_envelope(bytes) is Some && ({
            let received = parsed_envelope(bytes)->0;
            let envelope = passed_on(received)->0;
            &&& passed_on(received) is Some
            &&& sent == envelope.wire()
            &&& envelope.response().error_code != 0 || envelope.response().type_tag != Some(
                ResponseType::Peers.tag(),
            )
            &&& received is WithRequest <==> envelope is WithRequest
            &&& received is WithRequest ==> envelope->WithRequest_request
                == received->WithRequest_request
        }),
{
    if let Some(received) = parsed_envelope(bytes) {
        if let Some(tag) = received.response().type_tag {
            if tag < RESPONSE_TYPES {
                lemma_known_tag(tag);
            }
        }
    }
}

/// A known tag stands for a type.
proof fn lemma_known_tag(tag: u8)
    requires
        tag < RESPONSE_TYPES,
    ensures
        type_of(tag).tag() == tag,
{
    assert(ResponseType::BlockHeaderV1.tag() == 0);
    assert(ResponseType::BlockHeader.tag() == 1);
    assert(ResponseType::BlockBodyV1.tag() == 2);
    assert(ResponseType::BlockBody.tag() == 3);
    assert(ResponseType::ApprovalsHashesV1.tag() == 4);
    assert(ResponseType::ApprovalsHashes.tag() == 5);
    assert(ResponseType::BlockSignaturesV1.tag() == 6);
    assert(ResponseType::BlockSignatures.tag() == 7);
    assert(ResponseType::Deploy.tag() == 8);
    assert(ResponseType::Transaction.tag() == 9);
    assert(ResponseType::ExecutionResultV1.tag() == 10);
    assert(ResponseType::ExecutionResult.tag() == 11);
    assert(ResponseType::WasmV1Result.tag() == 12);
    assert(ResponseType::Transfers.tag() == 13);
    assert(ResponseType::FinalizedDeployApprovals.tag() == 14);
    assert(ResponseType::FinalizedApprovals.tag() == 15);
    assert(ResponseType::BlockWithSignatures.tag() == 16);
    assert(ResponseType::TransactionWithExecutionInfo.tag() == 17);
    assert(ResponseType::Peers.tag() == 18);
    assert(ResponseType::LastProgress.tag() == 19);
    assert(ResponseType::ReactorState.tag() == 20);
    assert(ResponseType::NetworkName.tag() == 21);
    assert(ResponseType::ConsensusValidatorChanges.tag() == 22);
    assert(ResponseType::BlockSynchronizerStatus.tag() == 23);
    assert(ResponseType::AvailableBlockRange.tag() == 24);
    assert(ResponseType::NextUpgrade.tag() == 25);
    assert(ResponseType::ConsensusStatus.tag() == 26);
    assert(ResponseType::ChainspecRawBytes.tag() == 27);
    assert(ResponseType::Uptime.tag() == 28);
    assert(ResponseType::HighestBlockSequenceCheckResult.tag() == 29);
    assert(ResponseType::SpeculativeExecutionResult.tag() == 30);
    assert(ResponseType::GlobalStateQueryResult.tag() == 31);
    assert(ResponseType::StoredValues.tag() == 32);
    assert(ResponseType::GetTrieFullResult.tag() == 33);
    assert(ResponseType::NodeStatus.tag() == 34);
    assert(ResponseType::DictionaryQueryResult.tag() == 35);
    assert(ResponseType::BalanceResponse.tag() == 36);
    assert(ResponseType::Reward.tag() == 37);
    assert(ResponseType::ProtocolVersion.tag() == 38);
    assert(ResponseType::ContractPackageWithProof.tag() == 39);
    assert(ResponseType::ContractInformation.tag() == 40);
    assert(ResponseType::AccountInformation.tag() == 41);
    assert(ResponseType::PackageWithProof.tag() == 42);
    assert(ResponseType::AddressableEntityInformation.tag() == 43);
}

/// A response with peers is answered with an error in its place.
pub proof fn law_peers_are_disabled(envelope: EnvelopeView)
    requires
        envelope.response().error_code == 0,
        envelope.response().type_tag == Some(ResponseType::Peers.tag()),
    ensures
        rewritten_envelope(envelope) == serialized(
            envelope.with_response(wire::error_fields(ErrorCode::FunctionDisabled)),
        ),
{
    lemma_type_of(ResponseType::Peers);
}

/// What was written with a request is read back as it was.
pub proof fn law_envelopes_are_read_back(request: Seq<u8>, fields: ResponseFields)
    requires
        wire::fits(request.len()),
        wire::fits(fields.payload.len()),
    ensures
        parsed_envelope(wire::envelope_wire(request, wire::response_wire(fields))) == Some(
            EnvelopeView::WithRequest { request, response: fields },
        ),
{
    lemma_parsed(
        wire::envelope_wire(request, wire::response_wire(fields)),
        EnvelopeView::WithRequest { request, response: fields },
    );
}

/// What was written without a request is read back as it was, unless it starts
/// like a request with its response.
pub proof fn law_responses_are_read_back(fields: ResponseFields)
    requires
        wire::fits(fields.payload.len()),
        !starts_with_envelope(wire::response_wire(fields)),
    ensures
        parsed_envelope(wire::response_wire(fields)) == Some(
            EnvelopeView::Response { response: fields },
        ),
{
    lemma_parsed(wire::response_wire(fields), EnvelopeView::Response { response: fields });
}

/// What was read is written as it came.
pub proof fn law_read_envelopes_are_written_unchanged(bytes: Seq<u8>)
    requires
        wire::fits(bytes.len()),
        parsed_envelope(bytes) is Some,
    ensures
        serialized(parsed_envelope(bytes)->0) == Ok::<Seq<u8>, ResponseRewriteError>(bytes),
{
}

/// An error response of the upstream is passed on as it came.
pub proof fn law_errors_pass_unchanged(bytes: Seq<u8>)
    requires
        wire::fits(bytes.len()),
        parsed_envelope(bytes) matches Some(envelope) && envelope.response().error_code != 0,
    ensures
        rewritten(bytes) == Ok::<Seq<u8>, ResponseRewriteError>(bytes),
{
}

/// A response whose payload comes out of decoding and encoding as it went in
/// is passed on as it came.
pub proof fn law_other_payloads_pass_unchanged(bytes: Seq<u8>, kind: ResponseType)
    requires
        wire::fits(bytes.len()),
        !(kind is Peers),
        payload_outcome(recoded_payload(kind, parsed_envelope(bytes)->0.response().payload))
            == Ok::<Seq<u8>, ResponseRewriteError>(parsed_envelope(bytes)->0.response().payload),
        parsed_envelope(bytes) matches Some(envelope) && envelope.response().error_code == 0
            && envelope.response().type_tag == Some(kind.tag()) && envelope.response().version
            == RESPONSE_VERSION,
    ensures
        rewritten(bytes) == Ok::<Seq<u8>, ResponseRewriteError>(bytes),
{
    lemma_type_of(kind);
    let envelope = parsed_envelope(bytes)->0;
    assert(envelope.with_response(
        wire::success_fields(kind.tag(), envelope.response().payload),
    ) == envelope);
}

/// Whether `bytes` are a success response that carries a payload of some type,
/// with or without the request that it answers.
pub open spec fn carries(bytes: Seq<u8>, tag: u8, payload: Seq<u8>) -> bool {
    parsed_envelope(bytes) matches Some(envelope) && envelope.response().error_code == 0
        && envelope.response().type_tag == Some(tag) && envelope.response().payload == payload
}

/// Whether a response is answered as the codec of its payload says: what the
/// codec encodes is sent under the same type and to the same request, and as it
/// came where nothing changed; what it cannot decode to the end or encode is
/// not passed on.
pub open spec fn follows_codec(bytes: Seq<u8>, codec: RecodedView) -> bool {
    let received = parsed_envelope(bytes)->0;
    match codec {
        RecodedView::Undecodable(err) => rewritten(bytes) == Err::<Seq<u8>, ResponseRewriteError>(
            ResponseRewriteError::Decode(err),
        ),
        RecodedView::Decoded { rest, encoded } => if rest > 0 {
            rewritten(bytes) == Err::<Seq<u8>, ResponseRewriteError>(
                ResponseRewriteError::Decode(casper_types::bytesrepr::Error::LeftOverBytes),
            )
        } else {
            match encoded {
                Err(err) => rewritten(bytes) == Err::<Seq<u8>, ResponseRewriteError>(
                    ResponseRewriteError::Encode(err),
                ),
                Ok(encoded) => {
                    let answer = ResponseFields {
                        version: 1,
                        error_code: 0,
                        type_tag: received.response().type_tag,
                        payload: encoded,
                    };
                    let sent = match received {
                        EnvelopeView::WithRequest { request, .. } => wire::envelope_wire(
                            request,
                            wire::response_wire(answer),
                        ),
                        EnvelopeView::Response { .. } => wire::response_wire(answer),
                    };
                    &&& sent.len() <= u32::MAX ==> rewritten(bytes) == Ok::<
                        Seq<u8>,
                        ResponseRewriteError,
                    >(sent)
                    &&& sent.len() > u32::MAX ==> rewritten(bytes) == Err::<
                        Seq<u8>,
                        ResponseRewriteError,
                    >(ResponseRewriteError::Encode(casper_types::bytesrepr::Error::OutOfMemory))
                    &&& encoded == received.response().payload && received.response().version == 1
                        && bytes.len() <= u32::MAX ==> rewritten(bytes) == Ok::<
                        Seq<u8>,
                        ResponseRewriteError,
                    >(bytes)
                },
            }
        },
    }
}

/// Every type of payload but peers is answered as the codec of that type says.
/// A payload that is the encoding of a value of its type is never refused, and
/// one that its codec keeps is passed on as it came. Before a transaction is
/// decoded, its offsets must not fall.
pub proof fn law_every_type_follows_its_codec(bytes: Seq<u8>, tag: u8, payload: Seq<u8>)
    requires
        carries(bytes, tag, payload),
    ensures
        ({
            &&& tag == 0 ==> follows_codec(bytes, payload::block_header_v1_recoded(payload))
            &&& tag == 1 ==> follows_codec(bytes, payload::block_header_recoded(payload))
            &&& tag == 2 ==> follows_codec(bytes, payload::block_body_v1_recoded(payload))
            &&& tag == 3 ==> follows_codec(bytes, payload::block_body_recoded(payload))
            &&& tag == 4 ==> follows_codec(bytes, payload::kept(payload))
            &&& tag == 5 ==> follows_codec(bytes, payload::kept(payload))
            &&& tag == 6 ==> follows_codec(bytes, payload::block_signatures_v1_recoded(payload))
            &&& tag == 7 ==> follows_codec(bytes, payload::block_signatures_recoded(payload))
            &&& tag == 8 ==> follows_codec(bytes, payload::deploy_recoded(payload))
            &&& tag == 9 && calltable::offsets_ascend(payload) ==> follows_codec(
                bytes,
                payload::transaction_recoded(payload),
            )
            &&& tag == 10 ==> follows_codec(bytes, payload::execution_result_v1_recoded(payload))
            &&& tag == 11 ==> follows_codec(bytes, payload::execution_result_recoded(payload))
            &&& tag == 12 ==> follows_codec(bytes, payload::kept(payload))
            &&& tag == 13 ==> follows_codec(bytes, payload::transfers_recoded(payload))
            &&& tag == 14 ==> follows_codec(bytes, payload::approvals_recoded(payload))
            &&& tag == 15 ==> follows_codec(bytes, payload::approvals_recoded(payload))
            &&& tag == 16 ==> follows_codec(bytes, payload::block_with_signatures_recoded(payload))
            &&& tag == 17 && calltable::offsets_ascend(payload) ==> follows_codec(
                bytes,
                payload::transaction_with_execution_info_recoded(payload),
            )
            &&& tag == 19 ==> follows_codec(bytes, payload::fixed_recoded(8, payload))
            &&& tag == 20 ==> follows_codec(bytes, payload::text_recoded(payload))
            &&& tag == 21 ==> follows_codec(bytes, payload::text_recoded(payload))
            &&& tag == 22 ==> follows_codec(
                bytes,
                payload::consensus_validator_changes_recoded(payload),
            )
            &&& tag == 23 ==> follows_codec(
                bytes,
                payload::block_synchronizer_status_recoded(payload),
            )
            &&& tag == 24 ==> follows_codec(bytes, payload::fixed_recoded(16, payload))
            &&& tag == 25 ==> follows_codec(bytes, payload::upgrade_recoded(payload))
            &&& tag == 26 ==> follows_codec(bytes, payload::consensus_status_recoded(payload))
            &&& tag == 27 ==> follows_codec(bytes, payload::chainspec_recoded(payload))
            &&& tag == 28 ==> follows_codec(bytes, payload::fixed_recoded(8, payload))
            &&& tag == 29 ==> follows_codec(bytes, payload::kept(payload))
            &&& tag == 30 ==> follows_codec(
                bytes,
                payload::speculative_execution_result_recoded(payload),
            )
            &&& tag == 31 ==> follows_codec(
                bytes,
                payload::global_state_query_result_recoded(payload),
            )
            &&& tag == 32 ==> follows_codec(bytes, payload::stored_values_recoded(payload))
            &&& tag == 33 ==> follows_codec(bytes, payload::optional_bytes_recoded(payload))
            &&& tag == 34 ==> follows_codec(
                bytes,
                payload::node_status_recoded(payload, Seq::empty()),
            )
            &&& tag == 35 ==> follows_codec(
                bytes,
                payload::dictionary_query_result_recoded(payload),
            )
            &&& tag == 36 ==> follows_codec(bytes, payload::balance_response_recoded(payload))
            &&& tag == 37 ==> follows_codec(bytes, payload::reward_response_recoded(payload))
            &&& tag == 38 ==> follows_codec(bytes, payload::fixed_recoded(12, payload))
            &&& tag == 39 ==> follows_codec(
                bytes,
                payload::contract_package_with_proof_recoded(payload),
            )
            &&& tag == 40 ==> follows_codec(bytes, payload::contract_information_recoded(payload))
            &&& tag == 41 ==> follows_codec(bytes, payload::account_information_recoded(payload))
            &&& tag == 42 ==> follows_codec(bytes, payload::package_with_proof_recoded(payload))
            &&& tag == 43 ==> follows_codec(
                bytes,
                payload::addressable_entity_information_recoded(payload),
            )
            &&& (tag == 9 || tag == 17) && !calltable::offsets_ascend(payload) ==> rewritten(bytes)
                == Err::<Seq<u8>, ResponseRewriteError>(
                ResponseRewriteError::Decode(casper_types::bytesrepr::Error::Formatting),
            )
        }),
{
    let envelope = parsed_envelope(bytes)->0;
    if tag < RESPONSE_TYPES {
        lemma_known_tag(tag);
        if tag != 18 {
            lemma_follows_codec(bytes, tag, payload);
        }
    }
}

/// A known type other than peers is answered as the chosen codec says.
proof fn lemma_follows_codec(bytes: Seq<u8>, tag: u8, payload: Seq<u8>)
    requires
        carries(bytes, tag, payload),
        tag < RESPONSE_TYPES,
        !(type_of(tag) is Peers),
        type_of(tag).tag() == tag,
    ensures
        follows_codec(bytes, recoded_payload(type_of(tag), payload)),
{
    let received = parsed_envelope(bytes)->0;
    let codec = recoded_payload(type_of(tag), payload);
    if let RecodedView::Decoded { rest, encoded: Ok(encoded) } = codec {
        let answer = wire::success_fields(tag, encoded);
        if encoded == payload && received.response().version == RESPONSE_VERSION {
            assert(received.with_response(answer) == received);
        }
    }
}

/// What is done with the responses that carry no payload of another type: peers
/// are answered with an error of code 1 to the same request, errors and empty
/// successes are passed on as they came, and nothing else is passed on.
pub proof fn law_what_carries_no_payload(bytes: Seq<u8>, response: ResponseFields)
    requires
        parsed_envelope(bytes) matches Some(envelope) && envelope.response() == response,
        bytes.len() <= u32::MAX,
    ensures
        response.error_code != 0 ==> rewritten(bytes) == Ok::<Seq<u8>, ResponseRewriteError>(bytes),
        response.error_code == 0 && response.type_tag is None ==> rewritten(bytes) == if (
        response.payload.len() == 0) {
            Ok::<Seq<u8>, ResponseRewriteError>(bytes)
        } else {
            Err(ResponseRewriteError::MissingTypeTag)
        },
        response.error_code == 0 && response.type_tag is Some && response.type_tag->0 > 43
            ==> rewritten(bytes) == Err::<Seq<u8>, ResponseRewriteError>(
            ResponseRewriteError::UnknownTypeTag(response.type_tag->0),
        ),
        response.error_code == 0 && response.type_tag == Some(18u8) ==> ({
            let disabled = ResponseFields {
                version: 1,
                error_code: 1,
                type_tag: None,
                payload: Seq::empty(),
            };
            let sent = match parsed_envelope(bytes)->0 {
                EnvelopeView::WithRequest { request, .. } => wire::envelope_wire(
                    request,
                    wire::response_wire(disabled),
                ),
                EnvelopeView::Response { .. } => wire::response_wire(disabled),
            };
            rewritten(bytes) == Ok::<Seq<u8>, ResponseRewriteError>(sent)
        }),
{
    let envelope = parsed_envelope(bytes)->0;
    if response.error_code == 0 && response.type_tag == Some(18u8) {
        assert(ResponseType::Peers.tag() == 18);
        law_peers_are_disabled(envelope);
        let disabled = wire::error_fields(ErrorCode::FunctionDisabled);
        assert(wire::response_wire(disabled).len() <= wire::response_wire(response).len());
        assert(envelope.wire() == bytes);
    }
}

/// Bytes that go on after a response, with its request or alone, are not
/// passed on.
pub proof fn law_nothing_may_follow_a_response(envelope: EnvelopeView, rest: Seq<u8>)
    requires
        starts_as(envelope.wire() + rest, envelope, rest),
        rest.len() > 0,
    ensures
        rewritten(envelope.wire() + rest) == Err::<Seq<u8>, ResponseRewriteError>(
            ResponseRewriteError::Decode(casper_types::bytesrepr::Error::LeftOverBytes),
        ),
{
    let bytes = envelope.wire() + rest;
    let none = Seq::<u8>::empty();
    match envelope {
        EnvelopeView::WithRequest { request, response } => {
            assert(bytes =~= wire::envelope_wire(request, wire::response_wire(response)) + rest);
            assert(starts_with_envelope(bytes));
        },
        EnvelopeView::Response { response } => {
            assert(bytes =~= wire::response_wire(response) + rest);
            assert(starts_with_response(bytes));
        },
    }
    assert forall|other: EnvelopeView| !reads_as(bytes, other) by {
        if reads_as(bytes, other) {
            assert(bytes =~= other.wire() + none);
            match (envelope, other) {
                (
                    EnvelopeView::WithRequest { request: ra, response: fa },
                    EnvelopeView::WithRequest { request: rb, response: fb },
                ) => {
                    wire::lemma_envelope_prefix(ra, fa, rest, rb, fb, none);
                },
                (
                    EnvelopeView::Response { response: fa },
                    EnvelopeView::Response { response: fb },
                ) => {
                    wire::lemma_response_prefix(fa, rest, fb, none);
                },
                (
                    EnvelopeView::Response { .. },
                    EnvelopeView::WithRequest { request, response },
                ) => {
                    assert(bytes == wire::envelope_wire(request, wire::response_wire(response))
                        + none);
                },
                _ => {},
            }
        }
    }
}

/// Two node statuses that are the same without their peers are answered alike,
/// and what either is answered with reports no peers.
pub proof fn law_node_statuses_are_told_apart_by_no_peers(a: Seq<u8>, b: Seq<u8>)
    requires
        parsed_envelope(a) is Some,
        parsed_envelope(b) is Some,
        is_node_status(parsed_envelope(a)->0.response()),
        is_node_status(parsed_envelope(b)->0.response()),
        parsed_envelope(a)->0.same_request(parsed_envelope(b)->0),
        payload::node_status_recoded(parsed_envelope(a)->0.response().payload, no_peers())
            == payload::node_status_recoded(parsed_envelope(b)->0.response().payload, no_peers()),
    ensures
        rewritten(a) == rewritten(b),
{
    lemma_type_of(ResponseType::NodeStatus);
}

/// Whether a success response is answered with a payload that decoding and
/// encoding keep.
pub open spec fn settles(envelope: EnvelopeView) -> bool {
    let response = envelope.response();
    response.error_code == 0 && response.type_tag is Some ==> {
        let kind = type_of(response.type_tag->0);
        !(kind is Peers) ==> ({
            let payload = payload_outcome(recoded_payload(kind, response.payload));
            payload matches Ok(bytes) ==> payload_outcome(recoded_payload(kind, bytes)) == payload
        })
    }
}

/// The types whose payloads are checked but never change.
pub open spec fn is_plain(kind: ResponseType) -> bool {
    match kind {
        ResponseType::ApprovalsHashesV1 => true,
        ResponseType::ApprovalsHashes => true,
        ResponseType::WasmV1Result => true,
        ResponseType::HighestBlockSequenceCheckResult => true,
        ResponseType::LastProgress => true,
        ResponseType::ReactorState => true,
        ResponseType::NetworkName => true,
        ResponseType::AvailableBlockRange => true,
        ResponseType::Uptime => true,
        ResponseType::GetTrieFullResult => true,
        ResponseType::ProtocolVersion => true,
        ResponseType::NextUpgrade => true,
        ResponseType::ChainspecRawBytes => true,
        _ => false,
    }
}

/// A payload of a plain type is passed on as it came, or not at all.
pub proof fn law_plain_payloads_never_change(kind: ResponseType, payload: Seq<u8>)
    requires
        is_plain(kind),
    ensures
        payload_outcome(recoded_payload(kind, payload)) matches Ok(bytes) ==> bytes == payload,
{
    assert(payload.take(payload.len() as int) =~= payload);
}

/// Rewriting what was passed on changes nothing, where decoding and encoding
/// keep the payload that they once gave.
pub proof fn law_rewriting_twice_is_rewriting_once(bytes: Seq<u8>)
    requires
        rewritten(bytes) is Ok,
        parsed_envelope(bytes) matches Some(envelope) && settles(envelope) && (envelope
            is WithRequest || !starts_with_envelope(rewritten(bytes)->Ok_0)),
    ensures
        rewritten(rewritten(bytes)->Ok_0) == rewritten(bytes),
{
    let envelope = parsed_envelope(bytes)->0;
    let sent = rewritten(bytes)->Ok_0;
    law_peers_are_never_passed_on(bytes);
    lemma_parsed(sent, passed_on(envelope)->0);
    if envelope.response().error_code == 0 && envelope.response().type_tag is Some {
        let kind = type_of(envelope.response().type_tag->0);
        lemma_known_tag(envelope.response().type_tag->0);
        lemma_type_of(kind);
        if !(kind is Peers) {
            law_other_payloads_pass_unchanged(sent, kind);
        } else {
            law_errors_pass_unchanged(sent);
        }
    }
}

/// Rewriting what was passed on changes nothing, for errors, for empty
/// responses, for peers and for the types whose payloads never change.
pub proof fn law_plain_responses_are_rewritten_once(bytes: Seq<u8>)
    requires
        rewritten(bytes) is Ok,
        parsed_envelope(bytes) matches Some(envelope) && (envelope.response().error_code != 0
            || envelope.response().type_tag is None || type_of(envelope.response().type_tag->0)
            is Peers || is_plain(type_of(envelope.response().type_tag->0))) && (envelope
            is WithRequest || !starts_with_envelope(rewritten(bytes)->Ok_0)),
    ensures
        rewritten(rewritten(bytes)->Ok_0) == rewritten(bytes),
{
    let response = parsed_envelope(bytes)->0.response();
    if response.error_code == 0 && response.type_tag is Some {
        let kind = type_of(response.type_tag->0);
        if is_plain(kind) {
            law_plain_payloads_never_change(kind, response.payload);
        }
    }
    law_rewriting_twice_is_rewriting_once(bytes);
}

/// What the log says of a response.
#[derive(Debug)]
pub struct ResponseSummary {
    pub success: bool,
    pub error_code: u16,
    pub payload_type: Option<u8>,
    pub payload_len: usize,
    /// The length of the attached request, where one is.
    pub request_len: Option<usize>,
    /// How many bytes follow the response.
    pub trailing: usize,
}

impl ResponseSummary {
    /// Whether the summary is that of an envelope with bytes behind it.
    pub open spec fn describes(self, envelope: EnvelopeView, trailing: nat) -> bool {
        &&& self.success == (envelope.response().error_code == 0)
        &&& self.error_code == envelope.response().error_code
        &&& self.payload_type == envelope.response().type_tag
        &&& self.payload_len == envelope.response().payload.len()
        &&& self.request_len is Some <==> envelope is WithRequest
        &&& self.request_len is Some ==> self.request_len->0
            == envelope->WithRequest_request.len()
        &&& self.trailing == trailing
    }
}

/// Whether an envelope stands at the start of `bytes`. One with a request goes
/// before one without.
pub open spec fn starts_as(bytes: Seq<u8>, envelope: EnvelopeView, rest: Seq<u8>) -> bool {
    &&& envelope.fits()
    &&& bytes == envelope.wire() + rest
    &&& envelope is Response ==> !starts_with_envelope(bytes)
}

/// Summarizes a response for the log, and says why it cannot be read.
pub fn log_binary_response(response: &[u8]) -> (r: Result<ResponseSummary, ResponseRewriteError>)
    ensures
        match r {
            Ok(summary) => exists|envelope: EnvelopeView, rest: Seq<u8>| #[trigger]
                starts_as(response@, envelope, rest) && summary.describes(envelope, rest.len()),
            Err(err) => !starts_with_envelope(response@) && !starts_with_response(response@)
                && err == ResponseRewriteError::Decode(wire::response_decode_error(response@)),
        },
{
    let total = response.len();
    match decode_response_and_request(response) {
        Ok((request, parts, rest)) => {
            let summary = ResponseSummary {
                success: parts.error_code == 0,
                error_code: parts.error_code,
                payload_type: parts.type_tag,
                payload_len: parts.payload.len(),
                request_len: Some(request.len()),
                trailing: rest,
            };
            proof {
                let start = 4 + request@.len() as int;
                let fields = parts.fields(wire::version_of(response@.skip(start)));
                let envelope = EnvelopeView::WithRequest { request: request@, response: fields };
                let tail = response@.skip(total - rest);
                assert(response@ =~= envelope.wire() + tail);
                assert(starts_as(response@, envelope, tail));
                assert(summary.describes(envelope, tail.len()));
            }
            Ok(summary)
        },
        Err(_) => {
            assert(!starts_with_envelope(response@));
            match decode_response(response) {
                Ok((parts, rest)) => {
                    let summary = ResponseSummary {
                        success: parts.error_code == 0,
                        error_code: parts.error_code,
                        payload_type: parts.type_tag,
                        payload_len: parts.payload.len(),
                        request_len: None,
                        trailing: rest,
                    };
                    proof {
                        let fields = parts.fields(wire::version_of(response@));
                        let envelope = EnvelopeView::Response { response: fields };
                        let tail = response@.skip(total - rest);
                        assert(response@ =~= envelope.wire() + tail);
                        assert(starts_as(response@, envelope, tail));
                        assert(summary.describes(envelope, tail.len()));
                    }
                    Ok(summary)
                },
                Err(err) => {
                    assert(!starts_with_response(response@));
                    Err(ResponseRewriteError::Decode(err))
                },
            }
        },
    }
}

/// Every error has a text that says what went wrong.
pub proof fn law_rewrite_error_texts(err: casper_types::bytesrepr::Error, tag: u8)
    ensures
        ResponseRewriteError::Decode(err).text() == "decode error: "@ + wire::codec_text(err),
        ResponseRewriteError::Encode(err).text() == "encode error: "@ + wire::codec_text(err),
        ResponseRewriteError::UnknownTypeTag(tag).text() == "unknown response type tag: "@
            + text::decimal(tag as nat),
        ResponseRewriteError::MissingTypeTag.text()
            == "missing response type tag for success response"@,
{
}

/// Bytes at whose start no response stands, with a request or without, are not
/// passed on, and the error is the one with which reading them failed.
pub proof fn law_what_is_no_response_is_not_passed_on(bytes: Seq<u8>)
    requires
        !starts_with_envelope(bytes),
        !starts_with_response(bytes),
    ensures
        rewritten(bytes) == Err::<Seq<u8>, ResponseRewriteError>(
            ResponseRewriteError::Decode(wire::response_decode_error(bytes)),
        ),
{
    let none = Seq::<u8>::empty();
    assert forall|envelope: EnvelopeView| !reads_as(bytes, envelope) by {
        if reads_as(bytes, envelope) {
            lemma_only_response(bytes, envelope);
            let response = envelope->Response_response;
            assert(bytes =~= wire::response_wire(response) + none);
        }
    }
}

/// A summary calls a response a success exactly where its error code is zero,
/// and tells its code, the type and the length of its payload, the length of the
/// attached request and how many bytes follow.
pub proof fn law_summaries_tell_what_came(
    summary: ResponseSummary,
    envelope: EnvelopeView,
    trailing: nat,
)
    requires
        summary.describes(envelope, trailing),
    ensures
        summary.success <==> envelope.response().error_code == 0,
        summary.error_code == envelope.response().error_code,
        summary.payload_type == envelope.response().type_tag,
        summary.payload_len == envelope.response().payload.len(),
        envelope is Response ==> summary.request_len is None,
        envelope is WithRequest ==> summary.request_len is Some && summary.request_len->0
            == envelope->WithRequest_request.len(),
        summary.trailing == trailing,
{
}

} // verus!
