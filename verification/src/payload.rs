//! Payload codecs: each decodes a payload as a value of one type and encodes
//! that value again.

use casper_types::bytesrepr::{FromBytes, ToBytes};
use vstd::prelude::*;
use vstd::utf8::valid_utf8;

use crate::calltable;

verus! {

/// What decoding a payload and encoding its value again gives.
#[derive(Debug)]
pub enum Recoded {
    /// No value stands at the start of the payload.
    Undecodable(casper_types::bytesrepr::Error),
    /// A value stands there, `rest` bytes follow it, and it encodes as given.
    Decoded { rest: usize, encoded: Result<Vec<u8>, casper_types::bytesrepr::Error> },
}

/// The view of [`Recoded`].
pub enum RecodedView {
    Undecodable(casper_types::bytesrepr::Error),
    Decoded { rest: nat, encoded: Result<Seq<u8>, casper_types::bytesrepr::Error> },
}

impl View for Recoded {
    type V = RecodedView;

    open spec fn view(&self) -> RecodedView {
        match self {
            Recoded::Undecodable(err) => RecodedView::Undecodable(*err),
            Recoded::Decoded { rest, encoded } => RecodedView::Decoded {
                rest: *rest as nat,
                encoded: match encoded {
                    Ok(bytes) => Ok(bytes@),
                    Err(err) => Err(*err),
                },
            },
        }
    }
}

/// A value of `len` bytes, each of which it keeps.
pub open spec fn fixed_recoded(len: nat, payload: Seq<u8>) -> RecodedView {
    if payload.len() < len {
        RecodedView::Undecodable(casper_types::bytesrepr::Error::EarlyEndOfStream)
    } else {
        RecodedView::Decoded {
            rest: (payload.len() - len) as nat,
            encoded: Ok(payload.take(len as int)),
        }
    }
}

/// The length at the start of a byte string.
pub open spec fn length_prefix(payload: Seq<u8>) -> int {
    payload[0] + 256 * payload[1] + 65536 * payload[2] + 16777216 * payload[3]
}

/// A text with its length in front, which it keeps.
pub open spec fn text_recoded(payload: Seq<u8>) -> RecodedView {
    let end = 4 + length_prefix(payload);
    if payload.len() < 4 || payload.len() < end {
        RecodedView::Undecodable(casper_types::bytesrepr::Error::EarlyEndOfStream)
    } else if !valid_utf8(payload.subrange(4, end)) {
        RecodedView::Undecodable(casper_types::bytesrepr::Error::Formatting)
    } else {
        RecodedView::Decoded {
            rest: (payload.len() - end) as nat,
            encoded: Ok(payload.take(end)),
        }
    }
}

/// `from_bytes`, then `to_bytes`, of `casper_binary_port::LastProgress`:
/// a timestamp of eight bytes.
#[verifier::external_body]
pub(crate) fn recode_last_progress(payload: &[u8]) -> (r: Recoded)
    ensures
        r@ == fixed_recoded(8, payload@),
{
    match casper_binary_port::LastProgress::from_bytes(payload) {
        Ok((value, rest)) => Recoded::Decoded { rest: rest.len(), encoded: value.to_bytes() },
        Err(err) => Recoded::Undecodable(err),
    }
}

/// `from_bytes`, then `to_bytes`, of `casper_types::AvailableBlockRange`:
/// two heights of eight bytes.
#[verifier::external_body]
pub(crate) fn recode_available_block_range(payload: &[u8]) -> (r: Recoded)
    ensures
        r@ == fixed_recoded(16, payload@),
{
    match casper_types::AvailableBlockRange::from_bytes(payload) {
        Ok((value, rest)) => Recoded::Decoded { rest: rest.len(), encoded: value.to_bytes() },
        Err(err) => Recoded::Undecodable(err),
    }
}

/// `from_bytes`, then `to_bytes`, of `casper_binary_port::Uptime`:
/// a number of eight bytes.
#[verifier::external_body]
pub(crate) fn recode_uptime(payload: &[u8]) -> (r: Recoded)
    ensures
        r@ == fixed_recoded(8, payload@),
{
    match casper_binary_port::Uptime::from_bytes(payload) {
        Ok((value, rest)) => Recoded::Decoded { rest: rest.len(), encoded: value.to_bytes() },
        Err(err) => Recoded::Undecodable(err),
    }
}

/// `from_bytes`, then `to_bytes`, of `casper_types::ProtocolVersion`:
/// three numbers of four bytes.
#[verifier::external_body]
pub(crate) fn recode_protocol_version(payload: &[u8]) -> (r: Recoded)
    ensures
        r@ == fixed_recoded(12, payload@),
{
    match casper_types::ProtocolVersion::from_bytes(payload) {
        Ok((value, rest)) => Recoded::Decoded { rest: rest.len(), encoded: value.to_bytes() },
        Err(err) => Recoded::Undecodable(err),
    }
}

/// `from_bytes`, then `to_bytes`, of `casper_binary_port::ReactorStateName`:
/// a text with its length in front.
#[verifier::external_body]
pub(crate) fn recode_reactor_state(payload: &[u8]) -> (r: Recoded)
    ensures
        r@ == text_recoded(payload@),
{
    match casper_binary_port::ReactorStateName::from_bytes(payload) {
        Ok((value, rest)) => Recoded::Decoded { rest: rest.len(), encoded: value.to_bytes() },
        Err(err) => Recoded::Undecodable(err),
    }
}

/// `from_bytes`, then `to_bytes`, of `casper_binary_port::NetworkName`:
/// a text with its length in front.
#[verifier::external_body]
pub(crate) fn recode_network_name(payload: &[u8]) -> (r: Recoded)
    ensures
        r@ == text_recoded(payload@),
{
    match casper_binary_port::NetworkName::from_bytes(payload) {
        Ok((value, rest)) => Recoded::Decoded { rest: rest.len(), encoded: value.to_bytes() },
        Err(err) => Recoded::Undecodable(err),
    }
}

/// What `casper_types::BlockHeaderV1`
/// makes of a payload.
pub uninterp spec fn block_header_v1_recoded(payload: Seq<u8>) -> RecodedView;

/// `from_bytes`, then `to_bytes`, of
/// `casper_types::BlockHeaderV1`, named.
#[verifier::external_body]
pub(crate) fn recode_block_header_v1(payload: &[u8]) -> (r: Recoded)
    ensures
        r@ == block_header_v1_recoded(payload@),
{
    match casper_types::BlockHeaderV1::from_bytes(payload) {
        Ok((value, rest)) => Recoded::Decoded { rest: rest.len(), encoded: value.to_bytes() },
        Err(err) => Recoded::Undecodable(err),
    }
}

/// What `casper_types::BlockHeader`
/// makes of a payload.
pub uninterp spec fn block_header_recoded(payload: Seq<u8>) -> RecodedView;

/// `from_bytes`, then `to_bytes`, of
/// `casper_types::BlockHeader`, named.
#[verifier::external_body]
pub(crate) fn recode_block_header(payload: &[u8]) -> (r: Recoded)
    ensures
        r@ == block_header_recoded(payload@),
{
    match casper_types::BlockHeader::from_bytes(payload) {
        Ok((value, rest)) => Recoded::Decoded { rest: rest.len(), encoded: value.to_bytes() },
        Err(err) => Recoded::Undecodable(err),
    }
}

/// What `casper_types::BlockBodyV1`
/// makes of a payload.
pub uninterp spec fn block_body_v1_recoded(payload: Seq<u8>) -> RecodedView;

/// `from_bytes`, then `to_bytes`, of
/// `casper_types::BlockBodyV1`, named.
#[verifier::external_body]
pub(crate) fn recode_block_body_v1(payload: &[u8]) -> (r: Recoded)
    ensures
        r@ == block_body_v1_recoded(payload@),
{
    match casper_types::BlockBodyV1::from_bytes(payload) {
        Ok((value, rest)) => Recoded::Decoded { rest: rest.len(), encoded: value.to_bytes() },
        Err(err) => Recoded::Undecodable(err),
    }
}

/// What `casper_types::BlockBody`
/// makes of a payload.
pub uninterp spec fn block_body_recoded(payload: Seq<u8>) -> RecodedView;

/// `from_bytes`, then `to_bytes`, of
/// `casper_types::BlockBody`, named.
#[verifier::external_body]
pub(crate) fn recode_block_body(payload: &[u8]) -> (r: Recoded)
    ensures
        r@ == block_body_recoded(payload@),
{
    match casper_types::BlockBody::from_bytes(payload) {
        Ok((value, rest)) => Recoded::Decoded { rest: rest.len(), encoded: value.to_bytes() },
        Err(err) => Recoded::Undecodable(err),
    }
}

/// What `casper_types::BlockSignaturesV1`
/// makes of a payload.
pub uninterp spec fn block_signatures_v1_recoded(payload: Seq<u8>) -> RecodedView;

/// `from_bytes`, then `to_bytes`, of
/// `casper_types::BlockSignaturesV1`, named.
#[verifier::external_body]
pub(crate) fn recode_block_signatures_v1(payload: &[u8]) -> (r: Recoded)
    ensures
        r@ == block_signatures_v1_recoded(payload@),
{
    match casper_types::BlockSignaturesV1::from_bytes(payload) {
        Ok((value, rest)) => Recoded::Decoded { rest: rest.len(), encoded: value.to_bytes() },
        Err(err) => Recoded::Undecodable(err),
    }
}

/// What `casper_types::BlockSignatures`
/// makes of a payload.
pub uninterp spec fn block_signatures_recoded(payload: Seq<u8>) -> RecodedView;

/// `from_bytes`, then `to_bytes`, of
/// `casper_types::BlockSignatures`, named.
#[verifier::external_body]
pub(crate) fn recode_block_signatures(payload: &[u8]) -> (r: Recoded)
    ensures
        r@ == block_signatures_recoded(payload@),
{
    match casper_types::BlockSignatures::from_bytes(payload) {
        Ok((value, rest)) => Recoded::Decoded { rest: rest.len(), encoded: value.to_bytes() },
        Err(err) => Recoded::Undecodable(err),
    }
}

/// What `casper_types::Deploy`
/// makes of a payload.
pub uninterp spec fn deploy_recoded(payload: Seq<u8>) -> RecodedView;

/// `from_bytes`, then `to_bytes`, of
/// `casper_types::Deploy`, named.
#[verifier::external_body]
pub(crate) fn recode_deploy(payload: &[u8]) -> (r: Recoded)
    ensures
        r@ == deploy_recoded(payload@),
{
    match casper_types::Deploy::from_bytes(payload) {
        Ok((value, rest)) => Recoded::Decoded { rest: rest.len(), encoded: value.to_bytes() },
        Err(err) => Recoded::Undecodable(err),
    }
}

/// What `casper_types::Transaction`
/// makes of a payload.
pub uninterp spec fn transaction_recoded(payload: Seq<u8>) -> RecodedView;

/// `from_bytes`, then `to_bytes`, of
/// `casper_types::Transaction`, named. The decoder subtracts
/// offsets without a check, so those that fall are left out.
#[verifier::external_body]
pub(crate) fn recode_transaction(payload: &[u8]) -> (r: Recoded)
    requires
        calltable::offsets_ascend(payload@),
    ensures
        r@ == transaction_recoded(payload@),
{
    match casper_types::Transaction::from_bytes(payload) {
        Ok((value, rest)) => Recoded::Decoded { rest: rest.len(), encoded: value.to_bytes() },
        Err(err) => Recoded::Undecodable(err),
    }
}

/// What `casper_types::execution::ExecutionResultV1`
/// makes of a payload.
pub uninterp spec fn execution_result_v1_recoded(payload: Seq<u8>) -> RecodedView;

/// `from_bytes`, then `to_bytes`, of
/// `casper_types::execution::ExecutionResultV1`, named.
#[verifier::external_body]
pub(crate) fn recode_execution_result_v1(payload: &[u8]) -> (r: Recoded)
    ensures
        r@ == execution_result_v1_recoded(payload@),
{
    match casper_types::execution::ExecutionResultV1::from_bytes(payload) {
        Ok((value, rest)) => Recoded::Decoded { rest: rest.len(), encoded: value.to_bytes() },
        Err(err) => Recoded::Undecodable(err),
    }
}

/// What `casper_types::execution::ExecutionResult`
/// makes of a payload.
pub uninterp spec fn execution_result_recoded(payload: Seq<u8>) -> RecodedView;

/// `from_bytes`, then `to_bytes`, of
/// `casper_types::execution::ExecutionResult`, named.
#[verifier::external_body]
pub(crate) fn recode_execution_result(payload: &[u8]) -> (r: Recoded)
    ensures
        r@ == execution_result_recoded(payload@),
{
    match casper_types::execution::ExecutionResult::from_bytes(payload) {
        Ok((value, rest)) => Recoded::Decoded { rest: rest.len(), encoded: value.to_bytes() },
        Err(err) => Recoded::Undecodable(err),
    }
}

/// What `Vec<casper_types::Transfer>`
/// makes of a payload.
pub uninterp spec fn transfers_recoded(payload: Seq<u8>) -> RecodedView;

/// `from_bytes`, then `to_bytes`, of
/// `Vec<casper_types::Transfer>`, named.
#[verifier::external_body]
pub(crate) fn recode_transfers(payload: &[u8]) -> (r: Recoded)
    ensures
        r@ == transfers_recoded(payload@),
{
    match <Vec<casper_types::Transfer>>::from_bytes(payload) {
        Ok((value, rest)) => Recoded::Decoded { rest: rest.len(), encoded: value.to_bytes() },
        Err(err) => Recoded::Undecodable(err),
    }
}

/// What `Vec<casper_types::Approval>`
/// makes of a payload.
pub uninterp spec fn approvals_recoded(payload: Seq<u8>) -> RecodedView;

/// `from_bytes`, then `to_bytes`, of
/// `Vec<casper_types::Approval>`, named.
#[verifier::external_body]
pub(crate) fn recode_approvals(payload: &[u8]) -> (r: Recoded)
    ensures
        r@ == approvals_recoded(payload@),
{
    match <Vec<casper_types::Approval>>::from_bytes(payload) {
        Ok((value, rest)) => Recoded::Decoded { rest: rest.len(), encoded: value.to_bytes() },
        Err(err) => Recoded::Undecodable(err),
    }
}

/// What `casper_types::BlockWithSignatures`
/// makes of a payload.
pub uninterp spec fn block_with_signatures_recoded(payload: Seq<u8>) -> RecodedView;

/// `from_bytes`, then `to_bytes`, of
/// `casper_types::BlockWithSignatures`, named.
#[verifier::external_body]
pub(crate) fn recode_block_with_signatures(payload: &[u8]) -> (r: Recoded)
    ensures
        r@ == block_with_signatures_recoded(payload@),
{
    match casper_types::BlockWithSignatures::from_bytes(payload) {
        Ok((value, rest)) => Recoded::Decoded { rest: rest.len(), encoded: value.to_bytes() },
        Err(err) => Recoded::Undecodable(err),
    }
}

/// What `casper_binary_port::TransactionWithExecutionInfo`
/// makes of a payload.
pub uninterp spec fn transaction_with_execution_info_recoded(payload: Seq<u8>) -> RecodedView;

/// `from_bytes`, then `to_bytes`, of
/// `casper_binary_port::TransactionWithExecutionInfo`, named. The decoder subtracts
/// offsets without a check, so those that fall are left out.
#[verifier::external_body]
pub(crate) fn recode_transaction_with_execution_info(payload: &[u8]) -> (r: Recoded)
    requires
        calltable::offsets_ascend(payload@),
    ensures
        r@ == transaction_with_execution_info_recoded(payload@),
{
    match casper_binary_port::TransactionWithExecutionInfo::from_bytes(payload) {
        Ok((value, rest)) => Recoded::Decoded { rest: rest.len(), encoded: value.to_bytes() },
        Err(err) => Recoded::Undecodable(err),
    }
}

/// What `casper_binary_port::ConsensusValidatorChanges`
/// makes of a payload.
pub uninterp spec fn consensus_validator_changes_recoded(payload: Seq<u8>) -> RecodedView;

/// `from_bytes`, then `to_bytes`, of
/// `casper_binary_port::ConsensusValidatorChanges`, named.
#[verifier::external_body]
pub(crate) fn recode_consensus_validator_changes(payload: &[u8]) -> (r: Recoded)
    ensures
        r@ == consensus_validator_changes_recoded(payload@),
{
    match casper_binary_port::ConsensusValidatorChanges::from_bytes(payload) {
        Ok((value, rest)) => Recoded::Decoded { rest: rest.len(), encoded: value.to_bytes() },
        Err(err) => Recoded::Undecodable(err),
    }
}

/// What `casper_types::BlockSynchronizerStatus`
/// makes of a payload.
pub uninterp spec fn block_synchronizer_status_recoded(payload: Seq<u8>) -> RecodedView;

/// `from_bytes`, then `to_bytes`, of
/// `casper_types::BlockSynchronizerStatus`, named.
#[verifier::external_body]
pub(crate) fn recode_block_synchronizer_status(payload: &[u8]) -> (r: Recoded)
    ensures
        r@ == block_synchronizer_status_recoded(payload@),
{
    match casper_types::BlockSynchronizerStatus::from_bytes(payload) {
        Ok((value, rest)) => Recoded::Decoded { rest: rest.len(), encoded: value.to_bytes() },
        Err(err) => Recoded::Undecodable(err),
    }
}

/// `from_bytes`, then `to_bytes`, of `casper_types::NextUpgrade`: an activation
/// point of nine bytes, whose first says which it is, and a version of twelve.
#[verifier::external_body]
pub(crate) fn recode_next_upgrade(payload: &[u8]) -> (r: Recoded)
    ensures
        r@ == upgrade_recoded(payload@),
{
    match casper_types::NextUpgrade::from_bytes(payload) {
        Ok((value, rest)) => Recoded::Decoded { rest: rest.len(), encoded: value.to_bytes() },
        Err(err) => Recoded::Undecodable(err),
    }
}

/// What `casper_binary_port::ConsensusStatus`
/// makes of a payload.
pub uninterp spec fn consensus_status_recoded(payload: Seq<u8>) -> RecodedView;

/// `from_bytes`, then `to_bytes`, of
/// `casper_binary_port::ConsensusStatus`, named.
#[verifier::external_body]
pub(crate) fn recode_consensus_status(payload: &[u8]) -> (r: Recoded)
    ensures
        r@ == consensus_status_recoded(payload@),
{
    match casper_binary_port::ConsensusStatus::from_bytes(payload) {
        Ok((value, rest)) => Recoded::Decoded { rest: rest.len(), encoded: value.to_bytes() },
        Err(err) => Recoded::Undecodable(err),
    }
}

/// `from_bytes`, then `to_bytes`, of `casper_types::ChainspecRawBytes`: a byte
/// string and two optional ones.
#[verifier::external_body]
pub(crate) fn recode_chainspec_raw_bytes(payload: &[u8]) -> (r: Recoded)
    ensures
        r@ == chainspec_recoded(payload@),
{
    match casper_types::ChainspecRawBytes::from_bytes(payload) {
        Ok((value, rest)) => Recoded::Decoded { rest: rest.len(), encoded: value.to_bytes() },
        Err(err) => Recoded::Undecodable(err),
    }
}

/// What `casper_binary_port::SpeculativeExecutionResult`
/// makes of a payload.
pub uninterp spec fn speculative_execution_result_recoded(payload: Seq<u8>) -> RecodedView;

/// `from_bytes`, then `to_bytes`, of
/// `casper_binary_port::SpeculativeExecutionResult`, named.
#[verifier::external_body]
pub(crate) fn recode_speculative_execution_result(payload: &[u8]) -> (r: Recoded)
    ensures
        r@ == speculative_execution_result_recoded(payload@),
{
    match casper_binary_port::SpeculativeExecutionResult::from_bytes(payload) {
        Ok((value, rest)) => Recoded::Decoded { rest: rest.len(), encoded: value.to_bytes() },
        Err(err) => Recoded::Undecodable(err),
    }
}

/// What `casper_binary_port::GlobalStateQueryResult`
/// makes of a payload.
pub uninterp spec fn global_state_query_result_recoded(payload: Seq<u8>) -> RecodedView;

/// `from_bytes`, then `to_bytes`, of
/// `casper_binary_port::GlobalStateQueryResult`, named.
#[verifier::external_body]
pub(crate) fn recode_global_state_query_result(payload: &[u8]) -> (r: Recoded)
    ensures
        r@ == global_state_query_result_recoded(payload@),
{
    match casper_binary_port::GlobalStateQueryResult::from_bytes(payload) {
        Ok((value, rest)) => Recoded::Decoded { rest: rest.len(), encoded: value.to_bytes() },
        Err(err) => Recoded::Undecodable(err),
    }
}

/// What `Vec<casper_types::StoredValue>`
/// makes of a payload.
pub uninterp spec fn stored_values_recoded(payload: Seq<u8>) -> RecodedView;

/// `from_bytes`, then `to_bytes`, of
/// `Vec<casper_types::StoredValue>`, named.
#[verifier::external_body]
pub(crate) fn recode_stored_values(payload: &[u8]) -> (r: Recoded)
    ensures
        r@ == stored_values_recoded(payload@),
{
    match <Vec<casper_types::StoredValue>>::from_bytes(payload) {
        Ok((value, rest)) => Recoded::Decoded { rest: rest.len(), encoded: value.to_bytes() },
        Err(err) => Recoded::Undecodable(err),
    }
}

/// Where an optional byte string that starts at a position ends.
pub open spec fn optional_end(payload: Seq<u8>, at: int) -> Result<
    int,
    casper_types::bytesrepr::Error,
> {
    if payload.len() <= at {
        Err(casper_types::bytesrepr::Error::EarlyEndOfStream)
    } else if payload[at] == 0 {
        Ok(at + 1)
    } else if payload[at] != 1 {
        Err(casper_types::bytesrepr::Error::Formatting)
    } else if payload.len() < at + 5 || payload.len() < at + 5 + length_prefix(
        payload.skip(at + 1),
    ) {
        Err(casper_types::bytesrepr::Error::EarlyEndOfStream)
    } else {
        Ok(at + 5 + length_prefix(payload.skip(at + 1)))
    }
}

/// A value that ends at a position, where it was decoded, and keeps its bytes
/// where they are not too many.
pub open spec fn kept_to(
    payload: Seq<u8>,
    end: Result<int, casper_types::bytesrepr::Error>,
) -> RecodedView {
    match end {
        Err(err) => RecodedView::Undecodable(err),
        Ok(end) => RecodedView::Decoded {
            rest: (payload.len() - end) as nat,
            encoded: if end <= u32::MAX {
                Ok(payload.take(end))
            } else {
                Err(casper_types::bytesrepr::Error::OutOfMemory)
            },
        },
    }
}

/// An optional byte string, which it keeps.
pub open spec fn optional_bytes_recoded(payload: Seq<u8>) -> RecodedView {
    kept_to(payload, optional_end(payload, 0))
}

/// A byte string and two optional ones, which it keeps.
pub open spec fn chainspec_recoded(payload: Seq<u8>) -> RecodedView {
    let first = 4 + length_prefix(payload);
    if payload.len() < 4 || payload.len() < first {
        RecodedView::Undecodable(casper_types::bytesrepr::Error::EarlyEndOfStream)
    } else {
        kept_to(
            payload,
            match optional_end(payload, first) {
                Ok(second) => optional_end(payload, second),
                Err(err) => Err(err),
            },
        )
    }
}

/// A point in time, which is an era or a timestamp, and a version, which it
/// keeps.
pub open spec fn upgrade_recoded(payload: Seq<u8>) -> RecodedView {
    if payload.len() > 0 && payload[0] > 1 {
        RecodedView::Undecodable(casper_types::bytesrepr::Error::Formatting)
    } else {
        fixed_recoded(21, payload)
    }
}

/// A payload that decoding and encoding keep whole.
pub open spec fn kept(payload: Seq<u8>) -> RecodedView {
    RecodedView::Decoded { rest: 0, encoded: Ok(payload) }
}

/// `from_bytes`, then `to_bytes`, of `casper_binary_port::GetTrieFullResult`:
/// an optional byte string.
#[verifier::external_body]
pub(crate) fn recode_get_trie_full_result(payload: &[u8]) -> (r: Recoded)
    ensures
        r@ == optional_bytes_recoded(payload@),
{
    match casper_binary_port::GetTrieFullResult::from_bytes(payload) {
        Ok((value, rest)) => Recoded::Decoded { rest: rest.len(), encoded: value.to_bytes() },
        Err(err) => Recoded::Undecodable(err),
    }
}

/// What `casper_binary_port::DictionaryQueryResult`
/// makes of a payload.
pub uninterp spec fn dictionary_query_result_recoded(payload: Seq<u8>) -> RecodedView;

/// `from_bytes`, then `to_bytes`, of
/// `casper_binary_port::DictionaryQueryResult`, named.
#[verifier::external_body]
pub(crate) fn recode_dictionary_query_result(payload: &[u8]) -> (r: Recoded)
    ensures
        r@ == dictionary_query_result_recoded(payload@),
{
    match casper_binary_port::DictionaryQueryResult::from_bytes(payload) {
        Ok((value, rest)) => Recoded::Decoded { rest: rest.len(), encoded: value.to_bytes() },
        Err(err) => Recoded::Undecodable(err),
    }
}

/// What `casper_binary_port::BalanceResponse`
/// makes of a payload.
pub uninterp spec fn balance_response_recoded(payload: Seq<u8>) -> RecodedView;

/// `from_bytes`, then `to_bytes`, of
/// `casper_binary_port::BalanceResponse`, named.
#[verifier::external_body]
pub(crate) fn recode_balance_response(payload: &[u8]) -> (r: Recoded)
    ensures
        r@ == balance_response_recoded(payload@),
{
    match casper_binary_port::BalanceResponse::from_bytes(payload) {
        Ok((value, rest)) => Recoded::Decoded { rest: rest.len(), encoded: value.to_bytes() },
        Err(err) => Recoded::Undecodable(err),
    }
}

/// What `casper_binary_port::RewardResponse`
/// makes of a payload.
pub uninterp spec fn reward_response_recoded(payload: Seq<u8>) -> RecodedView;

/// `from_bytes`, then `to_bytes`, of
/// `casper_binary_port::RewardResponse`, named.
#[verifier::external_body]
pub(crate) fn recode_reward_response(payload: &[u8]) -> (r: Recoded)
    ensures
        r@ == reward_response_recoded(payload@),
{
    match casper_binary_port::RewardResponse::from_bytes(payload) {
        Ok((value, rest)) => Recoded::Decoded { rest: rest.len(), encoded: value.to_bytes() },
        Err(err) => Recoded::Undecodable(err),
    }
}

/// What `casper_binary_port::ValueWithProof<casper_types::contracts::ContractPackage>`
/// makes of a payload.
pub uninterp spec fn contract_package_with_proof_recoded(payload: Seq<u8>) -> RecodedView;

/// `from_bytes`, then `to_bytes`, of
/// `casper_binary_port::ValueWithProof<casper_types::contracts::ContractPackage>`, named.
#[verifier::external_body]
pub(crate) fn recode_contract_package_with_proof(payload: &[u8]) -> (r: Recoded)
    ensures
        r@ == contract_package_with_proof_recoded(payload@),
{
    match <casper_binary_port::ValueWithProof<
        casper_types::contracts::ContractPackage,
    >>::from_bytes(payload) {
        Ok((value, rest)) => Recoded::Decoded { rest: rest.len(), encoded: value.to_bytes() },
        Err(err) => Recoded::Undecodable(err),
    }
}

/// What `casper_binary_port::ContractInformation`
/// makes of a payload.
pub uninterp spec fn contract_information_recoded(payload: Seq<u8>) -> RecodedView;

/// `from_bytes`, then `to_bytes`, of
/// `casper_binary_port::ContractInformation`, named.
#[verifier::external_body]
pub(crate) fn recode_contract_information(payload: &[u8]) -> (r: Recoded)
    ensures
        r@ == contract_information_recoded(payload@),
{
    match casper_binary_port::ContractInformation::from_bytes(payload) {
        Ok((value, rest)) => Recoded::Decoded { rest: rest.len(), encoded: value.to_bytes() },
        Err(err) => Recoded::Undecodable(err),
    }
}

/// What `casper_binary_port::AccountInformation`
/// makes of a payload.
pub uninterp spec fn account_information_recoded(payload: Seq<u8>) -> RecodedView;

/// `from_bytes`, then `to_bytes`, of
/// `casper_binary_port::AccountInformation`, named.
#[verifier::external_body]
pub(crate) fn recode_account_information(payload: &[u8]) -> (r: Recoded)
    ensures
        r@ == account_information_recoded(payload@),
{
    match casper_binary_port::AccountInformation::from_bytes(payload) {
        Ok((value, rest)) => Recoded::Decoded { rest: rest.len(), encoded: value.to_bytes() },
        Err(err) => Recoded::Undecodable(err),
    }
}

/// What `casper_binary_port::ValueWithProof<casper_types::Package>`
/// makes of a payload.
pub uninterp spec fn package_with_proof_recoded(payload: Seq<u8>) -> RecodedView;

/// `from_bytes`, then `to_bytes`, of
/// `casper_binary_port::ValueWithProof<casper_types::Package>`, named.
#[verifier::external_body]
pub(crate) fn recode_package_with_proof(payload: &[u8]) -> (r: Recoded)
    ensures
        r@ == package_with_proof_recoded(payload@),
{
    match <casper_binary_port::ValueWithProof<casper_types::Package>>::from_bytes(payload) {
        Ok((value, rest)) => Recoded::Decoded { rest: rest.len(), encoded: value.to_bytes() },
        Err(err) => Recoded::Undecodable(err),
    }
}

/// What `casper_binary_port::AddressableEntityInformation`
/// makes of a payload.
pub uninterp spec fn addressable_entity_information_recoded(payload: Seq<u8>) -> RecodedView;

/// `from_bytes`, then `to_bytes`, of
/// `casper_binary_port::AddressableEntityInformation`, named.
#[verifier::external_body]
pub(crate) fn recode_addressable_entity_information(payload: &[u8]) -> (r: Recoded)
    ensures
        r@ == addressable_entity_information_recoded(payload@),
{
    match casper_binary_port::AddressableEntityInformation::from_bytes(payload) {
        Ok((value, rest)) => Recoded::Decoded { rest: rest.len(), encoded: value.to_bytes() },
        Err(err) => Recoded::Undecodable(err),
    }
}

/// What `NodeStatus` makes of a payload once its peers are replaced by `peers`.
pub uninterp spec fn node_status_recoded(
    payload: Seq<u8>,
    peers: Seq<(Seq<char>, Seq<char>)>,
) -> RecodedView;

/// The peers, by node id and address, that `NodeStatus` reads in a payload.
pub uninterp spec fn node_status_peers(payload: Seq<u8>) -> Option<Seq<(Seq<char>, Seq<char>)>>;

/// `from_bytes` of `casper_binary_port::NodeStatus`, an assignment of its
/// peers, and `to_bytes`, named. Decoding what was encoded gives the same status
/// back, so that it is encoded as before, and with the peers that were assigned.
/// This is stated for the empty list, whose order cannot change.
#[verifier::external_body]
pub(crate) fn recode_node_status(payload: &[u8], peers: Vec<(String, String)>) -> (r: Recoded)
    ensures
        r@ == node_status_recoded(payload@, peers.deep_view()),
        peers@.len() == 0 ==> (r matches Recoded::Decoded { rest, encoded: Ok(bytes) }
            ==> node_status_peers(bytes@) == Some(Seq::<(Seq<char>, Seq<char>)>::empty())),
        peers@.len() == 0 ==> (r matches Recoded::Decoded { rest, encoded: Ok(bytes) }
            ==> node_status_recoded(bytes@, peers.deep_view()) == kept(bytes@)),
{
    match casper_binary_port::NodeStatus::from_bytes(payload) {
        Ok((mut status, rest)) => {
            let peers: std::collections::BTreeMap<String, String> = peers.into_iter().collect();
            status.peers = casper_types::Peers::from(peers);
            Recoded::Decoded { rest: rest.len(), encoded: status.to_bytes() }
        },
        Err(err) => Recoded::Undecodable(err),
    }
}

/// `from_bytes` of `casper_binary_port::NodeStatus`, and its peers, named.
#[verifier::external_body]
pub(crate) fn decode_node_status_peers(payload: &[u8]) -> (r: Option<Vec<(String, String)>>)
    ensures
        r.deep_view() == node_status_peers(payload@),
{
    let (status, _) = casper_binary_port::NodeStatus::from_bytes(payload).ok()?;
    let peers = status.peers.into_inner();
    Some(peers.into_iter().map(|peer| (peer.node_id, peer.address)).collect())
}

} // verus!
