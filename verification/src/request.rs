//! Requests of the binary port: how they are understood.

use vstd::prelude::*;
use vstd::slice::slice_subrange;

use crate::calltable;
use crate::calltable::check_offsets;
use crate::wire;
use crate::wire::{
    decode_command, decode_command_header, decode_information_request, CommandBody, CommandHeader,
    CommandTag, ErrorCode, HEADER_LEN, HEADER_VERSION, PEERS_REQUEST,
};

verus! {

/// What an information request asks for.
#[derive(Clone, Copy, Debug, PartialEq, Eq, Structural)]
pub enum InformationRequest {
    /// The connected peers.
    Peers,
    /// Anything else.
    Other,
}

/// A request that was understood.
#[derive(Clone, Copy, Debug)]
pub struct ParsedRequest {
    pub header: CommandHeader,
    pub information_request: Option<InformationRequest>,
}

/// Why a request was not understood.
#[derive(Clone, Copy, Debug, PartialEq, Eq, Structural)]
pub enum RequestParseError {
    UnsupportedVersion,
    InvalidRequest,
}

impl RequestParseError {
    /// The error code with which the request is answered.
    pub open spec fn code(self) -> ErrorCode {
        match self {
            RequestParseError::UnsupportedVersion => ErrorCode::UnsupportedRequest,
            RequestParseError::InvalidRequest => ErrorCode::BadRequest,
        }
    }

    /// The error code to answer with.
    pub fn error_code(&self) -> (r: ErrorCode)
        ensures
            r == self.code(),
    {
        match self {
            RequestParseError::UnsupportedVersion => ErrorCode::UnsupportedRequest,
            RequestParseError::InvalidRequest => ErrorCode::BadRequest,
        }
    }
}

/// Whether a command body is the given information request.
pub open spec fn is_information(body: Seq<u8>, info_type_tag: u16, key: Seq<u8>) -> bool {
    wire::fits(key.len()) && body == wire::information_wire(info_type_tag, key)
}

/// The information request that the body of a `Get` command holds, if any.
pub open spec fn information_of(body: Seq<u8>) -> Option<(u16, Seq<u8>)> {
    if exists|info_type_tag: u16, key: Seq<u8>| is_information(body, info_type_tag, key) {
        Some(choose|info: (u16, Seq<u8>)| is_information(body, info.0, info.1))
    } else {
        None
    }
}

proof fn lemma_information_of(body: Seq<u8>, info_type_tag: u16, key: Seq<u8>)
    requires
        is_information(body, info_type_tag, key),
    ensures
        information_of(body) == Some((info_type_tag, key)),
{
    let info = (info_type_tag, key);
    assert(is_information(body, info.0, info.1));
    let chosen = choose|info: (u16, Seq<u8>)| is_information(body, info.0, info.1);
    wire::lemma_information_injective(chosen.0, chosen.1, info_type_tag, key);
}

/// What an understood information request asks for.
pub open spec fn information_kind(info_type_tag: u16) -> InformationRequest {
    if info_type_tag == PEERS_REQUEST {
        InformationRequest::Peers
    } else {
        InformationRequest::Other
    }
}

/// How a request is understood.
pub open spec fn parsed_request(payload: Seq<u8>) -> Result<ParsedRequest, RequestParseError> {
    let header = wire::header_of(payload);
    let body = payload.skip(HEADER_LEN as int);
    if payload.len() < HEADER_LEN {
        Err(RequestParseError::InvalidRequest)
    } else if header.version != HEADER_VERSION {
        Err(RequestParseError::UnsupportedVersion)
    } else {
        match wire::command_tag_of(header.type_tag) {
            None => Err(RequestParseError::InvalidRequest),
            Some(tag) => if !(tag is Get) && !calltable::offsets_ascend(body) {
                Err(RequestParseError::InvalidRequest)
            } else if !wire::command_decodes(tag, body) {
                Err(RequestParseError::InvalidRequest)
            } else if tag is Get && information_of(body) is Some {
                let (info_type_tag, key) = information_of(body)->0;
                if wire::information_decodes(info_type_tag, key) && (info_type_tag == PEERS_REQUEST
                    ==> key.len() == 0) {
                    Ok(
                        ParsedRequest {
                            header,
                            information_request: Some(information_kind(info_type_tag)),
                        },
                    )
                } else {
                    Err(RequestParseError::InvalidRequest)
                }
            } else {
                Ok(ParsedRequest { header, information_request: None })
            },
        }
    }
}

/// The request for connected peers, under any identifier.
pub open spec fn peers_request(id: u16) -> Seq<u8> {
    wire::header_wire(CommandHeader { version: HEADER_VERSION, type_tag: 0, id })
        + wire::information_wire(PEERS_REQUEST, Seq::empty())
}

/// Whether a request is that for connected peers.
pub open spec fn asks_for_peers(payload: Seq<u8>) -> bool {
    exists|id: u16| payload == #[trigger] peers_request(id)
}

/// Reads a request of a client.
pub fn parse_request(payload: &[u8]) -> (r: Result<ParsedRequest, RequestParseError>)
    ensures
        r == parsed_request(payload@),
        asks_for_peers(payload@) <==> (r matches Ok(parsed) && parsed.information_request == Some(
            InformationRequest::Peers,
        )),
{
    let (header, rest) = match decode_command_header(payload) {
        Ok(decoded) => decoded,
        Err(_) => {
            return Err(RequestParseError::InvalidRequest);
        },
    };
    proof {
        wire::lemma_header_of(payload@, header);
        lemma_peers_request(payload@);
    }
    if header.version != HEADER_VERSION {
        return Err(RequestParseError::UnsupportedVersion);
    }
    let tag = match CommandTag::from_tag(header.type_tag) {
        Some(tag) => tag,
        None => {
            return Err(RequestParseError::InvalidRequest);
        },
    };
    let body = slice_subrange(payload, payload.len() - rest, payload.len());
    assert(body@ =~= payload@.skip(HEADER_LEN as int));
    if tag != CommandTag::Get && !check_offsets(body) {
        return Err(RequestParseError::InvalidRequest);
    }
    let command = match decode_command(tag, body) {
        Ok(command) => command,
        Err(_) => {
            return Err(RequestParseError::InvalidRequest);
        },
    };
    match command {
        CommandBody::Information { info_type_tag, key } => {
            proof {
                lemma_information_of(body@, info_type_tag, key@);
            }
            match decode_information_request(info_type_tag, key.as_slice()) {
                Some(peers) => {
                    let information_request = if peers {
                        InformationRequest::Peers
                    } else {
                        InformationRequest::Other
                    };
                    assert(peers ==> key@ =~= Seq::<u8>::empty());
                    Ok(ParsedRequest { header, information_request: Some(information_request) })
                },
                None => Err(RequestParseError::InvalidRequest),
            }
        },
        CommandBody::Other => {
            Ok(ParsedRequest { header, information_request: None })
        },
    }
}

/// What the request for connected peers looks like.
proof fn lemma_peers_request(payload: Seq<u8>)
    ensures
        asks_for_peers(payload) <==> payload.len() >= HEADER_LEN && wire::header_of(
            payload,
        ).version == HEADER_VERSION && wire::header_of(payload).type_tag == 0 && payload.skip(
            HEADER_LEN as int,
        ) == wire::information_wire(PEERS_REQUEST, Seq::empty()),
{
    if asks_for_peers(payload) {
        let id = choose|id: u16| payload == #[trigger] peers_request(id);
        let header = CommandHeader { version: HEADER_VERSION, type_tag: 0, id };
        assert(payload.take(HEADER_LEN as int) =~= wire::header_wire(header));
        wire::lemma_header_of(payload, header);
        assert(payload.skip(HEADER_LEN as int) =~= wire::information_wire(
            PEERS_REQUEST,
            Seq::empty(),
        ));
    }
    if payload.len() >= HEADER_LEN && wire::header_of(payload).version == HEADER_VERSION
        && wire::header_of(payload).type_tag == 0 && payload.skip(HEADER_LEN as int)
        == wire::information_wire(PEERS_REQUEST, Seq::empty()) {
        let header = wire::header_of(payload);
        assert(payload =~= wire::header_wire(header) + payload.skip(HEADER_LEN as int));
        assert(payload == peers_request(header.id));
    }
}

/// A request that was understood asks for peers exactly where it is the request
/// for peers, byte for byte.
pub proof fn law_peers_are_recognized(payload: Seq<u8>)
    requires
        parsed_request(payload) is Ok,
    ensures
        asks_for_peers(payload) <==> parsed_request(payload)->Ok_0.information_request == Some(
            InformationRequest::Peers,
        ),
{
    let body = payload.skip(HEADER_LEN as int);
    lemma_peers_request(payload);
    if asks_for_peers(payload) {
        lemma_information_of(body, PEERS_REQUEST, Seq::empty());
    }
    if parsed_request(payload)->Ok_0.information_request == Some(InformationRequest::Peers) {
        let (info_type_tag, key) = information_of(body)->0;
        lemma_information_chosen(body);
        assert(key =~= Seq::<u8>::empty());
    }
}

proof fn lemma_information_chosen(body: Seq<u8>)
    requires
        information_of(body) is Some,
    ensures
        ({
            let (info_type_tag, key) = information_of(body)->0;
            is_information(body, info_type_tag, key)
        }),
{
    let (info_type_tag, key) = choose|info_type_tag: u16, key: Seq<u8>|
        is_information(body, info_type_tag, key);
    lemma_information_of(body, info_type_tag, key);
}

/// How a request is read that was written as a header and a body. Its version
/// must be 1. A request to read is understood where its body is a command, and
/// an information request besides only where it is a known one. A request with
/// a transaction is understood where its offsets do not fall and its body is a
/// command. Whatever is understood keeps its header.
pub proof fn law_requests_are_read_as_written(
    header: CommandHeader,
    body: Seq<u8>,
    info_type_tag: u16,
    key: Seq<u8>,
)
    ensures
        ({
            let parsed = parsed_request(wire::header_wire(header) + body);
            let invalid = Err::<ParsedRequest, RequestParseError>(
                RequestParseError::InvalidRequest,
            );
            &&& parsed is Ok ==> parsed->Ok_0.header == header && header.version == 1
                && header.type_tag <= 2
            &&& header.version != 1 ==> parsed == Err::<ParsedRequest, RequestParseError>(
                RequestParseError::UnsupportedVersion,
            )
            &&& header.version == 1 && header.type_tag > 2 ==> parsed == invalid
            &&& header.version == 1 && header.type_tag == 0 && !wire::command_decodes(
                CommandTag::Get,
                body,
            ) ==> parsed == invalid
            &&& header.version == 1 && header.type_tag == 0 && wire::command_decodes(
                CommandTag::Get,
                body,
            ) && (forall|tag: u16, k: Seq<u8>| !is_information(body, tag, k)) ==> parsed == Ok::<
                ParsedRequest,
                RequestParseError,
            >(ParsedRequest { header, information_request: None })
            &&& header.version == 1 && header.type_tag == 0 && wire::command_decodes(
                CommandTag::Get,
                body,
            ) && key.len() <= u32::MAX && body == wire::information_wire(info_type_tag, key)
                && !wire::information_decodes(info_type_tag, key) ==> parsed == invalid
            &&& header.version == 1 && header.type_tag == 0 && wire::command_decodes(
                CommandTag::Get,
                body,
            ) && key.len() <= u32::MAX && body == wire::information_wire(info_type_tag, key)
                && wire::information_decodes(info_type_tag, key) && info_type_tag != 3
                ==> parsed == Ok::<ParsedRequest, RequestParseError>(
                ParsedRequest { header, information_request: Some(InformationRequest::Other) },
            )
            &&& header.version == 1 && header.type_tag == 1 ==> (if calltable::offsets_ascend(body)
                && wire::command_decodes(CommandTag::TryAcceptTransaction, body) {
                parsed == Ok::<ParsedRequest, RequestParseError>(
                    ParsedRequest { header, information_request: None },
                )
            } else {
                parsed == invalid
            })
            &&& header.version == 1 && header.type_tag == 2 ==> (if calltable::offsets_ascend(body)
                && wire::command_decodes(CommandTag::TrySpeculativeExec, body) {
                parsed == Ok::<ParsedRequest, RequestParseError>(
                    ParsedRequest { header, information_request: None },
                )
            } else {
                parsed == invalid
            })
        }),
{
    let payload = wire::header_wire(header) + body;
    assert(payload.take(HEADER_LEN as int) =~= wire::header_wire(header));
    wire::lemma_header_of(payload, header);
    assert(payload.skip(HEADER_LEN as int) =~= body);
    if is_information(body, info_type_tag, key) {
        lemma_information_of(body, info_type_tag, key);
    }
}

/// A request that is shorter than a header is not understood.
pub proof fn law_short_requests_are_invalid(payload: Seq<u8>)
    requires
        payload.len() < 5,
    ensures
        parsed_request(payload) == Err::<ParsedRequest, RequestParseError>(
            RequestParseError::InvalidRequest,
        ),
{
}

} // verus!
