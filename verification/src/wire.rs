//! The binary port's wire format: command headers, commands and responses.
//!
//! Integers are little endian, byte strings carry a four-byte length, and an
//! optional byte is a presence flag followed by the byte.

use casper_binary_port::{BinaryResponse, BinaryResponseAndRequest};
use casper_types::bytesrepr::{Bytes, FromBytes, ToBytes};
use vstd::prelude::*;

use crate::calltable;

verus! {

/// Errors of the serialization layer.
#[verifier::external_type_specification]
pub struct ExCodecError(casper_types::bytesrepr::Error);

/// The text of an error of the serialization layer.
pub open spec fn codec_text(err: casper_types::bytesrepr::Error) -> Seq<char> {
    match err {
        casper_types::bytesrepr::Error::EarlyEndOfStream =>
            "Deserialization error: early end of stream"@,
        casper_types::bytesrepr::Error::Formatting => "Deserialization error: formatting"@,
        casper_types::bytesrepr::Error::LeftOverBytes =>
            "Deserialization error: left-over bytes"@,
        casper_types::bytesrepr::Error::OutOfMemory => "Serialization error: out of memory"@,
        casper_types::bytesrepr::Error::NotRepresentable =>
            "Serialization error: value is not representable."@,
        _ => "exceeded recursion depth"@,
    }
}

/// `Display` of `casper_types::bytesrepr::Error`: one text for each error.
#[verifier::external_body]
pub(crate) fn codec_error_text(err: &casper_types::bytesrepr::Error) -> (r: String)
    ensures
        r@ == codec_text(*err),
{
    err.to_string()
}

/// The two little-endian bytes of `x`.
pub open spec fn le16(x: u16) -> Seq<u8> {
    seq![(x % 256) as u8, (x / 256) as u8]
}

/// The four little-endian bytes of `x`.
pub open spec fn le32(x: u32) -> Seq<u8> {
    seq![
        (x % 256) as u8,
        (x / 256 % 256) as u8,
        (x / 65536 % 256) as u8,
        (x / 16777216) as u8,
    ]
}

/// A byte string with its length in front.
pub open spec fn sized(bytes: Seq<u8>) -> Seq<u8> {
    le32(bytes.len() as u32) + bytes
}

/// An optional byte.
pub open spec fn optional_byte(byte: Option<u8>) -> Seq<u8> {
    match byte {
        None => seq![0u8],
        Some(b) => seq![1u8, b],
    }
}

/// What a response holds.
pub struct ResponseFields {
    pub version: u16,
    pub error_code: u16,
    pub type_tag: Option<u8>,
    pub payload: Seq<u8>,
}

/// A response as it travels.
pub open spec fn response_wire(fields: ResponseFields) -> Seq<u8> {
    le16(fields.version) + le16(fields.error_code) + optional_byte(fields.type_tag) + sized(
        fields.payload,
    )
}

/// A response with the request that it answers in front.
pub open spec fn envelope_wire(request: Seq<u8>, response: Seq<u8>) -> Seq<u8> {
    sized(request) + response
}

/// An information request inside a `Get` command.
pub open spec fn information_wire(info_type_tag: u16, key: Seq<u8>) -> Seq<u8> {
    seq![1u8] + le16(info_type_tag) + sized(key)
}

/// Whether `bytes` fit the length limit of the serialization layer.
pub open spec fn fits(len: nat) -> bool {
    len <= u32::MAX
}

proof fn lemma_le16_injective(a: u16, b: u16)
    requires
        le16(a) == le16(b),
    ensures
        a == b,
{
    assert(le16(a)[0] == le16(b)[0]);
    assert(le16(a)[1] == le16(b)[1]);
}

proof fn lemma_le32_injective(a: u32, b: u32)
    requires
        le32(a) == le32(b),
    ensures
        a == b,
{
    assert(le32(a)[0] == le32(b)[0]);
    assert(le32(a)[1] == le32(b)[1]);
    assert(le32(a)[2] == le32(b)[2]);
    assert(le32(a)[3] == le32(b)[3]);
    assert(a == a % 256 + 256 * (a / 256 % 256) + 65536 * (a / 65536 % 256) + 16777216 * (a
        / 16777216));
    assert(b == b % 256 + 256 * (b / 256 % 256) + 65536 * (b / 65536 % 256) + 16777216 * (b
        / 16777216));
}

/// Two byte strings that start one sequence are the same byte string.
proof fn lemma_sized_prefix(a: Seq<u8>, ra: Seq<u8>, b: Seq<u8>, rb: Seq<u8>)
    requires
        sized(a) + ra == sized(b) + rb,
        fits(a.len()),
        fits(b.len()),
    ensures
        a == b,
        ra == rb,
{
    let s = sized(a) + ra;
    assert(s.take(4) =~= le32(a.len() as u32));
    assert(s.take(4) =~= le32(b.len() as u32));
    lemma_le32_injective(a.len() as u32, b.len() as u32);
    let end = 4 + a.len() as int;
    assert(a =~= s.subrange(4, end));
    assert(b =~= s.subrange(4, end));
    assert(ra =~= s.skip(end));
    assert(rb =~= s.skip(end));
}

/// Two responses that start one sequence are the same response.
pub proof fn lemma_response_prefix(
    a: ResponseFields,
    ra: Seq<u8>,
    b: ResponseFields,
    rb: Seq<u8>,
)
    requires
        response_wire(a) + ra == response_wire(b) + rb,
        fits(a.payload.len()),
        fits(b.payload.len()),
    ensures
        a == b,
        ra == rb,
{
    let s = response_wire(a) + ra;
    assert(s.take(2) =~= le16(a.version));
    assert(s.take(2) =~= le16(b.version));
    lemma_le16_injective(a.version, b.version);
    assert(s.subrange(2, 4) =~= le16(a.error_code));
    assert(s.subrange(2, 4) =~= le16(b.error_code));
    lemma_le16_injective(a.error_code, b.error_code);
    assert(s[4] == optional_byte(a.type_tag)[0]);
    assert(s[4] == optional_byte(b.type_tag)[0]);
    if a.type_tag is Some {
        assert(s[5] == optional_byte(a.type_tag)[1]);
        assert(s[5] == optional_byte(b.type_tag)[1]);
    }
    assert(a.type_tag == b.type_tag);
    let n = 4 + optional_byte(a.type_tag).len();
    assert(s.skip(n as int) =~= sized(a.payload) + ra);
    assert(s.skip(n as int) =~= sized(b.payload) + rb);
    lemma_sized_prefix(a.payload, ra, b.payload, rb);
}

/// An envelope determines its request and its response.
pub proof fn lemma_envelope_prefix(
    request_a: Seq<u8>,
    a: ResponseFields,
    ra: Seq<u8>,
    request_b: Seq<u8>,
    b: ResponseFields,
    rb: Seq<u8>,
)
    requires
        envelope_wire(request_a, response_wire(a)) + ra == envelope_wire(
            request_b,
            response_wire(b),
        ) + rb,
        fits(request_a.len()),
        fits(request_b.len()),
        fits(a.payload.len()),
        fits(b.payload.len()),
    ensures
        request_a == request_b,
        a == b,
        ra == rb,
{
    let wa = response_wire(a) + ra;
    let wb = response_wire(b) + rb;
    assert(sized(request_a) + wa =~= envelope_wire(request_a, response_wire(a)) + ra);
    assert(sized(request_b) + wb =~= envelope_wire(request_b, response_wire(b)) + rb);
    lemma_sized_prefix(request_a, wa, request_b, wb);
    lemma_response_prefix(a, ra, b, rb);
}

/// An information request determines its tag and its key.
pub proof fn lemma_information_injective(tag_a: u16, a: Seq<u8>, tag_b: u16, b: Seq<u8>)
    requires
        information_wire(tag_a, a) == information_wire(tag_b, b),
        fits(a.len()),
        fits(b.len()),
    ensures
        tag_a == tag_b,
        a == b,
{
    let s = information_wire(tag_a, a);
    assert(s.subrange(1, 3) =~= le16(tag_a));
    assert(s.subrange(1, 3) =~= le16(tag_b));
    lemma_le16_injective(tag_a, tag_b);
    assert(s.skip(3) =~= sized(a));
    assert(s.skip(3) =~= sized(b));
    assert(sized(a) =~= sized(a) + Seq::<u8>::empty());
    assert(sized(b) =~= sized(b) + Seq::<u8>::empty());
    lemma_sized_prefix(a, Seq::empty(), b, Seq::empty());
}

/// The length field of a frame.
pub fn length_bytes(len: u32) -> (r: Vec<u8>)
    ensures
        r@ == le32(len),
{
    let r: Vec<u8> = vec![
        (len % 256) as u8,
        (len / 256 % 256) as u8,
        (len / 65536 % 256) as u8,
        (len / 16777216) as u8,
    ];
    assert(r@ =~= le32(len));
    r
}

/// Reads the length field of a frame.
pub fn length_of(bytes: &[u8]) -> (r: u32)
    requires
        bytes@.len() == 4,
    ensures
        bytes@ == le32(r),
{
    let b0 = bytes[0];
    let b1 = bytes[1];
    let b2 = bytes[2];
    let b3 = bytes[3];
    let r: u32 = (b0 as u32) | ((b1 as u32) << 8) | ((b2 as u32) << 16) | ((b3 as u32) << 24);
    assert((r % 256) as u8 == b0 && (r / 256 % 256) as u8 == b1 && (r / 65536 % 256) as u8 == b2
        && (r / 16777216) as u8 == b3) by (bit_vector)
        requires
            r == (b0 as u32) | ((b1 as u32) << 8) | ((b2 as u32) << 16) | ((b3 as u32) << 24),
    ;
    assert(bytes@ =~= le32(r));
    r
}

/// Reading a length field gives back the length that was written, and no other
/// length is written the same.
pub proof fn law_length_read_back(written: u32, read: u32)
    requires
        le32(written) == le32(read),
    ensures
        read == written,
{
    lemma_le32_injective(written, read);
}

/// Two frames that start one stream are the same frame.
pub proof fn law_frames_are_told_apart(a: Seq<u8>, after_a: Seq<u8>, b: Seq<u8>, after_b: Seq<u8>)
    requires
        fits(a.len()),
        fits(b.len()),
        sized(a) + after_a == sized(b) + after_b,
    ensures
        a == b,
        after_a == after_b,
{
    lemma_sized_prefix(a, after_a, b, after_b);
}

/// The header of a command.
#[derive(Clone, Copy, Debug, PartialEq, Eq, Structural)]
pub struct CommandHeader {
    pub version: u16,
    pub type_tag: u8,
    pub id: u16,
}

/// A command header as it travels.
pub open spec fn header_wire(header: CommandHeader) -> Seq<u8> {
    le16(header.version) + seq![header.type_tag] + le16(header.id)
}

/// The header that stands at the start of `bytes`.
pub open spec fn header_of(bytes: Seq<u8>) -> CommandHeader {
    CommandHeader {
        version: (bytes[0] + 256 * bytes[1]) as u16,
        type_tag: bytes[2],
        id: (bytes[3] + 256 * bytes[4]) as u16,
    }
}

/// A command header can be read back.
pub proof fn lemma_header_of(bytes: Seq<u8>, header: CommandHeader)
    requires
        bytes.len() >= HEADER_LEN,
        bytes.take(HEADER_LEN as int) == header_wire(header),
    ensures
        header_of(bytes) == header,
{
    let wire = header_wire(header);
    let head = bytes.take(HEADER_LEN as int);
    assert(bytes[0] == head[0] && bytes[1] == head[1] && bytes[2] == head[2]);
    assert(bytes[3] == head[3] && bytes[4] == head[4]);
    assert(wire[0] == le16(header.version)[0] && wire[1] == le16(header.version)[1]);
    assert(wire[2] == header.type_tag);
    assert(wire[3] == le16(header.id)[0] && wire[4] == le16(header.id)[1]);
}

/// The number of bytes of a command header.
pub const HEADER_LEN: usize = 5;

/// The version of command headers that the proxy understands.
pub const HEADER_VERSION: u16 = 1;

/// `casper_binary_port::CommandHeader::from_bytes`: reads the header at the
/// start of `bytes`, and fails exactly when `bytes` is shorter than a header.
/// Of what follows the header, its length is returned.
#[verifier::external_body]
pub(crate) fn decode_command_header(bytes: &[u8]) -> (r: Result<
    (CommandHeader, usize),
    casper_types::bytesrepr::Error,
>)
    ensures
        r is Ok <==> bytes@.len() >= HEADER_LEN,
        r matches Ok((header, rest)) ==> bytes@.take(HEADER_LEN as int) == header_wire(header)
            && rest == bytes@.len() - HEADER_LEN,
{
    let (header, rest) = casper_binary_port::CommandHeader::from_bytes(bytes)?;
    let header = CommandHeader {
        version: header.version(),
        type_tag: header.type_tag(),
        id: header.id(),
    };
    Ok((header, rest.len()))
}

/// The kind of a command.
#[derive(Clone, Copy, Debug, PartialEq, Eq, Structural)]
pub enum CommandTag {
    Get,
    TryAcceptTransaction,
    TrySpeculativeExec,
}

/// The command kind that a header's tag stands for.
pub open spec fn command_tag_of(tag: u8) -> Option<CommandTag> {
    if tag == 0 {
        Some(CommandTag::Get)
    } else if tag == 1 {
        Some(CommandTag::TryAcceptTransaction)
    } else if tag == 2 {
        Some(CommandTag::TrySpeculativeExec)
    } else {
        None
    }
}

impl CommandTag {
    /// Reads a command tag.
    pub fn from_tag(tag: u8) -> (r: Option<CommandTag>)
        ensures
            r == command_tag_of(tag),
    {
        match tag {
            0 => Some(CommandTag::Get),
            1 => Some(CommandTag::TryAcceptTransaction),
            2 => Some(CommandTag::TrySpeculativeExec),
            _ => None,
        }
    }
}

/// What the proxy reads of a command.
#[derive(Debug)]
pub enum CommandBody {
    /// A request for information from the node.
    Information { info_type_tag: u16, key: Vec<u8> },
    /// Any other command.
    Other,
}

/// Whether `Command::try_from` accepts `bytes` as a command of kind `tag`.
pub uninterp spec fn command_decodes(tag: CommandTag, bytes: Seq<u8>) -> bool;

/// `casper_binary_port::Command::try_from`: decodes the body of a command and
/// wants all of `bytes` consumed. A `Get` command whose first byte is 1 is an
/// information request, and no other command is. The decoder of a transaction
/// subtracts offsets without a check, so those that fall are left out.
#[verifier::external_body]
pub(crate) fn decode_command(tag: CommandTag, bytes: &[u8]) -> (r: Result<
    CommandBody,
    casper_types::bytesrepr::Error,
>)
    requires
        tag is Get || calltable::offsets_ascend(bytes@),
    ensures
        r is Ok <==> command_decodes(tag, bytes@),
        r matches Ok(CommandBody::Information { info_type_tag, key }) ==> tag is Get && fits(
            key@.len(),
        ) && bytes@ == information_wire(info_type_tag, key@),
        forall|info: u16, key: Seq<u8>|
            tag is Get && fits(key.len()) && bytes@ == #[trigger] information_wire(info, key)
                ==> (match r {
                Ok(CommandBody::Information { info_type_tag, key: k }) => info_type_tag == info
                    && k@ == key,
                _ => false,
            }),
{
    let tag = match tag {
        CommandTag::Get => casper_binary_port::CommandTag::Get,
        CommandTag::TryAcceptTransaction => casper_binary_port::CommandTag::TryAcceptTransaction,
        CommandTag::TrySpeculativeExec => casper_binary_port::CommandTag::TrySpeculativeExec,
    };
    match casper_binary_port::Command::try_from((tag, bytes))? {
        casper_binary_port::Command::Get(
            casper_binary_port::GetRequest::Information { info_type_tag, key },
        ) => Ok(CommandBody::Information { info_type_tag, key }),
        _ => Ok(CommandBody::Other),
    }
}

/// The tag of the request for connected peers.
pub const PEERS_REQUEST: u16 = 3;

/// Whether `InformationRequest::try_from` accepts `key` under the tag.
pub uninterp spec fn information_decodes(info_type_tag: u16, key: Seq<u8>) -> bool;

/// `InformationRequestTag::try_from` and `InformationRequest::try_from` of
/// `casper_binary_port`: decodes an information request and wants all of `key`
/// consumed. Tags from 20 on are unknown; those from 3 to 15 and 17 take no
/// key. The answer says whether it is the request for connected peers, which
/// it is under the peers tag alone.
#[verifier::external_body]
pub(crate) fn decode_information_request(info_type_tag: u16, key: &[u8]) -> (r: Option<bool>)
    ensures
        r is Some <==> information_decodes(info_type_tag, key@),
        info_type_tag >= 20 ==> r is None,
        3 <= info_type_tag <= 15 || info_type_tag == 17 ==> (r is Some <==> key@.len() == 0),
        r matches Some(peers) ==> peers == (info_type_tag == PEERS_REQUEST),
{
    let tag = casper_binary_port::InformationRequestTag::try_from(info_type_tag).ok()?;
    let request = casper_binary_port::InformationRequest::try_from((tag, key)).ok()?;
    Some(matches!(request, casper_binary_port::InformationRequest::Peers))
}

/// What the proxy reads of a response.
#[derive(Debug)]
pub struct ResponseParts {
    pub error_code: u16,
    pub type_tag: Option<u8>,
    pub payload: Vec<u8>,
}

impl ResponseParts {
    /// The response's fields under the given version.
    pub open spec fn fields(self, version: u16) -> ResponseFields {
        ResponseFields {
            version,
            error_code: self.error_code,
            type_tag: self.type_tag,
            payload: self.payload@,
        }
    }
}

/// The version at the start of a response.
pub open spec fn version_of(wire: Seq<u8>) -> u16 {
    (wire[0] + 256 * wire[1]) as u16
}

/// The error with which `BinaryResponse::from_bytes` fails on `bytes`.
pub uninterp spec fn response_decode_error(bytes: Seq<u8>) -> casper_types::bytesrepr::Error;

/// `BinaryResponse::from_bytes` of `casper_binary_port`, and the accessors of
/// what it returns: reads the response at the start of `bytes`, and fails
/// exactly when no response stands there, with an error that is named. Of what
/// follows, the length is returned.
#[verifier::external_body]
pub(crate) fn decode_response(bytes: &[u8]) -> (r: Result<
    (ResponseParts, usize),
    casper_types::bytesrepr::Error,
>)
    ensures
        match r {
            Ok((parts, rest)) => rest <= bytes@.len() && fits(parts.payload@.len())
                && bytes@.take(bytes@.len() - rest) == response_wire(
                parts.fields(version_of(bytes@)),
            ),
            Err(err) => err == response_decode_error(bytes@) && forall|
                fields: ResponseFields,
                rest: Seq<u8>,
            |
                fits(fields.payload.len()) ==> bytes@ != #[trigger] (response_wire(fields)
                    + rest),
        },
{
    let (response, rest) = BinaryResponse::from_bytes(bytes)?;
    let parts = ResponseParts {
        error_code: response.error_code(),
        type_tag: response.returned_data_type_tag(),
        payload: response.payload().to_vec(),
    };
    Ok((parts, rest.len()))
}

/// `BinaryResponseAndRequest::from_bytes` of `casper_binary_port`, and the
/// accessors of what it returns: reads the request and the response at the
/// start of `bytes`, and fails exactly when they do not stand there. Of what
/// follows, the length is returned.
#[verifier::external_body]
pub(crate) fn decode_response_and_request(bytes: &[u8]) -> (r: Result<
    (Vec<u8>, ResponseParts, usize),
    casper_types::bytesrepr::Error,
>)
    ensures
        match r {
            Ok((request, parts, rest)) => rest <= bytes@.len() && fits(parts.payload@.len())
                && fits(request@.len()) && bytes@.take(bytes@.len() - rest)
                == envelope_wire(
                request@,
                response_wire(parts.fields(version_of(bytes@.skip(4 + request@.len() as int)))),
            ),
            Err(_) => forall|request: Seq<u8>, fields: ResponseFields, rest: Seq<u8>|
                fits(request.len()) && fits(fields.payload.len()) ==> bytes@
                    != #[trigger] (envelope_wire(request, response_wire(fields)) + rest),
        },
{
    let (both, rest) = BinaryResponseAndRequest::from_bytes(bytes)?;
    let parts = ResponseParts {
        error_code: both.response().error_code(),
        type_tag: both.response().returned_data_type_tag(),
        payload: both.response().payload().to_vec(),
    };
    Ok((both.request().to_vec(), parts, rest.len()))
}

/// The version that the proxy's own responses carry.
pub const RESPONSE_VERSION: u16 = 1;

/// The error codes that the proxy answers with.
#[derive(Clone, Copy, Debug, PartialEq, Eq, Structural)]
pub enum ErrorCode {
    FunctionDisabled,
    InternalError,
    BadRequest,
    UnsupportedRequest,
}

impl ErrorCode {
    /// The code as it travels.
    pub open spec fn code(self) -> u16 {
        match self {
            ErrorCode::FunctionDisabled => 1,
            ErrorCode::InternalError => 6,
            ErrorCode::BadRequest => 8,
            ErrorCode::UnsupportedRequest => 9,
        }
    }

    /// The code as it travels.
    pub fn to_code(self) -> (r: u16)
        ensures
            r == self.code(),
    {
        match self {
            ErrorCode::FunctionDisabled => 1,
            ErrorCode::InternalError => 6,
            ErrorCode::BadRequest => 8,
            ErrorCode::UnsupportedRequest => 9,
        }
    }
}

/// The fields of an error response of the proxy.
pub open spec fn error_fields(code: ErrorCode) -> ResponseFields {
    ResponseFields {
        version: RESPONSE_VERSION,
        error_code: code.code(),
        type_tag: None,
        payload: Seq::empty(),
    }
}

/// The fields of a success response of the proxy.
pub open spec fn success_fields(type_tag: u8, payload: Seq<u8>) -> ResponseFields {
    ResponseFields {
        version: RESPONSE_VERSION,
        error_code: 0,
        type_tag: Some(type_tag),
        payload,
    }
}

/// `BinaryResponse::new_error` of `casper_binary_port`, serialized: a response
/// with the error's code, no payload type and an empty payload.
#[verifier::external_body]
pub(crate) fn encode_error(code: ErrorCode) -> (r: Result<Vec<u8>, casper_types::bytesrepr::Error>)
    ensures
        r is Ok,
        r matches Ok(bytes) ==> bytes@ == response_wire(error_fields(code)),
{
    let code = match code {
        ErrorCode::FunctionDisabled => casper_binary_port::ErrorCode::FunctionDisabled,
        ErrorCode::InternalError => casper_binary_port::ErrorCode::InternalError,
        ErrorCode::BadRequest => casper_binary_port::ErrorCode::BadRequest,
        ErrorCode::UnsupportedRequest => casper_binary_port::ErrorCode::UnsupportedRequest,
    };
    BinaryResponse::new_error(code).to_bytes()
}

/// The number of payload types.
pub const RESPONSE_TYPES: u8 = 44;

/// `BinaryResponse::from_raw_bytes` of `casper_binary_port`, serialized: a
/// success response of the given payload type. Fails exactly when the result
/// would be longer than the serialization layer allows, and then with
/// `OutOfMemory`.
#[verifier::external_body]
pub(crate) fn encode_success(type_tag: u8, payload: Vec<u8>) -> (r: Result<
    Vec<u8>,
    casper_types::bytesrepr::Error,
>)
    requires
        type_tag < RESPONSE_TYPES,
    ensures
        r is Ok <==> fits(payload@.len() + 10),
        r matches Err(err) ==> err is OutOfMemory,
        r matches Ok(bytes) ==> bytes@ == response_wire(success_fields(type_tag, payload@)),
{
    match casper_binary_port::ResponseType::try_from(type_tag) {
        Ok(response_type) => BinaryResponse::from_raw_bytes(response_type, payload).to_bytes(),
        Err(()) => Err(casper_types::bytesrepr::Error::Formatting),
    }
}

/// `BinaryResponse::to_bytes` of `casper_binary_port` on the response that
/// `wire` holds: gives `wire` back, and fails exactly when it is longer than
/// the serialization layer allows, and then with `OutOfMemory`.
#[verifier::external_body]
pub(crate) fn encode_response(wire: &[u8]) -> (r: Result<
    Vec<u8>,
    casper_types::bytesrepr::Error,
>)
    requires
        exists|fields: ResponseFields|
            fits(fields.payload.len()) && wire@ == #[trigger] response_wire(fields),
    ensures
        r is Ok <==> fits(wire@.len()),
        r matches Err(err) ==> err is OutOfMemory,
        r matches Ok(bytes) ==> bytes@ == wire@,
{
    let (response, _) = BinaryResponse::from_bytes(wire)?;
    response.to_bytes()
}

/// `BinaryResponseAndRequest::to_bytes` of `casper_binary_port` on a request
/// and the response that `wire` holds. Fails exactly when the result would be
/// longer than the serialization layer allows, and then with `OutOfMemory`.
#[verifier::external_body]
pub(crate) fn encode_response_and_request(request: &[u8], wire: &[u8]) -> (r: Result<
    Vec<u8>,
    casper_types::bytesrepr::Error,
>)
    requires
        exists|fields: ResponseFields|
            fits(fields.payload.len()) && wire@ == #[trigger] response_wire(fields),
    ensures
        r is Ok <==> fits(4 + request@.len() + wire@.len()),
        r matches Ok(bytes) ==> bytes@ == envelope_wire(request@, wire@),
        r matches Err(err) ==> err is OutOfMemory,
{
    let (response, _) = BinaryResponse::from_bytes(wire)?;
    BinaryResponseAndRequest::new(response, Bytes::from(request.to_vec())).to_bytes()
}

} // verus!
