//! The binary frame protocol of the streaming ASR WebSocket: a 4-byte header
//! of nibbles, optional sequence / error-code fields, a big-endian payload
//! size and a (gzip-compressed) JSON or binary payload.
use std::io::{Read, Write};

use vstd::prelude::*;

use crate::json::{
    decimal, decode_json, encode_json_text, lemma_lookup_at, lemma_lookup_push, is_object, join, join_item_texts, json_get,
    json_i32, json_items, json_parse, json_str, json_string, json_text, json_uint,
    signed_decimal, text_pieces, Json, JsonValue,
};
use crate::mai::{trimmed_nonblank, trimmed_nonblank_strings, views};
use crate::text::{is_blank, str_is_blank, to_string, trim, trim_str};

verus! {

pub const DEFAULT_WS_URL: &'static str = "wss://openspeech.bytedance.com/api/v3/sauc/bigmodel_async";

pub const DEFAULT_RESOURCE_ID: &'static str = "volc.seedasr.sauc.duration";

pub const PROTOCOL_VERSION: u8 = 0x1;

pub const HEADER_SIZE_UNITS: u8 = 0x1;

pub const MSG_TYPE_FULL_CLIENT_REQUEST: u8 = 0x1;

pub const MSG_TYPE_AUDIO_ONLY_REQUEST: u8 = 0x2;

pub const MSG_TYPE_FULL_SERVER_RESPONSE: u8 = 0x9;

pub const MSG_TYPE_ERROR_RESPONSE: u8 = 0xF;

pub const FLAG_NONE: u8 = 0x0;

pub const FLAG_LAST_PACKET: u8 = 0x2;

pub const FLAG_POS_SEQUENCE: u8 = 0x1;

pub const FLAG_NEG_SEQUENCE: u8 = 0x3;

pub const SERIALIZATION_NONE: u8 = 0x0;

pub const SERIALIZATION_JSON: u8 = 0x1;

pub const COMPRESSION_NONE: u8 = 0x0;

pub const COMPRESSION_GZIP: u8 = 0x1;

/// The audio description sent in the first (full client) request.
pub struct RequestAudioOptions {
    pub audio_format: String,
    pub sample_rate: u32,
    pub bits: u16,
    pub channels: u16,
    pub language: Option<String>,
}

/// The contextual hints of `request.corpus`: self-learning hotword and
/// replacement tables, and a `context` JSON string (hotwords or dialog
/// context). Blank values are not sent.
pub struct CorpusOptions {
    pub boosting_table_name: Option<String>,
    pub boosting_table_id: Option<String>,
    pub correct_table_name: Option<String>,
    pub correct_table_id: Option<String>,
    pub context: Option<String>,
}

/// The recognition settings sent in the first (full client) request.
pub struct RequestRuntimeOptions {
    pub uid: String,
    pub model_name: String,
    pub enable_itn: bool,
    pub enable_punc: bool,
    pub enable_ddc: bool,
    pub enable_nonstream: bool,
    pub show_utterances: bool,
    pub result_type: String,
    pub corpus: CorpusOptions,
}

/// The payload of a server frame.
pub enum ParsedPayload {
    Json(JsonValue),
    Binary(Vec<u8>),
}

/// A decoded server frame.
pub struct ParsedFrame {
    pub message_type: u8,
    pub flags: u8,
    pub serialization: u8,
    pub compression: u8,
    pub sequence: Option<i32>,
    pub error_code: Option<u32>,
    pub payload_size: u32,
    pub payload: ParsedPayload,
}

/// Why a frame could not be built or read.
pub enum ProtocolError {
    InvalidFrameLength(usize),
    UnsupportedVersion(u8),
    InvalidHeaderSize,
    MissingSequence,
    MissingErrorCode,
    MissingPayloadSize,
    PayloadSizeMismatch,
    UnsupportedCompression(u8),
    UnsupportedSerialization(u8),
    Gzip(String),
    InvalidJson(String),
    JsonEncoding(String),
}

/// The model of a frame payload.
pub enum PayloadModel {
    Json(Json),
    Binary(Seq<u8>),
}

/// The model of a decoded frame.
pub struct FrameModel {
    pub message_type: u8,
    pub flags: u8,
    pub serialization: u8,
    pub compression: u8,
    pub sequence: Option<i32>,
    pub error_code: Option<u32>,
    pub payload_size: u32,
    pub payload: PayloadModel,
}

/// The kind of each error, without the messages of the outside crates.
pub enum FrameFailure {
    Length(nat),
    Version(u8),
    HeaderSize,
    MissingSequence,
    MissingErrorCode,
    MissingPayloadSize,
    PayloadSizeMismatch,
    Compression(u8),
    Serialization(u8),
    Gzip,
    Json,
    Encoding,
}

impl ProtocolError {
    pub open spec fn failure(self) -> FrameFailure {
        match self {
            ProtocolError::InvalidFrameLength(n) => FrameFailure::Length(n as nat),
            ProtocolError::UnsupportedVersion(v) => FrameFailure::Version(v),
            ProtocolError::InvalidHeaderSize => FrameFailure::HeaderSize,
            ProtocolError::MissingSequence => FrameFailure::MissingSequence,
            ProtocolError::MissingErrorCode => FrameFailure::MissingErrorCode,
            ProtocolError::MissingPayloadSize => FrameFailure::MissingPayloadSize,
            ProtocolError::PayloadSizeMismatch => FrameFailure::PayloadSizeMismatch,
            ProtocolError::UnsupportedCompression(c) => FrameFailure::Compression(c),
            ProtocolError::UnsupportedSerialization(s) => FrameFailure::Serialization(s),
            ProtocolError::Gzip(_) => FrameFailure::Gzip,
            ProtocolError::InvalidJson(_) => FrameFailure::Json,
            ProtocolError::JsonEncoding(_) => FrameFailure::Encoding,
        }
    }
}

impl ParsedPayload {
    pub open spec fn model(self) -> PayloadModel {
        match self {
            ParsedPayload::Json(v) => PayloadModel::Json(v.model()),
            ParsedPayload::Binary(b) => PayloadModel::Binary(b@),
        }
    }
}

impl ParsedFrame {
    pub open spec fn model(self) -> FrameModel {
        FrameModel {
            message_type: self.message_type,
            flags: self.flags,
            serialization: self.serialization,
            compression: self.compression,
            sequence: self.sequence,
            error_code: self.error_code,
            payload_size: self.payload_size,
            payload: self.payload.model(),
        }
    }
}

/// The byte holding `high` in its upper nibble and `low` in its lower nibble,
/// each masked to four bits.
pub open spec fn nibbles(high: u8, low: u8) -> u8 {
    ((high % 16) * 16 + low % 16) as u8
}

/// The 4-byte frame header: version and header size (in 4-byte units), message
/// type and flags, serialization and compression, and a reserved zero byte.
pub open spec fn header_bytes(message_type: u8, flags: u8, serialization: u8, compression: u8) -> Seq<u8> {
    seq![
        nibbles(PROTOCOL_VERSION, HEADER_SIZE_UNITS),
        nibbles(message_type, flags),
        nibbles(serialization, compression),
        0u8,
    ]
}

/// The big-endian bytes of `n`.
pub open spec fn be32_bytes(n: u32) -> Seq<u8> {
    seq![
        (n / 0x1000000) as u8,
        ((n / 0x10000) % 0x100) as u8,
        ((n / 0x100) % 0x100) as u8,
        (n % 0x100) as u8,
    ]
}

/// The big-endian `u32` stored in `f[at..at + 4]`.
pub open spec fn be_u32(f: Seq<u8>, at: int) -> u32 {
    (f[at] * 0x1000000 + f[at + 1] * 0x10000 + f[at + 2] * 0x100 + f[at + 3]) as u32
}

/// A client frame: header, payload length (truncated to 32 bits) and payload.
pub open spec fn framed(
    message_type: u8,
    flags: u8,
    serialization: u8,
    compression: u8,
    payload: Seq<u8>,
) -> Seq<u8> {
    header_bytes(message_type, flags, serialization, compression) + be32_bytes(
        payload.len() as u32,
    ) + payload
}

proof fn lemma_framed_layout(message_type: u8, flags: u8, serialization: u8, compression: u8, payload: Seq<u8>)
    ensures
        ({
            let f = framed(message_type, flags, serialization, compression, payload);
            &&& f.len() == 8 + payload.len()
            &&& f[0] == nibbles(PROTOCOL_VERSION, HEADER_SIZE_UNITS)
            &&& f[1] == nibbles(message_type, flags)
            &&& f[2] == nibbles(serialization, compression)
            &&& f[3] == 0
            &&& f.subrange(8, f.len() as int) == payload
            &&& payload.len() <= u32::MAX ==> f[4] * 0x1000000 + f[5] * 0x10000 + f[6] * 0x100 + f[7]
                == payload.len()
        }),
{
    let f = framed(message_type, flags, serialization, compression, payload);
    if payload.len() <= u32::MAX {
        let n = payload.len() as u32;
        assert(f[4] == (n / 0x1000000) as u8 && f[5] == ((n / 0x10000) % 0x100) as u8);
        assert(f[6] == ((n / 0x100) % 0x100) as u8 && f[7] == (n % 0x100) as u8);
        assert((n / 0x1000000) as u8 * 0x1000000 + ((n / 0x10000) % 0x100) as u8 * 0x10000 + ((n
            / 0x100) % 0x100) as u8 * 0x100 + (n % 0x100) as u8 == n) by (bit_vector);
    }
    assert(f.subrange(8, f.len() as int) =~= payload);
}

/// A server frame of this type and flags carries a sequence number.
pub open spec fn has_sequence_field(message_type: u8, flags: u8) -> bool {
    message_type == MSG_TYPE_FULL_SERVER_RESPONSE && (flags == FLAG_POS_SEQUENCE || flags
        == FLAG_NEG_SEQUENCE)
}

/// A server frame of this type and flags carries an error code.
pub open spec fn has_error_field(message_type: u8, flags: u8) -> bool {
    !has_sequence_field(message_type, flags) && message_type == MSG_TYPE_ERROR_RESPONSE
}

/// The payload after decompression (`None` where gzip decoding fails).
pub open spec fn spec_decompressed(compression: u8, raw: Seq<u8>) -> Result<Seq<u8>, FrameFailure> {
    if compression == COMPRESSION_GZIP {
        match gzip_decoded(raw) {
            Some(d) => Ok(d),
            None => Err(FrameFailure::Gzip),
        }
    } else if compression == COMPRESSION_NONE {
        Ok(raw)
    } else {
        Err(FrameFailure::Compression(compression))
    }
}

/// The payload after deserialization.
pub open spec fn spec_deserialized(serialization: u8, data: Seq<u8>) -> Result<PayloadModel, FrameFailure> {
    if serialization == SERIALIZATION_JSON {
        match json_parse(data) {
            Some(j) => Ok(PayloadModel::Json(j)),
            None => Err(FrameFailure::Json),
        }
    } else if serialization == SERIALIZATION_NONE {
        Ok(PayloadModel::Binary(data))
    } else {
        Err(FrameFailure::Serialization(serialization))
    }
}

/// What a server frame decodes to, check by check in the order the decoder
/// makes them.
pub open spec fn spec_parse_frame(f: Seq<u8>) -> Result<FrameModel, FrameFailure> {
    let n = f.len();
    if n < 8 {
        Err(FrameFailure::Length(n))
    } else if f[0] / 16 != PROTOCOL_VERSION {
        Err(FrameFailure::Version(f[0] / 16))
    } else {
        let header_size = (f[0] % 16) * 4;
        let message_type = f[1] / 16;
        let flags = f[1] % 16;
        let serialization = f[2] / 16;
        let compression = f[2] % 16;
        let seq_field = has_sequence_field(message_type, flags);
        let err_field = has_error_field(message_type, flags);
        let size_at = if seq_field || err_field {
            header_size + 4
        } else {
            header_size
        };
        if header_size < 4 || n < header_size + 4 {
            Err(FrameFailure::HeaderSize)
        } else if seq_field && n < header_size + 4 {
            Err(FrameFailure::MissingSequence)
        } else if err_field && n < header_size + 4 {
            Err(FrameFailure::MissingErrorCode)
        } else if n < size_at + 4 {
            Err(FrameFailure::MissingPayloadSize)
        } else if n < size_at + 4 + be_u32(f, size_at) {
            Err(FrameFailure::PayloadSizeMismatch)
        } else {
            let size = be_u32(f, size_at);
            let raw = f.subrange(size_at + 4, size_at + 4 + size);
            match spec_decompressed(compression, raw) {
                Err(e) => Err(e),
                Ok(data) => match spec_deserialized(serialization, data) {
                    Err(e) => Err(e),
                    Ok(payload) => Ok(
                        FrameModel {
                            message_type: message_type as u8,
                            flags: flags as u8,
                            serialization: serialization as u8,
                            compression: compression as u8,
                            sequence: if seq_field {
                                Some(be_u32(f, header_size) as i32)
                            } else {
                                None
                            },
                            error_code: if err_field {
                                Some(be_u32(f, header_size))
                            } else {
                                None
                            },
                            payload_size: size,
                            payload,
                        },
                    ),
                },
            }
        }
    }
}

/// The bytes that `GzEncoder` (default level, no header fields) writes for
/// `data`; `None` where it reports an error.
pub uninterp spec fn gzip_encoded(data: Seq<u8>) -> Option<Seq<u8>>;

/// The bytes that `GzDecoder` reads out of `data`; `None` where it reports an
/// error.
pub uninterp spec fn gzip_decoded(data: Seq<u8>) -> Option<Seq<u8>>;

/// Gzip-compresses `data` with flate2's `GzEncoder` at the default level.
/// Claims that the output is what the encoder writes and that flate2's
/// `GzDecoder` reads the input back out of it.
#[verifier::external_body]
fn gzip_encode(data: &[u8]) -> (res: Result<Vec<u8>, String>)
    ensures
        res is Ok <==> gzip_encoded(data@) is Some,
        res matches Ok(v) ==> gzip_encoded(data@) == Some(v@),
        res matches Ok(v) ==> gzip_decoded(v@) == Some(data@),
{
    let mut encoder = flate2::write::GzEncoder::new(Vec::new(), flate2::Compression::default());
    encoder.write_all(data).map_err(|e| e.to_string())?;
    encoder.finish().map_err(|e| e.to_string())
}

/// Reads a gzip stream with flate2's `GzDecoder`.
#[verifier::external_body]
fn gzip_decode(data: &[u8]) -> (res: Result<Vec<u8>, String>)
    ensures
        res is Ok <==> gzip_decoded(data@) is Some,
        res matches Ok(v) ==> gzip_decoded(data@) == Some(v@),
{
    let mut decoder = flate2::read::GzDecoder::new(data);
    let mut out = Vec::new();
    decoder.read_to_end(&mut out).map_err(|e| e.to_string())?;
    Ok(out)
}

/// Gzip-compresses `data`.
pub fn gzip_compress(data: &[u8]) -> (res: Result<Vec<u8>, ProtocolError>)
    ensures
        res is Ok <==> gzip_encoded(data@) is Some,
        res matches Ok(v) ==> gzip_encoded(data@) == Some(v@) && gzip_decoded(v@) == Some(data@),
        res matches Err(e) ==> e is Gzip,
{
    match gzip_encode(data) {
        Ok(v) => Ok(v),
        Err(message) => Err(ProtocolError::Gzip(message)),
    }
}

fn nibble_byte(high: u8, low: u8) -> (r: u8)
    ensures
        r == nibbles(high, low),
{
    (high % 16) * 16 + low % 16
}

/// The 4-byte header for a frame.
pub fn build_header(message_type: u8, flags: u8, serialization: u8, compression: u8) -> (res: [u8; 4])
    ensures
        res@ == header_bytes(message_type, flags, serialization, compression),
{
    let res = [
        nibble_byte(PROTOCOL_VERSION, HEADER_SIZE_UNITS),
        nibble_byte(message_type, flags),
        nibble_byte(serialization, compression),
        0u8,
    ];
    assert(res@ =~= header_bytes(message_type, flags, serialization, compression));
    res
}

fn push_be32(out: &mut Vec<u8>, n: u32)
    ensures
        final(out)@ == old(out)@ + be32_bytes(n),
{
    out.push((n / 0x1000000) as u8);
    out.push(((n / 0x10000) % 0x100) as u8);
    out.push(((n / 0x100) % 0x100) as u8);
    out.push((n % 0x100) as u8);
    assert(out@ =~= old(out)@ + be32_bytes(n));
}

fn push_all(out: &mut Vec<u8>, data: &[u8])
    ensures
        final(out)@ == old(out)@ + data@,
{
    let mut i: usize = 0;
    while i < data.len()
        invariant
            i <= data@.len(),
            out@ == old(out)@ + data@.subrange(0, i as int),
        decreases data.len() - i,
    {
        out.push(data[i]);
        i = i + 1;
        assert(out@ =~= old(out)@ + data@.subrange(0, i as int));
    }
    assert(data@.subrange(0, i as int) =~= data@);
}

/// Header, payload length and payload.
fn frame_bytes(message_type: u8, flags: u8, serialization: u8, compression: u8, payload: &[u8]) -> (res: Vec<u8>)
    ensures
        res@ == framed(message_type, flags, serialization, compression, payload@),
{
    let header = build_header(message_type, flags, serialization, compression);
    let mut out: Vec<u8> = Vec::new();
    push_all(&mut out, &header);
    push_be32(&mut out, payload.len() as u32);
    push_all(&mut out, payload);
    out
}

/// The frame that `build_full_client_request` sends for a payload whose JSON
/// text is `text`.
pub open spec fn full_client_request_bytes(text: Seq<char>) -> Option<Seq<u8>> {
    match gzip_encoded(vstd::utf8::encode_utf8(text)) {
        Some(gz) => Some(
            framed(MSG_TYPE_FULL_CLIENT_REQUEST, FLAG_NONE, SERIALIZATION_JSON, COMPRESSION_GZIP, gz),
        ),
        None => None,
    }
}

/// The first request of a session: the JSON payload, gzip-compressed, framed
/// as a full client request.
pub fn build_full_client_request(payload: &JsonValue) -> (res: Result<Vec<u8>, ProtocolError>)
    ensures
        res is Ok <==> (json_text(payload.model()) matches Some(t) && full_client_request_bytes(
            t,
        ) is Some),
        res matches Ok(out) ==> full_client_request_bytes(json_text(payload.model()).unwrap())
            == Some(out@),
        res matches Ok(out) ==> out@.len() >= 8 && out@[0] == 0x11 && out@[1] == 0x10 && out@[2]
            == 0x11 && out@[3] == 0 && out@.subrange(8, out@.len() as int) == gzip_encoded(
            vstd::utf8::encode_utf8(json_text(payload.model()).unwrap()),
        ).unwrap(),
        res matches Ok(out) ==> (out@.len() - 8 <= u32::MAX ==> out@[4] * 0x1000000 + out@[5]
            * 0x10000 + out@[6] * 0x100 + out@[7] == out@.len() - 8),
{
    let text = match encode_json_text(payload) {
        Ok(t) => t,
        Err(e) => {
            return Err(ProtocolError::JsonEncoding(e.message));
        },
    };
    let bytes = text.as_str().as_bytes();
    let gz = gzip_compress(bytes)?;
    let out = frame_bytes(
        MSG_TYPE_FULL_CLIENT_REQUEST,
        FLAG_NONE,
        SERIALIZATION_JSON,
        COMPRESSION_GZIP,
        gz.as_slice(),
    );
    proof {
        lemma_framed_layout(MSG_TYPE_FULL_CLIENT_REQUEST, FLAG_NONE, SERIALIZATION_JSON, COMPRESSION_GZIP, gz@);
    }
    Ok(out)
}

/// The flags of an audio frame.
pub open spec fn audio_flags(is_last: bool) -> u8 {
    if is_last {
        FLAG_LAST_PACKET
    } else {
        FLAG_NONE
    }
}

/// What decoding an audio frame built from `chunk` gives back.
pub open spec fn decoded_audio_frame(chunk: Seq<u8>, gz_len: nat, is_last: bool) -> FrameModel {
    FrameModel {
        message_type: MSG_TYPE_AUDIO_ONLY_REQUEST,
        flags: audio_flags(is_last),
        serialization: SERIALIZATION_NONE,
        compression: COMPRESSION_GZIP,
        sequence: None,
        error_code: None,
        payload_size: gz_len as u32,
        payload: PayloadModel::Binary(chunk),
    }
}

proof fn lemma_be32_round_trip(n: u32)
    ensures
        be_u32(be32_bytes(n), 0) == n,
{
    let b = be32_bytes(n);
    assert(b[0] == n / 0x1000000);
    assert(b[1] == (n / 0x10000) % 0x100);
    assert(b[2] == (n / 0x100) % 0x100);
    assert(b[3] == n % 0x100);
    assert((n / 0x1000000) * 0x1000000 + ((n / 0x10000) % 0x100) * 0x10000 + ((n / 0x100) % 0x100)
        * 0x100 + n % 0x100 == n) by (nonlinear_arith);
}

proof fn lemma_framed_round_trip(
    message_type: u8,
    flags: u8,
    serialization: u8,
    compression: u8,
    payload: Seq<u8>,
)
    requires
        message_type < 16,
        flags < 16,
        serialization < 16,
        compression < 16,
        payload.len() <= u32::MAX,
        !has_sequence_field(message_type, flags),
        !has_error_field(message_type, flags),
    ensures
        ({
            let f = framed(message_type, flags, serialization, compression, payload);
            &&& f.len() == 8 + payload.len()
            &&& f[0] / 16 == PROTOCOL_VERSION
            &&& f[0] % 16 == 1
            &&& f[1] / 16 == message_type
            &&& f[1] % 16 == flags
            &&& f[2] / 16 == serialization
            &&& f[2] % 16 == compression
            &&& be_u32(f, 4) == payload.len()
            &&& f.subrange(8, 8 + payload.len() as int) == payload
        }),
{
    let f = framed(message_type, flags, serialization, compression, payload);
    let h = header_bytes(message_type, flags, serialization, compression);
    let b = be32_bytes(payload.len() as u32);
    assert(f == h + b + payload);
    lemma_be32_round_trip(payload.len() as u32);
    assert(f[4] == b[0] && f[5] == b[1] && f[6] == b[2] && f[7] == b[3]);
    assert(f.subrange(8, 8 + payload.len() as int) =~= payload);
    assert(f[0] == 0x11);
    assert(f[1] == message_type * 16 + flags);
    assert(f[2] == serialization * 16 + compression);
}

/// An audio frame: the chunk gzip-compressed, flagged as the last one when
/// `is_last`. Decoding the frame gives the chunk back.
pub fn build_audio_request(audio_chunk: &[u8], is_last: bool) -> (res: Result<Vec<u8>, ProtocolError>)
    ensures
        res is Ok <==> gzip_encoded(audio_chunk@) is Some,
        res matches Ok(out) ==> out@ == framed(
            MSG_TYPE_AUDIO_ONLY_REQUEST,
            audio_flags(is_last),
            SERIALIZATION_NONE,
            COMPRESSION_GZIP,
            gzip_encoded(audio_chunk@).unwrap(),
        ),
        res matches Ok(out) ==> (gzip_encoded(audio_chunk@).unwrap().len() <= u32::MAX
            ==> spec_parse_frame(out@) == Ok::<FrameModel, FrameFailure>(
            decoded_audio_frame(audio_chunk@, gzip_encoded(audio_chunk@).unwrap().len(), is_last),
        )),
        res matches Ok(out) ==> out@.len() >= 8 && out@[0] == 0x11 && out@[1] == (if is_last {
            0x22u8
        } else {
            0x20u8
        }) && out@[2] == 0x01 && out@[3] == 0 && out@.subrange(8, out@.len() as int)
            == gzip_encoded(audio_chunk@).unwrap(),
        res matches Ok(out) ==> (out@.len() - 8 <= u32::MAX ==> out@[4] * 0x1000000 + out@[5]
            * 0x10000 + out@[6] * 0x100 + out@[7] == out@.len() - 8),
{
    let gz = gzip_compress(audio_chunk)?;
    let flags = if is_last {
        FLAG_LAST_PACKET
    } else {
        FLAG_NONE
    };
    let out = frame_bytes(
        MSG_TYPE_AUDIO_ONLY_REQUEST,
        flags,
        SERIALIZATION_NONE,
        COMPRESSION_GZIP,
        gz.as_slice(),
    );
    proof {
        lemma_framed_layout(MSG_TYPE_AUDIO_ONLY_REQUEST, flags, SERIALIZATION_NONE, COMPRESSION_GZIP, gz@);
        if gz@.len() <= u32::MAX {
            lemma_framed_round_trip(
                MSG_TYPE_AUDIO_ONLY_REQUEST,
                flags,
                SERIALIZATION_NONE,
                COMPRESSION_GZIP,
                gz@,
            );
        }
    }
    Ok(out)
}

fn read_be32(frame: &[u8], at: usize) -> (r: u32)
    requires
        at + 4 <= frame@.len(),
    ensures
        r == be_u32(frame@, at as int),
{
    (frame[at] as u32) * 0x1000000 + (frame[at + 1] as u32) * 0x10000 + (frame[at + 2] as u32)
        * 0x100 + (frame[at + 3] as u32)
}

fn slice_copy(data: &[u8], start: usize, end: usize) -> (res: Vec<u8>)
    requires
        start <= end <= data@.len(),
    ensures
        res@ == data@.subrange(start as int, end as int),
{
    let mut out: Vec<u8> = Vec::new();
    let mut i = start;
    while i < end
        invariant
            start <= i <= end <= data@.len(),
            out@ == data@.subrange(start as int, i as int),
        decreases end - i,
    {
        out.push(data[i]);
        i = i + 1;
        assert(out@ =~= data@.subrange(start as int, i as int));
    }
    out
}

/// Decodes a server frame: header, optional sequence / error-code field,
/// payload size, decompression and deserialization, failing at the first check
/// that the frame does not pass.
pub fn parse_response_frame(frame: &[u8]) -> (res: Result<ParsedFrame, ProtocolError>)
    ensures
        match spec_parse_frame(frame@) {
            Ok(m) => res matches Ok(p) && p.model() == m,
            Err(e) => res matches Err(err) && err.failure() == e,
        },
{
    let n = frame.len();
    if n < 8 {
        return Err(ProtocolError::InvalidFrameLength(n));
    }
    let byte0 = frame[0];
    let byte1 = frame[1];
    let byte2 = frame[2];
    let version = byte0 / 16;
    if version != PROTOCOL_VERSION {
        return Err(ProtocolError::UnsupportedVersion(version));
    }
    let header_size = ((byte0 % 16) as usize) * 4;
    if header_size < 4 || n < header_size + 4 {
        return Err(ProtocolError::InvalidHeaderSize);
    }
    let message_type = byte1 / 16;
    let flags = byte1 % 16;
    let serialization = byte2 / 16;
    let compression = byte2 % 16;

    let mut offset = header_size;
    let mut sequence: Option<i32> = None;
    let mut error_code: Option<u32> = None;
    if message_type == MSG_TYPE_FULL_SERVER_RESPONSE && (flags == FLAG_POS_SEQUENCE || flags
        == FLAG_NEG_SEQUENCE) {
        if n < offset + 4 {
            return Err(ProtocolError::MissingSequence);
        }
        sequence = Some(read_be32(frame, offset) as i32);
        offset = offset + 4;
    } else if message_type == MSG_TYPE_ERROR_RESPONSE {
        if n < offset + 4 {
            return Err(ProtocolError::MissingErrorCode);
        }
        error_code = Some(read_be32(frame, offset));
        offset = offset + 4;
    }
    if n < offset + 4 {
        return Err(ProtocolError::MissingPayloadSize);
    }
    let payload_size = read_be32(frame, offset);
    offset = offset + 4;
    if payload_size as usize > n - offset {
        return Err(ProtocolError::PayloadSizeMismatch);
    }
    let end = offset + payload_size as usize;
    let raw = slice_copy(frame, offset, end);
    let data = if compression == COMPRESSION_GZIP {
        match gzip_decode(raw.as_slice()) {
            Ok(d) => d,
            Err(message) => {
                return Err(ProtocolError::Gzip(message));
            },
        }
    } else if compression == COMPRESSION_NONE {
        raw
    } else {
        return Err(ProtocolError::UnsupportedCompression(compression));
    };
    let payload = if serialization == SERIALIZATION_JSON {
        match decode_json(data.as_slice()) {
            Ok(value) => ParsedPayload::Json(value),
            Err(e) => {
                return Err(ProtocolError::InvalidJson(e.message));
            },
        }
    } else if serialization == SERIALIZATION_NONE {
        ParsedPayload::Binary(data)
    } else {
        return Err(ProtocolError::UnsupportedSerialization(serialization));
    };
    Ok(
        ParsedFrame {
            message_type,
            flags,
            serialization,
            compression,
            sequence,
            error_code,
            payload_size,
            payload,
        },
    )
}

/// A final response: a full server response flagged as the last packet or with
/// a negative sequence.
pub open spec fn spec_is_final(message_type: u8, flags: u8) -> bool {
    message_type == MSG_TYPE_FULL_SERVER_RESPONSE && (flags == FLAG_LAST_PACKET || flags
        == FLAG_NEG_SEQUENCE)
}

/// The frame ends the recognition.
pub fn is_final_frame(frame: &ParsedFrame) -> (r: bool)
    ensures
        r == spec_is_final(frame.message_type, frame.flags),
{
    frame.message_type == MSG_TYPE_FULL_SERVER_RESPONSE && (frame.flags == FLAG_LAST_PACKET
        || frame.flags == FLAG_NEG_SEQUENCE)
}

/// The `result.text` string of a response, when `result` is an object.
pub open spec fn result_text(v: Json) -> Option<Seq<char>> {
    let r = json_get(v, "result"@);
    if is_object(r) {
        json_str(json_get(r.unwrap(), "text"@))
    } else {
        None
    }
}

/// The trimmed texts of the `result` array of a response, joined without a
/// separator (empty when `result` is not an array).
pub open spec fn result_chunks_text(v: Json) -> Seq<char> {
    match json_items(json_get(v, "result"@)) {
        Some(items) => join(text_pieces(items), ""@),
        None => Seq::empty(),
    }
}

/// The recognized text of a JSON response: the trimmed `result.text`; else the
/// joined texts of a `result` array when that is not empty; else the trimmed
/// top-level `text`; else nothing.
pub open spec fn spec_extract_text(v: Json) -> Seq<char> {
    match result_text(v) {
        Some(t) => trim(t),
        None => if result_chunks_text(v).len() > 0 {
            result_chunks_text(v)
        } else {
            match json_str(json_get(v, "text"@)) {
                Some(t) => trim(t),
                None => Seq::empty(),
            }
        },
    }
}

/// The recognized text of a payload (nothing for a binary payload).
pub open spec fn spec_payload_text(p: PayloadModel) -> Seq<char> {
    match p {
        PayloadModel::Json(v) => spec_extract_text(v),
        PayloadModel::Binary(_) => Seq::empty(),
    }
}

/// The recognized text carried by a frame payload.
pub fn extract_text(payload: &ParsedPayload) -> (res: String)
    ensures
        res@ == spec_payload_text(payload.model()),
{
    let value = match payload {
        ParsedPayload::Json(v) => v,
        ParsedPayload::Binary(_) => {
            return String::new();
        },
    };
    match value.get("result") {
        Some(result) => {
            if result.is_object() {
                match result.get("text") {
                    Some(text) => match text.as_str() {
                        Some(s) => {
                            return trim_str(s.as_str());
                        },
                        None => {},
                    },
                    None => {},
                }
            }
            match result.as_array() {
                Some(chunks) => {
                    let joined = join_item_texts(chunks, "");
                    if !joined.as_str().is_empty() {
                        return joined;
                    }
                },
                None => {},
            }
        },
        None => {},
    }
    match value.get("text") {
        Some(text) => match text.as_str() {
            Some(s) => trim_str(s.as_str()),
            None => String::new(),
        },
        None => String::new(),
    }
}

/// The members of the `"audio"` object of the first request.
pub open spec fn audio_members(audio: RequestAudioOptions) -> Seq<(Seq<char>, Json)> {
    let base = seq![
        ("format"@, Json::Str(audio.audio_format@)),
        ("rate"@, Json::Number(decimal(audio.sample_rate as nat))),
        ("bits"@, Json::Number(decimal(audio.bits as nat))),
        ("channel"@, Json::Number(decimal(audio.channels as nat))),
    ];
    match audio.language {
        Some(language) => if is_blank(language@) {
            base
        } else {
            base.push(("language"@, Json::Str(language@)))
        },
        None => base,
    }
}

/// The model name sent: `"bigmodel"` when the configured one is blank.
pub open spec fn sent_model_name(request: RequestRuntimeOptions) -> Seq<char> {
    if is_blank(request.model_name@) {
        "bigmodel"@
    } else {
        request.model_name@
    }
}

/// A hint is sent when it is set and not blank.
pub open spec fn hint_set(v: Option<String>) -> bool {
    v matches Some(s) && !is_blank(s@)
}

/// `members` with the string member `name` added when the hint is sent.
pub open spec fn push_hint(members: Seq<(Seq<char>, Json)>, name: Seq<char>, v: Option<String>) -> Seq<
    (Seq<char>, Json),
> {
    if hint_set(v) {
        members.push((name, Json::Str(v.unwrap()@)))
    } else {
        members
    }
}

/// The members of `request.corpus`, in this order: boosting table name and
/// id, correct table name and id, context.
pub open spec fn corpus_members(c: CorpusOptions) -> Seq<(Seq<char>, Json)> {
    let a = push_hint(Seq::empty(), "boosting_table_name"@, c.boosting_table_name);
    let b = push_hint(a, "boosting_table_id"@, c.boosting_table_id);
    let d = push_hint(b, "correct_table_name"@, c.correct_table_name);
    let e = push_hint(d, "correct_table_id"@, c.correct_table_id);
    push_hint(e, "context"@, c.context)
}

/// The members of the `"request"` object of the first request; `corpus` is
/// sent only when it holds a hint.
pub open spec fn request_members(request: RequestRuntimeOptions) -> Seq<(Seq<char>, Json)> {
    let base = seq![
        ("model_name"@, Json::Str(sent_model_name(request))),
        ("enable_itn"@, Json::Bool(request.enable_itn)),
        ("enable_punc"@, Json::Bool(request.enable_punc)),
        ("enable_ddc"@, Json::Bool(request.enable_ddc)),
        ("enable_nonstream"@, Json::Bool(request.enable_nonstream)),
        ("show_utterances"@, Json::Bool(request.show_utterances)),
        ("result_type"@, Json::Str(request.result_type@)),
    ];
    let corpus = corpus_members(request.corpus);
    if corpus.len() > 0 {
        base.push(("corpus"@, Json::Object(corpus)))
    } else {
        base
    }
}

/// The JSON payload of the first request: `user`, `audio` and `request`.
pub open spec fn full_payload(audio: RequestAudioOptions, request: RequestRuntimeOptions) -> Json {
    Json::Object(
        seq![
            ("user"@, Json::Object(seq![("uid"@, Json::Str(request.uid@))])),
            ("audio"@, Json::Object(audio_members(audio))),
            ("request"@, Json::Object(request_members(request))),
        ],
    )
}

fn member(key: &str, value: JsonValue) -> (res: (String, JsonValue))
    ensures
        res.0@ == key@,
        res.1 == value,
{
    (to_string(key), value)
}

/// The models of object members.
pub open spec fn member_models(entries: Seq<(String, JsonValue)>) -> Seq<(Seq<char>, Json)> {
    Seq::new(entries.len(), |i: int| (entries[i].0@, entries[i].1.model()))
}

fn push_hint_member(entries: &mut Vec<(String, JsonValue)>, name: &str, v: &Option<String>)
    ensures
        member_models(final(entries)@) == push_hint(member_models(old(entries)@), name@, *v),
{
    let ghost before = member_models(entries@);
    match v {
        Some(s) => {
            if !str_is_blank(s.as_str()) {
                entries.push(member(name, json_string(s.as_str())));
                assert(member_models(entries@) =~= before.push((name@, Json::Str(s@))));
                return;
            }
        },
        None => {},
    }
    assert(member_models(entries@) =~= before);
}

fn corpus_entries(c: &CorpusOptions) -> (res: Vec<(String, JsonValue)>)
    ensures
        member_models(res@) == corpus_members(*c),
{
    let mut entries: Vec<(String, JsonValue)> = Vec::new();
    assert(member_models(entries@) =~= Seq::<(Seq<char>, Json)>::empty());
    push_hint_member(&mut entries, "boosting_table_name", &c.boosting_table_name);
    push_hint_member(&mut entries, "boosting_table_id", &c.boosting_table_id);
    push_hint_member(&mut entries, "correct_table_name", &c.correct_table_name);
    push_hint_member(&mut entries, "correct_table_id", &c.correct_table_id);
    push_hint_member(&mut entries, "context", &c.context);
    entries
}

fn object_of(entries: Vec<(String, JsonValue)>, Ghost(expected): Ghost<Seq<(Seq<char>, Json)>>) -> (res: JsonValue)
    requires
        entries@.len() == expected.len(),
        forall|i: int| 0 <= i < expected.len() ==> #[trigger] expected[i] == (entries@[i].0@, entries@[i].1.model()),
    ensures
        res.model() == Json::Object(expected),
{
    let res = JsonValue::Object(entries);
    proof {
        assert(match res.model() {
            Json::Object(es) => es =~= expected,
            _ => false,
        });
    }
    res
}

/// The JSON payload of the first request of a session.
pub fn build_full_payload(audio: &RequestAudioOptions, request: &RequestRuntimeOptions) -> (res: JsonValue)
    ensures
        res.model() == full_payload(*audio, *request),
{
    let mut audio_entries: Vec<(String, JsonValue)> = Vec::new();
    audio_entries.push(member("format", json_string(audio.audio_format.as_str())));
    audio_entries.push(member("rate", json_uint(audio.sample_rate as u64)));
    audio_entries.push(member("bits", json_uint(audio.bits as u64)));
    audio_entries.push(member("channel", json_uint(audio.channels as u64)));
    match &audio.language {
        Some(language) => {
            if !str_is_blank(language.as_str()) {
                audio_entries.push(member("language", json_string(language.as_str())));
            }
        },
        None => {},
    }
    let audio_obj = object_of(audio_entries, Ghost(audio_members(*audio)));

    let mut user_entries: Vec<(String, JsonValue)> = Vec::new();
    user_entries.push(member("uid", json_string(request.uid.as_str())));
    let ghost user_members = seq![("uid"@, Json::Str(request.uid@))];
    let user_obj = object_of(user_entries, Ghost(user_members));

    let model_name = if str_is_blank(request.model_name.as_str()) {
        json_string("bigmodel")
    } else {
        json_string(request.model_name.as_str())
    };
    let mut request_entries: Vec<(String, JsonValue)> = Vec::new();
    request_entries.push(member("model_name", model_name));
    request_entries.push(member("enable_itn", JsonValue::Bool(request.enable_itn)));
    request_entries.push(member("enable_punc", JsonValue::Bool(request.enable_punc)));
    request_entries.push(member("enable_ddc", JsonValue::Bool(request.enable_ddc)));
    request_entries.push(member("enable_nonstream", JsonValue::Bool(request.enable_nonstream)));
    request_entries.push(member("show_utterances", JsonValue::Bool(request.show_utterances)));
    request_entries.push(member("result_type", json_string(request.result_type.as_str())));
    let corpus = corpus_entries(&request.corpus);
    if corpus.len() > 0 {
        let ghost cm = corpus_members(request.corpus);
        let corpus_obj = object_of(corpus, Ghost(cm));
        request_entries.push(member("corpus", corpus_obj));
    }
    let request_obj = object_of(request_entries, Ghost(request_members(*request)));

    let mut top: Vec<(String, JsonValue)> = Vec::new();
    top.push(member("user", user_obj));
    top.push(member("audio", audio_obj));
    top.push(member("request", request_obj));
    let ghost top_members = seq![
        ("user"@, Json::Object(seq![("uid"@, Json::Str(request.uid@))])),
        ("audio"@, Json::Object(audio_members(*audio))),
        ("request"@, Json::Object(request_members(*request))),
    ];
    object_of(top, Ghost(top_members))
}

/// What standard base64 with padding
/// (`base64::engine::general_purpose::STANDARD`) writes for `bytes`.
pub uninterp spec fn base64_standard(bytes: Seq<u8>) -> Seq<char>;

/// Encodes bytes as padded standard base64 (`Engine::encode` on
/// `base64::engine::general_purpose::STANDARD`): four characters for every
/// started group of three bytes. The crate panics when that length overflows
/// `usize`, which `requires` leaves out.
#[verifier::external_body]
fn base64_encode(bytes: &[u8]) -> (res: String)
    requires
        4 * ((bytes@.len() + 2) / 3) <= usize::MAX,
    ensures
        res@ == base64_standard(bytes@),
        res@.len() == 4 * ((bytes@.len() + 2) / 3),
{
    base64::Engine::encode(&base64::engine::general_purpose::STANDARD, bytes)
}

/// An optional signed integer as a JSON number or `null`.
pub open spec fn opt_i32_json(v: Option<i32>) -> Json {
    match v {
        Some(n) => Json::Number(signed_decimal(n as int)),
        None => Json::Null,
    }
}

/// An optional unsigned integer as a JSON number or `null`.
pub open spec fn opt_u32_json(v: Option<u32>) -> Json {
    match v {
        Some(n) => Json::Number(decimal(n as nat)),
        None => Json::Null,
    }
}

/// The logged form of a payload: the JSON value itself, or
/// `{"encoding": "base64", "data": ...}` for binary data.
pub open spec fn payload_json(p: PayloadModel) -> Json {
    match p {
        PayloadModel::Json(v) => v,
        PayloadModel::Binary(b) => Json::Object(
            seq![("encoding"@, Json::Str("base64"@)), ("data"@, Json::Str(base64_standard(b)))],
        ),
    }
}

/// The logged form of a frame: its header fields, optional fields (`null`
/// when absent), payload size and payload.
pub open spec fn frame_json(f: FrameModel) -> Json {
    Json::Object(
        seq![
            ("message_type"@, Json::Number(decimal(f.message_type as nat))),
            ("flags"@, Json::Number(decimal(f.flags as nat))),
            ("serialization"@, Json::Number(decimal(f.serialization as nat))),
            ("compression"@, Json::Number(decimal(f.compression as nat))),
            ("sequence"@, opt_i32_json(f.sequence)),
            ("error_code"@, opt_u32_json(f.error_code)),
            ("payload_size"@, Json::Number(decimal(f.payload_size as nat))),
            ("payload"@, payload_json(f.payload)),
        ],
    )
}

/// A decoded frame as a JSON document for the session log.
pub fn frame_to_json_value(frame: &ParsedFrame) -> (res: JsonValue)
    requires
        frame.payload matches ParsedPayload::Binary(b) ==> 4 * ((b@.len() + 2) / 3) <= usize::MAX,
    ensures
        res.model() == frame_json(frame.model()),
{
    let payload = match &frame.payload {
        ParsedPayload::Json(value) => value.deep_copy(),
        ParsedPayload::Binary(bytes) => {
            let mut entries: Vec<(String, JsonValue)> = Vec::new();
            entries.push(member("encoding", json_string("base64")));
            entries.push(member("data", JsonValue::Str(base64_encode(bytes.as_slice()))));
            let ghost expected = seq![
                ("encoding"@, Json::Str("base64"@)),
                ("data"@, Json::Str(base64_standard(bytes@))),
            ];
            object_of(entries, Ghost(expected))
        },
    };
    let sequence = match frame.sequence {
        Some(n) => json_i32(n),
        None => JsonValue::Null,
    };
    let error_code = match frame.error_code {
        Some(n) => json_uint(n as u64),
        None => JsonValue::Null,
    };
    let mut entries: Vec<(String, JsonValue)> = Vec::new();
    entries.push(member("message_type", json_uint(frame.message_type as u64)));
    entries.push(member("flags", json_uint(frame.flags as u64)));
    entries.push(member("serialization", json_uint(frame.serialization as u64)));
    entries.push(member("compression", json_uint(frame.compression as u64)));
    entries.push(member("sequence", sequence));
    entries.push(member("error_code", error_code));
    entries.push(member("payload_size", json_uint(frame.payload_size as u64)));
    entries.push(member("payload", payload));
    let ghost m = frame.model();
    let ghost expected = seq![
        ("message_type"@, Json::Number(decimal(m.message_type as nat))),
        ("flags"@, Json::Number(decimal(m.flags as nat))),
        ("serialization"@, Json::Number(decimal(m.serialization as nat))),
        ("compression"@, Json::Number(decimal(m.compression as nat))),
        ("sequence"@, opt_i32_json(m.sequence)),
        ("error_code"@, opt_u32_json(m.error_code)),
        ("payload_size"@, Json::Number(decimal(m.payload_size as nat))),
        ("payload"@, payload_json(m.payload)),
    ];
    object_of(entries, Ghost(expected))
}

/// The hotwords document `{"hotwords": [{"word": ...}, ...]}`.
pub open spec fn hotwords_document(words: Seq<Seq<char>>) -> Json {
    Json::Object(
        seq![
            (
                "hotwords"@,
                Json::Array(
                    Seq::new(words.len(), |i: int| Json::Object(seq![("word"@, Json::Str(words[i]))])),
                ),
            ),
        ],
    )
}

/// The `corpus.context` for hotwords: the JSON text of the hotwords document
/// of the trimmed, non-blank words; none when no word is left.
pub open spec fn spec_hotwords_context(words: Seq<Seq<char>>) -> Option<Seq<char>> {
    let ws = trimmed_nonblank(words);
    if ws.len() == 0 {
        None
    } else {
        json_text(hotwords_document(ws))
    }
}

/// The `corpus.context` JSON string for a list of hotwords.
pub fn hotwords_context(words: &Vec<String>) -> (res: Option<String>)
    ensures
        match res {
            Some(t) => spec_hotwords_context(views(words@)) == Some(t@),
            None => spec_hotwords_context(views(words@)) is None,
        },
{
    let ws = trimmed_nonblank_strings(words);
    if ws.len() == 0 {
        return None;
    }
    let ghost wv = views(ws@);
    let mut items: Vec<JsonValue> = Vec::new();
    let mut i: usize = 0;
    while i < ws.len()
        invariant
            i <= ws@.len(),
            wv == views(ws@),
            items@.len() == i,
            forall|j: int|
                0 <= j < i ==> (#[trigger] items@[j]).model() == Json::Object(
                    seq![("word"@, Json::Str(wv[j]))],
                ),
        decreases ws.len() - i,
    {
        let mut entries: Vec<(String, JsonValue)> = Vec::new();
        entries.push(member("word", json_string(ws[i].as_str())));
        let ghost expected = seq![("word"@, Json::Str(wv[i as int]))];
        items.push(object_of(entries, Ghost(expected)));
        i = i + 1;
    }
    let array = JsonValue::Array(items);
    proof {
        let m = match array.model() {
            Json::Array(ms) => ms,
            _ => Seq::empty(),
        };
        assert(m =~= Seq::new(wv.len(), |k: int| Json::Object(seq![("word"@, Json::Str(wv[k]))])));
    }
    let mut top: Vec<(String, JsonValue)> = Vec::new();
    top.push(member("hotwords", array));
    let ghost expected_top = seq![
        (
            "hotwords"@,
            Json::Array(
                Seq::new(wv.len(), |k: int| Json::Object(seq![("word"@, Json::Str(wv[k]))])),
            ),
        ),
    ];
    let document = object_of(top, Ghost(expected_top));
    match encode_json_text(&document) {
        Ok(t) => Some(t),
        Err(_) => None,
    }
}

/// The static `corpus.context` of a session: the trimmed raw context when it
/// is not blank (hotwords are then ignored), else the hotwords context.
pub open spec fn spec_static_context(raw: Seq<char>, words: Seq<Seq<char>>) -> Option<Seq<char>> {
    if !is_blank(raw) {
        Some(trim(raw))
    } else {
        spec_hotwords_context(words)
    }
}

/// The `corpus.context` configured for every utterance of a session.
pub fn static_corpus_context(raw: &str, hotwords: &Vec<String>) -> (res: Option<String>)
    ensures
        match res {
            Some(t) => spec_static_context(raw@, views(hotwords@)) == Some(t@),
            None => spec_static_context(raw@, views(hotwords@)) is None,
        },
{
    if !str_is_blank(raw) {
        Some(trim_str(raw))
    } else {
        hotwords_context(hotwords)
    }
}

proof fn lemma_push_hint_lookup(m: Seq<(Seq<char>, Json)>, name: Seq<char>, v: Option<String>, key: Seq<char>)
    ensures
        crate::json::lookup(push_hint(m, name, v), key) == (if crate::json::lookup(m, key) is Some {
            crate::json::lookup(m, key)
        } else if hint_set(v) && name == key {
            Some(Json::Str(v.unwrap()@))
        } else {
            None
        }),
{
    if hint_set(v) {
        lemma_lookup_push(m, name, Json::Str(v.unwrap()@), key);
    }
}

/// The corpus hints reach Doubao under `request.corpus`, each under its own
/// name and only when set and not blank, with one member per such hint; with
/// no hint there is no `corpus`.
pub proof fn law_payload_carries_corpus(audio: RequestAudioOptions, request: RequestRuntimeOptions)
    ensures
        ({
            let r = json_get(full_payload(audio, request), "request"@).unwrap();
            let c = request.corpus;
            let any = (c.boosting_table_name matches Some(t) && !is_blank(t@)) || (
            c.boosting_table_id matches Some(t) && !is_blank(t@)) || (c.correct_table_name matches Some(
                t,
            ) && !is_blank(t@)) || (c.correct_table_id matches Some(t) && !is_blank(t@)) || (
            c.context matches Some(t) && !is_blank(t@));
            let corpus = json_get(r, "corpus"@);
            &&& !any ==> corpus is None
            &&& any ==> corpus is Some
            &&& (c.context matches Some(t) && !is_blank(t@)) ==> json_get(corpus.unwrap(), "context"@)
                == Some(Json::Str(c.context.unwrap()@))
            &&& (c.boosting_table_name matches Some(t) && !is_blank(t@)) ==> json_get(
                corpus.unwrap(),
                "boosting_table_name"@,
            ) == Some(Json::Str(c.boosting_table_name.unwrap()@))
            &&& (c.boosting_table_id matches Some(t) && !is_blank(t@)) ==> json_get(
                corpus.unwrap(),
                "boosting_table_id"@,
            ) == Some(Json::Str(c.boosting_table_id.unwrap()@))
            &&& (c.correct_table_name matches Some(t) && !is_blank(t@)) ==> json_get(
                corpus.unwrap(),
                "correct_table_name"@,
            ) == Some(Json::Str(c.correct_table_name.unwrap()@))
            &&& (c.correct_table_id matches Some(t) && !is_blank(t@)) ==> json_get(
                corpus.unwrap(),
                "correct_table_id"@,
            ) == Some(Json::Str(c.correct_table_id.unwrap()@))
            &&& r matches Json::Object(rm) && rm.len() == (if any {
                8int
            } else {
                7int
            })
            &&& any ==> (corpus.unwrap() matches Json::Object(cm) && cm.len() == (if (
            c.boosting_table_name matches Some(t) && !is_blank(t@)) {
                1int
            } else {
                0int
            }) + (if (c.boosting_table_id matches Some(t) && !is_blank(t@)) {
                1int
            } else {
                0int
            }) + (if (c.correct_table_name matches Some(t) && !is_blank(t@)) {
                1int
            } else {
                0int
            }) + (if (c.correct_table_id matches Some(t) && !is_blank(t@)) {
                1int
            } else {
                0int
            }) + (if (c.context matches Some(t) && !is_blank(t@)) {
                1int
            } else {
                0int
            }))
        }),
{
    law_payload_carries_each_option(audio, request);
    reveal_strlit("boosting_table_name");
    reveal_strlit("boosting_table_id");
    reveal_strlit("correct_table_name");
    reveal_strlit("correct_table_id");
    reveal_strlit("context");
    reveal_strlit("corpus");
    reveal_strlit("model_name");
    reveal_strlit("enable_itn");
    reveal_strlit("enable_punc");
    reveal_strlit("enable_ddc");
    reveal_strlit("enable_nonstream");
    reveal_strlit("show_utterances");
    reveal_strlit("result_type");
    assert("boosting_table_name"@.len() == 19 && "boosting_table_id"@.len() == 17);
    assert("correct_table_name"@.len() == 18 && "correct_table_id"@.len() == 16);
    assert("context"@.len() == 7 && "corpus"@.len() == 6 && "model_name"@.len() == 10);
    assert("enable_itn"@.len() == 10 && "enable_punc"@.len() == 11 && "enable_ddc"@.len() == 10);
    assert("enable_nonstream"@.len() == 16 && "show_utterances"@.len() == 15);
    assert("result_type"@.len() == 11);
    assert("corpus"@[0] == 'c' && "context"@[0] == 'c');
    let c = request.corpus;
    let e0 = Seq::<(Seq<char>, Json)>::empty();
    let e1 = push_hint(e0, "boosting_table_name"@, c.boosting_table_name);
    let e2 = push_hint(e1, "boosting_table_id"@, c.boosting_table_id);
    let e3 = push_hint(e2, "correct_table_name"@, c.correct_table_name);
    let e4 = push_hint(e3, "correct_table_id"@, c.correct_table_id);
    let e5 = push_hint(e4, "context"@, c.context);
    assert(e5 == corpus_members(c));
    lemma_push_hint_lookup(e0, "boosting_table_name"@, c.boosting_table_name, "boosting_table_name"@);
    lemma_push_hint_lookup(e1, "boosting_table_id"@, c.boosting_table_id, "boosting_table_name"@);
    lemma_push_hint_lookup(e2, "correct_table_name"@, c.correct_table_name, "boosting_table_name"@);
    lemma_push_hint_lookup(e3, "correct_table_id"@, c.correct_table_id, "boosting_table_name"@);
    lemma_push_hint_lookup(e4, "context"@, c.context, "boosting_table_name"@);
    lemma_push_hint_lookup(e0, "boosting_table_name"@, c.boosting_table_name, "boosting_table_id"@);
    lemma_push_hint_lookup(e1, "boosting_table_id"@, c.boosting_table_id, "boosting_table_id"@);
    lemma_push_hint_lookup(e2, "correct_table_name"@, c.correct_table_name, "boosting_table_id"@);
    lemma_push_hint_lookup(e3, "correct_table_id"@, c.correct_table_id, "boosting_table_id"@);
    lemma_push_hint_lookup(e4, "context"@, c.context, "boosting_table_id"@);
    lemma_push_hint_lookup(e0, "boosting_table_name"@, c.boosting_table_name, "correct_table_name"@);
    lemma_push_hint_lookup(e1, "boosting_table_id"@, c.boosting_table_id, "correct_table_name"@);
    lemma_push_hint_lookup(e2, "correct_table_name"@, c.correct_table_name, "correct_table_name"@);
    lemma_push_hint_lookup(e3, "correct_table_id"@, c.correct_table_id, "correct_table_name"@);
    lemma_push_hint_lookup(e4, "context"@, c.context, "correct_table_name"@);
    lemma_push_hint_lookup(e0, "boosting_table_name"@, c.boosting_table_name, "correct_table_id"@);
    lemma_push_hint_lookup(e1, "boosting_table_id"@, c.boosting_table_id, "correct_table_id"@);
    lemma_push_hint_lookup(e2, "correct_table_name"@, c.correct_table_name, "correct_table_id"@);
    lemma_push_hint_lookup(e3, "correct_table_id"@, c.correct_table_id, "correct_table_id"@);
    lemma_push_hint_lookup(e4, "context"@, c.context, "correct_table_id"@);
    lemma_push_hint_lookup(e0, "boosting_table_name"@, c.boosting_table_name, "context"@);
    lemma_push_hint_lookup(e1, "boosting_table_id"@, c.boosting_table_id, "context"@);
    lemma_push_hint_lookup(e2, "correct_table_name"@, c.correct_table_name, "context"@);
    lemma_push_hint_lookup(e3, "correct_table_id"@, c.correct_table_id, "context"@);
    lemma_push_hint_lookup(e4, "context"@, c.context, "context"@);
    let any = hint_set(c.boosting_table_name) || hint_set(c.boosting_table_id) || hint_set(
        c.correct_table_name,
    ) || hint_set(c.correct_table_id) || hint_set(c.context);
    if any {
        assert(e5.len() > 0);
    } else {
        assert(e5.len() == 0);
    }
    let rm = request_members(request);
    reveal_strlit("user");
    reveal_strlit("audio");
    reveal_strlit("request");
    let top = seq![
        ("user"@, Json::Object(seq![("uid"@, Json::Str(request.uid@))])),
        ("audio"@, Json::Object(audio_members(audio))),
        ("request"@, Json::Object(rm)),
    ];
    assert(full_payload(audio, request) == Json::Object(top));
    assert("user"@.len() == 4 && "audio"@.len() == 5 && "request"@.len() == 7);
    assert(top[0].0 != "request"@ && top[1].0 != "request"@);
    lemma_lookup_at(top, "request"@, 2);
    if e5.len() > 0 {
        lemma_lookup_at(rm, "corpus"@, 7);
    } else {
        crate::json::lemma_lookup_absent(rm, "corpus"@);
    }
}

/// The first request asks Doubao for exactly the configured recognition:
/// every option lands under its own name in `request`, the audio format
/// under its own name in `audio`, and the user id under `user`, with no
/// other member beside them.
pub proof fn law_payload_carries_each_option(audio: RequestAudioOptions, request: RequestRuntimeOptions)
    ensures
        ({
            let p = full_payload(audio, request);
            let r = json_get(p, "request"@);
            let a = json_get(p, "audio"@);
            let u = json_get(p, "user"@);
            &&& r is Some && a is Some && u is Some
            &&& json_get(r.unwrap(), "enable_itn"@) == Some(Json::Bool(request.enable_itn))
            &&& json_get(r.unwrap(), "enable_punc"@) == Some(Json::Bool(request.enable_punc))
            &&& json_get(r.unwrap(), "enable_ddc"@) == Some(Json::Bool(request.enable_ddc))
            &&& json_get(r.unwrap(), "enable_nonstream"@) == Some(Json::Bool(request.enable_nonstream))
            &&& json_get(r.unwrap(), "show_utterances"@) == Some(Json::Bool(request.show_utterances))
            &&& json_get(r.unwrap(), "result_type"@) == Some(Json::Str(request.result_type@))
            &&& !is_blank(request.model_name@) ==> json_get(r.unwrap(), "model_name"@) == Some(
                Json::Str(request.model_name@),
            )
            &&& is_blank(request.model_name@) ==> json_get(r.unwrap(), "model_name"@) == Some(
                Json::Str("bigmodel"@),
            )
            &&& json_get(a.unwrap(), "format"@) == Some(Json::Str(audio.audio_format@))
            &&& json_get(a.unwrap(), "rate"@) == Some(Json::Number(decimal(audio.sample_rate as nat)))
            &&& json_get(a.unwrap(), "bits"@) == Some(Json::Number(decimal(audio.bits as nat)))
            &&& json_get(a.unwrap(), "channel"@) == Some(Json::Number(decimal(audio.channels as nat)))
            &&& json_get(u.unwrap(), "uid"@) == Some(Json::Str(request.uid@))
            &&& (audio.language matches Some(l) && !is_blank(l@)) ==> json_get(a.unwrap(), "language"@)
                == Some(Json::Str(audio.language.unwrap()@))
            &&& !(audio.language matches Some(l) && !is_blank(l@)) ==> json_get(
                a.unwrap(),
                "language"@,
            ) is None
            &&& p matches Json::Object(top) && top.len() == 3
            &&& u.unwrap() matches Json::Object(um) && um.len() == 1
            &&& a.unwrap() matches Json::Object(am) && am.len() == (if (audio.language matches Some(
                l,
            ) && !is_blank(l@)) {
                5int
            } else {
                4int
            })
        }),
{
    reveal_strlit("user");
    reveal_strlit("audio");
    reveal_strlit("request");
    reveal_strlit("uid");
    reveal_strlit("format");
    reveal_strlit("rate");
    reveal_strlit("bits");
    reveal_strlit("channel");
    reveal_strlit("model_name");
    reveal_strlit("enable_itn");
    reveal_strlit("enable_punc");
    reveal_strlit("enable_ddc");
    reveal_strlit("enable_nonstream");
    reveal_strlit("show_utterances");
    reveal_strlit("result_type");
    let top = seq![
        ("user"@, Json::Object(seq![("uid"@, Json::Str(request.uid@))])),
        ("audio"@, Json::Object(audio_members(audio))),
        ("request"@, Json::Object(request_members(request))),
    ];
    assert(full_payload(audio, request) == Json::Object(top));
    assert("user"@.len() == 4 && "audio"@.len() == 5 && "request"@.len() == 7);
    assert(top[0].0 != "audio"@ && top[0].0 != "request"@ && top[1].0 != "request"@);
    lemma_lookup_at(top, "user"@, 0);
    lemma_lookup_at(top, "audio"@, 1);
    lemma_lookup_at(top, "request"@, 2);
    lemma_lookup_at(seq![("uid"@, Json::Str(request.uid@))], "uid"@, 0);
    let am = audio_members(audio);
    assert("format"@.len() == 6 && "rate"@.len() == 4 && "bits"@.len() == 4 && "channel"@.len() == 7);
    assert("rate"@[0] == 'r' && "bits"@[0] == 'b');
    assert(am[0].0 != "rate"@ && am[0].0 != "bits"@ && am[0].0 != "channel"@);
    assert(am[1].0 != "bits"@ && am[1].0 != "channel"@ && am[2].0 != "channel"@);
    lemma_lookup_at(am, "format"@, 0);
    lemma_lookup_at(am, "rate"@, 1);
    lemma_lookup_at(am, "bits"@, 2);
    lemma_lookup_at(am, "channel"@, 3);
    reveal_strlit("language");
    assert("language"@.len() == 8);
    if audio.language matches Some(l) && !is_blank(l@) {
        lemma_lookup_at(am, "language"@, 4);
    } else {
        crate::json::lemma_lookup_absent(am, "language"@);
    }
    let rm = request_members(request);
    assert("model_name"@.len() == 10 && "enable_itn"@.len() == 10 && "enable_punc"@.len() == 11);
    assert("enable_ddc"@.len() == 10 && "enable_nonstream"@.len() == 16);
    assert("show_utterances"@.len() == 15 && "result_type"@.len() == 11);
    assert("model_name"@[0] == 'm' && "enable_itn"@[7] == 'i' && "enable_ddc"@[7] == 'd');
    assert("enable_punc"@[0] == 'e' && "result_type"@[0] == 'r');
    lemma_lookup_at(rm, "model_name"@, 0);
    lemma_lookup_at(rm, "enable_itn"@, 1);
    lemma_lookup_at(rm, "enable_punc"@, 2);
    lemma_lookup_at(rm, "enable_ddc"@, 3);
    lemma_lookup_at(rm, "enable_nonstream"@, 4);
    lemma_lookup_at(rm, "show_utterances"@, 5);
    lemma_lookup_at(rm, "result_type"@, 6);
}

} // verus!
