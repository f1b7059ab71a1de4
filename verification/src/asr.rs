//! The streaming ASR session rules: required options, the upload format of a
//! microphone session, the size and split of audio chunks, and how each server
//! frame updates the session's result.
use vstd::prelude::*;

use crate::protocol::{
    extract_text, is_final_frame, spec_is_final, spec_payload_text, ParsedFrame,
    MSG_TYPE_ERROR_RESPONSE,
};
use crate::text::{
    chars_eq_str, is_blank, normalized, normalized_chars, str_is_blank, to_string, trim, trim_str,
};

verus! {

/// Why a session cannot start or was ended by the server.
pub enum AsrError {
    MissingAppId,
    MissingAccessToken,
    MissingResourceId,
    MissingWsUrl,
    EmptyAudio,
    MicFormatNotPcm,
    MicBitsNot16,
    MicNotMono,
    MicTargetMismatch,
    /// The server answered with an error frame carrying this code.
    ServerError(Option<u32>),
}

/// The bytes of one audio chunk: `chunk_bytes` when set; else `chunk_ms` of
/// audio at the given rate, sample width (bits rounded up to whole bytes) and
/// channel count, at least one sample frame.
pub open spec fn spec_chunk_bytes(chunk_bytes: nat, chunk_ms: nat, sample_rate: nat, bits: nat, channels: nat) -> nat {
    if chunk_bytes > 0 {
        chunk_bytes
    } else {
        let bytes_per_sample = (bits + 7) / 8;
        let inferred = sample_rate * bytes_per_sample * channels * chunk_ms / 1000;
        let frame = bytes_per_sample * channels;
        if inferred >= frame {
            inferred
        } else {
            frame
        }
    }
}

/// The size in bytes of the audio chunks of a session.
pub fn infer_chunk_bytes(chunk_bytes: usize, chunk_ms: u32, sample_rate: u32, bits: u16, channels: u16) -> (res: usize)
    requires
        chunk_bytes == 0 ==> sample_rate * ((bits + 7) / 8) <= usize::MAX,
        chunk_bytes == 0 ==> sample_rate * ((bits + 7) / 8) * channels <= usize::MAX,
        chunk_bytes == 0 ==> sample_rate * ((bits + 7) / 8) * channels * chunk_ms <= usize::MAX,
    ensures
        res == spec_chunk_bytes(
            chunk_bytes as nat,
            chunk_ms as nat,
            sample_rate as nat,
            bits as nat,
            channels as nat,
        ),
{
    if chunk_bytes > 0 {
        return chunk_bytes;
    }
    let bytes_per_sample: usize = (bits as usize + 7) / 8;
    proof {
        assert(bytes_per_sample * channels <= 8192 * 65535) by (nonlinear_arith)
            requires
                bytes_per_sample <= 8192,
                channels <= 65535,
        ;
    }
    let bytes_per_second = sample_rate as usize * bytes_per_sample * channels as usize;
    let inferred = (bytes_per_second * chunk_ms as usize) / 1000;
    let frame = bytes_per_sample * channels as usize;
    if inferred >= frame {
        inferred
    } else {
        frame
    }
}

/// `data` split into consecutive chunks of `size` bytes, the last one shorter
/// when the size does not divide the length; no chunk for empty data.
pub open spec fn spec_chunks(data: Seq<u8>, size: nat) -> Seq<Seq<u8>>
    decreases data.len(),
{
    if data.len() == 0 || size == 0 {
        Seq::empty()
    } else if data.len() <= size {
        seq![data]
    } else {
        seq![data.take(size as int)] + spec_chunks(data.skip(size as int), size)
    }
}

/// The concatenation of `chunks`.
pub open spec fn flatten(chunks: Seq<Seq<u8>>) -> Seq<u8>
    decreases chunks.len(),
{
    if chunks.len() == 0 {
        Seq::empty()
    } else {
        chunks[0] + flatten(chunks.drop_first())
    }
}

/// The chunks as sent: one chunk holding all of `data` when `size` is 0.
pub open spec fn spec_chunk_data(data: Seq<u8>, size: nat) -> Seq<Seq<u8>> {
    if size == 0 {
        seq![data]
    } else {
        spec_chunks(data, size)
    }
}

/// The views of a list of chunks.
pub open spec fn chunk_views(chunks: Seq<Vec<u8>>) -> Seq<Seq<u8>> {
    Seq::new(chunks.len(), |i: int| chunks[i]@)
}

/// Splitting loses and adds nothing: the chunks concatenate back to the data,
/// and every chunk but the last is exactly `size` bytes.
pub proof fn law_chunks_concatenate(data: Seq<u8>, size: nat)
    requires
        size > 0,
    ensures
        flatten(spec_chunks(data, size)) == data,
        forall|i: int| 0 <= i < spec_chunks(data, size).len() - 1 ==> #[trigger] spec_chunks(data, size)[i].len() == size,
        forall|i: int| 0 <= i < spec_chunks(data, size).len() ==> 0 < #[trigger] spec_chunks(data, size)[i].len() <= size,
    decreases data.len(),
{
    let c = spec_chunks(data, size);
    if data.len() == 0 {
    } else if data.len() <= size {
        assert(flatten(c.drop_first()) == Seq::<u8>::empty());
        assert(data + Seq::<u8>::empty() =~= data);
    } else {
        let rest = data.skip(size as int);
        law_chunks_concatenate(rest, size);
        assert(c.drop_first() =~= spec_chunks(rest, size));
        assert(data.take(size as int) + rest =~= data);
        assert forall|i: int| 0 <= i < c.len() - 1 implies #[trigger] c[i].len() == size by {
            if i > 0 {
                assert(c[i] == spec_chunks(rest, size)[i - 1]);
            }
        }
        assert forall|i: int| 0 <= i < c.len() implies 0 < #[trigger] c[i].len() <= size by {
            if i > 0 {
                assert(c[i] == spec_chunks(rest, size)[i - 1]);
            }
        }
    }
}

fn copy_range(data: &[u8], start: usize, end: usize) -> (res: Vec<u8>)
    requires
        start <= end <= data@.len(),
    ensures
        res@ == data@.subrange(start as int, end as int),
{
    let mut out: Vec<u8> = Vec::new();
    let mut i = start;
    while i < end
        invariant
            start <= i <= end <= data@.len(),
            out@ == data@.subrange(start as int, i as int),
        decreases end - i,
    {
        out.push(data[i]);
        i = i + 1;
        assert(out@ =~= data@.subrange(start as int, i as int));
    }
    out
}

/// The audio of a file session split into the chunks that are sent one frame
/// each.
pub fn chunk_data(data: &[u8], chunk_size: usize) -> (res: Vec<Vec<u8>>)
    ensures
        chunk_views(res@) == spec_chunk_data(data@, chunk_size as nat),
{
    if chunk_size == 0 {
        let mut only: Vec<Vec<u8>> = Vec::new();
        only.push(copy_range(data, 0, data.len()));
        proof {
            assert(data@.subrange(0, data@.len() as int) =~= data@);
            assert(chunk_views(only@) =~= seq![data@]);
        }
        return only;
    }
    let mut out: Vec<Vec<u8>> = Vec::new();
    let mut start: usize = 0;
    proof {
        assert(data@.skip(0) =~= data@);
        assert(chunk_views(out@) + spec_chunks(data@, chunk_size as nat) =~= spec_chunks(data@, chunk_size as nat));
    }
    while start < data.len()
        invariant
            chunk_size > 0,
            start <= data@.len(),
            chunk_views(out@) + spec_chunks(data@.skip(start as int), chunk_size as nat) == spec_chunks(
                data@,
                chunk_size as nat,
            ),
        decreases data.len() - start,
    {
        let remaining = data.len() - start;
        let ghost rest = data@.skip(start as int);
        let ghost before = chunk_views(out@);
        if remaining <= chunk_size {
            out.push(copy_range(data, start, data.len()));
            proof {
                assert(data@.subrange(start as int, data@.len() as int) =~= rest);
                assert(chunk_views(out@) =~= before.push(rest));
                assert(spec_chunks(rest, chunk_size as nat) == seq![rest]);
                assert(data@.skip(data@.len() as int) =~= Seq::<u8>::empty());
                assert(before + seq![rest] =~= before.push(rest) + Seq::<Seq<u8>>::empty());
            }
            start = data.len();
        } else {
            let end = start + chunk_size;
            out.push(copy_range(data, start, end));
            proof {
                assert(data@.subrange(start as int, end as int) =~= rest.take(chunk_size as int));
                assert(rest.skip(chunk_size as int) =~= data@.skip(end as int));
                assert(chunk_views(out@) =~= before.push(rest.take(chunk_size as int)));
                assert(before + spec_chunks(rest, chunk_size as nat) =~= before.push(
                    rest.take(chunk_size as int),
                ) + spec_chunks(data@.skip(end as int), chunk_size as nat));
            }
            start = end;
        }
    }
    proof {
        assert(data@.skip(start as int).len() == 0);
        assert(chunk_views(out@) + Seq::<Seq<u8>>::empty() =~= chunk_views(out@));
    }
    out
}

/// The first missing required option of a session, if any.
pub open spec fn spec_session_options_error(app_id: Seq<char>, access_token: Seq<char>, resource_id: Seq<char>, ws_url: Seq<char>) -> Option<AsrError> {
    if is_blank(app_id) {
        Some(AsrError::MissingAppId)
    } else if is_blank(access_token) {
        Some(AsrError::MissingAccessToken)
    } else if is_blank(resource_id) {
        Some(AsrError::MissingResourceId)
    } else if is_blank(ws_url) {
        Some(AsrError::MissingWsUrl)
    } else {
        None
    }
}

/// The options required to open a session are all present.
pub fn validate_session_options(app_id: &str, access_token: &str, resource_id: &str, ws_url: &str) -> (res: Result<(), AsrError>)
    ensures
        match spec_session_options_error(app_id@, access_token@, resource_id@, ws_url@) {
            None => res is Ok,
            Some(e) => res == Err::<(), AsrError>(e),
        },
{
    if str_is_blank(app_id) {
        return Err(AsrError::MissingAppId);
    }
    if str_is_blank(access_token) {
        return Err(AsrError::MissingAccessToken);
    }
    if str_is_blank(resource_id) {
        return Err(AsrError::MissingResourceId);
    }
    if str_is_blank(ws_url) {
        return Err(AsrError::MissingWsUrl);
    }
    Ok(())
}

/// A character that an HTTP header value may hold (`http::HeaderValue`
/// accepts every byte from 32 up except 127, and tab).
pub open spec fn header_char_ok(c: char) -> bool {
    (c as u32 >= 32 && c as u32 != 127) || c == '\t'
}

/// Every character of `s` may stand in an HTTP header value.
pub open spec fn header_value_ok(s: Seq<char>) -> bool {
    forall|i: int| 0 <= i < s.len() ==> header_char_ok(#[trigger] s[i])
}

/// Whether `http::HeaderValue::from_str` accepts `s`.
#[verifier::external_body]
fn header_value_valid(s: &str) -> (r: bool)
    ensures
        r == header_value_ok(s@),
{
    http::HeaderValue::from_str(s).is_ok()
}

/// Which handshake header value is refused.
pub enum HandshakeError {
    InvalidAppId,
    InvalidAccessToken,
    InvalidResourceId,
    InvalidConnectId,
}

/// The authentication headers of the WebSocket handshake: the trimmed app
/// id, access token and resource id, and the connect id; an error names the
/// first value that cannot be a header value.
pub open spec fn spec_handshake_headers(
    app_id: Seq<char>,
    access_token: Seq<char>,
    resource_id: Seq<char>,
    connect_id: Seq<char>,
) -> Result<Seq<(Seq<char>, Seq<char>)>, HandshakeError> {
    if !header_value_ok(trim(app_id)) {
        Err(HandshakeError::InvalidAppId)
    } else if !header_value_ok(trim(access_token)) {
        Err(HandshakeError::InvalidAccessToken)
    } else if !header_value_ok(trim(resource_id)) {
        Err(HandshakeError::InvalidResourceId)
    } else if !header_value_ok(connect_id) {
        Err(HandshakeError::InvalidConnectId)
    } else {
        Ok(
            seq![
                ("X-Api-App-Key"@, trim(app_id)),
                ("X-Api-Access-Key"@, trim(access_token)),
                ("X-Api-Resource-Id"@, trim(resource_id)),
                ("X-Api-Connect-Id"@, connect_id),
            ],
        )
    }
}

/// The header names and values added to the WebSocket handshake request.
pub fn handshake_headers(app_id: &str, access_token: &str, resource_id: &str, connect_id: &str) -> (res: Result<Vec<(String, String)>, HandshakeError>)
    ensures
        match spec_handshake_headers(app_id@, access_token@, resource_id@, connect_id@) {
            Ok(hs) => res matches Ok(v) && v@.len() == hs.len() && forall|i: int|
                0 <= i < hs.len() ==> (#[trigger] v@[i]).0@ == hs[i].0 && v@[i].1@ == hs[i].1,
            Err(e) => res == Err::<Vec<(String, String)>, HandshakeError>(e),
        },
{
    let app = trim_str(app_id);
    let token = trim_str(access_token);
    let resource = trim_str(resource_id);
    if !header_value_valid(app.as_str()) {
        return Err(HandshakeError::InvalidAppId);
    }
    if !header_value_valid(token.as_str()) {
        return Err(HandshakeError::InvalidAccessToken);
    }
    if !header_value_valid(resource.as_str()) {
        return Err(HandshakeError::InvalidResourceId);
    }
    if !header_value_valid(connect_id) {
        return Err(HandshakeError::InvalidConnectId);
    }
    let mut headers: Vec<(String, String)> = Vec::new();
    headers.push((to_string("X-Api-App-Key"), app));
    headers.push((to_string("X-Api-Access-Key"), token));
    headers.push((to_string("X-Api-Resource-Id"), resource));
    headers.push((to_string("X-Api-Connect-Id"), to_string(connect_id)));
    Ok(headers)
}

/// Why a microphone session refuses its upload format, if it does.
pub open spec fn spec_mic_format_error(
    audio_format: Seq<char>,
    bits: u16,
    channels: u16,
    sample_rate: u32,
    target_sample_rate: u32,
    target_channels: u16,
) -> Option<AsrError> {
    if normalized(audio_format) != "pcm"@ {
        Some(AsrError::MicFormatNotPcm)
    } else if bits != 16 {
        Some(AsrError::MicBitsNot16)
    } else if channels != 1 {
        Some(AsrError::MicNotMono)
    } else if target_sample_rate != sample_rate || target_channels != channels {
        Some(AsrError::MicTargetMismatch)
    } else {
        None
    }
}

/// A microphone session uploads 16-bit mono PCM in the format that the
/// capture produces.
pub fn check_mic_upload_format(
    audio_format: &str,
    bits: u16,
    channels: u16,
    sample_rate: u32,
    target_sample_rate: u32,
    target_channels: u16,
) -> (res: Result<(), AsrError>)
    ensures
        match spec_mic_format_error(audio_format@, bits, channels, sample_rate, target_sample_rate, target_channels) {
            None => res is Ok,
            Some(e) => res == Err::<(), AsrError>(e),
        },
{
    let n = normalized_chars(audio_format);
    if !chars_eq_str(&n, "pcm") {
        return Err(AsrError::MicFormatNotPcm);
    }
    if bits != 16 {
        return Err(AsrError::MicBitsNot16);
    }
    if channels != 1 {
        return Err(AsrError::MicNotMono);
    }
    if target_sample_rate != sample_rate || target_channels != channels {
        return Err(AsrError::MicTargetMismatch);
    }
    Ok(())
}

/// The recognition result of a session so far.
pub struct SessionProgress {
    /// The latest non-empty text received.
    pub final_text: String,
    /// A final frame was received.
    pub got_final: bool,
}

/// What a frame asks of the session loop.
pub struct FrameStep {
    /// The text to hand to the caller's callback, when the frame carried one.
    pub text: Option<String>,
    /// The frame is final: stop waiting for frames.
    pub is_final: bool,
}

impl SessionProgress {
    pub fn new() -> (res: Self)
        ensures
            res.final_text@ == Seq::<char>::empty(),
            !res.got_final,
    {
        SessionProgress { final_text: String::new(), got_final: false }
    }

    /// Takes in a server frame: an error frame ends the session; otherwise a
    /// non-empty text becomes the latest text and is handed to the callback,
    /// and a final frame marks the result final.
    pub fn absorb_frame(&mut self, frame: &ParsedFrame) -> (res: Result<FrameStep, AsrError>)
        ensures
            frame.message_type == MSG_TYPE_ERROR_RESPONSE ==> res == Err::<FrameStep, AsrError>(
                AsrError::ServerError(frame.error_code),
            ) && final(self).final_text@ == old(self).final_text@ && final(self).got_final == old(
                self,
            ).got_final,
            frame.message_type != MSG_TYPE_ERROR_RESPONSE ==> ({
                let text = spec_payload_text(frame.payload.model());
                let fin = spec_is_final(frame.message_type, frame.flags);
                &&& res matches Ok(step)
                &&& step.is_final == fin
                &&& (text.len() > 0 ==> (step.text matches Some(t) && t@ == text)
                    && final(self).final_text@ == text)
                &&& (text.len() == 0 ==> step.text is None && final(self).final_text@ == old(
                    self,
                ).final_text@)
                &&& final(self).got_final == (old(self).got_final || fin)
            }),
    {
        if frame.message_type == MSG_TYPE_ERROR_RESPONSE {
            return Err(AsrError::ServerError(frame.error_code));
        }
        let text = extract_text(&frame.payload);
        let fin = is_final_frame(frame);
        let callback_text = if !text.as_str().is_empty() {
            self.final_text = text.clone();
            Some(text)
        } else {
            None
        };
        if fin {
            self.got_final = true;
        }
        Ok(FrameStep { text: callback_text, is_final: fin })
    }
}

} // verus!
