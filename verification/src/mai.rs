//! MAI transcription through Azure Speech: option rules, the request
//! definition, the transcript of a response, WAV wrapping of PCM and the retry
//! policy of the request loop.
use vstd::prelude::*;

use crate::json::{
    is_object, join, join_item_texts, json_get, lemma_lookup_at, json_items, json_str, json_string, models,
    text_pieces, Json, JsonValue,
};
use crate::text::{
    chars_eq_str, chars_of, is_blank, normalized_chars, str_is_blank, string_push_str, to_string,
    trim, trim_str, ascii_lower, normalized, string_from_chars, trim_bounds,
};

verus! {

pub const DEFAULT_MAI_API_VERSION: &'static str = "2025-10-15";

pub const DEFAULT_MAI_MODEL: &'static str = "mai-transcribe-1.5";

pub const MAI_MODEL_V1: &'static str = "mai-transcribe-1";

pub const MAX_MAI_PHRASES: usize = 200;

/// The request settings of a MAI transcription (the HTTP timeout stays with the
/// caller that makes the request).
pub struct MaiOptions {
    pub endpoint: String,
    pub key: String,
    pub api_version: String,
    pub model: String,
    pub locales: Vec<String>,
    pub style: String,
    pub phrases: Vec<String>,
    pub max_retries: usize,
}

/// Why MAI options are refused.
pub enum MaiError {
    MissingEndpoint,
    MissingKey,
    UnsupportedModel(String),
    UnsupportedStyle(String),
    VerbatimNeedsV15,
    PhrasesNeedV15,
    TooManyPhrases,
}

/// The views of a list of strings.
pub open spec fn views(v: Seq<String>) -> Seq<Seq<char>> {
    Seq::new(v.len(), |i: int| v[i]@)
}

/// The trimmed, non-blank entries of `v`, in order.
pub open spec fn trimmed_nonblank(v: Seq<Seq<char>>) -> Seq<Seq<char>>
    decreases v.len(),
{
    if v.len() == 0 {
        Seq::empty()
    } else {
        let rest = trimmed_nonblank(v.drop_last());
        if is_blank(v.last()) {
            rest
        } else {
            rest.push(trim(v.last()))
        }
    }
}

/// Whether an entry is kept: it is not blank.
pub open spec fn entry_kept() -> spec_fn(Seq<char>) -> bool {
    |s: Seq<char>| !is_blank(s)
}

/// Kept entries are trimmed.
pub open spec fn entry_trimmed() -> spec_fn(int, Seq<char>) -> Seq<char> {
    |i: int, s: Seq<char>| trim(s)
}

/// Cleaning a list keeps its non-blank entries, in their order, each trimmed.
pub proof fn law_trimmed_nonblank(v: Seq<Seq<char>>)
    ensures
        trimmed_nonblank(v) == v.filter(entry_kept()).map(entry_trimmed()),
    decreases v.len(),
{
    reveal(Seq::filter);
    if v.len() > 0 {
        law_trimmed_nonblank(v.drop_last());
        let f = v.drop_last().filter(entry_kept());
        assert(entry_kept()(v.last()) == !is_blank(v.last()));
        if !is_blank(v.last()) {
            assert(v.filter(entry_kept()) == f.push(v.last()));
            assert(f.push(v.last()).map(entry_trimmed()) =~= f.map(entry_trimmed()).push(
                trim(v.last()),
            ));
        } else {
            assert(v.filter(entry_kept()) == f);
        }
    } else {
        assert(v.filter(entry_kept()).map(entry_trimmed()) =~= Seq::<Seq<char>>::empty());
    }
}

/// The model is `mai-transcribe-1.5` (after trimming).
pub open spec fn is_v15(o: MaiOptions) -> bool {
    trim(o.model@) == "mai-transcribe-1.5"@
}

/// Why `o` is refused, check by check; `None` when it is accepted.
pub open spec fn mai_options_error(o: MaiOptions) -> Option<MaiError> {
    if is_blank(o.endpoint@) {
        Some(MaiError::MissingEndpoint)
    } else if is_blank(o.key@) {
        Some(MaiError::MissingKey)
    } else if !(trim(o.model@) == "mai-transcribe-1"@ || is_v15(o)) {
        Some(MaiError::UnsupportedModel(o.model))
    } else if !(trim(o.style@) == "default"@ || trim(o.style@) == "verbatim"@) {
        Some(MaiError::UnsupportedStyle(o.style))
    } else if !is_v15(o) && trim(o.style@) == "verbatim"@ {
        Some(MaiError::VerbatimNeedsV15)
    } else if !is_v15(o) && o.phrases@.len() > 0 {
        Some(MaiError::PhrasesNeedV15)
    } else if o.phrases@.len() > MAX_MAI_PHRASES {
        Some(MaiError::TooManyPhrases)
    } else {
        None
    }
}

/// The members of the `enhancedMode` object of the definition.
pub open spec fn enhanced_mode_members(o: MaiOptions) -> Seq<(Seq<char>, Json)> {
    let base = seq![
        ("enabled"@, Json::Bool(true)),
        ("task"@, Json::Str("transcribe"@)),
        ("model"@, Json::Str(trim(o.model@))),
    ];
    if is_v15(o) && trim(o.style@) != "default"@ {
        base.push(("transcribeStyle"@, Json::Str(trim(o.style@))))
    } else {
        base
    }
}

/// A JSON array of strings.
pub open spec fn string_array(v: Seq<Seq<char>>) -> Json {
    Json::Array(Seq::new(v.len(), |i: int| Json::Str(v[i])))
}

/// The `definition` part of a MAI request: the locale hints (left out when no
/// locale is given, so that the service detects the language), the enhanced
/// mode, and for `mai-transcribe-1.5` the phrase list.
pub open spec fn mai_definition(o: MaiOptions) -> Json {
    let locales = trimmed_nonblank(views(o.locales@));
    let phrases = trimmed_nonblank(views(o.phrases@));
    let with_locales: Seq<(Seq<char>, Json)> = if locales.len() > 0 {
        seq![("locales"@, string_array(locales))]
    } else {
        Seq::empty()
    };
    let with_mode = with_locales.push(("enhancedMode"@, Json::Object(enhanced_mode_members(o))));
    if is_v15(o) && o.phrases@.len() > 0 && phrases.len() > 0 {
        Json::Object(
            with_mode.push(
                ("phraseList"@, Json::Object(seq![("phrases"@, string_array(phrases))])),
            ),
        )
    } else {
        Json::Object(with_mode)
    }
}

/// The definition sent to MAI carries the requested transcription, for every
/// model: the trimmed, non-blank locales when there are any (none means
/// auto-detection), the model by its trimmed name, the style only when it is
/// not `default` on `mai-transcribe-1.5`, and the trimmed non-blank phrases
/// on `mai-transcribe-1.5`, and nothing else.
pub proof fn law_definition_carries_options(o: MaiOptions)
    ensures
        ({
            let d = mai_definition(o);
            let ls = trimmed_nonblank(views(o.locales@));
            let ps = trimmed_nonblank(views(o.phrases@));
            let v15 = trim(o.model@) == "mai-transcribe-1.5"@;
            let mode = json_get(d, "enhancedMode"@);
            &&& ls.len() > 0 ==> json_get(d, "locales"@) == Some(
                Json::Array(Seq::new(ls.len(), |i: int| Json::Str(ls[i]))),
            )
            &&& ls.len() == 0 ==> json_get(d, "locales"@) is None
            &&& mode is Some
            &&& json_get(mode.unwrap(), "enabled"@) == Some(Json::Bool(true))
            &&& json_get(mode.unwrap(), "task"@) == Some(Json::Str("transcribe"@))
            &&& json_get(mode.unwrap(), "model"@) == Some(Json::Str(trim(o.model@)))
            &&& (v15 && trim(o.style@) != "default"@) ==> json_get(mode.unwrap(), "transcribeStyle"@)
                == Some(Json::Str(trim(o.style@)))
            &&& !(v15 && trim(o.style@) != "default"@) ==> json_get(
                mode.unwrap(),
                "transcribeStyle"@,
            ) is None
            &&& (v15 && ps.len() > 0) ==> json_get(d, "phraseList"@) == Some(
                Json::Object(
                    seq![("phrases"@, Json::Array(Seq::new(ps.len(), |i: int| Json::Str(ps[i]))))],
                ),
            )
            &&& !(v15 && ps.len() > 0) ==> json_get(d, "phraseList"@) is None
            &&& d matches Json::Object(top) && top.len() == (if ls.len() > 0 {
                1int
            } else {
                0int
            }) + 1 + (if v15 && ps.len() > 0 {
                1int
            } else {
                0int
            })
            &&& mode.unwrap() matches Json::Object(em) && em.len() == (if v15 && trim(o.style@)
                != "default"@ {
                4int
            } else {
                3int
            })
        }),
{
    reveal_strlit("locales");
    reveal_strlit("enhancedMode");
    reveal_strlit("phraseList");
    reveal_strlit("enabled");
    reveal_strlit("task");
    reveal_strlit("model");
    reveal_strlit("transcribeStyle");
    assert("locales"@.len() == 7 && "enhancedMode"@.len() == 12 && "phraseList"@.len() == 10);
    assert("enabled"@.len() == 7 && "task"@.len() == 4 && "model"@.len() == 5);
    assert("transcribeStyle"@.len() == 15);
    let ls = trimmed_nonblank(views(o.locales@));
    let ps = trimmed_nonblank(views(o.phrases@));
    let v15 = trim(o.model@) == "mai-transcribe-1.5"@;
    if ps.len() > 0 {
        assert(views(o.phrases@).len() > 0) by {
            if views(o.phrases@).len() == 0 {
                assert(views(o.phrases@) =~= Seq::<Seq<char>>::empty());
            }
        }
    }
    let locales_json = Json::Array(Seq::new(ls.len(), |i: int| Json::Str(ls[i])));
    assert(string_array(ls) == locales_json);
    let with_locales: Seq<(Seq<char>, Json)> = if ls.len() > 0 {
        seq![("locales"@, string_array(ls))]
    } else {
        Seq::empty()
    };
    let mode = Json::Object(enhanced_mode_members(o));
    let with_mode = with_locales.push(("enhancedMode"@, mode));
    let top = if v15 && o.phrases@.len() > 0 && ps.len() > 0 {
        with_mode.push(("phraseList"@, Json::Object(seq![("phrases"@, string_array(ps))])))
    } else {
        with_mode
    };
    assert(mai_definition(o) == Json::Object(top));
    let k = with_locales.len() as int;
    if ls.len() > 0 {
        lemma_lookup_at(top, "locales"@, 0);
    } else {
        crate::json::lemma_lookup_absent(top, "locales"@);
    }
    lemma_lookup_at(top, "enhancedMode"@, k);
    if v15 && ps.len() > 0 {
        lemma_lookup_at(top, "phraseList"@, k + 1);
        lemma_lookup_at(seq![("phrases"@, string_array(ps))], "phrases"@, 0);
    } else {
        crate::json::lemma_lookup_absent(top, "phraseList"@);
    }
    let em = enhanced_mode_members(o);
    lemma_lookup_at(em, "enabled"@, 0);
    lemma_lookup_at(em, "task"@, 1);
    lemma_lookup_at(em, "model"@, 2);
    if v15 && trim(o.style@) != "default"@ {
        lemma_lookup_at(em, "transcribeStyle"@, 3);
    } else {
        crate::json::lemma_lookup_absent(em, "transcribeStyle"@);
    }
}

/// The options MAI accepts: an endpoint and a key, model `mai-transcribe-1` or
/// `mai-transcribe-1.5` and style `default` or `verbatim` (compared trimmed),
/// the verbatim style and a phrase list only with `mai-transcribe-1.5`, and at
/// most 200 phrases; a missing endpoint is reported first, then a missing key.
pub proof fn law_accepted_options(o: MaiOptions)
    ensures
        ({
            let m = trim(o.model@);
            let st = trim(o.style@);
            mai_options_error(o) is None <==> (!is_blank(o.endpoint@) && !is_blank(o.key@) && (m
                == "mai-transcribe-1"@ || m == "mai-transcribe-1.5"@) && (st == "default"@ || st
                == "verbatim"@) && (st == "verbatim"@ ==> m == "mai-transcribe-1.5"@) && (
            o.phrases@.len() > 0 ==> m == "mai-transcribe-1.5"@) && o.phrases@.len() <= 200)
        }),
        is_blank(o.endpoint@) ==> mai_options_error(o) == Some(MaiError::MissingEndpoint),
        !is_blank(o.endpoint@) && is_blank(o.key@) ==> mai_options_error(o) == Some(
            MaiError::MissingKey,
        ),
{
}

/// `s` is `prefix` followed only by slashes, and `prefix` does not end with
/// one.
pub open spec fn without_trailing_slashes(s: Seq<char>, prefix: Seq<char>) -> bool {
    &&& prefix.len() <= s.len()
    &&& s.subrange(0, prefix.len() as int) == prefix
    &&& forall|i: int| prefix.len() <= i < s.len() ==> s[i] == '/'
    &&& (prefix.len() == 0 || prefix.last() != '/')
}

proof fn lemma_strip_trailing_slashes(s: Seq<char>)
    ensures
        without_trailing_slashes(s, strip_trailing_slashes(s)),
    decreases s.len(),
{
    if s.len() > 0 && s.last() == '/' {
        lemma_strip_trailing_slashes(s.drop_last());
        let p = strip_trailing_slashes(s.drop_last());
        assert(s.subrange(0, p.len() as int) =~= s.drop_last().subrange(0, p.len() as int));
        assert forall|i: int| p.len() <= i < s.len() implies s[i] == '/' by {
            if i < s.len() - 1 {
                assert(s[i] == s.drop_last()[i]);
            }
        }
    } else {
        assert(s.subrange(0, s.len() as int) =~= s);
    }
}

/// The request goes to the trimmed endpoint without its trailing slashes,
/// followed by the synchronous transcription path and the trimmed API version.
pub proof fn law_transcribe_url(endpoint: Seq<char>, api_version: Seq<char>)
    ensures
        exists|base: Seq<char>|
            without_trailing_slashes(trim(endpoint), base) && transcribe_url(endpoint, api_version)
                == base + "/speechtotext/transcriptions:transcribe?api-version="@ + trim(api_version),
{
    lemma_strip_trailing_slashes(trim(endpoint));
    let base = strip_trailing_slashes(trim(endpoint));
    assert(without_trailing_slashes(trim(endpoint), base));
}

/// The value of four little-endian bytes.
pub open spec fn le_value(b: Seq<u8>, at: int) -> int {
    b[at] + b[at + 1] * 0x100 + b[at + 2] * 0x10000 + b[at + 3] * 0x1000000
}

proof fn lemma_le32_value(n: u32)
    ensures
        le_value(le32(n), 0) == n,
{
    assert((n % 0x100) as u8 + ((n / 0x100) % 0x100) as u8 * 0x100 + ((n / 0x10000) % 0x100) as u8
        * 0x10000 + (n / 0x1000000) as u8 * 0x1000000 == n) by (bit_vector);
}

proof fn lemma_le16_value(n: u16)
    ensures
        le16(n)[0] + le16(n)[1] * 0x100 == n,
{
    assert((n % 0x100) as u8 + (n / 0x100) as u8 * 0x100 == n) by (bit_vector);
}

/// A WAV file of 16-bit PCM: `RIFF` with the file length less 8, `WAVE`, a
/// 16-byte `fmt ` chunk of PCM (format 1) with the channel count, sample
/// rate, byte rate (rate x channels x bits / 8), block size (channels x bits /
/// 8) and bits per sample, then `data` with the sample byte count and the
/// samples themselves, all numbers little-endian.
pub proof fn law_wav_layout(pcm: Seq<u8>, sample_rate: u32, bits: u16, channels: u16)
    requires
        sample_rate * channels * bits <= u32::MAX,
        channels * bits <= u16::MAX,
        pcm.len() + 36 <= u32::MAX,
    ensures
        ({
            let w = wav_bytes(pcm, sample_rate, bits, channels);
            &&& w.len() == 44 + pcm.len()
            &&& w.subrange(0, 4) == seq![0x52u8, 0x49, 0x46, 0x46]
            &&& le_value(w, 4) == pcm.len() + 36
            &&& w.subrange(8, 16) == seq![0x57u8, 0x41, 0x56, 0x45, 0x66, 0x6d, 0x74, 0x20]
            &&& le_value(w, 16) == 16
            &&& w[20] + w[21] * 0x100 == 1
            &&& w[22] + w[23] * 0x100 == channels
            &&& le_value(w, 24) == sample_rate
            &&& le_value(w, 28) == sample_rate * channels * bits / 8
            &&& w[32] + w[33] * 0x100 == channels * bits / 8
            &&& w[34] + w[35] * 0x100 == bits
            &&& w.subrange(36, 40) == seq![0x64u8, 0x61, 0x74, 0x61]
            &&& le_value(w, 40) == pcm.len()
            &&& w.subrange(44, w.len() as int) == pcm
        }),
{
    let w = wav_bytes(pcm, sample_rate, bits, channels);
    let data_len = pcm.len() as u32;
    let byte_rate = (sample_rate * channels * bits / 8) as u32;
    let block_align = (channels * bits / 8) as u16;
    lemma_le32_value(riff_len(data_len));
    lemma_le32_value(16);
    lemma_le32_value(sample_rate);
    lemma_le32_value(byte_rate);
    lemma_le32_value(data_len);
    lemma_le16_value(1);
    lemma_le16_value(channels);
    lemma_le16_value(block_align);
    lemma_le16_value(bits);
    let parts = seq![0x52u8, 0x49, 0x46, 0x46] + le32(riff_len(data_len)) + seq![0x57u8, 0x41, 0x56, 0x45]
        + seq![0x66u8, 0x6d, 0x74, 0x20] + le32(16) + le16(1) + le16(channels) + le32(sample_rate)
        + le32(byte_rate) + le16(block_align) + le16(bits) + seq![0x64u8, 0x61, 0x74, 0x61] + le32(
        data_len,
    );
    assert(parts.len() == 44);
    assert(w == parts + pcm);
    assert(w.subrange(0, 4) =~= seq![0x52u8, 0x49, 0x46, 0x46]);
    assert(w.subrange(8, 16) =~= seq![0x57u8, 0x41, 0x56, 0x45, 0x66, 0x6d, 0x74, 0x20]);
    assert(w.subrange(36, 40) =~= seq![0x64u8, 0x61, 0x74, 0x61]);
    assert(w.subrange(44, w.len() as int) =~= pcm);
    assert(forall|i: int| 0 <= i < 4 ==> w[4 + i] == le32(riff_len(data_len))[i]);
    assert(forall|i: int| 0 <= i < 4 ==> w[16 + i] == le32(16)[i]);
    assert(forall|i: int| 0 <= i < 4 ==> w[24 + i] == le32(sample_rate)[i]);
    assert(forall|i: int| 0 <= i < 4 ==> w[28 + i] == le32(byte_rate)[i]);
    assert(forall|i: int| 0 <= i < 4 ==> w[40 + i] == le32(data_len)[i]);
    assert(w[20] == le16(1)[0] && w[21] == le16(1)[1]);
    assert(w[22] == le16(channels)[0] && w[23] == le16(channels)[1]);
    assert(w[32] == le16(block_align)[0] && w[33] == le16(block_align)[1]);
    assert(w[34] == le16(bits)[0] && w[35] == le16(bits)[1]);
}

/// The MIME type of each known audio extension (already lower-cased), and
/// `application/octet-stream` for any other.
pub proof fn law_content_types(ext: Seq<char>)
    ensures
        ext == "wav"@ ==> content_type_for(ext) == "audio/wav"@,
        ext == "mp3"@ ==> content_type_for(ext) == "audio/mpeg"@,
        (ext == "m4a"@ || ext == "mp4"@) ==> content_type_for(ext) == "audio/mp4"@,
        ext == "flac"@ ==> content_type_for(ext) == "audio/flac"@,
        (ext == "ogg"@ || ext == "oga"@) ==> content_type_for(ext) == "audio/ogg"@,
        ext == "webm"@ ==> content_type_for(ext) == "audio/webm"@,
        !(ext == "wav"@ || ext == "mp3"@ || ext == "m4a"@ || ext == "mp4"@ || ext == "flac"@ || ext
            == "ogg"@ || ext == "oga"@ || ext == "webm"@) ==> content_type_for(ext)
            == "application/octet-stream"@,
{
    reveal_strlit("wav");
    assert("wav"@ =~= seq!['w', 'a', 'v']);
    reveal_strlit("mp3");
    assert("mp3"@ =~= seq!['m', 'p', '3']);
    reveal_strlit("m4a");
    assert("m4a"@ =~= seq!['m', '4', 'a']);
    reveal_strlit("mp4");
    assert("mp4"@ =~= seq!['m', 'p', '4']);
    reveal_strlit("flac");
    assert("flac"@ =~= seq!['f', 'l', 'a', 'c']);
    reveal_strlit("ogg");
    assert("ogg"@ =~= seq!['o', 'g', 'g']);
    reveal_strlit("oga");
    assert("oga"@ =~= seq!['o', 'g', 'a']);
    reveal_strlit("webm");
    assert("webm"@ =~= seq!['w', 'e', 'b', 'm']);
}

fn trimmed_equals(s: &str, lit: &str) -> (r: bool)
    ensures
        r == (trim(s@) == lit@),
{
    let chars = chars_of(s);
    let (a, b) = trim_bounds(&chars);
    let t = string_from_chars(&chars, a, b);
    let tc = chars_of(t.as_str());
    chars_eq_str(&tc, lit)
}

/// The trimmed, non-blank entries of `v`.
pub fn trimmed_nonblank_strings(v: &Vec<String>) -> (res: Vec<String>)
    ensures
        views(res@) == trimmed_nonblank(views(v@)),
{
    let mut out: Vec<String> = Vec::new();
    let mut i: usize = 0;
    while i < v.len()
        invariant
            i <= v@.len(),
            views(out@) == trimmed_nonblank(views(v@).take(i as int)),
        decreases v.len() - i,
    {
        proof {
            assert(views(v@).take(i + 1).drop_last() =~= views(v@).take(i as int));
            assert(views(v@).take(i + 1).last() == v@[i as int]@);
        }
        if !str_is_blank(v[i].as_str()) {
            let ghost before = out@;
            out.push(trim_str(v[i].as_str()));
            proof {
                assert(views(out@) =~= views(before).push(trim(v@[i as int]@)));
            }
        }
        i = i + 1;
    }
    proof {
        assert(views(v@).take(i as int) =~= views(v@));
    }
    out
}

fn string_array_of(v: Vec<String>) -> (res: JsonValue)
    ensures
        res.model() == string_array(views(v@)),
{
    let mut items: Vec<JsonValue> = Vec::new();
    let mut i: usize = 0;
    while i < v.len()
        invariant
            i <= v@.len(),
            items@.len() == i,
            forall|j: int| 0 <= j < i ==> #[trigger] items@[j].model() == Json::Str(v@[j]@),
        decreases v.len() - i,
    {
        items.push(json_string(v[i].as_str()));
        i = i + 1;
    }
    let res = JsonValue::Array(items);
    proof {
        let ms = json_items(Some(res.model())).unwrap();
        let expected = Seq::new(views(v@).len(), |k: int| Json::Str(views(v@)[k]));
        assert(ms.len() == expected.len());
        assert forall|k: int| 0 <= k < ms.len() implies ms[k] == expected[k] by {
            assert(ms[k] == items@[k].model());
        }
        assert(ms =~= expected);
    }
    res
}

fn object_from(entries: Vec<(String, JsonValue)>, Ghost(expected): Ghost<Seq<(Seq<char>, Json)>>) -> (res: JsonValue)
    requires
        entries@.len() == expected.len(),
        forall|i: int| 0 <= i < expected.len() ==> #[trigger] expected[i] == (entries@[i].0@, entries@[i].1.model()),
    ensures
        res.model() == Json::Object(expected),
{
    let res = JsonValue::Object(entries);
    proof {
        assert(match res.model() {
            Json::Object(es) => es =~= expected,
            _ => false,
        });
    }
    res
}

impl MaiOptions {
    /// Checks the options: endpoint and key present, a supported model and
    /// style, verbatim style and phrases only with `mai-transcribe-1.5`, at most
    /// 200 phrases.
    pub fn validate(&self) -> (res: Result<(), MaiError>)
        ensures
            match mai_options_error(*self) {
                None => res is Ok,
                Some(e) => res == Err::<(), MaiError>(e),
            },
    {
        if str_is_blank(self.endpoint.as_str()) {
            return Err(MaiError::MissingEndpoint);
        }
        if str_is_blank(self.key.as_str()) {
            return Err(MaiError::MissingKey);
        }
        let v15 = trimmed_equals(self.model.as_str(), "mai-transcribe-1.5");
        if !(trimmed_equals(self.model.as_str(), "mai-transcribe-1") || v15) {
            return Err(MaiError::UnsupportedModel(self.model.clone()));
        }
        let style_default = trimmed_equals(self.style.as_str(), "default");
        let style_verbatim = trimmed_equals(self.style.as_str(), "verbatim");
        if !(style_default || style_verbatim) {
            return Err(MaiError::UnsupportedStyle(self.style.clone()));
        }
        if !v15 && style_verbatim {
            return Err(MaiError::VerbatimNeedsV15);
        }
        if !v15 && self.phrases.len() > 0 {
            return Err(MaiError::PhrasesNeedV15);
        }
        if self.phrases.len() > MAX_MAI_PHRASES {
            return Err(MaiError::TooManyPhrases);
        }
        Ok(())
    }

    /// The `definition` sent with the audio, after the options are validated.
    pub fn definition(&self) -> (res: Result<JsonValue, MaiError>)
        ensures
            match mai_options_error(*self) {
                None => res matches Ok(d) && d.model() == mai_definition(*self),
                Some(e) => res == Err::<JsonValue, MaiError>(e),
            },
    {
        self.validate()?;
        let v15 = trimmed_equals(self.model.as_str(), "mai-transcribe-1.5");
        let locales = trimmed_nonblank_strings(&self.locales);
        let mut top: Vec<(String, JsonValue)> = Vec::new();
        let ghost locales_view = views(locales@);
        if locales.len() > 0 {
            top.push((to_string("locales"), string_array_of(locales)));
        }
        let mut mode: Vec<(String, JsonValue)> = Vec::new();
        mode.push((to_string("enabled"), JsonValue::Bool(true)));
        mode.push((to_string("task"), json_string("transcribe")));
        mode.push((to_string("model"), JsonValue::Str(trim_str(self.model.as_str()))));
        if v15 && !trimmed_equals(self.style.as_str(), "default") {
            mode.push((to_string("transcribeStyle"), JsonValue::Str(trim_str(self.style.as_str()))));
        }
        let mode_obj = object_from(mode, Ghost(enhanced_mode_members(*self)));
        top.push((to_string("enhancedMode"), mode_obj));
        let ghost with_locales: Seq<(Seq<char>, Json)> = if locales_view.len() > 0 {
            seq![("locales"@, string_array(locales_view))]
        } else {
            Seq::empty()
        };
        let ghost with_mode = with_locales.push(
            ("enhancedMode"@, Json::Object(enhanced_mode_members(*self))),
        );
        if v15 && self.phrases.len() > 0 {
            let phrases = trimmed_nonblank_strings(&self.phrases);
            if phrases.len() > 0 {
                let ghost phrases_view = views(phrases@);
                let phrases_arr = string_array_of(phrases);
                let mut list: Vec<(String, JsonValue)> = Vec::new();
                list.push((to_string("phrases"), phrases_arr));
                let ghost list_members = seq![("phrases"@, string_array(phrases_view))];
                let list_obj = object_from(list, Ghost(list_members));
                top.push((to_string("phraseList"), list_obj));
                let ghost full = with_mode.push(("phraseList"@, Json::Object(list_members)));
                return Ok(object_from(top, Ghost(full)));
            }
        }
        Ok(object_from(top, Ghost(with_mode)))
    }
}

/// The joined trimmed texts of the array under `key`, when that is an array and
/// the joined text is not blank.
pub open spec fn phrases_text(v: Json, key: Seq<char>) -> Option<Seq<char>> {
    match json_items(json_get(v, key)) {
        Some(items) => {
            let joined = join(text_pieces(items), "\n"@);
            if is_blank(joined) {
                None
            } else {
                Some(joined)
            }
        },
        None => None,
    }
}

/// The transcript of a MAI response: the `combinedPhrases` texts, else the
/// `phrases` texts, each joined with newlines, else the trimmed top-level
/// `text`, else nothing.
pub open spec fn spec_transcript(v: Json) -> Seq<char> {
    match phrases_text(v, "combinedPhrases"@) {
        Some(t) => t,
        None => match phrases_text(v, "phrases"@) {
            Some(t) => t,
            None => match json_str(json_get(v, "text"@)) {
                Some(t) => trim(t),
                None => Seq::empty(),
            },
        },
    }
}

fn phrases_text_of(v: &JsonValue, key: &str) -> (res: Option<String>)
    ensures
        match res {
            Some(s) => phrases_text(v.model(), key@) == Some(s@),
            None => phrases_text(v.model(), key@) is None,
        },
{
    match v.get(key) {
        Some(field) => match field.as_array() {
            Some(items) => {
                let joined = join_item_texts(items, "\n");
                if str_is_blank(joined.as_str()) {
                    None
                } else {
                    Some(joined)
                }
            },
            None => None,
        },
        None => None,
    }
}

/// The transcript carried by a MAI response.
pub fn extract_transcript(response_json: &JsonValue) -> (res: String)
    ensures
        res@ == spec_transcript(response_json.model()),
{
    if let Some(t) = phrases_text_of(response_json, "combinedPhrases") {
        return t;
    }
    if let Some(t) = phrases_text_of(response_json, "phrases") {
        return t;
    }
    match response_json.get("text") {
        Some(text) => match text.as_str() {
            Some(s) => trim_str(s.as_str()),
            None => String::new(),
        },
        None => String::new(),
    }
}

/// The little-endian bytes of a `u32`.
pub open spec fn le32(n: u32) -> Seq<u8> {
    seq![
        (n % 0x100) as u8,
        ((n / 0x100) % 0x100) as u8,
        ((n / 0x10000) % 0x100) as u8,
        (n / 0x1000000) as u8,
    ]
}

/// The little-endian bytes of a `u16`.
pub open spec fn le16(n: u16) -> Seq<u8> {
    seq![(n % 0x100) as u8, (n / 0x100) as u8]
}

/// The length written in the RIFF header: 36 plus the data length, saturated.
pub open spec fn riff_len(data_len: u32) -> u32 {
    if 36 + data_len > u32::MAX {
        u32::MAX
    } else {
        (36 + data_len) as u32
    }
}

/// A canonical 44-byte PCM WAV header followed by the samples: `RIFF` chunk,
/// `fmt ` chunk (PCM, channels, rate, byte rate, block align, bits) and the
/// `data` chunk, whose length is the byte count truncated to 32 bits.
pub open spec fn wav_bytes(pcm: Seq<u8>, sample_rate: u32, bits: u16, channels: u16) -> Seq<u8> {
    let data_len = pcm.len() as u32;
    let byte_rate = (sample_rate * channels * bits / 8) as u32;
    let block_align = (channels * bits / 8) as u16;
    seq![0x52u8, 0x49, 0x46, 0x46] + le32(riff_len(data_len)) + seq![0x57u8, 0x41, 0x56, 0x45]
        + seq![0x66u8, 0x6d, 0x74, 0x20] + le32(16) + le16(1) + le16(channels) + le32(
        sample_rate,
    ) + le32(byte_rate) + le16(block_align) + le16(bits) + seq![0x64u8, 0x61, 0x74, 0x61]
        + le32(data_len) + pcm
}

fn push_le32(out: &mut Vec<u8>, n: u32)
    ensures
        final(out)@ == old(out)@ + le32(n),
{
    out.push((n % 0x100) as u8);
    out.push(((n / 0x100) % 0x100) as u8);
    out.push(((n / 0x10000) % 0x100) as u8);
    out.push((n / 0x1000000) as u8);
    assert(out@ =~= old(out)@ + le32(n));
}

fn push_le16(out: &mut Vec<u8>, n: u16)
    ensures
        final(out)@ == old(out)@ + le16(n),
{
    out.push((n % 0x100) as u8);
    out.push((n / 0x100) as u8);
    assert(out@ =~= old(out)@ + le16(n));
}

fn push_tag(out: &mut Vec<u8>, a: u8, b: u8, c: u8, d: u8)
    ensures
        final(out)@ == old(out)@ + seq![a, b, c, d],
{
    out.push(a);
    out.push(b);
    out.push(c);
    out.push(d);
    assert(out@ =~= old(out)@ + seq![a, b, c, d]);
}

/// Wraps 16-bit PCM samples in a WAV container.
pub fn pcm16_to_wav(pcm_bytes: &[u8], sample_rate: u32, bits: u16, channels: u16) -> (res: Vec<u8>)
    requires
        sample_rate * channels <= u32::MAX,
        sample_rate * channels * bits <= u32::MAX,
        channels * bits <= u16::MAX,
    ensures
        res@ == wav_bytes(pcm_bytes@, sample_rate, bits, channels),
        res@.len() == 44 + pcm_bytes@.len(),
        res@.subrange(44, res@.len() as int) == pcm_bytes@,
{
    let data_len = pcm_bytes.len() as u32;
    let rate_channels: u32 = sample_rate * channels as u32;
    let byte_rate: u32 = rate_channels * bits as u32 / 8;
    let block_align: u16 = channels * bits / 8;
    let riff: u32 = data_len.saturating_add(36);
    proof {
        assert((sample_rate * channels * bits) == (sample_rate * channels) * bits) by (nonlinear_arith);
    }
    let mut wav: Vec<u8> = Vec::new();
    push_tag(&mut wav, 0x52, 0x49, 0x46, 0x46);
    push_le32(&mut wav, riff);
    push_tag(&mut wav, 0x57, 0x41, 0x56, 0x45);
    push_tag(&mut wav, 0x66, 0x6d, 0x74, 0x20);
    push_le32(&mut wav, 16);
    push_le16(&mut wav, 1);
    push_le16(&mut wav, channels);
    push_le32(&mut wav, sample_rate);
    push_le32(&mut wav, byte_rate);
    push_le16(&mut wav, block_align);
    push_le16(&mut wav, bits);
    push_tag(&mut wav, 0x64, 0x61, 0x74, 0x61);
    push_le32(&mut wav, data_len);
    let ghost header = wav@;
    let mut i: usize = 0;
    while i < pcm_bytes.len()
        invariant
            i <= pcm_bytes@.len(),
            header.len() == 44,
            wav@ == header + pcm_bytes@.subrange(0, i as int),
        decreases pcm_bytes.len() - i,
    {
        wav.push(pcm_bytes[i]);
        i = i + 1;
        assert(wav@ =~= header + pcm_bytes@.subrange(0, i as int));
    }
    proof {
        assert(pcm_bytes@.subrange(0, i as int) =~= pcm_bytes@);
        assert(riff == riff_len(data_len));
        assert(wav@ =~= wav_bytes(pcm_bytes@, sample_rate, bits, channels));
        assert(wav@.subrange(44, wav@.len() as int) =~= pcm_bytes@);
    }
    wav
}

/// What `Path::extension` gives for `path`, as text.
pub uninterp spec fn path_extension(path: Seq<char>) -> Option<Seq<char>>;

/// The extension of a path (`std::path::Path::extension`).
#[verifier::external_body]
fn extension_of(path: &str) -> (res: Option<String>)
    ensures
        match res {
            Some(e) => path_extension(path@) == Some(e@),
            None => path_extension(path@) is None,
        },
{
    std::path::Path::new(path).extension().and_then(|value| value.to_str()).map(|value| value.to_owned())
}

/// The MIME type for a (lower-case) file extension.
pub open spec fn content_type_for(ext: Seq<char>) -> Seq<char> {
    if ext == "wav"@ {
        "audio/wav"@
    } else if ext == "mp3"@ {
        "audio/mpeg"@
    } else if ext == "m4a"@ || ext == "mp4"@ {
        "audio/mp4"@
    } else if ext == "flac"@ {
        "audio/flac"@
    } else if ext == "ogg"@ || ext == "oga"@ {
        "audio/ogg"@
    } else if ext == "webm"@ {
        "audio/webm"@
    } else {
        "application/octet-stream"@
    }
}

/// The MIME type of an audio file, by its extension (compared ignoring ASCII
/// case).
pub fn guess_audio_content_type(path: &str) -> (res: &'static str)
    ensures
        res@ == content_type_for(
            match path_extension(path@) {
                Some(e) => ascii_lower(e),
                None => Seq::empty(),
            },
        ),
{
    let ext = match extension_of(path) {
        Some(e) => crate::text::lower_chars(&chars_of(e.as_str())),
        None => Vec::new(),
    };
    proof {
        assert(path_extension(path@) is None ==> ext@ =~= Seq::<char>::empty());
    }
    if chars_eq_str(&ext, "wav") {
        "audio/wav"
    } else if chars_eq_str(&ext, "mp3") {
        "audio/mpeg"
    } else if chars_eq_str(&ext, "m4a") || chars_eq_str(&ext, "mp4") {
        "audio/mp4"
    } else if chars_eq_str(&ext, "flac") {
        "audio/flac"
    } else if chars_eq_str(&ext, "ogg") || chars_eq_str(&ext, "oga") {
        "audio/ogg"
    } else if chars_eq_str(&ext, "webm") {
        "audio/webm"
    } else {
        "application/octet-stream"
    }
}

/// `s` without its trailing `/` characters (`trim_end_matches('/')`).
pub open spec fn strip_trailing_slashes(s: Seq<char>) -> Seq<char>
    decreases s.len(),
{
    if s.len() > 0 && s.last() == '/' {
        strip_trailing_slashes(s.drop_last())
    } else {
        s
    }
}

/// The synchronous transcription URL of an endpoint and API version.
pub open spec fn transcribe_url(endpoint: Seq<char>, api_version: Seq<char>) -> Seq<char> {
    strip_trailing_slashes(trim(endpoint)) + "/speechtotext/transcriptions:transcribe?api-version="@
        + trim(api_version)
}

/// The transcription URL for these options.
pub fn build_transcribe_url(options: &MaiOptions) -> (res: String)
    ensures
        res@ == transcribe_url(options.endpoint@, options.api_version@),
{
    let chars = chars_of(options.endpoint.as_str());
    let (a, b) = trim_bounds(&chars);
    let mut end = b;
    while end > a && chars[end - 1] == '/'
        invariant
            a <= end <= b <= chars.len(),
            chars@.subrange(a as int, b as int) == trim(options.endpoint@),
            strip_trailing_slashes(chars@.subrange(a as int, b as int)) == strip_trailing_slashes(
                chars@.subrange(a as int, end as int),
            ),
        decreases end,
    {
        proof {
            let s = chars@.subrange(a as int, end as int);
            assert(s.drop_last() =~= chars@.subrange(a as int, end - 1));
        }
        end = end - 1;
    }
    let mut url = string_from_chars(&chars, a, end);
    string_push_str(&mut url, "/speechtotext/transcriptions:transcribe?api-version=");
    let version = trim_str(options.api_version.as_str());
    string_push_str(&mut url, version.as_str());
    url
}

/// HTTP statuses after which the request is tried again: 429, 500, 502, 503,
/// 504.
pub open spec fn spec_is_retriable(status: u16) -> bool {
    status == 429 || status == 500 || status == 502 || status == 503 || status == 504
}

/// The HTTP status is worth another attempt.
pub fn is_retriable(status: u16) -> (r: bool)
    ensures
        r == spec_is_retriable(status),
{
    status == 429 || status == 500 || status == 502 || status == 503 || status == 504
}

/// How an attempt of the request ended without a transcript.
pub enum AttemptFailure {
    /// The service answered with this non-success HTTP status.
    Status(u16),
    /// The request did not complete.
    Transport,
}

/// What the request loop does after a failed attempt.
pub enum RetryDecision {
    GiveUp,
    RetryAfterSeconds(u64),
}

/// `2^min(attempt, 5)`.
pub open spec fn backoff_seconds(attempt: nat) -> u64 {
    if attempt == 0 {
        1
    } else if attempt == 1 {
        2
    } else if attempt == 2 {
        4
    } else if attempt == 3 {
        8
    } else if attempt == 4 {
        16
    } else {
        32
    }
}

/// After failed attempt number `attempt` (from 0): give up on a status that is
/// not retriable or once `max_retries` retries are spent; otherwise wait
/// `2^min(attempt, 5)` seconds and try again.
pub open spec fn spec_retry_decision(attempt: nat, max_retries: nat, failure: AttemptFailure) -> RetryDecision {
    let give_up = match failure {
        AttemptFailure::Status(code) => !spec_is_retriable(code) || attempt >= max_retries,
        AttemptFailure::Transport => attempt >= max_retries,
    };
    if give_up {
        RetryDecision::GiveUp
    } else {
        RetryDecision::RetryAfterSeconds(backoff_seconds(attempt))
    }
}

/// Only a transient failure is tried again, at most `max_retries` times, and
/// never after more than 32 seconds.
pub proof fn law_retry_only_transient(attempt: nat, max_retries: nat, failure: AttemptFailure)
    ensures
        spec_retry_decision(attempt, max_retries, failure) matches RetryDecision::RetryAfterSeconds(
            d,
        ) ==> attempt < max_retries && 1 <= d <= 32 && (failure matches AttemptFailure::Status(c)
            ==> spec_is_retriable(c)),
{
}

/// The retry decision of the request loop.
pub fn retry_decision(attempt: usize, max_retries: usize, failure: AttemptFailure) -> (res: RetryDecision)
    ensures
        res == spec_retry_decision(attempt as nat, max_retries as nat, failure),
{
    let give_up = match failure {
        AttemptFailure::Status(code) => !is_retriable(code) || attempt >= max_retries,
        AttemptFailure::Transport => attempt >= max_retries,
    };
    if give_up {
        return RetryDecision::GiveUp;
    }
    let capped = if attempt < 5 {
        attempt
    } else {
        5
    };
    let mut delay: u64 = 1;
    let mut i: usize = 0;
    while i < capped
        invariant
            i <= capped <= 5,
            delay == backoff_seconds(i as nat),
        decreases capped - i,
    {
        delay = delay * 2;
        i = i + 1;
    }
    RetryDecision::RetryAfterSeconds(delay)
}

} // verus!
